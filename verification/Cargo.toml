[package]
name = "wasm_worms"
version = "0.1.0"
edition = "2021"
publish = false

[dependencies]
bevy = { version = "0.15", default-features = false, features = ["bevy_asset", "bevy_color", "bevy_core_pipeline", "bevy_render", "bevy_sprite", "bevy_text", "bevy_ui", "bevy_window"] }
console_error_panic_hook = "0.1"
fastrand = "2"
wasm-bindgen = "0.2"
