//! The destructible terrain: a grid of solid and empty cells.
//!
//! Cell `(x, y)` sits at the grid point `(x * SCALE, y * SCALE)` of the
//! fixed-point plane. Queries outside the grid see empty space. Carving marks
//! the chunks it touched, and the renderer drains those marks.

use vstd::prelude::*;
use crate::fixed::{saturate, saturated, Vec2, SCALE};
use crate::rng::random_in_range;

verus! {

/// Side length, in cells, of the square chunks that carving marks as dirty.
pub const CHUNK_SIZE: usize = 64;

/// Lowest surface offset that terrain generation draws for a column.
pub const JITTER_MIN: i32 = -10;

/// Bound, not reached, of the surface offsets that terrain generation draws.
pub const JITTER_END: i32 = 10;

/// The mathematical content of a terrain: its extent, its solid cells and
/// the chunks carved since the marks were last drained.
pub struct TerrainView {
    pub width: int,
    pub height: int,
    pub solid: Set<(int, int)>,
    pub dirty: Set<(int, int)>,
}

/// The terrain bitmap with its dirty-chunk marks.
pub struct TerrainMap {
    width: usize,
    height: usize,
    pixels: Vec<bool>,
    dirty: Vec<bool>,
    chunks_across: usize,
    chunks_down: usize,
}

/// Whether the cell `(gx, gy)` lies within `radius` of the point `(px, py)`.
pub open spec fn cell_within(gx: int, gy: int, px: int, py: int, radius: int) -> bool {
    let dx = gx * SCALE - px;
    let dy = gy * SCALE - py;
    radius >= 0 && dx * dx + dy * dy <= radius * radius
}

/// Position of the cell `(x, y)` in a row-major grid of the given width.
pub open spec fn cell_index(x: int, y: int, width: int) -> int {
    y * width + x
}

/// The chunk that holds a cell.
pub open spec fn chunk_of(cell: (int, int)) -> (int, int) {
    (cell.0 / CHUNK_SIZE as int, cell.1 / CHUNK_SIZE as int)
}

/// Number of chunks needed to cover `cells` cells.
pub open spec fn chunk_count(cells: int) -> int {
    (cells + CHUNK_SIZE - 1) / CHUNK_SIZE as int
}

/// Height of the surface of a column: four tenths of the map height, raised by
/// the hill profile and the random offset, and held between a tenth and three
/// quarters of the map height.
pub open spec fn surface_height(height: int, hill: int, jitter: int) -> int {
    let raw = height * 2 / 5 + hill + jitter;
    let floor = height / 10;
    let ceiling = height * 3 / 4;
    let lifted = if raw < floor { floor } else { raw };
    if lifted > ceiling { ceiling } else { lifted }
}

/// The entry of a column profile, zero past its end.
pub open spec fn profile_at<T>(profile: Seq<T>, x: int, zero: T) -> T {
    if 0 <= x < profile.len() {
        profile[x]
    } else {
        zero
    }
}

impl TerrainView {
    /// What every terrain satisfies: its solid cells are cells of the grid,
    /// and its dirty marks are chunks of the grid.
    pub open spec fn valid(self) -> bool {
        &&& 0 <= self.width
        &&& 0 <= self.height
        &&& forall|c: (int, int)| #[trigger]
            self.solid.contains(c) ==> 0 <= c.0 < self.width && 0 <= c.1 < self.height
        &&& forall|k: (int, int)| #[trigger]
            self.dirty.contains(k) ==> 0 <= k.0 < chunk_count(self.width) && 0 <= k.1
                < chunk_count(self.height)
    }

    /// Whether a solid cell of the grid lies within `radius` of `(px, py)`.
    pub open spec fn collides_in_grid(self, px: int, py: int, radius: int) -> bool {
        exists|x: int, y: int|
            0 <= x < self.width && 0 <= y < self.height && #[trigger] self.solid.contains((x, y))
                && cell_within(x, y, px, py, radius)
    }

    /// A terrain whose column `x` is solid strictly below `levels[x]`.
    pub open spec fn from_levels(width: int, height: int, levels: Seq<int>) -> TerrainView {
        TerrainView {
            width,
            height,
            solid: Set::new(
                |c: (int, int)|
                    0 <= c.0 < width && 0 <= c.1 < height && c.1 < profile_at(levels, c.0, 0),
            ),
            dirty: Set::empty(),
        }
    }

    /// Whether any solid cell lies within `radius` of `(px, py)`.
    pub open spec fn collides(self, px: int, py: int, radius: int) -> bool {
        exists|c: (int, int)| #[trigger]
            self.solid.contains(c) && cell_within(c.0, c.1, px, py, radius)
    }

    /// The chunks that carving the circle would newly touch.
    pub open spec fn touched(self, px: int, py: int, radius: int) -> Set<(int, int)> {
        Set::new(
            |k: (int, int)|
                exists|c: (int, int)| #[trigger]
                    self.solid.contains(c) && cell_within(c.0, c.1, px, py, radius) && chunk_of(c)
                        == k,
        )
    }

    /// The terrain after every solid cell within `radius` of `(px, py)` is
    /// cleared and its chunk marked.
    pub open spec fn carve(self, px: int, py: int, radius: int) -> TerrainView {
        TerrainView {
            width: self.width,
            height: self.height,
            solid: Set::new(
                |c: (int, int)| self.solid.contains(c) && !cell_within(c.0, c.1, px, py, radius),
            ),
            dirty: self.dirty.union(self.touched(px, py, radius)),
        }
    }

    /// The point of the grid plane that a point of the world stands for:
    /// the world origin lies at the middle of the grid.
    pub open spec fn grid_point(self, world: Vec2) -> Vec2 {
        Vec2 {
            x: saturated(world.x + self.width * (SCALE / 2)) as i64,
            y: saturated(world.y + self.height * (SCALE / 2)) as i64,
        }
    }

    /// The point of the world that a point of the grid plane stands for.
    pub open spec fn world_point(self, grid: Vec2) -> Vec2 {
        Vec2 {
            x: saturated(grid.x - self.width * (SCALE / 2)) as i64,
            y: saturated(grid.y - self.height * (SCALE / 2)) as i64,
        }
    }

    /// The terrain with its dirty marks removed.
    pub open spec fn drained(self) -> TerrainView {
        TerrainView { width: self.width, height: self.height, solid: self.solid, dirty: Set::empty() }
    }
}

/// Carving the same circle a second time changes nothing: neither the bitmap
/// nor the dirty marks.
pub proof fn lemma_carve_idempotent(terrain: TerrainView, px: int, py: int, radius: int)
    ensures
        terrain.carve(px, py, radius).carve(px, py, radius) == terrain.carve(px, py, radius),
{
    let once = terrain.carve(px, py, radius);
    let twice = once.carve(px, py, radius);
    assert(twice.solid =~= once.solid);
    assert(once.touched(px, py, radius) =~= Set::<(int, int)>::empty());
    assert(twice.dirty =~= once.dirty);
}

/// Outside the grid there is no solid cell.
pub proof fn lemma_outside_is_empty(terrain: TerrainView, x: int, y: int)
    requires
        terrain.valid(),
        !(0 <= x < terrain.width && 0 <= y < terrain.height),
    ensures
        !terrain.solid.contains((x, y)),
{
}

/// A collision is a solid cell of the grid within the radius, and nothing
/// else.
pub proof fn lemma_collision_in_grid(terrain: TerrainView, px: int, py: int, radius: int)
    requires
        terrain.valid(),
    ensures
        terrain.collides(px, py, radius) <==> terrain.collides_in_grid(px, py, radius),
{
    if terrain.collides(px, py, radius) {
        let c = choose|c: (int, int)| #[trigger]
            terrain.solid.contains(c) && cell_within(c.0, c.1, px, py, radius);
        assert(terrain.solid.contains((c.0, c.1)));
    }
    if terrain.collides_in_grid(px, py, radius) {
        let (x, y) = choose|x: int, y: int|
            0 <= x < terrain.width && 0 <= y < terrain.height && #[trigger] terrain.solid.contains(
                (x, y),
            ) && cell_within(x, y, px, py, radius);
        assert(terrain.solid.contains((x, y)) && cell_within((x, y).0, (x, y).1, px, py, radius));
    }
}

/// A carved terrain and a drained terrain are terrains.
pub proof fn lemma_carve_valid(terrain: TerrainView, px: int, py: int, radius: int)
    requires
        terrain.valid(),
    ensures
        terrain.carve(px, py, radius).valid(),
        terrain.drained().valid(),
{
    let carved = terrain.carve(px, py, radius);
    assert forall|k: (int, int)| #[trigger] carved.dirty.contains(k) implies 0 <= k.0
        < chunk_count(carved.width) && 0 <= k.1 < chunk_count(carved.height) by {
        if !terrain.dirty.contains(k) {
            let c = choose|c: (int, int)| #[trigger]
                terrain.solid.contains(c) && cell_within(c.0, c.1, px, py, radius) && chunk_of(c)
                    == k;
            assert(terrain.solid.contains(c));
        }
    }
}

/// Carving never adds a solid cell.
pub proof fn lemma_carve_shrinks(terrain: TerrainView, px: int, py: int, radius: int)
    ensures
        terrain.carve(px, py, radius).solid.subset_of(terrain.solid),
        terrain.dirty.subset_of(terrain.carve(px, py, radius).dirty),
        !terrain.carve(px, py, radius).collides(px, py, radius),
{
}

/// With radius zero a collision query at a grid point asks whether that cell
/// is solid; off the grid points it finds nothing.
pub proof fn lemma_collision_point(terrain: TerrainView, px: int, py: int)
    ensures
        terrain.collides(px, py, 0) <==> (px % SCALE as int == 0 && py % SCALE as int == 0
            && terrain.solid.contains((px / SCALE as int, py / SCALE as int))),
{
    let s = SCALE as int;
    if terrain.collides(px, py, 0) {
        let c = choose|c: (int, int)| #[trigger]
            terrain.solid.contains(c) && cell_within(c.0, c.1, px, py, 0);
        let dx = c.0 * s - px;
        let dy = c.1 * s - py;
        assert(dx == 0 && dy == 0) by (nonlinear_arith)
            requires
                dx * dx + dy * dy <= 0 * 0,
        ;
        assert(px % s == 0 && px / s == c.0) by (nonlinear_arith)
            requires
                px == c.0 * s,
                s == 1000,
        ;
        assert(py % s == 0 && py / s == c.1) by (nonlinear_arith)
            requires
                py == c.1 * s,
                s == 1000,
        ;
        assert(c == (px / s, py / s));
    }
    if px % s == 0 && py % s == 0 && terrain.solid.contains((px / s, py / s)) {
        let c = (px / s, py / s);
        assert(c.0 * s == px) by (nonlinear_arith)
            requires
                px % s == 0,
                c.0 == px / s,
                s == 1000,
        ;
        assert(c.1 * s == py) by (nonlinear_arith)
            requires
                py % s == 0,
                c.1 == py / s,
                s == 1000,
        ;
        assert(terrain.solid.contains(c) && cell_within(c.0, c.1, px, py, 0));
    }
}

impl View for TerrainMap {
    type V = TerrainView;

    closed spec fn view(&self) -> TerrainView {
        TerrainView {
            width: self.width as int,
            height: self.height as int,
            solid: Set::new(
                |c: (int, int)|
                    0 <= c.0 < self.width && 0 <= c.1 < self.height && self.pixels@[cell_index(
                        c.0,
                        c.1,
                        self.width as int,
                    )],
            ),
            dirty: Set::new(
                |k: (int, int)|
                    0 <= k.0 < self.chunks_across && 0 <= k.1 < self.chunks_down && self.dirty@[cell_index(
                        k.0,
                        k.1,
                        self.chunks_across as int,
                    )],
            ),
        }
    }
}

impl TerrainMap {
    #[verifier::type_invariant]
    spec fn well_formed(self) -> bool {
        &&& self.width * self.height <= usize::MAX
        &&& self.pixels@.len() == self.width * self.height
        &&& self.chunks_across == chunk_count(self.width as int)
        &&& self.chunks_down == chunk_count(self.height as int)
        &&& self.chunks_across * self.chunks_down <= usize::MAX
        &&& self.dirty@.len() == self.chunks_across * self.chunks_down
    }

    /// Builds a terrain whose column `x` is solid from the bottom up to, and
    /// not including, row `levels[x]`; columns past the end of `levels` are
    /// empty. No chunk is dirty.
    pub fn with_surface(width: usize, height: usize, levels: &Vec<usize>) -> (terrain: TerrainMap)
        requires
            width * height <= usize::MAX,
        ensures
            terrain@ == TerrainView::from_levels(
                width as int,
                height as int,
                levels@.map_values(|l: usize| l as int),
            ),
            terrain@.valid(),
    {
        let chunks_across: usize = chunks_for(width);
        let chunks_down: usize = chunks_for(height);
        proof {
            assert(chunks_across * chunks_down <= usize::MAX) by (nonlinear_arith)
                requires
                    chunks_across <= width,
                    chunks_down <= height,
                    width * height <= usize::MAX,
                    0 <= chunks_across,
                    0 <= chunks_down,
            ;
        }
        let mut pixels: Vec<bool> = vec![false; width * height];
        let dirty: Vec<bool> = vec![false; chunks_across * chunks_down];
        let ghost wanted = levels@.map_values(|l: usize| l as int);
        proof {
            lemma_grid_indices(width as int, height as int);
            lemma_grid_indices(chunks_across as int, chunks_down as int);
        }
        let mut x: usize = 0;
        while x < width
            invariant
                x <= width,
                width * height <= usize::MAX,
                pixels@.len() == width * height,
                wanted == levels@.map_values(|l: usize| l as int),
                forall|cx: int, cy: int|
                    0 <= cx < width && 0 <= cy < height ==> pixels@[#[trigger] cell_index(
                        cx,
                        cy,
                        width as int,
                    )] == (cx < x && cy < profile_at(wanted, cx, 0)),
            decreases width - x,
        {
            let level: usize = if x < levels.len() { levels[x] } else { 0 };
            let top: usize = if level < height { level } else { height };
            let mut y: usize = 0;
            while y < top
                invariant
                    x < width,
                    y <= top <= height,
                    top <= level,
                    level == profile_at(wanted, x as int, 0),
                    top == height || top == level,
                    width * height <= usize::MAX,
                    pixels@.len() == width * height,
                    forall|cx: int, cy: int|
                        0 <= cx < width && 0 <= cy < height ==> pixels@[#[trigger] cell_index(
                            cx,
                            cy,
                            width as int,
                        )] == ((cx < x && cy < profile_at(wanted, cx, 0)) || (cx == x && cy < y)),
                decreases top - y,
            {
                proof {
                    lemma_grid_indices(width as int, height as int);
                    assert(y * width + x == cell_index(x as int, y as int, width as int));
                }
                pixels.set(y * width + x, true);
                y += 1;
            }
            x += 1;
        }
        let terrain = TerrainMap { width, height, pixels, dirty, chunks_across, chunks_down };
        proof {
            let target = TerrainView::from_levels(width as int, height as int, wanted);
            assert(terrain@.solid =~= target.solid);
            assert(terrain@.dirty =~= target.dirty);
        }
        terrain
    }

    /// Generates a terrain from a hill profile. The surface of column `x`
    /// stands at `surface_height` of the map height, `hills[x]` (zero past the
    /// end of `hills`) and an offset drawn at random from
    /// `JITTER_MIN..JITTER_END`; below its surface a column is solid. Whatever
    /// is drawn, the result is one of the terrains that `generated_from`
    /// describes.
    pub fn new(width: usize, height: usize, hills: &Vec<i32>) -> (terrain: TerrainMap)
        requires
            width * height <= usize::MAX,
        ensures
            exists|jitter: Seq<int>| #[trigger]
                generated_from(terrain@, width as int, height as int, hills@, jitter),
            terrain@.valid(),
    {
        let mut levels: Vec<usize> = Vec::new();
        let ghost mut jitter: Seq<int> = Seq::empty();
        let mut x: usize = 0;
        while x < width
            invariant
                x <= width,
                levels@.len() == x,
                jitter.len() == x,
                forall|i: int|
                    0 <= i < x ==> JITTER_MIN <= #[trigger] jitter[i] < JITTER_END && levels@[i]
                        == surface_height(height as int, profile_at(hills@, i, 0i32) as int, jitter[i]),
            decreases width - x,
        {
            let hill: i32 = if x < hills.len() { hills[x] } else { 0 };
            let drawn: i32 = random_in_range(JITTER_MIN, JITTER_END);
            let level: usize = column_height(height, hill, drawn);
            levels.push(level);
            proof {
                jitter = jitter.push(drawn as int);
            }
            x += 1;
        }
        let terrain = TerrainMap::with_surface(width, height, &levels);
        proof {
            let wanted = levels@.map_values(|l: usize| l as int);
            let expected = Seq::new(
                width as nat,
                |i: int|
                    surface_height(height as int, profile_at(hills@, i, 0i32) as int, jitter[i]),
            );
            assert(wanted =~= expected);
            assert(generated_from(terrain@, width as int, height as int, hills@, jitter));
        }
        terrain
    }

    /// Width of the grid in cells.
    pub fn width(&self) -> (w: usize)
        ensures
            w == self@.width,
            self@.valid(),
    {
        proof {
            use_type_invariant(self);
        }
        self.width
    }

    /// Height of the grid in cells.
    pub fn height(&self) -> (h: usize)
        ensures
            h == self@.height,
            self@.valid(),
    {
        proof {
            use_type_invariant(self);
        }
        self.height
    }

    /// Whether the cell `(x, y)` is solid. Cells outside the grid are empty.
    pub fn is_solid(&self, x: i32, y: i32) -> (solid: bool)
        ensures
            solid == self@.solid.contains((x as int, y as int)),
            !(0 <= x < self@.width && 0 <= y < self@.height) ==> !solid,
            self@.valid(),
    {
        proof {
            use_type_invariant(self);
        }
        if x < 0 || y < 0 {
            return false;
        }
        self.cell(x as u32 as usize, y as u32 as usize)
    }

    /// Whether a solid cell lies within `radius` of the point `(x, y)`. Only
    /// the cells of the bounding box of the circle are looked at.
    pub fn check_collision(&self, x: i64, y: i64, radius: i64) -> (hit: bool)
        ensures
            hit == self@.collides(x as int, y as int, radius as int),
            hit == self@.collides_in_grid(x as int, y as int, radius as int),
            self@.valid(),
    {
        proof {
            use_type_invariant(self);
            lemma_collision_in_grid(self@, x as int, y as int, radius as int);
        }
        let (min_x, end_x) = span(x, radius, self.width);
        let (min_y, end_y) = span(y, radius, self.height);
        proof {
            assert forall|c: (int, int)| #[trigger]
                self@.solid.contains(c) && cell_within(
                    c.0,
                    c.1,
                    x as int,
                    y as int,
                    radius as int,
                ) implies min_x <= c.0 < end_x && min_y <= c.1 < end_y by {
                lemma_within_box(c.0, c.1, x as int, y as int, radius as int);
            }
        }
        let mut gy: usize = min_y;
        while gy < end_y
            invariant
                min_y <= gy <= end_y <= self.height,
                self@.valid(),
                self@.collides(x as int, y as int, radius as int) == self@.collides_in_grid(
                    x as int,
                    y as int,
                    radius as int,
                ),
                min_x <= end_x <= self.width,
                forall|c: (int, int)| #[trigger]
                    self@.solid.contains(c) && cell_within(
                        c.0,
                        c.1,
                        x as int,
                        y as int,
                        radius as int,
                    ) ==> min_x <= c.0 < end_x && gy <= c.1 < end_y,
            decreases end_y - gy,
        {
            let mut gx: usize = min_x;
            while gx < end_x
                invariant
                    min_y <= gy < end_y <= self.height,
                    self@.valid(),
                    self@.collides(x as int, y as int, radius as int) == self@.collides_in_grid(
                        x as int,
                        y as int,
                        radius as int,
                    ),
                    min_x <= gx <= end_x <= self.width,
                    forall|c: (int, int)| #[trigger]
                        self@.solid.contains(c) && cell_within(
                            c.0,
                            c.1,
                            x as int,
                            y as int,
                            radius as int,
                        ) ==> min_x <= c.0 < end_x && gy <= c.1 < end_y && (c.1 == gy ==> gx
                            <= c.0),
                decreases end_x - gx,
            {
                if self.cell(gx, gy) && within_reach(gx, gy, x, y, radius) {
                    assert(self@.solid.contains((gx as int, gy as int)));
                    return true;
                }
                gx += 1;
            }
            gy += 1;
        }
        false
    }

    /// Clears every solid cell within `radius` of the point `(x, y)` and marks
    /// the chunk of each cell it cleared. Cells that are already empty are
    /// left alone, so carving twice equals carving once.
    pub fn destroy_circle(&mut self, x: i64, y: i64, radius: i64)
        ensures
            final(self)@ == old(self)@.carve(x as int, y as int, radius as int),
            final(self)@.valid(),
    {
        proof {
            use_type_invariant(&*self);
            lemma_grid_indices(self.width as int, self.height as int);
            lemma_grid_indices(self.chunks_across as int, self.chunks_down as int);
        }
        let ghost before = self@;
        let ghost old_pixels = self.pixels@;
        let ghost old_dirty = self.dirty@;
        let ghost mut marked: Set<(int, int)> = Set::empty();
        let width: usize = self.width;
        let height: usize = self.height;
        let across: usize = self.chunks_across;
        let (min_x, end_x) = span(x, radius, width);
        let (min_y, end_y) = span(y, radius, height);
        proof {
            assert forall|u: int, v: int|
                0 <= u < width && 0 <= v < height && #[trigger] cell_within(
                    u,
                    v,
                    x as int,
                    y as int,
                    radius as int,
                ) implies min_x <= u < end_x && min_y <= v < end_y by {
                lemma_within_box(u, v, x as int, y as int, radius as int);
            }
        }
        let mut gy: usize = min_y;
        while gy < end_y
            invariant
                min_y <= gy <= end_y <= height,
                min_x <= end_x <= width,
                width == self.width,
                height == self.height,
                across == self.chunks_across,
                self.chunks_down == old(self).chunks_down,
                old(self).width == width,
                old(self).height == height,
                old(self).chunks_across == across,
                across * self.chunks_down <= usize::MAX,
                self.chunks_across == chunk_count(width as int),
                self.chunks_down == chunk_count(height as int),
                width * height <= usize::MAX,
                self.pixels@.len() == old_pixels.len() == width * height,
                self.dirty@.len() == old_dirty.len() == self.chunks_across * self.chunks_down,
                before == old(self)@,
                old_pixels == old(self).pixels@,
                old_dirty == old(self).dirty@,
                forall|u: int, v: int|
                    0 <= u < width && 0 <= v < height && #[trigger] cell_within(
                        u,
                        v,
                        x as int,
                        y as int,
                        radius as int,
                    ) ==> min_x <= u < end_x && min_y <= v < end_y,
                forall|u: int, v: int|
                    0 <= u < width && 0 <= v < height ==> self.pixels@[#[trigger] cell_index(
                        u,
                        v,
                        width as int,
                    )] == (old_pixels[cell_index(u, v, width as int)] && !(v < gy && cell_within(
                        u,
                        v,
                        x as int,
                        y as int,
                        radius as int,
                    ))),
                forall|a: int, b: int|
                    0 <= a < self.chunks_across && 0 <= b < self.chunks_down
                        ==> self.dirty@[#[trigger] cell_index(a, b, across as int)] == (
                    old_dirty[cell_index(a, b, across as int)] || marked.contains((a, b))),
                forall|u: int, v: int|
                    0 <= u < width && 0 <= v < gy && old_pixels[cell_index(u, v, width as int)]
                        && #[trigger] cell_within(u, v, x as int, y as int, radius as int)
                        ==> marked.contains(chunk_of((u, v))),
                marked.subset_of(before.touched(x as int, y as int, radius as int)),
            decreases end_y - gy,
        {
            let mut gx: usize = min_x;
            while gx < end_x
                invariant
                    min_y <= gy < end_y <= height,
                    min_x <= gx <= end_x <= width,
                    width == self.width,
                    height == self.height,
                    across == self.chunks_across,
                    self.chunks_down == old(self).chunks_down,
                    old(self).width == width,
                    old(self).height == height,
                    old(self).chunks_across == across,
                    across * self.chunks_down <= usize::MAX,
                    self.chunks_across == chunk_count(width as int),
                    self.chunks_down == chunk_count(height as int),
                    width * height <= usize::MAX,
                self.pixels@.len() == old_pixels.len() == width * height,
                    self.dirty@.len() == old_dirty.len() == self.chunks_across * self.chunks_down,
                    before == old(self)@,
                    old_pixels == old(self).pixels@,
                    old_dirty == old(self).dirty@,
                    forall|u: int, v: int|
                        0 <= u < width && 0 <= v < height && #[trigger] cell_within(
                            u,
                            v,
                            x as int,
                            y as int,
                            radius as int,
                        ) ==> min_x <= u < end_x && min_y <= v < end_y,
                    forall|u: int, v: int|
                        0 <= u < width && 0 <= v < height ==> self.pixels@[#[trigger] cell_index(
                            u,
                            v,
                            width as int,
                        )] == (old_pixels[cell_index(u, v, width as int)] && !((v < gy || (v == gy
                            && u < gx)) && cell_within(u, v, x as int, y as int, radius as int))),
                    forall|a: int, b: int|
                        0 <= a < self.chunks_across && 0 <= b < self.chunks_down
                            ==> self.dirty@[#[trigger] cell_index(a, b, across as int)] == (
                        old_dirty[cell_index(a, b, across as int)] || marked.contains((a, b))),
                    forall|u: int, v: int|
                        0 <= u < width && 0 <= v < height && (v < gy || (v == gy && u < gx))
                            && old_pixels[cell_index(u, v, width as int)] && #[trigger] cell_within(
                            u,
                            v,
                            x as int,
                            y as int,
                            radius as int,
                        ) ==> marked.contains(chunk_of((u, v))),
                    marked.subset_of(before.touched(x as int, y as int, radius as int)),
                decreases end_x - gx,
            {
                proof {
                    lemma_grid_indices(width as int, height as int);
                    lemma_grid_indices(self.chunks_across as int, self.chunks_down as int);
                    assert(gy * width + gx == cell_index(gx as int, gy as int, width as int));
                }
                let index: usize = gy * width + gx;
                if self.pixels[index] && within_reach(gx, gy, x, y, radius) {
                    let chunk_x: usize = gx / CHUNK_SIZE;
                    let chunk_y: usize = gy / CHUNK_SIZE;
                    proof {
                        assert(chunk_y * across + chunk_x == cell_index(
                            chunk_x as int,
                            chunk_y as int,
                            across as int,
                        ));
                        let c = (gx as int, gy as int);
                        assert(before.solid.contains(c) && cell_within(
                            c.0,
                            c.1,
                            x as int,
                            y as int,
                            radius as int,
                        ) && chunk_of(c) == (chunk_x as int, chunk_y as int));
                        marked = marked.insert((chunk_x as int, chunk_y as int));
                    }
                    self.pixels[index] = false;
                    self.dirty[chunk_y * across + chunk_x] = true;
                }
                gx += 1;
            }
            gy += 1;
        }
        proof {
            let target = before.carve(x as int, y as int, radius as int);
            assert(self@.solid =~= target.solid);
            assert forall|k: (int, int)| #[trigger]
                before.touched(x as int, y as int, radius as int).contains(k) implies marked.contains(
                k,
            ) by {
                let c = choose|c: (int, int)| #[trigger]
                    before.solid.contains(c) && cell_within(
                        c.0,
                        c.1,
                        x as int,
                        y as int,
                        radius as int,
                    ) && chunk_of(c) == k;
                assert(cell_within(c.0, c.1, x as int, y as int, radius as int));
            }
            assert(marked =~= before.touched(x as int, y as int, radius as int));
            assert forall|k: (int, int)| #[trigger] marked.contains(k) implies 0 <= k.0
                < self.chunks_across && 0 <= k.1 < self.chunks_down by {
                let c = choose|c: (int, int)| #[trigger]
                    before.solid.contains(c) && cell_within(
                        c.0,
                        c.1,
                        x as int,
                        y as int,
                        radius as int,
                    ) && chunk_of(c) == k;
            }
            assert(self@.dirty =~= target.dirty);
        }
    }

    /// Hands over the chunks carved since the last call, each once, row by
    /// row from the bottom and each row from the left, and clears the marks.
    /// The bitmap is left as it is.
    pub fn take_dirty_chunks(&mut self) -> (chunks: Vec<(usize, usize)>)
        ensures
            final(self)@ == old(self)@.drained(),
            forall|k: (int, int)| old(self)@.dirty.contains(k) <==> listed(chunks@, k),
            forall|i: int, j: int|
                0 <= i < j < chunks@.len() ==> comes_before(chunks@[i], chunks@[j]),
            final(self)@.valid(),
    {
        proof {
            use_type_invariant(&*self);
            lemma_grid_indices(self.chunks_across as int, self.chunks_down as int);
        }
        let ghost before = self@;
        let ghost old_dirty = self.dirty@;
        let across: usize = self.chunks_across;
        let down: usize = self.chunks_down;
        let mut chunks: Vec<(usize, usize)> = Vec::new();
        let mut b: usize = 0;
        while b < down
            invariant
                b <= down,
                across == self.chunks_across == old(self).chunks_across,
                down == self.chunks_down == old(self).chunks_down,
                self.width == old(self).width,
                self.height == old(self).height,
                self.pixels == old(self).pixels,
                self.chunks_across == chunk_count(self.width as int),
                self.chunks_down == chunk_count(self.height as int),
                self.width * self.height <= usize::MAX,
                self.pixels@.len() == self.width * self.height,
                across * down <= usize::MAX,
                self.dirty@.len() == old_dirty.len() == across * down,
                old_dirty == old(self).dirty@,
                forall|u: int, v: int|
                    0 <= u < across && 0 <= v < down ==> self.dirty@[#[trigger] cell_index(
                        u,
                        v,
                        across as int,
                    )] == (old_dirty[cell_index(u, v, across as int)] && v >= b),
                forall|i: int|
                    0 <= i < chunks@.len() ==> (#[trigger] chunks@[i]).0 < across && chunks@[i].1
                        < b && old_dirty[cell_index(
                        chunks@[i].0 as int,
                        chunks@[i].1 as int,
                        across as int,
                    )],
                forall|u: int, v: int|
                    0 <= u < across && 0 <= v < b && old_dirty[#[trigger] cell_index(
                        u,
                        v,
                        across as int,
                    )] ==> listed(chunks@, (u, v)),
                forall|i: int, j: int|
                    0 <= i < j < chunks@.len() ==> comes_before(chunks@[i], chunks@[j]),
            decreases down - b,
        {
            let mut a: usize = 0;
            while a < across
                invariant
                    b < down,
                    a <= across,
                    across == self.chunks_across == old(self).chunks_across,
                    down == self.chunks_down == old(self).chunks_down,
                    self.width == old(self).width,
                    self.height == old(self).height,
                    self.pixels == old(self).pixels,
                    self.chunks_across == chunk_count(self.width as int),
                    self.chunks_down == chunk_count(self.height as int),
                    self.width * self.height <= usize::MAX,
                    self.pixels@.len() == self.width * self.height,
                    across * down <= usize::MAX,
                self.dirty@.len() == old_dirty.len() == across * down,
                    old_dirty == old(self).dirty@,
                    forall|u: int, v: int|
                        0 <= u < across && 0 <= v < down ==> self.dirty@[#[trigger] cell_index(
                            u,
                            v,
                            across as int,
                        )] == (old_dirty[cell_index(u, v, across as int)] && (v > b || (v == b
                            && u >= a))),
                    forall|i: int|
                        0 <= i < chunks@.len() ==> (#[trigger] chunks@[i]).0 < across && (
                        chunks@[i].1 < b || (chunks@[i].1 == b && chunks@[i].0 < a))
                            && old_dirty[cell_index(
                            chunks@[i].0 as int,
                            chunks@[i].1 as int,
                            across as int,
                        )],
                    forall|u: int, v: int|
                        0 <= u < across && (0 <= v < b || (v == b && u < a))
                            && old_dirty[#[trigger] cell_index(u, v, across as int)] ==> listed(
                            chunks@,
                            (u, v),
                        ),
                    forall|i: int, j: int|
                        0 <= i < j < chunks@.len() ==> comes_before(chunks@[i], chunks@[j]),
                decreases across - a,
            {
                proof {
                    lemma_grid_indices(across as int, down as int);
                    assert(b * across + a == cell_index(a as int, b as int, across as int));
                }
                let index: usize = b * across + a;
                let ghost earlier = chunks@;
                if self.dirty[index] {
                    self.dirty[index] = false;
                    chunks.push((a, b));
                    proof {
                        assert(chunks@[earlier.len() as int] == (a, b));
                        assert forall|u: int, v: int|
                            0 <= u < across && (0 <= v < b || (v == b && u < a + 1))
                                && old_dirty[#[trigger] cell_index(
                                u,
                                v,
                                across as int,
                            )] implies listed(chunks@, (u, v)) by {
                            if v == b && u == a {
                                assert(named(chunks@, earlier.len() as int, (u, v)));
                            } else {
                                let i = choose|i: int| named(earlier, i, (u, v));
                                assert(named(chunks@, i, (u, v)));
                            }
                        }
                    }
                }
                a += 1;
            }
            b += 1;
        }
        proof {
            assert(self@.solid =~= before.solid);
            assert(self@.dirty =~= Set::<(int, int)>::empty());
            assert forall|k: (int, int)| before.dirty.contains(k) <==> listed(chunks@, k) by {
                if listed(chunks@, k) {
                    let i = choose|i: int| named(chunks@, i, k);
                    assert(chunks@[i].0 == k.0 && chunks@[i].1 == k.1);
                }
            }
        }
        chunks
    }

    /// The point of the grid plane that a point of the world stands for: the
    /// world origin lies at the middle of the grid.
    pub fn to_grid(&self, world: Vec2) -> (grid: Vec2)
        ensures
            grid == self@.grid_point(world),
            self@.valid(),
    {
        proof {
            use_type_invariant(self);
        }
        Vec2 {
            x: saturate(world.x as i128 + self.width as i128 * (SCALE as i128 / 2)),
            y: saturate(world.y as i128 + self.height as i128 * (SCALE as i128 / 2)),
        }
    }

    /// The point of the world that a point of the grid plane stands for.
    pub fn to_world(&self, grid: Vec2) -> (world: Vec2)
        ensures
            world == self@.world_point(grid),
            self@.valid(),
    {
        proof {
            use_type_invariant(self);
        }
        Vec2 {
            x: saturate(grid.x as i128 - self.width as i128 * (SCALE as i128 / 2)),
            y: saturate(grid.y as i128 - self.height as i128 * (SCALE as i128 / 2)),
        }
    }

    /// Bounds-checked read of one cell.
    fn cell(&self, x: usize, y: usize) -> (solid: bool)
        ensures
            solid == self@.solid.contains((x as int, y as int)),
    {
        proof {
            use_type_invariant(self);
        }
        if x >= self.width || y >= self.height {
            return false;
        }
        proof {
            lemma_cell_index(x as int, y as int, self.width as int, self.height as int);
            assert(y * self.width + x == cell_index(x as int, y as int, self.width as int));
        }
        self.pixels[y * self.width + x]
    }
}

/// Whether the chunk `first` comes before the chunk `second` when the
/// chunks are read row by row from the bottom, each row from the left.
pub open spec fn comes_before(first: (usize, usize), second: (usize, usize)) -> bool {
    first.1 < second.1 || (first.1 == second.1 && first.0 < second.0)
}

/// Whether entry `i` of a chunk list names the chunk `k`.
pub open spec fn named(chunks: Seq<(usize, usize)>, i: int, k: (int, int)) -> bool {
    0 <= i < chunks.len() && chunks[i].0 == k.0 && chunks[i].1 == k.1
}

/// Whether a chunk list names the chunk `k`.
pub open spec fn listed(chunks: Seq<(usize, usize)>, k: (int, int)) -> bool {
    exists|i: int| named(chunks, i, k)
}

/// The cells `[low, end)`, out of `cells` along one axis, whose grid points
/// can lie within `radius` of the coordinate `center`.
fn span(center: i64, radius: i64, cells: usize) -> (range: (usize, usize))
    ensures
        range.0 <= range.1 <= cells,
        forall|g: int|
            0 <= g < cells && center - radius <= #[trigger] (g * SCALE) <= center + radius
                ==> range.0 <= g < range.1,
{
    let near: i128 = center as i128 - radius as i128;
    let far: i128 = center as i128 + radius as i128;
    let count: i128 = cells as i128;
    if far < 0 || near > far {
        return (0, 0);
    }
    let low: i128 = if near <= 0 {
        0
    } else if near / (SCALE as i128) > count {
        count
    } else {
        near / (SCALE as i128)
    };
    let end: i128 = if far / (SCALE as i128) + 1 > count {
        count
    } else {
        far / (SCALE as i128) + 1
    };
    let end: i128 = if end < low { low } else { end };
    proof {
        assert forall|g: int|
            0 <= g < cells && center - radius <= #[trigger] (g * SCALE) <= center + radius implies low
            <= g < end by {
            assert(near > 0 ==> near / 1000 <= g) by (nonlinear_arith)
                requires
                    near <= g * 1000,
            ;
            assert(g <= far / 1000) by (nonlinear_arith)
                requires
                    g * 1000 <= far,
            ;
        }
    }
    (low as usize, end as usize)
}

/// Whether the cell `(gx, gy)` lies within `radius` of `(px, py)`, decided
/// exactly on squared distances.
fn within_reach(gx: usize, gy: usize, px: i64, py: i64, radius: i64) -> (within: bool)
    ensures
        within == cell_within(gx as int, gy as int, px as int, py as int, radius as int),
{
    if radius < 0 {
        return false;
    }
    let reach: i128 = radius as i128;
    let dx: i128 = gx as i128 * (SCALE as i128) - px as i128;
    let dy: i128 = gy as i128 * (SCALE as i128) - py as i128;
    if dx > reach || dx < -reach || dy > reach || dy < -reach {
        proof {
            assert(dx * dx + dy * dy > reach * reach) by (nonlinear_arith)
                requires
                    reach >= 0,
                    dx > reach || dx < -reach || dy > reach || dy < -reach,
            ;
        }
        return false;
    }
    proof {
        assert(0 <= dx * dx <= reach * reach && 0 <= dy * dy <= reach * reach && reach * reach
            <= 0x3fff_ffff_ffff_ffff_0000_0000_0000_0001) by (nonlinear_arith)
            requires
                -reach <= dx <= reach,
                -reach <= dy <= reach,
                0 <= reach <= 0x7fff_ffff_ffff_ffff,
        ;
    }
    dx * dx + dy * dy <= reach * reach
}

/// Whether `terrain` is what generation yields from the hill profile when it
/// draws the offsets `jitter`, one per column.
pub open spec fn generated_from(
    terrain: TerrainView,
    width: int,
    height: int,
    hills: Seq<i32>,
    jitter: Seq<int>,
) -> bool {
    &&& jitter.len() == width
    &&& forall|i: int| 0 <= i < width ==> JITTER_MIN <= #[trigger] jitter[i] < JITTER_END
    &&& terrain == TerrainView::from_levels(
        width,
        height,
        Seq::new(
            width as nat,
            |i: int| surface_height(height, profile_at(hills, i, 0i32) as int, jitter[i]),
        ),
    )
}

/// Number of chunks that cover `cells` cells.
fn chunks_for(cells: usize) -> (count: usize)
    ensures
        count == chunk_count(cells as int),
        count <= cells,
{
    if cells == 0 {
        0
    } else {
        (cells - 1) / CHUNK_SIZE + 1
    }
}

/// The surface height of one column, from the map height, the hill profile
/// and the offset that was drawn for it.
pub fn column_height(height: usize, hill: i32, jitter: i32) -> (level: usize)
    ensures
        level == surface_height(height as int, hill as int, jitter as int),
        height / 10 <= level <= height * 3 / 4,
{
    let tall: i128 = height as i128;
    let raw: i128 = tall * 2 / 5 + hill as i128 + jitter as i128;
    let floor: i128 = tall / 10;
    let ceiling: i128 = tall * 3 / 4;
    let lifted: i128 = if raw < floor { floor } else { raw };
    let level: i128 = if lifted > ceiling { ceiling } else { lifted };
    level as usize
}

/// A cell within `radius` of a point is within `radius` of it along each axis.
pub proof fn lemma_within_box(gx: int, gy: int, px: int, py: int, radius: int)
    requires
        cell_within(gx, gy, px, py, radius),
    ensures
        px - radius <= gx * SCALE <= px + radius,
        py - radius <= gy * SCALE <= py + radius,
{
    let dx = gx * SCALE - px;
    let dy = gy * SCALE - py;
    assert(-radius <= dx <= radius && -radius <= dy <= radius) by (nonlinear_arith)
        requires
            radius >= 0,
            dx * dx + dy * dy <= radius * radius,
    ;
}

/// Row-major indices stay inside the grid and tell cells apart.
pub proof fn lemma_cell_index(x: int, y: int, width: int, height: int)
    requires
        0 <= x < width,
        0 <= y < height,
    ensures
        0 <= cell_index(x, y, width) < width * height,
        cell_index(x, y, width) / width == y,
        cell_index(x, y, width) % width == x,
{
    assert(0 <= y * width + x < width * height) by (nonlinear_arith)
        requires
            0 <= x < width,
            0 <= y < height,
    ;
    vstd::arithmetic::div_mod::lemma_fundamental_div_mod_converse(y * width + x, width, y, x);
}

/// Every cell of a grid has its own index inside the grid.
pub proof fn lemma_grid_indices(width: int, height: int)
    ensures
        forall|x: int, y: int|
            0 <= x < width && 0 <= y < height ==> 0 <= #[trigger] cell_index(x, y, width) < width
                * height,
        forall|x: int, y: int, u: int, v: int|
            0 <= x < width && 0 <= y < height && 0 <= u < width && 0 <= v < height
                && #[trigger] cell_index(x, y, width) == #[trigger] cell_index(u, v, width) ==> x
                == u && y == v,
{
    assert forall|x: int, y: int| 0 <= x < width && 0 <= y < height implies 0
        <= #[trigger] cell_index(x, y, width) < width * height by {
        lemma_cell_index(x, y, width, height);
    }
    assert forall|x: int, y: int, u: int, v: int|
        0 <= x < width && 0 <= y < height && 0 <= u < width && 0 <= v < height
            && #[trigger] cell_index(x, y, width) == #[trigger] cell_index(u, v, width) implies x
        == u && y == v by {
        lemma_cell_index(x, y, width, height);
        lemma_cell_index(u, v, width, height);
    }
}

} // verus!
