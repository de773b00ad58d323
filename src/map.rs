use vstd::prelude::*;
use rand::rngs::StdRng;
use crate::consts::{FLOOR_VERT_STEP, MAP_SEED, MAX_BRICK_HEIGHT, MAX_FLOOR_HEIGHT};
use crate::hex::{cube_round, cube_round_spec, HEX_LIMIT, HEX_UNIT, lemma_round_exact};
use crate::random::{gen_range_u8, gen_range_usize, seeded_rng};

verus! {

/// Largest map width or height, so that tile coordinates fit in `i32`.
pub const MAX_DIMENSION: usize = 0x7fff_ffff;

/// Largest magnitude of a pixel coordinate that the conversions take.
pub const PIXEL_LIMIT: i64 = 0x100_0000_0000;

/// Largest magnitude of the map's scroll position, so that every tile
/// centre stays within `PIXEL_LIMIT`.
pub const POSITION_LIMIT: i64 = 0x40_0000_0000;

/// Width of a terrain section, in tiles; generation tills a strip in each.
pub const SECTION_WIDTH: usize = 10;

/// Number of tilling passes over the sections.
pub const TILL_PASSES: usize = 5;

/// Number of draws averaged into a tilled strip's length.
pub const STRIP_DRAWS: usize = 5;

/// Shortest tilled strip.
pub const MIN_STRIP: usize = 3;

/// Longest tilled strip.
pub const MAX_STRIP: usize = 7;

/// One hexagonal tile of the terrain.
#[derive(Clone, Copy, PartialEq, Eq, Structural, Debug)]
pub struct HexTileData {
    pub ground_height: u8,
    pub wall_height: u8,
    pub is_tilled: bool,
    pub is_grown: bool,
}

impl HexTileData {
    pub fn new(height: u8) -> (r: HexTileData)
        ensures
            r.ground_height == height,
            r.wall_height == height,
            !r.is_tilled,
            !r.is_grown,
    {
        HexTileData { ground_height: height, wall_height: height, is_tilled: false, is_grown: false }
    }
}

/// A point in world units (screen pixels; a map pixel spans two of them).
#[derive(Clone, Copy, PartialEq, Eq, Structural, Debug)]
pub struct Pixel {
    pub x: i64,
    pub y: i64,
}

pub open spec fn pixel_in_range(v: int) -> bool {
    -PIXEL_LIMIT <= v <= PIXEL_LIMIT
}

/// The terrain: a row-major grid of tiles, the scroll position of its
/// origin (in map pixels) and the tallest wall on it.
pub struct HexMap {
    pub tiles: Vec<HexTileData>,
    pub width: usize,
    pub height: usize,
    pub position: Pixel,
    pub tallest: u8,
}

/// Fractional axial `q` (times `HEX_UNIT`) of the point `(x, y)`, in world
/// units from the centre of tile `(0, 0)`. Tiles are 72 units apart in a row
/// and rows are 56 units apart, half a tile sideways from the previous one:
/// `q = x / 72 - y / 112`.
pub open spec fn frac_q(x: int, y: int) -> int {
    14 * x - 9 * y
}

/// Fractional axial `r` (times `HEX_UNIT`) of the point `(x, y)`:
/// `r = y / 56`.
pub open spec fn frac_r(y: int) -> int {
    18 * y
}

/// Draws are valid for a `width` by `height` map: a height up to
/// `MAX_FLOOR_HEIGHT` for each tile, and when the map has rows, one strip
/// per section in each of `TILL_PASSES` passes.
pub open spec fn valid_draws(width: int, height: int, hs: Seq<u8>, ss: Seq<(usize, usize)>) -> bool {
    &&& hs.len() == width * height
    &&& forall|i: int| 0 <= i < hs.len() ==> #[trigger] hs[i] <= MAX_FLOOR_HEIGHT
    &&& ss.len() == if height == 0 {
        0
    } else {
        TILL_PASSES * (width / (SECTION_WIDTH as int))
    }
    &&& forall|k: int| 0 <= k < ss.len() ==> strip_in_range(height, #[trigger] ss[k])
}

/// A strip `(row, length)` lies in a row of the map and has a length that
/// generation can draw.
pub open spec fn strip_in_range(height: int, strip: (usize, usize)) -> bool {
    strip.0 < height && MIN_STRIP <= strip.1 <= MAX_STRIP
}

/// Index of the first tile of strip `k`.
pub open spec fn strip_start(width: int, ss: Seq<(usize, usize)>, k: int) -> int {
    ss[k].0 * width + SECTION_WIDTH * (k % (width / (SECTION_WIDTH as int)))
}

/// Strip `k` tills tile `i`.
pub open spec fn covers(width: int, ss: Seq<(usize, usize)>, k: int, i: int) -> bool {
    strip_start(width, ss, k) <= i < strip_start(width, ss, k) + ss[k].1
}

/// One of the first `n` strips tills tile `i`.
pub open spec fn strip_covers(width: int, ss: Seq<(usize, usize)>, n: int, i: int) -> bool {
    exists|k: int| 0 <= k < n && #[trigger] covers(width, ss, k, i)
}

impl HexMap {
    pub open spec fn wf(&self) -> bool {
        &&& self.tiles@.len() == self.width * self.height
        &&& self.width <= MAX_DIMENSION
        &&& self.height <= MAX_DIMENSION
        &&& -POSITION_LIMIT <= self.position.x <= POSITION_LIMIT
        &&& -POSITION_LIMIT <= self.position.y <= POSITION_LIMIT
        &&& forall|i: int|
            0 <= i < self.tiles@.len() ==> #[trigger] self.tiles@[i].wall_height <= self.tallest
                && (self.tiles@[i].is_grown ==> self.tiles@[i].is_tilled)
    }

    pub open spec fn in_bounds(&self, x: int, y: int) -> bool {
        0 <= x < self.width && 0 <= y < self.height
    }

    pub open spec fn tile_at(&self, x: int, y: int) -> HexTileData {
        self.tiles@[y * self.width + x]
    }

    /// Fractional axial coordinate under the world point `pos`, lifted by
    /// `height_offset` map pixels.
    pub open spec fn raw_spec(&self, pos: Pixel, height_offset: int) -> (int, int) {
        self.raw_at(pos.x as int, pos.y as int, height_offset)
    }

    /// Fractional axial coordinate under the world point `(px, py)`.
    pub open spec fn raw_at(&self, px: int, py: int, height_offset: int) -> (int, int) {
        let x = px - 36 - 2 * self.position.x;
        let y = py - 36 - 2 * self.position.y + 2 * height_offset;
        (frac_q(x, y), frac_r(y))
    }

    /// World point of the centre of the axial tile `(q, r)`.
    pub open spec fn axial_spec(&self, q: int, r: int) -> (int, int) {
        (72 * q + 36 * r + 36 + 2 * self.position.x, 56 * r + 36 + 2 * self.position.y)
    }

    /// The axial tile found under `pos` when probing at tile height `depth`.
    pub open spec fn probe(&self, pos: Pixel, depth: int) -> (int, int) {
        let (q, r) = self.raw_spec(pos, depth * 12);
        let c = cube_round_spec(q, r, -r - q);
        (c.0, c.1)
    }

    /// Probing at `depth` finds a tile of the map whose wall is `depth` high.
    pub open spec fn consistent(&self, pos: Pixel, depth: int) -> bool {
        let (x, y) = self.probe(pos, depth);
        self.in_bounds(x, y) && self.tile_at(x, y).wall_height == depth
    }

    /// The highest depth in `0 ..= d` whose probe is consistent.
    pub open spec fn top_consistent(&self, pos: Pixel, d: int) -> Option<int>
        decreases d + 1,
    {
        if d < 0 {
            None
        } else if self.consistent(pos, d) {
            Some(d)
        } else {
            self.top_consistent(pos, d - 1)
        }
    }

    /// The topmost tile drawn over `pos`: the probe at the highest
    /// consistent depth up to the tallest wall.
    pub open spec fn pick(&self, pos: Pixel) -> Option<(i32, i32)> {
        match self.top_consistent(pos, self.tallest as int) {
            Some(d) => Some((self.probe(pos, d).0 as i32, self.probe(pos, d).1 as i32)),
            None => None,
        }
    }

    /// The map was generated at `width` by `height` from some valid draws.
    pub open spec fn generated(&self, width: int, height: int) -> bool {
        &&& self.wf()
        &&& self.width == width
        &&& self.height == height
        &&& self.position.x == 0
        &&& self.position.y == 360 - FLOOR_VERT_STEP * height
        &&& exists|hs: Seq<u8>, ss: Seq<(usize, usize)>|
            valid_draws(width, height, hs, ss) && #[trigger] self.drawn_from(hs, ss)
    }

    /// The tiles and tallest wall are those that the heights `hs` and the
    /// strips `ss` give: each tile is level at its drawn height, ungrown,
    /// and tilled exactly when a strip covers it.
    pub open spec fn drawn_from(&self, hs: Seq<u8>, ss: Seq<(usize, usize)>) -> bool {
        &&& self.tiles@.len() == hs.len()
        &&& forall|i: int|
            0 <= i < hs.len() ==> #[trigger] self.tiles@[i] == (HexTileData {
                ground_height: hs[i],
                wall_height: hs[i],
                is_tilled: strip_covers(self.width as int, ss, ss.len() as int, i),
                is_grown: false,
            })
        &&& forall|i: int| 0 <= i < hs.len() ==> #[trigger] hs[i] <= self.tallest
        &&& (self.tallest == 0 || exists|i: int| 0 <= i < hs.len() && #[trigger] hs[i] == self.tallest)
    }

    /// Generates a `width` by `height` map from the fixed seed: a random
    /// ground height for each tile, then `TILL_PASSES` passes that each
    /// till a strip in a random row of every section.
    ///
    /// The generator is rand's `StdRng` seeded with `MAP_SEED`, so a map is
    /// the same on every run: a 10 by 10 map has tile `(0, 0)` at height 0
    /// and 15 tilled tiles.
    pub fn new(width: usize, height: usize) -> (r: Self)
        requires
            width <= MAX_DIMENSION,
            height <= MAX_DIMENSION,
            width * height + width <= usize::MAX,
        ensures
            r.generated(width as int, height as int),
    {
        let mut rand = seeded_rng(MAP_SEED);
        let n = width * height;
        let mut heights: Vec<u8> = Vec::with_capacity(n);
        let mut i: usize = 0;
        while i < n
            invariant
                i <= n,
                heights@.len() == i,
                forall|j: int| 0 <= j < i ==> #[trigger] heights@[j] <= MAX_FLOOR_HEIGHT,
            decreases n - i,
        {
            heights.push(gen_range_u8(&mut rand, 0, MAX_FLOOR_HEIGHT + 1));
            i += 1;
        }

        let sections = width / SECTION_WIDTH;
        let mut strips: Vec<(usize, usize)> = Vec::new();
        if height > 0 && sections > 0 {
            let mut pass: usize = 0;
            while pass < TILL_PASSES
                invariant
                    height > 0,
                    sections > 0,
                    sections == width / SECTION_WIDTH,
                    pass <= TILL_PASSES,
                    strips@.len() == pass * sections,
                    forall|k: int| 0 <= k < strips@.len() ==> strip_in_range(height as int, #[trigger] strips@[k]),
                decreases TILL_PASSES - pass,
            {
                let mut section: usize = 0;
                while section < sections
                    invariant
                        height > 0,
                        pass < TILL_PASSES,
                        section <= sections,
                        strips@.len() == pass * sections + section,
                        forall|k: int| 0 <= k < strips@.len() ==> strip_in_range(height as int, #[trigger] strips@[k]),
                    decreases sections - section,
                {
                    let row = gen_range_usize(&mut rand, 0, height);
                    let total = strip_length(&mut rand);
                    strips.push((row, total));
                    section += 1;
                }
                assert(pass * sections + sections == (pass + 1) * sections) by (nonlinear_arith);
                pass += 1;
            }
        }
        let map = HexMap::from_draws(width, height, &heights, &strips);
        assert(valid_draws(width as int, height as int, heights@, strips@));
        map
    }

    /// The map that the drawn `heights` (one per tile, row-major) and
    /// `strips` give. Strip `k` is `(row, length)`: it lies in section
    /// `k % (width / SECTION_WIDTH)` and tills `length` tiles of `row` from
    /// the section's left edge.
    pub fn from_draws(width: usize, height: usize, heights: &Vec<u8>, strips: &Vec<(usize, usize)>) -> (r: Self)
        requires
            width <= MAX_DIMENSION,
            height <= MAX_DIMENSION,
            width * height + width <= usize::MAX,
            heights@.len() == width * height,
            strips@.len() > 0 ==> width / SECTION_WIDTH > 0,
            forall|k: int| 0 <= k < strips@.len() ==> strip_in_range(height as int, #[trigger] strips@[k]),
        ensures
            r.wf(),
            r.width == width,
            r.height == height,
            r.position.x == 0,
            r.position.y == 360 - FLOOR_VERT_STEP * height,
            r.drawn_from(heights@, strips@),
    {
        let n = width * height;
        let mut tiles = Vec::<HexTileData>::with_capacity(n);
        let mut tallest: u8 = 0;
        let mut i: usize = 0;
        while i < n
            invariant
                n == width * height,
                heights@.len() == n,
                i <= n,
                tiles@.len() == i,
                forall|j: int|
                    0 <= j < i ==> #[trigger] tiles@[j] == (HexTileData {
                        ground_height: heights@[j],
                        wall_height: heights@[j],
                        is_tilled: false,
                        is_grown: false,
                    }),
                forall|j: int| 0 <= j < i ==> #[trigger] heights@[j] <= tallest,
                tallest == 0 || exists|j: int| 0 <= j < i && #[trigger] heights@[j] == tallest,
            decreases n - i,
        {
            let value = heights[i];
            tiles.push(HexTileData::new(value));
            if value > tallest {
                tallest = value;
            }
            i += 1;
        }

        let mut map = HexMap {
            tiles,
            width,
            height,
            position: Pixel { x: 0, y: 360 - FLOOR_VERT_STEP * height as i64 },
            tallest,
        };

        let sections = width / SECTION_WIDTH;
        let mut k: usize = 0;
        while k < strips.len()
            invariant
                map.wf(),
                map.width == width,
                map.height == height,
                map.tallest == tallest,
                map.position.x == 0,
                map.position.y == 360 - FLOOR_VERT_STEP * height,
                sections == width / SECTION_WIDTH,
                strips@.len() > 0 ==> sections > 0,
                width * height + width <= usize::MAX,
                heights@.len() == width * height,
                map.tiles@.len() == heights@.len(),
                k <= strips@.len(),
                forall|j: int| 0 <= j < strips@.len() ==> strip_in_range(height as int, #[trigger] strips@[j]),
                forall|j: int|
                    0 <= j < heights@.len() ==> #[trigger] map.tiles@[j] == (HexTileData {
                        ground_height: heights@[j],
                        wall_height: heights@[j],
                        is_tilled: strip_covers(width as int, strips@, k as int, j),
                        is_grown: false,
                    }),
                forall|j: int| 0 <= j < heights@.len() ==> #[trigger] heights@[j] <= tallest,
                tallest == 0 || exists|j: int| 0 <= j < heights@.len() && #[trigger] heights@[j] == tallest,
            decreases strips@.len() - k,
        {
            let (row, total) = strips[k];
            assert(strip_in_range(height as int, strips@[k as int]));
            let section = k % sections;
            proof {
                assert(row * width + width <= width * height) by (nonlinear_arith)
                    requires
                        row < height,
                ;
                assert(section * 10 + 10 <= width) by (nonlinear_arith)
                    requires
                        section < sections,
                        sections == width / 10,
                ;
            }
            let start = row * width + section * SECTION_WIDTH;
            let ghost before = map.tiles@;
            map.till_strip(start, total);
            proof {
                assert(strip_start(width as int, strips@, k as int) == start);
                assert forall|j: int| 0 <= j < heights@.len() implies #[trigger] map.tiles@[j] == (
                HexTileData {
                    ground_height: heights@[j],
                    wall_height: heights@[j],
                    is_tilled: strip_covers(width as int, strips@, k + 1, j),
                    is_grown: false,
                }) by {
                    if covers(width as int, strips@, k as int, j) {
                        assert(strip_covers(width as int, strips@, k + 1, j));
                    }
                    if strip_covers(width as int, strips@, k + 1, j) && !covers(width as int, strips@, k as int, j) {
                        let m = choose|m: int| 0 <= m < k + 1 && #[trigger] covers(width as int, strips@, m, j);
                        assert(strip_covers(width as int, strips@, k as int, j));
                    }
                }
            }
            k += 1;
        }
        map
    }

    /// Fractional axial coordinate `(q, r)`, in units of `1 / HEX_UNIT`,
    /// under the world point `pos` once the map scroll is taken off and the
    /// point is lifted by `height_offset` map pixels.
    pub fn pixel_to_hex_raw(&self, pos: Pixel, height_offset: i64) -> (r: (i64, i64))
        requires
            self.wf(),
            pixel_in_range(pos.x as int),
            pixel_in_range(pos.y as int),
            pixel_in_range(height_offset as int),
        ensures
            (r.0 as int, r.1 as int) == self.raw_spec(pos, height_offset as int),
            -HEX_LIMIT / 4 <= r.0 <= HEX_LIMIT / 4,
            -HEX_LIMIT / 4 <= r.1 <= HEX_LIMIT / 4,
    {
        let x = pos.x - 36 - 2 * self.position.x;
        let y = pos.y - 36 - 2 * self.position.y + 2 * height_offset;
        (14 * x - 9 * y, 18 * y)
    }

    /// The topmost tile drawn over the world point `pos`, as `(x, y)`.
    /// Each height up to the tallest wall is probed; a probe counts only when
    /// it lands on a tile whose wall has that height, and the highest such
    /// probe wins.
    pub fn pixel_to_hex(&self, pos: Pixel) -> (r: Option<(i32, i32)>)
        requires
            self.wf(),
            pixel_in_range(pos.x as int),
            pixel_in_range(pos.y as int),
        ensures
            r == self.pick(pos),
    {
        let mut tallest_height: Option<(u8, i32, i32)> = None;
        let mut height: u16 = 0;
        while height <= self.tallest as u16
            invariant
                self.wf(),
                pixel_in_range(pos.x as int),
                pixel_in_range(pos.y as int),
                height <= self.tallest + 1,
                match self.top_consistent(pos, height - 1) {
                    Some(d) => tallest_height matches Some((t, x, y)) && t == d && self.probe(pos, d)
                        == (x as int, y as int),
                    None => tallest_height is None,
                },
            decreases self.tallest + 1 - height,
        {
            if let Some((x, y)) = self.probe_at(pos, height as u8) {
                tallest_height = Some((height as u8, x, y));
            }
            height += 1;
        }
        match tallest_height {
            Some((_, x, y)) => Some((x, y)),
            None => None,
        }
    }

    /// The tile found by probing under `pos` at tile height `depth`, when it
    /// lies on the map and its wall is `depth` high.
    fn probe_at(&self, pos: Pixel, depth: u8) -> (r: Option<(i32, i32)>)
        requires
            self.wf(),
            pixel_in_range(pos.x as int),
            pixel_in_range(pos.y as int),
        ensures
            r is Some <==> self.consistent(pos, depth as int),
            r matches Some((x, y)) ==> self.probe(pos, depth as int) == (x as int, y as int),
    {
        let height_offset = depth as i64 * 12;
        let (q, r) = self.pixel_to_hex_raw(pos, height_offset);
        let (x, y, _) = cube_round(q, r, -r - q);
        if x >= 0 && x < self.width as i64 && y >= 0 && y < self.height as i64 {
            let (ux, uy) = (x as usize, y as usize);
            let len = self.tiles.len();
            proof {
                assert(self.width * uy + ux < self.width * self.height) by (nonlinear_arith)
                    requires
                        0 <= ux < self.width,
                        0 <= uy < self.height,
                ;
                assert(self.width * uy == uy * self.width) by (nonlinear_arith);
                assert(self.width * uy + ux < self.tiles@.len());
                assert(self.tiles@.len() == len);
            }
            let tile_height = self.tiles[self.width * uy + ux].wall_height;
            if tile_height == depth {
                return Some((x as i32, y as i32));
            }
        }
        None
    }

    /// World point of the centre of the axial tile `(q, r)`.
    pub fn axial_to_pixel(&self, q: i32, r: i32) -> (p: Pixel)
        requires
            self.wf(),
        ensures
            (p.x as int, p.y as int) == self.axial_spec(q as int, r as int),
            pixel_in_range(p.x as int),
            pixel_in_range(p.y as int),
    {
        let (q, r) = (q as i64, r as i64);
        Pixel { x: 72 * q + 36 * r + 36 + 2 * self.position.x, y: 56 * r + 36 + 2 * self.position.y }
    }

    /// Lowers tile `(x, y)` by one step: the higher of its wall and ground
    /// comes down, or both together when they are level.
    pub fn lower_tile(&mut self, x: usize, y: usize)
        requires
            old(self).wf(),
            x < old(self).width,
            y < old(self).height,
        ensures
            final(self).wf(),
            final(self).width == old(self).width,
            final(self).height == old(self).height,
            final(self).position == old(self).position,
            final(self).tallest == old(self).tallest,
            final(self).tiles@ == old(self).tiles@.update(
                y * old(self).width + x,
                lowered(old(self).tile_at(x as int, y as int)),
            ),
    {
        let index = self.index_of(x, y);
        let mut tile = self.tiles[index];
        if tile.wall_height > tile.ground_height {
            tile.wall_height = tile.wall_height - 1;
        } else if tile.ground_height > tile.wall_height {
            tile.ground_height = tile.ground_height - 1;
        } else if tile.ground_height > 0 {
            tile.ground_height = tile.ground_height - 1;
            tile.wall_height = tile.wall_height - 1;
        }
        self.tiles.set(index, tile);
    }

    /// Raises the wall of tile `(x, y)` by one step, or to one above the
    /// ground when the ground is taller, up to `MAX_BRICK_HEIGHT`.
    pub fn raise_tile(&mut self, x: usize, y: usize)
        requires
            old(self).wf(),
            x < old(self).width,
            y < old(self).height,
        ensures
            final(self).wf(),
            final(self).width == old(self).width,
            final(self).height == old(self).height,
            final(self).position == old(self).position,
            final(self).tiles@ == old(self).tiles@.update(
                y * old(self).width + x,
                raised(old(self).tile_at(x as int, y as int)),
            ),
            final(self).tallest == if raised(old(self).tile_at(x as int, y as int)).wall_height
                > old(self).tallest {
                raised(old(self).tile_at(x as int, y as int)).wall_height
            } else {
                old(self).tallest
            },
    {
        let index = self.index_of(x, y);
        let mut tile = self.tiles[index];
        let target = if tile.ground_height > tile.wall_height {
            tile.ground_height as u16 + 1
        } else {
            tile.wall_height as u16 + 1
        };
        if target <= MAX_BRICK_HEIGHT as u16 {
            tile.wall_height = target as u8;
        }
        self.tiles.set(index, tile);
        if tile.wall_height > self.tallest {
            self.tallest = tile.wall_height;
        }
    }

    fn index_of(&self, x: usize, y: usize) -> (i: usize)
        requires
            self.wf(),
            x < self.width,
            y < self.height,
        ensures
            i == y * self.width + x,
            i < self.tiles@.len(),
    {
        let len = self.tiles.len();
        proof {
            assert(y * self.width + x < self.width * self.height) by (nonlinear_arith)
                requires
                    x < self.width,
                    y < self.height,
            ;
            assert(self.tiles@.len() == len);
        }
        y * self.width + x
    }

    /// Tills the tiles `start .. start + total` that lie on the map.
    pub fn till_strip(&mut self, start: usize, total: usize)
        requires
            old(self).wf(),
            start + total <= usize::MAX,
        ensures
            final(self).wf(),
            final(self).width == old(self).width,
            final(self).height == old(self).height,
            final(self).position == old(self).position,
            final(self).tallest == old(self).tallest,
            final(self).tiles@.len() == old(self).tiles@.len(),
            forall|i: int|
                0 <= i < old(self).tiles@.len() ==> #[trigger] final(self).tiles@[i] == if start
                    <= i < start + total {
                    HexTileData { is_tilled: true, ..old(self).tiles@[i] }
                } else {
                    old(self).tiles@[i]
                },
    {
        let mut offset: usize = 0;
        while offset < total
            invariant
                self.wf(),
                self.width == old(self).width,
                self.height == old(self).height,
                self.position == old(self).position,
                self.tallest == old(self).tallest,
                self.tiles@.len() == old(self).tiles@.len(),
                offset <= total,
                start + total <= usize::MAX,
                forall|i: int|
                    0 <= i < old(self).tiles@.len() ==> #[trigger] self.tiles@[i] == if start <= i
                        < start + offset {
                        HexTileData { is_tilled: true, ..old(self).tiles@[i] }
                    } else {
                        old(self).tiles@[i]
                    },
            decreases total - offset,
        {
            let index = start + offset;
            if index < self.tiles.len() {
                let mut tile = self.tiles[index];
                tile.is_tilled = true;
                self.tiles.set(index, tile);
            }
            offset += 1;
        }
    }
}

/// The depth that `top_consistent` finds is consistent.
pub proof fn lemma_top_consistent(map: HexMap, pos: Pixel, d: int)
    ensures
        match map.top_consistent(pos, d) {
            Some(e) => 0 <= e <= d && map.consistent(pos, e),
            None => true,
        },
    decreases d + 1,
{
    if d >= 0 && !map.consistent(pos, d) {
        lemma_top_consistent(map, pos, d - 1);
    }
}

/// Tile `t` after one lowering step.
pub open spec fn lowered(t: HexTileData) -> HexTileData {
    if t.wall_height > t.ground_height {
        HexTileData { wall_height: (t.wall_height - 1) as u8, ..t }
    } else if t.ground_height > t.wall_height {
        HexTileData { ground_height: (t.ground_height - 1) as u8, ..t }
    } else if t.ground_height > 0 {
        HexTileData {
            ground_height: (t.ground_height - 1) as u8,
            wall_height: (t.wall_height - 1) as u8,
            ..t
        }
    } else {
        t
    }
}

/// Tile `t` after one raising step.
pub open spec fn raised(t: HexTileData) -> HexTileData {
    let target = if t.ground_height > t.wall_height {
        t.ground_height + 1
    } else {
        t.wall_height + 1
    };
    if target <= MAX_BRICK_HEIGHT {
        HexTileData { wall_height: target as u8, ..t }
    } else {
        t
    }
}

/// Converting the centre of any axial tile to a world point and back gives
/// that tile's exact fractional coordinate, which rounds to the tile.
pub proof fn lemma_axial_round_trip(map: HexMap, q: int, r: int)
    ensures
        ({
            let (x, y) = map.axial_spec(q, r);
            let (fq, fr) = map.raw_at(x, y, 0);
            fq == q * HEX_UNIT && fr == r * HEX_UNIT
        }),
        cube_round_spec(q * HEX_UNIT, r * HEX_UNIT, -(r * HEX_UNIT) - q * HEX_UNIT) == (q, r, -q - r),
        map.wf() && i32::MIN <= q <= i32::MAX && i32::MIN <= r <= i32::MAX ==> pixel_in_range(
            map.axial_spec(q, r).0,
        ) && pixel_in_range(map.axial_spec(q, r).1),
{
    lemma_round_exact(q);
    lemma_round_exact(r);
    lemma_round_exact(-q - r);
    assert(-(r * HEX_UNIT) - q * HEX_UNIT == (-q - r) * HEX_UNIT) by (nonlinear_arith);
}

/// Length of a tilled strip: the mean of `STRIP_DRAWS` draws from
/// `MIN_STRIP ..= MAX_STRIP`, rounded down.
fn strip_length(rand: &mut StdRng) -> (r: usize)
    ensures
        MIN_STRIP <= r <= MAX_STRIP,
{
    let mut total: usize = 0;
    let mut k: usize = 0;
    while k < STRIP_DRAWS
        invariant
            k <= STRIP_DRAWS,
            MIN_STRIP * k <= total <= MAX_STRIP * k,
        decreases STRIP_DRAWS - k,
    {
        total += gen_range_usize(rand, MIN_STRIP, MAX_STRIP + 1);
        k += 1;
    }
    total / STRIP_DRAWS
}

} // verus!
