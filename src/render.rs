use vstd::prelude::*;
use crate::consts::{
    FLOOR_DEPTH_STEP, FLOOR_VERT_STEP, FLOOR_WIDTH, LAYER_FLOOR, LAYER_WALL, MAX_BRICK_HEIGHT,
    WALL_VERT_OFFSET, WALL_VERT_STEP,
};
use crate::hex::HEX_UNIT;
use crate::map::{HexMap, HexTileData, Pixel};

verus! {

/// Columns drawn on each side of the column at the screen's corner.
pub const VIEW_COLUMNS: i64 = 40;

/// Rows drawn on each side of the row at the screen's corner.
pub const VIEW_ROWS: i64 = 20;

/// The kind of surface a draw shows; each has its own texture.
#[derive(Clone, Copy, PartialEq, Eq, Structural, Debug)]
pub enum Surface {
    Wall,
    WallBrick,
    Floor,
    BrickFloor,
    Tilled,
    Grown,
}

/// One sprite of the terrain: where it goes (in map pixels, with its
/// depth), its draw layer and its grey shade in percent.
#[derive(Clone, Copy, PartialEq, Eq, Structural, Debug)]
pub struct TileDraw {
    pub surface: Surface,
    pub x: i64,
    pub y: i64,
    pub z: i64,
    pub layer: u8,
    pub shade: u8,
}

/// Shade of a floor top at ground height `h`.
pub open spec fn floor_shade(h: int) -> u8 {
    if h == 0 {
        55
    } else if h == 1 {
        80
    } else {
        95
    }
}

/// Shade of a brick top at wall height `h`.
pub open spec fn brick_floor_shade(h: int) -> u8 {
    if h == 1 {
        65
    } else if h == 2 {
        80
    } else if h == 3 {
        90
    } else {
        100
    }
}

/// Shade of a wall segment at height `h`: odd and even segments alternate.
pub open spec fn wall_shade(h: int) -> u8 {
    if h % 2 == 1 {
        50
    } else {
        70
    }
}

/// Shade of a brick segment at height `h`.
pub open spec fn brick_shade(h: int) -> u8 {
    if h == 1 {
        30
    } else if h == 2 {
        55
    } else if h == 3 {
        70
    } else {
        80
    }
}

/// A tile top showing `surface` at height `h`, in the floor palette.
pub open spec fn top_draw(surface: Surface, x: int, y: int, h: int) -> TileDraw {
    TileDraw {
        surface,
        x: x as i64,
        y: y as i64,
        z: (h * FLOOR_DEPTH_STEP) as i64,
        layer: LAYER_FLOOR,
        shade: floor_shade(h),
    }
}

/// A brick floor on a wall `h` high, in the brick palette.
pub open spec fn brick_top_draw(x: int, y: int, h: int) -> TileDraw {
    TileDraw {
        surface: Surface::BrickFloor,
        x: x as i64,
        y: y as i64,
        z: (h * FLOOR_DEPTH_STEP) as i64,
        layer: LAYER_FLOOR,
        shade: brick_floor_shade(h),
    }
}

pub open spec fn side_draw(surface: Surface, x: int, y: int, h: int) -> TileDraw {
    TileDraw {
        surface,
        x: x as i64,
        y: y as i64,
        z: (h * FLOOR_DEPTH_STEP - if surface == Surface::Wall {
            WALL_VERT_OFFSET
        } else {
            WALL_VERT_STEP
        }) as i64,
        layer: LAYER_WALL,
        shade: if surface == Surface::Wall {
            wall_shade(h)
        } else {
            brick_shade(h)
        },
    }
}

fn floor_shade_of(h: u8) -> (r: u8)
    ensures
        r == floor_shade(h as int),
{
    if h == 0 {
        55
    } else if h == 1 {
        80
    } else {
        95
    }
}

/// Adds the top of a tile at ground height `height`, showing `surface` in
/// the floor palette.
pub fn render_hex_top(draw_buffer: &mut Vec<TileDraw>, x: i64, y: i64, height: u8, surface: Surface)
    ensures
        final(draw_buffer)@ == old(draw_buffer)@.push(top_draw(surface, x as int, y as int, height as int)),
{
    draw_buffer.push(
        TileDraw {
            surface,
            x,
            y,
            z: height as i64 * FLOOR_DEPTH_STEP,
            layer: LAYER_FLOOR,
            shade: floor_shade_of(height),
        },
    );
}

/// Adds the brick top of a tile whose wall is `height` high.
pub fn render_hex_brick_top(draw_buffer: &mut Vec<TileDraw>, x: i64, y: i64, height: u8)
    ensures
        final(draw_buffer)@ == old(draw_buffer)@.push(brick_top_draw(x as int, y as int, height as int)),
{
    let shade = if height == 1 {
        65
    } else if height == 2 {
        80
    } else if height == 3 {
        90
    } else {
        100
    };
    draw_buffer.push(
        TileDraw {
            surface: Surface::BrickFloor,
            x,
            y,
            z: height as i64 * FLOOR_DEPTH_STEP,
            layer: LAYER_FLOOR,
            shade,
        },
    );
}

/// Adds the wall segment that ends at `height`.
pub fn render_hex_walls(draw_buffer: &mut Vec<TileDraw>, x: i64, y: i64, height: u8)
    ensures
        final(draw_buffer)@ == old(draw_buffer)@.push(
            side_draw(Surface::Wall, x as int, y as int, height as int),
        ),
{
    let shade = if height % 2 == 1 {
        50
    } else {
        70
    };
    draw_buffer.push(
        TileDraw {
            surface: Surface::Wall,
            x,
            y,
            z: height as i64 * FLOOR_DEPTH_STEP - WALL_VERT_OFFSET,
            layer: LAYER_WALL,
            shade,
        },
    );
}

/// Adds the brick segment that ends at `height`.
pub fn render_hex_bricks(draw_buffer: &mut Vec<TileDraw>, x: i64, y: i64, height: u8)
    ensures
        final(draw_buffer)@ == old(draw_buffer)@.push(
            side_draw(Surface::WallBrick, x as int, y as int, height as int),
        ),
{
    let shade = if height == 1 {
        30
    } else if height == 2 {
        55
    } else if height == 3 {
        70
    } else {
        80
    };
    draw_buffer.push(
        TileDraw {
            surface: Surface::WallBrick,
            x,
            y,
            z: height as i64 * FLOOR_DEPTH_STEP - WALL_VERT_STEP,
            layer: LAYER_WALL,
            shade,
        },
    );
}

/// The side segment of tile `t` drawn at height `h`, if any: earth walls
/// up to the ground, bricks from there up to the wall's top.
pub open spec fn side_surface(t: HexTileData, h: int) -> Option<Surface> {
    if t.wall_height < h {
        None
    } else if h <= t.ground_height && h != 0 {
        Some(Surface::Wall)
    } else if h > t.ground_height && h <= t.wall_height {
        Some(Surface::WallBrick)
    } else {
        None
    }
}

/// The top of tile `t` drawn at height `h`, if any: grown, tilled or bare
/// ground at the ground's height, or a brick floor at the wall's top.
pub open spec fn top_surface(t: HexTileData, h: int) -> Option<Surface> {
    if t.wall_height < h {
        None
    } else if t.is_grown && h == t.ground_height {
        Some(Surface::Grown)
    } else if t.is_tilled && h == t.ground_height {
        Some(Surface::Tilled)
    } else if h == t.ground_height && h == t.wall_height {
        Some(Surface::Floor)
    } else if h == t.wall_height && h != t.ground_height {
        Some(Surface::BrickFloor)
    } else {
        None
    }
}

/// Map-pixel position at which the tile `(x, y)` is drawn.
pub open spec fn tile_origin(map: HexMap, x: int, y: int) -> (int, int) {
    (FLOOR_WIDTH * x + (FLOOR_WIDTH / 2) * y + map.position.x, FLOOR_VERT_STEP * y + map.position.y)
}

/// What tile `(x, y)` adds at height `h` to the batch of `kind`.
pub open spec fn cell_draws(map: HexMap, x: int, y: int, h: int, kind: Surface) -> Seq<TileDraw> {
    let t = map.tile_at(x, y);
    let (dx, dy) = tile_origin(map, x, y);
    if side_surface(t, h) == Some(kind) {
        seq![side_draw(kind, dx, dy, h)]
    } else if top_surface(t, h) == Some(kind) {
        if kind == Surface::BrickFloor {
            seq![brick_top_draw(dx, dy, h)]
        } else {
            seq![top_draw(kind, dx, dy, h)]
        }
    } else {
        Seq::empty()
    }
}

/// The batch of `kind` at height `h` over the tiles `x0 .. x` of row `y`.
pub open spec fn row_draws(map: HexMap, y: int, x0: int, x: int, h: int, kind: Surface) -> Seq<TileDraw>
    decreases x - x0,
{
    if x <= x0 {
        Seq::empty()
    } else {
        row_draws(map, y, x0, x - 1, h, kind) + cell_draws(map, x - 1, y, h, kind)
    }
}

/// The batch of `kind` at height `h` over rows `y0 .. y`, columns `x0 .. x1`.
pub open spec fn band_draws(
    map: HexMap,
    y0: int,
    y: int,
    x0: int,
    x1: int,
    h: int,
    kind: Surface,
) -> Seq<TileDraw>
    decreases y - y0,
{
    if y <= y0 {
        Seq::empty()
    } else {
        band_draws(map, y0, y - 1, x0, x1, h, kind) + row_draws(map, y - 1, x0, x1, h, kind)
    }
}

/// The visible part of the map: columns `x0 .. x1` and rows `y0 .. y1`.
pub struct Viewport {
    pub x0: usize,
    pub x1: usize,
    pub y0: usize,
    pub y1: usize,
}

pub open spec fn clamp_index(v: int, len: int) -> int {
    if v < 0 {
        0
    } else if v > len - 1 {
        len - 1
    } else {
        v
    }
}

/// The tiles around the one at the screen's top-left corner that are drawn.
pub open spec fn view_of(map: HexMap) -> (int, int, int, int) {
    let (q, r) = map.raw_at(0, 0, 0);
    let (fq, fr) = (q / (HEX_UNIT as int), r / (HEX_UNIT as int));
    (
        clamp_index(fq - VIEW_COLUMNS, map.width as int),
        clamp_index(fq + VIEW_COLUMNS, map.width as int) + 1,
        clamp_index(fr - VIEW_ROWS, map.height as int),
        clamp_index(fr + VIEW_ROWS, map.height as int) + 1,
    )
}

/// Everything drawn at height `h`, in batches: walls, bricks, floors, brick
/// floors, tilled and grown tops.
pub open spec fn height_draws(map: HexMap, v: (int, int, int, int), h: int) -> Seq<TileDraw> {
    band_draws(map, v.2, v.3, v.0, v.1, h, Surface::Wall) + band_draws(
        map,
        v.2,
        v.3,
        v.0,
        v.1,
        h,
        Surface::WallBrick,
    ) + band_draws(map, v.2, v.3, v.0, v.1, h, Surface::Floor) + band_draws(
        map,
        v.2,
        v.3,
        v.0,
        v.1,
        h,
        Surface::BrickFloor,
    ) + band_draws(map, v.2, v.3, v.0, v.1, h, Surface::Tilled) + band_draws(
        map,
        v.2,
        v.3,
        v.0,
        v.1,
        h,
        Surface::Grown,
    )
}

/// Everything drawn at heights `0 .. h`, lowest first.
pub open spec fn layered_draws(map: HexMap, v: (int, int, int, int), h: int) -> Seq<TileDraw>
    decreases h,
{
    if h <= 0 {
        Seq::empty()
    } else {
        layered_draws(map, v, h - 1) + height_draws(map, v, h - 1)
    }
}

/// The whole terrain as drawn, from the bottom layer up.
pub open spec fn map_draws(map: HexMap) -> Seq<TileDraw> {
    if map.width == 0 || map.height == 0 {
        Seq::empty()
    } else {
        layered_draws(map, view_of(map), MAX_BRICK_HEIGHT + 1)
    }
}

fn side_surface_of(t: &HexTileData, h: u8) -> (r: Option<Surface>)
    ensures
        r == side_surface(*t, h as int),
{
    if t.wall_height < h {
        None
    } else if h <= t.ground_height && h != 0 {
        Some(Surface::Wall)
    } else if h > t.ground_height && h <= t.wall_height {
        Some(Surface::WallBrick)
    } else {
        None
    }
}

fn top_surface_of(t: &HexTileData, h: u8) -> (r: Option<Surface>)
    ensures
        r == top_surface(*t, h as int),
{
    if t.wall_height < h {
        None
    } else if t.is_grown && h == t.ground_height {
        Some(Surface::Grown)
    } else if t.is_tilled && h == t.ground_height {
        Some(Surface::Tilled)
    } else if h == t.ground_height && h == t.wall_height {
        Some(Surface::Floor)
    } else if h == t.wall_height && h != t.ground_height {
        Some(Surface::BrickFloor)
    } else {
        None
    }
}

/// Adds what tile `(x, y)` shows at height `h` to the batch of `kind`.
fn push_cell(map: &HexMap, x: usize, y: usize, h: u8, kind: Surface, out: &mut Vec<TileDraw>)
    requires
        map.wf(),
        x < map.width,
        y < map.height,
    ensures
        final(out)@ == old(out)@ + cell_draws(*map, x as int, y as int, h as int, kind),
{
    let len = map.tiles.len();
    proof {
        assert(y * map.width + x < map.width * map.height) by (nonlinear_arith)
            requires
                x < map.width,
                y < map.height,
        ;
        assert(map.tiles@.len() == len);
    }
    let t = map.tiles[y * map.width + x];
    let draw_x = FLOOR_WIDTH * x as i64 + (FLOOR_WIDTH / 2) * y as i64 + map.position.x;
    let draw_y = FLOOR_VERT_STEP * y as i64 + map.position.y;
    if is_kind(side_surface_of(&t, h), kind) {
        if kind == Surface::Wall {
            render_hex_walls(out, draw_x, draw_y, h);
        } else {
            render_hex_bricks(out, draw_x, draw_y, h);
        }
    } else if is_kind(top_surface_of(&t, h), kind) {
        if kind == Surface::BrickFloor {
            render_hex_brick_top(out, draw_x, draw_y, t.wall_height);
        } else {
            render_hex_top(out, draw_x, draw_y, t.ground_height, kind);
        }
    }
    assert(out@ =~= old(out)@ + cell_draws(*map, x as int, y as int, h as int, kind));
}

fn is_kind(s: Option<Surface>, kind: Surface) -> (r: bool)
    ensures
        r == (s == Some(kind)),
{
    match s {
        Some(k) => k == kind,
        None => false,
    }
}

/// Adds the batch of `kind` at height `h` over the visible tiles.
fn push_band(map: &HexMap, v: &Viewport, h: u8, kind: Surface, out: &mut Vec<TileDraw>)
    requires
        map.wf(),
        v.x0 <= v.x1 <= map.width,
        v.y0 <= v.y1 <= map.height,
    ensures
        final(out)@ == old(out)@ + band_draws(
            *map,
            v.y0 as int,
            v.y1 as int,
            v.x0 as int,
            v.x1 as int,
            h as int,
            kind,
        ),
{
    let mut y = v.y0;
    while y < v.y1
        invariant
            map.wf(),
            v.x0 <= v.x1 <= map.width,
            v.y0 <= y <= v.y1 <= map.height,
            out@ == old(out)@ + band_draws(*map, v.y0 as int, y as int, v.x0 as int, v.x1 as int, h as int, kind),
        decreases v.y1 - y,
    {
        let mut x = v.x0;
        while x < v.x1
            invariant
                map.wf(),
                v.x0 <= x <= v.x1 <= map.width,
                v.y0 <= y < v.y1 <= map.height,
                out@ == old(out)@ + band_draws(*map, v.y0 as int, y as int, v.x0 as int, v.x1 as int, h as int, kind)
                    + row_draws(*map, y as int, v.x0 as int, x as int, h as int, kind),
            decreases v.x1 - x,
        {
            push_cell(map, x, y, h, kind, out);
            x += 1;
        }
        y += 1;
    }
}

fn floor_unit(n: i64) -> (r: i64)
    ensures
        r == n as int / HEX_UNIT as int,
{
    if n >= 0 {
        n / HEX_UNIT
    } else {
        let m = (-(n as i128) + (HEX_UNIT - 1) as i128) / HEX_UNIT as i128;
        assert(-m == n as int / HEX_UNIT as int) by (nonlinear_arith)
            requires
                n < 0,
                m == (-(n as int) + 1007) / 1008,
                HEX_UNIT == 1008,
        ;
        -m as i64
    }
}

fn clamp_to_index(v: i64, len: usize) -> (r: usize)
    requires
        len > 0,
    ensures
        r == clamp_index(v as int, len as int),
{
    if v < 0 {
        0
    } else if v as u64 > (len - 1) as u64 {
        len - 1
    } else {
        v as usize
    }
}

/// Every sprite of the visible terrain, batched by height and surface.
pub fn render_hex_map(map: &HexMap) -> (r: Vec<TileDraw>)
    requires
        map.wf(),
    ensures
        r@ == map_draws(*map),
{
    let mut out: Vec<TileDraw> = Vec::new();
    if map.width == 0 || map.height == 0 {
        return out;
    }
    let (q, r) = map.pixel_to_hex_raw(Pixel { x: 0, y: 0 }, 0);
    let (fq, fr) = (floor_unit(q), floor_unit(r));
    let v = Viewport {
        x0: clamp_to_index(fq - VIEW_COLUMNS, map.width),
        x1: clamp_to_index(fq + VIEW_COLUMNS, map.width) + 1,
        y0: clamp_to_index(fr - VIEW_ROWS, map.height),
        y1: clamp_to_index(fr + VIEW_ROWS, map.height) + 1,
    };
    let ghost view = view_of(*map);
    assert(view == (v.x0 as int, v.x1 as int, v.y0 as int, v.y1 as int));
    let mut h: u8 = 0;
    while h <= MAX_BRICK_HEIGHT
        invariant
            map.wf(),
            map.width > 0,
            map.height > 0,
            view == (v.x0 as int, v.x1 as int, v.y0 as int, v.y1 as int),
            v.x0 <= v.x1 <= map.width,
            v.y0 <= v.y1 <= map.height,
            h <= MAX_BRICK_HEIGHT + 1,
            out@ == layered_draws(*map, view, h as int),
        decreases MAX_BRICK_HEIGHT + 1 - h,
    {
        let ghost before = out@;
        push_band(map, &v, h, Surface::Wall, &mut out);
        push_band(map, &v, h, Surface::WallBrick, &mut out);
        push_band(map, &v, h, Surface::Floor, &mut out);
        push_band(map, &v, h, Surface::BrickFloor, &mut out);
        push_band(map, &v, h, Surface::Tilled, &mut out);
        push_band(map, &v, h, Surface::Grown, &mut out);
        assert(out@ =~= before + height_draws(*map, view, h as int));
        h += 1;
    }
    out
}

} // verus!
