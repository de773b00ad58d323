use vstd::prelude::*;
use crate::components::{Collider, Direction, Height, Plane, Points, Transform};
use crate::consts::{FALL_SPEED, PLAYER_SPEED, POINTS_GROW, SCROLL_RATE, START_HEIGHT};
use crate::hex::{cube_round, cube_round_spec, HEX_LIMIT};
use crate::map::{HexMap, HexTileData, Pixel, POSITION_LIMIT};
use crate::random::thread_gen_range_i32;

verus! {

/// Leftmost x the player may reach.
pub const PLAYER_MIN_X: i32 = -20;

/// Rightmost x the player may reach.
pub const PLAYER_MAX_X: i32 = 1238;

/// Topmost y the player may reach.
pub const PLAYER_MIN_Y: i32 = 19;

/// Bottommost y the player may reach.
pub const PLAYER_MAX_Y: i32 = 701;

/// Spawned planes start at an x in `PLANE_MIN_X .. PLANE_MAX_X`.
pub const PLANE_MIN_X: i32 = 800;

/// See [`PLANE_MIN_X`].
pub const PLANE_MAX_X: i32 = 1280;

/// Height of the screen; bottom-lane planes start just below it.
pub const SCREEN_HEIGHT: i32 = 720;

/// Distance outside the screen at which planes start.
pub const PLANE_LANE_MARGIN: i32 = 36;

/// World units a plane travels left each tick: the terrain's scroll of
/// `SCROLL_RATE` map pixels, two world units each.
pub const PLANE_SPEED_X: i32 = 8;

/// World units a plane climbs or sinks each tick.
pub const PLANE_SPEED_Y: i32 = 4;

/// The directional keys held down this tick.
#[derive(Clone, Copy, PartialEq, Eq, Structural, Debug)]
pub struct Input {
    pub up: bool,
    pub down: bool,
    pub left: bool,
    pub right: bool,
}

/// A plane with its position and its collider.
#[derive(Clone, Copy, PartialEq, Eq, Structural, Debug)]
pub struct PlaneEntity {
    pub transform: Transform,
    pub plane: Plane,
    pub collider: Collider,
}

/// The step of the player for `input`, before clamping. A vertical key
/// moves diagonally, `(-0.5, 2)` per key scaled by `PLAYER_SPEED` and rounded
/// down; without one, left brakes hard and right drifts slowly.
pub open spec fn player_step(input: Input) -> (int, int) {
    let down: int = if input.down { 1 } else { 0 };
    let up: int = if input.up { 1 } else { 0 };
    if input.down || input.up {
        ((-(down + up) * PLAYER_SPEED) / 2, 2 * (down - up) * PLAYER_SPEED)
    } else if input.left {
        (-5 * PLAYER_SPEED, 0)
    } else if input.right {
        (PLAYER_SPEED as int, 0)
    } else {
        (0, 0)
    }
}

pub open spec fn clamp(v: int, lo: int, hi: int) -> int {
    if v < lo {
        lo
    } else if v > hi {
        hi
    } else {
        v
    }
}

/// Moves the player by its step for `input`, kept inside the play area.
pub fn move_player(input: &Input, transform: &mut Transform)
    ensures
        final(transform).x == clamp(
            old(transform).x + player_step(*input).0,
            PLAYER_MIN_X as int,
            PLAYER_MAX_X as int,
        ),
        final(transform).y == clamp(
            old(transform).y + player_step(*input).1,
            PLAYER_MIN_Y as int,
            PLAYER_MAX_Y as int,
        ),
{
    let mut down: i64 = 0;
    let mut up: i64 = 0;
    if input.down {
        down = 1;
    }
    if input.up {
        up = 1;
    }
    let (dx, dy): (i64, i64) = if input.down || input.up {
        let half_steps = (down + up) * PLAYER_SPEED;
        (-((half_steps + 1) / 2), 2 * (down - up) * PLAYER_SPEED)
    } else if input.left {
        (-5 * PLAYER_SPEED, 0)
    } else if input.right {
        (PLAYER_SPEED, 0)
    } else {
        (0, 0)
    };
    let x = transform.x as i64 + dx;
    let y = transform.y as i64 + dy;
    transform.x = clamp_i64(x, PLAYER_MIN_X as i64, PLAYER_MAX_X as i64) as i32;
    transform.y = clamp_i64(y, PLAYER_MIN_Y as i64, PLAYER_MAX_Y as i64) as i32;
}

fn clamp_i64(v: i64, lo: i64, hi: i64) -> (r: i64)
    requires
        lo <= hi,
    ensures
        r == clamp(v as int, lo as int, hi as int),
{
    if v < lo {
        lo
    } else if v > hi {
        hi
    } else {
        v
    }
}

/// Scrolls the terrain one step to the left.
pub fn scroll_map(map: &mut HexMap)
    requires
        old(map).wf(),
        old(map).position.x >= SCROLL_RATE - POSITION_LIMIT,
    ensures
        final(map).wf(),
        final(map).position.x == old(map).position.x - SCROLL_RATE,
        final(map).position.y == old(map).position.y,
        final(map).tiles == old(map).tiles,
        final(map).width == old(map).width,
        final(map).height == old(map).height,
        final(map).tallest == old(map).tallest,
{
    map.position.x = map.position.x - SCROLL_RATE;
}

/// Counts ticks down between plane spawns.
pub struct SpawnTimer {
    cur: i32,
    max: i32,
}

impl SpawnTimer {
    pub closed spec fn cur_spec(&self) -> int {
        self.cur as int
    }

    pub closed spec fn max_spec(&self) -> int {
        self.max as int
    }

    /// A timer that fires on its first tick and then every `max + 1` ticks.
    pub fn new(max: i32) -> (r: Self)
        ensures
            r.cur_spec() == 0,
            r.max_spec() == max,
    {
        Self { cur: 0, max }
    }

    /// Advances the timer one tick; true when a plane is due, which
    /// restarts the countdown from `max`.
    pub fn tick(&mut self) -> (spawn: bool)
        ensures
            spawn == (old(self).cur_spec() <= 0),
            final(self).max_spec() == old(self).max_spec(),
            final(self).cur_spec() == if spawn {
                old(self).max_spec()
            } else {
                old(self).cur_spec() - 1
            },
    {
        if self.cur <= 0 {
            self.cur = self.max;
            true
        } else {
            self.cur = self.cur - 1;
            false
        }
    }
}

/// The plane spawned at `x` in the given lane: lane 0 enters from above
/// heading down, lane 1 from below heading up.
pub open spec fn spawned_plane(x: int, lane: int) -> PlaneEntity {
    if lane == 0 {
        PlaneEntity {
            transform: Transform { x: x as i32, y: (-PLANE_LANE_MARGIN) as i32 },
            plane: Plane { direction: Direction::Down },
            collider: Collider::new_spec(-64i32, -20i32, 128, 52),
        }
    } else {
        PlaneEntity {
            transform: Transform { x: x as i32, y: (SCREEN_HEIGHT + PLANE_LANE_MARGIN) as i32 },
            plane: Plane { direction: Direction::Up },
            collider: Collider::new_spec(-64i32, -32i32, 128, 52),
        }
    }
}

/// Builds the plane that spawns at `x` in `lane`.
pub fn spawn_plane(x: i32, lane: i32) -> (p: PlaneEntity)
    requires
        0 <= lane <= 1,
    ensures
        p == spawned_plane(x as int, lane as int),
{
    let y = lane * SCREEN_HEIGHT;
    if y == 0 {
        PlaneEntity {
            transform: Transform::new(x, -PLANE_LANE_MARGIN),
            plane: Plane::new(Direction::Down),
            collider: Collider::new(-32 * 2, -10 * 2, 64 * 2, 26 * 2),
        }
    } else {
        PlaneEntity {
            transform: Transform::new(x, y + PLANE_LANE_MARGIN),
            plane: Plane::new(Direction::Up),
            collider: Collider::new(-32 * 2, -16 * 2, 64 * 2, 26 * 2),
        }
    }
}

/// Ticks the spawn timer and, when it fires, adds one plane at a random x
/// in a random lane.
pub fn platform_spawner(timer: &mut SpawnTimer, planes: &mut Vec<PlaneEntity>)
    ensures
        final(timer).max_spec() == old(timer).max_spec(),
        final(timer).cur_spec() == if old(timer).cur_spec() <= 0 {
            old(timer).max_spec()
        } else {
            old(timer).cur_spec() - 1
        },
        old(timer).cur_spec() > 0 ==> final(planes)@ == old(planes)@,
        old(timer).cur_spec() <= 0 ==> exists|x: int, lane: int|
            PLANE_MIN_X <= x < PLANE_MAX_X && 0 <= lane <= 1 && final(planes)@ == old(planes)@.push(
                #[trigger] spawned_plane(x, lane),
            ),
{
    if timer.tick() {
        let x = thread_gen_range_i32(PLANE_MIN_X, PLANE_MAX_X);
        let lane = thread_gen_range_i32(0, 2);
        planes.push(spawn_plane(x, lane));
    }
}

/// Planes whose position lies outside these bounds leave play.
pub const DESPAWN_MIN_X: i32 = -200;

/// See [`DESPAWN_MIN_X`].
pub const DESPAWN_MIN_Y: i32 = -200;

/// See [`DESPAWN_MIN_X`].
pub const DESPAWN_MAX_Y: i32 = 920;

/// The position of a plane with `direction` after one tick.
pub open spec fn plane_moved(t: Transform, direction: Direction) -> Transform {
    Transform {
        x: (t.x - PLANE_SPEED_X) as i32,
        y: (if direction == Direction::Up {
            t.y - PLANE_SPEED_Y
        } else {
            t.y + PLANE_SPEED_Y
        }) as i32,
    }
}

/// The plane after one tick of flight.
pub open spec fn plane_after_tick(p: PlaneEntity) -> PlaneEntity {
    PlaneEntity { transform: plane_moved(p.transform, p.plane.direction), ..p }
}

/// A plane can take one more step without leaving the `i32` range.
pub open spec fn plane_can_move(p: PlaneEntity) -> bool {
    &&& p.transform.x >= i32::MIN + PLANE_SPEED_X
    &&& i32::MIN + PLANE_SPEED_Y <= p.transform.y <= i32::MAX - PLANE_SPEED_Y
}

/// Moves every plane one tick along its heading.
pub fn move_planes(planes: &mut Vec<PlaneEntity>)
    requires
        forall|i: int| 0 <= i < old(planes)@.len() ==> plane_can_move(#[trigger] old(planes)@[i]),
    ensures
        final(planes)@.len() == old(planes)@.len(),
        forall|i: int|
            0 <= i < old(planes)@.len() ==> #[trigger] final(planes)@[i] == plane_after_tick(
                old(planes)@[i],
            ),
{
    let mut i: usize = 0;
    while i < planes.len()
        invariant
            planes@.len() == old(planes)@.len(),
            0 <= i <= planes@.len(),
            forall|j: int| i <= j < planes@.len() ==> #[trigger] planes@[j] == old(planes)@[j],
            forall|j: int| 0 <= j < old(planes)@.len() ==> plane_can_move(#[trigger] old(planes)@[j]),
            forall|j: int| 0 <= j < i ==> #[trigger] planes@[j] == plane_after_tick(old(planes)@[j]),
        decreases planes@.len() - i,
    {
        let mut p = planes[i];
        assert(plane_can_move(old(planes)@[i as int]));
        let dy = match p.plane.direction {
            Direction::Up => -PLANE_SPEED_Y,
            Direction::Down => PLANE_SPEED_Y,
        };
        p.transform.x = p.transform.x - PLANE_SPEED_X;
        p.transform.y = p.transform.y + dy;
        planes.set(i, p);
        i += 1;
    }
}

/// The plane is still inside the play bounds.
pub open spec fn in_play(p: PlaneEntity) -> bool {
    p.transform.x >= DESPAWN_MIN_X && DESPAWN_MIN_Y <= p.transform.y <= DESPAWN_MAX_Y
}

/// The planes of `s` that are in play, in their order.
pub open spec fn planes_in_play(s: Seq<PlaneEntity>) -> Seq<PlaneEntity> {
    s.filter(|p: PlaneEntity| in_play(p))
}

/// Removes the planes that have left the play bounds, keeping the order of
/// the others.
pub fn despawn_planes(planes: &mut Vec<PlaneEntity>)
    ensures
        final(planes)@ == planes_in_play(old(planes)@),
{
    let mut kept: Vec<PlaneEntity> = Vec::new();
    let mut i: usize = 0;
    while i < planes.len()
        invariant
            0 <= i <= planes@.len(),
            planes@ == old(planes)@,
            kept@ == planes_in_play(planes@.take(i as int)),
        decreases planes@.len() - i,
    {
        let p = planes[i];
        proof {
            reveal(Seq::filter);
            assert(planes@.take(i as int + 1).drop_last() == planes@.take(i as int));
            assert(planes@.take(i as int + 1).last() == p);
        }
        if p.transform.x >= DESPAWN_MIN_X && p.transform.y >= DESPAWN_MIN_Y && p.transform.y
            <= DESPAWN_MAX_Y {
            kept.push(p);
        }
        i += 1;
    }
    assert(planes@.take(planes@.len() as int) == planes@);
    *planes = kept;
}

/// The altitude after one tick: it drops by `FALL_SPEED`, and any hit
/// restores it to `START_HEIGHT`.
pub open spec fn altitude_step(height: int, hit: bool) -> int {
    if hit {
        START_HEIGHT as int
    } else {
        height - FALL_SPEED
    }
}

/// Some plane of `planes` touches the player's collider.
pub open spec fn any_hit(player: Transform, collider: Collider, planes: Seq<PlaneEntity>) -> bool {
    exists|i: int|
        0 <= i < planes.len() && Collider::overlaps(
            #[trigger] planes[i].collider,
            planes[i].transform,
            collider,
            player,
        )
}

/// Lowers the player's altitude by one tick's fall, or restores it when the
/// player touches a plane.
pub fn player_platform_check(
    player: &Transform,
    collider: &Collider,
    height: &mut Height,
    planes: &Vec<PlaneEntity>,
)
    requires
        old(height).0 > i32::MIN + FALL_SPEED,
    ensures
        final(height).0 == altitude_step(old(height).0 as int, any_hit(*player, *collider, planes@)),
{
    height.0 = height.0 - FALL_SPEED as i32;
    let mut i: usize = 0;
    while i < planes.len()
        invariant
            0 <= i <= planes@.len(),
            height.0 == old(height).0 - FALL_SPEED,
            forall|j: int|
                0 <= j < i ==> !Collider::overlaps(
                    #[trigger] planes@[j].collider,
                    planes@[j].transform,
                    *collider,
                    *player,
                ),
        decreases planes@.len() - i,
    {
        if Collider::intersects(&planes[i].collider, &planes[i].transform, collider, player) {
            height.0 = START_HEIGHT as i32;
            return;
        }
        i += 1;
    }
}

/// The player's sprite scale in thousandths: `1 + 2 * (h / START_HEIGHT)^2`,
/// rounded down, so the sprite looks smaller as it sinks.
pub open spec fn sprite_scale(height: int) -> int {
    1000 + (2000 * height * height) / (START_HEIGHT * START_HEIGHT)
}

/// Sprite scale, in thousandths, that shows the player's altitude.
pub fn player_height_visualiser(height: &Height) -> (r: u64)
    ensures
        r == sprite_scale(height.0 as int),
{
    let h = height.0 as i128;
    proof {
        assert(0 <= h * h <= 0x4000_0000_0000_0000) by (nonlinear_arith)
            requires
                i32::MIN <= h <= i32::MAX,
        ;
    }
    let start = START_HEIGHT as i128;
    let v = 1000 + (2000 * (h * h)) / (start * start);
    assert(2000 * (h * h) == 2000 * h * h) by (nonlinear_arith);
    v as u64
}

/// The session ends once the altitude reaches zero.
pub fn is_dead(height: &Height) -> (r: bool)
    ensures
        r == (height.0 <= 0),
{
    height.0 <= 0
}

/// Offset from the player's position to the point of the terrain under it.
pub const PLAYER_FOOT_OFFSET: i64 = 54;

/// Number of tiles that one growth pass looks at: a tile and its neighbours.
pub const NEIGHBOURHOOD: usize = 7;

/// The axial offset of the `k`-th tile of a neighbourhood: the tile itself,
/// then its six neighbours.
pub open spec fn neighbour(k: int) -> (int, int) {
    if k == 0 {
        (0, 0)
    } else if k == 1 {
        (1, -1)
    } else if k == 2 {
        (1, 0)
    } else if k == 3 {
        (0, 1)
    } else if k == 4 {
        (-1, 1)
    } else if k == 5 {
        (-1, 0)
    } else {
        (0, -1)
    }
}

/// Index in a `width` by `height` grid of the `k`-th tile of the
/// neighbourhood of `(q, r)`, when it lies on the grid.
pub open spec fn cell_index(width: int, height: int, q: int, r: int, k: int) -> Option<int> {
    let (nq, nr) = (q + neighbour(k).0, r + neighbour(k).1);
    if 0 <= nq < width && 0 <= nr < height {
        Some(nr * width + nq)
    } else {
        None
    }
}

/// The tile can still grow and score.
pub open spec fn can_grow(t: HexTileData) -> bool {
    t.is_tilled && !t.is_grown
}

/// Grows the first `k` tiles of the neighbourhood of `(q, r)` in turn:
/// the resulting tiles and how many of them grew.
pub open spec fn grow_pass(
    tiles: Seq<HexTileData>,
    width: int,
    height: int,
    q: int,
    r: int,
    k: nat,
) -> (Seq<HexTileData>, nat)
    decreases k,
{
    if k == 0 {
        (tiles, 0)
    } else {
        let (prev, n) = grow_pass(tiles, width, height, q, r, (k - 1) as nat);
        match cell_index(width, height, q, r, k - 1) {
            Some(i) => if 0 <= i < prev.len() && can_grow(prev[i]) {
                (prev.update(i, HexTileData { is_grown: true, ..prev[i] }), n + 1)
            } else {
                (prev, n)
            },
            None => (prev, n),
        }
    }
}

/// Tile `i` is one of the first `k` tiles of the neighbourhood of `(q, r)`
/// that lie on the grid.
pub open spec fn reached(width: int, height: int, q: int, r: int, k: int, i: int) -> bool {
    exists|j: int| 0 <= j < k && #[trigger] cell_index(width, height, q, r, j) == Some(i)
}

/// Tile `t` once grown, when it can grow.
pub open spec fn grown_tile(t: HexTileData) -> HexTileData {
    if can_grow(t) {
        HexTileData { is_grown: true, ..t }
    } else {
        t
    }
}

/// The axial tile under the player standing at `player`.
pub open spec fn player_hex(map: HexMap, player: Transform) -> (int, int) {
    let (q, r) = map.raw_at(player.x + PLAYER_FOOT_OFFSET, player.y + PLAYER_FOOT_OFFSET, 0);
    let c = cube_round_spec(q, r, -r - q);
    (c.0, c.1)
}

fn neighbour_offset(k: usize) -> (r: (i64, i64))
    ensures
        r.0 == neighbour(k as int).0,
        r.1 == neighbour(k as int).1,
{
    if k == 0 {
        (0, 0)
    } else if k == 1 {
        (1, -1)
    } else if k == 2 {
        (1, 0)
    } else if k == 3 {
        (0, 1)
    } else if k == 4 {
        (-1, 1)
    } else if k == 5 {
        (-1, 0)
    } else {
        (0, -1)
    }
}

/// Grows the tilled tiles under and around the player, awarding
/// `POINTS_GROW` for each tile that had not grown yet.
pub fn grow_ground(player: &Transform, map: &mut HexMap, points: &mut Points)
    requires
        old(map).wf(),
        old(points).0 + NEIGHBOURHOOD * POINTS_GROW <= u32::MAX,
    ensures
        final(map).wf(),
        final(map).width == old(map).width,
        final(map).height == old(map).height,
        final(map).position == old(map).position,
        final(map).tallest == old(map).tallest,
        ({
            let (q, r) = player_hex(*old(map), *player);
            let (tiles, grown) = grow_pass(
                old(map).tiles@,
                old(map).width as int,
                old(map).height as int,
                q,
                r,
                NEIGHBOURHOOD as nat,
            );
            final(map).tiles@ == tiles && final(points).0 == old(points).0 + POINTS_GROW * grown
        }),
        final(map).tiles@.len() == old(map).tiles@.len(),
        ({
            let (q, r) = player_hex(*old(map), *player);
            forall|i: int|
                0 <= i < old(map).tiles@.len() ==> #[trigger] final(map).tiles@[i] == if reached(
                    old(map).width as int,
                    old(map).height as int,
                    q,
                    r,
                    NEIGHBOURHOOD as int,
                    i,
                ) {
                    grown_tile(old(map).tiles@[i])
                } else {
                    old(map).tiles@[i]
                }
        }),
{
    let pos = Pixel {
        x: player.x as i64 + PLAYER_FOOT_OFFSET,
        y: player.y as i64 + PLAYER_FOOT_OFFSET,
    };
    let (q, r) = map.pixel_to_hex_raw(pos, 0);
    let (q, r, _) = cube_round(q, r, -r - q);
    let ghost w = map.width as int;
    let ghost h = map.height as int;
    let mut k: usize = 0;
    while k < NEIGHBOURHOOD
        invariant
            map.wf(),
            map.width == old(map).width,
            map.height == old(map).height,
            map.position == old(map).position,
            map.tallest == old(map).tallest,
            w == map.width,
            h == map.height,
            -HEX_LIMIT <= q <= HEX_LIMIT,
            -HEX_LIMIT <= r <= HEX_LIMIT,
            k <= NEIGHBOURHOOD,
            old(points).0 + NEIGHBOURHOOD * POINTS_GROW <= u32::MAX,
            ({
                let (tiles, grown) = grow_pass(old(map).tiles@, w, h, q as int, r as int, k as nat);
                map.tiles@ == tiles && points.0 == old(points).0 + POINTS_GROW * grown && grown
                    <= k
            }),
        decreases NEIGHBOURHOOD - k,
    {
        let (dq, dr) = neighbour_offset(k);
        let (nq, nr) = (q + dq, r + dr);
        if nq >= 0 && nq < map.width as i64 && nr >= 0 && nr < map.height as i64 {
            let (uq, ur) = (nq as usize, nr as usize);
            let len = map.tiles.len();
            proof {
                assert(ur * map.width + uq < map.width * map.height) by (nonlinear_arith)
                    requires
                        0 <= uq < map.width,
                        0 <= ur < map.height,
                ;
                assert(map.tiles@.len() == len);
            }
            let index = ur * map.width + uq;
            let mut tile = map.tiles[index];
            if tile.is_tilled && !tile.is_grown {
                tile.is_grown = true;
                map.tiles.set(index, tile);
                points.0 = points.0 + POINTS_GROW;
            }
        }
        k += 1;
    }
    proof {
        lemma_pass_tiles(old(map).tiles@, w, h, q as int, r as int, NEIGHBOURHOOD as nat);
    }
}

/// After the first `k` steps of a pass, each tile reached so far is grown
/// if it could grow, and every other tile is as it was.
proof fn lemma_pass_tiles(tiles: Seq<HexTileData>, width: int, height: int, q: int, r: int, k: nat)
    ensures
        grow_pass(tiles, width, height, q, r, k).0.len() == tiles.len(),
        forall|i: int|
            0 <= i < tiles.len() ==> #[trigger] grow_pass(tiles, width, height, q, r, k).0[i] == if reached(
                width,
                height,
                q,
                r,
                k as int,
                i,
            ) {
                grown_tile(tiles[i])
            } else {
                tiles[i]
            },
    decreases k,
{
    if k > 0 {
        lemma_pass_tiles(tiles, width, height, q, r, (k - 1) as nat);
        let prev = grow_pass(tiles, width, height, q, r, (k - 1) as nat).0;
        let c = cell_index(width, height, q, r, k - 1);
        assert forall|i: int| 0 <= i < tiles.len() implies #[trigger] grow_pass(
            tiles,
            width,
            height,
            q,
            r,
            k,
        ).0[i] == if reached(width, height, q, r, k as int, i) {
            grown_tile(tiles[i])
        } else {
            tiles[i]
        } by {
            if reached(width, height, q, r, k - 1, i) {
                let j = choose|j: int| 0 <= j < k - 1 && #[trigger] cell_index(width, height, q, r, j) == Some(i);
                assert(cell_index(width, height, q, r, j) == Some(i));
            }
            if c == Some(i) {
                assert(cell_index(width, height, q, r, k - 1) == Some(i));
            }
            if reached(width, height, q, r, k as int, i) && !reached(width, height, q, r, k - 1, i) {
                let j = choose|j: int| 0 <= j < k && #[trigger] cell_index(width, height, q, r, j) == Some(i);
                if j < k - 1 {
                    assert(reached(width, height, q, r, k - 1, i));
                }
            }
        }
    }
}

/// A pass leaves no tile of the neighbourhood that can still grow.
proof fn lemma_pass_exhausts(tiles: Seq<HexTileData>, width: int, height: int, q: int, r: int, k: nat)
    ensures
        grow_pass(tiles, width, height, q, r, k).0.len() == tiles.len(),
        forall|j: int|
            0 <= j < k ==> match #[trigger] cell_index(width, height, q, r, j) {
                Some(i) => 0 <= i < tiles.len() ==> !can_grow(grow_pass(tiles, width, height, q, r, k).0[i]),
                None => true,
            },
        forall|i: int|
            0 <= i < tiles.len() ==> (can_grow(#[trigger] grow_pass(tiles, width, height, q, r, k).0[i])
                ==> can_grow(tiles[i])),
    decreases k,
{
    if k > 0 {
        lemma_pass_exhausts(tiles, width, height, q, r, (k - 1) as nat);
    }
}

/// A pass over a neighbourhood where nothing can grow changes nothing.
proof fn lemma_pass_idle(tiles: Seq<HexTileData>, width: int, height: int, q: int, r: int, k: nat)
    requires
        forall|j: int|
            0 <= j < k ==> match #[trigger] cell_index(width, height, q, r, j) {
                Some(i) => 0 <= i < tiles.len() ==> !can_grow(tiles[i]),
                None => true,
            },
    ensures
        grow_pass(tiles, width, height, q, r, k) == (tiles, 0nat),
    decreases k,
{
    if k > 0 {
        lemma_pass_idle(tiles, width, height, q, r, (k - 1) as nat);
        let _ = cell_index(width, height, q, r, k - 1);
    }
}

/// Growing twice from the same position awards nothing the second time,
/// and leaves the tiles as the first pass left them.
pub proof fn lemma_growth_idempotent(tiles: Seq<HexTileData>, width: int, height: int, q: int, r: int)
    ensures
        ({
            let (once, _) = grow_pass(tiles, width, height, q, r, NEIGHBOURHOOD as nat);
            grow_pass(once, width, height, q, r, NEIGHBOURHOOD as nat) == (once, 0nat)
        }),
{
    let once = grow_pass(tiles, width, height, q, r, NEIGHBOURHOOD as nat).0;
    lemma_pass_exhausts(tiles, width, height, q, r, NEIGHBOURHOOD as nat);
    lemma_pass_idle(once, width, height, q, r, NEIGHBOURHOOD as nat);
}

/// Altitude after `n` ticks without a hit.
pub open spec fn fall_after(height: int, n: nat) -> int
    decreases n,
{
    if n == 0 {
        height
    } else {
        altitude_step(fall_after(height, (n - 1) as nat), false)
    }
}

/// Without collisions the altitude drops by exactly `FALL_SPEED` a tick.
pub proof fn lemma_fall_without_hits(height: int, n: nat)
    ensures
        fall_after(height, n) == height - n * FALL_SPEED,
    decreases n,
{
    if n > 0 {
        lemma_fall_without_hits(height, (n - 1) as nat);
    }
}

} // verus!
