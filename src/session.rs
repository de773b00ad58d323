use vstd::prelude::*;
use crate::components::{Collider, Height, Points, Transform};
use crate::consts::{FLOOR_WIDTH, HEIGHT, POINTS_GROW, SCROLL_RATE, SPAWN_INTERVAL, START_HEIGHT, WIDTH};
use crate::map::{lemma_top_consistent, lowered, pixel_in_range, raised, HexMap, HexTileData, Pixel, POSITION_LIMIT};
use crate::systems::{
    altitude_step, any_hit, clamp, despawn_planes, grow_ground, grow_pass, in_play, is_dead,
    move_planes, move_player, plane_after_tick, plane_can_move, planes_in_play, player_hex,
    player_platform_check, player_step, platform_spawner, spawned_plane, Input, PlaneEntity,
    PLANE_MAX_X, PLANE_MIN_X, PLAYER_MAX_X, PLAYER_MAX_Y, PLAYER_MIN_X, PLAYER_MIN_Y,
    NEIGHBOURHOOD, SpawnTimer,
};

verus! {

/// Number of grown tiles in `s`.
pub open spec fn count_grown(s: Seq<HexTileData>) -> nat
    decreases s.len(),
{
    if s.len() == 0 {
        0
    } else {
        count_grown(s.drop_last()) + if s.last().is_grown {
            1nat
        } else {
            0nat
        }
    }
}

proof fn lemma_count_le_len(s: Seq<HexTileData>)
    ensures
        count_grown(s) <= s.len(),
    decreases s.len(),
{
    if s.len() > 0 {
        lemma_count_le_len(s.drop_last());
    }
}

proof fn lemma_count_none(s: Seq<HexTileData>)
    requires
        forall|i: int| 0 <= i < s.len() ==> !(#[trigger] s[i]).is_grown,
    ensures
        count_grown(s) == 0,
    decreases s.len(),
{
    if s.len() > 0 {
        lemma_count_none(s.drop_last());
    }
}

proof fn lemma_count_grow_one(s: Seq<HexTileData>, i: int)
    requires
        0 <= i < s.len(),
        !s[i].is_grown,
    ensures
        count_grown(s.update(i, HexTileData { is_grown: true, ..s[i] })) == count_grown(s) + 1,
    decreases s.len(),
{
    let u = s.update(i, HexTileData { is_grown: true, ..s[i] });
    if i == s.len() - 1 {
        assert(u.drop_last() =~= s.drop_last());
    } else {
        assert(u.drop_last() =~= s.drop_last().update(i, HexTileData { is_grown: true, ..s[i] }));
        lemma_count_grow_one(s.drop_last(), i);
    }
}

proof fn lemma_count_same(s: Seq<HexTileData>, i: int, t: HexTileData)
    requires
        0 <= i < s.len(),
        t.is_grown == s[i].is_grown,
    ensures
        count_grown(s.update(i, t)) == count_grown(s),
    decreases s.len(),
{
    let u = s.update(i, t);
    if i == s.len() - 1 {
        assert(u.drop_last() =~= s.drop_last());
    } else {
        assert(u.drop_last() =~= s.drop_last().update(i, t));
        lemma_count_same(s.drop_last(), i, t);
    }
}

/// Each tile that a pass grows adds one to the count of grown tiles.
proof fn lemma_pass_count(tiles: Seq<HexTileData>, width: int, height: int, q: int, r: int, k: nat)
    ensures
        count_grown(grow_pass(tiles, width, height, q, r, k).0) == count_grown(tiles) + grow_pass(
            tiles,
            width,
            height,
            q,
            r,
            k,
        ).1,
    decreases k,
{
    if k > 0 {
        lemma_pass_count(tiles, width, height, q, r, (k - 1) as nat);
        let prev = grow_pass(tiles, width, height, q, r, (k - 1) as nat).0;
        match crate::systems::cell_index(width, height, q, r, k - 1) {
            Some(i) => {
                if 0 <= i < prev.len() && crate::systems::can_grow(prev[i]) {
                    lemma_count_grow_one(prev, i);
                }
            },
            None => {},
        }
    }
}

/// One game session: the terrain, the score, the spawn timer, the player
/// and the planes in play.
pub struct Session {
    pub map: HexMap,
    pub points: Points,
    pub timer: SpawnTimer,
    pub player: Transform,
    pub collider: Collider,
    pub height: Height,
    pub planes: Vec<PlaneEntity>,
    /// Whether clicks may reshape the terrain.
    pub editing: bool,
}

impl Session {
    /// The map has the game's size, every plane is in play, and the score
    /// is `POINTS_GROW` for each grown tile: no tile scores twice.
    pub open spec fn wf(&self) -> bool {
        &&& self.map.wf()
        &&& self.map.width == WIDTH
        &&& self.map.height == HEIGHT
        &&& forall|i: int| 0 <= i < self.planes@.len() ==> in_play(#[trigger] self.planes@[i])
        &&& self.points.0 == POINTS_GROW * count_grown(self.map.tiles@)
    }

    /// A fresh session: a new map, no score, the player at its start.
    pub fn new() -> (s: Self)
        ensures
            s.wf(),
            s.points.0 == 0,
            s.height.0 == START_HEIGHT,
            s.player == (Transform { x: 200, y: 360 }),
            s.collider == Collider::new_spec(-60i32, -24i32, 108, 48),
            s.planes@.len() == 0,
            s.timer.cur_spec() == 0,
            s.timer.max_spec() == SPAWN_INTERVAL,
            s.map.generated(WIDTH as int, HEIGHT as int),
            !s.editing,
    {
        let map = HexMap::new(WIDTH, HEIGHT);
        proof {
            lemma_count_none(map.tiles@);
        }
        Session {
            map,
            points: Points::new(),
            timer: SpawnTimer::new(SPAWN_INTERVAL),
            player: Transform::new(200, 360),
            collider: Collider::new(-20 * 3, -8 * 3, 36 * 3, 16 * 3),
            height: Height(START_HEIGHT as i32),
            planes: Vec::new(),
            editing: false,
        }
    }

    /// The scroll still has room for another tick.
    pub open spec fn can_scroll(&self) -> bool {
        self.map.position.x >= SCROLL_RATE - POSITION_LIMIT
    }

    /// Runs one tick: scroll, player motion, spawning, plane motion (planes
    /// that left play are removed), growth and scoring, then the altitude.
    /// Returns whether the session has ended.
    pub fn update(&mut self, input: &Input) -> (dead: bool)
        requires
            old(self).wf(),
            old(self).height.0 > 0,
            old(self).can_scroll(),
        ensures
            final(self).wf(),
            dead == (final(self).height.0 <= 0),
            final(self).map.position.x == old(self).map.position.x - SCROLL_RATE,
            final(self).map.position.y == old(self).map.position.y,
            final(self).player.x == clamp(
                old(self).player.x + player_step(*input).0,
                PLAYER_MIN_X as int,
                PLAYER_MAX_X as int,
            ),
            final(self).player.y == clamp(
                old(self).player.y + player_step(*input).1,
                PLAYER_MIN_Y as int,
                PLAYER_MAX_Y as int,
            ),
            final(self).collider == old(self).collider,
            ({
                let (q, r) = player_hex(final(self).map, final(self).player);
                let (tiles, grown) = grow_pass(
                    old(self).map.tiles@,
                    WIDTH as int,
                    HEIGHT as int,
                    q,
                    r,
                    NEIGHBOURHOOD as nat,
                );
                final(self).map.tiles@ == tiles && final(self).points.0 == old(self).points.0
                    + POINTS_GROW * grown
            }),
            final(self).height.0 == altitude_step(
                old(self).height.0 as int,
                any_hit(final(self).player, final(self).collider, final(self).planes@),
            ),
            final(self).timer.max_spec() == old(self).timer.max_spec(),
            final(self).timer.cur_spec() == if old(self).timer.cur_spec() <= 0 {
                old(self).timer.max_spec()
            } else {
                old(self).timer.cur_spec() - 1
            },
            old(self).timer.cur_spec() > 0 ==> final(self).planes@ == planes_in_play(
                old(self).planes@.map_values(|p: PlaneEntity| plane_after_tick(p)),
            ),
            old(self).timer.cur_spec() <= 0 ==> exists|x: int, lane: int|
                PLANE_MIN_X <= x < PLANE_MAX_X && 0 <= lane <= 1 && final(self).planes@
                    == planes_in_play(
                    old(self).planes@.push(#[trigger] spawned_plane(x, lane)).map_values(
                        |p: PlaneEntity| plane_after_tick(p),
                    ),
                ),
            final(self).editing == old(self).editing,
    {
        proof {
            lemma_count_le_len(self.map.tiles@);
        }
        crate::systems::scroll_map(&mut self.map);
        move_player(input, &mut self.player);
        platform_spawner(&mut self.timer, &mut self.planes);
        let ghost spawned = self.planes@;
        proof {
            if old(self).timer.cur_spec() <= 0 {
                let (x, lane) = choose|x: int, lane: int|
                    PLANE_MIN_X <= x < PLANE_MAX_X && 0 <= lane <= 1 && self.planes@ == old(
                        self,
                    ).planes@.push(#[trigger] spawned_plane(x, lane));
                assert(in_play(spawned_plane(x, lane)));
            }
            assert forall|i: int| 0 <= i < self.planes@.len() implies plane_can_move(
                #[trigger] self.planes@[i],
            ) by {
                if i < old(self).planes@.len() {
                    assert(in_play(old(self).planes@[i]));
                }
            }
        }
        move_planes(&mut self.planes);
        assert(self.planes@ =~= spawned.map_values(|p: PlaneEntity| plane_after_tick(p)));
        despawn_planes(&mut self.planes);
        proof {
            assert forall|i: int| 0 <= i < self.planes@.len() implies in_play(
                #[trigger] self.planes@[i],
            ) by {
                let s = self.planes@;
                assert(s.contains(s[i]));
            }
        }
        let ghost before = self.map.tiles@;
        grow_ground(&self.player, &mut self.map, &mut self.points);
        proof {
            let (q, r) = player_hex(self.map, self.player);
            lemma_pass_count(before, WIDTH as int, HEIGHT as int, q, r, NEIGHBOURHOOD as nat);
        }
        player_platform_check(&self.player, &self.collider, &mut self.height, &self.planes);
        is_dead(&self.height)
    }

    /// When editing is on, raises or lowers the topmost tile drawn over
    /// `pos`; otherwise, or when no tile is there, changes nothing.
    pub fn edit(&mut self, pos: Pixel, raise: bool)
        requires
            old(self).wf(),
            pixel_in_range(pos.x as int),
            pixel_in_range(pos.y as int),
        ensures
            final(self).wf(),
            final(self).map.position == old(self).map.position,
            final(self).points == old(self).points,
            final(self).player == old(self).player,
            final(self).height == old(self).height,
            final(self).planes@ == old(self).planes@,
            final(self).editing == old(self).editing,
            match (old(self).editing, old(self).map.pick(pos)) {
                (true, Some((x, y))) => {
                    let i = y * WIDTH + x;
                    let t = old(self).map.tiles@[i];
                    final(self).map.tiles@ == old(self).map.tiles@.update(
                        i,
                        if raise {
                            raised(t)
                        } else {
                            lowered(t)
                        },
                    )
                },
                _ => final(self).map.tiles@ == old(self).map.tiles@ && final(self).map.tallest
                    == old(self).map.tallest,
            },
    {
        if !self.editing {
            return;
        }
        if let Some((x, y)) = self.map.pixel_to_hex(pos) {
            let ghost before = self.map.tiles@;
            let ghost i = y * WIDTH + x;
            proof {
                lemma_top_consistent(self.map, pos, self.map.tallest as int);
                let d = self.map.top_consistent(pos, self.map.tallest as int)->0;
                assert(self.map.consistent(pos, d));
                assert(0 <= x < WIDTH && 0 <= y < HEIGHT);
            }
            if raise {
                self.map.raise_tile(x as usize, y as usize);
            } else {
                self.map.lower_tile(x as usize, y as usize);
            }
            proof {
                lemma_count_same(before, i, self.map.tiles@[i]);
            }
        }
    }

    /// Whole tiles scrolled past so far.
    pub fn distance(&self) -> (d: u32)
        requires
            self.wf(),
        ensures
            d == if self.map.position.x >= 0 {
                0
            } else {
                let tiles = -self.map.position.x / (FLOOR_WIDTH as int);
                if tiles > u32::MAX {
                    u32::MAX as int
                } else {
                    tiles
                }
            },
    {
        if self.map.position.x >= 0 {
            0
        } else {
            let tiles = -self.map.position.x / FLOOR_WIDTH;
            if tiles > u32::MAX as i64 {
                u32::MAX
            } else {
                tiles as u32
            }
        }
    }
}

} // verus!
