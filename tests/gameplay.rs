use guacamole_runner::consts::{FALL_SPEED, POINTS_GROW, START_HEIGHT};
use guacamole_runner::{
    despawn_planes, grow_ground, is_dead, move_planes, move_player, platform_spawner,
    player_height_visualiser, player_platform_check, scroll_map, spawn_plane, Collider, Direction,
    Height, HexMap, HexTileData, Input, Pixel, Plane, PlaneEntity, Points, SpawnTimer, Transform,
};

fn no_keys() -> Input {
    Input { up: false, down: false, left: false, right: false }
}

fn tilled_map(width: usize, height: usize) -> HexMap {
    let mut tiles = Vec::new();
    for _ in 0..width * height {
        let mut t = HexTileData::new(0);
        t.is_tilled = true;
        tiles.push(t);
    }
    HexMap { tiles, width, height, position: Pixel { x: 0, y: 0 }, tallest: 0 }
}

#[test]
fn collider_new_and_extents() {
    let c = Collider::new(-60, -24, 108, 48);
    let p = Transform::new(200, 360);
    assert_eq!(c.xmin(&p), 140);
    assert_eq!(c.xmax(&p), 248);
    assert_eq!(c.ymin(&p), 336);
    assert_eq!(c.ymax(&p), 384);
}

#[test]
fn collider_touching_edges_intersect() {
    let a = Collider::new(0, 0, 10, 10);
    let b = Collider::new(0, 0, 5, 5);
    assert!(Collider::intersects(&a, &Transform::new(0, 0), &b, &Transform::new(10, 10)));
    assert!(!Collider::intersects(&a, &Transform::new(0, 0), &b, &Transform::new(11, 0)));
    assert!(!Collider::intersects(&a, &Transform::new(0, 0), &b, &Transform::new(0, 11)));
}

#[test]
fn collider_containment_intersects() {
    let big = Collider::new(-50, -50, 100, 100);
    let small = Collider::new(0, 0, 2, 2);
    assert!(Collider::intersects(&big, &Transform::new(0, 0), &small, &Transform::new(3, 3)));
    assert!(Collider::intersects(&small, &Transform::new(3, 3), &big, &Transform::new(0, 0)));
}

#[test]
fn collider_intersection_is_symmetric() {
    let a = Collider::new(-64, -20, 128, 52);
    let b = Collider::new(-60, -24, 108, 48);
    for x in (-300..300).step_by(37) {
        for y in (-200..200).step_by(29) {
            let pa = Transform::new(x, y);
            let pb = Transform::new(0, 0);
            assert_eq!(
                Collider::intersects(&a, &pa, &b, &pb),
                Collider::intersects(&b, &pb, &a, &pa)
            );
        }
    }
}

#[test]
fn points_start_at_zero() {
    assert_eq!(Points::new().0, 0);
}

#[test]
fn plane_new_keeps_direction() {
    assert_eq!(Plane::new(Direction::Up).direction, Direction::Up);
}

#[test]
fn move_player_each_key() {
    let start = Transform::new(500, 300);
    let cases = [
        (Input { down: true, ..no_keys() }, Transform::new(497, 310)),
        (Input { up: true, ..no_keys() }, Transform::new(497, 290)),
        (Input { left: true, ..no_keys() }, Transform::new(475, 300)),
        (Input { right: true, ..no_keys() }, Transform::new(505, 300)),
        (Input { up: true, down: true, ..no_keys() }, Transform::new(495, 300)),
        (Input { down: true, left: true, ..no_keys() }, Transform::new(497, 310)),
        (Input { left: true, right: true, ..no_keys() }, Transform::new(475, 300)),
        (no_keys(), Transform::new(500, 300)),
    ];
    for (input, expected) in cases.iter() {
        let mut t = start;
        move_player(input, &mut t);
        assert_eq!(t, *expected);
    }
}

#[test]
fn move_player_is_clamped() {
    let mut t = Transform::new(-15, 25);
    move_player(&Input { left: true, ..no_keys() }, &mut t);
    assert_eq!(t, Transform::new(-20, 25));
    move_player(&Input { up: true, ..no_keys() }, &mut t);
    assert_eq!(t, Transform::new(-20, 19));
    let mut t = Transform::new(1236, 698);
    move_player(&Input { right: true, ..no_keys() }, &mut t);
    move_player(&Input { down: true, ..no_keys() }, &mut t);
    assert_eq!(t, Transform::new(1235, 701));
}

#[test]
fn scroll_map_moves_left() {
    let mut m = tilled_map(2, 2);
    scroll_map(&mut m);
    scroll_map(&mut m);
    assert_eq!(m.position, Pixel { x: -8, y: 0 });
}

#[test]
fn spawn_timer_seventy_one_ticks_one_plane() {
    let mut timer = SpawnTimer::new(70);
    let mut planes: Vec<PlaneEntity> = Vec::new();
    for _ in 0..71 {
        platform_spawner(&mut timer, &mut planes);
    }
    assert_eq!(planes.len(), 1);
    platform_spawner(&mut timer, &mut planes);
    assert_eq!(planes.len(), 2);
}

#[test]
fn spawn_timer_tick_counts_down() {
    let mut timer = SpawnTimer::new(2);
    assert!(timer.tick());
    assert!(!timer.tick());
    assert!(!timer.tick());
    assert!(timer.tick());
}

#[test]
fn spawned_planes_are_in_range() {
    let mut timer = SpawnTimer::new(0);
    let mut planes: Vec<PlaneEntity> = Vec::new();
    for _ in 0..50 {
        platform_spawner(&mut timer, &mut planes);
    }
    assert_eq!(planes.len(), 50);
    for p in planes.iter() {
        assert!(p.transform.x >= 800 && p.transform.x < 1280);
        match p.plane.direction {
            Direction::Down => assert_eq!(p.transform.y, -36),
            Direction::Up => assert_eq!(p.transform.y, 756),
        }
    }
}

#[test]
fn spawn_plane_lanes() {
    let top = spawn_plane(900, 0);
    assert_eq!(top.transform, Transform::new(900, -36));
    assert_eq!(top.plane.direction, Direction::Down);
    assert_eq!(top.collider, Collider::new(-64, -20, 128, 52));
    let bottom = spawn_plane(1000, 1);
    assert_eq!(bottom.transform, Transform::new(1000, 756));
    assert_eq!(bottom.plane.direction, Direction::Up);
    assert_eq!(bottom.collider, Collider::new(-64, -32, 128, 52));
}

#[test]
fn move_planes_constant_velocity() {
    let mut planes = vec![spawn_plane(900, 0), spawn_plane(1000, 1)];
    move_planes(&mut planes);
    assert_eq!(planes[0].transform, Transform::new(892, -32));
    assert_eq!(planes[1].transform, Transform::new(992, 752));
    move_planes(&mut planes);
    assert_eq!(planes[0].transform, Transform::new(884, -28));
    assert_eq!(planes[1].transform, Transform::new(984, 748));
}

#[test]
fn despawn_removes_planes_out_of_play() {
    let mut planes = vec![spawn_plane(900, 0), spawn_plane(-201, 1), spawn_plane(-200, 0)];
    planes[2].transform.y = 921;
    let keep = planes[0];
    despawn_planes(&mut planes);
    assert_eq!(planes, vec![keep]);
}

#[test]
fn grow_ground_awards_each_neighbour_once() {
    let mut m = tilled_map(4, 3);
    let mut points = Points::new();
    // This position stands over tile (1, 1).
    let player = Transform::new(90, 38);
    grow_ground(&player, &mut m, &mut points);
    assert_eq!(points.0, 7 * POINTS_GROW);
    let grown: Vec<usize> = (0..12).filter(|i| m.tiles[*i].is_grown).collect();
    assert_eq!(grown, vec![1, 2, 4, 5, 6, 8, 9]);
}

#[test]
fn grow_ground_twice_awards_nothing_more() {
    let mut m = tilled_map(4, 3);
    let mut points = Points::new();
    let player = Transform::new(90, 38);
    grow_ground(&player, &mut m, &mut points);
    let after_first = m.tiles.clone();
    grow_ground(&player, &mut m, &mut points);
    assert_eq!(points.0, 7 * POINTS_GROW);
    assert_eq!(m.tiles, after_first);
}

#[test]
fn grow_ground_skips_untilled_and_off_map() {
    let mut m = tilled_map(2, 1);
    m.tiles[1].is_tilled = false;
    let mut points = Points::new();
    // Over tile (0, 0): only (0, 0) and (1, 0) are on the map.
    let player = Transform::new(-18, -18);
    grow_ground(&player, &mut m, &mut points);
    assert_eq!(points.0, POINTS_GROW);
    assert!(m.tiles[0].is_grown);
    assert!(!m.tiles[1].is_grown);
}

#[test]
fn altitude_falls_without_collision() {
    let mut h = Height(START_HEIGHT as i32);
    let planes: Vec<PlaneEntity> = Vec::new();
    let player = Transform::new(200, 360);
    let collider = Collider::new(-60, -24, 108, 48);
    player_platform_check(&player, &collider, &mut h, &planes);
    assert_eq!(h.0 as i64, START_HEIGHT - FALL_SPEED);
}

#[test]
fn altitude_five_hundred_ticks_reaches_zero_and_dies() {
    // Height 5.0 in hundredths, falling 0.01 a tick.
    let mut h = Height(500);
    let planes: Vec<PlaneEntity> = Vec::new();
    let player = Transform::new(200, 360);
    let collider = Collider::new(-60, -24, 108, 48);
    for n in 0..500 {
        assert!(!is_dead(&h));
        player_platform_check(&player, &collider, &mut h, &planes);
        assert_eq!(h.0, 500 - (n + 1));
    }
    assert_eq!(h.0, 0);
    assert!(is_dead(&h));
}

#[test]
fn altitude_resets_on_collision() {
    let mut h = Height(120);
    let player = Transform::new(200, 360);
    let collider = Collider::new(-60, -24, 108, 48);
    let mut plane = spawn_plane(900, 0);
    plane.transform = Transform::new(210, 370);
    let far = spawn_plane(1200, 1);
    player_platform_check(&player, &collider, &mut h, &vec![far, plane]);
    assert_eq!(h.0 as i64, START_HEIGHT);
    player_platform_check(&player, &collider, &mut h, &vec![far]);
    assert_eq!(h.0 as i64, START_HEIGHT - 1);
}

#[test]
fn is_dead_threshold() {
    assert!(is_dead(&Height(0)));
    assert!(is_dead(&Height(-1)));
    assert!(!is_dead(&Height(1)));
}

#[test]
fn height_visualiser_scale() {
    assert_eq!(player_height_visualiser(&Height(500)), 3000);
    assert_eq!(player_height_visualiser(&Height(250)), 1500);
    assert_eq!(player_height_visualiser(&Height(0)), 1000);
    assert_eq!(player_height_visualiser(&Height(100)), 1080);
}
