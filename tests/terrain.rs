use guacamole_runner::hex::HEX_UNIT;
use guacamole_runner::{cube_round, HexMap, HexTileData, Pixel};
use guacamole_runner::map::{MAX_STRIP, MIN_STRIP};

fn flat_map(width: usize, height: usize) -> HexMap {
    let mut tiles = Vec::new();
    for _ in 0..width * height {
        tiles.push(HexTileData::new(0));
    }
    HexMap { tiles, width, height, position: Pixel { x: 0, y: 0 }, tallest: 0 }
}

#[test]
fn hex_tile_data_new_is_level_and_bare() {
    let t = HexTileData::new(2);
    assert_eq!(t.ground_height, 2);
    assert_eq!(t.wall_height, 2);
    assert!(!t.is_tilled);
    assert!(!t.is_grown);
}

#[test]
fn generated_map_seed_100_is_reproducible() {
    let a = HexMap::new(10, 10);
    let b = HexMap::new(10, 10);
    assert_eq!(a.tiles, b.tiles);
    assert_eq!(a.tallest, b.tallest);
    assert_eq!(a.tiles.len(), 100);
    assert_eq!(a.tiles[0].ground_height, 0);
    let tilled = a.tiles.iter().filter(|t| t.is_tilled).count();
    assert_eq!(tilled, 15);
}

#[test]
fn generated_map_shape() {
    let m = HexMap::new(30, 10);
    assert_eq!(m.width, 30);
    assert_eq!(m.height, 10);
    assert_eq!(m.position, Pixel { x: 0, y: 80 });
    let mut highest = 0;
    for (i, t) in m.tiles.iter().enumerate() {
        assert_eq!(t.ground_height, t.wall_height);
        assert!(t.ground_height <= 2);
        assert!(!t.is_grown);
        if t.is_tilled {
            assert!((i % 30) % 10 < 7);
        }
        highest = highest.max(t.wall_height);
    }
    assert_eq!(m.tallest, highest);
    let tilled = m.tiles.iter().filter(|t| t.is_tilled).count();
    assert!(tilled <= 5 * 3 * 7);
}

#[test]
fn empty_map_generates() {
    let m = HexMap::new(0, 0);
    assert!(m.tiles.is_empty());
    assert_eq!(m.tallest, 0);
}

#[test]
fn pixel_to_hex_raw_exact_values() {
    let m = flat_map(4, 4);
    // The centre of tile (0, 0) sits 36 world units from the map origin.
    assert_eq!(m.pixel_to_hex_raw(Pixel { x: 36, y: 36 }, 0), (0, 0));
    assert_eq!(m.pixel_to_hex_raw(Pixel { x: 108, y: 36 }, 0), (HEX_UNIT, 0));
    // One row down and half a tile across.
    assert_eq!(m.pixel_to_hex_raw(Pixel { x: 72, y: 92 }, 0), (0, HEX_UNIT));
    // Lifting by 12 map pixels moves the probe 24 world units down.
    assert_eq!(m.pixel_to_hex_raw(Pixel { x: 36, y: 12 }, 12), (0, 0));
}

#[test]
fn axial_to_pixel_exact_values() {
    let mut m = flat_map(4, 4);
    m.position = Pixel { x: 0, y: 80 };
    assert_eq!(m.axial_to_pixel(3, 2), Pixel { x: 324, y: 308 });
    assert_eq!(m.axial_to_pixel(0, 0), Pixel { x: 36, y: 196 });
}

#[test]
fn axial_pixel_round_trip() {
    let mut m = flat_map(4, 4);
    m.position = Pixel { x: -40, y: 80 };
    for q in -5..5 {
        for r in -5..5 {
            let p = m.axial_to_pixel(q, r);
            let (fq, fr) = m.pixel_to_hex_raw(p, 0);
            assert_eq!((fq, fr), (q as i64 * HEX_UNIT, r as i64 * HEX_UNIT));
            assert_eq!(cube_round(fq, fr, -fq - fr), (q as i64, r as i64, -(q as i64) - r as i64));
        }
    }
}

#[test]
fn pixel_to_hex_on_flat_map() {
    let m = flat_map(3, 2);
    let p = m.axial_to_pixel(1, 1);
    assert_eq!(m.pixel_to_hex(p), Some((1, 1)));
}

#[test]
fn pixel_to_hex_off_map_is_none() {
    let m = flat_map(3, 2);
    let p = m.axial_to_pixel(5, 1);
    assert_eq!(m.pixel_to_hex(p), None);
    let p = m.axial_to_pixel(-1, 0);
    assert_eq!(m.pixel_to_hex(p), None);
}

#[test]
fn pixel_to_hex_prefers_raised_tile() {
    let mut m = flat_map(3, 2);
    m.tiles[1].wall_height = 1;
    m.tallest = 1;
    // At depth 0 this point falls on tile (1, 0), whose wall is 1 high, so
    // that probe is rejected; at depth 1 it lands on (1, 0) exactly.
    assert_eq!(m.pixel_to_hex(Pixel { x: 108, y: 12 }), Some((1, 0)));
}

#[test]
fn pixel_to_hex_rejects_inconsistent_height() {
    let mut m = flat_map(3, 2);
    m.tiles[4].wall_height = 2;
    m.tallest = 2;
    // Tile (1, 1) stands 2 high: probing its flat-ground centre no longer
    // finds it, and no other probe lands on a tile of matching height.
    let p = m.axial_to_pixel(1, 1);
    assert_eq!(m.pixel_to_hex(p), None);
}

#[test]
fn lower_tile_steps() {
    let mut m = flat_map(4, 1);
    m.tiles[0].ground_height = 1;
    m.tiles[0].wall_height = 3;
    m.tiles[1].ground_height = 2;
    m.tiles[1].wall_height = 1;
    m.tiles[2].ground_height = 2;
    m.tiles[2].wall_height = 2;
    m.tallest = 3;
    for x in 0..4 {
        m.lower_tile(x, 0);
    }
    let heights: Vec<(u8, u8)> = m.tiles.iter().map(|t| (t.ground_height, t.wall_height)).collect();
    assert_eq!(heights, vec![(1, 2), (1, 1), (1, 1), (0, 0)]);
    assert_eq!(m.tallest, 3);
}

#[test]
fn raise_tile_steps_and_caps() {
    let mut m = flat_map(3, 1);
    m.tiles[1].ground_height = 2;
    m.tiles[1].wall_height = 1;
    m.tiles[2].wall_height = 4;
    m.tallest = 4;
    for x in 0..3 {
        m.raise_tile(x, 0);
    }
    let walls: Vec<u8> = m.tiles.iter().map(|t| t.wall_height).collect();
    assert_eq!(walls, vec![1, 3, 4]);
    let mut n = flat_map(1, 1);
    n.raise_tile(0, 0);
    assert_eq!(n.tallest, 1);
}

#[test]
fn generated_rows_till_prefixes_of_sections() {
    let m = HexMap::new(30, 10);
    for s in 0..3 {
        let mut longest = 0;
        for y in 0..10 {
            let row: Vec<bool> = (0..10).map(|k| m.tiles[y * 30 + 10 * s + k].is_tilled).collect();
            let len = row.iter().take_while(|t| **t).count();
            assert!(row[len..].iter().all(|t| !*t));
            assert!(len == 0 || (MIN_STRIP..=MAX_STRIP).contains(&len));
            longest = longest.max(len);
        }
        assert!(longest >= MIN_STRIP);
    }
}

#[test]
fn from_draws_builds_exact_map() {
    let heights: Vec<u8> = (0..40).map(|i| (i % 3) as u8).collect();
    // Two passes over the two sections of a 20 by 2 map.
    let strips = vec![(0, 3), (1, 7), (1, 4), (1, 5)];
    let m = HexMap::from_draws(20, 2, &heights, &strips);
    assert_eq!(m.tallest, 2);
    assert_eq!(m.position, Pixel { x: 0, y: 304 });
    let tilled: Vec<usize> = (0..40).filter(|i| m.tiles[*i].is_tilled).collect();
    assert_eq!(tilled, vec![0, 1, 2, 20, 21, 22, 23, 30, 31, 32, 33, 34, 35, 36]);
    for (i, t) in m.tiles.iter().enumerate() {
        assert_eq!(t.ground_height, heights[i]);
        assert_eq!(t.wall_height, heights[i]);
        assert!(!t.is_grown);
    }
}

#[test]
fn from_draws_without_strips_tills_nothing() {
    let heights = vec![0u8; 6];
    let m = HexMap::from_draws(3, 2, &heights, &Vec::new());
    assert!(m.tiles.iter().all(|t| !t.is_tilled));
    assert_eq!(m.tallest, 0);
}
