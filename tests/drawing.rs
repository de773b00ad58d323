use guacamole_runner::{
    render_hex_brick_top, render_hex_bricks, render_hex_map, render_hex_top, render_hex_walls,
    HexMap, HexTileData, Pixel, Surface, TileDraw,
};

fn one_tile_map(tile: HexTileData) -> HexMap {
    HexMap {
        tiles: vec![tile],
        width: 1,
        height: 1,
        position: Pixel { x: 0, y: 0 },
        tallest: tile.wall_height,
    }
}

#[test]
fn render_hex_top_shades_by_height() {
    let mut buf = Vec::new();
    render_hex_top(&mut buf, 10, 20, 0, Surface::Floor);
    render_hex_top(&mut buf, 10, 20, 1, Surface::Tilled);
    render_hex_top(&mut buf, 10, 20, 2, Surface::Grown);
    assert_eq!(buf[0], TileDraw { surface: Surface::Floor, x: 10, y: 20, z: 0, layer: 0, shade: 55 });
    assert_eq!(buf[1], TileDraw { surface: Surface::Tilled, x: 10, y: 20, z: 12, layer: 0, shade: 80 });
    assert_eq!(buf[2], TileDraw { surface: Surface::Grown, x: 10, y: 20, z: 24, layer: 0, shade: 95 });
}

#[test]
fn render_hex_top_uses_floor_palette_for_any_surface() {
    let mut buf = Vec::new();
    render_hex_top(&mut buf, 0, 0, 1, Surface::BrickFloor);
    assert_eq!(buf[0], TileDraw { surface: Surface::BrickFloor, x: 0, y: 0, z: 12, layer: 0, shade: 80 });
}

#[test]
fn render_hex_brick_top_shades_by_height() {
    let mut buf = Vec::new();
    for h in 1..=4 {
        render_hex_brick_top(&mut buf, 0, 0, h);
    }
    let shades: Vec<u8> = buf.iter().map(|d| d.shade).collect();
    assert_eq!(shades, vec![65, 80, 90, 100]);
    assert_eq!(buf[3].z, 48);
    assert_eq!(buf[3].surface, Surface::BrickFloor);
}

#[test]
fn render_hex_walls_alternate_shades() {
    let mut buf = Vec::new();
    render_hex_walls(&mut buf, 5, 6, 1);
    render_hex_walls(&mut buf, 5, 6, 2);
    assert_eq!(buf[0], TileDraw { surface: Surface::Wall, x: 5, y: 6, z: 0, layer: 1, shade: 50 });
    assert_eq!(buf[1], TileDraw { surface: Surface::Wall, x: 5, y: 6, z: 12, layer: 1, shade: 70 });
}

#[test]
fn render_hex_bricks_shades_by_height() {
    let mut buf = Vec::new();
    for h in 1..=4 {
        render_hex_bricks(&mut buf, 0, 0, h);
    }
    let shades: Vec<u8> = buf.iter().map(|d| d.shade).collect();
    assert_eq!(shades, vec![30, 55, 70, 80]);
    assert_eq!(buf[2].z, 24);
    assert_eq!(buf[2].layer, 1);
}

#[test]
fn render_flat_tile_is_one_floor() {
    let m = one_tile_map(HexTileData::new(0));
    let draws = render_hex_map(&m);
    assert_eq!(draws, vec![TileDraw { surface: Surface::Floor, x: 0, y: 0, z: 0, layer: 0, shade: 55 }]);
}

#[test]
fn render_raised_tilled_tile_layers() {
    let mut t = HexTileData::new(1);
    t.wall_height = 2;
    t.is_tilled = true;
    let m = one_tile_map(t);
    let draws = render_hex_map(&m);
    let expected = vec![
        TileDraw { surface: Surface::Wall, x: 0, y: 0, z: 0, layer: 1, shade: 50 },
        TileDraw { surface: Surface::Tilled, x: 0, y: 0, z: 12, layer: 0, shade: 80 },
        TileDraw { surface: Surface::WallBrick, x: 0, y: 0, z: 12, layer: 1, shade: 55 },
        TileDraw { surface: Surface::BrickFloor, x: 0, y: 0, z: 24, layer: 0, shade: 80 },
    ];
    assert_eq!(draws, expected);
}

#[test]
fn render_batches_by_surface_within_a_height() {
    let mut grown = HexTileData::new(0);
    grown.is_tilled = true;
    grown.is_grown = true;
    let m = HexMap {
        tiles: vec![grown, HexTileData::new(0)],
        width: 2,
        height: 1,
        position: Pixel { x: 4, y: 2 },
        tallest: 0,
    };
    let draws = render_hex_map(&m);
    assert_eq!(
        draws,
        vec![
            TileDraw { surface: Surface::Floor, x: 40, y: 2, z: 0, layer: 0, shade: 55 },
            TileDraw { surface: Surface::Grown, x: 4, y: 2, z: 0, layer: 0, shade: 55 },
        ]
    );
}

#[test]
fn render_empty_map_draws_nothing() {
    let m = HexMap { tiles: Vec::new(), width: 0, height: 0, position: Pixel { x: 0, y: 0 }, tallest: 0 };
    assert!(render_hex_map(&m).is_empty());
}

#[test]
fn render_limits_columns_to_view() {
    let mut tiles = Vec::new();
    for _ in 0..200 {
        tiles.push(HexTileData::new(0));
    }
    let m = HexMap { tiles, width: 200, height: 1, position: Pixel { x: 0, y: 0 }, tallest: 0 };
    // The corner of the screen is over column -1, so columns 0 ..= 39 show.
    let draws = render_hex_map(&m);
    assert_eq!(draws.len(), 40);
    assert_eq!(draws[39].x, 39 * 36);
}
