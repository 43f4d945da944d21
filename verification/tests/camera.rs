use adventure2d::entities::camera::{distance, Camera, DrawCall};
use adventure2d::events::key_handler::Keys;
use adventure2d::rect::ScreenRect;
use adventure2d::tiles::tile_handler::{Pixel, Tile, TileHandler, WorldMap};

fn held(w: bool, a: bool, s: bool, d: bool) -> Keys {
    Keys { w, a, s, d }
}

/// A catalog of `count` tiles whose picture keys are 100, 101, ..., and a
/// map of `rows` by `cols` cells in which the cell at `row`, `col` lies on
/// tile `(row + col) % count`.
fn world(tile_size: u32, count: u32, rows: u32, cols: u32) -> (TileHandler, WorldMap) {
    let tiles = (0..count).map(|i| Tile { image: 100 + i as usize, immovable: false }).collect();
    let map = (0..rows)
        .map(|row| {
            (0..cols)
                .map(|col| {
                    Pixel::new(
                        (col * tile_size) as i32,
                        (row * tile_size) as i32,
                        (row + col) % count,
                    )
                })
                .collect()
        })
        .collect();
    (TileHandler { tiles, tile_size, maps: Vec::new() }, WorldMap { map })
}

fn cells_of(calls: &[DrawCall]) -> Vec<(u32, u32)> {
    calls.iter().map(|call| (call.row, call.col)).collect()
}

fn grid_cells(rows: std::ops::Range<u32>, cols: std::ops::Range<u32>) -> Vec<(u32, u32)> {
    let mut cells = Vec::new();
    for row in rows {
        for col in cols.clone() {
            cells.push((row, col));
        }
    }
    cells
}

#[test]
fn camera_starts_where_it_is_put() {
    let camera = Camera::new(-7, 9, 768, 576, 4);
    assert_eq!((camera.x(), camera.y()), (-7, 9));
}

#[test]
fn each_key_moves_its_axis_by_the_speed() {
    let start = (10, 20);
    for (keys, end) in [
        (held(true, false, false, false), (10, 24)),
        (held(false, true, false, false), (14, 20)),
        (held(false, false, true, false), (10, 16)),
        (held(false, false, false, true), (6, 20)),
        (held(true, true, false, false), (14, 24)),
        (held(false, false, true, true), (6, 16)),
        (held(true, false, true, false), (10, 20)),
        (held(false, true, false, true), (10, 20)),
        (held(true, true, true, true), (10, 20)),
        (held(false, false, false, false), (10, 20)),
    ] {
        let mut camera = Camera::new(start.0, start.1, 768, 576, 4);
        let mut keys = keys;
        let before = keys;
        assert!(camera.can_update(&keys));
        camera.update(&mut keys);
        assert_eq!((camera.x(), camera.y()), end);
        assert_eq!(keys, before);
    }
}

#[test]
fn offset_adds_up_over_updates() {
    let mut camera = Camera::new(0, 0, 768, 576, 3);
    let mut keys = held(false, false, true, true);
    for _ in 0..100 {
        camera.update(&mut keys);
    }
    assert_eq!((camera.x(), camera.y()), (-300, -300));
}

#[test]
fn negative_speed_moves_the_other_way() {
    let mut camera = Camera::new(0, 0, 768, 576, -5);
    camera.update(&mut held(true, false, false, true));
    assert_eq!((camera.x(), camera.y()), (5, -5));
}

#[test]
fn can_update_tells_an_offset_out_of_range() {
    let camera = Camera::new(i32::MAX - 3, 0, 768, 576, 4);
    assert!(!camera.can_update(&held(false, true, false, false)));
    // The way there counts, not only the end.
    assert!(!camera.can_update(&held(false, true, false, true)));
    assert!(camera.can_update(&held(false, false, false, true)));
    assert!(camera.can_update(&held(true, false, true, false)));
    let camera = Camera::new(0, i32::MIN + 3, 768, 576, 4);
    assert!(!camera.can_update(&held(false, false, true, false)));
    assert!(camera.can_update(&held(true, false, true, false)));
    let camera = Camera::new(i32::MAX - 4, i32::MIN + 4, 768, 576, 4);
    assert!(camera.can_update(&held(false, true, true, false)));
}

#[test]
fn distance_is_the_absolute_value() {
    assert_eq!(distance(0), 0);
    assert_eq!(distance(17), 17);
    assert_eq!(distance(-17), 17);
    assert_eq!(distance(i32::MAX), 2_147_483_647);
    assert_eq!(distance(i32::MIN), 2_147_483_648);
}

#[test]
fn screen_of_16_by_12_shows_17_by_13_cells() {
    let (handler, map) = world(48, 5, 15, 20);
    let camera = Camera::new(0, 0, 768, 576, 4);
    assert!(camera.can_draw(15, 20, 12, 16, &handler, &map));
    let calls = camera.draw_camera(15, 20, 12, 16, &handler, &map);
    assert_eq!(calls.len(), 17 * 13);
    assert_eq!(cells_of(&calls), grid_cells(0..13, 0..17));
}

#[test]
fn window_is_clipped_to_a_smaller_world() {
    let (handler, map) = world(48, 5, 8, 10);
    let camera = Camera::new(0, 0, 768, 576, 4);
    let calls = camera.draw_camera(8, 10, 12, 16, &handler, &map);
    assert_eq!(cells_of(&calls), grid_cells(0..8, 0..10));
    // The world may be a part of the map.
    let calls = camera.draw_camera(3, 2, 12, 16, &handler, &map);
    assert_eq!(cells_of(&calls), grid_cells(0..3, 0..2));
}

#[test]
fn picture_shows_the_tile_of_its_cell_where_the_offset_puts_it() {
    let (handler, map) = world(48, 5, 15, 20);
    let camera = Camera::new(-100, -50, 768, 576, 4);
    let calls = camera.draw_camera(15, 20, 2, 3, &handler, &map);
    // 100 / 48 == 2 and 50 / 48 == 1.
    assert_eq!(cells_of(&calls), grid_cells(1..4, 2..6));
    let whole = ScreenRect { x: 0, y: 0, width: 48, height: 48 };
    assert_eq!(
        calls[0],
        DrawCall {
            row: 1,
            col: 2,
            image: 103,
            src: whole,
            dest: ScreenRect { x: -4, y: -2, width: 48, height: 48 },
        }
    );
    assert_eq!(
        calls[5],
        DrawCall {
            row: 2,
            col: 3,
            image: 100,
            src: whole,
            dest: ScreenRect { x: 44, y: 46, width: 48, height: 48 },
        }
    );
    for call in &calls {
        assert_eq!(call.dest.x, -100 + 48 * call.col as i32);
        assert_eq!(call.dest.y, -50 + 48 * call.row as i32);
        assert_eq!(call.image, 100 + ((call.row + call.col) % 5) as usize);
        assert_eq!(call.src, whole);
    }
}

#[test]
fn no_more_pictures_than_the_window_has_cells() {
    let (handler, map) = world(16, 3, 40, 40);
    for (x, y) in [(0, 0), (-1, -1), (-16, -31), (-300, -200), (-630, -10), (-5000, 0), (77, 33)] {
        for (screen_rows, screen_cols) in [(0, 0), (1, 5), (7, 3), (50, 50)] {
            let camera = Camera::new(x, y, 640, 480, 4);
            assert!(camera.can_draw(40, 40, screen_rows, screen_cols, &handler, &map));
            let calls = camera.draw_camera(40, 40, screen_rows, screen_cols, &handler, &map);
            assert!(calls.len() as u32 <= (screen_rows + 1) * (screen_cols + 1));
            let first_row = y.unsigned_abs() / 16;
            let first_col = x.unsigned_abs() / 16;
            let mut expected = Vec::new();
            for row in 0..40 {
                for col in 0..40 {
                    if first_row <= row
                        && row <= first_row + screen_rows
                        && first_col <= col
                        && col <= first_col + screen_cols
                    {
                        expected.push((row, col));
                    }
                }
            }
            assert_eq!(cells_of(&calls), expected);
        }
    }
}

#[test]
fn camera_past_the_world_shows_nothing() {
    let (handler, map) = world(48, 5, 15, 20);
    let camera = Camera::new(-48 * 20, 0, 768, 576, 4);
    assert!(camera.draw_camera(15, 20, 12, 16, &handler, &map).is_empty());
    let camera = Camera::new(0, -48 * 15, 768, 576, 4);
    assert!(camera.draw_camera(15, 20, 12, 16, &handler, &map).is_empty());
    let camera = Camera::new(0, 0, 768, 576, 4);
    assert!(camera.draw_camera(0, 20, 12, 16, &handler, &map).is_empty());
}

#[test]
fn picture_moves_as_far_as_the_offset() {
    let (handler, map) = world(48, 5, 15, 20);
    let here = Camera::new(-100, -50, 768, 576, 4);
    let there = Camera::new(-137, -29, 768, 576, 4);
    let from = here.draw_camera(15, 20, 12, 16, &handler, &map);
    let to = there.draw_camera(15, 20, 12, 16, &handler, &map);
    let mut met = 0;
    for a in &from {
        for b in &to {
            if (a.row, a.col) == (b.row, b.col) {
                met += 1;
                assert_eq!(b.dest.x - a.dest.x, -137 - -100);
                assert_eq!(b.dest.y - a.dest.y, -29 - -50);
                assert_eq!((b.dest.width, b.dest.height), (a.dest.width, a.dest.height));
                assert_eq!((b.image, b.src), (a.image, a.src));
            }
        }
    }
    // Rows 1 to 12 and columns 2 to 18 show through both.
    assert_eq!(met, 12 * 17);
}

#[test]
fn offset_above_zero_counts_by_its_distance_from_zero() {
    let (handler, map) = world(48, 5, 15, 20);
    let camera = Camera::new(100, 0, 768, 576, 4);
    let calls = camera.draw_camera(15, 20, 0, 0, &handler, &map);
    assert_eq!(cells_of(&calls), vec![(0, 2)]);
    assert_eq!(calls[0].dest, ScreenRect { x: 196, y: 0, width: 48, height: 48 });
}

#[test]
fn picture_is_placed_as_the_renderer_keeps_it() {
    let side = 0x4000_0000;
    let tiles = vec![Tile { image: 9, immovable: false }];
    let handler = TileHandler { tiles, tile_size: side, maps: Vec::new() };
    let map = WorldMap { map: vec![vec![Pixel::new(0, 0, 0), Pixel::new(0x4000_0000, 0, 0)]] };
    let camera = Camera::new(0, 0, 768, 576, 4);
    assert!(camera.can_draw(1, 2, 0, 1, &handler, &map));
    let calls = camera.draw_camera(1, 2, 0, 1, &handler, &map);
    assert_eq!(calls.len(), 2);
    let largest = 0x3fff_ffff;
    assert_eq!(calls[0].dest, ScreenRect { x: 0, y: 0, width: largest, height: largest });
    assert_eq!(
        calls[1].dest,
        ScreenRect { x: largest as i32, y: 0, width: largest, height: largest }
    );
    assert_eq!(calls[1].src, ScreenRect { x: 0, y: 0, width: largest, height: largest });
}

#[test]
fn can_draw_tells_a_frame_that_cannot_be_drawn() {
    let (handler, map) = world(48, 5, 15, 20);
    let camera = Camera::new(0, 0, 768, 576, 4);
    // A world larger than the map, where the missing cells show.
    assert!(!camera.can_draw(16, 20, 15, 16, &handler, &map));
    assert!(!camera.can_draw(15, 21, 12, 20, &handler, &map));
    // The same worlds, where the missing cells do not show.
    assert!(camera.can_draw(16, 20, 14, 16, &handler, &map));
    assert!(camera.can_draw(15, 21, 12, 19, &handler, &map));
    // Tiles without a side.
    let (no_side, _) = world(0, 5, 1, 1);
    assert!(!camera.can_draw(15, 20, 12, 16, &no_side, &map));
    // A cell on a tile beyond the catalog.
    let (short, _) = world(48, 4, 1, 1);
    assert!(!camera.can_draw(15, 20, 12, 16, &short, &map));
    assert!(camera.can_draw(2, 2, 12, 16, &short, &map));
    // A cell that would start beyond the signed 32-bit numbers.
    let (wide, _) = world(0x7000_0000, 5, 1, 1);
    assert!(!camera.can_draw(15, 20, 12, 16, &wide, &map));
    let far = Camera::new(0x7000_0000, 0, 768, 576, 4);
    assert!(!far.can_draw(15, 20, 12, 16, &wide, &map));
    assert!(camera.can_draw(15, 20, 0, 0, &wide, &map));
}
