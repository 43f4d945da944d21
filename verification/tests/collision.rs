use adventure2d::events::collision_handler::{CollisionDetector, HitBox};
use adventure2d::events::key_handler::Direction;
use adventure2d::tiles::tile_handler::{Pixel, Tile, TileHandler, WorldMap};

const ALL: [Direction; 4] = [Direction::Up, Direction::Down, Direction::Left, Direction::Right];

/// A catalog of `count` tiles of which the listed ones are walls, for tiles
/// of side `tile_size`.
fn catalog(tile_size: u32, count: usize, walls: &[usize]) -> TileHandler {
    let tiles =
        (0..count).map(|image| Tile { image, immovable: walls.contains(&image) }).collect();
    TileHandler { tiles, tile_size, maps: Vec::new() }
}

fn map_of(rows: &[&[u32]], tile_size: i32) -> WorldMap {
    let mut map = Vec::new();
    for (r, row) in rows.iter().enumerate() {
        let mut cells = Vec::new();
        for (c, index) in row.iter().enumerate() {
            cells.push(Pixel::new(c as i32 * tile_size, r as i32 * tile_size, *index));
        }
        map.push(cells);
    }
    WorldMap { map }
}

#[test]
fn hit_box_is_32_by_32() {
    let hit_box = HitBox::new(5, -6, 7, 8);
    assert_eq!(
        hit_box,
        HitBox { x: 5, y: -6, width: 32, height: 32, tile_col: 7, tile_row: 8 }
    );
}

#[test]
fn single_cell_map_blocks_every_way() {
    for walls in [&[][..], &[0][..]] {
        let handler = catalog(48, 1, walls);
        let detector = CollisionDetector::new(&handler, 48);
        let map = map_of(&[&[0]], 48);
        for direction in ALL {
            assert!(detector.check(HitBox::new(8, 8, 0, 0), &map, &direction));
            assert!(detector.check(HitBox::new(-5000, 9000, 0, 0), &map, &direction));
        }
    }
}

#[test]
fn wall_to_the_right_blocks_and_open_tile_above_does_not() {
    let handler = catalog(48, 2, &[1]);
    let detector = CollisionDetector::new(&handler, 48);
    let map = map_of(&[&[0, 0, 0], &[0, 0, 1], &[0, 0, 0]], 48);
    // 32 by 32, wholly within the square of the cell at row 1, column 2.
    let hit_box = HitBox::new(100, 52, 1, 1);
    assert!(detector.can_check(hit_box, &map, &Direction::Right));
    assert!(detector.check(hit_box, &map, &Direction::Right));
    assert!(!detector.check(hit_box, &map, &Direction::Up));
    assert!(!detector.check(hit_box, &map, &Direction::Down));
    assert!(!detector.check(hit_box, &map, &Direction::Left));
}

#[test]
fn top_is_the_row_above_and_bottom_the_row_below() {
    let handler = catalog(48, 2, &[1]);
    let detector = CollisionDetector::new(&handler, 48);
    let map = map_of(&[&[0, 1, 0], &[0, 0, 0], &[0, 0, 0]], 48);
    // Reaches into the square of the cell at row 0, column 1.
    let hit_box = HitBox::new(56, 40, 1, 1);
    assert!(detector.check(hit_box, &map, &Direction::Up));
    assert!(!detector.check(hit_box, &map, &Direction::Down));
    let map = map_of(&[&[0, 0, 0], &[0, 0, 0], &[0, 1, 0]], 48);
    let hit_box = HitBox::new(56, 70, 1, 1);
    assert!(detector.check(hit_box, &map, &Direction::Down));
    assert!(!detector.check(hit_box, &map, &Direction::Up));
}

#[test]
fn open_neighbor_never_blocks() {
    let handler = catalog(48, 2, &[1]);
    let detector = CollisionDetector::new(&handler, 48);
    let map = map_of(&[&[1, 0, 1], &[0, 1, 0], &[1, 0, 1]], 48);
    for (x, y) in [(0, 0), (48, 48), (96, 48), (-100, 7), (i32::MAX, i32::MIN), (i32::MIN, 0)] {
        for direction in ALL {
            assert!(!detector.check(HitBox::new(x, y, 1, 1), &map, &direction));
        }
    }
}

#[test]
fn wall_out_of_reach_does_not_block() {
    let handler = catalog(48, 2, &[1]);
    let detector = CollisionDetector::new(&handler, 48);
    let map = map_of(&[&[0, 0, 0], &[0, 0, 1], &[0, 0, 0]], 48);
    // The wall's square spans 96..=144 across and 48..=96 down.
    assert!(!detector.check(HitBox::new(63, 52, 1, 1), &map, &Direction::Right));
    assert!(!detector.check(HitBox::new(145, 52, 1, 1), &map, &Direction::Right));
    assert!(!detector.check(HitBox::new(100, 15, 1, 1), &map, &Direction::Right));
    assert!(!detector.check(HitBox::new(100, 97, 1, 1), &map, &Direction::Right));
}

#[test]
fn touching_a_wall_counts_as_reaching_it() {
    let handler = catalog(48, 2, &[1]);
    let detector = CollisionDetector::new(&handler, 48);
    let map = map_of(&[&[0, 0, 0], &[0, 0, 1], &[0, 0, 0]], 48);
    // Right edge on the wall's left edge: 64 + 32 == 96.
    assert!(detector.check(HitBox::new(64, 52, 1, 1), &map, &Direction::Right));
    // Left edge on the wall's right edge: 96 + 48 == 144.
    assert!(detector.check(HitBox::new(144, 52, 1, 1), &map, &Direction::Right));
    // Bottom edge on the wall's top edge: 16 + 32 == 48.
    assert!(detector.check(HitBox::new(100, 16, 1, 1), &map, &Direction::Right));
    // Top edge on the wall's bottom edge: 48 + 48 == 96.
    assert!(detector.check(HitBox::new(100, 96, 1, 1), &map, &Direction::Right));
    // Corner to corner.
    assert!(detector.check(HitBox::new(64, 16, 1, 1), &map, &Direction::Right));
}

#[test]
fn edge_of_the_map_blocks_only_the_way_that_leaves_it() {
    let handler = catalog(48, 2, &[1]);
    let detector = CollisionDetector::new(&handler, 48);
    let map = map_of(&[&[0, 0, 0], &[0, 0, 0], &[0, 0, 0]], 48);
    let corner = HitBox::new(0, 0, 0, 0);
    assert!(detector.check(corner, &map, &Direction::Up));
    assert!(detector.check(corner, &map, &Direction::Left));
    assert!(!detector.check(corner, &map, &Direction::Down));
    assert!(!detector.check(corner, &map, &Direction::Right));
    let far_corner = HitBox::new(96, 96, 2, 2);
    assert!(detector.check(far_corner, &map, &Direction::Down));
    assert!(detector.check(far_corner, &map, &Direction::Right));
    assert!(!detector.check(far_corner, &map, &Direction::Up));
    assert!(!detector.check(far_corner, &map, &Direction::Left));
}

#[test]
fn failed_lookup_another_way_does_not_hide_a_wall() {
    let handler = catalog(48, 2, &[1]);
    let detector = CollisionDetector::new(&handler, 48);
    // From the top-left cell there is nothing above or to the left, and a
    // wall to the right.
    let map = map_of(&[&[0, 1], &[0, 0]], 48);
    let hit_box = HitBox::new(20, 8, 0, 0);
    assert!(detector.check(hit_box, &map, &Direction::Right));
    assert!(!detector.check(hit_box, &map, &Direction::Down));
}

#[test]
fn hit_box_off_the_map_is_blocked_where_no_cell_is_next_to_it() {
    let handler = catalog(48, 1, &[]);
    let detector = CollisionDetector::new(&handler, 48);
    let map = map_of(&[&[0, 0], &[0, 0]], 48);
    let lost = HitBox::new(0, 0, u32::MAX, u32::MAX);
    for direction in ALL {
        assert!(detector.check(lost, &map, &direction));
    }
    // One row below the map: the cell above is the map's last row.
    let below = HitBox::new(0, 0, 1, 2);
    assert!(!detector.check(below, &map, &Direction::Up));
    assert!(detector.check(below, &map, &Direction::Left));
}

#[test]
fn ragged_map_is_probed_row_by_row() {
    let handler = catalog(48, 1, &[]);
    let detector = CollisionDetector::new(&handler, 48);
    let map = map_of(&[&[0, 0, 0], &[0]], 48);
    assert!(!detector.check(HitBox::new(0, 0, 0, 0), &map, &Direction::Down));
    assert!(detector.check(HitBox::new(0, 0, 1, 0), &map, &Direction::Down));
    assert!(detector.check(HitBox::new(0, 0, 0, 1), &map, &Direction::Right));
}

#[test]
fn can_check_tells_an_unknown_tile_ahead() {
    let handler = catalog(48, 2, &[1]);
    let detector = CollisionDetector::new(&handler, 48);
    let map = map_of(&[&[0, 2], &[0, 0]], 48);
    let hit_box = HitBox::new(0, 0, 0, 0);
    assert!(!detector.can_check(hit_box, &map, &Direction::Right));
    assert!(detector.can_check(hit_box, &map, &Direction::Down));
    assert!(detector.can_check(hit_box, &map, &Direction::Up));
}

#[test]
fn overlap_is_tested_without_wrapping() {
    let handler = catalog(u32::MAX, 2, &[1]);
    let detector = CollisionDetector::new(&handler, u32::MAX);
    let map =
        WorldMap { map: vec![vec![Pixel::new(0, 0, 0), Pixel::new(i32::MAX, i32::MAX, 1)]] };
    let hit_box = HitBox { x: i32::MAX, y: i32::MAX, width: u32::MAX, height: u32::MAX, tile_col: 0, tile_row: 0 };
    assert!(detector.check(hit_box, &map, &Direction::Right));
    let hit_box = HitBox { x: i32::MIN, y: i32::MIN, width: 5, height: 5, tile_col: 0, tile_row: 0 };
    assert!(!detector.check(hit_box, &map, &Direction::Right));
}
