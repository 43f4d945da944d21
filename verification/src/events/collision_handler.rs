//! Collision of a moving hit-box with the tiles that cannot be walked
//! through.
//!
//! A hit-box knows the cell it stands on. Moving in a direction is blocked
//! when the next cell in that direction lies outside the map, or holds an
//! immovable tile whose square the hit-box reaches.

use vstd::prelude::*;
use crate::events::key_handler::Direction;
use crate::tiles::tile_handler::{cell_at, Pixel, Tile, TileHandler, WorldMap};

verus! {

/// The footprint of whoever moves, in world pixels, and the cell it stands
/// on.
#[derive(Clone, Copy, Debug, PartialEq, Eq, Structural)]
pub struct HitBox {
    pub x: i32,
    pub y: i32,
    pub width: u32,
    pub height: u32,
    /// Column of the cell the hit-box stands on.
    pub tile_col: u32,
    /// Row of the cell the hit-box stands on.
    pub tile_row: u32,
}

/// Decides whether a move is blocked, against one tile catalog.
pub struct CollisionDetector<'a> {
    tiles: &'a Vec<Tile>,
    tile_size: u32,
}

/// Row and column of the cell next to the hit-box's own in `direction`.
/// Either may lie outside every map.
pub open spec fn neighbor_position(hit_box: HitBox, direction: Direction) -> (int, int) {
    match direction {
        Direction::Up => (hit_box.tile_row - 1, hit_box.tile_col as int),
        Direction::Down => (hit_box.tile_row + 1, hit_box.tile_col as int),
        Direction::Left => (hit_box.tile_row as int, hit_box.tile_col - 1),
        Direction::Right => (hit_box.tile_row as int, hit_box.tile_col + 1),
    }
}

/// The cell next to the hit-box's own in `direction`, if the grid reaches
/// that far.
pub open spec fn neighbor(grid: Seq<Seq<Pixel>>, hit_box: HitBox, direction: Direction) -> Option<
    Pixel,
> {
    let (row, col) = neighbor_position(hit_box, direction);
    cell_at(grid, row, col)
}

/// Whether the hit-box and the square of side `tile_size` at `cell` meet on
/// both axes. Edges count: two rectangles that only touch do meet.
pub open spec fn overlaps(hit_box: HitBox, cell: Pixel, tile_size: u32) -> bool {
    &&& hit_box.x + hit_box.width >= cell.x
    &&& hit_box.x <= cell.x + tile_size
    &&& hit_box.y + hit_box.height >= cell.y
    &&& hit_box.y <= cell.y + tile_size
}

/// Whether the hit-box lies edge to edge with the square at `cell`: one of
/// its sides is on the line of the square's facing side, and along that line
/// the two meet.
pub open spec fn touches(hit_box: HitBox, cell: Pixel, tile_size: u32) -> bool {
    let meets_across = hit_box.x + hit_box.width >= cell.x && hit_box.x <= cell.x + tile_size;
    let meets_down = hit_box.y + hit_box.height >= cell.y && hit_box.y <= cell.y + tile_size;
    ||| (hit_box.x + hit_box.width == cell.x && meets_down)
    ||| (hit_box.x == cell.x + tile_size && meets_down)
    ||| (hit_box.y + hit_box.height == cell.y && meets_across)
    ||| (hit_box.y == cell.y + tile_size && meets_across)
}

impl HitBox {
    /// A hit-box of 32 by 32 pixels at `x`, `y`, standing on the cell in
    /// column `tile_col` of row `tile_row`.
    pub fn new(x: i32, y: i32, tile_col: u32, tile_row: u32) -> (hit_box: HitBox)
        ensures
            hit_box == (HitBox { x, y, width: 32, height: 32, tile_col, tile_row }),
    {
        Self { x, y, width: 32, height: 32, tile_col, tile_row }
    }
}

impl<'a> CollisionDetector<'a> {
    /// The catalog the detector looks tiles up in.
    pub closed spec fn tiles(&self) -> Seq<Tile> {
        self.tiles@
    }

    /// The side of a tile's square, in pixels.
    pub closed spec fn tile_size(&self) -> u32 {
        self.tile_size
    }

    /// Whether the tile lying on `cell` is one the catalog holds.
    pub open spec fn knows(&self, cell: Pixel) -> bool {
        cell.index < self.tiles().len()
    }

    /// Whether the next cell in `direction`, where the grid has one, holds a
    /// tile of the catalog.
    pub open spec fn knows_neighbor(
        &self,
        grid: Seq<Seq<Pixel>>,
        hit_box: HitBox,
        direction: Direction,
    ) -> bool {
        neighbor(grid, hit_box, direction) matches Some(cell) ==> self.knows(cell)
    }

    /// Whether the tile lying on `cell` is immovable.
    pub open spec fn is_wall(&self, cell: Pixel) -> bool {
        self.tiles()[cell.index as int].immovable
    }

    /// Whether moving in `direction` is blocked: the map's edge blocks, and
    /// so does an immovable neighbor that the hit-box reaches.
    pub open spec fn blocks(
        &self,
        grid: Seq<Seq<Pixel>>,
        hit_box: HitBox,
        direction: Direction,
    ) -> bool {
        match neighbor(grid, hit_box, direction) {
            None => true,
            Some(cell) => self.is_wall(cell) && overlaps(hit_box, cell, self.tile_size()),
        }
    }

    /// A detector over the tiles of `tile_handler`, for squares of side
    /// `tile_size`.
    pub fn new(tile_handler: &'a TileHandler, tile_size: u32) -> (detector: Self)
        ensures
            detector.tiles() == tile_handler.tiles@,
            detector.tile_size() == tile_size,
    {
        Self { tiles: &tile_handler.tiles, tile_size }
    }

    /// Whether [`CollisionDetector::check`] can be asked about `hit_box`
    /// and `direction` on `map`: see [`CollisionDetector::knows_neighbor`].
    pub fn can_check(&self, hit_box: HitBox, map: &WorldMap, direction: &Direction) -> (known: bool)
        ensures
            known == self.knows_neighbor(map@, hit_box, *direction),
    {
        match neighbor_cell(hit_box, map, direction) {
            None => true,
            Some(cell) => (cell.index as usize) < self.tiles.len(),
        }
    }

    /// Whether moving `hit_box` in `direction` on `map` is blocked.
    ///
    /// Only the next cell in `direction` is looked at. Where the map has no
    /// such cell the move is blocked. Where the cell's tile can be walked
    /// over the move is free, wherever the hit-box is. Where the tile is
    /// immovable the move is blocked exactly if the hit-box meets the tile's
    /// square, edges included.
    pub fn check(&self, hit_box: HitBox, map: &WorldMap, direction: &Direction) -> (blocked: bool)
        requires
            self.knows_neighbor(map@, hit_box, *direction),
        ensures
            blocked == self.blocks(map@, hit_box, *direction),
            neighbor(map@, hit_box, *direction) is None ==> blocked,
            map@.len() == 1 && map@[0].len() == 1 && hit_box.tile_row == 0 && hit_box.tile_col == 0
                ==> blocked,
            neighbor(map@, hit_box, *direction) matches Some(cell) && !self.is_wall(cell)
                ==> !blocked,
            neighbor(map@, hit_box, *direction) matches Some(cell) && self.is_wall(cell)
                && touches(hit_box, cell, self.tile_size()) ==> blocked,
    {
        match neighbor_cell(hit_box, map, direction) {
            None => true,
            Some(cell) => {
                if self.tiles[cell.index as usize].immovable {
                    let left = hit_box.x as i64;
                    let right = left + hit_box.width as i64;
                    let top = hit_box.y as i64;
                    let bottom = top + hit_box.height as i64;
                    let cell_left = cell.x as i64;
                    let cell_right = cell_left + self.tile_size as i64;
                    let cell_top = cell.y as i64;
                    let cell_bottom = cell_top + self.tile_size as i64;
                    right >= cell_left && left <= cell_right && bottom >= cell_top && top
                        <= cell_bottom
                } else {
                    false
                }
            },
        }
    }
}

/// The cell of `map` next to the hit-box's own in `direction`, if the map
/// reaches that far.
fn neighbor_cell(hit_box: HitBox, map: &WorldMap, direction: &Direction) -> (cell: Option<Pixel>)
    ensures
        cell == neighbor(map@, hit_box, *direction),
{
    let row = hit_box.tile_row as usize;
    let col = hit_box.tile_col as usize;
    assert(map@.len() == map.map.len() <= usize::MAX);
    assert(row < map@.len() ==> map@[row as int].len() == map.map[row as int].len()
        <= usize::MAX);
    match direction {
        Direction::Up => if row == 0 {
            None
        } else {
            map.cell(row - 1, col)
        },
        Direction::Down => if row == usize::MAX {
            None
        } else {
            map.cell(row + 1, col)
        },
        Direction::Left => if col == 0 {
            None
        } else {
            map.cell(row, col - 1)
        },
        Direction::Right => if col == usize::MAX {
            None
        } else {
            map.cell(row, col + 1)
        },
    }
}

} // verus!
