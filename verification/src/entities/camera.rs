//! The camera: a scroll offset over the world, moved by the held keys, and
//! the pictures to draw for the cells that show through it.
//!
//! The world is a grid of square cells. The camera shows the cells from the
//! one its offset has reached, as many rows and columns as the screen holds
//! and one more of each, so that a cell scrolled partly off the edge still
//! shows. Every shown cell gets one picture, placed where the offset puts
//! the cell on the screen.

use vstd::prelude::*;
use vstd::arithmetic::div_mod::lemma_fundamental_div_mod_converse;
use crate::events::key_handler::Keys;
use crate::rect::{max_value, min_position, ScreenRect};
use crate::tiles::tile_handler::{has_cell, Pixel, TileHandler, WorldMap};

verus! {

/// The window through which the world is seen.
///
/// The offset is where the world's top-left corner lies on the screen, so
/// it falls as the view scrolls right and down.
pub struct Camera {
    speed: i32,
    camera_x: i32,
    camera_y: i32,
    camera_screen_width: u32,
    camera_screen_height: u32,
}

/// One picture to copy to the screen: the whole picture `image`, taken as
/// `src`, put at `dest`. `row` and `col` say which cell it shows.
#[derive(Clone, Copy, Debug, PartialEq, Eq, Structural)]
pub struct DrawCall {
    pub row: u32,
    pub col: u32,
    /// Key of the picture in the renderer's store.
    pub image: usize,
    pub src: ScreenRect,
    pub dest: ScreenRect,
}

/// The sizes a frame is drawn for: the side of a tile in pixels, the rows
/// and columns of cells of the world, and the rows and columns of tiles that
/// the screen holds.
pub struct Layout {
    pub tile_size: u32,
    pub world_rows: u32,
    pub world_cols: u32,
    pub screen_rows: u32,
    pub screen_cols: u32,
}

impl Layout {
    /// The layout of the given sizes.
    pub open spec fn of(
        tile_size: u32,
        world_rows: u32,
        world_cols: u32,
        screen_rows: u32,
        screen_cols: u32,
    ) -> Layout {
        Layout { tile_size, world_rows, world_cols, screen_rows, screen_cols }
    }
}

/// How far `value` is from zero.
pub open spec fn magnitude(value: i32) -> nat {
    if value < 0 {
        (-value) as nat
    } else {
        value as nat
    }
}

/// How many of the places `start`, `start + 1`, up to `start + extent`,
/// lie below `limit`.
pub open spec fn span(start: int, extent: int, limit: int) -> int {
    if start >= limit {
        0
    } else if start + extent + 1 <= limit {
        extent + 1
    } else {
        limit - start
    }
}

/// The cells that show through the camera: `rows` rows from `first_row`
/// down, of each the `cols` cells from `first_col` on.
pub struct Window {
    pub first_row: int,
    pub first_col: int,
    pub rows: int,
    pub cols: int,
}

impl Window {
    /// Whether the cell at `row`, `col` is one of the window's.
    pub open spec fn holds(self, row: int, col: int) -> bool {
        &&& self.first_row <= row < self.first_row + self.rows
        &&& self.first_col <= col < self.first_col + self.cols
    }

    /// How many cells the window holds.
    pub open spec fn len(self) -> int {
        self.rows * self.cols
    }

    /// The row of the window's cell number `k`, counting row by row.
    pub open spec fn row_of(self, k: int) -> int {
        self.first_row + k / self.cols
    }

    /// The column of the window's cell number `k`, counting row by row.
    pub open spec fn col_of(self, k: int) -> int {
        self.first_col + k % self.cols
    }

    /// Which of the window's cells the one at `row`, `col` is, counting
    /// row by row.
    pub open spec fn number_of(self, row: int, col: int) -> int {
        (row - self.first_row) * self.cols + (col - self.first_col)
    }
}

/// Counting a window's cells row by row gives each cell one number, and
/// the number gives back the cell.
pub proof fn lemma_window_numbers(window: Window, row: int, col: int)
    requires
        window.holds(row, col),
    ensures
        0 <= window.number_of(row, col) < window.len(),
        window.row_of(window.number_of(row, col)) == row,
        window.col_of(window.number_of(row, col)) == col,
{
    let i = row - window.first_row;
    let j = col - window.first_col;
    let k = window.number_of(row, col);
    assert(0 <= i * window.cols && i * window.cols + window.cols <= window.rows * window.cols)
        by (nonlinear_arith)
        requires
            0 <= i < window.rows,
            0 < window.cols,
    ;
    lemma_fundamental_div_mod_converse(k, window.cols, i, j);
}

/// Every number below a window's length is the number of one of its cells.
pub proof fn lemma_window_cells(window: Window, k: int)
    requires
        0 <= k < window.len(),
        0 <= window.rows,
        0 <= window.cols,
    ensures
        window.holds(window.row_of(k), window.col_of(k)),
        window.number_of(window.row_of(k), window.col_of(k)) == k,
{
    let cols = window.cols;
    assert(cols > 0) by (nonlinear_arith)
        requires
            0 <= k < window.rows * cols,
            0 <= cols,
    ;
    vstd::arithmetic::div_mod::lemma_fundamental_div_mod(k, cols);
    vstd::arithmetic::div_mod::lemma_mod_bound(k, cols);
    let q = k / cols;
    assert(0 <= q < window.rows) by (nonlinear_arith)
        requires
            0 <= k < window.rows * cols,
            0 < cols,
            k == cols * q + k % cols,
            0 <= k % cols < cols,
    ;
    assert(q * cols == cols * q) by (nonlinear_arith);
}

/// How many of the `count` places from `first` on lie below `at`.
pub open spec fn places_below(first: int, count: int, at: int) -> int {
    if at <= first {
        0
    } else if at - first >= count {
        count
    } else {
        at - first
    }
}

/// Whether the pictures `calls` show each cell at most once.
pub open spec fn shows_no_cell_twice(calls: Seq<DrawCall>) -> bool {
    forall|j: int, k: int|
        0 <= j < calls.len() && 0 <= k < calls.len() && j != k ==> !((#[trigger] calls[j]).row == (
        #[trigger] calls[k]).row && calls[j].col == calls[k].col)
}

/// Whether one of the pictures `calls` shows the cell at `row`, `col`.
pub open spec fn shows_cell(calls: Seq<DrawCall>, row: int, col: int) -> bool {
    exists|k: int| 0 <= k < calls.len() && (#[trigger] calls[k]).row == row && calls[k].col == col
}

/// Whether `value` is a signed 32-bit number.
pub open spec fn fits_i32(value: int) -> bool {
    i32::MIN <= value <= i32::MAX
}

impl Camera {
    /// Horizontal offset, in pixels.
    pub closed spec fn offset_x(&self) -> i32 {
        self.camera_x
    }

    /// Vertical offset, in pixels.
    pub closed spec fn offset_y(&self) -> i32 {
        self.camera_y
    }

    /// Pixels the offset moves per update and held key.
    pub closed spec fn speed(&self) -> i32 {
        self.speed
    }

    /// Width of the screen, in pixels.
    pub closed spec fn screen_width(&self) -> u32 {
        self.camera_screen_width
    }

    /// Height of the screen, in pixels.
    pub closed spec fn screen_height(&self) -> u32 {
        self.camera_screen_height
    }

    /// Vertical offset once `w` has been applied.
    pub open spec fn y_after_w(&self, keys: Keys) -> int {
        if keys.w {
            self.offset_y() + self.speed()
        } else {
            self.offset_y() as int
        }
    }

    /// Horizontal offset once `a` has been applied.
    pub open spec fn x_after_a(&self, keys: Keys) -> int {
        if keys.a {
            self.offset_x() + self.speed()
        } else {
            self.offset_x() as int
        }
    }

    /// Vertical offset once `w` and then `s` have been applied.
    pub open spec fn y_after(&self, keys: Keys) -> int {
        if keys.s {
            self.y_after_w(keys) - self.speed()
        } else {
            self.y_after_w(keys)
        }
    }

    /// Horizontal offset once `a` and then `d` have been applied.
    pub open spec fn x_after(&self, keys: Keys) -> int {
        if keys.d {
            self.x_after_a(keys) - self.speed()
        } else {
            self.x_after_a(keys)
        }
    }

    /// Row of the first cell the camera has reached, for tiles of side
    /// `tile_size`: how many whole tiles the offset is from zero.
    pub open spec fn first_row(&self, tile_size: u32) -> int {
        magnitude(self.offset_y()) as int / tile_size as int
    }

    /// Column of the first cell the camera has reached: see
    /// [`Camera::first_row`].
    pub open spec fn first_col(&self, tile_size: u32) -> int {
        magnitude(self.offset_x()) as int / tile_size as int
    }

    /// Whether the cell at `row`, `col` shows: it lies in the world, at most
    /// as many rows below and columns right of the first cell the camera has
    /// reached as the screen holds.
    pub open spec fn shows(&self, layout: Layout, row: int, col: int) -> bool {
        let first_row = self.first_row(layout.tile_size);
        let first_col = self.first_col(layout.tile_size);
        &&& 0 <= row < layout.world_rows
        &&& 0 <= col < layout.world_cols
        &&& first_row <= row < first_row + layout.screen_rows + 1
        &&& first_col <= col < first_col + layout.screen_cols + 1
    }

    /// The cells that show, as a window. Its cells are those of which
    /// [`Camera::shows`] holds.
    pub open spec fn window(&self, layout: Layout) -> Window {
        let first_row = self.first_row(layout.tile_size);
        let first_col = self.first_col(layout.tile_size);
        Window {
            first_row,
            first_col,
            rows: span(first_row, layout.screen_rows as int, layout.world_rows as int),
            cols: span(first_col, layout.screen_cols as int, layout.world_cols as int),
        }
    }

    /// Where the cell in column `col` starts on the screen.
    pub open spec fn screen_x(&self, tile_size: u32, col: int) -> int {
        self.offset_x() + col * tile_size
    }

    /// Where the cell in row `row` starts on the screen.
    pub open spec fn screen_y(&self, tile_size: u32, row: int) -> int {
        self.offset_y() + row * tile_size
    }

    /// The picture for the cell at `row`, `col`: the whole picture of the
    /// cell's tile, put where the cell starts on the screen, as large as a
    /// tile, as the renderer keeps the two rectangles.
    pub open spec fn picture(
        &self,
        tile_handler: &TileHandler,
        grid: Seq<Seq<Pixel>>,
        row: int,
        col: int,
    ) -> DrawCall {
        let side = tile_handler.tile_size;
        DrawCall {
            row: row as u32,
            col: col as u32,
            image: tile_handler.tiles@[grid[row][col].index as int].image,
            src: ScreenRect::kept_for(0, 0, side as int, side as int),
            dest: ScreenRect::kept_for(
                self.screen_x(side, col),
                self.screen_y(side, row),
                side as int,
                side as int,
            ),
        }
    }

    /// The pictures for the cells of `window`, row by row.
    pub open spec fn pictures(
        &self,
        tile_handler: &TileHandler,
        grid: Seq<Seq<Pixel>>,
        window: Window,
    ) -> Seq<DrawCall> {
        Seq::new(
            window.len() as nat,
            |k: int| self.picture(tile_handler, grid, window.row_of(k), window.col_of(k)),
        )
    }

    /// Whether the cell at `row`, `col` can be drawn: the map has it, the
    /// catalog holds its tile, and it starts on the screen at a signed
    /// 32-bit number on both axes.
    pub open spec fn can_draw_cell(
        &self,
        tile_handler: &TileHandler,
        grid: Seq<Seq<Pixel>>,
        row: int,
        col: int,
    ) -> bool {
        &&& has_cell(grid, row, col)
        &&& grid[row][col].index < tile_handler.tiles@.len()
        &&& fits_i32(self.screen_x(tile_handler.tile_size, col))
        &&& fits_i32(self.screen_y(tile_handler.tile_size, row))
    }

    /// Whether a frame can be drawn: tiles have a side, and every cell that
    /// shows can be drawn.
    pub open spec fn frame_fits(
        &self,
        layout: Layout,
        tile_handler: &TileHandler,
        grid: Seq<Seq<Pixel>>,
    ) -> bool {
        &&& layout.tile_size == tile_handler.tile_size
        &&& layout.tile_size > 0
        &&& forall|row: int, col: int|
            self.shows(layout, row, col) ==> #[trigger] self.can_draw_cell(
                tile_handler,
                grid,
                row,
                col,
            )
    }

    /// Whether the pictures `calls` are one for each cell that shows and no
    /// others, none of them twice, and no more than the screen has cells
    /// with one row and one column added.
    pub open spec fn draws_each_shown_cell_once(
        &self,
        layout: Layout,
        calls: Seq<DrawCall>,
    ) -> bool {
        &&& calls.len() <= (layout.screen_rows + 1) * (layout.screen_cols + 1)
        &&& shows_no_cell_twice(calls)
        &&& forall|row: int, col: int|
            self.shows(layout, row, col) ==> #[trigger] shows_cell(calls, row, col)
        &&& forall|k: int|
            0 <= k < calls.len() ==> self.shows(
                layout,
                (#[trigger] calls[k]).row as int,
                calls[k].col as int,
            )
    }

    /// Whether every offset on the way through an update with `keys` held
    /// is a signed 32-bit number.
    pub open spec fn update_fits(&self, keys: Keys) -> bool {
        &&& fits_i32(self.y_after_w(keys))
        &&& fits_i32(self.x_after_a(keys))
        &&& fits_i32(self.y_after(keys))
        &&& fits_i32(self.x_after(keys))
    }

    /// The cells that show are the cells of the window, for tiles that
    /// have a side.
    pub proof fn lemma_window_holds_what_shows(&self, layout: Layout, row: int, col: int)
        requires
            layout.tile_size > 0,
        ensures
            self.shows(layout, row, col) <==> self.window(layout).holds(row, col),
            self.window(layout).rows >= 0,
            self.window(layout).cols >= 0,
    {
        let down = magnitude(self.offset_y()) as int;
        let across = magnitude(self.offset_x()) as int;
        let side = layout.tile_size as int;
        assert(0 <= down / side <= down && 0 <= across / side <= across) by (nonlinear_arith)
            requires
                0 <= down,
                0 <= across,
                0 < side,
        ;
    }

    /// A cell's picture moves as far as the offset does: between two
    /// cameras the place of the picture differs by what the offsets differ
    /// by, on each axis, and nothing else of the picture differs. As the
    /// offset falls when the view scrolls on, the picture moves against the
    /// scroll.
    ///
    /// This holds where the renderer keeps both places as they are.
    pub proof fn lemma_picture_moves_with_offset(
        &self,
        other: &Camera,
        tile_handler: &TileHandler,
        grid: Seq<Seq<Pixel>>,
        row: int,
        col: int,
    )
        requires
            min_position() <= self.screen_x(tile_handler.tile_size, col) <= max_value(),
            min_position() <= self.screen_y(tile_handler.tile_size, row) <= max_value(),
            min_position() <= other.screen_x(tile_handler.tile_size, col) <= max_value(),
            min_position() <= other.screen_y(tile_handler.tile_size, row) <= max_value(),
        ensures
            ({
                let here = self.picture(tile_handler, grid, row, col);
                let there = other.picture(tile_handler, grid, row, col);
                &&& there.dest.x - here.dest.x == other.offset_x() - self.offset_x()
                &&& there.dest.y - here.dest.y == other.offset_y() - self.offset_y()
                &&& there.dest.width == here.dest.width
                &&& there.dest.height == here.dest.height
                &&& there.src == here.src
                &&& there.image == here.image
                &&& there.row == here.row
                &&& there.col == here.col
            }),
    {
    }

    /// Every cell that shows gets one picture and no more, every picture is
    /// of a cell that shows, and there are no more pictures than the screen
    /// has cells with one row and one column added.
    pub proof fn lemma_each_shown_cell_once(
        &self,
        layout: Layout,
        tile_handler: &TileHandler,
        grid: Seq<Seq<Pixel>>,
    )
        requires
            layout.tile_size > 0,
        ensures
            self.draws_each_shown_cell_once(
                layout,
                self.pictures(tile_handler, grid, self.window(layout)),
            ),
    {
        let window = self.window(layout);
        let calls = self.pictures(tile_handler, grid, window);
        self.lemma_window_holds_what_shows(layout, 0, 0);
        assert(window.rows * window.cols <= (layout.screen_rows + 1) * (layout.screen_cols + 1)
            && 0 <= window.rows * window.cols) by (nonlinear_arith)
            requires
                0 <= window.rows <= layout.screen_rows + 1,
                0 <= window.cols <= layout.screen_cols + 1,
        ;
        assert forall|k: int| 0 <= k < calls.len() implies {
            &&& window.number_of((#[trigger] calls[k]).row as int, calls[k].col as int) == k
            &&& self.shows(layout, calls[k].row as int, calls[k].col as int)
        } by {
            lemma_window_cells(window, k);
            self.lemma_window_holds_what_shows(layout, window.row_of(k), window.col_of(k));
        }
        assert forall|row: int, col: int| self.shows(layout, row, col) implies #[trigger] shows_cell(
            calls,
            row,
            col,
        ) by {
            self.lemma_window_holds_what_shows(layout, row, col);
            lemma_window_numbers(window, row, col);
            let k = window.number_of(row, col);
            assert(calls[k].row == row && calls[k].col == col);
        }
    }

    /// A camera at offset `x`, `y` over a screen of `camera_width` by
    /// `camera_height` pixels, moving `speed` pixels per update.
    pub fn new(x: i32, y: i32, camera_width: u32, camera_height: u32, speed: i32) -> (camera: Self)
        ensures
            camera.offset_x() == x,
            camera.offset_y() == y,
            camera.screen_width() == camera_width,
            camera.screen_height() == camera_height,
            camera.speed() == speed,
    {
        Self {
            speed: speed,
            camera_x: x,
            camera_y: y,
            camera_screen_width: camera_width,
            camera_screen_height: camera_height,
        }
    }

    /// Horizontal offset, in pixels.
    pub fn x(&self) -> (x: i32)
        ensures
            x == self.offset_x(),
    {
        self.camera_x
    }

    /// Vertical offset, in pixels.
    pub fn y(&self) -> (y: i32)
        ensures
            y == self.offset_y(),
    {
        self.camera_y
    }

    /// Whether an update with `keys` held keeps the offset within signed
    /// 32-bit numbers all the way.
    pub fn can_update(&self, keys: &Keys) -> (fits: bool)
        ensures
            fits == self.update_fits(*keys),
    {
        let speed = self.speed as i64;
        let mut x = self.camera_x as i64;
        let mut y = self.camera_y as i64;
        if keys.w {
            y = y + speed;
        }
        if keys.a {
            x = x + speed;
        }
        if !holds_i32(y) || !holds_i32(x) {
            return false;
        }
        if keys.s {
            y = y - speed;
        }
        if keys.d {
            x = x - speed;
        }
        holds_i32(y) && holds_i32(x)
    }

    /// Moves the offset by the held keys: `w` and `a` raise it by the
    /// speed, `s` and `d` lower it, each key on its own axis and in that
    /// order.
    pub fn update(&mut self, keys: &mut Keys)
        requires
            old(self).update_fits(*old(keys)),
        ensures
            final(self).offset_x() == old(self).x_after(*old(keys)),
            final(self).offset_y() == old(self).y_after(*old(keys)),
            final(self).speed() == old(self).speed(),
            final(self).screen_width() == old(self).screen_width(),
            final(self).screen_height() == old(self).screen_height(),
            *final(keys) == *old(keys),
    {
        if keys.w {
            self.camera_y += self.speed;
        }
        if keys.a {
            self.camera_x += self.speed;
        }
        if keys.s {
            self.camera_y -= self.speed;
        }
        if keys.d {
            self.camera_x -= self.speed;
        }
    }

    /// Whether a frame can be drawn: see [`Camera::frame_fits`].
    #[verifier::loop_isolation(false)]
    pub fn can_draw(
        &self,
        max_world_row: u32,
        max_world_col: u32,
        max_screen_row: u32,
        max_screen_col: u32,
        tile_handler: &TileHandler,
        map: &WorldMap,
    ) -> (fits: bool)
        ensures
            fits == self.frame_fits(
                Layout::of(
                    tile_handler.tile_size,
                    max_world_row,
                    max_world_col,
                    max_screen_row,
                    max_screen_col,
                ),
                tile_handler,
                map@,
            ),
    {
        let side = tile_handler.tile_size;
        if side == 0 {
            return false;
        }
        let ghost layout = Layout::of(
            side,
            max_world_row,
            max_world_col,
            max_screen_row,
            max_screen_col,
        );
        let first_col = (distance(self.camera_x) / side) as u64;
        let first_row = (distance(self.camera_y) / side) as u64;
        let row_end = if first_row + max_screen_row as u64 + 1 < max_world_row as u64 {
            first_row + max_screen_row as u64 + 1
        } else {
            max_world_row as u64
        };
        let col_end = if first_col + max_screen_col as u64 + 1 < max_world_col as u64 {
            first_col + max_screen_col as u64 + 1
        } else {
            max_world_col as u64
        };
        let mut row = first_row;
        while row < row_end
            invariant
                first_row <= row,
                forall|r: int, c: int|
                    r < row && self.shows(layout, r, c) ==> #[trigger] self.can_draw_cell(
                        tile_handler,
                        map@,
                        r,
                        c,
                    ),
            decreases row_end - row,
        {
            let mut col = first_col;
            while col < col_end
                invariant
                    first_row <= row < row_end,
                    first_col <= col,
                    forall|r: int, c: int|
                        (r < row || (r == row && c < col)) && self.shows(layout, r, c)
                            ==> #[trigger] self.can_draw_cell(tile_handler, map@, r, c),
                decreases col_end - col,
            {
                assert(self.shows(layout, row as int, col as int));
                let cell = match map.cell(row as usize, col as usize) {
                    Some(cell) => cell,
                    None => {
                        assert(!self.can_draw_cell(tile_handler, map@, row as int, col as int));
                        return false;
                    },
                };
                if cell.index as usize >= tile_handler.tile_count() {
                    assert(!self.can_draw_cell(tile_handler, map@, row as int, col as int));
                    return false;
                }
                proof {
                    assert(0 <= col * side <= 0xffff_ffff * 0xffff_ffff && 0 <= row * side
                        <= 0xffff_ffff * 0xffff_ffff) by (nonlinear_arith)
                        requires
                            0 <= col <= 0xffff_ffff,
                            0 <= row <= 0xffff_ffff,
                            0 <= side <= 0xffff_ffff,
                    ;
                }
                let x = self.camera_x as i128 + (col as i128) * (side as i128);
                let y = self.camera_y as i128 + (row as i128) * (side as i128);
                if x > 0x7fff_ffff || y > 0x7fff_ffff {
                    assert(!self.can_draw_cell(tile_handler, map@, row as int, col as int));
                    return false;
                }
                assert(self.can_draw_cell(tile_handler, map@, row as int, col as int));
                col += 1;
            }
            row += 1;
        }
        true
    }

    /// The pictures of one frame, in the order to draw them: one for each
    /// cell that shows, row by row.
    ///
    /// The world is the first `max_world_row` rows of `map` and of each the
    /// first `max_world_col` cells; the screen holds `max_screen_row` rows
    /// and `max_screen_col` columns of tiles.
    #[verifier::loop_isolation(false)]
    pub fn draw_camera(
        &self,
        max_world_row: u32,
        max_world_col: u32,
        max_screen_row: u32,
        max_screen_col: u32,
        tile_handler: &TileHandler,
        map: &WorldMap,
    ) -> (calls: Vec<DrawCall>)
        requires
            self.frame_fits(
                Layout::of(
                    tile_handler.tile_size,
                    max_world_row,
                    max_world_col,
                    max_screen_row,
                    max_screen_col,
                ),
                tile_handler,
                map@,
            ),
        ensures
            ({
                let layout = Layout::of(
                    tile_handler.tile_size,
                    max_world_row,
                    max_world_col,
                    max_screen_row,
                    max_screen_col,
                );
                &&& calls@ == self.pictures(tile_handler, map@, self.window(layout))
                &&& self.draws_each_shown_cell_once(layout, calls@)
            }),
    {
        let side = tile_handler.tile_size;
        let start_world_tile_x = distance(self.camera_x) / side;
        let start_world_tile_y = distance(self.camera_y) / side;
        let ghost layout = Layout::of(
            side,
            max_world_row,
            max_world_col,
            max_screen_row,
            max_screen_col,
        );
        let ghost window = self.window(layout);
        let ghost all = self.pictures(tile_handler, map@, window);
        proof {
            self.lemma_window_holds_what_shows(layout, 0, 0);
            assert(0 <= window.rows * window.cols) by (nonlinear_arith)
                requires
                    0 <= window.rows,
                    0 <= window.cols,
            ;
        }
        let mut calls: Vec<DrawCall> = Vec::new();
        let mut y: i128 = self.camera_y as i128;
        let mut row: u32 = 0;
        assert(calls@ =~= all.take(0));
        while row < max_world_row
            invariant
                row <= max_world_row,
                y == self.camera_y + row * side,
                calls@ == all.take(places_below(window.first_row, window.rows, row as int) * window.cols),
            decreases max_world_row - row,
        {
            let mut x: i128 = self.camera_x as i128;
            let mut col: u32 = 0;
            let ghost above = places_below(window.first_row, window.rows, row as int) * window.cols;
            let ghost row_shows = window.first_row <= row < window.first_row + window.rows;
            while col < max_world_col
                invariant
                    row < max_world_row,
                    col <= max_world_col,
                    x == self.camera_x + col * side,
                    calls@ == all.take(
                        above + if row_shows {
                            places_below(window.first_col, window.cols, col as int)
                        } else {
                            0
                        },
                    ),
                decreases max_world_col - col,
            {
                if row >= start_world_tile_y && (row as u64) < start_world_tile_y as u64
                    + max_screen_row as u64 + 1 && col >= start_world_tile_x && (col as u64)
                    < start_world_tile_x as u64 + max_screen_col as u64 + 1 {
                    proof {
                        assert(self.shows(layout, row as int, col as int));
                        assert(self.can_draw_cell(tile_handler, map@, row as int, col as int));
                        lemma_window_numbers(window, row as int, col as int);
                    }
                    let cell = map.map[row as usize][col as usize];
                    let image = tile_handler.image_of(cell.index as usize);
                    let src_rect = ScreenRect::new(0, 0, side, side);
                    let dest_rect = ScreenRect::new(x as i32, y as i32, side, side);
                    calls.push(DrawCall { row, col, image, src: src_rect, dest: dest_rect });
                    proof {
                        let k = window.number_of(row as int, col as int);
                        assert(all.take(k).push(all[k]) =~= all.take(k + 1));
                    }
                }
                proof {
                    assert((col + 1) * side == col * side + side && 0 <= col * side <= 0xffff_ffff
                        * 0xffff_ffff) by (nonlinear_arith)
                        requires
                            0 <= col <= 0xffff_ffff,
                            0 <= side <= 0xffff_ffff,
                    ;
                }
                x = x + side as i128;
                col += 1;
            }
            proof {
                assert((row + 1) * side == row * side + side && 0 <= row * side <= 0xffff_ffff
                    * 0xffff_ffff) by (nonlinear_arith)
                    requires
                        0 <= row <= 0xffff_ffff,
                        0 <= side <= 0xffff_ffff,
                ;
                let before = places_below(window.first_row, window.rows, row as int);
                assert((before + 1) * window.cols == before * window.cols + window.cols)
                    by (nonlinear_arith);
            }
            y = y + side as i128;
            row += 1;
        }
        proof {
            assert(all.take(window.rows * window.cols) =~= all);
            self.lemma_each_shown_cell_once(layout, tile_handler, map@);
        }
        calls
    }
}

/// Whether `value` is a signed 32-bit number.
fn holds_i32(value: i64) -> (fits: bool)
    ensures
        fits == fits_i32(value as int),
{
    -0x8000_0000 <= value && value <= 0x7fff_ffff
}

/// How far `value` is from zero.
pub fn distance(value: i32) -> (far: u32)
    ensures
        far == magnitude(value),
{
    if value < 0 {
        (-(value as i64)) as u32
    } else {
        value as u32
    }
}

} // verus!
