//! Tiles, the cells of a map, the maps themselves, and how they are loaded.
//!
//! A map is loaded from its text. Loading accepts only what the rest of the
//! game can rely on: every row as long as the first, every cell on a tile
//! of the catalog, every cell's origin a signed 32-bit number.

use vstd::prelude::*;
use crate::tiles::map_format::{first_malformed_row, grid_of, grid_view, parse_grid, well_formed};

verus! {

/// One cell of a map: which tile lies there, and where the cell starts in
/// world pixels.
#[derive(Clone, Copy, Debug, PartialEq, Eq, Structural)]
pub struct Pixel {
    /// Left edge of the cell, in world pixels.
    pub x: i32,
    /// Top edge of the cell, in world pixels.
    pub y: i32,
    /// Which tile of the catalog lies on the cell.
    pub index: u32,
}

/// One entry of the tile catalog.
///
/// A tile is known by its place in the catalog. Its picture lives with the
/// renderer; the tile keeps the key under which the renderer finds it.
#[derive(Clone, Copy, Debug, PartialEq, Eq, Structural)]
pub struct Tile {
    /// Key of the tile's picture in the renderer's store.
    pub image: usize,
    /// Whether the tile blocks whoever walks into it.
    pub immovable: bool,
}

/// A level: rows of cells, top row first, each row from left to right.
pub struct WorldMap {
    /// The rows of cells.
    pub map: Vec<Vec<Pixel>>,
}

/// The tile catalog, the side of a tile in pixels, and the levels.
pub struct TileHandler {
    /// The catalog: a tile is named by its place here.
    pub tiles: Vec<Tile>,
    /// Side of a tile's square, in pixels.
    pub tile_size: u32,
    /// The levels, in the order they were loaded.
    pub maps: Vec<WorldMap>,
}

/// Why a text was not loaded as a map.
#[derive(Clone, Copy, Debug, PartialEq, Eq, Structural)]
pub enum MapError {
    /// Line `row` is no run of tile indices.
    MalformedRow { row: usize },
    /// Row `row` is not as long as the first row.
    RaggedRow { row: usize },
    /// The cell in column `col` of row `row` names a tile that the catalog
    /// does not hold.
    UnknownTile { row: usize, col: usize },
    /// Some cell's origin is no signed 32-bit number.
    TooLarge,
}

/// Why the tiles and maps were not loaded.
#[derive(Clone, Copy, Debug, PartialEq, Eq, Structural)]
pub enum LoadError {
    /// The catalog is too short to hold every wall tile.
    TooFewTiles,
    /// Map number `map` was refused.
    BadMap { map: usize, error: MapError },
}

/// Whether every row of `grid` is as long as the first.
pub open spec fn rectangular<T>(grid: Seq<Seq<T>>) -> bool {
    forall|row: int| 0 <= row < grid.len() ==> (#[trigger] grid[row]).len() == grid[0].len()
}

/// Whether `row` is the first row of `grid` that is not as long as the
/// first.
pub open spec fn first_ragged_row<T>(grid: Seq<Seq<T>>, row: int) -> bool {
    &&& 0 <= row < grid.len()
    &&& grid[row].len() != grid[0].len()
    &&& forall|above: int| 0 <= above < row ==> (#[trigger] grid[above]).len() == grid[0].len()
}

/// Whether `grid` has a cell in column `col` of row `row`.
pub open spec fn has_cell<T>(grid: Seq<Seq<T>>, row: int, col: int) -> bool {
    0 <= row < grid.len() && 0 <= col < grid[row].len()
}

/// The cell of `grid` at `row` and `col`, if the grid has one there.
pub open spec fn cell_at(grid: Seq<Seq<Pixel>>, row: int, col: int) -> Option<Pixel> {
    if has_cell(grid, row, col) {
        Some(grid[row][col])
    } else {
        None
    }
}

/// Whether every tile index of `grid` is below `tile_count`.
pub open spec fn in_catalog(grid: Seq<Seq<u32>>, tile_count: nat) -> bool {
    forall|row: int, col: int| has_cell(grid, row, col) ==> (#[trigger] grid[row][col]) < tile_count
}

/// Whether the cell at `row`, `col` is read before the one at `other_row`,
/// `other_col`: rows from the top, each row from the left.
pub open spec fn comes_before(row: int, col: int, other_row: int, other_col: int) -> bool {
    row < other_row || (row == other_row && col < other_col)
}

/// Whether the cell at `row`, `col` is the first of `grid`, in reading
/// order, whose tile index is not below `tile_count`.
pub open spec fn first_unknown_tile(grid: Seq<Seq<u32>>, tile_count: nat, row: int, col: int) -> bool {
    &&& has_cell(grid, row, col)
    &&& grid[row][col] >= tile_count
    &&& forall|r: int, c: int|
        has_cell(grid, r, c) && comes_before(r, c, row, col) ==> (#[trigger] grid[r][c])
            < tile_count
}

/// Whether the origin of the cell at `row`, `col`, with tiles of side
/// `tile_size`, is a signed 32-bit number on both axes.
pub open spec fn origin_fits(row: int, col: int, tile_size: u32) -> bool {
    col * tile_size <= i32::MAX && row * tile_size <= i32::MAX
}

/// Whether the origin of every cell of `grid` is a signed 32-bit number.
pub open spec fn fits<T>(grid: Seq<Seq<T>>, tile_size: u32) -> bool {
    forall|row: int, col: int|
        has_cell(grid, row, col) ==> #[trigger] origin_fits(row, col, tile_size)
}

/// The cell in column `col` of row `row` that holds tile `index`: its
/// origin is as many tiles from the world's corner as its column and row say.
pub open spec fn cell_for(row: int, col: int, index: u32, tile_size: u32) -> Pixel {
    Pixel { x: (col * tile_size) as i32, y: (row * tile_size) as i32, index }
}

/// The cells of a map that holds the tiles `grid`.
pub open spec fn laid_out(grid: Seq<Seq<u32>>, tile_size: u32) -> Seq<Seq<Pixel>> {
    Seq::new(
        grid.len(),
        |row: int| Seq::new(grid[row].len(), |col: int| cell_for(row, col, grid[row][col], tile_size)),
    )
}

/// Whether a text is one that loads as a map, for tiles of side
/// `tile_size` and a catalog of `tile_count` tiles.
pub open spec fn loads(text: Seq<u8>, tile_size: u32, tile_count: nat) -> bool {
    &&& well_formed(text)
    &&& rectangular(grid_of(text))
    &&& in_catalog(grid_of(text), tile_count)
    &&& fits(grid_of(text), tile_size)
}

/// Whether `error` is the reason for which `text` does not load: the first
/// that holds of a malformed line, a ragged row, an unknown tile and an
/// origin out of range, with the place it names the first of its kind.
pub open spec fn refused_for(text: Seq<u8>, tile_size: u32, tile_count: nat, error: MapError) -> bool {
    match error {
        MapError::MalformedRow { row } => first_malformed_row(text, row as int),
        MapError::RaggedRow { row } => {
            &&& well_formed(text)
            &&& first_ragged_row(grid_of(text), row as int)
        },
        MapError::UnknownTile { row, col } => {
            &&& well_formed(text)
            &&& rectangular(grid_of(text))
            &&& first_unknown_tile(grid_of(text), tile_count, row as int, col as int)
        },
        MapError::TooLarge => {
            &&& well_formed(text)
            &&& rectangular(grid_of(text))
            &&& in_catalog(grid_of(text), tile_count)
            &&& !fits(grid_of(text), tile_size)
        },
    }
}

/// A text that is refused for any reason does not load.
pub proof fn lemma_refused_text_does_not_load(
    text: Seq<u8>,
    tile_size: u32,
    tile_count: nat,
    error: MapError,
)
    requires
        refused_for(text, tile_size, tile_count, error),
    ensures
        !loads(text, tile_size, tile_count),
{
    let grid = grid_of(text);
    match error {
        MapError::MalformedRow { row } => {},
        MapError::RaggedRow { row } => {
            assert(grid[row as int].len() != grid[0].len());
        },
        MapError::UnknownTile { row, col } => {
            assert(grid[row as int][col as int] >= tile_count);
        },
        MapError::TooLarge => {},
    }
}

/// Whether every text of `texts` loads as a map.
pub open spec fn all_load(texts: Seq<Vec<u8>>, tile_size: u32, tile_count: nat) -> bool {
    forall|map: int| 0 <= map < texts.len() ==> loads((#[trigger] texts[map])@, tile_size, tile_count)
}

/// Whether `map` is the first text of `texts` that does not load, and
/// `error` the reason.
pub open spec fn first_refused(
    texts: Seq<Vec<u8>>,
    tile_size: u32,
    tile_count: nat,
    map: int,
    error: MapError,
) -> bool {
    &&& 0 <= map < texts.len()
    &&& refused_for(texts[map]@, tile_size, tile_count, error)
    &&& all_load(texts.take(map), tile_size, tile_count)
}

/// Where one text is refused, not all of them load.
pub proof fn lemma_first_refused_does_not_load(
    texts: Seq<Vec<u8>>,
    tile_size: u32,
    tile_count: nat,
    map: int,
    error: MapError,
)
    requires
        first_refused(texts, tile_size, tile_count, map, error),
    ensures
        !all_load(texts, tile_size, tile_count),
{
    lemma_refused_text_does_not_load(texts[map]@, tile_size, tile_count, error);
}

/// Whether the tile at `index` of the catalog is a wall.
pub open spec fn is_wall_index(index: int) -> bool {
    index == 1 || index == 2 || index == 4
}

/// The tile made for the picture `image`: one that can be walked over.
pub open spec fn plain_tile(image: usize) -> Tile {
    Tile { image, immovable: false }
}

impl Pixel {
    /// The cell that starts at `x`, `y` and holds tile `index`.
    pub fn new(x: i32, y: i32, index: u32) -> (cell: Pixel)
        ensures
            cell == (Pixel { x, y, index }),
    {
        Self { x, y, index }
    }
}

impl Tile {
    /// A tile that can be walked over.
    pub fn new(image: usize) -> (tile: Tile)
        ensures
            tile == plain_tile(image),
    {
        Self { image, immovable: false }
    }
}

impl View for WorldMap {
    type V = Seq<Seq<Pixel>>;

    /// The grid as rows of cells.
    open spec fn view(&self) -> Seq<Seq<Pixel>> {
        Seq::new(self.map@.len(), |row: int| self.map@[row]@)
    }
}

impl WorldMap {
    /// Whether every row is as long as the first.
    pub open spec fn is_rectangular(&self) -> bool {
        rectangular(self@)
    }

    /// Whether every cell lies on one of the first `tile_count` tiles.
    pub open spec fn within_catalog(&self, tile_count: nat) -> bool {
        forall|row: int, col: int|
            has_cell(self@, row, col) ==> (#[trigger] self@[row][col]).index < tile_count
    }

    /// Whether every cell starts as many tiles of side `tile_size` from the
    /// world's corner as its column and row say.
    pub open spec fn on_grid(&self, tile_size: u32) -> bool {
        forall|row: int, col: int|
            has_cell(self@, row, col) ==> {
                &&& (#[trigger] self@[row][col]).x == col * tile_size
                &&& self@[row][col].y == row * tile_size
            }
    }

    /// The cell in column `col` of row `row`, if the map has one there.
    pub fn cell(&self, row: usize, col: usize) -> (cell: Option<Pixel>)
        ensures
            cell == cell_at(self@, row as int, col as int),
    {
        assert(self@.len() == self.map.len());
        if row >= self.map.len() {
            None
        } else if col >= self.map[row].len() {
            None
        } else {
            Some(self.map[row][col])
        }
    }

    /// The number of rows, as far as 32 bits hold it.
    pub fn row_len(&self) -> (rows: u32)
        ensures
            rows == self@.len() % 0x1_0000_0000,
    {
        let rows: u64 = self.map.len() as u64;
        (rows % 0x1_0000_0000) as u32
    }

    /// The number of cells in the first row, as far as 32 bits hold it.
    pub fn col_len(&self) -> (cols: u32)
        requires
            self@.len() > 0,
        ensures
            cols == self@[0].len() % 0x1_0000_0000,
    {
        let cols: u64 = self.map[0].len() as u64;
        (cols % 0x1_0000_0000) as u32
    }

    /// Loads the map that `text` writes, for tiles of side `tile_size` and a
    /// catalog of `tile_count` tiles.
    ///
    /// The text is refused for the first of these that holds: a line is no
    /// run of tile indices; a row is not as long as the first; a cell names
    /// a tile beyond the catalog; a cell's origin is no signed 32-bit
    /// number. The first three name the first place where they hold.
    pub fn parse(text: &[u8], tile_size: u32, tile_count: usize) -> (loaded: Result<
        WorldMap,
        MapError,
    >)
        ensures
            loaded is Ok <==> loads(text@, tile_size, tile_count as nat),
            match loaded {
                Ok(map) => {
                    &&& map@ == laid_out(grid_of(text@), tile_size)
                    &&& map.is_rectangular()
                    &&& map.within_catalog(tile_count as nat)
                    &&& map.on_grid(tile_size)
                },
                Err(error) => refused_for(text@, tile_size, tile_count as nat, error),
            },
    {
        let rows = match parse_grid(text) {
            Ok(rows) => rows,
            Err(row) => {
                return Err(MapError::MalformedRow { row });
            },
        };
        if let Some(row) = ragged_row(&rows) {
            return Err(MapError::RaggedRow { row });
        }
        if let Some((row, col)) = unknown_tile(&rows, tile_count) {
            return Err(MapError::UnknownTile { row, col });
        }
        match lay_out(&rows, tile_size) {
            None => Err(MapError::TooLarge),
            Some(cells) => {
                let map = WorldMap { map: cells };
                proof {
                    let grid = grid_of(text@);
                    assert(map@ =~= laid_out(grid, tile_size));
                    assert forall|row: int, col: int| has_cell(map@, row, col) implies {
                        &&& (#[trigger] map@[row][col]).index < tile_count
                        &&& map@[row][col].x == col * tile_size
                        &&& map@[row][col].y == row * tile_size
                    } by {
                        assert(has_cell(grid, row, col));
                        assert(grid[row][col] < tile_count);
                        assert(origin_fits(row, col, tile_size));
                        assert(0 <= col * tile_size && 0 <= row * tile_size) by (nonlinear_arith)
                            requires
                                0 <= col,
                                0 <= row,
                                0 <= tile_size,
                        ;
                    }
                    assert forall|row: int| 0 <= row < map@.len() implies (#[trigger] map@[row]).len()
                        == map@[0].len() by {
                        assert(grid[row].len() == grid[0].len());
                    }
                }
                Ok(map)
            },
        }
    }
}

/// The first row that is not as long as the first, if there is one.
fn ragged_row(rows: &Vec<Vec<u32>>) -> (found: Option<usize>)
    ensures
        match found {
            None => rectangular(grid_view(*rows)),
            Some(row) => first_ragged_row(grid_view(*rows), row as int),
        },
{
    let mut row: usize = 0;
    while row < rows.len()
        invariant
            row <= rows.len(),
            forall|above: int|
                0 <= above < row ==> (#[trigger] grid_view(*rows)[above]).len() == grid_view(
                    *rows,
                )[0].len(),
        decreases rows.len() - row,
    {
        if rows[row].len() != rows[0].len() {
            return Some(row);
        }
        row += 1;
    }
    None
}

/// The first cell, in reading order, whose tile the catalog does not hold,
/// if there is one.
fn unknown_tile(rows: &Vec<Vec<u32>>, tile_count: usize) -> (found: Option<(usize, usize)>)
    ensures
        match found {
            None => in_catalog(grid_view(*rows), tile_count as nat),
            Some((row, col)) => first_unknown_tile(
                grid_view(*rows),
                tile_count as nat,
                row as int,
                col as int,
            ),
        },
{
    let ghost grid = grid_view(*rows);
    let mut row: usize = 0;
    while row < rows.len()
        invariant
            row <= rows.len(),
            grid == grid_view(*rows),
            forall|r: int, c: int|
                has_cell(grid, r, c) && r < row ==> (#[trigger] grid[r][c]) < tile_count,
        decreases rows.len() - row,
    {
        let mut col: usize = 0;
        while col < rows[row].len()
            invariant
                row < rows.len(),
                col <= rows[row as int].len(),
                grid == grid_view(*rows),
                forall|r: int, c: int|
                    has_cell(grid, r, c) && comes_before(r, c, row as int, col as int) ==> (
                    #[trigger] grid[r][c]) < tile_count,
            decreases rows[row as int].len() - col,
        {
            if rows[row][col] as usize >= tile_count {
                return Some((row, col));
            }
            col += 1;
        }
        row += 1;
    }
    None
}

/// How far from the world's corner the cell number `place` along an axis
/// starts, if that is a signed 32-bit number.
fn origin(place: usize, tile_size: u32) -> (at: Option<i32>)
    ensures
        match at {
            Some(value) => value == place * tile_size,
            None => place * tile_size > i32::MAX,
        },
{
    assert(place * tile_size <= 0xffff_ffff_ffff_ffff * 0xffff_ffff) by (nonlinear_arith)
        requires
            0 <= place <= 0xffff_ffff_ffff_ffff,
            0 <= tile_size <= 0xffff_ffff,
    ;
    let wide: u128 = (place as u128) * (tile_size as u128);
    if wide > 0x7fff_ffff {
        None
    } else {
        Some(wide as i32)
    }
}

/// The cells of a map that holds the tiles `rows`, if every origin is a
/// signed 32-bit number.
fn lay_out(rows: &Vec<Vec<u32>>, tile_size: u32) -> (cells: Option<Vec<Vec<Pixel>>>)
    ensures
        match cells {
            Some(cells) => fits(grid_view(*rows), tile_size) && grid_view(cells) == laid_out(
                grid_view(*rows),
                tile_size,
            ),
            None => !fits(grid_view(*rows), tile_size),
        },
{
    let ghost grid = grid_view(*rows);
    let mut cells: Vec<Vec<Pixel>> = Vec::new();
    let mut row: usize = 0;
    while row < rows.len()
        invariant
            row <= rows.len(),
            grid == grid_view(*rows),
            cells@.len() == row,
            forall|r: int, c: int|
                has_cell(grid, r, c) && r < row ==> #[trigger] origin_fits(r, c, tile_size),
            forall|r: int| 0 <= r < row ==> (#[trigger] cells@[r])@ == laid_out(grid, tile_size)[r],
        decreases rows.len() - row,
    {
        let mut line: Vec<Pixel> = Vec::new();
        let mut col: usize = 0;
        while col < rows[row].len()
            invariant
                row < rows.len(),
                col <= rows[row as int].len(),
                grid == grid_view(*rows),
                line@.len() == col,
                forall|c: int| 0 <= c < col ==> #[trigger] origin_fits(row as int, c, tile_size),
                forall|c: int|
                    0 <= c < col ==> #[trigger] line@[c] == cell_for(
                        row as int,
                        c,
                        grid[row as int][c],
                        tile_size,
                    ),
            decreases rows[row as int].len() - col,
        {
            let x = origin(col, tile_size);
            let y = origin(row, tile_size);
            match (x, y) {
                (Some(x), Some(y)) => {
                    line.push(Pixel::new(x, y, rows[row][col]));
                },
                _ => {
                    assert(has_cell(grid, row as int, col as int));
                    assert(!origin_fits(row as int, col as int, tile_size));
                    return None;
                },
            }
            col += 1;
        }
        assert(line@ =~= laid_out(grid, tile_size)[row as int]);
        cells.push(line);
        row += 1;
    }
    assert(grid_view(cells) =~= laid_out(grid, tile_size));
    Some(cells)
}

impl TileHandler {
    /// Whether map number `map` is one the game can rely on: every row as
    /// long as the first, every cell on a tile of the catalog and at its
    /// place on the grid.
    pub open spec fn map_is_sound(&self, map: int) -> bool {
        &&& self.maps@[map].is_rectangular()
        &&& self.maps@[map].within_catalog(self.tiles@.len())
        &&& self.maps@[map].on_grid(self.tile_size)
    }

    /// Whether every map is one the game can rely on.
    pub open spec fn is_sound(&self) -> bool {
        forall|map: int| 0 <= map < self.maps@.len() ==> #[trigger] self.map_is_sound(map)
    }

    /// How many tiles the catalog holds.
    pub fn tile_count(&self) -> (count: usize)
        ensures
            count == self.tiles@.len(),
    {
        self.tiles.len()
    }

    /// Whether the tile at `index` blocks whoever walks into it.
    pub fn is_immovable(&self, index: usize) -> (immovable: bool)
        requires
            index < self.tiles@.len(),
        ensures
            immovable == self.tiles@[index as int].immovable,
    {
        self.tiles[index].immovable
    }

    /// Key of the picture of the tile at `index`.
    pub fn image_of(&self, index: usize) -> (image: usize)
        requires
            index < self.tiles@.len(),
        ensures
            image == self.tiles@[index as int].image,
    {
        self.tiles[index].image
    }

    /// Loads the catalog and the maps.
    ///
    /// `tile_images` holds the key of each tile's picture, in catalog order;
    /// `map_texts` holds the text of each map. The tiles at 1, 2 and 4 are
    /// walls. Loading fails on the first map that is refused, and, where
    /// every map loads, on a catalog too short to hold the walls.
    pub fn new(tile_size: u32, tile_images: Vec<usize>, map_texts: Vec<Vec<u8>>) -> (loaded: Result<
        TileHandler,
        LoadError,
    >)
        ensures
            loaded is Ok <==> tile_images@.len() >= 5 && all_load(
                map_texts@,
                tile_size,
                tile_images@.len(),
            ),
            match loaded {
                Ok(handler) => {
                    &&& handler.tile_size == tile_size
                    &&& handler.tiles@.len() == tile_images@.len()
                    &&& forall|index: int|
                        0 <= index < tile_images@.len() ==> #[trigger] handler.tiles@[index] == (
                        Tile { image: tile_images@[index], immovable: is_wall_index(index) })
                    &&& handler.maps@.len() == map_texts@.len()
                    &&& forall|map: int|
                        0 <= map < map_texts@.len() ==> (#[trigger] handler.maps@[map])@
                            == laid_out(grid_of(map_texts@[map]@), tile_size)
                    &&& handler.is_sound()
                },
                Err(LoadError::BadMap { map, error }) => first_refused(
                    map_texts@,
                    tile_size,
                    tile_images@.len(),
                    map as int,
                    error,
                ),
                Err(LoadError::TooFewTiles) => tile_images@.len() < 5 && all_load(
                    map_texts@,
                    tile_size,
                    tile_images@.len(),
                ),
            },
    {
        let mut tile_handler = Self { tiles: Vec::new(), tile_size: tile_size, maps: Vec::new() };
        assert(tile_handler.is_sound());
        tile_handler.load_tiles(&tile_images);
        assert(tile_handler.tiles@ =~= tile_images@.map_values(|image: usize| plain_tile(image)));
        assert(tile_handler.is_sound());
        match tile_handler.load_maps(&map_texts) {
            Err(error) => {
                proof {
                    lemma_first_refused_does_not_load(
                        map_texts@,
                        tile_size,
                        tile_images@.len(),
                        error->map as int,
                        error->error,
                    );
                }
                return Err(error);
            },
            Ok(()) => {},
        }
        if tile_handler.tiles.len() < 5 {
            return Err(LoadError::TooFewTiles);
        }
        let ghost unmarked = tile_handler;
        tile_handler.mark_wall(1);
        tile_handler.mark_wall(2);
        tile_handler.mark_wall(4);
        proof {
            assert forall|map: int| 0 <= map < tile_handler.maps@.len() implies #[trigger]
                tile_handler.map_is_sound(map) by {
                assert(unmarked.map_is_sound(map));
            }
            assert forall|map: int| 0 <= map < map_texts@.len() implies (
            #[trigger] tile_handler.maps@[map])@ == laid_out(
                grid_of(map_texts@[map]@),
                tile_size,
            ) by {
                assert(tile_handler.maps@[map] == unmarked.maps@[0 + map]);
            }
        }
        Ok(tile_handler)
    }

    /// Makes the tile at `index` a wall.
    fn mark_wall(&mut self, index: usize)
        requires
            index < old(self).tiles@.len(),
        ensures
            final(self).tiles@ == old(self).tiles@.update(
                index as int,
                Tile { image: old(self).tiles@[index as int].image, immovable: true },
            ),
            final(self).tile_size == old(self).tile_size,
            final(self).maps == old(self).maps,
    {
        let image = self.tiles[index].image;
        self.tiles.set(index, Tile { image, immovable: true });
    }

    /// Adds a tile that can be walked over for each picture of
    /// `tile_images`, in their order, after the tiles already there.
    pub fn load_tiles(&mut self, tile_images: &Vec<usize>)
        ensures
            final(self).tiles@ == old(self).tiles@ + tile_images@.map_values(
                |image: usize| plain_tile(image),
            ),
            final(self).tile_size == old(self).tile_size,
            final(self).maps == old(self).maps,
    {
        let ghost added = tile_images@.map_values(|image: usize| plain_tile(image));
        let mut next: usize = 0;
        while next < tile_images.len()
            invariant
                next <= tile_images.len(),
                added == tile_images@.map_values(|image: usize| plain_tile(image)),
                self.tiles@ == old(self).tiles@ + added.take(next as int),
                self.tile_size == old(self).tile_size,
                self.maps == old(self).maps,
            decreases tile_images.len() - next,
        {
            self.tiles.push(Tile::new(tile_images[next]));
            assert(added.take(next + 1) =~= added.take(next as int).push(added[next as int]));
            next += 1;
        }
        assert(added.take(next as int) =~= added);
    }

    /// Loads the map that each text of `map_texts` writes, in their order,
    /// after the maps already there.
    ///
    /// Loading stops at the first text that is refused; the maps before it
    /// stay loaded.
    pub fn load_maps(&mut self, map_texts: &Vec<Vec<u8>>) -> (loaded: Result<(), LoadError>)
        ensures
            final(self).tiles == old(self).tiles,
            final(self).tile_size == old(self).tile_size,
            old(self).is_sound() ==> final(self).is_sound(),
            loaded is Ok <==> all_load(map_texts@, old(self).tile_size, old(self).tiles@.len()),
            match loaded {
                Ok(()) => final(self).maps@.len() == old(self).maps@.len() + map_texts@.len(),
                Err(LoadError::BadMap { map, error }) => {
                    &&& final(self).maps@.len() == old(self).maps@.len() + map
                    &&& first_refused(
                        map_texts@,
                        old(self).tile_size,
                        old(self).tiles@.len(),
                        map as int,
                        error,
                    )
                },
                Err(LoadError::TooFewTiles) => false,
            },
            forall|map: int|
                0 <= map < old(self).maps@.len() ==> (#[trigger] final(self).maps@[map]) == old(
                    self,
                ).maps@[map],
            forall|map: int|
                0 <= map < final(self).maps@.len() - old(self).maps@.len() ==> (
                #[trigger] final(self).maps@[old(self).maps@.len() + map])@ == laid_out(
                    grid_of(map_texts@[map]@),
                    old(self).tile_size,
                ),
    {
        let ghost before = old(self).maps@.len();
        let mut next: usize = 0;
        while next < map_texts.len()
            invariant
                next <= map_texts.len(),
                before == old(self).maps@.len(),
                self.tiles == old(self).tiles,
                self.tile_size == old(self).tile_size,
                self.maps@.len() == before + next,
                old(self).is_sound() ==> self.is_sound(),
                all_load(map_texts@.take(next as int), self.tile_size, self.tiles@.len()),
                forall|map: int|
                    0 <= map < before ==> (#[trigger] self.maps@[map]) == old(self).maps@[map],
                forall|map: int|
                    0 <= map < next ==> (#[trigger] self.maps@[before + map])@ == laid_out(
                        grid_of(map_texts@[map]@),
                        self.tile_size,
                    ),
            decreases map_texts.len() - next,
        {
            match WorldMap::parse(map_texts[next].as_slice(), self.tile_size, self.tiles.len()) {
                Err(error) => {
                    proof {
                        lemma_first_refused_does_not_load(
                            map_texts@,
                            self.tile_size,
                            self.tiles@.len(),
                            next as int,
                            error,
                        );
                    }
                    return Err(LoadError::BadMap { map: next, error });
                },
                Ok(map) => {
                    let ghost earlier = *self;
                    self.maps.push(map);
                    proof {
                        assert forall|k: int| 0 <= k < next + 1 implies loads(
                            (#[trigger] map_texts@.take(next + 1)[k])@,
                            self.tile_size,
                            self.tiles@.len(),
                        ) by {
                            if k < next {
                                assert(map_texts@.take(next + 1)[k] == map_texts@.take(
                                    next as int,
                                )[k]);
                            }
                        }
                        if old(self).is_sound() {
                            assert forall|k: int| 0 <= k < self.maps@.len() implies #[trigger]
                                self.map_is_sound(k) by {
                                if k < before + next {
                                    assert(earlier.map_is_sound(k));
                                }
                            }
                        }
                        assert forall|k: int| 0 <= k < next + 1 implies (
                        #[trigger] self.maps@[before + k])@ == laid_out(
                            grid_of(map_texts@[k]@),
                            self.tile_size,
                        ) by {
                            if k < next {
                                assert(self.maps@[before + k] == earlier.maps@[before + k]);
                            }
                        }
                    }
                },
            }
            next += 1;
        }
        assert(map_texts@.take(next as int) =~= map_texts@);
        Ok(())
    }
}

} // verus!
