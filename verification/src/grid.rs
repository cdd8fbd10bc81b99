//! The static map of the world: a grid of cells that hold nothing, the
//! nest, food or a wall, and the mapping from world positions to cells.

use vstd::prelude::*;
use crate::consts::{MAX_COORD, MAX_GRID_SIDE, PI};
use crate::functions::{
    coords_to_pos, coords_to_pos_spec, dir_to_nest, dir_to_nest_spec, get_resource_at_position,
    lemma_cell_of, pos_to_idx, valid_pos,
};

verus! {

/// What a grid cell holds.
#[derive(Clone, Copy, Debug, PartialEq, Eq, Structural)]
pub enum GridResource {
    /// Nothing: agents walk over it.
    Blank,
    /// The nest: carrying agents drop their food here.
    Nest,
    /// Food: agents that carry none pick some up here.
    Food,
    /// A wall: agents turn away from it.
    Wall,
}

/// World dimensions and a cell size that make a grid: a positive cell size,
/// a world within the representable range, at least one cell and at most
/// `MAX_GRID_SIDE` cells along each side.
pub open spec fn valid_dimensions(width: i64, height: i64, cell_size: i64) -> bool {
    &&& 0 < cell_size
    &&& 0 < width <= MAX_COORD
    &&& 0 < height <= MAX_COORD
    &&& 1 <= width / cell_size <= MAX_GRID_SIDE
    &&& 1 <= height / cell_size <= MAX_GRID_SIDE
}

/// Whether the cell belongs to the two-by-two nest block whose far corner is
/// the anchor `nest`.
pub open spec fn is_nest_cell(col: usize, row: usize, nest: (usize, usize)) -> bool {
    &&& col == nest.0 || col == nest.0 - 1
    &&& row == nest.1 || row == nest.1 - 1
}

/// What the cell in column `col` and row `row` holds in a grid laid out with
/// the given nest anchor, food cells and wall cells. Nest takes precedence
/// over food, food over wall.
pub open spec fn layout_kind(
    col: usize,
    row: usize,
    nest: (usize, usize),
    food: Seq<(usize, usize)>,
    walls: Seq<(usize, usize)>,
) -> GridResource {
    if is_nest_cell(col, row, nest) {
        GridResource::Nest
    } else if food.contains((col, row)) {
        GridResource::Food
    } else if walls.contains((col, row)) {
        GridResource::Wall
    } else {
        GridResource::Blank
    }
}

/// The cells of a grid of `cols` by `rows` cells, row by row.
pub open spec fn layout_cells(
    cols: usize,
    rows: usize,
    nest: (usize, usize),
    food: Seq<(usize, usize)>,
    walls: Seq<(usize, usize)>,
) -> Seq<GridResource> {
    Seq::new(
        (cols * rows) as nat,
        |i: int|
            layout_kind(
                (i % cols as int) as usize,
                (i / cols as int) as usize,
                nest,
                food,
                walls,
            ),
    )
}

/// The food cells of the standard layout.
pub open spec fn standard_food() -> Seq<(usize, usize)> {
    seq![(25usize, 25usize), (26usize, 25usize), (27usize, 25usize)]
}

/// The wall cells of the standard layout.
pub open spec fn standard_walls() -> Seq<(usize, usize)> {
    seq![(50usize, 10usize), (50usize, 11usize), (50usize, 12usize)]
}

/// Whether the position lies in the world, borders included.
pub open spec fn in_world(pos: (i64, i64), width: i64, height: i64) -> bool {
    &&& 0 <= pos.0 <= width
    &&& 0 <= pos.1 <= height
}

/// The index of the cell that a position in the world maps to: its row times
/// the number of columns, plus its column, where row and column are the
/// coordinates divided by the cell size, rounded down.
pub open spec fn cell_index(pos: (i64, i64), width: i64, cell_size: i64) -> int {
    (pos.1 / cell_size) * (width / cell_size) + pos.0 / cell_size
}

/// What a position resolves to: a wall outside the world, else the cell it
/// maps to, and blank where that index lies beyond the last cell.
pub open spec fn resource_at(
    cells: Seq<GridResource>,
    width: i64,
    height: i64,
    cell_size: i64,
    pos: (i64, i64),
) -> GridResource {
    if !in_world(pos, width, height) {
        GridResource::Wall
    } else if cell_index(pos, width, cell_size) < cells.len() {
        cells[cell_index(pos, width, cell_size)]
    } else {
        GridResource::Blank
    }
}

/// A cell index within a grid splits back into its column and row.
pub proof fn lemma_index_splits(col: int, row: int, cols: int)
    requires
        0 <= col < cols,
        0 <= row,
    ensures
        (row * cols + col) % cols == col,
        (row * cols + col) / cols == row,
        0 <= row * cols,
{
    vstd::arithmetic::div_mod::lemma_fundamental_div_mod_converse(row * cols + col, cols, row, col);
    assert(0 <= row * cols) by (nonlinear_arith)
        requires
            0 <= row,
            0 <= cols,
    ;
}

/// The index of a cell inside the grid is smaller than the number of cells.
pub proof fn lemma_index_in_grid(col: int, row: int, cols: int, rows: int)
    requires
        0 <= col < cols,
        0 <= row < rows,
    ensures
        0 <= row * cols + col < cols * rows,
{
    assert(0 <= row * cols + col < cols * rows) by (nonlinear_arith)
        requires
            0 <= col < cols,
            0 <= row < rows,
    ;
}

/// Whether `list` holds `cell`.
pub fn list_contains(list: &Vec<(usize, usize)>, cell: (usize, usize)) -> (found: bool)
    ensures
        found == list@.contains(cell),
{
    let mut i: usize = 0;
    while i < list.len()
        invariant
            i <= list.len(),
            forall|k: int| 0 <= k < i ==> list@[k] != cell,
        decreases list.len() - i,
    {
        if list[i].0 == cell.0 && list[i].1 == cell.1 {
            assert(list@[i as int] == cell);
            return true;
        }
        i += 1;
    }
    false
}

/// Lays out a grid of `cols` by `rows` cells, row by row.
pub fn layout_grid(
    cols: usize,
    rows: usize,
    nest: (usize, usize),
    food: &Vec<(usize, usize)>,
    walls: &Vec<(usize, usize)>,
) -> (cells: Vec<GridResource>)
    requires
        1 <= cols <= MAX_GRID_SIDE,
        1 <= rows <= MAX_GRID_SIDE,
    ensures
        cells@ == layout_cells(cols, rows, nest, food@, walls@),
        cells@.len() == cols * rows,
{
    assert(cols * rows <= 32_768 * 32_768) by (nonlinear_arith)
        requires
            1 <= cols <= 32_768,
            1 <= rows <= 32_768,
    ;
    let total: usize = cols * rows;
    let mut cells: Vec<GridResource> = Vec::new();
    let mut i: usize = 0;
    while i < total
        invariant
            1 <= cols,
            total == cols * rows,
            i <= total,
            cells@.len() == i,
            forall|j: int|
                0 <= j < i ==> cells@[j] == layout_kind(
                    (j % cols as int) as usize,
                    (j / cols as int) as usize,
                    nest,
                    food@,
                    walls@,
                ),
        decreases total - i,
    {
        let col: usize = i % cols;
        let row: usize = i / cols;
        let at_nest_col = col == nest.0 || (nest.0 > 0 && col == nest.0 - 1);
        let at_nest_row = row == nest.1 || (nest.1 > 0 && row == nest.1 - 1);
        let kind = if at_nest_col && at_nest_row {
            GridResource::Nest
        } else if list_contains(food, (col, row)) {
            GridResource::Food
        } else if list_contains(walls, (col, row)) {
            GridResource::Wall
        } else {
            GridResource::Blank
        };
        cells.push(kind);
        i += 1;
    }
    assert(cells@ =~= layout_cells(cols, rows, nest, food@, walls@));
    cells
}

/// The static map of the world: what each cell holds, and where the nest is.
pub struct WorldGrid {
    cells: Vec<GridResource>,
    width: i64,
    height: i64,
    cell_size: i64,
    nest_coords: (usize, usize),
}

/// A world grid as a mathematical value.
pub struct GridModel {
    pub cells: Seq<GridResource>,
    pub width: i64,
    pub height: i64,
    pub cell_size: i64,
    pub nest_coords: (usize, usize),
}

impl GridModel {
    /// The number of columns: the world width divided by the cell size.
    pub open spec fn cols(self) -> int {
        self.width / self.cell_size
    }

    /// The number of rows: the world height divided by the cell size.
    pub open spec fn rows(self) -> int {
        self.height / self.cell_size
    }

    /// The dimensions are valid, there is one cell for each column and row,
    /// and the nest anchor lies on the grid.
    pub open spec fn wf(self) -> bool {
        &&& valid_dimensions(self.width, self.height, self.cell_size)
        &&& self.cells.len() == self.cols() * self.rows()
        &&& self.nest_coords.0 <= self.cols()
        &&& self.nest_coords.1 <= self.rows()
    }

    /// What the cell in column `col` and row `row` holds.
    pub open spec fn cell(self, col: int, row: int) -> GridResource {
        self.cells[row * self.cols() + col]
    }

    /// What a world position resolves to.
    pub open spec fn resource_at(self, pos: (i64, i64)) -> GridResource {
        resource_at(self.cells, self.width, self.height, self.cell_size, pos)
    }
}

/// The standard layout for a world of the given size, with the nest block
/// in the middle of the grid.
pub open spec fn centered_grid(width: i64, height: i64, cell_size: i64) -> GridModel {
    let cols = (width / cell_size) as usize;
    let rows = (height / cell_size) as usize;
    let nest_coords = ((cols / 2) as usize, (rows / 2) as usize);
    GridModel {
        cells: layout_cells(cols, rows, nest_coords, standard_food(), standard_walls()),
        width,
        height,
        cell_size,
        nest_coords,
    }
}

/// The columns and rows of a grid, times the cell size, do not exceed the
/// world.
pub proof fn lemma_grid_extent(width: int, cell_size: int, coord: int)
    requires
        0 < cell_size,
        0 <= width,
        0 <= coord <= width / cell_size,
    ensures
        0 <= coord * cell_size <= width,
{
    vstd::arithmetic::div_mod::lemma_fundamental_div_mod(width, cell_size);
    vstd::arithmetic::div_mod::lemma_mod_pos_bound(width, cell_size);
    let q = width / cell_size;
    assert(0 <= coord * cell_size <= cell_size * q) by (nonlinear_arith)
        requires
            0 <= coord <= q,
            0 < cell_size,
    ;
}

/// A position inside the world, short of its far borders, resolves to what
/// its cell holds.
pub proof fn lemma_resource_of_cell(grid: GridModel, pos: (i64, i64))
    requires
        grid.wf(),
        0 <= pos.0 < grid.cols() * grid.cell_size,
        0 <= pos.1 < grid.rows() * grid.cell_size,
    ensures
        0 <= pos.0 / grid.cell_size < grid.cols(),
        0 <= pos.1 / grid.cell_size < grid.rows(),
        grid.resource_at(pos) == grid.cell(pos.0 / grid.cell_size, pos.1 / grid.cell_size),
{
    let cs = grid.cell_size as int;
    lemma_grid_extent(grid.width as int, cs, grid.cols());
    lemma_grid_extent(grid.height as int, cs, grid.rows());
    vstd::arithmetic::div_mod::lemma_div_pos_is_pos(pos.0 as int, cs);
    vstd::arithmetic::div_mod::lemma_div_pos_is_pos(pos.1 as int, cs);
    vstd::arithmetic::mul::lemma_mul_is_commutative(cs, grid.cols());
    vstd::arithmetic::mul::lemma_mul_is_commutative(cs, grid.rows());
    vstd::arithmetic::div_mod::lemma_multiply_divide_lt(pos.0 as int, cs, grid.cols());
    vstd::arithmetic::div_mod::lemma_multiply_divide_lt(pos.1 as int, cs, grid.rows());
    lemma_index_in_grid(pos.0 as int / cs, pos.1 as int / cs, grid.cols(), grid.rows());
}

/// In a laid-out grid, the cell in column `col` and row `row` holds what the
/// layout gives it.
pub proof fn lemma_layout_cell(
    cols: usize,
    rows: usize,
    nest: (usize, usize),
    food: Seq<(usize, usize)>,
    walls: Seq<(usize, usize)>,
    col: usize,
    row: usize,
)
    requires
        col < cols,
        row < rows,
        cols * rows <= usize::MAX,
    ensures
        0 <= row * cols + col < cols * rows,
        layout_cells(cols, rows, nest, food, walls)[row * cols + col] == layout_kind(
            col,
            row,
            nest,
            food,
            walls,
        ),
{
    lemma_index_in_grid(col as int, row as int, cols as int, rows as int);
    lemma_index_splits(col as int, row as int, cols as int);
}

/// In a grid that was laid out, a position inside the world, short of its
/// far borders, resolves to what the layout gives the cell it lies in: the
/// nest in the nest block, food and walls in their cells, and nothing
/// elsewhere.
pub proof fn lemma_laid_out_resource(
    grid: GridModel,
    food: Seq<(usize, usize)>,
    walls: Seq<(usize, usize)>,
    pos: (i64, i64),
)
    requires
        grid.wf(),
        grid.cells == layout_cells(
            grid.cols() as usize,
            grid.rows() as usize,
            grid.nest_coords,
            food,
            walls,
        ),
        0 <= pos.0 < grid.cols() * grid.cell_size,
        0 <= pos.1 < grid.rows() * grid.cell_size,
    ensures
        grid.resource_at(pos) == layout_kind(
            (pos.0 / grid.cell_size) as usize,
            (pos.1 / grid.cell_size) as usize,
            grid.nest_coords,
            food,
            walls,
        ),
{
    lemma_resource_of_cell(grid, pos);
    let col = (pos.0 / grid.cell_size) as usize;
    let row = (pos.1 / grid.cell_size) as usize;
    assert(grid.cols() * grid.rows() <= 32_768 * 32_768) by (nonlinear_arith)
        requires
            1 <= grid.cols() <= 32_768,
            1 <= grid.rows() <= 32_768,
    ;
    lemma_layout_cell(
        grid.cols() as usize,
        grid.rows() as usize,
        grid.nest_coords,
        food,
        walls,
        col,
        row,
    );
}

impl View for WorldGrid {
    type V = GridModel;

    closed spec fn view(&self) -> GridModel {
        GridModel {
            cells: self.cells@,
            width: self.width,
            height: self.height,
            cell_size: self.cell_size,
            nest_coords: self.nest_coords,
        }
    }
}

impl WorldGrid {
    /// The grid is well formed.
    pub open spec fn wf(&self) -> bool {
        self@.wf()
    }

    /// Builds the standard layout: the nest block at `nest_coords`, the
    /// fixed food and wall cells, blank cells elsewhere.
    pub fn build(width: i64, height: i64, cell_size: i64, nest_coords: (usize, usize)) -> (grid:
        WorldGrid)
        requires
            valid_dimensions(width, height, cell_size),
            nest_coords.0 <= width / cell_size,
            nest_coords.1 <= height / cell_size,
        ensures
            grid.wf(),
            grid@ == (GridModel {
                cells: layout_cells(
                    (width / cell_size) as usize,
                    (height / cell_size) as usize,
                    nest_coords,
                    standard_food(),
                    standard_walls(),
                ),
                width,
                height,
                cell_size,
                nest_coords,
            }),
    {
        let cells = crate::functions::initialize_grid(width, height, nest_coords, cell_size);
        WorldGrid { cells, width, height, cell_size, nest_coords }
    }

    /// Builds the standard layout with the nest block in the middle of the
    /// grid: anchored at half the number of columns and of rows.
    pub fn centered(width: i64, height: i64, cell_size: i64) -> (grid: WorldGrid)
        requires
            valid_dimensions(width, height, cell_size),
        ensures
            grid.wf(),
            grid@ == centered_grid(width, height, cell_size),
    {
        let cols: usize = (width / cell_size) as usize;
        let rows: usize = (height / cell_size) as usize;
        WorldGrid::build(width, height, cell_size, (cols / 2, rows / 2))
    }

    /// Builds a grid with the given food and wall cells in place of the
    /// standard ones.
    pub fn with_blocks(
        width: i64,
        height: i64,
        cell_size: i64,
        nest_coords: (usize, usize),
        food: &Vec<(usize, usize)>,
        walls: &Vec<(usize, usize)>,
    ) -> (grid: WorldGrid)
        requires
            valid_dimensions(width, height, cell_size),
            nest_coords.0 <= width / cell_size,
            nest_coords.1 <= height / cell_size,
        ensures
            grid.wf(),
            grid@ == (GridModel {
                cells: layout_cells(
                    (width / cell_size) as usize,
                    (height / cell_size) as usize,
                    nest_coords,
                    food@,
                    walls@,
                ),
                width,
                height,
                cell_size,
                nest_coords,
            }),
    {
        let cols: usize = (width / cell_size) as usize;
        let rows: usize = (height / cell_size) as usize;
        let cells = layout_grid(cols, rows, nest_coords, food, walls);
        WorldGrid { cells, width, height, cell_size, nest_coords }
    }

    /// The world width.
    pub fn width(&self) -> (w: i64)
        ensures
            w == self@.width,
    {
        self.width
    }

    /// The world height.
    pub fn height(&self) -> (h: i64)
        ensures
            h == self@.height,
    {
        self.height
    }

    /// The side of a cell.
    pub fn cell_size(&self) -> (c: i64)
        ensures
            c == self@.cell_size,
    {
        self.cell_size
    }

    /// The anchor of the nest block.
    pub fn nest_coords(&self) -> (n: (usize, usize))
        ensures
            n == self@.nest_coords,
    {
        self.nest_coords
    }

    /// The cells, row by row.
    pub fn cells(&self) -> (c: &Vec<GridResource>)
        ensures
            c@ == self@.cells,
    {
        &self.cells
    }

    /// What the position resolves to: a wall outside the world, else what
    /// the cell it maps to holds.
    pub fn get_resource_at_position(&self, pos: (i64, i64)) -> (kind: GridResource)
        requires
            self.wf(),
        ensures
            kind == self@.resource_at(pos),
    {
        get_resource_at_position(&self.cells, self.width, self.height, self.cell_size, pos)
    }

    /// The index of the cell that a position in the world maps to.
    pub fn pos_to_idx(&self, pos: (i64, i64)) -> (idx: usize)
        requires
            self.wf(),
            in_world(pos, self@.width, self@.height),
        ensures
            idx == cell_index(pos, self@.width, self@.cell_size),
    {
        proof {
            lemma_cell_of(pos.0 as int, self.width as int, self.cell_size as int);
            lemma_cell_of(pos.1 as int, self.height as int, self.cell_size as int);
        }
        pos_to_idx(pos, self.width, self.cell_size)
    }

    /// The world position of the corner of a cell of the grid.
    pub fn coords_to_pos(&self, coords: (usize, usize)) -> (pos: (i64, i64))
        requires
            self.wf(),
            coords.0 <= self@.cols(),
            coords.1 <= self@.rows(),
        ensures
            (pos.0 as int, pos.1 as int) == coords_to_pos_spec(coords, self@.cell_size),
            in_world(pos, self@.width, self@.height),
    {
        proof {
            lemma_grid_extent(self.width as int, self.cell_size as int, coords.0 as int);
            lemma_grid_extent(self.height as int, self.cell_size as int, coords.1 as int);
        }
        coords_to_pos(coords, self.cell_size)
    }

    /// The bearing from `pos` to the nest anchor.
    pub fn dir_to_nest(&self, pos: (i64, i64)) -> (dir: i64)
        requires
            self.wf(),
            valid_pos(pos),
        ensures
            dir == dir_to_nest_spec(pos, self@.nest_coords, self@.cell_size),
            -PI <= dir <= PI,
    {
        proof {
            lemma_grid_extent(self.width as int, self.cell_size as int, self.nest_coords.0 as int);
            lemma_grid_extent(self.height as int, self.cell_size as int, self.nest_coords.1 as int);
        }
        dir_to_nest(pos, self.nest_coords, self.cell_size)
    }
}

} // verus!
