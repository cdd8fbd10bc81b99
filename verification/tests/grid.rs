use ant_colony::functions::{get_resource_at_position, initialize_grid};
use ant_colony::grid::{layout_grid, list_contains, GridResource, WorldGrid};

const U: i64 = 1_000_000;

fn cell(grid: &Vec<GridResource>, cols: usize, col: usize, row: usize) -> GridResource {
    grid[row * cols + col]
}

#[test]
fn standard_layout_has_one_cell_for_each_column_and_row() {
    let grid = initialize_grid(1200 * U, 800 * U, (60, 40), 10 * U);
    assert_eq!(grid.len(), 120 * 80);
    let small = initialize_grid(100 * U, 100 * U, (5, 5), 10 * U);
    assert_eq!(small.len(), 100);
    let uneven = initialize_grid(105 * U, 99 * U, (5, 5), 10 * U);
    assert_eq!(uneven.len(), 10 * 9);
}

#[test]
fn standard_layout_places_the_nest_block_at_the_anchor() {
    let grid = initialize_grid(1200 * U, 800 * U, (60, 40), 10 * U);
    assert_eq!(cell(&grid, 120, 60, 40), GridResource::Nest);
    assert_eq!(cell(&grid, 120, 59, 40), GridResource::Nest);
    assert_eq!(cell(&grid, 120, 60, 39), GridResource::Nest);
    assert_eq!(cell(&grid, 120, 59, 39), GridResource::Nest);
    assert_eq!(cell(&grid, 120, 61, 40), GridResource::Blank);
    assert_eq!(cell(&grid, 120, 58, 40), GridResource::Blank);
    assert_eq!(cell(&grid, 120, 60, 41), GridResource::Blank);
    assert_eq!(cell(&grid, 120, 60, 38), GridResource::Blank);
}

#[test]
fn standard_layout_places_the_fixed_food_and_walls() {
    let grid = initialize_grid(1200 * U, 800 * U, (60, 40), 10 * U);
    for col in [25, 26, 27] {
        assert_eq!(cell(&grid, 120, col, 25), GridResource::Food);
    }
    for row in [10, 11, 12] {
        assert_eq!(cell(&grid, 120, 50, row), GridResource::Wall);
    }
    assert_eq!(cell(&grid, 120, 24, 25), GridResource::Blank);
    assert_eq!(cell(&grid, 120, 28, 25), GridResource::Blank);
    assert_eq!(cell(&grid, 120, 50, 9), GridResource::Blank);
    assert_eq!(cell(&grid, 120, 50, 13), GridResource::Blank);
}

#[test]
fn standard_layout_is_blank_elsewhere() {
    let grid = initialize_grid(1200 * U, 800 * U, (60, 40), 10 * U);
    let mut nest = 0;
    let mut food = 0;
    let mut wall = 0;
    let mut blank = 0;
    for kind in grid.iter() {
        match kind {
            GridResource::Nest => nest += 1,
            GridResource::Food => food += 1,
            GridResource::Wall => wall += 1,
            GridResource::Blank => blank += 1,
        }
    }
    assert_eq!((nest, food, wall, blank), (4, 3, 3, 120 * 80 - 10));
}

#[test]
fn nest_anchor_on_the_border_gives_a_smaller_block() {
    let grid = initialize_grid(100 * U, 100 * U, (0, 0), 10 * U);
    assert_eq!(cell(&grid, 10, 0, 0), GridResource::Nest);
    assert_eq!(grid.iter().filter(|k| **k == GridResource::Nest).count(), 1);
    let far = initialize_grid(100 * U, 100 * U, (10, 10), 10 * U);
    assert_eq!(cell(&far, 10, 9, 9), GridResource::Nest);
    assert_eq!(far.iter().filter(|k| **k == GridResource::Nest).count(), 1);
}

#[test]
fn nest_takes_precedence_over_food_and_food_over_walls() {
    let food = vec![(25usize, 25usize), (3, 3)];
    let walls = vec![(3usize, 3usize), (25, 25), (4, 4)];
    let grid = layout_grid(30, 30, (25, 25), &food, &walls);
    assert_eq!(cell(&grid, 30, 25, 25), GridResource::Nest);
    assert_eq!(cell(&grid, 30, 3, 3), GridResource::Food);
    assert_eq!(cell(&grid, 30, 4, 4), GridResource::Wall);
}

#[test]
fn list_contains_finds_cells() {
    let list = vec![(1usize, 2usize), (3, 4)];
    assert!(list_contains(&list, (1, 2)));
    assert!(list_contains(&list, (3, 4)));
    assert!(!list_contains(&list, (2, 1)));
    assert!(!list_contains(&list, (1, 4)));
    assert!(!list_contains(&Vec::new(), (0, 0)));
}

#[test]
fn positions_outside_the_world_are_walls() {
    let grid = initialize_grid(100 * U, 100 * U, (5, 5), 10 * U);
    for pos in [(-1, 0), (0, -1), (100 * U + 1, 0), (0, 100 * U + 1), (i64::MIN, i64::MAX)] {
        assert_eq!(
            get_resource_at_position(&grid, 100 * U, 100 * U, 10 * U, pos),
            GridResource::Wall
        );
    }
}

#[test]
fn positions_inside_the_world_resolve_to_their_cell() {
    let grid = initialize_grid(100 * U, 100 * U, (5, 5), 10 * U);
    let at = |x: i64, y: i64| get_resource_at_position(&grid, 100 * U, 100 * U, 10 * U, (x, y));
    assert_eq!(at(0, 0), GridResource::Blank);
    assert_eq!(at(45 * U, 45 * U), GridResource::Nest);
    assert_eq!(at(40 * U, 40 * U), GridResource::Nest);
    assert_eq!(at(60 * U - 1, 60 * U - 1), GridResource::Nest);
    assert_eq!(at(40 * U - 1, 45 * U), GridResource::Blank);
    assert_eq!(at(60 * U, 45 * U), GridResource::Blank);
    assert_eq!(at(45 * U, 60 * U), GridResource::Blank);
}

#[test]
fn positions_on_the_far_borders_are_in_the_world() {
    let food = vec![(0usize, 1usize)];
    let grid = layout_grid(10, 10, (5, 5), &food, &Vec::new());
    let at = |x: i64, y: i64| get_resource_at_position(&grid, 100 * U, 100 * U, 10 * U, (x, y));
    // the right border maps to the first cell of the next row
    assert_eq!(at(100 * U, 0), GridResource::Food);
    assert_eq!(at(100 * U, 5 * U), GridResource::Food);
    assert_eq!(at(100 * U, 10 * U), GridResource::Blank);
    // the lower border maps beyond the last cell
    assert_eq!(at(0, 100 * U), GridResource::Blank);
    assert_eq!(at(100 * U, 100 * U), GridResource::Blank);
}

#[test]
fn world_grid_reports_what_it_was_built_with() {
    let grid = WorldGrid::build(1200 * U, 800 * U, 10 * U, (60, 40));
    assert_eq!(grid.width(), 1200 * U);
    assert_eq!(grid.height(), 800 * U);
    assert_eq!(grid.cell_size(), 10 * U);
    assert_eq!(grid.nest_coords(), (60, 40));
    assert_eq!(grid.cells().len(), 120 * 80);
    assert_eq!(*grid.cells(), initialize_grid(1200 * U, 800 * U, (60, 40), 10 * U));
}

#[test]
fn world_grid_resolves_positions() {
    let grid = WorldGrid::build(1200 * U, 800 * U, 10 * U, (60, 40));
    assert_eq!(grid.get_resource_at_position((605 * U, 405 * U)), GridResource::Nest);
    assert_eq!(grid.get_resource_at_position((255 * U, 255 * U)), GridResource::Food);
    assert_eq!(grid.get_resource_at_position((279_999_999, 259_999_999)), GridResource::Food);
    assert_eq!(grid.get_resource_at_position((280 * U, 255 * U)), GridResource::Blank);
    assert_eq!(grid.get_resource_at_position((505 * U, 115 * U)), GridResource::Wall);
    assert_eq!(grid.get_resource_at_position((505 * U, 135 * U)), GridResource::Blank);
    assert_eq!(grid.get_resource_at_position((-1, 5)), GridResource::Wall);
    assert_eq!(grid.get_resource_at_position((1200 * U + 1, 5)), GridResource::Wall);
    assert_eq!(grid.get_resource_at_position((5, 800 * U + 1)), GridResource::Wall);
}

#[test]
fn world_grid_with_blocks_places_them() {
    let food = vec![(6usize, 3usize)];
    let walls = vec![(2usize, 2usize), (2, 3)];
    let grid = WorldGrid::with_blocks(100 * U, 100 * U, 10 * U, (5, 5), &food, &walls);
    assert_eq!(grid.get_resource_at_position((65 * U, 35 * U)), GridResource::Food);
    assert_eq!(grid.get_resource_at_position((25 * U, 25 * U)), GridResource::Wall);
    assert_eq!(grid.get_resource_at_position((25 * U, 35 * U)), GridResource::Wall);
    assert_eq!(grid.get_resource_at_position((25 * U, 45 * U)), GridResource::Blank);
    assert_eq!(grid.get_resource_at_position((55 * U, 55 * U)), GridResource::Nest);
}

#[test]
fn world_grid_maps_positions_and_cells() {
    let grid = WorldGrid::build(100 * U, 100 * U, 10 * U, (5, 5));
    assert_eq!(grid.pos_to_idx((25 * U, 35 * U)), 32);
    assert_eq!(grid.pos_to_idx((0, 0)), 0);
    assert_eq!(grid.pos_to_idx((100 * U, 100 * U)), 110);
    assert_eq!(grid.coords_to_pos((5, 5)), (50 * U, 50 * U));
    assert_eq!(grid.coords_to_pos((10, 0)), (100 * U, 0));
    assert_eq!(grid.dir_to_nest((70 * U, 50 * U)), 3_141_592);
    assert_eq!(grid.dir_to_nest((30 * U, 30 * U)), 780_487);
}

#[test]
fn the_centred_grid_has_the_nest_in_the_middle() {
    let grid = WorldGrid::centered(1200 * U, 800 * U, 10 * U);
    assert_eq!(grid.nest_coords(), (60, 40));
    assert_eq!(*grid.cells(), initialize_grid(1200 * U, 800 * U, (60, 40), 10 * U));
    let odd = WorldGrid::centered(90 * U, 70 * U, 10 * U);
    assert_eq!(odd.nest_coords(), (4, 3));
    let one = WorldGrid::centered(10 * U, 10 * U, 10 * U);
    assert_eq!(one.nest_coords(), (0, 0));
    assert_eq!(*one.cells(), vec![GridResource::Nest]);
}
