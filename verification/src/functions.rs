//! The functions of the simulation that work on plain values: the geometry
//! of positions and steps, the grid as a vector of cells, the marker pool as
//! a vector of slots, and the agents of a new colony.

use vstd::prelude::*;
use crate::angles::{
    bearing, bearing_spec, cos_fixed, cos_spec, div_trunc, lemma_scaled_product_bounds,
    scale_product, scaled_product, sin_fixed, sin_spec,
};
use crate::consts::{FULL_STRENGTH, MAX_COORD, MAX_GRID_SIDE, PI};
use crate::pheromones::{
    deposit_spec, fresh_marker, has_free, lemma_first_free_is, lemma_first_free_none, Pheromone,
};
use crate::random::{
    draw_at, initial_heading, initial_heading_spec, next_draw, rng_words, seed_generator,
    seeded_words, words_after,
};
use crate::grid::{
    cell_index, layout_cells, layout_grid, resource_at, standard_food, standard_walls,
    valid_dimensions, GridResource,
};

verus! {

/// A position whose coordinates are within the representable range.
pub open spec fn valid_pos(pos: (i64, i64)) -> bool {
    &&& -MAX_COORD <= pos.0 <= MAX_COORD
    &&& -MAX_COORD <= pos.1 <= MAX_COORD
}

/// The bearing from `pos1` to `pos2`.
pub open spec fn calc_dir_spec(pos1: (i64, i64), pos2: (i64, i64)) -> int {
    bearing_spec(pos2.0 - pos1.0, pos2.1 - pos1.1)
}

/// The bearing from `pos1` to `pos2`: the angle of the vector between them,
/// zero where they coincide.
pub fn calc_dir(pos1: (i64, i64), pos2: (i64, i64)) -> (dir: i64)
    requires
        valid_pos(pos1),
        valid_pos(pos2),
    ensures
        dir == calc_dir_spec(pos1, pos2),
        -PI <= dir <= PI,
{
    let d_x: i64 = pos2.0 - pos1.0;
    let d_y: i64 = pos2.1 - pos1.1;
    bearing(d_x, d_y)
}

/// The square of the distance between two positions.
pub open spec fn dist_sq(pos1: (i64, i64), pos2: (i64, i64)) -> int {
    (pos2.0 - pos1.0) * (pos2.0 - pos1.0) + (pos2.1 - pos1.1) * (pos2.1 - pos1.1)
}

/// `r` is the square root of `s`, rounded down.
pub open spec fn is_floor_sqrt(r: int, s: int) -> bool {
    &&& 0 <= r
    &&& r * r <= s
    &&& s < (r + 1) * (r + 1)
}

/// The square of a distance between representable positions fits well
/// within 128 bits.
pub proof fn lemma_dist_sq_bounds(pos1: (i64, i64), pos2: (i64, i64))
    requires
        valid_pos(pos1),
        valid_pos(pos2),
    ensures
        0 <= (pos2.0 - pos1.0) * (pos2.0 - pos1.0) <= 4_000_000_000_000_000_000_000_000,
        0 <= (pos2.1 - pos1.1) * (pos2.1 - pos1.1) <= 4_000_000_000_000_000_000_000_000,
        0 <= dist_sq(pos1, pos2) <= 8_000_000_000_000_000_000_000_000,
{
    let dx = pos2.0 - pos1.0;
    let dy = pos2.1 - pos1.1;
    assert(0 <= dx * dx <= 4_000_000_000_000_000_000_000_000) by (nonlinear_arith)
        requires
            -2_000_000_000_000 <= dx <= 2_000_000_000_000,
    ;
    assert(0 <= dy * dy <= 4_000_000_000_000_000_000_000_000) by (nonlinear_arith)
        requires
            -2_000_000_000_000 <= dy <= 2_000_000_000_000,
    ;
}

/// The square root of `s`, rounded down, by bisection.
pub fn integer_sqrt(s: u128) -> (r: u64)
    requires
        s < 0x1_0000_0000_0000_0000_0000_0000,
    ensures
        is_floor_sqrt(r as int, s as int),
{
    let mut lo: u64 = 0;
    let mut hi: u64 = 0x1_0000_0000_0000;
    assert(0x1_0000_0000_0000int * 0x1_0000_0000_0000int == 0x1_0000_0000_0000_0000_0000_0000int);
    while hi - lo > 1
        invariant
            lo < hi <= 0x1_0000_0000_0000,
            lo * lo <= s,
            s < hi * hi,
        decreases hi - lo,
    {
        let mid: u64 = lo + (hi - lo) / 2;
        assert(mid * mid < 0x1_0000_0000_0000_0000_0000_0000int) by (nonlinear_arith)
            requires
                0 <= mid < 0x1_0000_0000_0000int,
        ;
        let sq: u128 = (mid as u128) * (mid as u128);
        if sq <= s {
            lo = mid;
        } else {
            hi = mid;
        }
    }
    lo
}

/// The distance between two positions, rounded down to a whole millionth.
pub fn calc_dist(pos1: (i64, i64), pos2: (i64, i64)) -> (dist: i64)
    requires
        valid_pos(pos1),
        valid_pos(pos2),
    ensures
        is_floor_sqrt(dist as int, dist_sq(pos1, pos2)),
{
    proof {
        lemma_dist_sq_bounds(pos1, pos2);
    }
    let d_x: i128 = (pos2.0 as i128) - (pos1.0 as i128);
    let d_y: i128 = (pos2.1 as i128) - (pos1.1 as i128);
    let s: i128 = d_x * d_x + d_y * d_y;
    let r = integer_sqrt(s as u128);
    assert(r < 0x1_0000_0000_0000) by (nonlinear_arith)
        requires
            r * r <= s,
            s < 0x1_0000_0000_0000_0000_0000_0000int,
            0 <= r,
    ;
    r as i64
}

/// Whether `pos2` lies within `radius` of `pos1`: the distance, not rounded,
/// is at most the radius.
pub open spec fn within_radius(pos1: (i64, i64), pos2: (i64, i64), radius: i64) -> bool {
    radius >= 0 && dist_sq(pos1, pos2) <= radius * radius
}

/// A position within a radius is at a rounded-down distance of at most the
/// radius, and one at a rounded-down distance below the radius is within it.
pub proof fn lemma_within_radius_dist(pos1: (i64, i64), pos2: (i64, i64), radius: i64, dist: int)
    requires
        is_floor_sqrt(dist, dist_sq(pos1, pos2)),
    ensures
        within_radius(pos1, pos2, radius) ==> dist <= radius,
        dist < radius ==> within_radius(pos1, pos2, radius),
{
    let s = dist_sq(pos1, pos2);
    let r = radius as int;
    if within_radius(pos1, pos2, radius) && dist > r {
        assert(dist * dist > r * r) by (nonlinear_arith)
            requires
                dist > r,
                r >= 0,
        ;
    }
    if dist < r {
        assert((dist + 1) * (dist + 1) <= r * r) by (nonlinear_arith)
            requires
                0 <= dist < r,
        ;
    }
}

/// Tests whether `pos2` lies within `radius` of `pos1`.
pub fn is_within_radius(pos1: (i64, i64), pos2: (i64, i64), radius: i64) -> (r: bool)
    requires
        valid_pos(pos1),
        valid_pos(pos2),
    ensures
        r == within_radius(pos1, pos2, radius),
{
    if radius < 0 {
        return false;
    }
    proof {
        lemma_dist_sq_bounds(pos1, pos2);
        crate::angles::lemma_product_fits(radius as int, radius as int);
    }
    let d_x: i128 = (pos2.0 as i128) - (pos1.0 as i128);
    let d_y: i128 = (pos2.1 as i128) - (pos1.1 as i128);
    let s: i128 = d_x * d_x + d_y * d_y;
    let rr: i128 = (radius as i128) * (radius as i128);
    s <= rr
}

/// A coordinate kept within the representable range.
pub open spec fn clamp_coord(v: int) -> int {
    if v < -MAX_COORD {
        -MAX_COORD as int
    } else if v > MAX_COORD {
        MAX_COORD as int
    } else {
        v
    }
}

/// The vector of one step of length `speed` in direction `dir`: the speed
/// times the cosine and times the sine of the direction, each rounded
/// toward zero.
pub open spec fn step_vector(dir: i64, speed: i64) -> (int, int) {
    (
        scaled_product(cos_spec(dir as int), speed as int),
        scaled_product(sin_spec(dir as int), speed as int),
    )
}

/// The position one step of length `speed` away from `pos` in direction
/// `dir`: `pos` moved by the step vector, each coordinate kept within the
/// representable range.
pub open spec fn next_ant_position_spec(pos: (i64, i64), dir: i64, speed: i64) -> (i64, i64) {
    (
        clamp_coord(pos.0 + step_vector(dir, speed).0) as i64,
        clamp_coord(pos.1 + step_vector(dir, speed).1) as i64,
    )
}

/// The steps in the three reflections of a direction `h` in `(-PI, PI]` are
/// the reflections of the step in that direction.
pub proof fn lemma_reflected_steps(h: i64, speed: i64)
    requires
        -PI < h <= PI,
    ensures
        step_vector((-h) as i64, speed) == (step_vector(h, speed).0, -step_vector(h, speed).1),
        step_vector((PI - h) as i64, speed) == (-step_vector(h, speed).0, step_vector(h, speed).1),
        step_vector((h + PI) as i64, speed) == (-step_vector(h, speed).0, -step_vector(h, speed).1),
{
    crate::angles::lemma_reflections(h as int);
    let c = cos_spec(h as int);
    let n = sin_spec(h as int);
    assert((-c) * speed == -(c * speed)) by (nonlinear_arith);
    assert((-n) * speed == -(n * speed)) by (nonlinear_arith);
}

fn clamp_to_range(v: i128) -> (r: i64)
    ensures
        r == clamp_coord(v as int),
        -MAX_COORD <= r <= MAX_COORD,
{
    if v < -(MAX_COORD as i128) {
        -MAX_COORD
    } else if v > MAX_COORD as i128 {
        MAX_COORD
    } else {
        v as i64
    }
}

/// The position one step of length `speed` away from `pos` in direction `dir`.
pub fn next_ant_position(pos: (i64, i64), dir: i64, speed: i64) -> (next: (i64, i64))
    ensures
        next == next_ant_position_spec(pos, dir, speed),
        valid_pos(next),
{
    let c = cos_fixed(dir);
    let s = sin_fixed(dir);
    proof {
        lemma_scaled_product_bounds(c as int, speed as int);
        lemma_scaled_product_bounds(s as int, speed as int);
    }
    let d_x: i128 = scale_product(c, speed);
    let d_y: i128 = scale_product(s, speed);
    (clamp_to_range((pos.0 as i128) + d_x), clamp_to_range((pos.1 as i128) + d_y))
}

/// The world position of the corner of a cell: its column and row times the
/// cell size.
pub open spec fn coords_to_pos_spec(coords: (usize, usize), cell_size: i64) -> (int, int) {
    (coords.0 * cell_size, coords.1 * cell_size)
}

/// Cell coordinates whose world position is within the representable range.
pub open spec fn valid_coords(coords: (usize, usize), cell_size: i64) -> bool {
    &&& 0 <= cell_size
    &&& coords.0 * cell_size <= MAX_COORD
    &&& coords.1 * cell_size <= MAX_COORD
}

/// The world position of the corner of a cell.
pub fn coords_to_pos(coords: (usize, usize), cell_size: i64) -> (pos: (i64, i64))
    requires
        valid_coords(coords, cell_size),
    ensures
        (pos.0 as int, pos.1 as int) == coords_to_pos_spec(coords, cell_size),
        0 <= pos.0 <= MAX_COORD,
        0 <= pos.1 <= MAX_COORD,
{
    proof {
        assert(0 <= coords.0 * cell_size && 0 <= coords.1 * cell_size) by (nonlinear_arith)
            requires
                0 <= cell_size,
                0 <= coords.0,
                0 <= coords.1,
        ;
    }
    let x: i128 = (coords.0 as i128) * (cell_size as i128);
    let y: i128 = (coords.1 as i128) * (cell_size as i128);
    (x as i64, y as i64)
}

/// The bearing from `pos` to the nest anchor.
pub open spec fn dir_to_nest_spec(
    pos: (i64, i64),
    nest_coords: (usize, usize),
    cell_size: i64,
) -> int {
    bearing_spec(nest_coords.0 * cell_size - pos.0, nest_coords.1 * cell_size - pos.1)
}

/// The bearing from `pos` to the corner of the cell that anchors the nest.
pub fn dir_to_nest(pos: (i64, i64), nest_coords: (usize, usize), cell_size: i64) -> (dir: i64)
    requires
        valid_pos(pos),
        valid_coords(nest_coords, cell_size),
    ensures
        dir == dir_to_nest_spec(pos, nest_coords, cell_size),
        -PI <= dir <= PI,
{
    let nest_pos = coords_to_pos(nest_coords, cell_size);
    calc_dir(pos, nest_pos)
}

/// A quotient by a positive cell size is monotone and non-negative.
pub proof fn lemma_cell_of(coord: int, limit: int, cell_size: int)
    requires
        0 <= coord <= limit,
        0 < cell_size,
    ensures
        0 <= coord / cell_size <= limit / cell_size,
{
    vstd::arithmetic::div_mod::lemma_div_is_ordered(coord, limit, cell_size);
    vstd::arithmetic::div_mod::lemma_div_pos_is_pos(coord, cell_size);
}

/// The index of the cell that a position maps to.
pub fn pos_to_idx(pos: (i64, i64), width: i64, cell_size: i64) -> (idx: usize)
    requires
        0 < cell_size,
        0 <= pos.0,
        0 <= pos.1,
        0 <= width,
        pos.0 / cell_size <= MAX_GRID_SIDE,
        pos.1 / cell_size <= MAX_GRID_SIDE,
        width / cell_size <= MAX_GRID_SIDE,
    ensures
        idx == cell_index(pos, width, cell_size),
{
    proof {
        lemma_cell_of(pos.0 as int, pos.0 as int, cell_size as int);
        lemma_cell_of(pos.1 as int, pos.1 as int, cell_size as int);
        lemma_cell_of(width as int, width as int, cell_size as int);
    }
    let col: i64 = pos.0 / cell_size;
    let row: i64 = pos.1 / cell_size;
    let cols: i64 = width / cell_size;
    assert(0 <= row * cols <= 32_768 * 32_768) by (nonlinear_arith)
        requires
            0 <= row <= 32_768,
            0 <= cols <= 32_768,
    ;
    (row * cols + col) as usize
}

/// What the position resolves to in a grid held as a vector of cells.
pub fn get_resource_at_position(
    grid: &Vec<GridResource>,
    width: i64,
    height: i64,
    cell_size: i64,
    pos: (i64, i64),
) -> (kind: GridResource)
    requires
        valid_dimensions(width, height, cell_size),
    ensures
        kind == resource_at(grid@, width, height, cell_size, pos),
{
    if pos.0 < 0 || pos.1 < 0 || pos.0 > width || pos.1 > height {
        return GridResource::Wall;
    }
    proof {
        lemma_cell_of(pos.0 as int, width as int, cell_size as int);
        lemma_cell_of(pos.1 as int, height as int, cell_size as int);
    }
    let idx = pos_to_idx(pos, width, cell_size);
    if idx < grid.len() {
        grid[idx]
    } else {
        GridResource::Blank
    }
}

/// The cells of the standard layout for a world of the given size: the nest
/// block at `nest_coords`, three food cells and three wall cells at fixed
/// places, and blank cells elsewhere.
pub fn initialize_grid(
    width: i64,
    height: i64,
    nest_coords: (usize, usize),
    cell_size: i64,
) -> (grid: Vec<GridResource>)
    requires
        valid_dimensions(width, height, cell_size),
    ensures
        grid@ == layout_cells(
            (width / cell_size) as usize,
            (height / cell_size) as usize,
            nest_coords,
            standard_food(),
            standard_walls(),
        ),
        grid@.len() == (width / cell_size) * (height / cell_size),
{
    let mut food: Vec<(usize, usize)> = Vec::new();
    food.push((25, 25));
    food.push((26, 25));
    food.push((27, 25));
    let mut walls: Vec<(usize, usize)> = Vec::new();
    walls.push((50, 10));
    walls.push((50, 11));
    walls.push((50, 12));
    assert(food@ =~= standard_food());
    assert(walls@ =~= standard_walls());
    let cols: usize = (width / cell_size) as usize;
    let rows: usize = (height / cell_size) as usize;
    layout_grid(cols, rows, nest_coords, &food, &walls)
}

/// Deposits a fresh marker at `pos`, with direction `dir`, in the first slot
/// whose strength is not positive. Where there is none, the pool stays as it
/// is and the result is `false`.
pub fn add_pheromone(pheromones: &mut Vec<Pheromone>, pos: (i64, i64), dir: i64) -> (stored: bool)
    ensures
        final(pheromones)@ == deposit_spec(old(pheromones)@, pos, dir),
        stored == has_free(old(pheromones)@),
        stored ==> final(pheromones)@[crate::pheromones::first_free(old(pheromones)@)]
            == fresh_marker(pos, dir),
        !stored ==> final(pheromones)@ == old(pheromones)@,
{
    let n = pheromones.len();
    let mut i: usize = 0;
    while i < n
        invariant
            i <= n,
            n == pheromones@.len(),
            pheromones@ == old(pheromones)@,
            forall|j: int| 0 <= j < i ==> pheromones@[j].strength > 0,
        decreases n - i,
    {
        if pheromones[i].strength <= 0 {
            proof {
                lemma_first_free_is(pheromones@, i as int);
            }
            pheromones.set(i, Pheromone { x: pos.0, y: pos.1, strength: FULL_STRENGTH, dir });
            return true;
        }
        i += 1;
    }
    proof {
        lemma_first_free_none(pheromones@);
    }
    false
}

/// The centre of a world: half its width and half its height, rounded
/// toward zero.
pub open spec fn center_spec(width: i64, height: i64) -> (i64, i64) {
    (div_trunc(width as int, 2) as i64, div_trunc(height as int, 2) as i64)
}

/// The agents of a new colony, as three vectors with one entry for each
/// agent: positions, headings, and whether the agent carries food. Every
/// agent stands at the centre of the world and carries nothing. The
/// headings come, in index order, from the draws of a generator seeded with
/// `seed`.
pub fn initialize_ants(width: i64, height: i64, ant_count: usize, seed: u64) -> (out: (
    Vec<(i64, i64)>,
    Vec<i64>,
    Vec<bool>,
))
    ensures
        out.0@.len() == ant_count,
        out.1@.len() == ant_count,
        out.2@.len() == ant_count,
        forall|i: int| 0 <= i < ant_count ==> out.0@[i] == center_spec(width, height),
        forall|i: int|
            0 <= i < ant_count ==> out.1@[i] == initial_heading_spec(
                draw_at(seeded_words(seed), i as nat),
            ),
        forall|i: int| 0 <= i < ant_count ==> !out.2@[i],
{
    let mut rng = seed_generator(seed);
    let center: (i64, i64) = (width / 2, height / 2);
    let mut ants: Vec<(i64, i64)> = Vec::new();
    let mut dirs: Vec<i64> = Vec::new();
    let mut has_food: Vec<bool> = Vec::new();
    let mut i: usize = 0;
    while i < ant_count
        invariant
            i <= ant_count,
            center == center_spec(width, height),
            ants@.len() == i,
            dirs@.len() == i,
            has_food@.len() == i,
            rng_words(rng) == words_after(seeded_words(seed), i as nat),
            forall|k: int| 0 <= k < i ==> ants@[k] == center,
            forall|k: int|
                0 <= k < i ==> dirs@[k] == initial_heading_spec(
                    draw_at(seeded_words(seed), k as nat),
                ),
            forall|k: int| 0 <= k < i ==> !has_food@[k],
        decreases ant_count - i,
    {
        let draw = next_draw(&mut rng);
        ants.push(center);
        dirs.push(initial_heading(draw));
        has_food.push(false);
        i += 1;
    }
    (ants, dirs, has_food)
}

} // verus!
