use ant_colony::ants::{resolve_step, turn_around, update_ant, Ant, AntSwarm};
use ant_colony::config::Config;
use ant_colony::consts::{FREE_SLOT, FULL_STRENGTH, HALF_PI, MAX_COORD, PI};
use ant_colony::grid::WorldGrid;
use ant_colony::pheromones::{Pheromone, PheromoneField};
use ant_colony::random::{initial_heading, wander_noise};
use rand::Rng;
use rand_xoshiro::rand_core::SeedableRng;
use rand_xoshiro::Xoshiro256Plus;

const U: i64 = 1_000_000;

fn grid_with(nest: (usize, usize), food: &[(usize, usize)], walls: &[(usize, usize)]) -> WorldGrid {
    WorldGrid::with_blocks(100 * U, 100 * U, 10 * U, nest, &food.to_vec(), &walls.to_vec())
}

fn still() -> Config {
    Config { wander_coefficient: 0, pool_capacity: 4, ..Config::default() }
}

fn ant(x: i64, y: i64, dir: i64, has_food: bool) -> Ant {
    Ant { x, y, dir, has_food }
}

#[test]
fn wander_noise_is_centred_on_zero() {
    assert_eq!(wander_noise(0, 100_000), -50_000);
    assert_eq!(wander_noise(u32::MAX, 100_000), 49_999);
    assert_eq!(wander_noise(0x8000_0000, 100_000), 0);
    assert_eq!(wander_noise(0x4000_0000, 100_000), -25_000);
    assert_eq!(wander_noise(0xC000_0000, -100_000), -25_000);
}

#[test]
fn wander_noise_uses_the_upper_bits_only() {
    assert_eq!(wander_noise(0x4000_00ff, 100_000), wander_noise(0x4000_0000, 100_000));
    assert_eq!(wander_noise(0xffff_ff00, 100_000), wander_noise(u32::MAX, 100_000));
}

#[test]
fn wander_noise_vanishes_without_a_coefficient() {
    for draw in [0, 1, 0x7fff_ffff, 0x8000_0000, u32::MAX] {
        assert_eq!(wander_noise(draw, 0), 0);
    }
}

#[test]
fn wander_noise_takes_extreme_coefficients() {
    assert_eq!(wander_noise(0, i64::MAX), -(i64::MAX / 2));
    assert_eq!(wander_noise(0, i64::MIN), i64::MAX / 2 + 1);
    assert_eq!(wander_noise(0x8000_0000, i64::MIN), 0);
}

#[test]
fn initial_heading_spans_one_turn() {
    assert_eq!(initial_heading(0), 0);
    assert_eq!(initial_heading(u32::MAX), 6_283_183);
    assert_eq!(initial_heading(0x8000_0000), PI);
    assert_eq!(initial_heading(0x4000_0000), HALF_PI);
    assert_eq!(initial_heading(0x4000_00ff), HALF_PI);
}

#[test]
fn a_step_onto_a_blank_cell_is_taken() {
    let grid = grid_with((1, 1), &[], &[]);
    assert_eq!(
        resolve_step(&grid, (55 * U, 55 * U), 0, 0, 2 * U, false),
        ant(57 * U, 55 * U, 0, false)
    );
    assert_eq!(
        resolve_step(&grid, (55 * U, 55 * U), 785_398, 785_398, 2 * U, false),
        ant(56_411_764, 56_411_764, 785_398, false)
    );
}

#[test]
fn the_desired_heading_is_tried_first_and_kept_as_it_is() {
    let grid = grid_with((1, 1), &[], &[]);
    // the desired heading need not be normalised: it is stored as given
    assert_eq!(
        resolve_step(&grid, (55 * U, 55 * U), 0, PI + 6_283_184, 2 * U, true),
        ant(53 * U, 55 * U, PI + 6_283_184, true)
    );
}

#[test]
fn a_wall_ahead_makes_the_agent_try_the_reflections() {
    let grid = grid_with((1, 1), &[], &[(6, 5)]);
    // heading east into the wall: the horizontal mirror image points east
    // too, the vertical one points west
    assert_eq!(
        resolve_step(&grid, (59 * U, 55 * U), 0, 0, 2 * U, false),
        ant(57 * U, 55 * U, PI, false)
    );
}

#[test]
fn the_horizontal_reflection_comes_before_the_vertical_one() {
    let grid = grid_with((1, 1), &[], &[(5, 6)]);
    // heading south (positive y) into the wall: the horizontal mirror image
    // points north
    assert_eq!(
        resolve_step(&grid, (55 * U, 59 * U), HALF_PI, HALF_PI, 2 * U, false),
        ant(55 * U, 57 * U, -HALF_PI, false)
    );
}

#[test]
fn the_border_of_the_world_is_a_wall() {
    let grid = grid_with((1, 1), &[], &[]);
    assert_eq!(
        resolve_step(&grid, (99 * U, 55 * U), 0, 0, 2 * U, false),
        ant(97 * U, 55 * U, PI, false)
    );
}

#[test]
fn an_agent_walled_in_takes_the_reversed_step_all_the_same() {
    let grid = grid_with((1, 1), &[], &[(5, 5)]);
    assert_eq!(
        resolve_step(&grid, (55 * U, 55 * U), 0, 0, 2 * U, false),
        ant(53 * U, 55 * U, PI, false)
    );
    assert_eq!(
        resolve_step(&grid, (55 * U, 55 * U), 1_000_000, 1_200_000, 2 * U, true),
        ant(53_919_998, 53_319_564, 4_141_592, true)
    );
}

#[test]
fn food_is_picked_up_and_the_agent_turns_around() {
    let grid = grid_with((1, 1), &[(6, 5)], &[]);
    assert_eq!(
        resolve_step(&grid, (59 * U, 55 * U), 0, 0, 2 * U, false),
        ant(57 * U, 55 * U, PI, true)
    );
}

#[test]
fn food_met_while_carrying_changes_nothing() {
    let grid = grid_with((1, 1), &[(6, 5)], &[]);
    assert_eq!(
        resolve_step(&grid, (59 * U, 55 * U), 0, 0, 2 * U, true),
        ant(61 * U, 55 * U, 0, true)
    );
}

#[test]
fn an_agent_that_cannot_turn_around_stays_where_it_is() {
    let grid = grid_with((1, 1), &[(6, 5)], &[(4, 5)]);
    assert_eq!(
        resolve_step(&grid, (55 * U, 55 * U), 0, 200_000, 12 * U, false),
        ant(55 * U, 55 * U, 0, true)
    );
    // the reversed step is refused on food and nest too
    let boxed = grid_with((1, 1), &[(6, 5), (4, 5)], &[]);
    assert_eq!(
        resolve_step(&boxed, (55 * U, 55 * U), 0, 0, 12 * U, false),
        ant(55 * U, 55 * U, 0, true)
    );
}

#[test]
fn food_is_dropped_at_the_nest_and_the_agent_turns_around() {
    let grid = grid_with((7, 6), &[], &[]);
    assert_eq!(
        resolve_step(&grid, (59 * U, 55 * U), 0, 0, 2 * U, true),
        ant(57 * U, 55 * U, PI, false)
    );
}

#[test]
fn the_nest_met_while_foraging_changes_nothing() {
    let grid = grid_with((7, 6), &[], &[]);
    assert_eq!(
        resolve_step(&grid, (59 * U, 55 * U), 0, 0, 2 * U, false),
        ant(61 * U, 55 * U, 0, false)
    );
}

#[test]
fn food_behind_a_wall_is_reached_by_a_reflection() {
    // east is a wall, west is food: the third candidate picks it up
    let grid = grid_with((1, 1), &[(4, 5)], &[(6, 5)]);
    assert_eq!(
        resolve_step(&grid, (55 * U, 55 * U), 0, 0, 12 * U, false),
        ant(55 * U, 55 * U, 0, true)
    );
}

#[test]
fn turn_around_takes_the_reversed_step_onto_blank_cells_only() {
    let grid = grid_with((1, 1), &[], &[(4, 5)]);
    assert_eq!(turn_around(&grid, (55 * U, 55 * U), 0, 2 * U, true), ant(53 * U, 55 * U, PI, true));
    assert_eq!(turn_around(&grid, (55 * U, 55 * U), 0, 12 * U, true), ant(55 * U, 55 * U, 0, true));
    assert_eq!(
        turn_around(&grid, (55 * U, 55 * U), PI, 12 * U, false),
        ant(67 * U, 55 * U, 2 * PI, false)
    );
}

#[test]
fn a_foraging_agent_keeps_its_heading_where_it_senses_nothing() {
    let grid = grid_with((5, 5), &[], &[]);
    let mut field = PheromoneField::new(4, 3_000);
    field.add_pheromone((72 * U, 92 * U), 2_000_000);
    let out = update_ant(&grid, &mut field, &still(), true, ant(70 * U, 50 * U, 500_000, false), 12_345);
    assert_eq!(out, ant(71_752_954, 50_959_164, 500_000, false));
    assert_eq!(field.active_markers().len(), 1);
}

#[test]
fn a_foraging_agent_takes_the_direction_of_the_marker_it_senses() {
    let grid = grid_with((5, 5), &[], &[]);
    let mut field = PheromoneField::new(4, 3_000);
    field.add_pheromone((72 * U, 52 * U), 2_000_000);
    let out = update_ant(&grid, &mut field, &still(), true, ant(70 * U, 50 * U, 0, false), 12_345);
    assert_eq!(out, ant(69_166_430, 51_816_770, 2_000_000, false));
    // a foraging agent deposits nothing
    assert_eq!(field.active_markers().len(), 1);
}

#[test]
fn a_carrying_agent_turns_toward_the_nest_and_deposits_when_due() {
    let grid = grid_with((5, 5), &[], &[]);
    let mut field = PheromoneField::new(4, 3_000);
    let out = update_ant(&grid, &mut field, &still(), true, ant(70 * U, 50 * U, 0, true), 12_345);
    // the nest bears half a turn away; a twentieth of that is 157079
    assert_eq!(out, ant(71_975_062, 50_316_006, 157_079, true));
    assert_eq!(
        field.active_markers(),
        vec![Pheromone { x: 70 * U, y: 50 * U, strength: FULL_STRENGTH, dir: 157_079 + PI }]
    );
}

#[test]
fn a_carrying_agent_deposits_nothing_when_no_marker_is_due() {
    let grid = grid_with((5, 5), &[], &[]);
    let mut field = PheromoneField::new(4, 3_000);
    let out = update_ant(&grid, &mut field, &still(), false, ant(70 * U, 50 * U, 0, true), 12_345);
    assert_eq!(out, ant(71_975_062, 50_316_006, 157_079, true));
    assert!(field.active_markers().is_empty());
}

#[test]
fn a_carrying_agent_does_not_follow_markers() {
    let grid = grid_with((5, 5), &[], &[]);
    let mut field = PheromoneField::new(4, 3_000);
    field.add_pheromone((70 * U, 50 * U), 2_000_000);
    let out = update_ant(&grid, &mut field, &still(), false, ant(70 * U, 50 * U, 0, true), 12_345);
    assert_eq!(out, ant(71_975_062, 50_316_006, 157_079, true));
}

#[test]
fn a_deposit_into_a_full_pool_does_not_stop_the_update() {
    let grid = grid_with((5, 5), &[], &[]);
    let mut field = PheromoneField::new(1, 3_000);
    field.add_pheromone((1, 1), 1);
    let before = field.slots().clone();
    let out = update_ant(&grid, &mut field, &still(), true, ant(70 * U, 50 * U, 0, true), 12_345);
    assert_eq!(out, ant(71_975_062, 50_316_006, 157_079, true));
    assert_eq!(*field.slots(), before);
}

#[test]
fn the_draw_turns_the_desired_heading() {
    let grid = grid_with((5, 5), &[], &[]);
    let mut field = PheromoneField::new(4, 3_000);
    let config = Config { pool_capacity: 4, ..Config::default() };
    let start = ant(70 * U, 50 * U, 500_000, false);
    assert_eq!(
        update_ant(&grid, &mut field, &config, false, start, u32::MAX),
        ant(71_702_618, 51_045_030, 549_999, false)
    );
    assert_eq!(
        update_ant(&grid, &mut field, &config, false, start, 0),
        ant(71_798_948, 50_870_924, 450_000, false)
    );
}

#[test]
fn the_update_starts_from_the_normalised_heading() {
    let grid = grid_with((5, 5), &[], &[]);
    let mut field = PheromoneField::new(4, 3_000);
    let a = update_ant(&grid, &mut field, &still(), false, ant(70 * U, 50 * U, 500_000, false), 1);
    let b = update_ant(
        &grid,
        &mut field,
        &still(),
        false,
        ant(70 * U, 50 * U, 500_000 + 3 * 6_283_184, false),
        1,
    );
    assert_eq!(a, b);
    assert_eq!(a.dir, 500_000);
}

#[test]
fn a_swarm_is_made_of_aligned_valid_parts() {
    let config = still();
    let made = AntSwarm::new(vec![(1, 2), (3, 4)], vec![5, 6], vec![false, true], config);
    let swarm = made.expect("aligned vectors make a swarm");
    assert_eq!(swarm.len(), 2);
    assert_eq!(*swarm.positions(), vec![(1, 2), (3, 4)]);
    assert_eq!(*swarm.headings(), vec![5, 6]);
    assert_eq!(*swarm.carrying(), vec![false, true]);
    assert_eq!(swarm.config(), config);
    assert!(AntSwarm::new(Vec::new(), Vec::new(), Vec::new(), config).is_some());
}

#[test]
fn a_swarm_is_refused_where_the_parts_do_not_fit() {
    let config = still();
    assert!(AntSwarm::new(vec![(1, 2)], vec![5, 6], vec![false], config).is_none());
    assert!(AntSwarm::new(vec![(1, 2)], vec![5], vec![false, true], config).is_none());
    assert!(AntSwarm::new(vec![(1, 2)], vec![], vec![], config).is_none());
}

#[test]
fn a_swarm_is_refused_where_a_position_is_out_of_range() {
    let config = still();
    assert!(AntSwarm::new(vec![(MAX_COORD, -MAX_COORD)], vec![5], vec![false], config).is_some());
    assert!(AntSwarm::new(vec![(MAX_COORD + 1, 0)], vec![5], vec![false], config).is_none());
    assert!(AntSwarm::new(vec![(0, 0), (0, -MAX_COORD - 1)], vec![5, 6], vec![false, true], config)
        .is_none());
}

#[test]
fn a_swarm_is_refused_where_the_parameters_are_invalid() {
    let bad = Config { pheromone_deposit_interval: 0, ..still() };
    assert!(AntSwarm::new(vec![(1, 2)], vec![5], vec![false], bad).is_none());
    let worse = Config { walk_speed: i64::MAX, ..still() };
    assert!(AntSwarm::new(vec![(1, 2)], vec![5], vec![false], worse).is_none());
}

#[test]
fn a_step_updates_every_agent_with_the_next_draw() {
    let grid = grid_with((5, 5), &[], &[]);
    let config = Config { pool_capacity: 4, ..Config::default() };
    let starts = vec![ant(70 * U, 50 * U, 500_000, false), ant(20 * U, 30 * U, -2_000_000, false)];
    let mut swarm = AntSwarm::new(
        starts.iter().map(|a| (a.x, a.y)).collect(),
        starts.iter().map(|a| a.dir).collect(),
        starts.iter().map(|a| a.has_food).collect(),
        config,
    )
    .expect("a valid swarm");
    let mut field = PheromoneField::new(4, 3_000);
    let mut rng = Xoshiro256Plus::seed_from_u64(99);
    swarm.step(&grid, &mut field, &mut rng);

    let mut same = Xoshiro256Plus::seed_from_u64(99);
    let mut pool = PheromoneField::new(4, 3_000);
    for (i, start) in starts.iter().enumerate() {
        let draw: u32 = same.gen();
        let expected = update_ant(&grid, &mut pool, &config, false, *start, draw);
        assert_eq!(swarm.positions()[i], (expected.x, expected.y));
        assert_eq!(swarm.headings()[i], expected.dir);
        assert_eq!(swarm.carrying()[i], expected.has_food);
    }
    // the generator has moved on by one draw for each agent
    assert_eq!(rng.gen::<u32>(), same.gen::<u32>());
}

#[test]
fn markers_are_due_in_every_tick_that_completes_the_interval() {
    // a carrying agent far from food and nest, so that it keeps carrying
    let grid = grid_with((1, 1), &[], &[]);
    let config = Config { pheromone_deposit_interval: 3, pool_capacity: 8, wander_coefficient: 0, ..Config::default() };
    let mut swarm =
        AntSwarm::new(vec![(80 * U, 80 * U)], vec![0], vec![true], config).expect("a valid swarm");
    let mut field = PheromoneField::new(8, 0);
    let mut rng = Xoshiro256Plus::seed_from_u64(1);
    let mut counts = Vec::new();
    for _ in 0..7 {
        swarm.step(&grid, &mut field, &mut rng);
        counts.push(field.active_markers().len());
    }
    assert_eq!(counts, vec![0, 0, 1, 1, 1, 2, 2]);
}

#[test]
fn a_marker_is_there_for_the_agents_after_the_one_that_left_it() {
    // agent 0 carries and deposits in this step; agent 1 forages next to it
    let grid = grid_with((1, 1), &[], &[]);
    let config = Config {
        pheromone_deposit_interval: 1,
        pool_capacity: 2,
        wander_coefficient: 0,
        homing_strength: 0,
        ..Config::default()
    };
    let mut swarm = AntSwarm::new(
        vec![(80 * U, 80 * U), (81 * U, 80 * U)],
        vec![1_000_000, 0],
        vec![true, false],
        config,
    )
    .expect("a valid swarm");
    let mut field = PheromoneField::new(2, 3_000);
    let mut rng = Xoshiro256Plus::seed_from_u64(1);
    swarm.step(&grid, &mut field, &mut rng);
    // the marker points away from the heading of agent 0
    assert_eq!(
        field.active_markers(),
        vec![Pheromone { x: 80 * U, y: 80 * U, strength: FULL_STRENGTH, dir: 1_000_000 + PI }]
    );
    // agent 1 has taken that direction in the same step
    assert_eq!(swarm.headings()[1], 1_000_000 + PI);
    assert_eq!(swarm.headings()[0], 1_000_000);
}

#[test]
fn an_agent_before_the_depositing_one_does_not_sense_its_marker() {
    let grid = grid_with((1, 1), &[], &[]);
    let config = Config {
        pheromone_deposit_interval: 1,
        pool_capacity: 2,
        wander_coefficient: 0,
        homing_strength: 0,
        ..Config::default()
    };
    let mut swarm = AntSwarm::new(
        vec![(81 * U, 80 * U), (80 * U, 80 * U)],
        vec![0, 1_000_000],
        vec![false, true],
        config,
    )
    .expect("a valid swarm");
    let mut field = PheromoneField::new(2, 3_000);
    let mut rng = Xoshiro256Plus::seed_from_u64(1);
    swarm.step(&grid, &mut field, &mut rng);
    assert_eq!(swarm.headings()[0], 0);
    assert_eq!(field.active_markers().len(), 1);
    assert_eq!(field.slots()[1].strength, FREE_SLOT);
}
