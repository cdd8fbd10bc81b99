//! Setting a simulation up and running it tick by tick, and what holds of
//! every tick.

use vstd::prelude::*;
use crate::ants::{
    desired_heading, first_contact, lemma_step_updates_each, lemma_update_agents,
    lemma_update_avoids_walls, lemma_update_carrying, lemma_update_heading_range, normalized,
    pool_before, steered_heading, step_spec, toggles, update_agents, walled_in, Ant, AntSwarm,
    SwarmModel, World,
};
use crate::config::{check_config, config_error, Config, ConfigError};
use crate::consts::{FREE_SLOT, PI};
use crate::functions::{center_spec, initialize_ants, valid_pos};
use crate::grid::{centered_grid, GridModel, GridResource, WorldGrid};
use crate::pheromones::{
    decay_rounds, decay_slot, fresh_marker, lemma_deposit_keeps_active,
    lemma_fresh_marker_decays, lifetime, valid_slot, FieldModel, Pheromone, PheromoneField,
};
use crate::random::{draw_at, initial_heading_spec, rng_words, seed_generator, seeded_words};
use rand_xoshiro::Xoshiro256Plus;

verus! {

/// The grid of a new simulation: the standard layout, with the nest block
/// in the middle of the grid.
pub open spec fn initial_grid(width: i64, height: i64, config: Config) -> GridModel {
    centered_grid(width, height, config.cell_size)
}

/// The swarm of a new simulation: every agent at the centre of the world,
/// foraging, with a heading drawn from a generator seeded with `seed`.
pub open spec fn initial_swarm(
    width: i64,
    height: i64,
    agent_count: usize,
    seed: u64,
    config: Config,
) -> SwarmModel {
    SwarmModel {
        ants: Seq::new(
            agent_count as nat,
            |i: int|
                Ant {
                    x: center_spec(width, height).0,
                    y: center_spec(width, height).1,
                    dir: initial_heading_spec(draw_at(seeded_words(seed), i as nat)) as i64,
                    has_food: false,
                },
        ),
        config,
        timer: config.pheromone_deposit_interval,
    }
}

/// The marker pool of a new simulation: every slot free.
pub open spec fn initial_field(config: Config) -> FieldModel {
    FieldModel {
        slots: Seq::new(
            config.pool_capacity as nat,
            |i: int| Pheromone { x: FREE_SLOT, y: FREE_SLOT, strength: FREE_SLOT, dir: 0 },
        ),
        decay_rate: config.pheromone_decay_rate,
    }
}

/// Sets up a simulation: the grid, the swarm and the marker pool. Fails
/// where the dimensions, the number of agents or the parameters do not make
/// one.
pub fn init(
    width: i64,
    height: i64,
    agent_count: usize,
    seed: u64,
    config: Config,
) -> (made: Result<(WorldGrid, AntSwarm, PheromoneField), ConfigError>)
    ensures
        match made {
            Ok((grid, swarm, field)) => {
                &&& config_error(width, height, agent_count, config) is None
                &&& grid.wf()
                &&& swarm.wf()
                &&& field.wf()
                &&& grid@ == initial_grid(width, height, config)
                &&& swarm@ == initial_swarm(width, height, agent_count, seed, config)
                &&& field@ == initial_field(config)
            },
            Err(e) => config_error(width, height, agent_count, config) == Some(e),
        },
{
    match check_config(width, height, agent_count, &config) {
        Some(e) => {
            return Err(e);
        },
        None => {},
    }
    let grid = WorldGrid::centered(width, height, config.cell_size);
    let (ants, dirs, has_food) = initialize_ants(width, height, agent_count, seed);
    let swarm = AntSwarm::new(ants, dirs, has_food, config).unwrap();
    let field = PheromoneField::new(config.pool_capacity, config.pheromone_decay_rate);
    assert(swarm@.ants =~= initial_swarm(width, height, agent_count, seed, config).ants);
    assert(field@.slots =~= initial_field(config).slots);
    Ok((grid, swarm, field))
}

/// The world after one tick: every agent updated, then the markers decayed.
pub open spec fn tick_spec(grid: GridModel, w: World) -> World {
    let stepped = step_spec(grid, w);
    World { swarm: stepped.swarm, field: stepped.field.decay(), words: stepped.words }
}

/// The world after `n` ticks.
pub open spec fn ticks_spec(grid: GridModel, w: World, n: nat) -> World
    decreases n,
{
    if n == 0 {
        w
    } else {
        tick_spec(grid, ticks_spec(grid, w, (n - 1) as nat))
    }
}

/// A tick keeps a well-formed world well formed, and keeps the number of
/// agents and of slots.
pub proof fn lemma_tick_wf(grid: GridModel, w: World)
    requires
        grid.wf(),
        w.wf(),
    ensures
        tick_spec(grid, w).wf(),
        tick_spec(grid, w).swarm.ants.len() == w.swarm.ants.len(),
        tick_spec(grid, w).field.slots.len() == w.field.slots.len(),
        tick_spec(grid, w).field.decay_rate == w.field.decay_rate,
        tick_spec(grid, w).swarm.config == w.swarm.config,
        tick_spec(grid, w).swarm == step_spec(grid, w).swarm,
{
    let n = w.swarm.ants.len();
    lemma_update_agents(grid, w, w.swarm.deposits_due(), n);
    let u = update_agents(grid, w, w.swarm.deposits_due(), n);
    let stepped = step_spec(grid, w);
    assert forall|k: int| 0 <= k < stepped.swarm.ants.len() implies valid_pos(
        #[trigger] stepped.swarm.ants[k].pos(),
    ) by {
        assert(valid_pos(u.swarm.ants[k].pos()));
    }
    let decayed = stepped.field.decay();
    assert forall|k: int| 0 <= k < decayed.slots.len() implies valid_slot(
        #[trigger] decayed.slots[k],
    ) by {
        assert(valid_slot(stepped.field.slots[k]));
    }
}

/// In a tick no agent moves into a wall: after it each agent is where it
/// was, or on a cell that is no wall, or all four of its candidate steps met
/// walls.
pub proof fn lemma_tick_avoids_walls(grid: GridModel, w: World, i: int)
    requires
        grid.wf(),
        w.wf(),
        0 <= i < w.swarm.ants.len(),
    ensures
        ({
            let ant = w.swarm.ants[i];
            let out = tick_spec(grid, w).swarm.ants[i];
            ||| out.pos() == ant.pos()
            ||| grid.resource_at(out.pos()) != GridResource::Wall
            ||| walled_in(
                grid,
                ant.pos(),
                normalized(ant),
                desired_heading(
                    grid,
                    pool_before(grid, w, i as nat),
                    w.swarm.config,
                    ant,
                    draw_at(w.words, i as nat),
                ),
                w.swarm.config.walk_speed,
                0,
            )
        }),
{
    lemma_step_updates_each(grid, w, i);
    lemma_update_avoids_walls(
        grid,
        pool_before(grid, w, i as nat),
        w.swarm.config,
        w.swarm.ants[i],
        draw_at(w.words, i as nat),
    );
}

/// In a tick an agent changes what it carries exactly where the first of
/// its candidate steps that meets no wall meets food while it carries none,
/// or the nest while it carries some.
pub proof fn lemma_tick_carrying(grid: GridModel, w: World, i: int)
    requires
        grid.wf(),
        w.wf(),
        0 <= i < w.swarm.ants.len(),
    ensures
        ({
            let ant = w.swarm.ants[i];
            let out = tick_spec(grid, w).swarm.ants[i];
            let contact = first_contact(
                grid,
                ant.pos(),
                normalized(ant),
                desired_heading(
                    grid,
                    pool_before(grid, w, i as nat),
                    w.swarm.config,
                    ant,
                    draw_at(w.words, i as nat),
                ),
                w.swarm.config.walk_speed,
                0,
            );
            out.has_food != ant.has_food <==> toggles(contact, ant.has_food)
        }),
{
    lemma_step_updates_each(grid, w, i);
    lemma_update_carrying(
        grid,
        pool_before(grid, w, i as nat),
        w.swarm.config,
        w.swarm.ants[i],
        draw_at(w.words, i as nat),
    );
}

/// After a tick the heading of an agent lies in `(-PI, PI]`, but for the
/// ticks in which its update leaves it at a heading outside that range.
pub proof fn lemma_tick_heading_range(grid: GridModel, w: World, i: int)
    requires
        grid.wf(),
        w.wf(),
        0 <= i < w.swarm.ants.len(),
        ({
            let ant = w.swarm.ants[i];
            let out = tick_spec(grid, w).swarm.ants[i];
            let h = normalized(ant);
            let desired = desired_heading(
                grid,
                pool_before(grid, w, i as nat),
                w.swarm.config,
                ant,
                draw_at(w.words, i as nat),
            );
            &&& out.dir == desired ==> -PI < desired <= PI
            &&& out.dir == -h ==> h < PI
            &&& out.dir == PI - h ==> h >= 0
            &&& out.dir == h + PI ==> h <= 0
        }),
    ensures
        -PI < tick_spec(grid, w).swarm.ants[i].dir <= PI,
{
    lemma_step_updates_each(grid, w, i);
    lemma_update_heading_range(
        grid,
        pool_before(grid, w, i as nat),
        w.swarm.config,
        w.swarm.ants[i],
        draw_at(w.words, i as nat),
    );
}

/// The updates of the agents leave every active marker as it is: deposits
/// go to free slots only.
pub proof fn lemma_updates_keep_markers(grid: GridModel, w: World, deposits: bool, n: nat, j: int)
    requires
        grid.wf(),
        w.wf(),
        n <= w.swarm.ants.len(),
        0 <= j < w.field.slots.len(),
        w.field.slots[j].strength > 0,
    ensures
        update_agents(grid, w, deposits, n).field.slots.len() == w.field.slots.len(),
        update_agents(grid, w, deposits, n).field.slots[j] == w.field.slots[j],
    decreases n,
{
    if n > 0 {
        let m = (n - 1) as nat;
        lemma_updates_keep_markers(grid, w, deposits, m, j);
        lemma_update_agents(grid, w, deposits, m);
        let before = update_agents(grid, w, deposits, m);
        let ant = before.swarm.ants[m as int];
        if ant.has_food && deposits {
            let steered = steered_heading(
                grid,
                before.field.slots,
                before.swarm.config,
                ant.pos(),
                normalized(ant),
                true,
            );
            lemma_deposit_keeps_active(before.field.slots, ant.pos(), (steered + PI) as i64, j);
        }
    }
}

/// In a tick every marker that is active when the tick starts decays once,
/// whatever the agents deposit.
pub proof fn lemma_tick_decays_markers(grid: GridModel, w: World, j: int)
    requires
        grid.wf(),
        w.wf(),
        0 <= j < w.field.slots.len(),
        w.field.slots[j].strength > 0,
    ensures
        tick_spec(grid, w).field.slots[j] == decay_slot(w.field.slots[j], w.field.decay_rate),
{
    let n = w.swarm.ants.len();
    lemma_updates_keep_markers(grid, w, w.swarm.deposits_due(), n, j);
    lemma_update_agents(grid, w, w.swarm.deposits_due(), n);
}

/// The countdown after `n` ticks of a simulation that starts with the
/// countdown at the deposit interval: the interval less the ticks made since
/// markers were last due.
pub proof fn lemma_countdown(grid: GridModel, w: World, n: nat)
    requires
        grid.wf(),
        w.wf(),
        w.swarm.timer == w.swarm.config.pheromone_deposit_interval,
    ensures
        ticks_spec(grid, w, n).wf(),
        ticks_spec(grid, w, n).swarm.config == w.swarm.config,
        ticks_spec(grid, w, n).swarm.timer == w.swarm.config.pheromone_deposit_interval - n % (
        w.swarm.config.pheromone_deposit_interval as nat),
    decreases n,
{
    let k = w.swarm.config.pheromone_deposit_interval as int;
    if n > 0 {
        let m = (n - 1) as nat;
        lemma_countdown(grid, w, m);
        let before = ticks_spec(grid, w, m);
        lemma_tick_wf(grid, before);
        lemma_update_agents(grid, before, before.swarm.deposits_due(), before.swarm.ants.len());
        assert(ticks_spec(grid, w, n).swarm.timer == before.swarm.next_timer());
        lemma_mod_step(m as int, k);
    }
}

/// The remainder of the successor: one more, or zero where the divisor is
/// reached.
proof fn lemma_mod_step(m: int, k: int)
    requires
        0 <= m,
        0 < k,
    ensures
        (m + 1) % k == if m % k == k - 1 { 0 } else { m % k + 1 },
{
    vstd::arithmetic::div_mod::lemma_fundamental_div_mod(m, k);
    vstd::arithmetic::div_mod::lemma_mod_pos_bound(m, k);
    let q = m / k;
    let r = m % k;
    if r == k - 1 {
        assert(m + 1 == (q + 1) * k + 0) by (nonlinear_arith)
            requires
                m == k * q + r,
                r == k - 1,
        ;
        vstd::arithmetic::div_mod::lemma_fundamental_div_mod_converse(m + 1, k, q + 1, 0);
    } else {
        assert(m + 1 == q * k + (r + 1)) by (nonlinear_arith)
            requires
                m == k * q + r,
        ;
        vstd::arithmetic::div_mod::lemma_fundamental_div_mod_converse(m + 1, k, q, r + 1);
    }
}

/// Markers are due in every tick whose number is a multiple of the deposit
/// interval, and in no other: in the tick after `n` ticks they are due
/// exactly where the interval divides `n + 1`.
pub proof fn lemma_deposits_every_interval(grid: GridModel, w: World, n: nat)
    requires
        grid.wf(),
        w.wf(),
        w.swarm.timer == w.swarm.config.pheromone_deposit_interval,
    ensures
        ticks_spec(grid, w, n).swarm.deposits_due() <==> (n + 1) % (
        w.swarm.config.pheromone_deposit_interval as nat) == 0,
{
    let k = w.swarm.config.pheromone_deposit_interval as int;
    lemma_countdown(grid, w, n);
    lemma_mod_step(n as int, k);
    vstd::arithmetic::div_mod::lemma_mod_pos_bound(n as int, k);
}

/// A marker that is fresh when a run of ticks starts loses the decay rate in
/// every tick, and its slot is free at the end of the tick that completes
/// its lifetime: after `n` ticks, for `n` up to the lifetime, the slot is
/// what `n` rounds of decay make of the fresh marker.
pub proof fn lemma_marker_through_ticks(
    grid: GridModel,
    w: World,
    j: int,
    pos: (i64, i64),
    dir: i64,
    n: nat,
)
    requires
        grid.wf(),
        w.wf(),
        0 <= j < w.field.slots.len(),
        w.field.slots[j] == fresh_marker(pos, dir),
        0 < w.field.decay_rate,
        n <= lifetime(w.field.decay_rate),
    ensures
        ticks_spec(grid, w, n).wf(),
        ticks_spec(grid, w, n).field.decay_rate == w.field.decay_rate,
        ticks_spec(grid, w, n).field.slots.len() == w.field.slots.len(),
        ticks_spec(grid, w, n).field.slots[j] == decay_rounds(
            fresh_marker(pos, dir),
            w.field.decay_rate,
            n,
        ),
    decreases n,
{
    if n > 0 {
        let m = (n - 1) as nat;
        lemma_marker_through_ticks(grid, w, j, pos, dir, m);
        let before = ticks_spec(grid, w, m);
        lemma_tick_wf(grid, before);
        lemma_fresh_marker_decays(pos, dir, w.field.decay_rate, m);
        lemma_tick_decays_markers(grid, before, j);
    }
}

/// One tick: updates every agent, then lets the markers decay.
pub fn tick(
    grid: &WorldGrid,
    swarm: &mut AntSwarm,
    field: &mut PheromoneField,
    rng: &mut Xoshiro256Plus,
)
    requires
        grid.wf(),
        old(swarm).wf(),
        old(field).wf(),
    ensures
        final(swarm).wf(),
        final(field).wf(),
        (World { swarm: final(swarm)@, field: final(field)@, words: rng_words(*final(rng)) })
            == tick_spec(
            grid@,
            World { swarm: old(swarm)@, field: old(field)@, words: rng_words(*old(rng)) },
        ),
{
    swarm.step(grid, field, rng);
    field.decay();
}

/// Runs `n` ticks.
pub fn run_ticks(
    grid: &WorldGrid,
    swarm: &mut AntSwarm,
    field: &mut PheromoneField,
    rng: &mut Xoshiro256Plus,
    n: usize,
)
    requires
        grid.wf(),
        old(swarm).wf(),
        old(field).wf(),
    ensures
        final(swarm).wf(),
        final(field).wf(),
        (World { swarm: final(swarm)@, field: final(field)@, words: rng_words(*final(rng)) })
            == ticks_spec(
            grid@,
            World { swarm: old(swarm)@, field: old(field)@, words: rng_words(*old(rng)) },
            n as nat,
        ),
{
    let ghost start = World { swarm: swarm@, field: field@, words: rng_words(*rng) };
    let mut done: usize = 0;
    while done < n
        invariant
            done <= n,
            grid.wf(),
            swarm.wf(),
            field.wf(),
            (World { swarm: swarm@, field: field@, words: rng_words(*rng) }) == ticks_spec(
                grid@,
                start,
                done as nat,
            ),
        decreases n - done,
    {
        tick(grid, swarm, field, rng);
        done += 1;
    }
}

/// A generator seeded with `seed`.
pub fn tick_generator(seed: u64) -> (rng: Xoshiro256Plus)
    ensures
        rng_words(rng) == seeded_words(seed),
{
    seed_generator(seed)
}

/// The world that a simulation starts from, with a tick generator seeded
/// like the one that gave the headings.
pub open spec fn initial_world(
    width: i64,
    height: i64,
    agent_count: usize,
    seed: u64,
    config: Config,
) -> World {
    World {
        swarm: initial_swarm(width, height, agent_count, seed, config),
        field: initial_field(config),
        words: seeded_words(seed),
    }
}

/// Sets up a simulation and runs `ticks` ticks of it.
pub fn simulate(
    width: i64,
    height: i64,
    agent_count: usize,
    seed: u64,
    config: Config,
    ticks: usize,
) -> (run: Result<(WorldGrid, AntSwarm, PheromoneField), ConfigError>)
    ensures
        match run {
            Ok((grid, swarm, field)) => {
                &&& config_error(width, height, agent_count, config) is None
                &&& grid.wf()
                &&& swarm.wf()
                &&& field.wf()
                &&& grid@ == initial_grid(width, height, config)
                &&& swarm@ == ticks_spec(
                    grid@,
                    initial_world(width, height, agent_count, seed, config),
                    ticks as nat,
                ).swarm
                &&& field@ == ticks_spec(
                    grid@,
                    initial_world(width, height, agent_count, seed, config),
                    ticks as nat,
                ).field
            },
            Err(e) => config_error(width, height, agent_count, config) == Some(e),
        },
{
    match init(width, height, agent_count, seed, config) {
        Ok((grid, mut swarm, mut field)) => {
            let mut rng = tick_generator(seed);
            run_ticks(&grid, &mut swarm, &mut field, &mut rng, ticks);
            Ok((grid, swarm, field))
        },
        Err(e) => Err(e),
    }
}

/// Two simulations set up with the same values are in the same state after
/// the same number of ticks: agents, markers and generator alike.
pub proof fn lemma_same_seed_same_run(
    width: i64,
    height: i64,
    agent_count: usize,
    seed_a: u64,
    seed_b: u64,
    config_a: Config,
    config_b: Config,
    n: nat,
)
    requires
        seed_a == seed_b,
        config_a == config_b,
    ensures
        initial_grid(width, height, config_a) == initial_grid(width, height, config_b),
        ticks_spec(
            initial_grid(width, height, config_a),
            initial_world(width, height, agent_count, seed_a, config_a),
            n,
        ) == ticks_spec(
            initial_grid(width, height, config_b),
            initial_world(width, height, agent_count, seed_b, config_b),
            n,
        ),
{
}

} // verus!
