//! The agents: the update of one agent for one tick, and the swarm that
//! updates every agent in turn.
//!
//! An update normalises the heading, steers it (home for a carrying agent,
//! along a sensed marker for a foraging one), turns it by a random amount,
//! and resolves the step against the grid by trying up to four headings.

use vstd::prelude::*;
use crate::angles::{
    abs_int, cos_spec, lemma_scaled_product_bounds, lemma_trig_bounds, normalize_heading,
    scale_product, scaled_product, sin_spec, wrap_angle,
};
use crate::config::Config;
use crate::consts::{MAX_COORD, MAX_PARAM, PI};
use crate::functions::{dir_to_nest_spec, next_ant_position, next_ant_position_spec, valid_pos};
use crate::grid::{GridModel, GridResource, WorldGrid};
use crate::pheromones::{deposit_spec, strongest_within_spec, FieldModel, Pheromone, PheromoneField};
use crate::random::{
    draw_at, lemma_wander_noise_bounds, next_draw, rng_words, wander_noise, wander_noise_spec,
    words_after, xoshiro_step,
};
use rand_xoshiro::Xoshiro256Plus;

verus! {

/// One agent: where it is, where it is heading, and whether it carries food.
#[derive(Clone, Copy, Debug, PartialEq, Eq, Structural)]
pub struct Ant {
    /// Where the agent is.
    pub x: i64,
    pub y: i64,
    /// The heading of the agent, as its last update left it.
    pub dir: i64,
    /// Whether the agent carries food: it is returning if so, and foraging
    /// if not.
    pub has_food: bool,
}

impl Ant {
    /// The position of the agent.
    pub open spec fn pos(self) -> (i64, i64) {
        (self.x, self.y)
    }
}

/// The heading that a carrying agent turns to: from `h` toward the nest
/// bearing, by the share `homing` of the difference.
pub open spec fn homing_heading(h: i64, to_nest: int, homing: i64) -> int {
    h + scaled_product(to_nest - h, homing as int)
}

/// The heading that an agent with normalised heading `h` steers by, before
/// the random turn. A carrying agent homes; a foraging agent takes the
/// direction of the marker it follows, and keeps its heading where it senses
/// none.
pub open spec fn steered_heading(
    grid: GridModel,
    slots: Seq<Pheromone>,
    config: Config,
    pos: (i64, i64),
    h: i64,
    has_food: bool,
) -> int {
    if has_food {
        homing_heading(
            h,
            dir_to_nest_spec(pos, grid.nest_coords, grid.cell_size),
            config.homing_strength,
        )
    } else {
        match strongest_within_spec(slots, pos, config.pheromone_sensor_radius) {
            Some(found) => found.0 as int,
            None => h as int,
        }
    }
}

/// The `k`-th heading that an update tries: the desired one, then the
/// current heading mirrored in the horizontal axis, then mirrored in the
/// vertical axis, then reversed.
pub open spec fn candidate_heading(k: int, h: i64, desired: i64) -> int {
    if k == 0 {
        desired as int
    } else if k == 1 {
        -h
    } else if k == 2 {
        PI - h
    } else {
        h + PI
    }
}

/// What the `k`-th candidate step of an agent at `pos` resolves to.
pub open spec fn candidate_kind(
    grid: GridModel,
    pos: (i64, i64),
    h: i64,
    desired: i64,
    speed: i64,
    k: int,
) -> GridResource {
    grid.resource_at(next_ant_position_spec(pos, candidate_heading(k, h, desired) as i64, speed))
}

/// An agent that has just picked up or dropped food turns around: it takes
/// the reversed step where that leads to a blank cell, and else stays where
/// it is with the heading it had.
pub open spec fn turned_around(
    grid: GridModel,
    pos: (i64, i64),
    h: i64,
    speed: i64,
    has_food: bool,
) -> Ant {
    let back = (h + PI) as i64;
    let target = next_ant_position_spec(pos, back, speed);
    if grid.resource_at(target) == GridResource::Blank {
        Ant { x: target.0, y: target.1, dir: back, has_food }
    } else {
        Ant { x: pos.0, y: pos.1, dir: h, has_food }
    }
}

/// Whether a contact with a cell of this kind changes what the agent
/// carries: food is picked up by an agent that carries none, and dropped at
/// the nest by one that carries some.
pub open spec fn toggles(kind: GridResource, has_food: bool) -> bool {
    (kind == GridResource::Food && !has_food) || (kind == GridResource::Nest && has_food)
}

/// The agent after a candidate step with heading `cand` that resolved to
/// `kind`, which is no wall.
pub open spec fn accepted(
    grid: GridModel,
    pos: (i64, i64),
    h: i64,
    speed: i64,
    has_food: bool,
    cand: i64,
    kind: GridResource,
) -> Ant {
    if toggles(kind, has_food) {
        turned_around(grid, pos, h, speed, !has_food)
    } else {
        let target = next_ant_position_spec(pos, cand, speed);
        Ant { x: target.0, y: target.1, dir: cand, has_food }
    }
}

/// The agent after the candidates from the `k`-th on have been tried in
/// turn. The first that resolves to no wall is accepted; where all resolve
/// to walls the last one is taken all the same.
pub open spec fn resolve_from(
    grid: GridModel,
    pos: (i64, i64),
    h: i64,
    desired: i64,
    speed: i64,
    has_food: bool,
    k: int,
) -> Ant
    decreases 4 - k,
{
    let cand = candidate_heading(k, h, desired) as i64;
    let target = next_ant_position_spec(pos, cand, speed);
    let kind = grid.resource_at(target);
    if kind != GridResource::Wall {
        accepted(grid, pos, h, speed, has_food, cand, kind)
    } else if k >= 3 {
        Ant { x: target.0, y: target.1, dir: cand, has_food }
    } else {
        resolve_from(grid, pos, h, desired, speed, has_food, k + 1)
    }
}

/// The heading of the agent, brought into `(-PI, PI]`.
pub open spec fn normalized(ant: Ant) -> i64 {
    wrap_angle(ant.dir as int) as i64
}

/// The heading that the agent wants to take: the one it steers by, turned by
/// the noise of `draw`.
pub open spec fn desired_heading(
    grid: GridModel,
    slots: Seq<Pheromone>,
    config: Config,
    ant: Ant,
    draw: u32,
) -> i64 {
    (steered_heading(grid, slots, config, ant.pos(), normalized(ant), ant.has_food)
        + wander_noise_spec(draw, config.wander_coefficient)) as i64
}

/// The agent after its update: its heading normalised, steered and turned
/// by the noise of `draw`, and its step resolved against the grid.
pub open spec fn ant_after(
    grid: GridModel,
    slots: Seq<Pheromone>,
    config: Config,
    ant: Ant,
    draw: u32,
) -> Ant {
    resolve_from(
        grid,
        ant.pos(),
        normalized(ant),
        desired_heading(grid, slots, config, ant, draw),
        config.walk_speed,
        ant.has_food,
        0,
    )
}

/// The marker pool after the update of one agent. A carrying agent deposits
/// a marker where it stands, in a tick in which markers are due; the marker
/// points away from the heading the agent steers by.
pub open spec fn slots_after(
    grid: GridModel,
    slots: Seq<Pheromone>,
    config: Config,
    deposits: bool,
    ant: Ant,
) -> Seq<Pheromone> {
    if ant.has_food && deposits {
        let steered = steered_heading(grid, slots, config, ant.pos(), normalized(ant), true);
        deposit_spec(slots, ant.pos(), (steered + PI) as i64)
    } else {
        slots
    }
}

/// The heading a carrying agent turns to stays small.
pub proof fn lemma_homing_bounds(h: i64, to_nest: int, homing: i64)
    requires
        -PI < h <= PI,
        -PI <= to_nest <= PI,
        -MAX_PARAM <= homing <= MAX_PARAM,
    ensures
        -7_000_000_000 <= scaled_product(to_nest - h, homing as int) <= 7_000_000_000,
        -8_000_000_000 <= homing_heading(h, to_nest, homing) <= 8_000_000_000,
{
    let a = to_nest - h;
    let b = homing as int;
    assert(-7_000_000_000_000_000 <= a * b <= 7_000_000_000_000_000) by (nonlinear_arith)
        requires
            -7_000_000 <= a <= 7_000_000,
            -1_000_000_000 <= b <= 1_000_000_000,
    ;
}

/// Resolves the step of an agent at `pos` with normalised heading `h` that
/// wants to head for `desired`.
pub fn resolve_step(
    grid: &WorldGrid,
    pos: (i64, i64),
    h: i64,
    desired: i64,
    speed: i64,
    has_food: bool,
) -> (out: Ant)
    requires
        grid.wf(),
        valid_pos(pos),
        -PI < h <= PI,
    ensures
        out == resolve_from(grid@, pos, h, desired, speed, has_food, 0),
        valid_pos(out.pos()),
{
    let mut k: u8 = 0;
    loop
        invariant
            grid.wf(),
            valid_pos(pos),
            -PI < h <= PI,
            0 <= k <= 3,
            resolve_from(grid@, pos, h, desired, speed, has_food, 0) == resolve_from(
                grid@,
                pos,
                h,
                desired,
                speed,
                has_food,
                k as int,
            ),
        decreases 4 - k,
    {
        let cand: i64 = if k == 0 {
            desired
        } else if k == 1 {
            -h
        } else if k == 2 {
            PI - h
        } else {
            h + PI
        };
        let target = next_ant_position(pos, cand, speed);
        let kind = grid.get_resource_at_position(target);
        match kind {
            GridResource::Wall => {
                if k >= 3 {
                    return Ant { x: target.0, y: target.1, dir: cand, has_food };
                }
                k += 1;
            },
            GridResource::Blank => {
                return Ant { x: target.0, y: target.1, dir: cand, has_food };
            },
            GridResource::Food => {
                if has_food {
                    return Ant { x: target.0, y: target.1, dir: cand, has_food };
                }
                return turn_around(grid, pos, h, speed, true);
            },
            GridResource::Nest => {
                if !has_food {
                    return Ant { x: target.0, y: target.1, dir: cand, has_food };
                }
                return turn_around(grid, pos, h, speed, false);
            },
        }
    }
}

/// Turns an agent around after it has picked up or dropped food.
pub fn turn_around(
    grid: &WorldGrid,
    pos: (i64, i64),
    h: i64,
    speed: i64,
    has_food: bool,
) -> (out: Ant)
    requires
        grid.wf(),
        valid_pos(pos),
        -PI < h <= PI,
    ensures
        out == turned_around(grid@, pos, h, speed, has_food),
        valid_pos(out.pos()),
{
    let back: i64 = h + PI;
    let target = next_ant_position(pos, back, speed);
    match grid.get_resource_at_position(target) {
        GridResource::Blank => Ant { x: target.0, y: target.1, dir: back, has_food },
        _ => Ant { x: pos.0, y: pos.1, dir: h, has_food },
    }
}

/// Updates one agent for one tick. `deposits` tells whether markers are due
/// in this tick, `draw` is the agent's random draw.
pub fn update_ant(
    grid: &WorldGrid,
    field: &mut PheromoneField,
    config: &Config,
    deposits: bool,
    ant: Ant,
    draw: u32,
) -> (out: Ant)
    requires
        grid.wf(),
        old(field).wf(),
        config.valid(),
        valid_pos(ant.pos()),
    ensures
        final(field).wf(),
        out == ant_after(grid@, old(field)@.slots, *config, ant, draw),
        final(field)@ == (FieldModel {
            slots: slots_after(grid@, old(field)@.slots, *config, deposits, ant),
            decay_rate: old(field)@.decay_rate,
        }),
        valid_pos(out.pos()),
{
    let h = normalize_heading(ant.dir);
    let pos = (ant.x, ant.y);
    let steered: i64 = if ant.has_food {
        let to_nest = grid.dir_to_nest(pos);
        proof {
            lemma_homing_bounds(h, to_nest as int, config.homing_strength);
        }
        let turn: i128 = scale_product(to_nest - h, config.homing_strength);
        let homing: i64 = h + (turn as i64);
        if deposits {
            field.add_pheromone(pos, homing + PI);
        }
        homing
    } else {
        let ghost slots = field@.slots;
        match field.strongest_within(pos, config.pheromone_sensor_radius) {
            Some(found) => {
                proof {
                    let i = choose|i: int|
                        crate::pheromones::is_strongest(
                            slots,
                            pos,
                            config.pheromone_sensor_radius,
                            i,
                        ) && Some(found) == Some((slots[i].dir, slots[i].strength));
                    assert(crate::pheromones::valid_slot(slots[i]));
                }
                found.0
            },
            None => h,
        }
    };
    proof {
        lemma_wander_noise_bounds(draw, config.wander_coefficient);
    }
    let desired: i64 = steered + wander_noise(draw, config.wander_coefficient);
    resolve_step(grid, pos, h, desired, config.walk_speed, ant.has_food)
}

/// What the first candidate step from the `k`-th on that meets no wall
/// resolves to; a wall where all of them meet one.
pub open spec fn first_contact(
    grid: GridModel,
    pos: (i64, i64),
    h: i64,
    desired: i64,
    speed: i64,
    k: int,
) -> GridResource
    decreases 4 - k,
{
    let kind = candidate_kind(grid, pos, h, desired, speed, k);
    if kind != GridResource::Wall || k >= 3 {
        kind
    } else {
        first_contact(grid, pos, h, desired, speed, k + 1)
    }
}

/// Whether every candidate step from the `k`-th on meets a wall.
pub open spec fn walled_in(
    grid: GridModel,
    pos: (i64, i64),
    h: i64,
    desired: i64,
    speed: i64,
    k: int,
) -> bool {
    forall|j: int|
        k <= j <= 3 ==> candidate_kind(grid, pos, h, desired, speed, j) == GridResource::Wall
}

/// A resolved step never ends in a wall cell it was not in already, unless
/// every candidate met a wall: the agent stays where it is, or ends on what
/// is no wall, or was walled in.
pub proof fn lemma_resolve_avoids_walls(
    grid: GridModel,
    pos: (i64, i64),
    h: i64,
    desired: i64,
    speed: i64,
    has_food: bool,
    k: int,
)
    requires
        0 <= k <= 3,
    ensures
        ({
            let out = resolve_from(grid, pos, h, desired, speed, has_food, k);
            ||| out.pos() == pos
            ||| grid.resource_at(out.pos()) != GridResource::Wall
            ||| walled_in(grid, pos, h, desired, speed, k)
        }),
        walled_in(grid, pos, h, desired, speed, k) ==> resolve_from(
            grid,
            pos,
            h,
            desired,
            speed,
            has_food,
            k,
        ) == (Ant {
            x: next_ant_position_spec(pos, (h + PI) as i64, speed).0,
            y: next_ant_position_spec(pos, (h + PI) as i64, speed).1,
            dir: (h + PI) as i64,
            has_food,
        }),
    decreases 4 - k,
{
    let kind = candidate_kind(grid, pos, h, desired, speed, k);
    if kind == GridResource::Wall && k < 3 {
        lemma_resolve_avoids_walls(grid, pos, h, desired, speed, has_food, k + 1);
        if walled_in(grid, pos, h, desired, speed, k + 1) {
            assert forall|j: int| k <= j <= 3 implies candidate_kind(
                grid,
                pos,
                h,
                desired,
                speed,
                j,
            ) == GridResource::Wall by {
                if j > k {
                    assert(candidate_kind(grid, pos, h, desired, speed, j) == GridResource::Wall);
                }
            }
        }
    } else if kind != GridResource::Wall {
        assert(!walled_in(grid, pos, h, desired, speed, k));
    }
}

/// A resolved step changes what the agent carries exactly where its first
/// contact is food while it carries none, or the nest while it carries
/// some. Any other contact leaves it as it was.
pub proof fn lemma_resolve_carrying(
    grid: GridModel,
    pos: (i64, i64),
    h: i64,
    desired: i64,
    speed: i64,
    has_food: bool,
    k: int,
)
    requires
        0 <= k <= 3,
    ensures
        resolve_from(grid, pos, h, desired, speed, has_food, k).has_food == (if toggles(
            first_contact(grid, pos, h, desired, speed, k),
            has_food,
        ) {
            !has_food
        } else {
            has_food
        }),
    decreases 4 - k,
{
    let kind = candidate_kind(grid, pos, h, desired, speed, k);
    if kind == GridResource::Wall && k < 3 {
        lemma_resolve_carrying(grid, pos, h, desired, speed, has_food, k + 1);
    }
}

/// The heading that a resolved step leaves is the desired one, one of the
/// three reflections of the heading it started from, or that heading itself.
pub proof fn lemma_resolve_heading(
    grid: GridModel,
    pos: (i64, i64),
    h: i64,
    desired: i64,
    speed: i64,
    has_food: bool,
    k: int,
)
    requires
        0 <= k <= 3,
        -PI < h <= PI,
    ensures
        ({
            let out = resolve_from(grid, pos, h, desired, speed, has_food, k);
            ||| out.dir == desired
            ||| out.dir == -h
            ||| out.dir == PI - h
            ||| out.dir == h + PI
            ||| out.dir == h
        }),
    decreases 4 - k,
{
    let kind = candidate_kind(grid, pos, h, desired, speed, k);
    if kind == GridResource::Wall && k < 3 {
        lemma_resolve_heading(grid, pos, h, desired, speed, has_food, k + 1);
    }
}

/// A resolved step moves an agent by no more than the walk speed along
/// either axis.
pub proof fn lemma_resolve_moves_one_step(
    grid: GridModel,
    pos: (i64, i64),
    h: i64,
    desired: i64,
    speed: i64,
    has_food: bool,
    k: int,
)
    requires
        valid_pos(pos),
        0 <= k <= 3,
    ensures
        ({
            let out = resolve_from(grid, pos, h, desired, speed, has_food, k);
            &&& -abs_int(speed as int) <= out.x - pos.0 <= abs_int(speed as int)
            &&& -abs_int(speed as int) <= out.y - pos.1 <= abs_int(speed as int)
        }),
    decreases 4 - k,
{
    let cand = candidate_heading(k, h, desired) as i64;
    let back = (h + PI) as i64;
    lemma_step_length(pos, cand, speed);
    lemma_step_length(pos, back, speed);
    let kind = grid.resource_at(next_ant_position_spec(pos, cand, speed));
    if kind == GridResource::Wall && k < 3 {
        lemma_resolve_moves_one_step(grid, pos, h, desired, speed, has_food, k + 1);
    }
}

/// One step from a representable position ends no further than the walk
/// speed away along either axis.
pub proof fn lemma_step_length(pos: (i64, i64), dir: i64, speed: i64)
    requires
        valid_pos(pos),
    ensures
        ({
            let next = next_ant_position_spec(pos, dir, speed);
            &&& -abs_int(speed as int) <= next.0 - pos.0 <= abs_int(speed as int)
            &&& -abs_int(speed as int) <= next.1 - pos.1 <= abs_int(speed as int)
        }),
{
    let c = cos_spec(dir as int);
    let n = sin_spec(dir as int);
    lemma_trig_bounds(dir as int);
    lemma_scaled_product_bounds(c, speed as int);
    lemma_scaled_product_bounds(n, speed as int);
}

/// An update moves an agent by no more than the walk speed along either
/// axis.
pub proof fn lemma_update_moves_one_step(
    grid: GridModel,
    slots: Seq<Pheromone>,
    config: Config,
    ant: Ant,
    draw: u32,
)
    requires
        valid_pos(ant.pos()),
    ensures
        ({
            let out = ant_after(grid, slots, config, ant, draw);
            let reach = abs_int(config.walk_speed as int);
            &&& -reach <= out.x - ant.x <= reach
            &&& -reach <= out.y - ant.y <= reach
        }),
{
    lemma_resolve_moves_one_step(
        grid,
        ant.pos(),
        normalized(ant),
        desired_heading(grid, slots, config, ant, draw),
        config.walk_speed,
        ant.has_food,
        0,
    );
}

/// An update never moves an agent into a wall: after it the agent is where
/// it was, or on a cell that is no wall, or all four of its candidate steps
/// met walls. In that last case it has taken the reversed step all the same.
pub proof fn lemma_update_avoids_walls(
    grid: GridModel,
    slots: Seq<Pheromone>,
    config: Config,
    ant: Ant,
    draw: u32,
)
    ensures
        ({
            let out = ant_after(grid, slots, config, ant, draw);
            let h = normalized(ant);
            let desired = desired_heading(grid, slots, config, ant, draw);
            let back = (h + PI) as i64;
            let behind = next_ant_position_spec(ant.pos(), back, config.walk_speed);
            &&& {
                ||| out.pos() == ant.pos()
                ||| grid.resource_at(out.pos()) != GridResource::Wall
                ||| walled_in(grid, ant.pos(), h, desired, config.walk_speed, 0)
            }
            &&& walled_in(grid, ant.pos(), h, desired, config.walk_speed, 0) ==> out == (Ant {
                x: behind.0,
                y: behind.1,
                dir: back,
                has_food: ant.has_food,
            })
        }),
{
    lemma_resolve_avoids_walls(
        grid,
        ant.pos(),
        normalized(ant),
        desired_heading(grid, slots, config, ant, draw),
        config.walk_speed,
        ant.has_food,
        0,
    );
}

/// An update changes what an agent carries exactly once for a contact that
/// qualifies: food met by an agent that carries none is picked up, food
/// carried to the nest is dropped. Meeting food again while carrying, or
/// the nest while carrying nothing, changes nothing.
pub proof fn lemma_update_carrying(
    grid: GridModel,
    slots: Seq<Pheromone>,
    config: Config,
    ant: Ant,
    draw: u32,
)
    ensures
        ({
            let out = ant_after(grid, slots, config, ant, draw);
            let contact = first_contact(
                grid,
                ant.pos(),
                normalized(ant),
                desired_heading(grid, slots, config, ant, draw),
                config.walk_speed,
                0,
            );
            &&& contact == GridResource::Food && !ant.has_food ==> out.has_food
            &&& contact == GridResource::Nest && ant.has_food ==> !out.has_food
            &&& contact == GridResource::Food && ant.has_food ==> out.has_food
            &&& contact == GridResource::Nest && !ant.has_food ==> !out.has_food
            &&& contact == GridResource::Blank || contact == GridResource::Wall ==> out.has_food
                == ant.has_food
        }),
{
    lemma_resolve_carrying(
        grid,
        ant.pos(),
        normalized(ant),
        desired_heading(grid, slots, config, ant, draw),
        config.walk_speed,
        ant.has_food,
        0,
    );
}

/// After an update the heading of an agent is the heading it wanted, or lies
/// within a turn and a half: between minus half a turn and a full turn.
pub proof fn lemma_update_heading_bounds(
    grid: GridModel,
    slots: Seq<Pheromone>,
    config: Config,
    ant: Ant,
    draw: u32,
)
    ensures
        -PI < normalized(ant) <= PI,
        ({
            let out = ant_after(grid, slots, config, ant, draw);
            ||| out.dir == desired_heading(grid, slots, config, ant, draw)
            ||| -PI <= out.dir <= 2 * PI
        }),
{
    lemma_resolve_heading(
        grid,
        ant.pos(),
        normalized(ant),
        desired_heading(grid, slots, config, ant, draw),
        config.walk_speed,
        ant.has_food,
        0,
    );
}

/// After an update the heading of an agent lies in `(-PI, PI]`, but for the
/// updates that leave it at a heading outside that range: a desired heading
/// outside it, the mirror image of half a turn, the vertical mirror image of
/// a negative heading, or the reverse of a positive one.
pub proof fn lemma_update_heading_range(
    grid: GridModel,
    slots: Seq<Pheromone>,
    config: Config,
    ant: Ant,
    draw: u32,
)
    requires
        ({
            let out = ant_after(grid, slots, config, ant, draw);
            let h = normalized(ant);
            let desired = desired_heading(grid, slots, config, ant, draw);
            &&& out.dir == desired ==> -PI < desired <= PI
            &&& out.dir == -h ==> h < PI
            &&& out.dir == PI - h ==> h >= 0
            &&& out.dir == h + PI ==> h <= 0
        }),
    ensures
        -PI < normalized(ant) <= PI,
        -PI < ant_after(grid, slots, config, ant, draw).dir <= PI,
{
    lemma_resolve_heading(
        grid,
        ant.pos(),
        normalized(ant),
        desired_heading(grid, slots, config, ant, draw),
        config.walk_speed,
        ant.has_food,
        0,
    );
}

/// The agents of a colony, with the parameters they move by and the
/// countdown to the next tick in which markers are due.
pub struct AntSwarm {
    ants: Vec<(i64, i64)>,
    dirs: Vec<i64>,
    has_food: Vec<bool>,
    config: Config,
    pheromone_timer: usize,
}

/// A swarm as a mathematical value.
pub struct SwarmModel {
    pub ants: Seq<Ant>,
    pub config: Config,
    pub timer: usize,
}

impl SwarmModel {
    /// The parameters are valid, the countdown is between one and the
    /// deposit interval, and every agent is at a representable position.
    pub open spec fn wf(self) -> bool {
        &&& self.config.valid()
        &&& 1 <= self.timer <= self.config.pheromone_deposit_interval
        &&& forall|i: int| 0 <= i < self.ants.len() ==> valid_pos(#[trigger] self.ants[i].pos())
    }

    /// Whether markers are due in the tick that starts from this state: the
    /// countdown reaches zero in it.
    pub open spec fn deposits_due(self) -> bool {
        self.timer == 1
    }

    /// The countdown after the tick.
    pub open spec fn next_timer(self) -> usize {
        if self.timer == 1 {
            self.config.pheromone_deposit_interval
        } else {
            (self.timer - 1) as usize
        }
    }
}

/// All that a tick changes: the swarm, the marker pool and the state of the
/// random generator.
pub struct World {
    pub swarm: SwarmModel,
    pub field: FieldModel,
    pub words: Seq<u64>,
}

impl World {
    /// The swarm and the marker pool are well formed.
    pub open spec fn wf(self) -> bool {
        self.swarm.wf() && self.field.wf()
    }
}

/// The world after the update of agent `i`, which takes the next draw of the
/// generator.
pub open spec fn update_agent(grid: GridModel, w: World, deposits: bool, i: int) -> World {
    let drawn = xoshiro_step(w.words);
    let ant = w.swarm.ants[i];
    World {
        swarm: SwarmModel {
            ants: w.swarm.ants.update(
                i,
                ant_after(grid, w.field.slots, w.swarm.config, ant, drawn.0),
            ),
            config: w.swarm.config,
            timer: w.swarm.timer,
        },
        field: FieldModel {
            slots: slots_after(grid, w.field.slots, w.swarm.config, deposits, ant),
            decay_rate: w.field.decay_rate,
        },
        words: drawn.1,
    }
}

/// The world after the updates of the first `n` agents, in index order.
pub open spec fn update_agents(grid: GridModel, w: World, deposits: bool, n: nat) -> World
    decreases n,
{
    if n == 0 {
        w
    } else {
        update_agent(grid, update_agents(grid, w, deposits, (n - 1) as nat), deposits, n - 1)
    }
}

/// The world after every agent has been updated once and the countdown has
/// moved on.
pub open spec fn step_spec(grid: GridModel, w: World) -> World {
    let u = update_agents(grid, w, w.swarm.deposits_due(), w.swarm.ants.len());
    World {
        swarm: SwarmModel {
            ants: u.swarm.ants,
            config: w.swarm.config,
            timer: w.swarm.next_timer(),
        },
        field: u.field,
        words: u.words,
    }
}

/// The update of an agent keeps the world well formed, and changes neither
/// the number of agents or slots nor the parameters.
pub proof fn lemma_update_agent_wf(grid: GridModel, w: World, deposits: bool, i: int)
    requires
        grid.wf(),
        w.wf(),
        0 <= i < w.swarm.ants.len(),
    ensures
        update_agent(grid, w, deposits, i).wf(),
        update_agent(grid, w, deposits, i).swarm.ants.len() == w.swarm.ants.len(),
        update_agent(grid, w, deposits, i).swarm.config == w.swarm.config,
        update_agent(grid, w, deposits, i).swarm.timer == w.swarm.timer,
        update_agent(grid, w, deposits, i).field.slots.len() == w.field.slots.len(),
        update_agent(grid, w, deposits, i).field.decay_rate == w.field.decay_rate,
{
    let drawn = xoshiro_step(w.words);
    let ant = w.swarm.ants[i];
    let config = w.swarm.config;
    assert(valid_pos(ant.pos()));
    lemma_ant_after_valid(grid, w.field.slots, config, ant, drawn.0);
    lemma_slots_after_valid(grid, w.field, config, deposits, ant);
    let after = update_agent(grid, w, deposits, i);
    assert forall|k: int| 0 <= k < after.swarm.ants.len() implies valid_pos(
        #[trigger] after.swarm.ants[k].pos(),
    ) by {
        if k != i {
            assert(valid_pos(w.swarm.ants[k].pos()));
        }
    }
}

/// An updated agent is at a representable position.
pub proof fn lemma_ant_after_valid(
    grid: GridModel,
    slots: Seq<Pheromone>,
    config: Config,
    ant: Ant,
    draw: u32,
)
    requires
        valid_pos(ant.pos()),
    ensures
        valid_pos(ant_after(grid, slots, config, ant, draw).pos()),
{
    lemma_resolve_valid(
        grid,
        ant.pos(),
        normalized(ant),
        desired_heading(grid, slots, config, ant, draw),
        config.walk_speed,
        ant.has_food,
        0,
    );
}

/// A resolved step ends at a representable position.
pub proof fn lemma_resolve_valid(
    grid: GridModel,
    pos: (i64, i64),
    h: i64,
    desired: i64,
    speed: i64,
    has_food: bool,
    k: int,
)
    requires
        valid_pos(pos),
        0 <= k <= 3,
    ensures
        valid_pos(resolve_from(grid, pos, h, desired, speed, has_food, k).pos()),
    decreases 4 - k,
{
    let cand = candidate_heading(k, h, desired) as i64;
    let target = next_ant_position_spec(pos, cand, speed);
    let kind = grid.resource_at(target);
    if kind == GridResource::Wall && k < 3 {
        lemma_resolve_valid(grid, pos, h, desired, speed, has_food, k + 1);
    }
}

/// The marker pool stays well formed under the update of an agent.
pub proof fn lemma_slots_after_valid(
    grid: GridModel,
    field: FieldModel,
    config: Config,
    deposits: bool,
    ant: Ant,
)
    requires
        grid.wf(),
        field.wf(),
        config.valid(),
        valid_pos(ant.pos()),
    ensures
        (FieldModel {
            slots: slots_after(grid, field.slots, config, deposits, ant),
            decay_rate: field.decay_rate,
        }).wf(),
        slots_after(grid, field.slots, config, deposits, ant).len() == field.slots.len(),
{
    let h = normalized(ant);
    let after = slots_after(grid, field.slots, config, deposits, ant);
    if ant.has_food && deposits {
        let to_nest = dir_to_nest_spec(ant.pos(), grid.nest_coords, grid.cell_size);
        crate::angles::lemma_bearing_range(
            grid.nest_coords.0 * grid.cell_size - ant.pos().0,
            grid.nest_coords.1 * grid.cell_size - ant.pos().1,
        );
        lemma_homing_bounds(h, to_nest, config.homing_strength);
        crate::pheromones::lemma_first_free_range(field.slots);
        assert forall|k: int| 0 <= k < after.len() implies crate::pheromones::valid_slot(
            #[trigger] after[k],
        ) by {
            assert(crate::pheromones::valid_slot(field.slots[k]));
        }
    }
}

/// The marker pool as agent `i` finds it in a tick: as the agents before it
/// have left it.
pub open spec fn pool_before(grid: GridModel, w: World, i: nat) -> Seq<Pheromone> {
    update_agents(grid, w, w.swarm.deposits_due(), i).field.slots
}

/// What the updates of the first `n` agents change and what they leave.
/// The world stays well formed; the generator has made `n` draws; the
/// agents from the `n`-th on are as they were; and each agent before is its
/// own update, made with the pool as the agents before it left it and with
/// the draw of its index.
pub proof fn lemma_update_agents(grid: GridModel, w: World, deposits: bool, n: nat)
    requires
        grid.wf(),
        w.wf(),
        n <= w.swarm.ants.len(),
    ensures
        ({
            let u = update_agents(grid, w, deposits, n);
            &&& u.wf()
            &&& u.swarm.ants.len() == w.swarm.ants.len()
            &&& u.swarm.config == w.swarm.config
            &&& u.swarm.timer == w.swarm.timer
            &&& u.field.slots.len() == w.field.slots.len()
            &&& u.field.decay_rate == w.field.decay_rate
            &&& u.words == words_after(w.words, n)
            &&& forall|j: int| n <= j < w.swarm.ants.len() ==> u.swarm.ants[j] == w.swarm.ants[j]
            &&& forall|j: int|
                0 <= j < n ==> #[trigger] u.swarm.ants[j] == ant_after(
                    grid,
                    update_agents(grid, w, deposits, j as nat).field.slots,
                    w.swarm.config,
                    w.swarm.ants[j],
                    draw_at(w.words, j as nat),
                )
        }),
    decreases n,
{
    if n > 0 {
        let m = (n - 1) as nat;
        lemma_update_agents(grid, w, deposits, m);
        let before = update_agents(grid, w, deposits, m);
        lemma_update_agent_wf(grid, before, deposits, m as int);
        let u = update_agents(grid, w, deposits, n);
        assert(u == update_agent(grid, before, deposits, m as int));
        assert forall|j: int| 0 <= j < n implies #[trigger] u.swarm.ants[j] == ant_after(
            grid,
            update_agents(grid, w, deposits, j as nat).field.slots,
            w.swarm.config,
            w.swarm.ants[j],
            draw_at(w.words, j as nat),
        ) by {
            if j < m {
                assert(u.swarm.ants[j] == before.swarm.ants[j]);
            }
        }
    }
}

/// After a step every agent is its own update: made from its state before
/// the step, with the pool as the agents before it left it, and with the
/// draw of its index.
pub proof fn lemma_step_updates_each(grid: GridModel, w: World, i: int)
    requires
        grid.wf(),
        w.wf(),
        0 <= i < w.swarm.ants.len(),
    ensures
        step_spec(grid, w).wf(),
        step_spec(grid, w).swarm.ants.len() == w.swarm.ants.len(),
        step_spec(grid, w).swarm.ants[i] == ant_after(
            grid,
            pool_before(grid, w, i as nat),
            w.swarm.config,
            w.swarm.ants[i],
            draw_at(w.words, i as nat),
        ),
{
    lemma_update_agents(grid, w, w.swarm.deposits_due(), w.swarm.ants.len());
    let u = update_agents(grid, w, w.swarm.deposits_due(), w.swarm.ants.len());
    let stepped = step_spec(grid, w);
    assert(stepped.swarm.ants == u.swarm.ants);
    assert forall|k: int| 0 <= k < stepped.swarm.ants.len() implies valid_pos(
        #[trigger] stepped.swarm.ants[k].pos(),
    ) by {
        assert(valid_pos(u.swarm.ants[k].pos()));
    }
}

impl View for AntSwarm {
    type V = SwarmModel;

    closed spec fn view(&self) -> SwarmModel {
        SwarmModel {
            ants: Seq::new(
                self.ants@.len(),
                |i: int|
                    Ant {
                        x: self.ants@[i].0,
                        y: self.ants@[i].1,
                        dir: self.dirs@[i],
                        has_food: self.has_food@[i],
                    },
            ),
            config: self.config,
            timer: self.pheromone_timer,
        }
    }
}

impl AntSwarm {
    /// The three vectors hold one entry for each agent.
    closed spec fn aligned(&self) -> bool {
        self.dirs@.len() == self.ants@.len() && self.has_food@.len() == self.ants@.len()
    }

    /// The swarm is well formed.
    pub closed spec fn wf(&self) -> bool {
        self.aligned() && self@.wf()
    }

    /// A well-formed swarm has a well-formed model.
    pub proof fn lemma_wf_model(&self)
        requires
            self.wf(),
        ensures
            self@.wf(),
    {
    }

    /// A swarm of the given agents, with the countdown at the deposit
    /// interval. `None` where the three vectors differ in length, a position
    /// is outside the representable range, or the parameters are invalid.
    pub fn new(
        ants: Vec<(i64, i64)>,
        dirs: Vec<i64>,
        has_food: Vec<bool>,
        config: Config,
    ) -> (swarm: Option<AntSwarm>)
        ensures
            swarm is Some <==> {
                &&& dirs@.len() == ants@.len()
                &&& has_food@.len() == ants@.len()
                &&& config.valid()
                &&& forall|i: int| 0 <= i < ants@.len() ==> valid_pos(#[trigger] ants@[i])
            },
            swarm is Some ==> {
                &&& swarm->0.wf()
                &&& swarm->0@.config == config
                &&& swarm->0@.timer == config.pheromone_deposit_interval
                &&& swarm->0@.ants.len() == ants@.len()
                &&& forall|i: int|
                    0 <= i < ants@.len() ==> #[trigger] swarm->0@.ants[i] == (Ant {
                        x: ants@[i].0,
                        y: ants@[i].1,
                        dir: dirs@[i],
                        has_food: has_food@[i],
                    })
            },
    {
        if dirs.len() != ants.len() || has_food.len() != ants.len() || !config.is_valid() {
            return None;
        }
        let n = ants.len();
        let mut i: usize = 0;
        while i < n
            invariant
                i <= n,
                n == ants@.len(),
                forall|k: int| 0 <= k < i ==> valid_pos(#[trigger] ants@[k]),
            decreases n - i,
        {
            let p = ants[i];
            if p.0 < -MAX_COORD || p.0 > MAX_COORD || p.1 < -MAX_COORD || p.1 > MAX_COORD {
                assert(!valid_pos(ants@[i as int]));
                return None;
            }
            i += 1;
        }
        let swarm = AntSwarm {
            ants,
            dirs,
            has_food,
            config,
            pheromone_timer: config.pheromone_deposit_interval,
        };
        assert forall|k: int| 0 <= k < swarm@.ants.len() implies valid_pos(
            #[trigger] swarm@.ants[k].pos(),
        ) by {
            assert(valid_pos(ants@[k]));
        }
        Some(swarm)
    }

    /// The number of agents.
    pub fn len(&self) -> (n: usize)
        requires
            self.wf(),
        ensures
            n == self@.ants.len(),
    {
        self.ants.len()
    }

    /// The parameters.
    pub fn config(&self) -> (c: Config)
        ensures
            c == self@.config,
    {
        self.config
    }

    /// The positions of the agents, in index order.
    pub fn positions(&self) -> (p: &Vec<(i64, i64)>)
        requires
            self.wf(),
        ensures
            p@.len() == self@.ants.len(),
            forall|i: int| 0 <= i < p@.len() ==> p@[i] == self@.ants[i].pos(),
    {
        &self.ants
    }

    /// The headings of the agents, in index order.
    pub fn headings(&self) -> (h: &Vec<i64>)
        requires
            self.wf(),
        ensures
            h@.len() == self@.ants.len(),
            forall|i: int| 0 <= i < h@.len() ==> h@[i] == self@.ants[i].dir,
    {
        &self.dirs
    }

    /// Whether each agent carries food, in index order.
    pub fn carrying(&self) -> (c: &Vec<bool>)
        requires
            self.wf(),
        ensures
            c@.len() == self@.ants.len(),
            forall|i: int| 0 <= i < c@.len() ==> c@[i] == self@.ants[i].has_food,
    {
        &self.has_food
    }

    /// Updates every agent once, in index order, each with the next draw of
    /// the generator, and moves the countdown on. Markers that an agent
    /// deposits are there for the agents after it.
    pub fn step(&mut self, grid: &WorldGrid, field: &mut PheromoneField, rng: &mut Xoshiro256Plus)
        requires
            old(self).wf(),
            grid.wf(),
            old(field).wf(),
        ensures
            final(self).wf(),
            final(field).wf(),
            (World { swarm: final(self)@, field: final(field)@, words: rng_words(*final(rng)) })
                == step_spec(
                grid@,
                World { swarm: old(self)@, field: old(field)@, words: rng_words(*old(rng)) },
            ),
    {
        let ghost start = World { swarm: self@, field: field@, words: rng_words(*rng) };
        let deposits = self.pheromone_timer == 1;
        let n = self.ants.len();
        let config = self.config;
        let mut i: usize = 0;
        assert(self@.ants =~= start.swarm.ants);
        while i < n
            invariant
                i <= n,
                n == self.ants@.len(),
                n == start.swarm.ants.len(),
                self.aligned(),
                grid.wf(),
                config == self.config,
                deposits == start.swarm.deposits_due(),
                start.wf(),
                self@.timer == start.swarm.timer,
                self@.config == start.swarm.config,
                (World { swarm: self@, field: field@, words: rng_words(*rng) }).wf(),
                (World { swarm: self@, field: field@, words: rng_words(*rng) }) == update_agents(
                    grid@,
                    start,
                    deposits,
                    i as nat,
                ),
            decreases n - i,
        {
            let ghost before = World { swarm: self@, field: field@, words: rng_words(*rng) };
            let draw = next_draw(rng);
            let ant = Ant {
                x: self.ants[i].0,
                y: self.ants[i].1,
                dir: self.dirs[i],
                has_food: self.has_food[i],
            };
            assert(ant == before.swarm.ants[i as int]);
            assert(valid_pos(before.swarm.ants[i as int].pos()));
            let out = update_ant(grid, field, &config, deposits, ant, draw);
            self.ants.set(i, (out.x, out.y));
            self.dirs.set(i, out.dir);
            self.has_food.set(i, out.has_food);
            proof {
                let after = update_agent(grid@, before, deposits, i as int);
                lemma_update_agent_wf(grid@, before, deposits, i as int);
                assert(self@.ants =~= after.swarm.ants);
                assert(field@ == after.field);
            }
            i += 1;
        }
        let ghost updated = self@;
        self.pheromone_timer = if deposits {
            config.pheromone_deposit_interval
        } else {
            self.pheromone_timer - 1
        };
        proof {
            assert(self@.ants =~= updated.ants);
            assert(updated.timer == start.swarm.timer);
            assert(updated.config == start.swarm.config);
            assert forall|k: int| 0 <= k < self@.ants.len() implies valid_pos(
                #[trigger] self@.ants[k].pos(),
            ) by {
                assert(valid_pos(updated.ants[k].pos()));
            }
        }
    }
}

} // verus!
