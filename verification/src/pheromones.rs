//! The pool of scent markers: a fixed number of slots that deposits fill,
//! foraging agents sense and decay frees.

use vstd::prelude::*;
use crate::consts::{FREE_SLOT, FULL_STRENGTH, MAX_ANGLE, MAX_PARAM};
use crate::functions::{add_pheromone, is_within_radius, valid_pos, within_radius};

verus! {

/// One slot of the marker pool: a scent marker, or a free slot.
#[derive(Clone, Copy, Debug, PartialEq, Eq, Structural)]
pub struct Pheromone {
    /// Where the marker lies; `FREE_SLOT` in a free slot.
    pub x: i64,
    pub y: i64,
    /// How strong the scent is: positive in an active marker, `FREE_SLOT`
    /// in a free slot.
    pub strength: i64,
    /// The heading that an agent following the marker takes.
    pub dir: i64,
}

/// A marker as it is when just deposited.
pub open spec fn fresh_marker(pos: (i64, i64), dir: i64) -> Pheromone {
    Pheromone { x: pos.0, y: pos.1, strength: FULL_STRENGTH, dir }
}

/// A slot after it has been freed: off the grid, with the free strength. The
/// direction is left as it was.
pub open spec fn freed(m: Pheromone) -> Pheromone {
    Pheromone { x: FREE_SLOT, y: FREE_SLOT, strength: FREE_SLOT, dir: m.dir }
}

/// A slot that the pool can hold: either free and off the grid, or a marker
/// with a positive strength of at most `FULL_STRENGTH`, at a position and
/// with a direction within the representable ranges.
pub open spec fn valid_slot(m: Pheromone) -> bool {
    &&& valid_pos((m.x, m.y))
    &&& -MAX_ANGLE <= m.dir <= MAX_ANGLE
    &&& m.strength <= FULL_STRENGTH
    &&& m.strength > 0 || (m.strength == FREE_SLOT && m.x == FREE_SLOT && m.y == FREE_SLOT)
}

/// Whether `i` is the lowest index of a slot that a deposit can take: one
/// whose strength is not positive.
pub open spec fn is_first_free(slots: Seq<Pheromone>, i: int) -> bool {
    &&& 0 <= i < slots.len()
    &&& slots[i].strength <= 0
    &&& forall|j: int| 0 <= j < i ==> slots[j].strength > 0
}

/// Whether some slot can take a deposit.
pub open spec fn has_free(slots: Seq<Pheromone>) -> bool {
    exists|i: int| 0 <= i < slots.len() && slots[i].strength <= 0
}

/// The lowest index of a slot that can take a deposit, or the number of
/// slots where none can.
pub open spec fn first_free(slots: Seq<Pheromone>) -> int {
    if exists|i: int| is_first_free(slots, i) {
        choose|i: int| is_first_free(slots, i)
    } else {
        slots.len() as int
    }
}

/// The pool after a deposit: the first free slot holds the fresh marker; a
/// pool without a free slot is unchanged.
pub open spec fn deposit_spec(slots: Seq<Pheromone>, pos: (i64, i64), dir: i64) -> Seq<Pheromone> {
    if first_free(slots) < slots.len() {
        slots.update(first_free(slots), fresh_marker(pos, dir))
    } else {
        slots
    }
}

/// An index that is the first free one is the value of `first_free`.
pub proof fn lemma_first_free_is(slots: Seq<Pheromone>, i: int)
    requires
        is_first_free(slots, i),
    ensures
        first_free(slots) == i,
        has_free(slots),
{
    let c = choose|c: int| is_first_free(slots, c);
    assert(is_first_free(slots, c));
    if c < i {
        assert(slots[c].strength > 0);
    }
    if i < c {
        assert(slots[i].strength > 0);
    }
}

/// Where every slot holds an active marker, `first_free` is the number of
/// slots.
pub proof fn lemma_first_free_none(slots: Seq<Pheromone>)
    requires
        forall|j: int| 0 <= j < slots.len() ==> slots[j].strength > 0,
    ensures
        first_free(slots) == slots.len(),
        !has_free(slots),
{
    if exists|i: int| is_first_free(slots, i) {
        let c = choose|c: int| is_first_free(slots, c);
        assert(slots[c].strength > 0);
    }
}

/// `first_free` is an index of a free slot exactly where the pool has one.
pub proof fn lemma_first_free_range(slots: Seq<Pheromone>)
    ensures
        0 <= first_free(slots) <= slots.len(),
        first_free(slots) < slots.len() <==> has_free(slots),
        first_free(slots) < slots.len() ==> is_first_free(slots, first_free(slots)),
    decreases slots.len(),
{
    if exists|i: int| is_first_free(slots, i) {
        let c = choose|c: int| is_first_free(slots, c);
        assert(is_first_free(slots, c));
    } else {
        if has_free(slots) {
            let w = choose|w: int| 0 <= w < slots.len() && slots[w].strength <= 0;
            lemma_least_free(slots, w);
        }
    }
}

/// Below any free slot there is a first free one.
proof fn lemma_least_free(slots: Seq<Pheromone>, w: int)
    requires
        0 <= w < slots.len(),
        slots[w].strength <= 0,
    ensures
        exists|i: int| is_first_free(slots, i),
    decreases w,
{
    if forall|j: int| 0 <= j < w ==> slots[j].strength > 0 {
        assert(is_first_free(slots, w));
    } else {
        let j = choose|j: int| 0 <= j < w && !(slots[j].strength > 0);
        lemma_least_free(slots, j);
    }
}

/// One slot after one round of decay. A slot above the free strength loses
/// `delta`; where that leaves nothing, the slot is freed.
pub open spec fn decay_slot(m: Pheromone, delta: i64) -> Pheromone {
    if m.strength > FREE_SLOT {
        if m.strength - delta <= 0 {
            freed(m)
        } else {
            Pheromone { x: m.x, y: m.y, strength: (m.strength - delta) as i64, dir: m.dir }
        }
    } else {
        m
    }
}

/// The pool after one round of decay.
pub open spec fn decay_all(slots: Seq<Pheromone>, delta: i64) -> Seq<Pheromone> {
    Seq::new(slots.len(), |i: int| decay_slot(slots[i], delta))
}

/// One slot after `n` rounds of decay.
pub open spec fn decay_rounds(m: Pheromone, delta: i64, n: nat) -> Pheromone
    decreases n,
{
    if n == 0 {
        m
    } else {
        decay_slot(decay_rounds(m, delta, (n - 1) as nat), delta)
    }
}

/// The pool after `n` rounds of decay.
pub open spec fn decay_all_rounds(slots: Seq<Pheromone>, delta: i64, n: nat) -> Seq<Pheromone>
    decreases n,
{
    if n == 0 {
        slots
    } else {
        decay_all(decay_all_rounds(slots, delta, (n - 1) as nat), delta)
    }
}

/// The number of rounds of decay that a fresh marker lasts: one whole
/// strength divided by the decay rate, rounded up.
pub open spec fn lifetime(delta: i64) -> int {
    (FULL_STRENGTH + delta - 1) / (delta as int)
}

/// A fresh marker loses the decay rate in every round while it is active,
/// and is free after `lifetime` rounds and ever after.
pub proof fn lemma_fresh_marker_decays(pos: (i64, i64), dir: i64, delta: i64, n: nat)
    requires
        0 < delta,
    ensures
        n < lifetime(delta) ==> decay_rounds(fresh_marker(pos, dir), delta, n) == (Pheromone {
            x: pos.0,
            y: pos.1,
            strength: (FULL_STRENGTH - n * delta) as i64,
            dir,
        }),
        n < lifetime(delta) ==> 0 < FULL_STRENGTH - n * delta <= FULL_STRENGTH,
        n >= lifetime(delta) ==> decay_rounds(fresh_marker(pos, dir), delta, n) == freed(
            fresh_marker(pos, dir),
        ),
        lifetime(delta) >= 1,
    decreases n,
{
    let d = delta as int;
    let full = FULL_STRENGTH as int;
    let life = lifetime(delta);
    vstd::arithmetic::div_mod::lemma_fundamental_div_mod(full + d - 1, d);
    vstd::arithmetic::div_mod::lemma_mod_pos_bound(full + d - 1, d);
    assert(d * life <= full + d - 1);
    assert(d * life > full - 1);
    assert(life >= 1) by (nonlinear_arith)
        requires
            d * life > full - 1,
            full == 1_000_000,
            d > 0,
    ;
    if n == 0 {
    } else {
        let m = (n - 1) as nat;
        lemma_fresh_marker_decays(pos, dir, delta, m);
        let prev = decay_rounds(fresh_marker(pos, dir), delta, m);
        if n < life {
            assert(n * d < full) by (nonlinear_arith)
                requires
                    n < life,
                    d * life <= full + d - 1,
                    d > 0,
            ;
            assert(m * d == n * d - d) by (nonlinear_arith)
                requires
                    m == n - 1,
            ;
            assert(0 <= n * d) by (nonlinear_arith)
                requires
                    0 <= n,
                    0 < d,
            ;
        } else if n == life {
            assert(n * d >= full) by (nonlinear_arith)
                requires
                    n == life,
                    d * life > full - 1,
            ;
            assert(m * d == n * d - d) by (nonlinear_arith)
                requires
                    m == n - 1,
            ;
            assert(0 <= m * d) by (nonlinear_arith)
                requires
                    0 <= m,
                    0 < d,
            ;
        } else {
        }
    }
}

/// In the pool every slot decays by itself.
pub proof fn lemma_pool_decays_by_slot(slots: Seq<Pheromone>, delta: i64, n: nat, i: int)
    requires
        0 <= i < slots.len(),
    ensures
        decay_all_rounds(slots, delta, n).len() == slots.len(),
        decay_all_rounds(slots, delta, n)[i] == decay_rounds(slots[i], delta, n),
    decreases n,
{
    if n > 0 {
        lemma_pool_decays_by_slot(slots, delta, (n - 1) as nat, i);
    }
}

/// A slot that is not active can be taken by the next deposit: the pool has
/// a free slot, the first free one is no later than this one, and after the
/// deposit it holds the fresh marker.
pub proof fn lemma_inactive_slot_reusable(slots: Seq<Pheromone>, i: int, pos: (i64, i64), dir: i64)
    requires
        0 <= i < slots.len(),
        slots[i].strength <= 0,
    ensures
        has_free(slots),
        0 <= first_free(slots) <= i,
        deposit_spec(slots, pos, dir) == slots.update(first_free(slots), fresh_marker(pos, dir)),
        (forall|j: int| 0 <= j < i ==> slots[j].strength > 0) ==> deposit_spec(slots, pos, dir)[i]
            == fresh_marker(pos, dir),
{
    lemma_first_free_range(slots);
    let f = first_free(slots);
    assert(is_first_free(slots, f));
    if i < f {
        assert(slots[i].strength > 0);
    }
    if forall|j: int| 0 <= j < i ==> slots[j].strength > 0 {
        lemma_first_free_is(slots, i);
    }
}

/// A deposit into a pool whose slots all hold active markers changes
/// nothing.
pub proof fn lemma_full_pool_unchanged(slots: Seq<Pheromone>, pos: (i64, i64), dir: i64)
    requires
        forall|j: int| 0 <= j < slots.len() ==> slots[j].strength > 0,
    ensures
        !has_free(slots),
        deposit_spec(slots, pos, dir) == slots,
{
    lemma_first_free_none(slots);
}

/// A deposit leaves every active marker as it is.
pub proof fn lemma_deposit_keeps_active(slots: Seq<Pheromone>, pos: (i64, i64), dir: i64, j: int)
    requires
        0 <= j < slots.len(),
        slots[j].strength > 0,
    ensures
        deposit_spec(slots, pos, dir).len() == slots.len(),
        deposit_spec(slots, pos, dir)[j] == slots[j],
{
    lemma_first_free_range(slots);
}

/// Whether an agent at `pos` senses the marker: it is active and lies within
/// `radius`.
pub open spec fn senses(m: Pheromone, pos: (i64, i64), radius: i64) -> bool {
    m.strength > 0 && within_radius(pos, (m.x, m.y), radius)
}

/// Whether slot `i` is the one an agent at `pos` follows: it is sensed, no
/// sensed marker is stronger, and none before it is as strong.
pub open spec fn is_strongest(slots: Seq<Pheromone>, pos: (i64, i64), radius: i64, i: int) -> bool {
    &&& 0 <= i < slots.len()
    &&& senses(slots[i], pos, radius)
    &&& forall|j: int|
        0 <= j < slots.len() && senses(#[trigger] slots[j], pos, radius) ==> slots[j].strength
            <= slots[i].strength
    &&& forall|j: int|
        0 <= j < i && senses(#[trigger] slots[j], pos, radius) ==> slots[j].strength
            < slots[i].strength
}

/// Whether an agent at `pos` senses any marker of the pool.
pub open spec fn senses_any(slots: Seq<Pheromone>, pos: (i64, i64), radius: i64) -> bool {
    exists|i: int| 0 <= i < slots.len() && senses(#[trigger] slots[i], pos, radius)
}

/// The direction and strength of the marker that an agent at `pos` follows,
/// if it senses one.
pub open spec fn strongest_within_spec(
    slots: Seq<Pheromone>,
    pos: (i64, i64),
    radius: i64,
) -> Option<(i64, i64)> {
    if senses_any(slots, pos, radius) {
        let i = choose|i: int| is_strongest(slots, pos, radius, i);
        Some((slots[i].dir, slots[i].strength))
    } else {
        None
    }
}

/// Two slots that are both the strongest are the same slot.
pub proof fn lemma_strongest_unique(
    slots: Seq<Pheromone>,
    pos: (i64, i64),
    radius: i64,
    i: int,
    k: int,
)
    requires
        is_strongest(slots, pos, radius, i),
        is_strongest(slots, pos, radius, k),
    ensures
        i == k,
{
    if i < k {
        assert(slots[i].strength < slots[k].strength);
        assert(slots[k].strength <= slots[i].strength);
    }
    if k < i {
        assert(slots[k].strength < slots[i].strength);
        assert(slots[i].strength <= slots[k].strength);
    }
}

/// The markers that are active, in slot order.
pub open spec fn active_of(slots: Seq<Pheromone>) -> Seq<Pheromone> {
    slots.filter(|m: Pheromone| m.strength > 0)
}

/// The pool of scent markers.
pub struct PheromoneField {
    slots: Vec<Pheromone>,
    decay_rate: i64,
}

/// A marker pool as a mathematical value.
pub struct FieldModel {
    pub slots: Seq<Pheromone>,
    pub decay_rate: i64,
}

impl FieldModel {
    /// Every slot is valid and the decay rate is within its range.
    pub open spec fn wf(self) -> bool {
        &&& 0 <= self.decay_rate <= MAX_PARAM
        &&& forall|i: int| 0 <= i < self.slots.len() ==> valid_slot(#[trigger] self.slots[i])
    }

    /// The pool after a deposit.
    pub open spec fn deposit(self, pos: (i64, i64), dir: i64) -> FieldModel {
        FieldModel { slots: deposit_spec(self.slots, pos, dir), decay_rate: self.decay_rate }
    }

    /// The pool after one round of decay.
    pub open spec fn decay(self) -> FieldModel {
        FieldModel { slots: decay_all(self.slots, self.decay_rate), decay_rate: self.decay_rate }
    }
}

impl View for PheromoneField {
    type V = FieldModel;

    closed spec fn view(&self) -> FieldModel {
        FieldModel { slots: self.slots@, decay_rate: self.decay_rate }
    }
}

impl PheromoneField {
    /// The pool is well formed.
    pub open spec fn wf(&self) -> bool {
        self@.wf()
    }

    /// A pool of `capacity` free slots.
    pub fn new(capacity: usize, decay_rate: i64) -> (field: PheromoneField)
        requires
            0 <= decay_rate <= MAX_PARAM,
        ensures
            field.wf(),
            field@.decay_rate == decay_rate,
            field@.slots.len() == capacity,
            forall|i: int|
                0 <= i < capacity ==> #[trigger] field@.slots[i] == (Pheromone {
                    x: FREE_SLOT,
                    y: FREE_SLOT,
                    strength: FREE_SLOT,
                    dir: 0,
                }),
    {
        let mut slots: Vec<Pheromone> = Vec::new();
        let mut i: usize = 0;
        while i < capacity
            invariant
                i <= capacity,
                slots@.len() == i,
                forall|k: int|
                    0 <= k < i ==> #[trigger] slots@[k] == (Pheromone {
                        x: FREE_SLOT,
                        y: FREE_SLOT,
                        strength: FREE_SLOT,
                        dir: 0,
                    }),
            decreases capacity - i,
        {
            slots.push(Pheromone { x: FREE_SLOT, y: FREE_SLOT, strength: FREE_SLOT, dir: 0 });
            i += 1;
        }
        PheromoneField { slots, decay_rate }
    }

    /// The number of slots.
    pub fn capacity(&self) -> (n: usize)
        ensures
            n == self@.slots.len(),
    {
        self.slots.len()
    }

    /// What is subtracted from every active marker in a round of decay.
    pub fn decay_rate(&self) -> (d: i64)
        ensures
            d == self@.decay_rate,
    {
        self.decay_rate
    }

    /// The slots, free ones included.
    pub fn slots(&self) -> (s: &Vec<Pheromone>)
        ensures
            s@ == self@.slots,
    {
        &self.slots
    }

    /// Deposits a fresh marker in the first free slot. Where the pool has no
    /// free slot the deposit is dropped: the pool stays as it is and the
    /// result is `false`.
    pub fn add_pheromone(&mut self, pos: (i64, i64), dir: i64) -> (stored: bool)
        requires
            old(self).wf(),
            valid_pos(pos),
            -MAX_ANGLE <= dir <= MAX_ANGLE,
        ensures
            final(self).wf(),
            final(self)@ == old(self)@.deposit(pos, dir),
            stored == has_free(old(self)@.slots),
    {
        proof {
            lemma_first_free_range(self.slots@);
        }
        let stored = add_pheromone(&mut self.slots, pos, dir);
        proof {
            let before = old(self)@.slots;
            assert(valid_slot(fresh_marker(pos, dir)));
            assert forall|i: int| 0 <= i < self@.slots.len() implies valid_slot(
                #[trigger] self@.slots[i],
            ) by {
                assert(valid_slot(before[i]));
            }
        }
        stored
    }

    /// One round of decay over every slot.
    pub fn decay(&mut self)
        requires
            old(self).wf(),
        ensures
            final(self).wf(),
            final(self)@ == old(self)@.decay(),
    {
        let n = self.slots.len();
        let delta = self.decay_rate;
        let mut i: usize = 0;
        while i < n
            invariant
                i <= n,
                n == self.slots@.len(),
                n == old(self)@.slots.len(),
                self.decay_rate == delta,
                delta == old(self)@.decay_rate,
                0 <= delta <= MAX_PARAM,
                forall|k: int|
                    0 <= k < i ==> self.slots@[k] == decay_slot(old(self)@.slots[k], delta),
                forall|k: int| i <= k < n ==> self.slots@[k] == old(self)@.slots[k],
                forall|k: int| 0 <= k < n ==> valid_slot(#[trigger] self.slots@[k]),
                forall|k: int| 0 <= k < n ==> valid_slot(#[trigger] old(self)@.slots[k]),
            decreases n - i,
        {
            let m = self.slots[i];
            assert(valid_slot(self.slots@[i as int]));
            if m.strength > FREE_SLOT {
                let left: i64 = m.strength - delta;
                if left <= 0 {
                    self.slots.set(
                        i,
                        Pheromone { x: FREE_SLOT, y: FREE_SLOT, strength: FREE_SLOT, dir: m.dir },
                    );
                } else {
                    self.slots.set(i, Pheromone { x: m.x, y: m.y, strength: left, dir: m.dir });
                }
            }
            i += 1;
        }
        assert(self.slots@ =~= decay_all(old(self)@.slots, delta));
    }

    /// The direction and strength of the strongest active marker within
    /// `radius` of `pos`; among equally strong ones, of the one in the
    /// lowest slot. `None` where no active marker is that near.
    pub fn strongest_within(&self, pos: (i64, i64), radius: i64) -> (found: Option<(i64, i64)>)
        requires
            self.wf(),
            valid_pos(pos),
        ensures
            found == strongest_within_spec(self@.slots, pos, radius),
            found is Some <==> senses_any(self@.slots, pos, radius),
            found is Some ==> exists|i: int|
                is_strongest(self@.slots, pos, radius, i) && found == Some(
                    (self@.slots[i].dir, self@.slots[i].strength),
                ),
    {
        let n = self.slots.len();
        let mut best: Option<usize> = None;
        let mut best_strength: i64 = 0;
        let mut i: usize = 0;
        while i < n
            invariant
                i <= n,
                n == self.slots@.len(),
                self.wf(),
                valid_pos(pos),
                best is None ==> best_strength == 0,
                best is None ==> forall|j: int|
                    0 <= j < i ==> !senses(#[trigger] self.slots@[j], pos, radius),
                best is Some ==> {
                    &&& best->0 < i
                    &&& senses(self.slots@[best->0 as int], pos, radius)
                    &&& best_strength == self.slots@[best->0 as int].strength
                    &&& forall|j: int|
                        0 <= j < i && senses(#[trigger] self.slots@[j], pos, radius)
                            ==> self.slots@[j].strength <= best_strength
                    &&& forall|j: int|
                        0 <= j < best->0 && senses(#[trigger] self.slots@[j], pos, radius)
                            ==> self.slots@[j].strength < best_strength
                },
            decreases n - i,
        {
            let m = self.slots[i];
            assert(valid_slot(self@.slots[i as int]));
            if m.strength > best_strength && is_within_radius(pos, (m.x, m.y), radius) {
                best = Some(i);
                best_strength = m.strength;
            }
            i += 1;
        }
        match best {
            None => {
                None
            },
            Some(b) => {
                proof {
                    let slots = self.slots@;
                    assert(is_strongest(slots, pos, radius, b as int));
                    let c = choose|c: int| is_strongest(slots, pos, radius, c);
                    lemma_strongest_unique(slots, pos, radius, b as int, c);
                }
                Some((self.slots[b].dir, best_strength))
            },
        }
    }

    /// The active markers, in slot order.
    pub fn active_markers(&self) -> (markers: Vec<Pheromone>)
        ensures
            markers@ == active_of(self@.slots),
    {
        let n = self.slots.len();
        let ghost pred = |m: Pheromone| m.strength > 0;
        let mut markers: Vec<Pheromone> = Vec::new();
        let mut i: usize = 0;
        proof {
            reveal(Seq::filter);
            assert(self.slots@.take(0) =~= Seq::<Pheromone>::empty());
        }
        while i < n
            invariant
                i <= n,
                n == self.slots@.len(),
                pred == |m: Pheromone| m.strength > 0,
                markers@ == self.slots@.take(i as int).filter(pred),
            decreases n - i,
        {
            let m = self.slots[i];
            proof {
                reveal(Seq::filter);
                let next = self.slots@.take(i as int + 1);
                assert(next.drop_last() =~= self.slots@.take(i as int));
                assert(next.last() == m);
            }
            if m.strength > 0 {
                markers.push(m);
            }
            i += 1;
        }
        assert(self.slots@.take(n as int) =~= self.slots@);
        markers
    }
}

} // verus!
