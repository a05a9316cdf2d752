use crate::creature::{Creature, MAX_LIFE};
use crate::genome::UNIT;
use crate::position::Position;
use vstd::prelude::*;

verus! {

/// Energy above which an organism may reproduce: 100 whole units.
pub const REPRODUCTION_THRESHOLD: u64 = 100 * UNIT;

/// A reproduction trial succeeds with probability `1 / REPRODUCTION_ODDS`.
pub const REPRODUCTION_ODDS: u64 = 100;

/// Food grows on every cell whose coordinates sum to a multiple of this.
pub const FOOD_PERIOD: i64 = 13;

pub open spec fn spec_plant_is_here(position: Position) -> bool {
    (position.x + position.y) % (FOOD_PERIOD as int) == 0
}

/// Whether food is present at `position`.
pub fn plant_is_here(position: Position) -> (r: bool)
    ensures
        r == spec_plant_is_here(position),
{
    let s: i64 = position.x as i64 + position.y as i64;
    match s.checked_rem_euclid(FOOD_PERIOD) {
        Some(m) => m == 0,
        None => false,
    }
}

/// Number of living organisms.
pub open spec fn alive_count(cs: Seq<Creature>) -> nat
    decreases cs.len(),
{
    if cs.len() == 0 {
        0
    } else {
        alive_count(cs.drop_last()) + if cs.last().alive() {
            1nat
        } else {
            0nat
        }
    }
}

/// The organisms at `position`, in order.
pub open spec fn creatures_at(cs: Seq<Creature>, position: Position) -> Seq<Creature>
    decreases cs.len(),
{
    if cs.len() == 0 {
        seq![]
    } else if cs.last().position == position {
        creatures_at(cs.drop_last(), position).push(cs.last())
    } else {
        creatures_at(cs.drop_last(), position)
    }
}

/// A population of one grid: organism `i` has id `i`, and every organism is
/// well formed and knows the grid's bounds.
pub open spec fn population_wf(cs: Seq<Creature>, bounds: Position) -> bool {
    forall|i: int|
        0 <= i < cs.len() ==> {
            &&& (#[trigger] cs[i]).wf()
            &&& cs[i].id == i
            &&& cs[i].world_bounds == bounds
        }
}

/// Every organism after its own tick, each with the food at its cell and
/// its own resolution of a random turn.
pub open spec fn stepped_all(cs: Seq<Creature>, turns: Seq<bool>) -> Seq<Creature> {
    Seq::new(cs.len(), |i: int| cs[i].stepped(spec_plant_is_here(cs[i].position), turns[i]))
}

/// Whether an organism reproduces when its trial came out `fired`.
pub open spec fn reproduces(c: Creature, fired: bool) -> bool {
    fired && c.life > REPRODUCTION_THRESHOLD && c.generation < u64::MAX
}

/// The offspring that the reproduction sweep materializes, in order, with
/// ids counted from `next_id`.
pub open spec fn offspring_of(cs: Seq<Creature>, births: Seq<bool>, next_id: int) -> Seq<Creature>
    decreases cs.len(),
{
    if cs.len() == 0 {
        seq![]
    } else {
        let prev = offspring_of(cs.drop_last(), births, next_id);
        if reproduces(cs.last(), births[cs.len() - 1]) {
            prev.push(cs.last().offspring((next_id + prev.len()) as u64))
        } else {
            prev
        }
    }
}

/// How many of `born` new organisms a population with `alive` living
/// organisms admits: each while the living count is below `cap`.
pub open spec fn admitted(alive: int, born: int, cap: int) -> int {
    if alive >= cap {
        0
    } else if born < cap - alive {
        born
    } else {
        cap - alive
    }
}

/// The population after one tick: every organism steps, the sweep
/// materializes offspring, and the first of them are admitted while the
/// living count is below the carrying capacity.
pub open spec fn ticked(cs: Seq<Creature>, cap: int, turns: Seq<bool>, births: Seq<bool>) -> Seq<
    Creature,
> {
    let s = stepped_all(cs, turns);
    let o = offspring_of(s, births, s.len() as int);
    s + o.take(admitted(alive_count(s) as int, o.len() as int, cap))
}

pub proof fn lemma_alive_count_append(a: Seq<Creature>, b: Seq<Creature>)
    ensures
        alive_count(a + b) == alive_count(a) + alive_count(b),
    decreases b.len(),
{
    if b.len() == 0 {
        assert(a + b =~= a);
    } else {
        lemma_alive_count_append(a, b.drop_last());
        assert((a + b).drop_last() =~= a + b.drop_last());
    }
}

proof fn lemma_alive_count_all(cs: Seq<Creature>)
    requires
        forall|i: int| 0 <= i < cs.len() ==> (#[trigger] cs[i]).alive(),
    ensures
        alive_count(cs) == cs.len(),
    decreases cs.len(),
{
    if cs.len() > 0 {
        lemma_alive_count_all(cs.drop_last());
    }
}

/// Where no organism is alive in `b` that is dead in `a`, `b` has no more
/// living organisms than `a`.
proof fn lemma_alive_count_mono(a: Seq<Creature>, b: Seq<Creature>)
    requires
        a.len() == b.len(),
        forall|i: int| 0 <= i < a.len() && (#[trigger] b[i]).alive() ==> a[i].alive(),
    ensures
        alive_count(b) <= alive_count(a),
    decreases a.len(),
{
    if a.len() > 0 {
        lemma_alive_count_mono(a.drop_last(), b.drop_last());
    }
}

pub proof fn lemma_stepped_alive_count(cs: Seq<Creature>, turns: Seq<bool>)
    requires
        turns.len() == cs.len(),
    ensures
        alive_count(stepped_all(cs, turns)) <= alive_count(cs),
{
    let s = stepped_all(cs, turns);
    assert forall|i: int| 0 <= i < cs.len() && (#[trigger] s[i]).alive() implies cs[i].alive() by {}
    lemma_alive_count_mono(cs, s);
}

proof fn lemma_offspring_shape(cs: Seq<Creature>, births: Seq<bool>, next_id: int, bounds: Position)
    requires
        births.len() >= cs.len(),
        forall|i: int|
            0 <= i < cs.len() ==> (#[trigger] cs[i]).wf() && cs[i].world_bounds == bounds,
    ensures
        offspring_of(cs, births, next_id).len() <= cs.len(),
        forall|j: int|
            0 <= j < offspring_of(cs, births, next_id).len() ==> {
                let o = #[trigger] offspring_of(cs, births, next_id)[j];
                &&& o.wf()
                &&& o.world_bounds == bounds
                &&& o.life == MAX_LIFE
                &&& o.id == (next_id + j) as u64
            },
    decreases cs.len(),
{
    if cs.len() > 0 {
        lemma_offspring_shape(cs.drop_last(), births, next_id, bounds);
    }
}

/// A tick keeps a population well formed: ids stay their indices, energy
/// stays within `[0, MAX_LIFE]`, and every position stays on the grid.
pub proof fn lemma_ticked_wf(
    cs: Seq<Creature>,
    cap: int,
    turns: Seq<bool>,
    births: Seq<bool>,
    bounds: Position,
)
    requires
        population_wf(cs, bounds),
        turns.len() == cs.len(),
        births.len() == cs.len(),
        ticked(cs, cap, turns, births).len() <= usize::MAX,
    ensures
        population_wf(ticked(cs, cap, turns, births), bounds),
{
    let s = stepped_all(cs, turns);
    let o = offspring_of(s, births, s.len() as int);
    assert forall|i: int| 0 <= i < s.len() implies (#[trigger] s[i]).wf() && s[i].id == i
        && s[i].world_bounds == bounds by {
        cs[i].lemma_stepped_wf(spec_plant_is_here(cs[i].position), turns[i]);
    }
    lemma_offspring_shape(s, births, s.len() as int, bounds);
    let k = admitted(alive_count(s) as int, o.len() as int, cap);
    let t = s + o.take(k);
    assert forall|i: int| 0 <= i < t.len() implies (#[trigger] t[i]).wf() && t[i].id == i
        && t[i].world_bounds == bounds by {
        if i >= s.len() {
            assert(t[i] == o[i - s.len()]);
        }
    }
}

/// A tick never raises the living count above the larger of its value
/// before the tick and the carrying capacity.
pub proof fn lemma_ticked_alive_count(
    cs: Seq<Creature>,
    cap: int,
    turns: Seq<bool>,
    births: Seq<bool>,
)
    requires
        turns.len() == cs.len(),
        births.len() == cs.len(),
    ensures
        alive_count(ticked(cs, cap, turns, births)) <= alive_count(cs) || alive_count(
            ticked(cs, cap, turns, births),
        ) <= cap,
{
    let s = stepped_all(cs, turns);
    let o = offspring_of(s, births, s.len() as int);
    let k = admitted(alive_count(s) as int, o.len() as int, cap);
    lemma_stepped_alive_count(cs, turns);
    lemma_offspring_alive(s, births, s.len() as int);
    let taken = o.take(k);
    assert forall|j: int| 0 <= j < taken.len() implies (#[trigger] taken[j]).alive() by {
        assert(taken[j] == o[j]);
    }
    lemma_alive_count_all(taken);
    lemma_alive_count_append(s, taken);
}

proof fn lemma_offspring_alive(cs: Seq<Creature>, births: Seq<bool>, next_id: int)
    ensures
        offspring_of(cs, births, next_id).len() <= cs.len(),
        forall|j: int|
            0 <= j < offspring_of(cs, births, next_id).len() ==> (#[trigger] offspring_of(
                cs,
                births,
                next_id,
            )[j]).life == MAX_LIFE,
    decreases cs.len(),
{
    if cs.len() > 0 {
        lemma_offspring_alive(cs.drop_last(), births, next_id);
    }
}

/// Through every tick, every organism's energy stays within
/// `[0, MAX_LIFE]`, that is within 255 whole units.
pub proof fn lemma_life_stays_bounded(
    cs: Seq<Creature>,
    cap: int,
    turns: Seq<bool>,
    births: Seq<bool>,
    bounds: Position,
)
    requires
        population_wf(cs, bounds),
        turns.len() == cs.len(),
        births.len() == cs.len(),
        ticked(cs, cap, turns, births).len() <= usize::MAX,
    ensures
        forall|i: int|
            0 <= i < ticked(cs, cap, turns, births).len() ==> 0 <= (#[trigger] ticked(
                cs,
                cap,
                turns,
                births,
            )[i]).life <= MAX_LIFE,
{
    lemma_ticked_wf(cs, cap, turns, births, bounds);
    let t = ticked(cs, cap, turns, births);
    assert forall|i: int| 0 <= i < t.len() implies 0 <= (#[trigger] t[i]).life <= MAX_LIFE by {
        assert(t[i].wf());
    }
}

/// Through every tick, every organism stays on the grid:
/// `0 <= x < width` and `0 <= y < height`.
pub proof fn lemma_positions_stay_on_grid(
    cs: Seq<Creature>,
    cap: int,
    turns: Seq<bool>,
    births: Seq<bool>,
    bounds: Position,
)
    requires
        population_wf(cs, bounds),
        turns.len() == cs.len(),
        births.len() == cs.len(),
        ticked(cs, cap, turns, births).len() <= usize::MAX,
    ensures
        forall|i: int|
            0 <= i < ticked(cs, cap, turns, births).len() ==> (#[trigger] ticked(
                cs,
                cap,
                turns,
                births,
            )[i]).position.in_bounds(bounds.x as int, bounds.y as int),
{
    lemma_ticked_wf(cs, cap, turns, births, bounds);
    let t = ticked(cs, cap, turns, births);
    assert forall|i: int| 0 <= i < t.len() implies (#[trigger] t[i]).position.in_bounds(
        bounds.x as int,
        bounds.y as int,
    ) by {
        assert(t[i].wf());
    }
}

/// A tick keeps every dead organism in its place, unchanged: no field of it
/// moves, and organisms are never removed.
pub proof fn lemma_dead_stay_frozen(cs: Seq<Creature>, cap: int, turns: Seq<bool>, births: Seq<bool>)
    requires
        turns.len() == cs.len(),
    ensures
        ticked(cs, cap, turns, births).len() >= cs.len(),
        forall|i: int|
            0 <= i < cs.len() && !(#[trigger] cs[i]).alive() ==> ticked(cs, cap, turns, births)[i]
                == cs[i],
{
    let s = stepped_all(cs, turns);
    let t = ticked(cs, cap, turns, births);
    assert forall|i: int| 0 <= i < cs.len() && !(#[trigger] cs[i]).alive() implies t[i]
        == cs[i] by {
        assert(t[i] == s[i]);
        cs[i].lemma_dead_frozen(spec_plant_is_here(cs[i].position), turns[i]);
    }
}

/// In a population of one grid, no two organisms share an id.
pub proof fn lemma_ids_unique(cs: Seq<Creature>, bounds: Position)
    requires
        population_wf(cs, bounds),
    ensures
        forall|i: int, j: int|
            0 <= i < cs.len() && 0 <= j < cs.len() && i != j ==> (#[trigger] cs[i]).id != (
            #[trigger] cs[j]).id,
{
}

/// Capacity admission: where the living count is within the carrying
/// capacity before a tick, it is within it after the tick, whatever the
/// draws.
pub proof fn lemma_capacity_admission(
    cs: Seq<Creature>,
    cap: int,
    turns: Seq<bool>,
    births: Seq<bool>,
)
    requires
        turns.len() == cs.len(),
        births.len() == cs.len(),
        alive_count(cs) <= cap,
    ensures
        alive_count(ticked(cs, cap, turns, births)) <= cap,
{
    lemma_ticked_alive_count(cs, cap, turns, births);
}

/// The population after one tick per pair of `draws`: the turns and the
/// reproduction trials of that tick.
pub open spec fn run(cs: Seq<Creature>, cap: int, draws: Seq<(Seq<bool>, Seq<bool>)>) -> Seq<
    Creature,
>
    decreases draws.len(),
{
    if draws.len() == 0 {
        cs
    } else {
        let before = run(cs, cap, draws.drop_last());
        ticked(before, cap, draws.last().0, draws.last().1)
    }
}

/// The frames such a run records: each tick records the population it
/// starts from.
pub open spec fn run_frames(
    cs: Seq<Creature>,
    cap: int,
    draws: Seq<(Seq<bool>, Seq<bool>)>,
) -> Seq<Seq<Creature>>
    decreases draws.len(),
{
    if draws.len() == 0 {
        seq![]
    } else {
        run_frames(cs, cap, draws.drop_last()).push(run(cs, cap, draws.drop_last()))
    }
}

/// Two runs that start from equal populations, with the same carrying
/// capacity, and are fed equal draws end with equal populations and record
/// equal frames. This says only that a run is a function of those inputs;
/// it says nothing of which draws a seeded source gives.
pub proof fn lemma_runs_deterministic(
    a: Seq<Creature>,
    b: Seq<Creature>,
    cap: int,
    draws: Seq<(Seq<bool>, Seq<bool>)>,
)
    requires
        a == b,
    ensures
        run(a, cap, draws) == run(b, cap, draws),
        run_frames(a, cap, draws) == run_frames(b, cap, draws),
    decreases draws.len(),
{
    if draws.len() > 0 {
        lemma_runs_deterministic(a, b, cap, draws.drop_last());
    }
}

} // verus!
