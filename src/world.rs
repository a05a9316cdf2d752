use crate::creature::Creature;
use crate::position::Position;
use crate::population::{
    admitted, alive_count, creatures_at, lemma_dead_stay_frozen, lemma_ticked_alive_count,
    lemma_ticked_wf,
    offspring_of, plant_is_here, population_wf, run, run_frames, spec_plant_is_here, stepped_all,
    ticked, REPRODUCTION_ODDS, REPRODUCTION_THRESHOLD,
};
use crate::genome::UNIT;
use crate::map::{creature_slot, with_slot, GridMap, Slot};
use crate::random::RandomSource;
use vstd::prelude::*;
use vstd::string::StringSliceAdditionalSpecFns;

verus! {

/// The organisms of one tick: a frame of history.
#[derive(Clone, Debug, PartialEq)]
pub struct WorldState {
    pub creatures: Vec<Creature>,
}

impl WorldState {
    pub fn new() -> (r: WorldState)
        ensures
            r.creatures@ == Seq::<Creature>::empty(),
    {
        WorldState { creatures: Vec::new() }
    }

    /// The organisms at `position`, in order.
    pub fn get_creatures_at(&self, position: Position) -> (r: Vec<&Creature>)
        ensures
            r@.map_values(|c: &Creature| *c) == creatures_at(self.creatures@, position),
    {
        let mut creatures: Vec<&Creature> = Vec::new();
        let mut i: usize = 0;
        while i < self.creatures.len()
            invariant
                i <= self.creatures.len(),
                creatures@.map_values(|c: &Creature| *c) == creatures_at(
                    self.creatures@.take(i as int),
                    position,
                ),
            decreases self.creatures.len() - i,
        {
            let creature = &self.creatures[i];
            assert(self.creatures@.take(i + 1).drop_last() =~= self.creatures@.take(i as int));
            if creature.position == position {
                creatures.push(creature);
            }
            i = i + 1;
            assert(creatures@.map_values(|c: &Creature| *c) =~= creatures_at(
                self.creatures@.take(i as int),
                position,
            ));
        }
        assert(self.creatures@.take(i as int) =~= self.creatures@);
        creatures
    }

    /// Number of living organisms.
    pub fn num_alive(&self) -> (r: usize)
        ensures
            r == alive_count(self.creatures@),
    {
        let mut num: usize = 0;
        let mut i: usize = 0;
        while i < self.creatures.len()
            invariant
                i <= self.creatures.len(),
                num == alive_count(self.creatures@.take(i as int)),
                num <= i,
            decreases self.creatures.len() - i,
        {
            assert(self.creatures@.take(i + 1).drop_last() =~= self.creatures@.take(i as int));
            if self.creatures[i].is_alive() {
                num = num + 1;
            }
            i = i + 1;
        }
        assert(self.creatures@.take(i as int) =~= self.creatures@);
        num
    }

    /// A copy of this frame.
    pub fn snapshot(&self) -> (r: WorldState)
        ensures
            r.creatures@ == self.creatures@,
    {
        let mut creatures: Vec<Creature> = Vec::new();
        let mut i: usize = 0;
        while i < self.creatures.len()
            invariant
                i <= self.creatures.len(),
                creatures@ == self.creatures@.take(i as int),
            decreases self.creatures.len() - i,
        {
            creatures.push(self.creatures[i]);
            i = i + 1;
            assert(creatures@ =~= self.creatures@.take(i as int));
        }
        assert(self.creatures@.take(i as int) =~= self.creatures@);
        WorldState { creatures }
    }

    /// Every organism takes its tick; `turns[i]` resolves a random turn of
    /// organism `i`.
    pub fn step_creatures(&mut self, turns: &Vec<bool>)
        requires
            turns.len() == old(self).creatures.len(),
            forall|i: int|
                0 <= i < old(self).creatures.len() ==> (#[trigger] old(self).creatures[i]).wf(),
        ensures
            final(self).creatures@ == stepped_all(old(self).creatures@, turns@),
    {
        let n = self.creatures.len();
        let mut i: usize = 0;
        while i < n
            invariant
                i <= n,
                n == old(self).creatures.len(),
                turns.len() == n,
                self.creatures.len() == n,
                forall|j: int|
                    0 <= j < i ==> self.creatures[j] == old(self).creatures[j].stepped(
                        spec_plant_is_here(old(self).creatures[j].position),
                        turns[j],
                    ),
                forall|j: int| i <= j < n ==> self.creatures[j] == old(self).creatures[j],
                forall|j: int| 0 <= j < n ==> (#[trigger] old(self).creatures[j]).wf(),
            decreases n - i,
        {
            let mut c = self.creatures[i];
            let food = plant_is_here(c.position);
            c.step_resolved(food, turns[i]);
            self.creatures.set(i, c);
            i = i + 1;
        }
        assert(self.creatures@ =~= stepped_all(old(self).creatures@, turns@));
    }

    /// The reproduction sweep: each organism whose trial `births[i]` fired
    /// and whose energy exceeds the threshold materializes one offspring,
    /// with ids counted on from the population size. Offspring are admitted
    /// in order while the living count is below `carrying_capacity`; the
    /// rest are discarded.
    pub fn reproduce(&mut self, carrying_capacity: usize, births: &Vec<bool>)
        requires
            births.len() == old(self).creatures.len(),
        ensures
            ({
                let s = old(self).creatures@;
                let o = offspring_of(s, births@, s.len() as int);
                final(self).creatures@ == s + o.take(
                    admitted(alive_count(s) as int, o.len() as int, carrying_capacity as int),
                )
            }),
    {
        let ghost s = self.creatures@;
        let n = self.creatures.len();
        let alive = self.num_alive();
        let slots: usize = if alive >= carrying_capacity {
            0
        } else {
            carrying_capacity - alive
        };
        let mut born: usize = 0;
        let mut i: usize = 0;
        while i < n
            invariant
                i <= n,
                n == s.len(),
                births.len() == n,
                born <= i,
                ({
                    let o = offspring_of(s.take(i as int), births@, n as int);
                    &&& born == o.len()
                    &&& self.creatures@ == s + o.take(
                        if o.len() < slots {
                            o.len() as int
                        } else {
                            slots as int
                        },
                    )
                }),
            decreases n - i,
        {
            assert(s.take(i + 1).drop_last() =~= s.take(i as int));
            let c = self.creatures[i];
            assert(c == s[i as int]);
            if births[i] && c.life > REPRODUCTION_THRESHOLD && c.generation < u64::MAX {
                if born < slots {
                    let child = c.divide(self.creatures.len() as u64);
                    self.creatures.push(child);
                }
                born = born + 1;
            }
            i = i + 1;
            proof {
                let o = offspring_of(s.take(i as int), births@, n as int);
                let k = if o.len() < slots {
                    o.len() as int
                } else {
                    slots as int
                };
                assert(self.creatures@ =~= s + o.take(k));
            }
        }
        assert(s.take(n as int) =~= s);
    }
}

/// The organisms of each frame of a history.
pub open spec fn frames(history: Seq<WorldState>) -> Seq<Seq<Creature>> {
    history.map_values(|s: WorldState| s.creatures@)
}

/// The organisms of a prior world that can seed a successor: alive, with a
/// generation that can still be counted on.
pub open spec fn survivors(cs: Seq<Creature>) -> Seq<Creature>
    decreases cs.len(),
{
    if cs.len() == 0 {
        seq![]
    } else if cs.last().alive() && cs.last().generation < u64::MAX {
        survivors(cs.drop_last()).push(cs.last())
    } else {
        survivors(cs.drop_last())
    }
}

pub proof fn lemma_survivors_wf(cs: Seq<Creature>)
    requires
        forall|i: int| 0 <= i < cs.len() ==> (#[trigger] cs[i]).wf(),
    ensures
        forall|j: int|
            0 <= j < survivors(cs).len() ==> {
                &&& (#[trigger] survivors(cs)[j]).wf()
                &&& survivors(cs)[j].alive()
                &&& survivors(cs)[j].generation < u64::MAX
            },
    decreases cs.len(),
{
    if cs.len() > 0 {
        lemma_survivors_wf(cs.drop_last());
    }
}

/// Whole units of an organism's energy, as a map strength.
pub open spec fn whole_life(c: Creature) -> i32 {
    if c.life / UNIT > i32::MAX {
        i32::MAX
    } else {
        (c.life / UNIT) as i32
    }
}

pub open spec fn plant_slot(x: int, y: int) -> Slot {
    if spec_plant_is_here(Position { x: x as i32, y: y as i32 }) {
        ('.', 2i32)
    } else {
        (' ', 0i32)
    }
}

/// A grid with food painted on every cell that has it.
pub open spec fn plant_grid(width: nat, height: nat) -> Seq<Seq<Slot>> {
    Seq::new(height, |y: int| Seq::new(width, |x: int| plant_slot(x, y)))
}

/// `grid` with the organisms painted over it in order.
pub open spec fn painted(grid: Seq<Seq<Slot>>, cs: Seq<Creature>) -> Seq<Seq<Slot>>
    decreases cs.len(),
{
    if cs.len() == 0 {
        grid
    } else {
        with_slot(
            painted(grid, cs.drop_last()),
            cs.last().position,
            creature_slot(cs.last().direction, whole_life(cs.last())),
        )
    }
}

/// A simulation: a grid, its population, and the frames recorded so far.
pub struct World {
    pub name: String,
    pub history: Vec<WorldState>,
    pub current_state: WorldState,
    pub carrying_capacity: usize,
    pub width: usize,
    pub height: usize,
    pub creature_count: usize,
    pub save_history: bool,
    pub random: RandomSource,
}

impl World {
    pub open spec fn bounds(self) -> Position {
        Position { x: self.width as i32, y: self.height as i32 }
    }

    pub open spec fn center(self) -> Position {
        Position { x: (self.width / 2) as i32, y: (self.height / 2) as i32 }
    }

    pub open spec fn creatures(self) -> Seq<Creature> {
        self.current_state.creatures@
    }

    pub open spec fn wf(self) -> bool {
        &&& 0 < self.width <= i32::MAX
        &&& 0 < self.height <= i32::MAX
        &&& self.creature_count == self.creatures().len()
        &&& population_wf(self.creatures(), self.bounds())
    }

    /// The configuration that no operation changes.
    pub open spec fn same_setup(self, other: World) -> bool {
        &&& self.name@ == other.name@
        &&& self.carrying_capacity == other.carrying_capacity
        &&& self.width == other.width
        &&& self.height == other.height
        &&& self.save_history == other.save_history
    }

    /// An empty world on a `width` by `height` grid, whose chance is drawn
    /// from a source seeded with `seed`.
    pub fn new(
        width: usize,
        height: usize,
        name: String,
        carrying_capacity: usize,
        save_history: bool,
        seed: u64,
    ) -> (r: World)
        requires
            0 < width <= i32::MAX,
            0 < height <= i32::MAX,
        ensures
            r.wf(),
            r.name == name,
            r.width == width,
            r.height == height,
            r.carrying_capacity == carrying_capacity,
            r.save_history == save_history,
            r.creatures() == Seq::<Creature>::empty(),
            r.history@ == Seq::<WorldState>::empty(),
    {
        World {
            name,
            history: Vec::new(),
            current_state: WorldState::new(),
            carrying_capacity,
            width,
            height,
            creature_count: 0,
            save_history,
            random: RandomSource::seeded(seed),
        }
    }

    /// Adds a generation-one organism at `position`, with the next id.
    pub fn add_creature_with_position(&mut self, name: &str, position: Position)
        requires
            old(self).wf(),
            position.in_bounds(old(self).width as int, old(self).height as int),
        ensures
            final(self).wf(),
            final(self).same_setup(*old(self)),
            final(self).history == old(self).history,
            final(self).creatures().len() == old(self).creatures().len() + 1,
            final(self).creatures().drop_last() == old(self).creatures(),
            final(self).creatures().last().founded(
                position,
                old(self).bounds(),
                name.spec_bytes(),
                1,
                old(self).creature_count as u64,
            ),
    {
        let creature = Creature::new(
            position,
            Position::new(self.width as i32, self.height as i32),
            name,
            1,
            self.creature_count as u64,
            &mut self.random,
        );
        self.current_state.creatures.push(creature);
        self.creature_count = self.current_state.creatures.len();
        assert(self.creatures().drop_last() =~= old(self).creatures());
    }

    /// Adds a generation-one organism at the center of the grid.
    pub fn add_creature(&mut self, name: &str)
        requires
            old(self).wf(),
        ensures
            final(self).wf(),
            final(self).same_setup(*old(self)),
            final(self).history == old(self).history,
            final(self).creatures().len() == old(self).creatures().len() + 1,
            final(self).creatures().drop_last() == old(self).creatures(),
            final(self).creatures().last().founded(
                old(self).center(),
                old(self).bounds(),
                name.spec_bytes(),
                1,
                old(self).creature_count as u64,
            ),
    {
        let center = Position::new((self.width / 2) as i32, (self.height / 2) as i32);
        self.add_creature_with_position(name, center);
    }

    /// Seeds this world from the survivors of `world`: cycling through them
    /// in order, as often as needed, each gives one successor at the center
    /// of this grid, until the population reaches the carrying capacity.
    /// Without survivors nothing is added.
    pub fn add_creatures_from_world(&mut self, world: World)
        requires
            old(self).wf(),
            world.wf(),
        ensures
            final(self).wf(),
            final(self).same_setup(*old(self)),
            final(self).history == old(self).history,
            ({
                let s = survivors(world.creatures());
                let m = old(self).creatures().len();
                let f = final(self).creatures();
                if s.len() == 0 || m >= old(self).carrying_capacity {
                    f == old(self).creatures()
                } else {
                    &&& f.len() == old(self).carrying_capacity
                    &&& f.take(m as int) == old(self).creatures()
                    &&& forall|j: int|
                        m <= j < f.len() ==> (#[trigger] f[j]).spawned(
                            s[(j - m) % (s.len() as int)],
                            j as u64,
                            old(self).center(),
                            old(self).bounds(),
                        )
                }
            }),
    {
        let ghost cs = world.creatures();
        let prior = &world.current_state.creatures;
        let mut parents: Vec<Creature> = Vec::new();
        let mut i: usize = 0;
        while i < prior.len()
            invariant
                i <= prior.len(),
                prior@ == cs,
                parents@ == survivors(cs.take(i as int)),
            decreases prior.len() - i,
        {
            assert(cs.take(i + 1).drop_last() =~= cs.take(i as int));
            if prior[i].is_alive() && prior[i].generation < u64::MAX {
                parents.push(prior[i]);
            }
            i = i + 1;
        }
        assert(cs.take(i as int) =~= cs);
        proof {
            assert forall|k: int| 0 <= k < cs.len() implies (#[trigger] cs[k]).wf() by {}
            lemma_survivors_wf(cs);
        }
        if parents.len() == 0 {
            return;
        }
        let center = Position::new((self.width / 2) as i32, (self.height / 2) as i32);
        let bounds = Position::new(self.width as i32, self.height as i32);
        let ghost m = self.creatures().len();
        let mut k: usize = 0;
        while self.current_state.creatures.len() < self.carrying_capacity
            invariant
                self.same_setup(*old(self)),
                self.history == old(self).history,
                0 < self.width <= i32::MAX,
                0 < self.height <= i32::MAX,
                center == old(self).center(),
                bounds == old(self).bounds(),
                m == old(self).creatures().len(),
                parents@ == survivors(cs),
                parents.len() > 0,
                forall|j: int| 0 <= j < parents.len() ==> {
                    &&& (#[trigger] parents@[j]).wf()
                    &&& parents@[j].generation < u64::MAX
                },
                self.creatures().len() == m + k,
                m < self.carrying_capacity ==> self.creatures().len() <= self.carrying_capacity,
                m >= self.carrying_capacity ==> k == 0,
                self.creatures().take(m as int) == old(self).creatures(),
                population_wf(self.creatures(), bounds),
                forall|j: int|
                    m <= j < self.creatures().len() ==> (#[trigger] self.creatures()[j]).spawned(
                        parents@[(j - m) % (parents.len() as int)],
                        j as u64,
                        center,
                        bounds,
                    ),
            decreases self.carrying_capacity - self.current_state.creatures.len(),
        {
            let parent = &parents[k % parents.len()];
            let id = self.current_state.creatures.len() as u64;
            let c = Creature::new_from_old(parent, id, center, bounds, &mut self.random);
            self.current_state.creatures.push(c);
            k = k + 1;
            proof {
                let cs2 = self.creatures();
                assert(cs2.take(m as int) =~= old(self).creatures());
                assert forall|j: int|
                    m <= j < cs2.len() implies (#[trigger] cs2[j]).spawned(
                        parents@[(j - m) % (parents.len() as int)],
                        j as u64,
                        center,
                        bounds,
                    ) by {
                    if j == cs2.len() - 1 {
                        assert(j - m == k - 1);
                    }
                }
            }
        }
        assert(self.creatures().take(m + k) =~= self.creatures());
        self.creature_count = self.current_state.creatures.len();
    }

    /// The map of a frame: food first, then every organism over it.
    pub fn map_of(&self, state: &WorldState) -> (r: GridMap)
        requires
            self.wf(),
        ensures
            r.wf(),
            r.width == self.width,
            r.height == self.height,
            r.name@ == self.name@,
            r.grid() == painted(
                plant_grid(self.width as nat, self.height as nat),
                state.creatures@,
            ),
    {
        let w = self.width;
        let h = self.height;
        let mut map = GridMap::new(w, h, self.name.clone());
        let mut y: usize = 0;
        assert(map.grid() =~~= Seq::new(
            h as nat,
            |j: int|
                Seq::new(
                    w as nat,
                    |i: int|
                        if j < y {
                            plant_slot(i, j)
                        } else {
                            (' ', 0i32)
                        },
                ),
        ));
        while y < h
            invariant
                y <= h,
                w == self.width,
                h == self.height,
                0 < w <= i32::MAX,
                0 < h <= i32::MAX,
                map.wf(),
                map.width == w,
                map.height == h,
                map.name@ == self.name@,
                map.grid() == Seq::new(
                    h as nat,
                    |j: int|
                        Seq::new(
                            w as nat,
                            |i: int|
                                if j < y {
                                    plant_slot(i, j)
                                } else {
                                    (' ', 0i32)
                                },
                        ),
                ),
            decreases h - y,
        {
            let mut x: usize = 0;
            assert(map.grid() =~~= Seq::new(
                h as nat,
                |j: int|
                    Seq::new(
                        w as nat,
                        |i: int|
                            if j < y || (j == y && i < x) {
                                plant_slot(i, j)
                            } else {
                                (' ', 0i32)
                            },
                    ),
            ));
            while x < w
                invariant
                    x <= w,
                    y < h,
                    w == self.width,
                    h == self.height,
                    0 < w <= i32::MAX,
                    0 < h <= i32::MAX,
                    map.wf(),
                    map.width == w,
                    map.height == h,
                    map.name@ == self.name@,
                    map.grid() == Seq::new(
                        h as nat,
                        |j: int|
                            Seq::new(
                                w as nat,
                                |i: int|
                                    if j < y || (j == y && i < x) {
                                        plant_slot(i, j)
                                    } else {
                                        (' ', 0i32)
                                    },
                            ),
                    ),
                decreases w - x,
            {
                let position = Position::new(x as i32, y as i32);
                if plant_is_here(position) {
                    map.set_plant(position);
                }
                x = x + 1;
                assert(map.grid() =~~= Seq::new(
                    h as nat,
                    |j: int|
                        Seq::new(
                            w as nat,
                            |i: int|
                                if j < y || (j == y && i < x) {
                                    plant_slot(i, j)
                                } else {
                                    (' ', 0i32)
                                },
                        ),
                ));
            }
            y = y + 1;
            assert(map.grid() =~~= Seq::new(
                h as nat,
                |j: int|
                    Seq::new(
                        w as nat,
                        |i: int|
                            if j < y {
                                plant_slot(i, j)
                            } else {
                                (' ', 0i32)
                            },
                    ),
            ));
        }
        assert(map.grid() =~~= plant_grid(w as nat, h as nat));
        let ghost base = map.grid();
        let mut i: usize = 0;
        while i < state.creatures.len()
            invariant
                i <= state.creatures.len(),
                map.wf(),
                map.width == w,
                map.height == h,
                map.name@ == self.name@,
                w == self.width,
                h == self.height,
                base == plant_grid(w as nat, h as nat),
                map.grid() == painted(base, state.creatures@.take(i as int)),
            decreases state.creatures.len() - i,
        {
            let c = &state.creatures[i];
            let whole = c.life / UNIT;
            let strength: i32 = if whole > i32::MAX as u64 {
                i32::MAX
            } else {
                whole as i32
            };
            map.set_creature(c.position, c.direction, strength);
            assert(state.creatures@.take(i + 1).drop_last() =~= state.creatures@.take(i as int));
            i = i + 1;
        }
        assert(state.creatures@.take(i as int) =~= state.creatures@);
        map
    }

    /// One tick with its chance given: `turns[i]` resolves a random turn of
    /// organism `i`, and `births[i]` is the outcome of its reproduction
    /// trial. The current frame is recorded first if history is kept.
    pub fn step_with(&mut self, turns: &Vec<bool>, births: &Vec<bool>)
        requires
            old(self).wf(),
            turns.len() == old(self).creatures().len(),
            births.len() == old(self).creatures().len(),
        ensures
            final(self).wf(),
            final(self).same_setup(*old(self)),
            final(self).creatures() == ticked(
                old(self).creatures(),
                old(self).carrying_capacity as int,
                turns@,
                births@,
            ),
            frames(final(self).history@) == if old(self).save_history {
                frames(old(self).history@).push(old(self).creatures())
            } else {
                frames(old(self).history@)
            },
            final(self).history.len() == old(self).history.len() + if old(self).save_history {
                1int
            } else {
                0int
            },
            alive_count(final(self).creatures()) <= alive_count(old(self).creatures())
                || alive_count(final(self).creatures()) <= old(self).carrying_capacity,
    {
        if self.save_history {
            let snap = self.current_state.snapshot();
            self.history.push(snap);
            assert(frames(self.history@) =~= frames(old(self).history@).push(old(self).creatures()));
        }
        proof {
            let cs = self.creatures();
            assert forall|i: int| 0 <= i < cs.len() implies (#[trigger] cs[i]).wf() by {}
        }
        self.current_state.step_creatures(turns);
        self.current_state.reproduce(self.carrying_capacity, births);
        self.creature_count = self.current_state.creatures.len();
        proof {
            lemma_ticked_wf(
                old(self).creatures(),
                self.carrying_capacity as int,
                turns@,
                births@,
                self.bounds(),
            );
            lemma_ticked_alive_count(
                old(self).creatures(),
                self.carrying_capacity as int,
                turns@,
                births@,
            );
        }
    }

    /// One tick: each organism draws a fair coin for a random turn and a
    /// reproduction trial of odds `1 / REPRODUCTION_ODDS`.
    pub fn step(&mut self)
        requires
            old(self).wf(),
        ensures
            final(self).wf(),
            final(self).same_setup(*old(self)),
            exists|turns: Seq<bool>, births: Seq<bool>|
                turns.len() == old(self).creatures().len() && births.len() == old(
                    self,
                ).creatures().len() && final(self).creatures() == ticked(
                    old(self).creatures(),
                    old(self).carrying_capacity as int,
                    turns,
                    births,
                ),
            frames(final(self).history@) == if old(self).save_history {
                frames(old(self).history@).push(old(self).creatures())
            } else {
                frames(old(self).history@)
            },
            final(self).history.len() == old(self).history.len() + if old(self).save_history {
                1int
            } else {
                0int
            },
            alive_count(final(self).creatures()) <= alive_count(old(self).creatures())
                || alive_count(final(self).creatures()) <= old(self).carrying_capacity,
            old(self).creatures().len() == 0 ==> final(self).creatures().len() == 0,
    {
        let n = self.current_state.creatures.len();
        let mut turns: Vec<bool> = Vec::new();
        let mut births: Vec<bool> = Vec::new();
        let mut i: usize = 0;
        while i < n
            invariant
                i <= n,
                turns.len() == i,
                births.len() == i,
                self.wf(),
                n == self.creatures().len(),
                self.same_setup(*old(self)),
                self.current_state == old(self).current_state,
                self.history == old(self).history,
            decreases n - i,
        {
            turns.push(self.random.coin());
            births.push(self.random.one_in(REPRODUCTION_ODDS));
            i = i + 1;
        }
        self.step_with(&turns, &births);
        proof {
            if n == 0 {
                assert(ticked(old(self).creatures(), self.carrying_capacity as int, turns@, births@)
                    =~= Seq::<Creature>::empty());
            }
        }
    }

    /// Runs `n` ticks; nothing for `n <= 0`.
    pub fn simulate(&mut self, n: i32)
        requires
            old(self).wf(),
        ensures
            final(self).wf(),
            final(self).same_setup(*old(self)),
            final(self).history.len() == old(self).history.len() + if old(self).save_history
                && n > 0 {
                n as int
            } else {
                0
            },
            alive_count(old(self).creatures()) <= old(self).carrying_capacity ==> alive_count(
                final(self).creatures(),
            ) <= old(self).carrying_capacity,
            old(self).creatures().len() == 0 ==> final(self).creatures().len() == 0,
            forall|k: int|
                old(self).history.len() <= k < final(self).history.len() ==> population_wf(
                    #[trigger] frames(final(self).history@)[k],
                    old(self).bounds(),
                ),
            final(self).creatures().len() >= old(self).creatures().len(),
            forall|i: int|
                0 <= i < old(self).creatures().len() && !(#[trigger] old(self).creatures()[i]).alive()
                    ==> final(self).creatures()[i] == old(self).creatures()[i],
            exists|draws: Seq<(Seq<bool>, Seq<bool>)>|
                #![trigger run(old(self).creatures(), old(self).carrying_capacity as int, draws)]
                draws.len() == (if n > 0 {
                    n as int
                } else {
                    0
                }) && final(self).creatures() == run(
                    old(self).creatures(),
                    old(self).carrying_capacity as int,
                    draws,
                ) && frames(final(self).history@) == if old(self).save_history {
                    frames(old(self).history@) + run_frames(
                        old(self).creatures(),
                        old(self).carrying_capacity as int,
                        draws,
                    )
                } else {
                    frames(old(self).history@)
                },
    {
        let mut t: i32 = 0;
        let ghost mut draws: Seq<(Seq<bool>, Seq<bool>)> = seq![];
        let ghost cap = self.carrying_capacity as int;
        let ghost start = self.creatures();
        while t < n
            invariant
                self.wf(),
                self.same_setup(*old(self)),
                0 <= t,
                n <= 0 ==> t == 0,
                t <= n || n <= 0,
                self.history.len() == old(self).history.len() + if old(self).save_history {
                    t as int
                } else {
                    0
                },
                alive_count(old(self).creatures()) <= old(self).carrying_capacity ==> alive_count(
                    self.creatures(),
                ) <= old(self).carrying_capacity,
                old(self).creatures().len() == 0 ==> self.creatures().len() == 0,
                forall|k: int|
                    old(self).history.len() <= k < self.history.len() ==> population_wf(
                        #[trigger] frames(self.history@)[k],
                        old(self).bounds(),
                    ),
                self.creatures().len() >= old(self).creatures().len(),
                forall|i: int|
                    0 <= i < old(self).creatures().len() && !(#[trigger] old(
                        self,
                    ).creatures()[i]).alive() ==> self.creatures()[i] == old(self).creatures()[i],
                cap == old(self).carrying_capacity,
                start == old(self).creatures(),
                draws.len() == t,
                self.creatures() == run(start, cap, draws),
                frames(self.history@) == if old(self).save_history {
                    frames(old(self).history@) + run_frames(start, cap, draws)
                } else {
                    frames(old(self).history@)
                },
            decreases n - t,
        {
            let ghost before = self.creatures();
            let ghost before_frames = frames(self.history@);
            self.step();
            proof {
                let (turns, births) = choose|turns: Seq<bool>, births: Seq<bool>|
                    turns.len() == before.len() && births.len() == before.len()
                        && self.creatures() == ticked(before, cap, turns, births);
                lemma_dead_stay_frozen(before, cap, turns, births);
                assert forall|i: int|
                    0 <= i < old(self).creatures().len() && !(#[trigger] old(
                        self,
                    ).creatures()[i]).alive() implies self.creatures()[i] == old(
                    self,
                ).creatures()[i] by {
                    assert(before[i] == old(self).creatures()[i]);
                }
                assert(self.bounds() == old(self).bounds());
                let fs = frames(self.history@);
                assert forall|k: int|
                    old(self).history.len() <= k < self.history.len() implies population_wf(
                    #[trigger] fs[k],
                    old(self).bounds(),
                ) by {
                    if k < before_frames.len() {
                        assert(fs[k] == before_frames[k]);
                    } else {
                        assert(fs[k] == before);
                    }
                }
                let next = draws.push((turns, births));
                assert(next.drop_last() =~= draws);
                assert(run_frames(start, cap, next) == run_frames(start, cap, draws).push(before));
                if old(self).save_history {
                    assert(frames(self.history@) =~= frames(old(self).history@) + run_frames(
                        start,
                        cap,
                        next,
                    ));
                }
                draws = next;
            }
            t = t + 1;
        }
    }
}

} // verus!
