use crate::random::RandomSource;
use crate::text::push_char;
use vstd::prelude::*;

verus! {

/// Fixed-point denominator of energy and trait values: one whole unit is
/// `UNIT` steps. It is a multiple of every trait magnitude from 1 to 10, so
/// the rates that traits give are exact in these steps.
pub const UNIT: u64 = 2520;

/// Length of every action pattern.
pub const PATTERN_LEN: usize = 5;

/// Smallest and largest trait magnitude.
pub const MIN_MAGNITUDE: i32 = 1;
pub const MAX_MAGNITUDE: i32 = 10;

/// Largest trait weight, in steps of `1 / UNIT`.
pub const MAX_WEIGHT: u64 = 0xffff_ffff;

/// Weight of the aging-speed divisor (0.2) and of eating efficiency (50),
/// in steps of `1 / UNIT`.
pub const AGING_WEIGHT: u64 = 504;
pub const EATING_WEIGHT: u64 = 126000;

/// Magnitude of each trait in a fresh genome.
pub const EVEN_MAGNITUDE: i32 = 5;

#[derive(Clone, Copy, Debug, PartialEq, Eq, Structural)]
pub enum Action {
    MoveForward,
    TurnLeft,
    TurnRandom,
    TurnRight,
}

pub open spec fn all_actions() -> Seq<Action> {
    seq![Action::MoveForward, Action::TurnLeft, Action::TurnRandom, Action::TurnRight]
}

impl Action {
    /// Every action, each once.
    pub fn iterator() -> (r: Vec<Action>)
        ensures
            r@ == all_actions(),
    {
        let r = vec![Action::MoveForward, Action::TurnLeft, Action::TurnRandom, Action::TurnRight];
        assert(r@ =~= all_actions());
        r
    }

    pub open spec fn spec_letter(self) -> char {
        match self {
            Action::MoveForward => 'F',
            Action::TurnLeft => 'L',
            Action::TurnRight => 'R',
            Action::TurnRandom => 'A',
        }
    }

    /// One letter per action: F, L, R, and A for a random turn.
    pub fn letter(&self) -> (r: char)
        ensures
            r == self.spec_letter(),
    {
        match self {
            Action::MoveForward => 'F',
            Action::TurnLeft => 'L',
            Action::TurnRight => 'R',
            Action::TurnRandom => 'A',
        }
    }
}

/// The movement program of an organism, replayed cyclically.
#[derive(Clone, Copy, Debug, PartialEq)]
pub struct Behavior {
    pub action_pattern: [Action; 5],
}

impl Behavior {
    /// The pattern whose action `i` is the action at `ks[i]` in the order of
    /// `Action::iterator`.
    pub fn from_draws(ks: [u64; 5]) -> (r: Behavior)
        requires
            forall|i: int| 0 <= i < PATTERN_LEN ==> ks@[i] < 4,
        ensures
            forall|i: int|
                0 <= i < PATTERN_LEN ==> r.action_pattern@[i] == all_actions()[ks@[i] as int],
    {
        let actions = Action::iterator();
        let mut action_pattern: [Action; 5] = [Action::MoveForward;5];
        let mut i: usize = 0;
        while i < PATTERN_LEN
            invariant
                i <= PATTERN_LEN,
                actions@ == all_actions(),
                forall|j: int| 0 <= j < PATTERN_LEN ==> ks@[j] < 4,
                forall|j: int| 0 <= j < i ==> action_pattern@[j] == all_actions()[ks@[j] as int],
            decreases PATTERN_LEN - i,
        {
            action_pattern[i] = actions[ks[i] as usize];
            i = i + 1;
        }
        Behavior { action_pattern }
    }

    /// A pattern of independent uniform draws from the four actions.
    pub fn new(random: &mut RandomSource) -> (r: Behavior) {
        let indices: Vec<u64> = vec![0, 1, 2, 3];
        assert(indices@ =~= seq![0u64, 1, 2, 3]);
        let mut ks: [u64; 5] = [0;5];
        let mut i: usize = 0;
        while i < PATTERN_LEN
            invariant
                i <= PATTERN_LEN,
                indices@ == seq![0u64, 1, 2, 3],
                forall|j: int| 0 <= j < i ==> ks@[j] < 4,
            decreases PATTERN_LEN - i,
        {
            let k = random.pick(&indices);
            assert(k < 4) by {
                let w = choose|w: int| 0 <= w < indices@.len() && indices@[w] == k;
            }
            ks[i] = k;
            i = i + 1;
        }
        Behavior::from_draws(ks)
    }

    /// The pattern written as one letter per action.
    pub fn code(&self) -> (r: String)
        ensures
            r@ == Seq::new(PATTERN_LEN as nat, |i: int| self.action_pattern@[i].spec_letter()),
    {
        let mut res = String::new();
        let mut i: usize = 0;
        while i < PATTERN_LEN
            invariant
                i <= PATTERN_LEN,
                res@ == Seq::new(i as nat, |j: int| self.action_pattern@[j].spec_letter()),
            decreases PATTERN_LEN - i,
        {
            push_char(&mut res, self.action_pattern[i].letter());
            i = i + 1;
            assert(res@ =~= Seq::new(i as nat, |j: int| self.action_pattern@[j].spec_letter()));
        }
        res
    }
}

/// A bounded magnitude with a fixed weight. The weight is kept in steps of
/// `1 / UNIT`.
#[derive(Clone, Copy, Debug, PartialEq)]
pub struct Trait {
    pub value: i32,
    pub weight: u64,
}

impl Trait {
    pub open spec fn wf(self) -> bool {
        &&& MIN_MAGNITUDE <= self.value <= MAX_MAGNITUDE
        &&& 0 < self.weight <= MAX_WEIGHT
    }

    /// Effective value, magnitude times weight, in steps of `1 / UNIT`.
    pub open spec fn spec_value(self) -> int {
        self.value * self.weight
    }

    pub proof fn lemma_value_bounds(self)
        requires
            self.wf(),
        ensures
            0 < self.spec_value() <= MAX_MAGNITUDE * MAX_WEIGHT,
    {
        assert(0 < self.value * self.weight <= 10 * 0xffff_ffff) by (nonlinear_arith)
            requires 1 <= self.value <= 10, 1 <= self.weight <= 0xffff_ffff;
    }

    pub fn new(value: i32, weight: u64) -> (r: Trait)
        ensures
            r.value == value,
            r.weight == weight,
    {
        Trait { value, weight }
    }

    /// Effective value, magnitude times weight, in steps of `1 / UNIT`.
    pub fn get_value(&self) -> (r: u64)
        requires
            self.wf(),
        ensures
            r == self.spec_value(),
            0 < r <= MAX_MAGNITUDE * MAX_WEIGHT,
    {
        assert(0 < self.value * self.weight <= 10 * 0xffff_ffff) by (nonlinear_arith)
            requires 1 <= self.value <= 10, 1 <= self.weight <= 0xffff_ffff;
        self.value as u64 * self.weight
    }

    /// Sets the magnitude if it lies in `[1, 10]`; otherwise leaves the
    /// trait as it is and returns false.
    pub fn set_value(&mut self, value: i32) -> (r: bool)
        ensures
            r == (MIN_MAGNITUDE <= value <= MAX_MAGNITUDE),
            r ==> final(self).value == value,
            !r ==> final(self).value == old(self).value,
            final(self).weight == old(self).weight,
    {
        if !(MIN_MAGNITUDE <= value && value <= MAX_MAGNITUDE) {
            return false;
        }
        self.value = value;
        true
    }
}

/// The names of the traits of a `TraitSet`.
#[derive(Clone, Copy, Debug, PartialEq, Eq, Structural)]
pub enum TraitKind {
    AgingSpeedDivisor,
    EatingEfficiency,
}

/// Number of trait kinds.
pub const TRAIT_KINDS: u64 = 2;

impl TraitKind {
    pub open spec fn spec_from_index(i: int) -> TraitKind {
        if i == 0 {
            TraitKind::AgingSpeedDivisor
        } else {
            TraitKind::EatingEfficiency
        }
    }

    /// The kind at `i` in the order of declaration.
    pub fn from_index(i: u64) -> (r: TraitKind)
        requires
            i < TRAIT_KINDS,
        ensures
            r == Self::spec_from_index(i as int),
    {
        if i == 0 {
            TraitKind::AgingSpeedDivisor
        } else {
            TraitKind::EatingEfficiency
        }
    }
}

#[derive(Clone, Copy, Debug, PartialEq)]
pub struct TraitSet {
    pub aging_speed_divisor: Trait,
    pub eating_efficiency: Trait,
}

impl TraitSet {
    pub open spec fn get(self, kind: TraitKind) -> Trait {
        match kind {
            TraitKind::AgingSpeedDivisor => self.aging_speed_divisor,
            TraitKind::EatingEfficiency => self.eating_efficiency,
        }
    }

    pub open spec fn with(self, kind: TraitKind, t: Trait) -> TraitSet {
        match kind {
            TraitKind::AgingSpeedDivisor => TraitSet { aging_speed_divisor: t, ..self },
            TraitKind::EatingEfficiency => TraitSet { eating_efficiency: t, ..self },
        }
    }

    pub open spec fn wf(self) -> bool {
        self.aging_speed_divisor.wf() && self.eating_efficiency.wf()
    }

    /// The set with the magnitude of `kind` moved by `n`.
    pub open spec fn shifted(self, kind: TraitKind, n: int) -> TraitSet {
        self.with(kind, Trait { value: (self.get(kind).value + n) as i32, ..self.get(kind) })
    }

    /// One unit moved from `from` to `to`, or nothing at all where either
    /// magnitude would leave `[1, 10]`.
    pub open spec fn transferred(self, from: TraitKind, to: TraitKind) -> TraitSet {
        if from != to && self.get(from).value > MIN_MAGNITUDE && self.get(to).value
            < MAX_MAGNITUDE {
            self.shifted(from, -1).shifted(to, 1)
        } else {
            self
        }
    }
}

/// A transfer between two distinct traits conserves the sum of their
/// magnitudes: either nothing changes, or the first loses exactly one unit
/// and the second gains exactly one. No weight changes, and no other trait.
pub proof fn lemma_transfer_conserves(ts: TraitSet, a: TraitKind, b: TraitKind)
    requires
        a != b,
    ensures
        ({
            let r = ts.transferred(a, b);
            &&& r.get(a).value + r.get(b).value == ts.get(a).value + ts.get(b).value
            &&& r == ts || (r.get(a).value == ts.get(a).value - 1 && r.get(b).value == ts.get(
                b,
            ).value + 1)
            &&& forall|k: TraitKind| #[trigger] r.get(k).weight == ts.get(k).weight
            &&& forall|k: TraitKind| k != a && k != b ==> #[trigger] r.get(k) == ts.get(k)
        }),
{
}

/// The heritable package of an organism: its traits and its behavior.
#[derive(Clone, Copy, Debug, PartialEq)]
pub struct Genome {
    pub trait_set: TraitSet,
    pub behavior: Behavior,
}

impl Genome {
    pub open spec fn wf(self) -> bool {
        self.trait_set.wf()
    }

    /// Both traits at the middle magnitude, and a random behavior.
    pub fn new_even_distribution(random: &mut RandomSource) -> (r: Genome)
        ensures
            r.wf(),
            r.trait_set.aging_speed_divisor.value == EVEN_MAGNITUDE,
            r.trait_set.aging_speed_divisor.weight == AGING_WEIGHT,
            r.trait_set.eating_efficiency.value == EVEN_MAGNITUDE,
            r.trait_set.eating_efficiency.weight == EATING_WEIGHT,
    {
        Genome {
            trait_set: TraitSet {
                aging_speed_divisor: Trait::new(EVEN_MAGNITUDE, AGING_WEIGHT),
                eating_efficiency: Trait::new(EVEN_MAGNITUDE, EATING_WEIGHT),
            },
            behavior: Behavior::new(random),
        }
    }

    /// Moves the magnitude of `t` by `n`, if the result stays in `[1, 10]`;
    /// otherwise changes nothing and returns false.
    pub fn trait_modify(&mut self, t: TraitKind, n: i32) -> (r: bool)
        ensures
            r == (MIN_MAGNITUDE <= old(self).trait_set.get(t).value + n <= MAX_MAGNITUDE),
            r ==> final(self).trait_set == old(self).trait_set.shifted(t, n as int),
            !r ==> *final(self) == *old(self),
            final(self).behavior == old(self).behavior,
    {
        let current = match t {
            TraitKind::AgingSpeedDivisor => self.trait_set.aging_speed_divisor.value,
            TraitKind::EatingEfficiency => self.trait_set.eating_efficiency.value,
        };
        let target = match current.checked_add(n) {
            Some(v) => v,
            None => {
                return false;
            },
        };
        match t {
            TraitKind::AgingSpeedDivisor => self.trait_set.aging_speed_divisor.set_value(target),
            TraitKind::EatingEfficiency => self.trait_set.eating_efficiency.set_value(target),
        }
    }

    /// Moves one unit of magnitude from `a` to `b`, all or nothing: where
    /// either half would leave `[1, 10]`, the genome stays as it was.
    pub fn trait_modify_duo(&mut self, a: TraitKind, b: TraitKind)
        requires
            old(self).wf(),
        ensures
            final(self).trait_set == old(self).trait_set.transferred(a, b),
            final(self).behavior == old(self).behavior,
            final(self).wf(),
    {
        if self.trait_modify(a, -1) && !self.trait_modify(b, 1) {
            self.trait_modify(a, 1);
            assert(self.trait_set =~= old(self).trait_set);
        }
    }

    /// Picks two distinct traits uniformly at random and moves one unit of
    /// magnitude from the first to the second, all or nothing.
    pub fn mutate(&mut self, random: &mut RandomSource)
        requires
            old(self).wf(),
        ensures
            exists|a: TraitKind, b: TraitKind|
                a != b && final(self).trait_set == old(self).trait_set.transferred(a, b),
            final(self).behavior == old(self).behavior,
            final(self).wf(),
    {
        let all: Vec<u64> = vec![0, 1];
        assert(all@ =~= seq![0u64, 1]);
        let i = random.pick(&all);
        assert(i == 0 || i == 1) by {
            let w = choose|w: int| 0 <= w < all@.len() && all@[w] == i;
        }
        let rest: Vec<u64> = if i == 0 {
            vec![1]
        } else {
            vec![0]
        };
        assert(rest@ =~= seq![(1 - i) as u64]);
        let j = random.pick(&rest);
        assert(j == 1 - i) by {
            let w = choose|w: int| 0 <= w < rest@.len() && rest@[w] == j;
        }
        let a = TraitKind::from_index(i);
        let b = TraitKind::from_index(j);
        self.trait_modify_duo(a, b);
    }
}

} // verus!
