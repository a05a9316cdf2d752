use crate::genome::{Action, Genome, PATTERN_LEN, UNIT};
use crate::position::Position;
use crate::random::RandomSource;
use crate::text::array_from_str;
use vstd::prelude::*;
use vstd::string::StringSliceAdditionalSpecFns;

verus! {

/// Highest energy an organism can hold: 255 whole units.
pub const MAX_LIFE: u64 = 255 * UNIT;

#[derive(Clone, Copy, Debug, PartialEq, Eq, Structural)]
pub enum Direction {
    North,
    South,
    East,
    West,
}

impl Direction {
    /// Quarter turn clockwise: North, East, South, West, North.
    pub open spec fn right(self) -> Direction {
        match self {
            Direction::North => Direction::East,
            Direction::East => Direction::South,
            Direction::South => Direction::West,
            Direction::West => Direction::North,
        }
    }

    /// Quarter turn counter-clockwise.
    pub open spec fn left(self) -> Direction {
        match self {
            Direction::North => Direction::West,
            Direction::West => Direction::South,
            Direction::South => Direction::East,
            Direction::East => Direction::North,
        }
    }

    pub open spec fn dx(self) -> int {
        match self {
            Direction::East => 1,
            Direction::West => -1,
            _ => 0,
        }
    }

    pub open spec fn dy(self) -> int {
        match self {
            Direction::North => 1,
            Direction::South => -1,
            _ => 0,
        }
    }

    pub open spec fn spec_from_index(i: int) -> Direction {
        if i == 0 {
            Direction::North
        } else if i == 1 {
            Direction::South
        } else if i == 2 {
            Direction::East
        } else {
            Direction::West
        }
    }

    /// The direction at `i` in the order North, South, East, West.
    pub fn from_index(i: u64) -> (r: Direction)
        requires
            i < 4,
        ensures
            r == Self::spec_from_index(i as int),
    {
        if i == 0 {
            Direction::North
        } else if i == 1 {
            Direction::South
        } else if i == 2 {
            Direction::East
        } else {
            Direction::West
        }
    }

    /// A uniformly drawn direction.
    pub fn random(random: &mut RandomSource) -> (r: Direction) {
        let indices: Vec<u64> = vec![0, 1, 2, 3];
        assert(indices@ =~= seq![0u64, 1, 2, 3]);
        let i = random.pick(&indices);
        assert(i < 4) by {
            let w = choose|w: int| 0 <= w < indices@.len() && indices@[w] == i;
        }
        Direction::from_index(i)
    }
}

/// `v` wrapped into `[0, bound)`.
pub open spec fn wrap(v: int, bound: int) -> int {
    v % bound
}

/// Energy after a meal of `gain`, capped at `MAX_LIFE`.
pub open spec fn fed(life: int, gain: int) -> int {
    if life + gain > MAX_LIFE {
        MAX_LIFE as int
    } else {
        life + gain
    }
}

/// Energy after losing `decrement`; it drops to zero rather than below.
pub open spec fn aged(life: int, decrement: int) -> int {
    if life < decrement {
        0
    } else {
        life - decrement
    }
}

#[derive(Clone, Copy, Debug, PartialEq)]
pub struct Creature {
    pub id: u64,
    pub name: [char; 15],
    /// Energy, in steps of `1 / UNIT`.
    pub life: u64,
    pub direction: Direction,
    pub position: Position,
    pub genome: Genome,
    pub program_counter: usize,
    /// Width and height of the grid.
    pub world_bounds: Position,
    pub generation: u64,
    /// Id of the founding ancestor.
    pub strain: u64,
}

impl Creature {
    pub open spec fn wf(self) -> bool {
        &&& 0 < self.world_bounds.x
        &&& 0 < self.world_bounds.y
        &&& self.position.in_bounds(self.world_bounds.x as int, self.world_bounds.y as int)
        &&& self.life <= MAX_LIFE
        &&& self.program_counter < PATTERN_LEN
        &&& self.genome.wf()
    }

    pub open spec fn alive(self) -> bool {
        self.life > 0
    }

    /// Energy gained from one meal.
    pub open spec fn meal(self) -> int {
        self.genome.trait_set.eating_efficiency.spec_value()
    }

    /// Energy lost per tick: `1 / d + 1` whole units, where `d` is the
    /// effective aging-speed divisor.
    pub open spec fn aging_decrement(self) -> int {
        (UNIT * UNIT) as int / self.genome.trait_set.aging_speed_divisor.spec_value() + UNIT
    }

    pub open spec fn moved_by(self, dx: int, dy: int) -> Creature {
        Creature {
            position: Position {
                x: wrap(self.position.x + dx, self.world_bounds.x as int) as i32,
                y: wrap(self.position.y + dy, self.world_bounds.y as int) as i32,
            },
            ..self
        }
    }

    pub proof fn lemma_moved_in_bounds(self, dx: int, dy: int)
        requires
            0 < self.world_bounds.x,
            0 < self.world_bounds.y,
        ensures
            self.moved_by(dx, dy).position.in_bounds(
                self.world_bounds.x as int,
                self.world_bounds.y as int,
            ),
    {
        let w = self.world_bounds.x as int;
        let h = self.world_bounds.y as int;
        assert(0 <= wrap(self.position.x + dx, w) < w);
        assert(0 <= wrap(self.position.y + dy, h) < h);
    }

    pub open spec fn acted(self, action: Action, random_right: bool) -> Creature {
        match action {
            Action::MoveForward => self.moved_by(self.direction.dx(), self.direction.dy()),
            Action::TurnLeft => Creature { direction: self.direction.left(), ..self },
            Action::TurnRight => Creature { direction: self.direction.right(), ..self },
            Action::TurnRandom => Creature {
                direction: if random_right {
                    self.direction.right()
                } else {
                    self.direction.left()
                },
                ..self
            },
        }
    }

    /// One tick of an organism: eat if food is here, perform the current
    /// action, advance the program counter cyclically, then age. A dead
    /// organism does not change. `random_right` resolves a random turn.
    pub open spec fn stepped(self, plant_is_here: bool, random_right: bool) -> Creature {
        if !self.alive() {
            self
        } else {
            let eaten = if plant_is_here {
                fed(self.life as int, self.meal())
            } else {
                self.life as int
            };
            let acted = self.acted(
                self.genome.behavior.action_pattern@[self.program_counter as int],
                random_right,
            );
            Creature {
                life: aged(eaten, self.aging_decrement()) as u64,
                program_counter: ((self.program_counter + 1) % (PATTERN_LEN as int)) as usize,
                ..acted
            }
        }
    }

    pub proof fn lemma_stepped_wf(self, plant_is_here: bool, random_right: bool)
        requires
            self.wf(),
        ensures
            self.stepped(plant_is_here, random_right).wf(),
            self.stepped(plant_is_here, random_right).id == self.id,
            self.stepped(plant_is_here, random_right).world_bounds == self.world_bounds,
            self.stepped(plant_is_here, random_right).alive() ==> self.alive(),
    {
        if self.alive() {
            self.lemma_moved_in_bounds(self.direction.dx(), self.direction.dy());
            self.genome.trait_set.aging_speed_divisor.lemma_value_bounds();
            let d = self.genome.trait_set.aging_speed_divisor.spec_value();
            assert((UNIT * UNIT) as int / d >= 0) by (nonlinear_arith)
                requires d > 0;
        }
    }

    /// A dead organism is frozen: a tick leaves its position, direction,
    /// program counter and every other field as they were.
    pub proof fn lemma_dead_frozen(self, plant_is_here: bool, random_right: bool)
        requires
            !self.alive(),
        ensures
            self.stepped(plant_is_here, random_right) == self,
    {
    }

    /// The offspring of `divide`.
    pub open spec fn offspring(self, id: u64) -> Creature {
        Creature {
            id,
            life: MAX_LIFE,
            direction: self.direction.right(),
            program_counter: 0,
            generation: (self.generation + 1) as u64,
            ..self
        }
    }

    /// A generation-one organism with full energy, facing `direction`, with
    /// the traits of a fresh genome.
    pub open spec fn founded(
        self,
        position: Position,
        world_bounds: Position,
        name_bytes: Seq<u8>,
        generation: u64,
        id: u64,
    ) -> bool {
        &&& self.id == id
        &&& self.name@ == crate::text::name_field(name_bytes)
        &&& self.life == MAX_LIFE
        &&& self.position == position
        &&& self.world_bounds == world_bounds
        &&& self.program_counter == 0
        &&& self.generation == generation
        &&& self.strain == id
        &&& self.genome.wf()
        &&& self.genome.trait_set.aging_speed_divisor.value == crate::genome::EVEN_MAGNITUDE
        &&& self.genome.trait_set.aging_speed_divisor.weight == crate::genome::AGING_WEIGHT
        &&& self.genome.trait_set.eating_efficiency.value == crate::genome::EVEN_MAGNITUDE
        &&& self.genome.trait_set.eating_efficiency.weight == crate::genome::EATING_WEIGHT
    }

    /// A successor of `ancestor` in a new world, up to its direction, which
    /// is drawn at random.
    pub open spec fn spawned(
        self,
        ancestor: Creature,
        id: u64,
        position: Position,
        world_bounds: Position,
    ) -> bool {
        self == Creature {
            id,
            name: ancestor.name,
            life: MAX_LIFE,
            position,
            direction: self.direction,
            genome: ancestor.genome,
            program_counter: 0,
            world_bounds,
            generation: (ancestor.generation + 1) as u64,
            strain: id,
        }
    }

    pub fn new(
        position: Position,
        world_bounds: Position,
        name: &str,
        generation: u64,
        id: u64,
        random: &mut RandomSource,
    ) -> (r: Creature)
        ensures
            r.founded(position, world_bounds, name.spec_bytes(), generation, id),
    {
        let direction = Direction::random(random);
        Creature {
            id,
            name: array_from_str(name),
            life: MAX_LIFE,
            position,
            direction,
            genome: Genome::new_even_distribution(random),
            program_counter: 0,
            world_bounds,
            generation,
            strain: id,
        }
    }

    /// A successor of `creature` for another world: its name and genome,
    /// full energy, a new id that also starts a new strain, the next
    /// generation, and a random direction.
    pub fn new_from_old(
        creature: &Creature,
        id: u64,
        position: Position,
        world_bounds: Position,
        random: &mut RandomSource,
    ) -> (r: Creature)
        requires
            creature.generation < u64::MAX,
        ensures
            r.spawned(*creature, id, position, world_bounds),
    {
        let direction = Direction::random(random);
        Creature {
            id,
            name: creature.name,
            life: MAX_LIFE,
            position,
            direction,
            genome: creature.genome,
            program_counter: 0,
            world_bounds,
            generation: creature.generation + 1,
            strain: id,
        }
    }

    pub fn id(&self) -> (r: u64)
        ensures
            r == self.id,
    {
        self.id
    }

    pub fn generation(&self) -> (r: u64)
        ensures
            r == self.generation,
    {
        self.generation
    }

    pub fn program_counter(&self) -> (r: usize)
        ensures
            r == self.program_counter,
    {
        self.program_counter
    }

    pub fn move_forward(&mut self)
        requires
            0 < old(self).world_bounds.x,
            0 < old(self).world_bounds.y,
        ensures
            *final(self) == old(self).moved_by(old(self).direction.dx(), old(self).direction.dy()),
    {
        match self.direction {
            Direction::North => self.move_relative(0, 1),
            Direction::South => self.move_relative(0, -1),
            Direction::East => self.move_relative(1, 0),
            Direction::West => self.move_relative(-1, 0),
        }
    }

    pub fn turn_right(&mut self)
        ensures
            *final(self) == (Creature { direction: old(self).direction.right(), ..*old(self) }),
    {
        match self.direction {
            Direction::North => self.direction = Direction::East,
            Direction::South => self.direction = Direction::West,
            Direction::East => self.direction = Direction::South,
            Direction::West => self.direction = Direction::North,
        }
    }

    pub fn turn_left(&mut self)
        ensures
            *final(self) == (Creature { direction: old(self).direction.left(), ..*old(self) }),
    {
        match self.direction {
            Direction::North => self.direction = Direction::West,
            Direction::South => self.direction = Direction::East,
            Direction::East => self.direction = Direction::North,
            Direction::West => self.direction = Direction::South,
        }
    }

    /// A left or a right turn, chosen by a fair coin.
    pub fn random_turn(&mut self, random: &mut RandomSource)
        ensures
            final(self).direction == old(self).direction.right() || final(self).direction
                == old(self).direction.left(),
            *final(self) == (Creature { direction: final(self).direction, ..*old(self) }),
    {
        if random.coin() {
            self.turn_right();
        } else {
            self.turn_left();
        }
    }

    pub fn is_alive(&self) -> (r: bool)
        ensures
            r == self.alive(),
    {
        self.life > 0
    }

    /// Moves by `(x, y)` and wraps each coordinate into the grid, modulo its
    /// bound.
    pub fn move_relative(&mut self, x: i32, y: i32)
        requires
            0 < old(self).world_bounds.x,
            0 < old(self).world_bounds.y,
        ensures
            *final(self) == old(self).moved_by(x as int, y as int),
    {
        let nx = (self.position.x as i64 + x as i64).checked_rem_euclid(self.world_bounds.x as i64);
        let ny = (self.position.y as i64 + y as i64).checked_rem_euclid(self.world_bounds.y as i64);
        match (nx, ny) {
            (Some(nx), Some(ny)) => {
                self.position.x = nx as i32;
                self.position.y = ny as i32;
            },
            _ => {},
        }
    }

    fn age(&mut self)
        requires
            old(self).genome.wf(),
        ensures
            *final(self) == (Creature {
                life: aged(old(self).life as int, old(self).aging_decrement()) as u64,
                ..*old(self)
            }),
            final(self).life <= old(self).life,
    {
        let d = self.genome.trait_set.aging_speed_divisor.get_value();
        assert((UNIT * UNIT) as int / d as int >= 0) by (nonlinear_arith)
            requires d > 0;
        let n = UNIT * UNIT / d + UNIT;
        if self.life < n {
            self.life = 0;
            return;
        }
        self.life = self.life - n;
    }

    /// One tick, with the side of a random turn given by `random_right`.
    pub fn step_resolved(&mut self, plant_is_here: bool, random_right: bool)
        requires
            old(self).wf(),
        ensures
            *final(self) == old(self).stepped(plant_is_here, random_right),
            final(self).wf(),
    {
        if self.is_alive() {
            if plant_is_here {
                self.life = self.life + self.genome.trait_set.eating_efficiency.get_value();
                if self.life > MAX_LIFE {
                    self.life = MAX_LIFE;
                }
            }
            proof {
                self.lemma_moved_in_bounds(self.direction.dx(), self.direction.dy());
            }
            let action = self.genome.behavior.action_pattern[self.program_counter];
            match action {
                Action::MoveForward => self.move_forward(),
                Action::TurnLeft => self.turn_left(),
                Action::TurnRandom => {
                    if random_right {
                        self.turn_right();
                    } else {
                        self.turn_left();
                    }
                },
                Action::TurnRight => self.turn_right(),
            }
            self.program_counter = self.program_counter + 1;
            if self.program_counter >= PATTERN_LEN {
                self.program_counter = 0;
            }
            self.age();
        }
    }

    /// One tick; a random turn is resolved by a fair coin.
    pub fn step(&mut self, plant_is_here: bool, random: &mut RandomSource)
        requires
            old(self).wf(),
        ensures
            exists|random_right: bool|
                *final(self) == old(self).stepped(plant_is_here, random_right),
            final(self).wf(),
    {
        let random_right = random.coin();
        self.step_resolved(plant_is_here, random_right);
    }

    /// One offspring: the same genome, name, position and strain, full
    /// energy, the next generation, the given id, and a forced right turn.
    pub fn divide(&self, id: u64) -> (r: Creature)
        requires
            self.generation < u64::MAX,
        ensures
            r == self.offspring(id),
    {
        let mut offspring = Creature {
            id,
            name: self.name,
            life: MAX_LIFE,
            position: Position::new(self.position.x, self.position.y),
            direction: self.direction,
            genome: self.genome,
            program_counter: 0,
            world_bounds: self.world_bounds,
            generation: self.generation + 1,
            strain: self.strain,
        };
        offspring.turn_right();
        offspring
    }
}

} // verus!
