use crate::creature::Direction;
use crate::position::Position;
use vstd::prelude::*;

verus! {

/// A glyph and its strength; a weaker glyph never covers a stronger one.
pub type Slot = (char, i32);

pub open spec fn glyph_of(direction: Direction) -> char {
    match direction {
        Direction::North => '^',
        Direction::South => 'v',
        Direction::East => '>',
        Direction::West => '<',
    }
}

/// `grid` with `slot` written at `position`, where the position is on the
/// grid and the new strength exceeds the old one.
pub open spec fn with_slot(grid: Seq<Seq<Slot>>, position: Position, slot: Slot) -> Seq<Seq<Slot>> {
    if 0 <= position.y < grid.len() && 0 <= position.x < grid[position.y as int].len()
        && slot.1 > grid[position.y as int][position.x as int].1 {
        grid.update(
            position.y as int,
            grid[position.y as int].update(position.x as int, slot),
        )
    } else {
        grid
    }
}

/// The slot an organism paints: a cross for a dead one, else an arrow of
/// its heading with its energy as strength.
pub open spec fn creature_slot(direction: Direction, life: i32) -> Slot {
    if life == 0 {
        ('x', 1)
    } else {
        (glyph_of(direction), life)
    }
}

/// A character grid of the world, one row per `y`.
pub struct GridMap {
    pub width: usize,
    pub height: usize,
    pub slots: Vec<Vec<Slot>>,
    pub name: String,
}

impl GridMap {
    pub open spec fn grid(self) -> Seq<Seq<Slot>> {
        self.slots@.map_values(|row: Vec<Slot>| row@)
    }

    pub open spec fn wf(self) -> bool {
        &&& self.slots.len() == self.height
        &&& forall|y: int| 0 <= y < self.height ==> (#[trigger] self.slots@[y]).len() == self.width
    }

    /// A blank grid: every slot is a space of strength zero.
    pub fn new(width: usize, height: usize, name: String) -> (r: GridMap)
        ensures
            r.wf(),
            r.width == width,
            r.height == height,
            r.name == name,
            r.grid() == Seq::new(height as nat, |y: int| Seq::new(width as nat, |x: int| (' ', 0i32))),
    {
        let mut slots: Vec<Vec<Slot>> = Vec::new();
        let mut y: usize = 0;
        while y < height
            invariant
                y <= height,
                slots.len() == y,
                forall|j: int| 0 <= j < y ==> (#[trigger] slots@[j])@ == Seq::new(width as nat, |x: int| (' ', 0i32)),
            decreases height - y,
        {
            let mut row: Vec<Slot> = Vec::new();
            let mut x: usize = 0;
            while x < width
                invariant
                    x <= width,
                    row@ == Seq::new(x as nat, |i: int| (' ', 0i32)),
                decreases width - x,
            {
                row.push((' ', 0));
                x = x + 1;
                assert(row@ =~= Seq::new(x as nat, |i: int| (' ', 0i32)));
            }
            slots.push(row);
            y = y + 1;
        }
        let r = GridMap { width, height, slots, name };
        assert(r.grid() =~= Seq::new(height as nat, |y: int| Seq::new(width as nat, |x: int| (' ', 0i32))));
        r
    }

    /// The slot at `position`; a blank one off the grid.
    pub fn get_slot(&self, position: Position) -> (r: Slot)
        requires
            self.wf(),
        ensures
            r == if position.in_bounds(self.width as int, self.height as int) {
                self.grid()[position.y as int][position.x as int]
            } else {
                (' ', 0i32)
            },
    {
        if position.x >= 0 && (position.x as usize) < self.width {
            if position.y >= 0 && (position.y as usize) < self.height {
                return self.slots[position.y as usize][position.x as usize];
            }
        }
        (' ', 0)
    }

    /// Writes `(character, life)` at `position` if it is on the grid and
    /// stronger than what is there.
    pub fn set_slot(&mut self, position: Position, character: char, life: i32)
        requires
            old(self).wf(),
        ensures
            final(self).wf(),
            final(self).width == old(self).width,
            final(self).height == old(self).height,
            final(self).name == old(self).name,
            final(self).grid() == with_slot(old(self).grid(), position, (character, life)),
    {
        if position.x >= 0 && (position.x as usize) < self.width {
            if position.y >= 0 && (position.y as usize) < self.height {
                let curr = self.get_slot(position).1;
                if life > curr {
                    let y = position.y as usize;
                    let x = position.x as usize;
                    self.slots[y][x] = (character, life);
                    assert(self.grid() =~= with_slot(old(self).grid(), position, (character, life)));
                    return;
                }
            }
        }
        assert(self.grid() =~= with_slot(old(self).grid(), position, (character, life)));
    }

    /// Paints an organism: an arrow of its heading, or a cross if dead.
    pub fn set_creature(&mut self, position: Position, direction: Direction, life: i32)
        requires
            old(self).wf(),
        ensures
            final(self).wf(),
            final(self).width == old(self).width,
            final(self).height == old(self).height,
            final(self).name == old(self).name,
            final(self).grid() == with_slot(old(self).grid(), position, creature_slot(direction, life)),
    {
        if life == 0 {
            self.set_slot(position, 'x', 1);
            return;
        }
        match direction {
            Direction::North => self.set_slot(position, '^', life),
            Direction::South => self.set_slot(position, 'v', life),
            Direction::East => self.set_slot(position, '>', life),
            Direction::West => self.set_slot(position, '<', life),
        }
    }

    /// Paints food.
    pub fn set_plant(&mut self, position: Position)
        requires
            old(self).wf(),
        ensures
            final(self).wf(),
            final(self).width == old(self).width,
            final(self).height == old(self).height,
            final(self).name == old(self).name,
            final(self).grid() == with_slot(old(self).grid(), position, ('.', 2i32)),
    {
        self.set_slot(position, '.', 2);
    }
}

} // verus!
