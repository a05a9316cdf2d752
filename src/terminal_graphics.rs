use vstd::prelude::*;

verus! {

/// What a viewer of the history asked for.
#[derive(Clone, Copy, Debug, PartialEq, Eq, Structural)]
pub enum Interaction {
    Back,
    Down,
    Forward,
    Halt,
    Left,
    Pause,
    Progress,
    Right,
    SlowDown,
    SpeedUp,
    ToggleShowDead,
    Up,
}

impl Interaction {
    pub open spec fn spec_from_key(c: char) -> Option<Interaction> {
        if c == ' ' || c == 'p' {
            Some(Interaction::Pause)
        } else if c == ',' {
            Some(Interaction::Back)
        } else if c == '.' {
            Some(Interaction::Forward)
        } else if c == 'd' {
            Some(Interaction::ToggleShowDead)
        } else if c == 'h' {
            Some(Interaction::Left)
        } else if c == 'j' {
            Some(Interaction::Down)
        } else if c == 'k' {
            Some(Interaction::Up)
        } else if c == 'l' {
            Some(Interaction::Right)
        } else if c == 'q' {
            Some(Interaction::Halt)
        } else if c == '[' {
            Some(Interaction::SpeedUp)
        } else if c == ']' {
            Some(Interaction::SlowDown)
        } else {
            None
        }
    }

    /// The interaction bound to a character key, if any.
    pub fn from_key(c: char) -> (r: Option<Interaction>)
        ensures
            r == Self::spec_from_key(c),
    {
        if c == ' ' || c == 'p' {
            Some(Interaction::Pause)
        } else if c == ',' {
            Some(Interaction::Back)
        } else if c == '.' {
            Some(Interaction::Forward)
        } else if c == 'd' {
            Some(Interaction::ToggleShowDead)
        } else if c == 'h' {
            Some(Interaction::Left)
        } else if c == 'j' {
            Some(Interaction::Down)
        } else if c == 'k' {
            Some(Interaction::Up)
        } else if c == 'l' {
            Some(Interaction::Right)
        } else if c == 'q' {
            Some(Interaction::Halt)
        } else if c == '[' {
            Some(Interaction::SpeedUp)
        } else if c == ']' {
            Some(Interaction::SlowDown)
        } else {
            None
        }
    }
}

/// The inspection cursor of the viewer.
#[derive(Clone, Copy, Debug, PartialEq, Eq, Structural)]
pub struct Cursor {
    pub show: bool,
    pub x: i32,
    pub y: i32,
}

/// Bounds and step of the delay between frames, in milliseconds.
pub const MIN_FRAME_DELAY: u64 = 10;
pub const MAX_FRAME_DELAY: u64 = 1000;
pub const FRAME_DELAY_STEP: u64 = 10;

/// `v` moved by `d`, or left as it is where that leaves `i32`.
pub open spec fn nudged(v: i32, d: int) -> i32 {
    if i32::MIN <= v + d <= i32::MAX {
        (v + d) as i32
    } else {
        v
    }
}

fn nudge(v: i32, up: bool) -> (r: i32)
    ensures
        r == nudged(v, if up {
            1int
        } else {
            -1int
        }),
{
    if up {
        if v < i32::MAX {
            v + 1
        } else {
            v
        }
    } else {
        if v > i32::MIN {
            v - 1
        } else {
            v
        }
    }
}

/// State of a viewer stepping through a recorded history: which frame is
/// shown, how fast frames advance, and where the cursor stands.
#[derive(Clone, Copy, Debug, PartialEq, Eq, Structural)]
pub struct Viewer {
    pub frame_count: usize,
    pub frame_delay: u64,
    pub is_paused: bool,
    pub show_dead: bool,
    pub cursor: Cursor,
}

impl Viewer {
    /// The viewer after `interaction`, on a history of `frames` frames.
    /// The cursor is shown exactly while paused, and the frame index wraps
    /// to the first frame past the last one.
    pub open spec fn after(self, interaction: Interaction, frames: int) -> Viewer {
        let v = match interaction {
            Interaction::Progress => if self.is_paused {
                self
            } else {
                Viewer { frame_count: (self.frame_count + 1) as usize, ..self }
            },
            Interaction::Pause => Viewer { is_paused: !self.is_paused, ..self },
            Interaction::ToggleShowDead => Viewer { show_dead: !self.show_dead, ..self },
            Interaction::Back => if self.frame_count > 0 {
                Viewer { frame_count: (self.frame_count - 1) as usize, ..self }
            } else {
                self
            },
            Interaction::Forward => Viewer { frame_count: (self.frame_count + 1) as usize, ..self },
            Interaction::Up => Viewer {
                cursor: Cursor { y: nudged(self.cursor.y, 1), ..self.cursor },
                ..self
            },
            Interaction::Down => Viewer {
                cursor: Cursor { y: nudged(self.cursor.y, -1), ..self.cursor },
                ..self
            },
            Interaction::Left => Viewer {
                cursor: Cursor { x: nudged(self.cursor.x, -1), ..self.cursor },
                ..self
            },
            Interaction::Right => Viewer {
                cursor: Cursor { x: nudged(self.cursor.x, 1), ..self.cursor },
                ..self
            },
            Interaction::SpeedUp => Viewer {
                frame_delay: if self.frame_delay < MIN_FRAME_DELAY + FRAME_DELAY_STEP {
                    MIN_FRAME_DELAY
                } else {
                    (self.frame_delay - FRAME_DELAY_STEP) as u64
                },
                ..self
            },
            Interaction::SlowDown => Viewer {
                frame_delay: if self.frame_delay + FRAME_DELAY_STEP > MAX_FRAME_DELAY {
                    MAX_FRAME_DELAY
                } else {
                    (self.frame_delay + FRAME_DELAY_STEP) as u64
                },
                ..self
            },
            Interaction::Halt => self,
        };
        Viewer {
            frame_count: if v.frame_count == frames {
                0
            } else {
                v.frame_count
            },
            cursor: Cursor { show: v.is_paused, ..v.cursor },
            ..v
        }
    }

    /// A viewer at the first frame, running, with the cursor at the center
    /// of a `width` by `height` grid.
    pub fn new(width: usize, height: usize, frame_delay: u64) -> (r: Viewer)
        requires
            width <= i32::MAX,
            height <= i32::MAX,
        ensures
            r.frame_count == 0,
            r.frame_delay == frame_delay,
            !r.is_paused,
            !r.show_dead,
            r.cursor == (Cursor { show: false, x: (width / 2) as i32, y: (height / 2) as i32 }),
    {
        Viewer {
            frame_count: 0,
            frame_delay,
            is_paused: false,
            show_dead: false,
            cursor: Cursor { show: false, x: (width / 2) as i32, y: (height / 2) as i32 },
        }
    }

    /// Applies `interaction` on a history of `frames` frames; returns false
    /// on `Halt`, leaving the viewer as it is.
    pub fn apply(&mut self, interaction: Interaction, frames: usize) -> (running: bool)
        requires
            old(self).frame_count < frames,
        ensures
            running == (interaction != Interaction::Halt),
            running ==> *final(self) == old(self).after(interaction, frames as int),
            !running ==> *final(self) == *old(self),
            final(self).frame_count < frames,
    {
        match interaction {
            Interaction::Halt => {
                return false;
            },
            Interaction::Progress => {
                if !self.is_paused {
                    self.frame_count = self.frame_count + 1;
                }
            },
            Interaction::Pause => {
                self.is_paused = !self.is_paused;
            },
            Interaction::ToggleShowDead => {
                self.show_dead = !self.show_dead;
            },
            Interaction::Back => {
                if self.frame_count > 0 {
                    self.frame_count = self.frame_count - 1;
                }
            },
            Interaction::Forward => {
                self.frame_count = self.frame_count + 1;
            },
            Interaction::Up => {
                self.cursor.y = nudge(self.cursor.y, true);
            },
            Interaction::Down => {
                self.cursor.y = nudge(self.cursor.y, false);
            },
            Interaction::Left => {
                self.cursor.x = nudge(self.cursor.x, false);
            },
            Interaction::Right => {
                self.cursor.x = nudge(self.cursor.x, true);
            },
            Interaction::SpeedUp => {
                if self.frame_delay < MIN_FRAME_DELAY + FRAME_DELAY_STEP {
                    self.frame_delay = MIN_FRAME_DELAY;
                } else {
                    self.frame_delay = self.frame_delay - FRAME_DELAY_STEP;
                }
            },
            Interaction::SlowDown => {
                if self.frame_delay > MAX_FRAME_DELAY - FRAME_DELAY_STEP {
                    self.frame_delay = MAX_FRAME_DELAY;
                } else {
                    self.frame_delay = self.frame_delay + FRAME_DELAY_STEP;
                }
            },
        }
        if self.frame_count == frames {
            self.frame_count = 0;
        }
        self.cursor.show = self.is_paused;
        true
    }
}

} // verus!
