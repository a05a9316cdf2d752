use crate::position::Position;
use vstd::prelude::*;

verus! {

/// A food item at a fixed cell.
#[derive(Clone, Copy, Debug, PartialEq)]
pub struct Plant {
    pub position: Position,
}

impl Plant {
    pub fn new(position: Position) -> (r: Plant)
        ensures
            r.position == position,
    {
        Plant { position }
    }
}

} // verus!
