use vstd::prelude::*;

verus! {

/// The state of one grid cell. `Dying` and `Spawning` are one-step markers
/// that animate a death or a birth before the cell settles to `Off` or `On`.
#[derive(Clone, Copy, Debug, PartialEq, Eq, Structural)]
pub enum CellState {
    Off,
    On,
    Dying,
    Spawning,
}

/// A cell counts as alive for its neighbours when it is `On` or `Dying`.
pub open spec fn is_live(c: CellState) -> bool {
    c == CellState::On || c == CellState::Dying
}

/// The resolve half-step on one cell: pending transitions settle.
pub open spec fn resolved(c: CellState) -> CellState {
    match c {
        CellState::Dying => CellState::Off,
        CellState::Spawning => CellState::On,
        other => other,
    }
}

/// The mark half-step on one cell with `count` live neighbours.
pub open spec fn marked(c: CellState, count: int) -> CellState {
    if c == CellState::On && (count < 2 || count > 3) {
        CellState::Dying
    } else if c == CellState::Off && count == 3 {
        CellState::Spawning
    } else {
        c
    }
}

impl CellState {
    pub fn is_live(&self) -> (r: bool)
        ensures
            r == is_live(*self),
    {
        match self {
            CellState::On | CellState::Dying => true,
            _ => false,
        }
    }

    /// The state this cell takes in a resolve half-step.
    pub fn resolve(&self) -> (r: CellState)
        ensures
            r == resolved(*self),
    {
        match self {
            CellState::Dying => CellState::Off,
            CellState::Spawning => CellState::On,
            CellState::Off => CellState::Off,
            CellState::On => CellState::On,
        }
    }

    /// The state this cell takes in a mark half-step with `count` live neighbours.
    pub fn mark(&self, count: u8) -> (r: CellState)
        ensures
            r == marked(*self, count as int),
    {
        match self {
            CellState::On => if count < 2 || count > 3 {
                CellState::Dying
            } else {
                CellState::On
            },
            CellState::Off => if count == 3 {
                CellState::Spawning
            } else {
                CellState::Off
            },
            CellState::Dying => CellState::Dying,
            CellState::Spawning => CellState::Spawning,
        }
    }

    /// The word that stands for this state in the grid's byte buffer.
    pub fn code(&self) -> (r: u32)
        ensures
            r == cell_code(*self),
    {
        match self {
            CellState::Off => 0,
            CellState::On => 1,
            CellState::Dying => 2,
            CellState::Spawning => 3,
        }
    }
}

/// The 32-bit word of each state, in declaration order.
pub open spec fn cell_code(c: CellState) -> u32 {
    match c {
        CellState::Off => 0,
        CellState::On => 1,
        CellState::Dying => 2,
        CellState::Spawning => 3,
    }
}

impl Default for CellState {
    fn default() -> (r: CellState)
        ensures
            r == CellState::Off,
    {
        CellState::Off
    }
}

} // verus!
