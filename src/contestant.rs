use vstd::prelude::*;

verus! {

/// A fixed way of playing: the door picked first, and whether to switch after
/// the host's reveal.
#[derive(Clone, Copy, Debug, PartialEq, Eq, Structural)]
pub struct Contestant {
    /// The index of the door picked first, in `[0, 3)`.
    pub choice: usize,
    /// Whether the contestant switches after the reveal.
    pub changes_door: bool,
}

impl Contestant {
    /// Picks the first door and keeps it.
    pub fn new_alice() -> (c: Contestant)
        ensures
            c.choice == 0,
            !c.changes_door,
    {
        Contestant { choice: 0, changes_door: false }
    }

    /// Picks the first door and switches.
    pub fn new_bob() -> (c: Contestant)
        ensures
            c.choice == 0,
            c.changes_door,
    {
        Contestant { choice: 0, changes_door: true }
    }
}

} // verus!
