use vstd::prelude::*;

verus! {

/// Whether a door has been opened.
#[derive(Clone, Copy, Debug, PartialEq, Eq, Structural)]
pub enum State {
    Closed,
    Open,
}

/// One of the three doors of a round.
#[derive(Clone, Copy, Debug, PartialEq, Eq, Structural)]
pub struct Door {
    pub state: State,
    pub has_prize: bool,
    pub is_selected: bool,
}

impl Door {
    /// The door is open.
    pub open spec fn spec_is_open(&self) -> bool {
        self.state == State::Open
    }

    /// A closed door, without the prize, that nobody has picked.
    pub fn new() -> (d: Door)
        ensures
            !d.spec_is_open(),
            !d.has_prize,
            !d.is_selected,
    {
        Door { state: State::Closed, has_prize: false, is_selected: false }
    }

    pub fn is_open(&self) -> (r: bool)
        ensures
            r == self.spec_is_open(),
    {
        match self.state {
            State::Open => true,
            State::Closed => false,
        }
    }

    /// Opens the door; the prize and the selection stay as they were.
    pub fn open(&mut self)
        ensures
            final(self).spec_is_open(),
            final(self).has_prize == old(self).has_prize,
            final(self).is_selected == old(self).is_selected,
    {
        self.state = State::Open;
    }
}

} // verus!
