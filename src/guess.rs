//! A guess in a number-guessing game, valid by construction.
use vstd::prelude::*;

verus! {

/// A number between 1 and 100.
pub struct Guess {
    value: i32,
}

impl Guess {
    /// The number held.
    pub closed spec fn view_value(&self) -> i32 {
        self.value
    }

    /// Always between 1 and 100.
    pub open spec fn wf(&self) -> bool {
        1 <= self.view_value() <= 100
    }

    /// A guess of `value`, which must lie between 1 and 100.
    pub fn new(value: i32) -> (g: Guess)
        requires
            1 <= value <= 100,
        ensures
            g.wf(),
            g.view_value() == value,
    {
        Guess { value }
    }

    /// The number guessed.
    pub fn value(&self) -> (v: i32)
        ensures
            v == self.view_value(),
    {
        self.value
    }
}

} // verus!
