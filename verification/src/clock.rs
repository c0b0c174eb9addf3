//! The in-game clock: hours and minutes, with minutes kept below 60 by
//! carrying whole hours. Hours accumulate without an upper modulus (no
//! day rollover).

use vstd::prelude::*;

verus! {

/// A clock value. Well-formed when `mins < 60`; `hrs` is unbounded.
pub struct MyTime {
    pub hrs: u32,
    pub mins: u32,
}

impl MyTime {
    /// The clock invariant: minutes are normalized below one hour.
    pub open spec fn wf(self) -> bool {
        self.mins < 60
    }

    /// Total elapsed minutes represented by this clock value.
    pub open spec fn total_mins(self) -> int {
        self.hrs * 60 + self.mins
    }

    pub fn new(hrs: u32, mins: u32) -> (r: MyTime)
        ensures
            r.hrs == hrs,
            r.mins == mins,
    {
        MyTime { hrs, mins }
    }

    /// Advance the clock by `mins` minutes, carrying whole hours so
    /// that the minute field ends up below 60 — from any starting
    /// value, normalized or not. The hours accumulate without an upper
    /// modulus.
    pub fn progress(&mut self, mins: u32)
        requires
            old(self).mins + mins <= u32::MAX,
            old(self).hrs + (old(self).mins + mins) / 60 <= u32::MAX,
        ensures
            final(self).wf(),
            final(self).mins == (old(self).mins + mins) % 60,
            final(self).hrs == old(self).hrs + (old(self).mins + mins) / 60,
            final(self).total_mins() == old(self).total_mins() + mins,
    {
        self.mins += mins;
        self.hrs += self.mins / 60;
        self.mins %= 60;
    }
}

} // verus!
