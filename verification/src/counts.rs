//! The per-day aggregate of how many users currently hold each reaction.
//!
//! One counter per active reaction. Counters move by one at a time: a newly
//! set reaction is counted up and the reaction it replaced is counted down,
//! so that each user's current reaction is counted exactly once.

use vstd::prelude::*;

use crate::models::Reactions;

verus! {

/// Counters for every reaction that may still be written, keyed by variant.
#[derive(Clone, Copy, Debug, PartialEq, Eq, Structural)]
pub struct ReactionCounts {
    pub no_reaction: u64,
    pub funny: u64,
    pub love: u64,
    pub tough: u64,
    pub wow: u64,
}

impl ReactionCounts {
    /// All counters at zero.
    pub open spec fn spec_zero() -> ReactionCounts {
        ReactionCounts { no_reaction: 0, funny: 0, love: 0, tough: 0, wow: 0 }
    }

    /// The counter kept for an active reaction.
    pub open spec fn spec_get(self, r: Reactions) -> u64 {
        match r {
            Reactions::NoReaction => self.no_reaction,
            Reactions::Funny => self.funny,
            Reactions::Love => self.love,
            Reactions::Tough => self.tough,
            Reactions::Wow => self.wow,
            _ => 0,
        }
    }

    /// The sum of all counters.
    pub open spec fn spec_total(self) -> int {
        self.no_reaction + self.funny + self.love + self.tough + self.wow
    }

    /// `self` with the counter for `r` one higher; a counter already at its
    /// ceiling is left there.
    pub open spec fn spec_incremented(self, r: Reactions) -> ReactionCounts {
        if self.spec_get(r) == u64::MAX {
            self
        } else {
            self.spec_with(r, (self.spec_get(r) + 1) as u64)
        }
    }

    /// `self` with the counter for `r` one lower; a counter already at zero
    /// is left there.
    pub open spec fn spec_decremented(self, r: Reactions) -> ReactionCounts {
        if self.spec_get(r) == 0 {
            self
        } else {
            self.spec_with(r, (self.spec_get(r) - 1) as u64)
        }
    }

    /// `self` with the counter for `r` replaced by `v`.
    pub open spec fn spec_with(self, r: Reactions, v: u64) -> ReactionCounts {
        match r {
            Reactions::NoReaction => ReactionCounts { no_reaction: v, ..self },
            Reactions::Funny => ReactionCounts { funny: v, ..self },
            Reactions::Love => ReactionCounts { love: v, ..self },
            Reactions::Tough => ReactionCounts { tough: v, ..self },
            Reactions::Wow => ReactionCounts { wow: v, ..self },
            _ => self,
        }
    }

    /// All counters at zero: the value a day's record starts from.
    pub fn new() -> (r: ReactionCounts)
        ensures
            r == ReactionCounts::spec_zero(),
            forall|x: Reactions| r.spec_get(x) == 0,
            r.spec_total() == 0,
    {
        ReactionCounts { no_reaction: 0, funny: 0, love: 0, tough: 0, wow: 0 }
    }

    pub fn get(&self, r: Reactions) -> (v: u64)
        requires
            r.spec_is_active(),
        ensures
            v == self.spec_get(r),
    {
        match r {
            Reactions::NoReaction => self.no_reaction,
            Reactions::Funny => self.funny,
            Reactions::Love => self.love,
            Reactions::Tough => self.tough,
            Reactions::Wow => self.wow,
            Reactions::Eesh => 0,
            Reactions::Pain => 0,
        }
    }

    /// Count one more holder of `r`, holding at the ceiling rather than
    /// wrapping.
    pub fn incremented(&self, r: Reactions) -> (c: ReactionCounts)
        requires
            r.spec_is_active(),
        ensures
            c == self.spec_incremented(r),
    {
        let v: u64 = self.get(r);
        if v == u64::MAX {
            *self
        } else {
            self.with(r, v + 1)
        }
    }

    /// Count one less holder of `r`, holding at zero rather than wrapping.
    pub fn decremented(&self, r: Reactions) -> (c: ReactionCounts)
        requires
            r.spec_is_active(),
        ensures
            c == self.spec_decremented(r),
    {
        let v: u64 = self.get(r);
        if v == 0 {
            *self
        } else {
            self.with(r, v - 1)
        }
    }

    fn with(&self, r: Reactions, v: u64) -> (c: ReactionCounts)
        requires
            r.spec_is_active(),
        ensures
            c == self.spec_with(r, v),
    {
        match r {
            Reactions::NoReaction => ReactionCounts { no_reaction: v, ..*self },
            Reactions::Funny => ReactionCounts { funny: v, ..*self },
            Reactions::Love => ReactionCounts { love: v, ..*self },
            Reactions::Tough => ReactionCounts { tough: v, ..*self },
            Reactions::Wow => ReactionCounts { wow: v, ..*self },
            Reactions::Eesh => *self,
            Reactions::Pain => *self,
        }
    }

    /// The sum of all counters.
    pub fn total(&self) -> (t: u64)
        requires
            self.spec_total() <= u64::MAX,
        ensures
            t == self.spec_total(),
    {
        self.no_reaction + self.funny + self.love + self.tough + self.wow
    }
}

} // verus!
