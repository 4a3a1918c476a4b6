//! Counters for the outcomes of a whole run.

use vstd::prelude::*;

verus! {

/// Counters for every file seen during a traversal.  Exactly one terminal
/// outcome is recorded per processed file; a rename can co-occur with a copy
/// or a move, so `renamed` is not part of the balance below.
pub struct Stats {
    pub tot: u32,
    pub copied: u32,
    pub moved: u32,
    pub renamed: u32,
    pub already_present: u32,
    pub skipped: u32,
}

impl Stats {
    /// Every processed file is accounted for by exactly one terminal outcome.
    pub open spec fn balanced(self) -> bool {
        self.tot as int == self.copied as int + self.moved as int
            + self.already_present as int + self.skipped as int
    }

    pub fn new() -> (r: Stats)
        ensures
            r.tot == 0,
            r.copied == 0,
            r.moved == 0,
            r.renamed == 0,
            r.already_present == 0,
            r.skipped == 0,
    {
        Stats { tot: 0, copied: 0, moved: 0, renamed: 0, already_present: 0, skipped: 0 }
    }

    pub fn inc_tot(&mut self)
        requires
            old(self).tot < u32::MAX,
        ensures
            final(self).tot == old(self).tot + 1,
            final(self).copied == old(self).copied,
            final(self).moved == old(self).moved,
            final(self).renamed == old(self).renamed,
            final(self).already_present == old(self).already_present,
            final(self).skipped == old(self).skipped,
    {
        self.tot += 1;
    }

    pub fn inc_copied(&mut self)
        requires
            old(self).copied < u32::MAX,
        ensures
            final(self).copied == old(self).copied + 1,
            final(self).tot == old(self).tot,
            final(self).moved == old(self).moved,
            final(self).renamed == old(self).renamed,
            final(self).already_present == old(self).already_present,
            final(self).skipped == old(self).skipped,
    {
        self.copied += 1;
    }

    pub fn inc_moved(&mut self)
        requires
            old(self).moved < u32::MAX,
        ensures
            final(self).moved == old(self).moved + 1,
            final(self).tot == old(self).tot,
            final(self).copied == old(self).copied,
            final(self).renamed == old(self).renamed,
            final(self).already_present == old(self).already_present,
            final(self).skipped == old(self).skipped,
    {
        self.moved += 1;
    }

    pub fn inc_renamed(&mut self)
        requires
            old(self).renamed < u32::MAX,
        ensures
            final(self).renamed == old(self).renamed + 1,
            final(self).tot == old(self).tot,
            final(self).copied == old(self).copied,
            final(self).moved == old(self).moved,
            final(self).already_present == old(self).already_present,
            final(self).skipped == old(self).skipped,
    {
        self.renamed += 1;
    }

    pub fn inc_already_present(&mut self)
        requires
            old(self).already_present < u32::MAX,
        ensures
            final(self).already_present == old(self).already_present + 1,
            final(self).tot == old(self).tot,
            final(self).copied == old(self).copied,
            final(self).moved == old(self).moved,
            final(self).renamed == old(self).renamed,
            final(self).skipped == old(self).skipped,
    {
        self.already_present += 1;
    }

    pub fn inc_skipped(&mut self)
        requires
            old(self).skipped < u32::MAX,
        ensures
            final(self).skipped == old(self).skipped + 1,
            final(self).tot == old(self).tot,
            final(self).copied == old(self).copied,
            final(self).moved == old(self).moved,
            final(self).renamed == old(self).renamed,
            final(self).already_present == old(self).already_present,
    {
        self.skipped += 1;
    }
}

} // verus!
