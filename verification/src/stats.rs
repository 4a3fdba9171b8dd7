//! Running totals over one run: files changed and replacements made.

use vstd::prelude::*;

verus! {

/// Totals accumulated over a run. Monotonically incremented, never
/// decremented; additions saturate at the machine limit instead of
/// overflowing.
#[derive(Clone, Copy, Debug, PartialEq, Eq, Structural)]
pub struct Stats {
    files_patched: usize,
    total_replacements: usize,
}

/// Saturating addition on the mathematical side, mirroring what `update`
/// does to each counter.
pub open spec fn sat_add(a: nat, b: nat) -> nat {
    if a + b <= usize::MAX as nat {
        a + b
    } else {
        usize::MAX as nat
    }
}

impl Stats {
    /// A fresh counter with both totals at zero.
    pub fn new() -> (r: Stats)
        ensures
            r.spec_files_patched() == 0,
            r.spec_total_replacements() == 0,
    {
        Stats { files_patched: 0, total_replacements: 0 }
    }

    pub closed spec fn spec_files_patched(self) -> nat {
        self.files_patched as nat
    }

    pub closed spec fn spec_total_replacements(self) -> nat {
        self.total_replacements as nat
    }

    /// Record one patched file with `num_replacements` replacements.
    pub fn update(&mut self, num_replacements: usize)
        ensures
            final(self).spec_files_patched() == sat_add(old(self).spec_files_patched(), 1),
            final(self).spec_total_replacements()
                == sat_add(old(self).spec_total_replacements(), num_replacements as nat),
    {
        if self.files_patched < usize::MAX {
            self.files_patched = self.files_patched + 1;
        }
        if self.total_replacements <= usize::MAX - num_replacements {
            self.total_replacements = self.total_replacements + num_replacements;
        } else {
            self.total_replacements = usize::MAX;
        }
    }

    /// How many files had at least one replacement.
    pub fn files_patched(&self) -> (r: usize)
        ensures
            r as nat == self.spec_files_patched(),
    {
        self.files_patched
    }

    /// How many line replacements were made in all.
    pub fn total_replacements(&self) -> (r: usize)
        ensures
            r as nat == self.spec_total_replacements(),
    {
        self.total_replacements
    }
}

/// Both counters always fit in the machine word; with this bound the
/// saturating additions below can be read as plain additions.
pub proof fn lemma_stats_bounds(s: Stats)
    ensures
        s.spec_files_patched() <= usize::MAX as nat,
        s.spec_total_replacements() <= usize::MAX as nat,
{
}

/// Below the machine limit the saturating addition is plain addition: a
/// patched file with k replacements advances the totals by exactly one
/// file and k replacements.
pub proof fn lemma_sat_add_exact(a: nat, b: nat)
    requires
        a + b <= usize::MAX as nat,
    ensures
        sat_add(a, b) == a + b,
{
}

impl Default for Stats {
    /// Same as `new`: both totals at zero.
    fn default() -> (r: Stats)
        ensures
            r.spec_files_patched() == 0,
            r.spec_total_replacements() == 0,
    {
        Stats::new()
    }
}

} // verus!
