//! Running statistics of a run.
use vstd::prelude::*;
use crate::engine::MoveOutcome;

verus! {

/// How many files a run has processed, and what became of them.
#[derive(Clone, Copy, Debug, PartialEq, Eq, Structural)]
pub struct OrganizeStats {
    pub total_files: usize,
    pub moved: usize,
    pub skipped: usize,
    pub errors: usize,
}

/// Which counter an outcome goes to: 0 moved, 1 skipped, 2 failed.
pub open spec fn outcome_kind(o: MoveOutcome) -> int {
    match o {
        MoveOutcome::Moved(_) => 0,
        MoveOutcome::Skipped => 1,
        MoveOutcome::Failed(_) => 2,
    }
}

/// How many of `outcomes` are of kind `k`.
pub open spec fn count_kind(outcomes: Seq<MoveOutcome>, k: int) -> nat
    decreases outcomes.len(),
{
    if outcomes.len() == 0 {
        0
    } else {
        count_kind(outcomes.drop_last(), k) + if outcome_kind(outcomes.last()) == k {
            1nat
        } else {
            0nat
        }
    }
}

impl OrganizeStats {
    /// Every processed file was counted once: moved, skipped or failed.
    pub open spec fn balanced(&self) -> bool {
        self.total_files == self.moved + self.skipped + self.errors
    }

    /// Nothing processed yet.
    pub open spec fn new_spec() -> OrganizeStats {
        OrganizeStats { total_files: 0, moved: 0, skipped: 0, errors: 0 }
    }

    /// Nothing processed yet.
    pub fn new() -> (r: OrganizeStats)
        ensures
            r == OrganizeStats::new_spec(),
            r.total_files == 0,
            r.moved == 0,
            r.skipped == 0,
            r.errors == 0,
            r.balanced(),
    {
        OrganizeStats { total_files: 0, moved: 0, skipped: 0, errors: 0 }
    }

    /// Counts one processed file.
    pub fn record(&mut self, outcome: &MoveOutcome)
        requires
            old(self).balanced(),
            old(self).total_files < usize::MAX,
        ensures
            final(self).balanced(),
            final(self).total_files == old(self).total_files + 1,
            final(self).moved == old(self).moved + if outcome_kind(*outcome) == 0 {
                1int
            } else {
                0
            },
            final(self).skipped == old(self).skipped + if outcome_kind(*outcome) == 1 {
                1int
            } else {
                0
            },
            final(self).errors == old(self).errors + if outcome_kind(*outcome) == 2 {
                1int
            } else {
                0
            },
    {
        self.total_files = self.total_files + 1;
        match outcome {
            MoveOutcome::Moved(_) => self.moved = self.moved + 1,
            MoveOutcome::Skipped => self.skipped = self.skipped + 1,
            MoveOutcome::Failed(_) => self.errors = self.errors + 1,
        }
    }
}

/// The statistics of a run whose files had these outcomes, in order.
pub fn tally(outcomes: &Vec<MoveOutcome>) -> (r: OrganizeStats)
    ensures
        r.balanced(),
        r.total_files == outcomes@.len(),
        r.moved == count_kind(outcomes@, 0),
        r.skipped == count_kind(outcomes@, 1),
        r.errors == count_kind(outcomes@, 2),
{
    let mut stats = OrganizeStats::new();
    let mut i: usize = 0;
    while i < outcomes.len()
        invariant
            i <= outcomes@.len(),
            stats.balanced(),
            stats.total_files == i,
            stats.moved == count_kind(outcomes@.take(i as int), 0),
            stats.skipped == count_kind(outcomes@.take(i as int), 1),
            stats.errors == count_kind(outcomes@.take(i as int), 2),
        decreases outcomes.len() - i,
    {
        assert(outcomes@.take(i + 1).drop_last() =~= outcomes@.take(i as int));
        stats.record(&outcomes[i]);
        i = i + 1;
    }
    assert(outcomes@.take(outcomes@.len() as int) =~= outcomes@);
    stats
}

/// Every outcome is of exactly one kind, so the three counts add up to the number of files.
pub proof fn lemma_counts_add_up(outcomes: Seq<MoveOutcome>)
    ensures
        count_kind(outcomes, 0) + count_kind(outcomes, 1) + count_kind(outcomes, 2)
            == outcomes.len(),
    decreases outcomes.len(),
{
    if outcomes.len() > 0 {
        lemma_counts_add_up(outcomes.drop_last());
    }
}

} // verus!
