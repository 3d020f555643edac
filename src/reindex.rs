//! The bulk reindex job's bookkeeping: every entity is attempted once, in
//! order; a failure is recorded with its reason and never stops the run.
use vstd::prelude::*;

verus! {

/// The outcome of indexing one entity.
#[derive(Debug, Clone, PartialEq, Eq)]
pub enum IndexOutcome {
    Indexed,
    Failed(String),
}

/// A reindex run so far: how many entities were attempted, how many were
/// indexed, and which failed and why.
#[derive(Debug)]
pub struct ReindexReport {
    pub attempted: u64,
    pub succeeded: u64,
    pub failed: Vec<(i32, String)>,
}

/// How many of `outcomes` are successes.
pub open spec fn successes(outcomes: Seq<(i32, IndexOutcome)>) -> nat
    decreases outcomes.len(),
{
    if outcomes.len() == 0 {
        0
    } else {
        successes(outcomes.drop_last()) + if outcomes.last().1 is Indexed {
            1nat
        } else {
            0nat
        }
    }
}

/// The failures among `outcomes`, with their reasons, in order.
pub open spec fn failures(outcomes: Seq<(i32, IndexOutcome)>) -> Seq<(i32, Seq<char>)>
    decreases outcomes.len(),
{
    if outcomes.len() == 0 {
        Seq::empty()
    } else {
        let before = failures(outcomes.drop_last());
        match outcomes.last().1 {
            IndexOutcome::Failed(reason) => before.push((outcomes.last().0, reason@)),
            IndexOutcome::Indexed => before,
        }
    }
}

/// The failures of a report, as texts.
pub open spec fn failure_views(v: Seq<(i32, String)>) -> Seq<(i32, Seq<char>)> {
    v.map_values(|f: (i32, String)| (f.0, f.1@))
}

impl ReindexReport {
    /// A run that has attempted nothing yet.
    pub fn new() -> (r: ReindexReport)
        ensures
            r.attempted == 0,
            r.succeeded == 0,
            r.failed@.len() == 0,
    {
        ReindexReport { attempted: 0, succeeded: 0, failed: Vec::new() }
    }

    /// Records the outcome of indexing entity `id`.
    pub fn record(&mut self, id: i32, outcome: IndexOutcome)
        requires
            old(self).attempted < u64::MAX,
            old(self).succeeded <= old(self).attempted,
        ensures
            final(self).attempted == old(self).attempted + 1,
            final(self).succeeded == old(self).succeeded + if outcome is Indexed {
                1int
            } else {
                0int
            },
            final(self).succeeded <= final(self).attempted,
            failure_views(final(self).failed@) == failure_views(old(self).failed@) + match outcome {
                IndexOutcome::Failed(reason) => seq![(id, reason@)],
                IndexOutcome::Indexed => Seq::empty(),
            },
    {
        self.attempted = self.attempted + 1;
        let ghost before = self.failed@;
        match outcome {
            IndexOutcome::Indexed => {
                self.succeeded = self.succeeded + 1;
                assert(failure_views(self.failed@) =~= failure_views(before) + Seq::empty());
            },
            IndexOutcome::Failed(reason) => {
                self.failed.push((id, reason));
                assert(failure_views(self.failed@) =~= failure_views(before) + seq![
                    (id, self.failed@.last().1@),
                ]);
            },
        }
    }
}

/// The report of a run whose outcomes were `outcomes`, in order.
pub fn summarize(outcomes: Vec<(i32, IndexOutcome)>) -> (r: ReindexReport)
    ensures
        r.attempted == outcomes@.len(),
        r.succeeded == successes(outcomes@),
        failure_views(r.failed@) == failures(outcomes@),
{
    let ghost all = outcomes@;
    let mut report = ReindexReport::new();
    let mut rest = outcomes;
    let mut done: usize = 0;
    let total: usize = rest.len();
    assert(rest@ =~= all.subrange(0, all.len() as int));
    assert(failure_views(report.failed@) =~= failures(all.subrange(0, 0)));
    while rest.len() > 0
        invariant
            done + rest.len() == all.len(),
            all.len() == total,
            rest@ == all.subrange(done as int, all.len() as int),
            report.attempted == done,
            report.succeeded == successes(all.subrange(0, done as int)),
            report.succeeded <= report.attempted,
            failure_views(report.failed@) == failures(all.subrange(0, done as int)),
        decreases rest.len(),
    {
        let (id, outcome) = rest.remove(0);
        let ghost pre = all.subrange(0, done + 1);
        assert(pre.drop_last() =~= all.subrange(0, done as int));
        assert(pre.last() == all[done as int]);
        assert((id, outcome) == all[done as int]);
        proof {
            assert(successes(all.subrange(0, done as int)) <= done) by {
                lemma_successes_bounded(all.subrange(0, done as int));
            }
        }
        report.record(id, outcome);
        done = done + 1;
        assert(rest@ =~= all.subrange(done as int, all.len() as int));
    }
    assert(all.subrange(0, all.len() as int) =~= all);
    report
}

proof fn lemma_successes_bounded(outcomes: Seq<(i32, IndexOutcome)>)
    ensures
        successes(outcomes) <= outcomes.len(),
    decreases outcomes.len(),
{
    if outcomes.len() > 0 {
        lemma_successes_bounded(outcomes.drop_last());
    }
}

/// Indexing that fails for exactly one entity still indexes all the others:
/// the successes number one fewer than the entities.
pub proof fn lemma_one_failure(outcomes: Seq<(i32, IndexOutcome)>, bad: int)
    requires
        0 <= bad < outcomes.len(),
        outcomes[bad].1 is Failed,
        forall|k: int| 0 <= k < outcomes.len() && k != bad ==> #[trigger] outcomes[k].1 is Indexed,
    ensures
        successes(outcomes) == outcomes.len() - 1,
        failures(outcomes).len() == 1,
    decreases outcomes.len(),
{
    let n = outcomes.len();
    let init = outcomes.drop_last();
    if bad == n - 1 {
        lemma_all_indexed(init);
    } else {
        assert(init[bad] == outcomes[bad]);
        assert forall|k: int| 0 <= k < init.len() && k != bad implies #[trigger] init[k].1 is Indexed by {
            assert(init[k] == outcomes[k]);
        }
        lemma_one_failure(init, bad);
        assert(outcomes.last() == outcomes[n - 1]);
    }
}

proof fn lemma_all_indexed(outcomes: Seq<(i32, IndexOutcome)>)
    requires
        forall|k: int| 0 <= k < outcomes.len() ==> #[trigger] outcomes[k].1 is Indexed,
    ensures
        successes(outcomes) == outcomes.len(),
        failures(outcomes).len() == 0,
    decreases outcomes.len(),
{
    if outcomes.len() > 0 {
        let init = outcomes.drop_last();
        assert forall|k: int| 0 <= k < init.len() implies #[trigger] init[k].1 is Indexed by {
            assert(init[k] == outcomes[k]);
        }
        lemma_all_indexed(init);
        assert(outcomes.last() == outcomes[outcomes.len() - 1]);
    }
}

} // verus!
