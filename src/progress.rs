//! Counting job outcomes, and when to report progress.
use vstd::prelude::*;
use crate::job::{is_complete_run, lemma_existing_destination_is_skipped, outcome_of, JobEvent, JobOutcome, JobStep};

verus! {

/// A status line is due each time this many jobs have completed.
pub const REPORT_EVERY: usize = 500;

/// How many of `outcomes` are (compressed, skipped, failed).
pub open spec fn tally_of(outcomes: Seq<JobOutcome>) -> (nat, nat, nat)
    decreases outcomes.len(),
{
    if outcomes.len() == 0 {
        (0, 0, 0)
    } else {
        let (c, s, f) = tally_of(outcomes.drop_last());
        match outcomes.last() {
            JobOutcome::Compressed => (c + 1, s, f),
            JobOutcome::Skipped => (c, s + 1, f),
            JobOutcome::Failed(_) => (c, s, f + 1),
        }
    }
}

/// The outcome of each job, given the events each one saw.
pub open spec fn outcomes_of(runs: Seq<Seq<JobEvent>>) -> Seq<JobOutcome> {
    runs.map_values(|events: Seq<JobEvent>| outcome_of(events))
}

/// How many of the jobs found their destination already there.
pub open spec fn existing_count(runs: Seq<Seq<JobEvent>>) -> nat
    decreases runs.len(),
{
    if runs.len() == 0 {
        0
    } else {
        existing_count(runs.drop_last()) + if runs.last().len() > 0 && runs.last()[0]
            == JobEvent::DestinationExists {
            1nat
        } else {
            0nat
        }
    }
}

/// The progress of a run: jobs completed, and among them those that wrote
/// their destination and those that were skipped. The rest failed.
#[derive(Debug, Clone, Copy, PartialEq, Eq, Structural)]
pub struct ProgressCounters {
    pub completed: usize,
    pub succeeded: usize,
    pub skipped: usize,
}

impl ProgressCounters {
    /// Succeeded and skipped jobs are among the completed ones.
    pub open spec fn wf(&self) -> bool {
        self.succeeded + self.skipped <= self.completed
    }

    /// The counters are those of `outcomes`.
    pub open spec fn counts(&self, outcomes: Seq<JobOutcome>) -> bool {
        &&& self.completed == outcomes.len()
        &&& self.succeeded == tally_of(outcomes).0
        &&& self.skipped == tally_of(outcomes).1
    }

    /// Counters before any job has completed.
    pub fn new() -> (r: ProgressCounters)
        ensures
            r.completed == 0 && r.succeeded == 0 && r.skipped == 0,
            r.counts(Seq::empty()),
    {
        ProgressCounters { completed: 0, succeeded: 0, skipped: 0 }
    }

    /// Records one outcome: every outcome counts as completed; a compressed
    /// one also as succeeded, a skipped one also as skipped.
    pub fn record(&mut self, outcome: JobOutcome)
        requires
            old(self).wf(),
            old(self).completed < usize::MAX,
        ensures
            final(self).wf(),
            final(self).completed == old(self).completed + 1,
            final(self).succeeded == old(self).succeeded + if outcome is Compressed {
                1int
            } else {
                0int
            },
            final(self).skipped == old(self).skipped + if outcome is Skipped {
                1int
            } else {
                0int
            },
            forall|s: Seq<JobOutcome>| old(self).counts(s) ==> final(self).counts(s.push(outcome)),
    {
        self.completed = self.completed + 1;
        match outcome {
            JobOutcome::Compressed => {
                self.succeeded = self.succeeded + 1;
            },
            JobOutcome::Skipped => {
                self.skipped = self.skipped + 1;
            },
            JobOutcome::Failed(_) => {},
        }
        proof {
            assert forall|s: Seq<JobOutcome>| old(self).counts(s) implies self.counts(
                s.push(outcome),
            ) by {
                assert(s.push(outcome).drop_last() =~= s);
            }
        }
    }

    /// The number of completed jobs that failed.
    pub fn failed(&self) -> (r: usize)
        requires
            self.wf(),
        ensures
            r == self.completed - self.succeeded - self.skipped,
    {
        self.completed - self.succeeded - self.skipped
    }

    /// Whether a status line is due: after every [`REPORT_EVERY`] completed
    /// jobs, and once all `total` jobs have completed.
    pub fn should_report(&self, total: usize) -> (r: bool)
        ensures
            r == (self.completed % REPORT_EVERY == 0 || self.completed == total),
    {
        self.completed % REPORT_EVERY == 0 || self.completed == total
    }
}

/// Counts a sequence of outcomes.
pub fn tally(outcomes: &Vec<JobOutcome>) -> (r: ProgressCounters)
    ensures
        r.wf(),
        r.counts(outcomes@),
{
    let mut r = ProgressCounters::new();
    let mut i: usize = 0;
    while i < outcomes.len()
        invariant
            i <= outcomes.len(),
            r.wf(),
            r.counts(outcomes@.take(i as int)),
        decreases outcomes.len() - i,
    {
        r.record(outcomes[i]);
        assert(outcomes@.take(i as int).push(outcomes@[i as int]) =~= outcomes@.take(i + 1));
        i = i + 1;
    }
    assert(outcomes@.take(outcomes.len() as int) =~= outcomes@);
    r
}

/// Every outcome is counted exactly once: compressed, skipped and failed jobs
/// add up to all jobs.
pub proof fn lemma_tally_covers_every_job(outcomes: Seq<JobOutcome>)
    ensures
        tally_of(outcomes).0 + tally_of(outcomes).1 + tally_of(outcomes).2 == outcomes.len(),
    decreases outcomes.len(),
{
    if outcomes.len() > 0 {
        lemma_tally_covers_every_job(outcomes.drop_last());
    }
}

proof fn lemma_outcomes_drop_last(runs: Seq<Seq<JobEvent>>)
    requires
        runs.len() > 0,
    ensures
        outcomes_of(runs).drop_last() == outcomes_of(runs.drop_last()),
        outcomes_of(runs).last() == outcome_of(runs.last()),
{
    assert(outcomes_of(runs).drop_last() =~= outcomes_of(runs.drop_last()));
}

/// Over complete jobs, at least as many are skipped as found their
/// destination already there, and all jobs are counted once.
pub proof fn lemma_existing_destinations_are_skipped(runs: Seq<Seq<JobEvent>>)
    requires
        forall|i: int| 0 <= i < runs.len() ==> is_complete_run(JobStep::Probe, #[trigger] runs[i]),
    ensures
        tally_of(outcomes_of(runs)).1 >= existing_count(runs),
        tally_of(outcomes_of(runs)).0 + tally_of(outcomes_of(runs)).1 + tally_of(
            outcomes_of(runs),
        ).2 == runs.len(),
    decreases runs.len(),
{
    lemma_tally_covers_every_job(outcomes_of(runs));
    if runs.len() > 0 {
        let rest = runs.drop_last();
        assert forall|i: int| 0 <= i < rest.len() implies is_complete_run(
            JobStep::Probe,
            #[trigger] rest[i],
        ) by {
            assert(rest[i] == runs[i]);
        }
        lemma_existing_destinations_are_skipped(rest);
        lemma_outcomes_drop_last(runs);
        assert(is_complete_run(JobStep::Probe, runs[runs.len() - 1]));
        if runs.last().len() > 0 && runs.last()[0] == JobEvent::DestinationExists {
            lemma_existing_destination_is_skipped(runs.last());
        }
    }
}

/// A second run over the same files, once every destination exists, skips
/// every job: nothing is compressed, nothing fails.
pub proof fn lemma_rerun_skips_everything(runs: Seq<Seq<JobEvent>>)
    requires
        forall|i: int| 0 <= i < runs.len() ==> is_complete_run(JobStep::Probe, #[trigger] runs[i]),
        forall|i: int|
            0 <= i < runs.len() ==> (#[trigger] runs[i]).len() > 0 && runs[i][0]
                == JobEvent::DestinationExists,
    ensures
        tally_of(outcomes_of(runs)) == (0nat, runs.len(), 0nat),
    decreases runs.len(),
{
    if runs.len() > 0 {
        let rest = runs.drop_last();
        assert forall|i: int| 0 <= i < rest.len() implies is_complete_run(
            JobStep::Probe,
            #[trigger] rest[i],
        ) && rest[i].len() > 0 && rest[i][0] == JobEvent::DestinationExists by {
            assert(rest[i] == runs[i]);
        }
        lemma_rerun_skips_everything(rest);
        lemma_outcomes_drop_last(runs);
        assert(runs.last() == runs[runs.len() - 1]);
        lemma_existing_destination_is_skipped(runs.last());
    }
}

/// When exactly one job fails, exactly one failure is counted, and every other
/// job is counted as compressed or skipped.
pub proof fn lemma_single_failure_counted_once(outcomes: Seq<JobOutcome>, k: int)
    requires
        0 <= k < outcomes.len(),
        outcomes[k] is Failed,
        forall|i: int| 0 <= i < outcomes.len() && i != k ==> !(#[trigger] outcomes[i] is Failed),
    ensures
        tally_of(outcomes).2 == 1,
        tally_of(outcomes).0 + tally_of(outcomes).1 == outcomes.len() - 1,
    decreases outcomes.len(),
{
    lemma_tally_covers_every_job(outcomes);
    let rest = outcomes.drop_last();
    if k == outcomes.len() - 1 {
        lemma_no_failure_counted(rest);
    } else {
        assert forall|i: int| 0 <= i < rest.len() && i != k implies !(#[trigger] rest[i] is Failed) by {
            assert(rest[i] == outcomes[i]);
        }
        assert(rest[k] == outcomes[k]);
        lemma_single_failure_counted_once(rest, k);
    }
}

proof fn lemma_no_failure_counted(outcomes: Seq<JobOutcome>)
    requires
        forall|i: int| 0 <= i < outcomes.len() ==> !(#[trigger] outcomes[i] is Failed),
    ensures
        tally_of(outcomes).2 == 0,
    decreases outcomes.len(),
{
    if outcomes.len() > 0 {
        let rest = outcomes.drop_last();
        assert forall|i: int| 0 <= i < rest.len() implies !(#[trigger] rest[i] is Failed) by {
            assert(rest[i] == outcomes[i]);
        }
        lemma_no_failure_counted(rest);
    }
}

} // verus!
