//! The steps of one compression job, and how each ends.
//!
//! A job compresses one source file into its destination. The caller performs
//! each step (a look at the destination, a directory creation, opening the
//! source, creating the destination, the copy through the encoder) and reports
//! what happened; [`advance`] decides what comes next.
use vstd::prelude::*;
use crate::paths::PathError;

verus! {

/// The step of a job that failed.
#[derive(Debug, Clone, Copy, PartialEq, Eq, Structural)]
pub enum FailureStage {
    MapPath,
    CreateDirectory,
    OpenSource,
    CreateDestination,
    Copy,
}

/// How a job ended.
#[derive(Debug, Clone, Copy, PartialEq, Eq, Structural)]
pub enum JobOutcome {
    /// The destination was written.
    Compressed,
    /// The destination existed already; the source was not read.
    Skipped,
    /// A step failed; the destination may be missing or partly written.
    Failed(FailureStage),
}

/// Where a job stands.
#[derive(Debug, Clone, Copy, PartialEq, Eq, Structural)]
pub enum JobStep {
    /// Look whether the destination exists.
    Probe,
    /// Create the destination's directory and its missing ancestors.
    CreateDirectory,
    /// Open the source file for reading.
    OpenSource,
    /// Create the destination file.
    CreateDestination,
    /// Copy the source through the encoder into the destination.
    Copy,
    /// The job is over.
    Finished(JobOutcome),
}

/// What the caller observed while performing a step.
#[derive(Debug, Clone, Copy, PartialEq, Eq, Structural)]
pub enum JobEvent {
    DestinationExists,
    DestinationMissing,
    Succeeded,
    Failed,
}

/// The events that can follow a step: the probe finds the destination or not;
/// the other unfinished steps succeed or fail.
pub open spec fn event_fits(step: JobStep, event: JobEvent) -> bool {
    match step {
        JobStep::Probe => event is DestinationExists || event is DestinationMissing,
        JobStep::Finished(_) => false,
        _ => event is Succeeded || event is Failed,
    }
}

/// The step after `step` once `event` was observed.
pub open spec fn next_step(step: JobStep, event: JobEvent) -> JobStep {
    match (step, event) {
        (JobStep::Probe, JobEvent::DestinationExists) => JobStep::Finished(JobOutcome::Skipped),
        (JobStep::Probe, _) => JobStep::CreateDirectory,
        (JobStep::CreateDirectory, JobEvent::Succeeded) => JobStep::OpenSource,
        (JobStep::OpenSource, JobEvent::Succeeded) => JobStep::CreateDestination,
        (JobStep::CreateDestination, JobEvent::Succeeded) => JobStep::Copy,
        (JobStep::Copy, JobEvent::Succeeded) => JobStep::Finished(JobOutcome::Compressed),
        (JobStep::CreateDirectory, _) => JobStep::Finished(
            JobOutcome::Failed(FailureStage::CreateDirectory),
        ),
        (JobStep::OpenSource, _) => JobStep::Finished(JobOutcome::Failed(FailureStage::OpenSource)),
        (JobStep::CreateDestination, _) => JobStep::Finished(
            JobOutcome::Failed(FailureStage::CreateDestination),
        ),
        (JobStep::Copy, _) => JobStep::Finished(JobOutcome::Failed(FailureStage::Copy)),
        (JobStep::Finished(o), _) => JobStep::Finished(o),
    }
}

/// The step reached from `step` through `events`.
pub open spec fn run_from(step: JobStep, events: Seq<JobEvent>) -> JobStep
    decreases events.len(),
{
    if events.len() == 0 {
        step
    } else {
        run_from(next_step(step, events[0]), events.drop_first())
    }
}

/// `events` can be observed one after another from `step`, and they end the job.
pub open spec fn is_complete_run(step: JobStep, events: Seq<JobEvent>) -> bool
    decreases events.len(),
{
    if events.len() == 0 {
        step is Finished
    } else {
        event_fits(step, events[0]) && is_complete_run(next_step(step, events[0]), events.drop_first())
    }
}

/// The outcome of a job whose destination path was mapped, and whose steps
/// then saw `events`.
pub open spec fn outcome_of(events: Seq<JobEvent>) -> JobOutcome {
    run_from(JobStep::Probe, events)->Finished_0
}

/// The first step of a job, given the result of mapping its destination: a
/// job whose source does not lie under the source root fails at once.
pub fn start_job(mapped: &Result<Vec<String>, PathError>) -> (r: JobStep)
    ensures
        r == (if mapped is Ok {
            JobStep::Probe
        } else {
            JobStep::Finished(JobOutcome::Failed(FailureStage::MapPath))
        }),
{
    match mapped {
        Ok(_) => JobStep::Probe,
        Err(_) => JobStep::Finished(JobOutcome::Failed(FailureStage::MapPath)),
    }
}

/// Decides the step that follows `step` once `event` was observed.
pub fn advance(step: JobStep, event: JobEvent) -> (r: JobStep)
    requires
        event_fits(step, event),
    ensures
        r == next_step(step, event),
{
    match (step, event) {
        (JobStep::Probe, JobEvent::DestinationExists) => JobStep::Finished(JobOutcome::Skipped),
        (JobStep::Probe, _) => JobStep::CreateDirectory,
        (JobStep::CreateDirectory, JobEvent::Succeeded) => JobStep::OpenSource,
        (JobStep::OpenSource, JobEvent::Succeeded) => JobStep::CreateDestination,
        (JobStep::CreateDestination, JobEvent::Succeeded) => JobStep::Copy,
        (JobStep::Copy, JobEvent::Succeeded) => JobStep::Finished(JobOutcome::Compressed),
        (JobStep::CreateDirectory, _) => JobStep::Finished(
            JobOutcome::Failed(FailureStage::CreateDirectory),
        ),
        (JobStep::OpenSource, _) => JobStep::Finished(JobOutcome::Failed(FailureStage::OpenSource)),
        (JobStep::CreateDestination, _) => JobStep::Finished(
            JobOutcome::Failed(FailureStage::CreateDestination),
        ),
        (JobStep::Copy, _) => JobStep::Finished(JobOutcome::Failed(FailureStage::Copy)),
        (JobStep::Finished(o), _) => JobStep::Finished(o),
    }
}

/// A job whose destination already exists is skipped at its first step, and
/// performs no other: the source is not read and nothing is written.
pub proof fn lemma_existing_destination_is_skipped(events: Seq<JobEvent>)
    requires
        is_complete_run(JobStep::Probe, events),
        events.len() > 0 && events[0] == JobEvent::DestinationExists,
    ensures
        events.len() == 1,
        outcome_of(events) == JobOutcome::Skipped,
{
    let rest = events.drop_first();
    assert(next_step(JobStep::Probe, events[0]) == JobStep::Finished(JobOutcome::Skipped));
    assert(is_complete_run(JobStep::Finished(JobOutcome::Skipped), rest));
    if rest.len() > 0 {
        assert(!event_fits(JobStep::Finished(JobOutcome::Skipped), rest[0]));
    }
    assert(run_from(JobStep::Finished(JobOutcome::Skipped), rest) == JobStep::Finished(
        JobOutcome::Skipped,
    ));
}

} // verus!
