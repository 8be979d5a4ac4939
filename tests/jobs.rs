use compress_jsonl::job::{advance, start_job, FailureStage, JobEvent, JobOutcome, JobStep};
use compress_jsonl::paths::PathError;
use compress_jsonl::progress::{tally, ProgressCounters};

fn run(events: &[JobEvent]) -> JobStep {
    let mut step = JobStep::Probe;
    for e in events {
        step = advance(step, *e);
    }
    step
}

#[test]
fn unmappable_source_fails_at_once() {
    let r: Result<Vec<String>, PathError> = Err(PathError::NotUnderRoot);
    assert_eq!(start_job(&r), JobStep::Finished(JobOutcome::Failed(FailureStage::MapPath)));
    let ok: Result<Vec<String>, PathError> = Ok(vec!["d".to_string()]);
    assert_eq!(start_job(&ok), JobStep::Probe);
}

#[test]
fn existing_destination_is_skipped() {
    assert_eq!(run(&[JobEvent::DestinationExists]), JobStep::Finished(JobOutcome::Skipped));
}

#[test]
fn missing_destination_goes_through_every_step() {
    let mut step = advance(JobStep::Probe, JobEvent::DestinationMissing);
    assert_eq!(step, JobStep::CreateDirectory);
    step = advance(step, JobEvent::Succeeded);
    assert_eq!(step, JobStep::OpenSource);
    step = advance(step, JobEvent::Succeeded);
    assert_eq!(step, JobStep::CreateDestination);
    step = advance(step, JobEvent::Succeeded);
    assert_eq!(step, JobStep::Copy);
    step = advance(step, JobEvent::Succeeded);
    assert_eq!(step, JobStep::Finished(JobOutcome::Compressed));
}

#[test]
fn each_failing_step_is_named() {
    let m = JobEvent::DestinationMissing;
    let s = JobEvent::Succeeded;
    let f = JobEvent::Failed;
    assert_eq!(run(&[m, f]), JobStep::Finished(JobOutcome::Failed(FailureStage::CreateDirectory)));
    assert_eq!(run(&[m, s, f]), JobStep::Finished(JobOutcome::Failed(FailureStage::OpenSource)));
    assert_eq!(run(&[m, s, s, f]), JobStep::Finished(JobOutcome::Failed(FailureStage::CreateDestination)));
    assert_eq!(run(&[m, s, s, s, f]), JobStep::Finished(JobOutcome::Failed(FailureStage::Copy)));
}

#[test]
fn second_run_skips_every_job() {
    // First run: every destination is missing and every step succeeds.
    let n = 7;
    let first: Vec<JobOutcome> = (0..n)
        .map(|_| match run(&[JobEvent::DestinationMissing, JobEvent::Succeeded, JobEvent::Succeeded, JobEvent::Succeeded, JobEvent::Succeeded]) {
            JobStep::Finished(o) => o,
            _ => unreachable!(),
        })
        .collect();
    let c1 = tally(&first);
    assert_eq!((c1.completed, c1.succeeded, c1.skipped, c1.failed()), (7, 7, 0, 0));
    // Second run: every destination now exists.
    let second: Vec<JobOutcome> = (0..n)
        .map(|_| match run(&[JobEvent::DestinationExists]) {
            JobStep::Finished(o) => o,
            _ => unreachable!(),
        })
        .collect();
    let c2 = tally(&second);
    assert_eq!((c2.completed, c2.succeeded, c2.skipped, c2.failed()), (7, 0, 7, 0));
}

#[test]
fn one_unreadable_file_is_one_failure() {
    let mut outcomes = vec![JobOutcome::Compressed; 4];
    outcomes.insert(2, JobOutcome::Failed(FailureStage::OpenSource));
    let c = tally(&outcomes);
    assert_eq!(c.completed, 5);
    assert_eq!(c.failed(), 1);
    assert_eq!(c.succeeded + c.skipped, 4);
}

#[test]
fn counters_add_up_with_existing_destinations() {
    let outcomes = vec![
        JobOutcome::Skipped,
        JobOutcome::Compressed,
        JobOutcome::Skipped,
        JobOutcome::Failed(FailureStage::Copy),
        JobOutcome::Compressed,
        JobOutcome::Skipped,
    ];
    let c = tally(&outcomes);
    assert_eq!(c.completed, 6);
    assert_eq!(c.succeeded, 2);
    assert_eq!(c.skipped, 3);
    assert_eq!(c.failed(), 1);
    assert_eq!(c.succeeded + c.skipped + c.failed(), 6);
}

#[test]
fn record_counts_each_outcome_once() {
    let mut c = ProgressCounters::new();
    assert_eq!((c.completed, c.succeeded, c.skipped), (0, 0, 0));
    c.record(JobOutcome::Compressed);
    c.record(JobOutcome::Failed(FailureStage::CreateDirectory));
    c.record(JobOutcome::Skipped);
    assert_eq!((c.completed, c.succeeded, c.skipped, c.failed()), (3, 1, 1, 1));
}

#[test]
fn report_every_batch_and_at_the_end() {
    let at = |completed: usize| ProgressCounters { completed, succeeded: 0, skipped: 0 };
    assert!(at(500).should_report(1234));
    assert!(at(1000).should_report(1234));
    assert!(!at(499).should_report(1234));
    assert!(!at(501).should_report(1234));
    assert!(at(1234).should_report(1234));
    assert!(at(3).should_report(3));
}

#[test]
fn tally_of_nothing_is_zero() {
    let c = tally(&vec![]);
    assert_eq!((c.completed, c.succeeded, c.skipped, c.failed()), (0, 0, 0, 0));
}
