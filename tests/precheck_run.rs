use pvf_checker::error::{CodeError, HostError};
use pvf_checker::host::{PrepareJobKind, Submission, SubmissionState, PREPARATION_TIMEOUT_MS};
use pvf_checker::precheck::{
    plan_item, report_reply, Failure, ItemPlan, PrecheckRun, Report, RunAction,
};
use pvf_checker::resolve::{ParaCode, ResolvedSet};
use pvf_checker::skip::SkipSet;

fn set(items: Vec<(u32, Vec<u8>)>) -> ResolvedSet {
    ResolvedSet {
        pvfs: items.into_iter().map(|(para_id, code)| ParaCode { para_id, code }).collect(),
        executor_params: vec![4, 2],
    }
}

#[test]
fn end_to_end_run_with_one_skip_and_one_failure() {
    let mut run = PrecheckRun::new(
        set(vec![(10, vec![1, 2]), (20, vec![3]), (30, vec![4])]),
        SkipSet::new(vec![20]),
    );
    match run.next_action() {
        RunAction::Submit(id, job) => {
            assert_eq!(id, 10);
            assert_eq!(job.code, vec![1, 2]);
            assert_eq!(job.executor_params, vec![4, 2]);
            assert_eq!(job.timeout_ms, 60000);
            assert_eq!(job.kind, PrepareJobKind::Prechecking);
        }
        other => panic!("unexpected {:?}", other),
    }
    assert_eq!(run.record(Ok(5)), Ok(()));
    match run.next_action() {
        RunAction::Submit(id, _) => assert_eq!(id, 30),
        other => panic!("unexpected {:?}", other),
    }
    assert_eq!(run.record(Err(HostError::PreparationFailed(String::from("invalid code")))), Ok(()));
    match run.next_action() {
        RunAction::Finished(ok) => assert!(!ok),
        other => panic!("unexpected {:?}", other),
    }
    assert_eq!(
        run.reports(),
        &vec![
            Report::Prepared(10, 5),
            Report::Skipped(20),
            Report::Failed(30, Failure::Preparation(String::from("invalid code"))),
        ]
    );
    assert_eq!(run.submitted(), &vec![10, 30]);
}

#[test]
fn all_prepared_run_succeeds() {
    let mut run = PrecheckRun::new(set(vec![(1, vec![9])]), SkipSet::new(Vec::new()));
    assert!(matches!(run.next_action(), RunAction::Submit(1, _)));
    assert_eq!(run.record(Ok(12)), Ok(()));
    assert!(matches!(run.next_action(), RunAction::Finished(true)));
}

#[test]
fn empty_run_succeeds() {
    let mut run = PrecheckRun::new(set(Vec::new()), SkipSet::new(vec![1]));
    assert!(matches!(run.next_action(), RunAction::Finished(true)));
    assert!(run.reports().is_empty());
}

#[test]
fn all_skipped_run_submits_nothing() {
    let mut run = PrecheckRun::new(set(vec![(1, vec![1]), (2, vec![2])]), SkipSet::new(vec![2, 1, 2]));
    assert!(matches!(run.next_action(), RunAction::Finished(true)));
    assert_eq!(run.reports(), &vec![Report::Skipped(1), Report::Skipped(2)]);
    assert!(run.submitted().is_empty());
}

#[test]
fn rejected_code_is_reported_and_run_continues() {
    let bad = vec![82u8, 188, 83, 118, 70, 219, 142, 5, 0, 0, 0];
    let mut run = PrecheckRun::new(set(vec![(1, bad), (2, vec![2])]), SkipSet::new(Vec::new()));
    assert!(matches!(run.next_action(), RunAction::Submit(2, _)));
    assert_eq!(run.record(Err(HostError::Timeout)), Ok(()));
    assert!(matches!(run.next_action(), RunAction::Finished(false)));
    assert_eq!(
        run.reports(),
        &vec![
            Report::Failed(1, Failure::Code(CodeError::Malformed)),
            Report::Failed(2, Failure::Timeout),
        ]
    );
    assert_eq!(run.submitted(), &vec![2]);
}

#[test]
fn unavailable_host_aborts_and_keeps_state() {
    let mut run = PrecheckRun::new(set(vec![(1, vec![1]), (2, vec![2])]), SkipSet::new(Vec::new()));
    assert!(matches!(run.next_action(), RunAction::Submit(1, _)));
    assert_eq!(run.record(Err(HostError::Unavailable)), Err(HostError::Unavailable));
    assert!(run.reports().is_empty());
}

#[test]
fn plan_item_cases() {
    let skip = SkipSet::new(vec![3]);
    let params = vec![1u8];
    assert!(matches!(plan_item(&ParaCode { para_id: 3, code: vec![1] }, &params, &skip), ItemPlan::Skip));
    let big = vec![0u8; 12 * 1024 * 1024 + 1];
    assert!(matches!(
        plan_item(&ParaCode { para_id: 4, code: big }, &params, &skip),
        ItemPlan::Reject(CodeError::Oversized)
    ));
    match plan_item(&ParaCode { para_id: 4, code: vec![5, 6] }, &params, &skip) {
        ItemPlan::Submit(d) => {
            assert_eq!(d.code, vec![5, 6]);
            assert_eq!(d.executor_params, vec![1]);
        }
        other => panic!("unexpected {:?}", other),
    }
}

#[test]
fn report_reply_cases() {
    assert_eq!(report_reply(7, Ok(3)), Ok(Report::Prepared(7, 3)));
    assert_eq!(report_reply(7, Err(HostError::Timeout)), Ok(Report::Failed(7, Failure::Timeout)));
    assert_eq!(
        report_reply(7, Err(HostError::PreparationFailed(String::from("x")))),
        Ok(Report::Failed(7, Failure::Preparation(String::from("x"))))
    );
    assert_eq!(report_reply(7, Err(HostError::Unavailable)), Err(HostError::Unavailable));
}

#[test]
fn silent_worker_times_out_at_deadline_not_before() {
    let mut s = Submission::submit(1000, PREPARATION_TIMEOUT_MS);
    s.accept();
    assert_eq!(s.state, SubmissionState::Preparing);
    s.tick(1000 + PREPARATION_TIMEOUT_MS - 1);
    assert_eq!(s.state, SubmissionState::Preparing);
    assert_eq!(s.outcome(), None);
    s.tick(1000 + PREPARATION_TIMEOUT_MS);
    assert_eq!(s.state, SubmissionState::TimedOut);
    assert_eq!(s.outcome(), Some(Err(HostError::Timeout)));
    s.complete(1000 + PREPARATION_TIMEOUT_MS + 5, Ok(()));
    assert_eq!(s.state, SubmissionState::TimedOut);
}

#[test]
fn answers_before_deadline_are_recorded() {
    let mut s = Submission::submit(100, 50);
    s.complete(105, Ok(()));
    assert_eq!(s.outcome(), Some(Ok(5)));
    let mut f = Submission::submit(100, 50);
    f.accept();
    f.complete(120, Err(String::from("compile error")));
    assert_eq!(f.outcome(), Some(Err(HostError::PreparationFailed(String::from("compile error")))));
    let mut late = Submission::submit(100, 50);
    late.complete(150, Ok(()));
    assert_eq!(late.state, SubmissionState::TimedOut);
}
