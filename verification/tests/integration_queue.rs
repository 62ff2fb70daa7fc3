use specwriter::integrator::{
    describe_failure, describe_spawn_failure, error_status_text, queue_status_text, spec_is_empty,
    Integrator, IntegratorAction, IntegratorConfig, IntegratorEvent, Phase,
};

fn status_of(a: &IntegratorAction) -> Option<String> {
    match a {
        IntegratorAction::SendStatus(s) => Some(s.clone()),
        _ => None,
    }
}

fn run_of(a: &IntegratorAction) -> Option<(String, Vec<String>)> {
    match a {
        IntegratorAction::RunCommand { message, session_args } => {
            Some((message.clone(), session_args.clone()))
        }
        _ => None,
    }
}

fn submit(i: &mut Integrator, m: &str) -> Vec<IntegratorAction> {
    i.step(IntegratorEvent::Submitted(m.to_string()))
}

fn pending(i: &mut Integrator, ms: &[&str]) -> Vec<IntegratorAction> {
    i.step(IntegratorEvent::Pending(ms.iter().map(|m| m.to_string()).collect()))
}

fn fail(i: &mut Integrator, e: &str, fresh: &str) -> Vec<IntegratorAction> {
    i.step(IntegratorEvent::CommandFailed { error: e.to_string(), fresh_session_id: fresh.to_string() })
}

#[test]
fn queue_status_texts() {
    assert_eq!(queue_status_text(0), "Integrating");
    assert_eq!(queue_status_text(1), "Integrating (1 in queue)");
    assert_eq!(queue_status_text(12), "Integrating (12 in queue)");
    assert_eq!(error_status_text(&"bad".to_string()), "Error! bad");
}

#[test]
fn batch_runs_in_order_and_completes() {
    let mut i = Integrator::new("s1".to_string());
    let a = submit(&mut i, "first");
    assert!(matches!(a.as_slice(), [IntegratorAction::StartWindow]));
    assert_eq!(i.phase, Phase::Collecting);
    assert!(submit(&mut i, "second").is_empty());
    let a = pending(&mut i, &[]);
    assert_eq!(a.len(), 2);
    assert_eq!(status_of(&a[0]).unwrap(), "Integrating (1 in queue)");
    let (m, args) = run_of(&a[1]).unwrap();
    assert_eq!(m, "first");
    assert_eq!(args, vec!["--session-id".to_string(), "s1".to_string()]);
    assert_eq!(i.phase, Phase::Running);
    let a = submit(&mut i, "third");
    assert_eq!(a.len(), 1);
    assert_eq!(status_of(&a[0]).unwrap(), "Integrating (2 in queue)");
    let a = i.step(IntegratorEvent::CommandSucceeded);
    assert!(matches!(a.as_slice(), [IntegratorAction::RefreshQuestions, IntegratorAction::TakePending]));
    assert_eq!(i.phase, Phase::Collecting);
    let a = pending(&mut i, &[]);
    assert_eq!(status_of(&a[0]).unwrap(), "Integrating (1 in queue)");
    let (m, args) = run_of(&a[1]).unwrap();
    assert_eq!(m, "second");
    assert_eq!(args, vec!["--resume".to_string(), "s1".to_string()]);
    let a = i.step(IntegratorEvent::CommandSucceeded);
    assert!(matches!(a.as_slice(), [IntegratorAction::RefreshQuestions, IntegratorAction::TakePending]));
    let a = pending(&mut i, &["fourth"]);
    assert_eq!(status_of(&a[0]).unwrap(), "Integrating (1 in queue)");
    assert_eq!(run_of(&a[1]).unwrap().0, "third");
    i.step(IntegratorEvent::CommandSucceeded);
    let a = pending(&mut i, &[]);
    assert_eq!(status_of(&a[0]).unwrap(), "Integrating");
    assert_eq!(run_of(&a[1]).unwrap().0, "fourth");
    let a = i.step(IntegratorEvent::CommandSucceeded);
    assert!(matches!(a.as_slice(), [IntegratorAction::RefreshQuestions, IntegratorAction::SendComplete]));
    assert_eq!(i.phase, Phase::Waiting);
    assert!(i.queue.is_empty());
}

#[test]
fn window_collects_rapid_submissions() {
    let mut i = Integrator::new("s1".to_string());
    submit(&mut i, "a");
    let a = pending(&mut i, &["b", "c"]);
    assert_eq!(status_of(&a[0]).unwrap(), "Integrating (2 in queue)");
    assert_eq!(run_of(&a[1]).unwrap().0, "a");
    assert_eq!(i.queue, vec!["a".to_string(), "b".to_string(), "c".to_string()]);
    assert_eq!(i.current, 0);
}

#[test]
fn first_call_failure_discards_queue() {
    let mut i = Integrator::new("s1".to_string());
    submit(&mut i, "a");
    submit(&mut i, "b");
    pending(&mut i, &[]);
    let a = fail(&mut i, "Exit code 1 with no message", "s2");
    assert!(matches!(a[0], IntegratorAction::DiscardPending));
    assert_eq!(status_of(&a[1]).unwrap(), "Error! Exit code 1 with no message");
    assert_eq!(a.len(), 2);
    assert!(i.queue.is_empty());
    assert_eq!(i.phase, Phase::Waiting);
    assert!(i.first_call);
}

#[test]
fn resumed_failure_retries_in_fresh_session() {
    let mut i = Integrator::new("s1".to_string());
    submit(&mut i, "a");
    pending(&mut i, &[]);
    i.step(IntegratorEvent::CommandSucceeded);
    submit(&mut i, "b");
    pending(&mut i, &[]);
    let a = fail(&mut i, "session expired", "s2");
    assert_eq!(a.len(), 1);
    match &a[0] {
        IntegratorAction::RetryCommand { message, session_args } => {
            assert_eq!(message, "b");
            assert_eq!(session_args, &vec!["--session-id".to_string(), "s2".to_string()]);
        }
        _ => panic!("expected a retry"),
    }
    assert_eq!(i.phase, Phase::Retrying);
    assert!(submit(&mut i, "c").is_empty());
    let a = i.step(IntegratorEvent::CommandSucceeded);
    assert!(matches!(a.as_slice(), [IntegratorAction::RefreshQuestions, IntegratorAction::TakePending]));
    let a = pending(&mut i, &[]);
    assert_eq!(run_of(&a[1]).unwrap(), ("c".to_string(), vec!["--resume".to_string(), "s2".to_string()]));
}

#[test]
fn failed_retry_reports_error() {
    let mut i = Integrator::new("s1".to_string());
    submit(&mut i, "a");
    pending(&mut i, &[]);
    i.step(IntegratorEvent::CommandSucceeded);
    submit(&mut i, "b");
    pending(&mut i, &[]);
    fail(&mut i, "first", "s2");
    let a = fail(&mut i, "second", "s3");
    assert!(matches!(a[0], IntegratorAction::DiscardPending));
    assert_eq!(status_of(&a[1]).unwrap(), "Error! second");
    assert_eq!(i.session_id, "s2");
    assert!(i.first_call);
    assert_eq!(i.phase, Phase::Waiting);
}

#[test]
fn out_of_phase_events_are_ignored() {
    let mut i = Integrator::new("s".to_string());
    assert!(i.step(IntegratorEvent::CommandSucceeded).is_empty());
    assert!(pending(&mut i, &["x"]).is_empty());
    assert!(i.queue.is_empty());
    assert!(fail(&mut i, "x", "y").is_empty());
    assert_eq!(i.phase, Phase::Waiting);
}

#[test]
fn failure_descriptions() {
    assert_eq!(describe_failure("  boom  \nmore\n", Some(2)), "boom");
    assert_eq!(describe_failure("\n\nlater", Some(3)), "Exit code 3 with no message");
    assert_eq!(describe_failure("", Some(-7)), "Exit code -7 with no message");
    assert_eq!(describe_failure("   ", None), "Unknown reason");
    assert_eq!(
        describe_spawn_failure(&"tool".to_string(), &"not found".to_string()),
        "Failed to run tool: not found"
    );
}

#[test]
fn empty_spec_detection() {
    assert!(spec_is_empty(&None));
    assert!(spec_is_empty(&Some(" \n\t".to_string())));
    assert!(!spec_is_empty(&Some("# Title".to_string())));
}

#[test]
fn config_paths_and_args() {
    let mut c = IntegratorConfig::new("tool".to_string(), "/work/dir".to_string(), "NOTES.md".to_string());
    assert_eq!(c.spec_path(), "/work/dir/NOTES.md");
    assert_eq!(
        c.build_args(),
        vec![
            "--print".to_string(),
            "--allowedTools".to_string(),
            "Read,Edit(NOTES.md),Write(NOTES.md)".to_string(),
        ]
    );
    c.args = vec!["--model".to_string(), "m".to_string()];
    assert_eq!(c.build_args().len(), 5);
    assert_eq!(c.build_args()[4], "m");
    c.working_dir = "/work/".to_string();
    assert_eq!(c.spec_path(), "/work/NOTES.md");
    c.spec_filename = "/abs/file.md".to_string();
    assert_eq!(c.spec_path(), "/abs/file.md");
    c.working_dir = String::new();
    c.spec_filename = "rel.md".to_string();
    assert_eq!(c.spec_path(), "rel.md");
}
