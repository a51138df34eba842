use astrcode::session_operations::{
    backgrounded_answer, check_access, child_cleanup, child_session_plan, child_turn_answer, inject_next,
    needs_task_backfill, parent_walk_start, parent_walk_step, turn_submission, waited_turn_answer, ChildCleanup,
    ChildOutcome, ChildTaskLink, InjectNext, ParentWalk, SessionApiError, SubmitTurnResult, TurnSubmission, WalkNext,
};
use astrcode::turn_scheduler::{TurnScheduleError, TurnSummary};

/// Runs a walk against a parent table, counting reads.
fn walk(from: &str, max_depth: usize, parents: &[(&str, Option<&str>)]) -> (Result<Vec<String>, SessionApiError>, usize) {
    let (mut state, mut next): (ParentWalk, WalkNext) = parent_walk_start(from, max_depth);
    let mut reads = 0;
    loop {
        match next {
            WalkNext::Finished(result) => return (result, reads),
            WalkNext::ReadParentOf(id) => {
                reads += 1;
                let read = match parents.iter().find(|(s, _)| *s == id) {
                    Some((_, parent)) => Ok(parent.map(|p| p.to_string())),
                    None => Err(format!("unknown session {id}")),
                };
                let (s, n) = parent_walk_step(state, read);
                state = s;
                next = n;
            },
        }
    }
}

#[test]
fn chain_lists_ancestors_nearest_first() {
    let parents = [("c", Some("b")), ("b", Some("a")), ("a", None)];
    let (result, reads) = walk("c", 5, &parents);
    assert_eq!(result.unwrap(), vec!["b".to_string(), "a".to_string()]);
    assert_eq!(reads, 3);
    let (root, _) = walk("a", 0, &parents);
    assert!(root.unwrap().is_empty());
}

#[test]
fn chain_detects_cycles() {
    let parents = [("x", Some("y")), ("y", Some("x"))];
    match walk("x", 10, &parents).0 {
        Err(SessionApiError::Internal(m)) => assert_eq!(m, "parent chain cycle detected at session x"),
        other => panic!("unexpected {other:?}"),
    }
}

#[test]
fn chain_stops_past_max_depth() {
    let parents = [("d", Some("c")), ("c", Some("b")), ("b", Some("a")), ("a", None)];
    let (result, reads) = walk("d", 2, &parents);
    match result {
        Err(SessionApiError::Internal(m)) => assert_eq!(m, "parent chain exceeds configured max_depth (2)"),
        other => panic!("unexpected {other:?}"),
    }
    assert_eq!(reads, 3);
    let (ok, _) = walk("c", 2, &parents);
    assert_eq!(ok.unwrap(), vec!["b".to_string(), "a".to_string()]);
}

#[test]
fn chain_read_failure_is_not_found() {
    match walk("ghost", 3, &[]).0 {
        Err(SessionApiError::NotFound(m)) => assert_eq!(m, "unknown session ghost"),
        other => panic!("unexpected {other:?}"),
    }
}

#[test]
fn access_requires_ancestry() {
    assert!(check_access("a", "a", &[]).is_ok());
    assert!(check_access("a", "c", &["b".to_string(), "a".to_string()]).is_ok());
    match check_access("z", "c", &["b".to_string(), "a".to_string()]) {
        Err(SessionApiError::PermissionDenied(m)) => assert_eq!(m, "session c is not a descendant of z"),
        other => panic!("unexpected {other:?}"),
    }
}

#[test]
fn child_plan_refuses_at_depth_limit() {
    match child_session_plan(3, 3, None, None, None, "/p".into(), "m".into()) {
        Err(SessionApiError::MaxDepthExceeded { current, max }) => assert_eq!((current, max), (3, 3)),
        _ => panic!("expected depth refusal"),
    }
}

#[test]
fn child_plan_inherits_from_parent() {
    let plan = child_session_plan(0, 3, None, Some("inherit".into()), None, "/p".into(), "parent-model".into())
        .unwrap_or_else(|_| panic!("plan"));
    assert_eq!(plan.working_dir, "/p");
    assert_eq!(plan.model_id, "parent-model");
    assert_eq!(plan.task, "");
    let plan = child_session_plan(1, 3, Some("/w".into()), Some("fast".into()), Some("fix".into()), "/p".into(), "pm".into())
        .unwrap_or_else(|_| panic!("plan"));
    assert_eq!((plan.working_dir.as_str(), plan.model_id.as_str(), plan.task.as_str()), ("/w", "fast", "fix"));
    let plan = child_session_plan(1, 3, None, Some(String::new()), None, "/p".into(), "pm".into())
        .unwrap_or_else(|_| panic!("plan"));
    assert_eq!(plan.model_id, "pm");
}

#[test]
fn task_backfill_only_for_listed_child_without_task() {
    let links = vec![
        ChildTaskLink { child_session_id: "c1".into(), task: String::new() },
        ChildTaskLink { child_session_id: "c2".into(), task: "review".into() },
    ];
    assert!(needs_task_backfill(&links, "c1", "write tests"));
    assert!(!needs_task_backfill(&links, "c2", "write tests"));
    assert!(!needs_task_backfill(&links, "c3", "write tests"));
    assert!(!needs_task_backfill(&links, "c1", ""));
}

#[test]
fn child_outcomes_map_to_answers() {
    match child_turn_answer(ChildOutcome::Completed { response: Some("done".into()) }) {
        Ok(SubmitTurnResult::Completed { content }) => assert_eq!(content, "done"),
        other => panic!("unexpected {other:?}"),
    }
    let texts: Vec<String> = vec![
        ChildOutcome::Completed { response: None },
        ChildOutcome::Failed { error: "boom".into() },
        ChildOutcome::Aborted,
        ChildOutcome::TimedOut,
    ]
    .into_iter()
    .map(|o| match child_turn_answer(o) {
        Err(SessionApiError::Internal(m)) => m,
        other => panic!("unexpected {other:?}"),
    })
    .collect();
    assert_eq!(
        texts,
        vec!["child turn completed without response payload", "turn error: boom", "turn aborted", "turn timed out"]
    );
    assert_eq!(child_cleanup(true), ChildCleanup::Recycle);
    assert_eq!(child_cleanup(false), ChildCleanup::Keep);
}

#[test]
fn own_turns_wait_or_run_in_background() {
    assert_eq!(turn_submission("a", "b", true), TurnSubmission::Child);
    assert_eq!(turn_submission("a", "a", true), TurnSubmission::Wait);
    assert_eq!(turn_submission("a", "a", false), TurnSubmission::Background);
    match waited_turn_answer(Ok(TurnSummary::Completed { finish_reason: "stop".into(), content: "hi".into() })) {
        Ok(SubmitTurnResult::Completed { content }) => assert_eq!(content, "hi"),
        other => panic!("unexpected {other:?}"),
    }
    match waited_turn_answer(Err(TurnScheduleError::TurnAlreadyRunning)) {
        Err(SessionApiError::Internal(m)) => assert_eq!(m, "submit: A turn is already running"),
        other => panic!("unexpected {other:?}"),
    }
    match backgrounded_answer("turn-1".into(), "s-1".into()) {
        SubmitTurnResult::Backgrounded { task_id, session_id } => assert_eq!((task_id.as_str(), session_id.as_str()), ("turn-1", "s-1")),
        other => panic!("unexpected {other:?}"),
    }
}

#[test]
fn inject_falls_back_to_persisting() {
    assert!(matches!(inject_next(None), InjectNext::Persist));
    assert!(matches!(inject_next(Some(Ok(()))), InjectNext::Done));
    assert!(matches!(inject_next(Some(Err(TurnScheduleError::NoActiveTurn))), InjectNext::Persist));
    match inject_next(Some(Err(TurnScheduleError::Turn("x".into())))) {
        InjectNext::Fail(SessionApiError::Internal(m)) => assert_eq!(m, "x"),
        _ => panic!("expected failure"),
    }
}
