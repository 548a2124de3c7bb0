use session_core::model::{Notification, OutputSource, SessionState};
use session_core::registry::{send_outcome, Action, ProcessManager, MAX_CONCURRENT_SESSIONS};
use std::sync::mpsc::channel;

fn registered(manager: &mut ProcessManager, id: &str, project: &str) {
    let result = manager.register_session(
        id.to_string(),
        project.to_string(),
        "2024-05-01T10:00:00+00:00".to_string(),
        channel(),
    );
    assert_eq!(result, Ok(id.to_string()));
}

fn notifications(manager: &mut ProcessManager) -> Vec<Notification> {
    let mut found = Vec::new();
    for action in manager.take_actions() {
        if let Action::Notify(notification) = action {
            found.push(notification);
        }
    }
    found
}

#[test]
fn new_manager_is_empty() {
    let mut manager = ProcessManager::new();
    assert_eq!(manager.list_active_sessions().unwrap().len(), 0);
    assert!(manager.take_actions().is_empty());
}

#[test]
fn register_records_an_idle_session() {
    let mut manager = ProcessManager::new();
    registered(&mut manager, "s-1", "proj-1");
    let info = manager.get_session("s-1").unwrap();
    assert_eq!(info.id, "s-1");
    assert_eq!(info.project_id, "proj-1");
    assert_eq!(info.state, "idle");
    assert_eq!(info.created_at, "2024-05-01T10:00:00+00:00");
    assert_eq!(info.output_count, 0);
    assert!(manager.get_session_output("s-1").unwrap().is_empty());
}

#[test]
fn register_queues_notification_then_launch() {
    let mut manager = ProcessManager::new();
    registered(&mut manager, "s-1", "proj-1");
    let actions = manager.take_actions();
    assert_eq!(actions.len(), 2);
    match &actions[0] {
        Action::Notify(Notification::SessionCreated { session_id, project_id }) => {
            assert_eq!(session_id, "s-1");
            assert_eq!(project_id, "proj-1");
        }
        _ => panic!("expected the notification of the new session"),
    }
    match &actions[1] {
        Action::Launch { session_id, project_id, .. } => {
            assert_eq!(session_id, "s-1");
            assert_eq!(project_id, "proj-1");
        }
        _ => panic!("expected the launch of the child process"),
    }
    assert!(manager.take_actions().is_empty());
}

#[test]
fn register_same_id_replaces_the_record() {
    let mut manager = ProcessManager::new();
    registered(&mut manager, "s-1", "proj-1");
    registered(&mut manager, "s-1", "proj-2");
    let sessions = manager.list_active_sessions().unwrap();
    assert_eq!(sessions.len(), 1);
    assert_eq!(sessions[0].project_id, "proj-2");
}

#[test]
fn spawn_gives_fresh_identifiers() {
    let mut manager = ProcessManager::new();
    let first = manager.spawn_session("proj-1".to_string()).unwrap();
    let second = manager.spawn_session("proj-1".to_string()).unwrap();
    assert_eq!(first.len(), 36);
    assert_eq!(second.len(), 36);
    assert_ne!(first, second);
    assert_ne!(first, "proj-1");
    let info = manager.get_session(&first).unwrap();
    assert_eq!(info.project_id, "proj-1");
    assert_eq!(info.state, "idle");
    assert!(!info.created_at.is_empty());
    assert_eq!(manager.list_active_sessions().unwrap().len(), 2);
}

#[test]
fn sixth_spawn_is_refused() {
    let mut manager = ProcessManager::new();
    for _ in 0..MAX_CONCURRENT_SESSIONS {
        assert!(manager.spawn_session("proj".to_string()).is_ok());
    }
    assert_eq!(manager.list_active_sessions().unwrap().len(), 5);
    let _ = manager.take_actions();
    let refused = manager.spawn_session("proj".to_string());
    assert_eq!(refused, Err("Maximum 5 concurrent sessions allowed".to_string()));
    assert_eq!(manager.list_active_sessions().unwrap().len(), 5);
    assert!(manager.take_actions().is_empty());
}

#[test]
fn slot_is_free_again_after_termination() {
    let mut manager = ProcessManager::new();
    let mut ids = Vec::new();
    for _ in 0..5 {
        ids.push(manager.spawn_session("proj".to_string()).unwrap());
    }
    assert!(manager.spawn_session("proj".to_string()).is_err());
    assert_eq!(manager.terminate_session(ids[2].clone()), Ok(()));
    assert!(manager.spawn_session("proj".to_string()).is_ok());
    assert_eq!(manager.list_active_sessions().unwrap().len(), 5);
}

#[test]
fn unknown_identifier_is_not_found_everywhere() {
    let mut manager = ProcessManager::new();
    registered(&mut manager, "s-1", "proj-1");
    let _ = manager.take_actions();
    let expected = "Session not found: nope".to_string();
    assert_eq!(manager.terminate_session("nope".to_string()), Err(expected.clone()));
    assert_eq!(manager.get_session("nope").err(), Some(expected.clone()));
    assert_eq!(manager.get_session_output("nope").err(), Some(expected.clone()));
    assert_eq!(manager.write_to_session("nope", "hi".to_string()), Err(expected.clone()));
    assert_eq!(manager.update_session_state("nope", SessionState::Working), Err(expected));
    assert!(manager.take_actions().is_empty());
    let sessions = manager.list_active_sessions().unwrap();
    assert_eq!(sessions.len(), 1);
    assert_eq!(sessions[0].id, "s-1");
    assert_eq!(sessions[0].state, "idle");
}

#[test]
fn terminate_twice_fails_the_second_time() {
    let mut manager = ProcessManager::new();
    registered(&mut manager, "s-1", "proj-1");
    let _ = manager.take_actions();
    assert_eq!(manager.terminate_session("s-1".to_string()), Ok(()));
    assert_eq!(manager.list_active_sessions().unwrap().len(), 0);
    let sent = notifications(&mut manager);
    assert_eq!(sent.len(), 1);
    assert!(matches!(&sent[0], Notification::Terminated { session_id } if session_id == "s-1"));
    assert_eq!(
        manager.terminate_session("s-1".to_string()),
        Err("Session not found: s-1".to_string())
    );
    assert!(manager.take_actions().is_empty());
}

#[test]
fn terminate_leaves_the_others() {
    let mut manager = ProcessManager::new();
    registered(&mut manager, "a", "p");
    registered(&mut manager, "b", "p");
    registered(&mut manager, "c", "p");
    assert_eq!(manager.terminate_session("b".to_string()), Ok(()));
    let mut ids: Vec<String> =
        manager.list_active_sessions().unwrap().into_iter().map(|s| s.id).collect();
    ids.sort();
    assert_eq!(ids, vec!["a".to_string(), "c".to_string()]);
}

#[test]
fn list_has_one_summary_per_session() {
    let mut manager = ProcessManager::new();
    registered(&mut manager, "a", "p-a");
    registered(&mut manager, "b", "p-b");
    manager.record_output_at("b", OutputSource::Stderr, "oops".to_string(), "t".to_string());
    let mut sessions = manager.list_active_sessions().unwrap();
    sessions.sort_by(|x, y| x.id.cmp(&y.id));
    assert_eq!(sessions.len(), 2);
    assert_eq!(sessions[0].id, "a");
    assert_eq!(sessions[0].project_id, "p-a");
    assert_eq!(sessions[0].output_count, 0);
    assert_eq!(sessions[1].id, "b");
    assert_eq!(sessions[1].project_id, "p-b");
    assert_eq!(sessions[1].output_count, 1);
}

#[test]
fn update_state_sets_and_announces() {
    let mut manager = ProcessManager::new();
    registered(&mut manager, "s-1", "proj-1");
    let _ = manager.take_actions();
    assert_eq!(manager.update_session_state("s-1", SessionState::Waiting), Ok(()));
    assert_eq!(manager.get_session("s-1").unwrap().state, "waiting");
    let sent = notifications(&mut manager);
    assert_eq!(sent.len(), 1);
    assert!(matches!(
        &sent[0],
        Notification::StateChanged { session_id, state: SessionState::Waiting } if session_id == "s-1"
    ));
}

#[test]
fn end_to_end_scenario() {
    let mut manager = ProcessManager::new();
    let id = manager.spawn_session("proj-1".to_string()).unwrap();
    let sessions = manager.list_active_sessions().unwrap();
    assert_eq!(sessions.len(), 1);
    assert_eq!(sessions[0].state, "idle");
    let _ = manager.take_actions();

    manager.record_output(&id, OutputSource::Stdout, "Reading file: x.txt".to_string());
    assert_eq!(manager.get_session(&id).unwrap().state, "working");
    let sent = notifications(&mut manager);
    let changes = sent.iter().filter(|n| matches!(n, Notification::StateChanged { .. })).count();
    assert_eq!(changes, 1);
    assert!(matches!(
        &sent[0],
        Notification::StateChanged { session_id, state: SessionState::Working } if *session_id == id
    ));
    assert!(matches!(
        &sent[1],
        Notification::Output { session_id, line, source: OutputSource::Stdout, .. }
            if *session_id == id && line == "Reading file: x.txt"
    ));

    manager.record_output(&id, OutputSource::Stdout, "Processing".to_string());
    assert_eq!(manager.get_session(&id).unwrap().state, "working");
    let sent = notifications(&mut manager);
    assert_eq!(sent.len(), 1);
    assert!(matches!(&sent[0], Notification::Output { .. }));

    let output = manager.get_session_output(&id).unwrap();
    assert_eq!(output.len(), 2);
    assert_eq!(output[0].text, "Reading file: x.txt");
    assert_eq!(output[0].line_type, "stdout");
    assert!(!output[0].timestamp.is_empty());
}

#[test]
fn idle_line_after_work_is_announced() {
    let mut manager = ProcessManager::new();
    registered(&mut manager, "s-1", "proj-1");
    manager.record_output_at("s-1", OutputSource::Stdout, "Thinking...".to_string(), "t1".to_string());
    let _ = manager.take_actions();
    manager.record_output_at("s-1", OutputSource::Stdout, "done".to_string(), "t2".to_string());
    assert_eq!(manager.get_session("s-1").unwrap().state, "idle");
    let sent = notifications(&mut manager);
    assert_eq!(sent.len(), 2);
    assert!(matches!(
        &sent[0],
        Notification::StateChanged { state: SessionState::Idle, .. }
    ));
    manager.record_output_at("s-1", OutputSource::Stdout, "still done".to_string(), "t3".to_string());
    let sent = notifications(&mut manager);
    assert_eq!(sent.len(), 1);
    assert!(matches!(&sent[0], Notification::Output { .. }));
}

#[test]
fn idle_lines_on_an_idle_session_announce_nothing() {
    let mut manager = ProcessManager::new();
    registered(&mut manager, "s-1", "proj-1");
    let _ = manager.take_actions();
    manager.record_output_at("s-1", OutputSource::Stdout, "hello".to_string(), "t1".to_string());
    let sent = notifications(&mut manager);
    assert_eq!(sent.len(), 1);
    match &sent[0] {
        Notification::Output { session_id, line, timestamp, source } => {
            assert_eq!(session_id, "s-1");
            assert_eq!(line, "hello");
            assert_eq!(timestamp, "t1");
            assert_eq!(*source, OutputSource::Stdout);
        }
        _ => panic!("expected the notification of the line"),
    }
    assert_eq!(manager.get_session("s-1").unwrap().state, "idle");
}

#[test]
fn stderr_does_not_drive_the_status() {
    let mut manager = ProcessManager::new();
    registered(&mut manager, "s-1", "proj-1");
    let _ = manager.take_actions();
    manager.record_output_at("s-1", OutputSource::Stderr, "Continue? (y/n)".to_string(), "t".to_string());
    assert_eq!(manager.get_session("s-1").unwrap().state, "idle");
    let sent = notifications(&mut manager);
    assert_eq!(sent.len(), 1);
    assert!(matches!(
        &sent[0],
        Notification::Output { source: OutputSource::Stderr, .. }
    ));
    let output = manager.get_session_output("s-1").unwrap();
    assert_eq!(output.len(), 1);
    assert_eq!(output[0].line_type, "stderr");
    assert_eq!(output[0].timestamp, "t");
}

#[test]
fn stdout_order_survives_interleaving() {
    let mut manager = ProcessManager::new();
    registered(&mut manager, "s-1", "proj-1");
    let feed = [
        (OutputSource::Stdout, "a"),
        (OutputSource::Stderr, "x"),
        (OutputSource::Stdout, "b"),
        (OutputSource::Stderr, "y"),
        (OutputSource::Stderr, "z"),
        (OutputSource::Stdout, "c"),
    ];
    for (source, text) in feed {
        manager.record_output_at("s-1", source, text.to_string(), "t".to_string());
    }
    let output = manager.get_session_output("s-1").unwrap();
    let stdout: Vec<&str> =
        output.iter().filter(|l| l.line_type == "stdout").map(|l| l.text.as_str()).collect();
    let stderr: Vec<&str> =
        output.iter().filter(|l| l.line_type == "stderr").map(|l| l.text.as_str()).collect();
    assert_eq!(stdout, vec!["a", "b", "c"]);
    assert_eq!(stderr, vec!["x", "y", "z"]);
    assert_eq!(manager.get_session("s-1").unwrap().output_count, 6);
}

#[test]
fn session_history_is_bounded() {
    let mut manager = ProcessManager::new();
    registered(&mut manager, "s-1", "proj-1");
    for n in 0..10003 {
        manager.record_output_at("s-1", OutputSource::Stdout, format!("n{}", n), "t".to_string());
        let _ = manager.take_actions();
    }
    assert_eq!(manager.get_session("s-1").unwrap().output_count, 10000);
    let output = manager.get_session_output("s-1").unwrap();
    assert_eq!(output[0].text, "n3");
    assert_eq!(output[9999].text, "n10002");
}

#[test]
fn line_for_a_removed_session_is_only_announced() {
    let mut manager = ProcessManager::new();
    registered(&mut manager, "s-1", "proj-1");
    let _ = manager.terminate_session("s-1".to_string());
    let _ = manager.take_actions();
    manager.record_output_at("s-1", OutputSource::Stdout, "Thinking...".to_string(), "t".to_string());
    let sent = notifications(&mut manager);
    assert_eq!(sent.len(), 1);
    assert!(matches!(&sent[0], Notification::Output { line, .. } if line == "Thinking..."));
    assert_eq!(manager.list_active_sessions().unwrap().len(), 0);
}

#[test]
fn exit_is_announced_and_the_session_stays() {
    let mut manager = ProcessManager::new();
    registered(&mut manager, "s-1", "proj-1");
    let _ = manager.take_actions();
    manager.record_exit("s-1", Some(3));
    manager.record_exit("s-1", None);
    let sent = notifications(&mut manager);
    assert_eq!(sent.len(), 2);
    assert!(matches!(
        &sent[0],
        Notification::Completed { session_id, exit_code: Some(3) } if session_id == "s-1"
    ));
    assert!(matches!(&sent[1], Notification::Completed { exit_code: None, .. }));
    assert_eq!(manager.list_active_sessions().unwrap().len(), 1);
}

#[test]
fn input_reaches_the_queue_in_order() {
    let mut manager = ProcessManager::new();
    let (sender, receiver) = channel();
    let (_, spare) = channel();
    let result = manager.register_session(
        "s-1".to_string(),
        "proj-1".to_string(),
        "t".to_string(),
        (sender, spare),
    );
    assert!(result.is_ok());
    assert_eq!(manager.write_to_session("s-1", "first".to_string()), Ok(()));
    assert_eq!(manager.write_to_session("s-1", "second".to_string()), Ok(()));
    assert_eq!(receiver.try_recv(), Ok("first".to_string()));
    assert_eq!(receiver.try_recv(), Ok("second".to_string()));
    assert!(receiver.try_recv().is_err());
}

#[test]
fn input_after_the_queue_closed_fails() {
    let mut manager = ProcessManager::new();
    registered(&mut manager, "s-1", "proj-1");
    drop(manager.take_actions());
    assert_eq!(
        manager.write_to_session("s-1", "hello".to_string()),
        Err("Failed to send input: sending on a closed channel".to_string())
    );
    assert_eq!(manager.get_session("s-1").unwrap().state, "idle");
}

#[test]
fn send_outcome_wraps_the_reason() {
    assert_eq!(send_outcome(Ok(())), Ok(()));
    assert_eq!(
        send_outcome(Err("gone".to_string())),
        Err("Failed to send input: gone".to_string())
    );
}

#[test]
fn taking_actions_empties_the_queue_in_order() {
    let mut manager = ProcessManager::new();
    registered(&mut manager, "a", "p");
    manager.record_exit("a", Some(0));
    let _ = manager.terminate_session("a".to_string());
    let sent = notifications(&mut manager);
    let topics: Vec<String> = sent.iter().map(|n| n.topic()).collect();
    assert_eq!(topics, vec!["session-created", "session-completed", "session-terminated"]);
    assert!(manager.take_actions().is_empty());
}
