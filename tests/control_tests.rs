use std::collections::HashMap;

use autoservice::control::{encode_control_record, ControlAction, ControlError, ControlWrite, RunSession};

fn apply(files: &mut HashMap<String, String>, r: Result<ControlWrite, ControlError>) -> Result<(), String> {
    match r {
        Ok(w) => {
            files.insert(w.path, w.contents);
            Ok(())
        }
        Err(e) => Err(e.message()),
    }
}

#[test]
fn control_record_is_compact_json() {
    assert_eq!(
        encode_control_record(ControlAction::Stop, 1700000000),
        "{\"action\":\"stop\",\"timestamp\":1700000000}"
    );
    assert_eq!(
        encode_control_record(ControlAction::Pause, 5),
        "{\"action\":\"pause\",\"timestamp\":5}"
    );
    assert_eq!(
        encode_control_record(ControlAction::Skip, 0),
        "{\"action\":\"skip\",\"timestamp\":0}"
    );
    let v: serde_json::Value = serde_json::from_str(&encode_control_record(ControlAction::Skip, 42)).unwrap();
    assert_eq!(v["action"], "skip");
    assert_eq!(v["timestamp"], 42);
}

#[test]
fn pause_after_stop_leaves_only_pause() {
    let mut session = RunSession::new();
    assert_eq!(session.start_run("logs/run_control_1.json".to_string()), None);
    let mut files = HashMap::new();
    apply(&mut files, session.signal(ControlAction::Stop, 10)).unwrap();
    apply(&mut files, session.signal(ControlAction::Pause, 11)).unwrap();
    assert_eq!(files.len(), 1);
    assert_eq!(
        files["logs/run_control_1.json"],
        "{\"action\":\"pause\",\"timestamp\":11}"
    );
}

#[test]
fn signal_without_run_is_refused_and_writes_nothing() {
    let session = RunSession::new();
    let mut files = HashMap::new();
    for a in [ControlAction::Stop, ControlAction::Pause, ControlAction::Skip] {
        let r = apply(&mut files, session.signal(a, 1));
        assert_eq!(r, Err("No active service run".to_string()));
    }
    assert!(files.is_empty());
}

#[test]
fn completed_run_refuses_stop() {
    let mut session = RunSession::new();
    session.start_run("c.json".to_string());
    assert!(session.is_active());
    assert_eq!(session.complete_run(), Some("c.json".to_string()));
    assert!(!session.is_active());
    assert!(matches!(session.signal(ControlAction::Stop, 3), Err(ControlError::NoActiveRun)));
}

#[test]
fn new_run_hands_back_stale_control_file() {
    let mut session = RunSession::new();
    session.start_run("old.json".to_string());
    assert_eq!(session.start_run("new.json".to_string()), Some("old.json".to_string()));
    let w = session.signal(ControlAction::Skip, 2).unwrap();
    assert_eq!(w.path, "new.json");
}
