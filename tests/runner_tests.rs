use autoservice::control::{ControlAction, RunSession};
use autoservice::runner::{
    fallback_script_path, final_report, plan_launch, resolve_worker, runner_exe_path, spawn_failure_line,
    FinalReport, LaunchError, RunEvent, RunMonitor, WorkerCommand, CONTROL_FILE_ENV,
};

#[test]
fn worker_paths() {
    assert_eq!(runner_exe_path("/repo/data"), "/repo/data/resources/bin/service_runner.exe");
    assert_eq!(fallback_script_path("/repo/data"), Some("/repo/runner/service_runner.py".to_string()));
    assert_eq!(fallback_script_path("/repo/data/"), Some("/repo/runner/service_runner.py".to_string()));
    assert_eq!(fallback_script_path("/data"), Some("/runner/service_runner.py".to_string()));
    assert_eq!(fallback_script_path("data"), Some("runner/service_runner.py".to_string()));
    assert_eq!(fallback_script_path(""), None);
    assert_eq!(CONTROL_FILE_ENV, "AUTOSERVICE_CONTROL_FILE");
}

#[test]
fn compiled_worker_is_preferred() {
    match resolve_worker("/d/data", true, true).unwrap() {
        WorkerCommand::Compiled { exe } => assert_eq!(exe, "/d/data/resources/bin/service_runner.exe"),
        other => panic!("unexpected {:?}", other),
    }
    match resolve_worker("/d/data", false, true).unwrap() {
        WorkerCommand::Script { interpreter, script } => {
            assert_eq!(interpreter, "python");
            assert_eq!(script, "/d/runner/service_runner.py");
        }
        other => panic!("unexpected {:?}", other),
    }
}

#[test]
fn missing_worker_fails_naming_the_path() {
    let e = resolve_worker("/d/data", false, false).unwrap_err();
    assert!(matches!(&e, LaunchError::WorkerMissing { exe } if exe == "/d/data/resources/bin/service_runner.exe"));
    let m = e.message();
    assert!(m.contains("/d/data/resources/bin/service_runner.exe"));
    assert!(m.starts_with("service_runner.exe not found at "));
    assert_eq!(
        LaunchError::PlanWrite { reason: "disk full".to_string() }.message(),
        "Failed to write plan file: disk full"
    );
    assert_eq!(
        LaunchError::LogsDir { reason: "denied".to_string() }.message(),
        "Failed to create logs dir: denied"
    );
}

#[test]
fn launch_plan_keeps_the_plan_verbatim() {
    let plan = "{\"tasks\":[{\"type\":\"sfc\"}],\n \"x\": \"é\"}";
    let w = WorkerCommand::Compiled { exe: "/d/data/resources/bin/service_runner.exe".to_string() };
    let p = plan_launch("/d/data", plan, 1700000000123, &w);
    assert_eq!(p.plan_contents, plan);
    assert_eq!(p.logs_dir, "/d/data/logs");
    assert_eq!(p.plan_file, "/d/data/logs/run_plan_1700000000123.json");
    assert_eq!(p.log_file, "/d/data/logs/run_plan_1700000000123.log.txt");
    assert_eq!(p.control_file, "/d/data/logs/run_control_1700000000123.json");
    assert_eq!(p.program, "/d/data/resources/bin/service_runner.exe");
    assert_eq!(
        p.args,
        vec![
            "/d/data/logs/run_plan_1700000000123.json".to_string(),
            "--log-file".to_string(),
            "/d/data/logs/run_plan_1700000000123.log.txt".to_string(),
        ]
    );
    let s = WorkerCommand::Script { interpreter: "python".to_string(), script: "/d/runner/service_runner.py".to_string() };
    let p = plan_launch("/d/data", "", 5, &s);
    assert_eq!(p.plan_contents, "");
    assert_eq!(p.program, "python");
    assert_eq!(p.args[0], "/d/runner/service_runner.py");
    assert_eq!(p.args[1], "/d/data/logs/run_plan_5.json");
}

#[test]
fn spawn_failure_lines() {
    let w = WorkerCommand::Compiled { exe: "w.exe".to_string() };
    assert_eq!(spawn_failure_line(&w, "not found"), "Failed to spawn runner EXE (w.exe): not found");
    let s = WorkerCommand::Script { interpreter: "python".to_string(), script: "r.py".to_string() };
    assert_eq!(spawn_failure_line(&s, "no python"), "Failed to spawn Python runner (python r.py): no python");
}

#[test]
fn lines_then_one_completion_with_parsed_report() {
    let mut session = RunSession::new();
    session.start_run("ctl.json".to_string());
    let mut monitor = RunMonitor::new("plan.json".to_string(), "plan.log.txt".to_string());
    let mut events = Vec::new();
    for i in 0..3 {
        if let Some(e) = monitor.relay_line(format!("line {i}")) {
            events.push(e);
        }
    }
    let (done, stale) = monitor.complete(&mut session, "{\"ok\":true}");
    assert_eq!(stale, Some("ctl.json".to_string()));
    events.extend(done);
    assert!(monitor.relay_line("late".to_string()).is_none());
    assert!(monitor.complete(&mut session, "{}").0.is_none());
    assert_eq!(events.len(), 4);
    for (i, e) in events.iter().take(3).enumerate() {
        match e {
            RunEvent::Line { line } => assert_eq!(line, &format!("line {i}")),
            other => panic!("unexpected {:?}", other),
        }
    }
    match &events[3] {
        RunEvent::Done { final_report: FinalReport::Parsed(v), plan_file, log_file } => {
            let expected: serde_json::Value = serde_json::from_str("{\"ok\": true}").unwrap();
            assert_eq!(v, &expected);
            assert_eq!(plan_file, "plan.json");
            assert_eq!(log_file, "plan.log.txt");
        }
        other => panic!("unexpected {:?}", other),
    }
    assert!(session.signal(ControlAction::Stop, 1).is_err());
}

#[test]
fn unparsable_result_is_kept_raw() {
    assert!(matches!(final_report(""), FinalReport::Raw(t) if t.is_empty()));
    assert!(matches!(final_report("not json"), FinalReport::Raw(t) if t == "not json"));
    assert!(matches!(final_report("{\"a\":1} trailing"), FinalReport::Raw(_)));
    assert!(matches!(final_report(" [1,2] "), FinalReport::Parsed(_)));
}
