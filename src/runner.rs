//! Launching the service worker and finishing its run: which program runs,
//! with which files and arguments, what a failed spawn reports, how the
//! worker's result text becomes the final report, and the order of the events
//! that the operator's view receives.

use crate::control::RunSession;
use crate::paths::{joined_with, join_path, parent_of, parent_path, replace_extension, with_extension};
use crate::text::{concat2, concat3, decimal, decimal_string};
use vstd::prelude::*;

verus! {

#[verifier::external_type_specification]
#[verifier::external_body]
pub struct ExJsonValue(serde_json::Value);

/// Whether `serde_json` reads `text` as exactly one JSON document.
pub uninterp spec fn json_document(text: Seq<char>) -> bool;

/// How many items the JSON document `text` holds where it is an array (as
/// `serde_json` reads it); none where it is another value.
pub uninterp spec fn json_array_len(text: Seq<char>) -> Option<nat>;

/// Relies on `serde_json::from_str::<serde_json::Value>`: it succeeds exactly
/// on a single JSON document, and on empty input it fails (end of input while
/// a value was expected). Where the value is an array (its `Array` variant),
/// its items come too.
#[verifier::external_body]
pub(crate) fn parse_json(text: &str) -> (r: Option<(serde_json::Value, Option<Vec<serde_json::Value>>)>)
    ensures
        r is Some <==> json_document(text@),
        text@.len() == 0 ==> r is None,
        r matches Some((_, items)) ==> match items {
            Some(x) => json_array_len(text@) == Some(x@.len()),
            None => json_array_len(text@) is None,
        },
{
    match serde_json::from_str::<serde_json::Value>(text) {
        Ok(v) => {
            let items = match &v {
                serde_json::Value::Array(a) => Some(a.clone()),
                _ => None,
            };
            Some((v, items))
        },
        Err(_) => None,
    }
}

/// The environment variable through which the worker learns its control file.
pub const CONTROL_FILE_ENV: &'static str = "AUTOSERVICE_CONTROL_FILE";

/// The interpreter that runs the development script.
pub const SCRIPT_INTERPRETER: &'static str = "python";

/// The compiled worker: `<data>/resources/bin/service_runner.exe`.
pub open spec fn runner_exe_of(data_root: Seq<char>) -> Seq<char> {
    joined_with(
        joined_with(joined_with(data_root, "resources"@, '/'), "bin"@, '/'),
        "service_runner.exe"@,
        '/',
    )
}

/// The development script: `<repo>/runner/service_runner.py`, where the
/// repository is the folder that holds the data root.
pub open spec fn fallback_script_of(data_root: Seq<char>) -> Option<Seq<char>> {
    match parent_of(data_root) {
        Some(repo) => Some(
            joined_with(joined_with(repo, "runner"@, '/'), "service_runner.py"@, '/'),
        ),
        None => None,
    }
}

/// Where the compiled worker is looked for.
pub fn runner_exe_path(data_root: &str) -> (r: String)
    ensures
        r@ == runner_exe_of(data_root@),
{
    let resources = join_path(data_root, "resources");
    let bin = join_path(resources.as_str(), "bin");
    join_path(bin.as_str(), "service_runner.exe")
}

/// Where the development script is looked for, if the data root has a parent.
pub fn fallback_script_path(data_root: &str) -> (r: Option<String>)
    ensures
        match r {
            Some(s) => fallback_script_of(data_root@) == Some(s@),
            None => fallback_script_of(data_root@) is None,
        },
{
    match parent_path(data_root) {
        Some(repo) => {
            let runner = join_path(repo.as_str(), "runner");
            Some(join_path(runner.as_str(), "service_runner.py"))
        },
        None => None,
    }
}

/// The program that performs a run.
#[derive(Clone, Debug)]
pub enum WorkerCommand {
    /// The compiled worker binary.
    Compiled { exe: String },
    /// The development script, run by an interpreter.
    Script { interpreter: String, script: String },
}

/// Why a run could not be launched.
#[derive(Clone, Debug)]
pub enum LaunchError {
    /// Neither the compiled worker nor the development script exists; `exe`
    /// is where the compiled worker was looked for.
    WorkerMissing { exe: String },
    /// The logs folder could not be created.
    LogsDir { reason: String },
    /// The plan file could not be written.
    PlanWrite { reason: String },
}

/// The message of a launch error.
pub open spec fn launch_error_text(e: LaunchError) -> Seq<char> {
    match e {
        LaunchError::WorkerMissing { exe } => "service_runner.exe not found at "@ + exe@
            + " and Python fallback script was not located. Expected script path: <repo>/runner/service_runner.py"@,
        LaunchError::LogsDir { reason } => "Failed to create logs dir: "@ + reason@,
        LaunchError::PlanWrite { reason } => "Failed to write plan file: "@ + reason@,
    }
}

impl LaunchError {
    /// The message shown to the operator; a missing worker names the path
    /// where it was looked for.
    pub fn message(&self) -> (r: String)
        ensures
            r@ == launch_error_text(*self),
    {
        match self {
            LaunchError::WorkerMissing { exe } => concat3(
                "service_runner.exe not found at ",
                exe.as_str(),
                " and Python fallback script was not located. Expected script path: <repo>/runner/service_runner.py",
            ),
            LaunchError::LogsDir { reason } => concat2("Failed to create logs dir: ", reason.as_str()),
            LaunchError::PlanWrite { reason } => concat2("Failed to write plan file: ", reason.as_str()),
        }
    }
}

/// Chooses the worker: the compiled binary where it exists, else the
/// development script where it exists, else an error that names the path of
/// the missing binary. `exe_exists` and `script_exists` tell whether the
/// files at `runner_exe_path` and `fallback_script_path` exist.
pub fn resolve_worker(data_root: &str, exe_exists: bool, script_exists: bool) -> (r: Result<
    WorkerCommand,
    LaunchError,
>)
    ensures
        exe_exists ==> (r matches Ok(WorkerCommand::Compiled { exe }) && exe@ == runner_exe_of(
            data_root@,
        )),
        !exe_exists && script_exists && fallback_script_of(data_root@) is Some ==> (r matches Ok(
            WorkerCommand::Script { interpreter, script },
        ) && interpreter@ == SCRIPT_INTERPRETER@ && Some(script@) == fallback_script_of(
            data_root@,
        )),
        !exe_exists && !(script_exists && fallback_script_of(data_root@) is Some) ==> (r matches Err(
            LaunchError::WorkerMissing { exe },
        ) && exe@ == runner_exe_of(data_root@)),
{
    let exe = runner_exe_path(data_root);
    if exe_exists {
        return Ok(WorkerCommand::Compiled { exe });
    }
    if script_exists {
        if let Some(script) = fallback_script_path(data_root) {
            return Ok(
                WorkerCommand::Script {
                    interpreter: String::from_str(SCRIPT_INTERPRETER),
                    script,
                },
            );
        }
    }
    Err(LaunchError::WorkerMissing { exe })
}

/// The logs folder under the data root.
pub open spec fn logs_dir_of(data_root: Seq<char>) -> Seq<char> {
    joined_with(data_root, "logs"@, '/')
}

/// The plan file of a run started at `millis`: `run_plan_<millis>.json` in
/// the logs folder.
pub open spec fn plan_file_of(data_root: Seq<char>, millis: nat) -> Seq<char> {
    joined_with(logs_dir_of(data_root), "run_plan_"@ + decimal(millis) + ".json"@, '/')
}

/// The control file of a run started at `millis`: `run_control_<millis>.json`
/// in the logs folder.
pub open spec fn control_file_of(data_root: Seq<char>, millis: nat) -> Seq<char> {
    joined_with(logs_dir_of(data_root), "run_control_"@ + decimal(millis) + ".json"@, '/')
}

/// Everything needed to start a run, decided before anything is written.
#[derive(Clone, Debug)]
pub struct LaunchPlan {
    /// The folder that receives the plan, log and control files.
    pub logs_dir: String,
    /// The file that receives the plan document.
    pub plan_file: String,
    /// What is written to `plan_file`: the plan document, unchanged.
    pub plan_contents: String,
    /// The log file that the worker fills.
    pub log_file: String,
    /// The control file of this run.
    pub control_file: String,
    /// The program to start.
    pub program: String,
    /// Its arguments, in order.
    pub args: Vec<String>,
}

/// The program and arguments that run `worker` on a plan file: the plan file
/// first (after the script, for the interpreter), then `--log-file <log>`.
pub open spec fn command_line(
    worker: WorkerCommand,
    plan_file: Seq<char>,
    log_file: Seq<char>,
) -> (Seq<char>, Seq<Seq<char>>) {
    match worker {
        WorkerCommand::Compiled { exe } => (exe@, seq![plan_file, "--log-file"@, log_file]),
        WorkerCommand::Script { interpreter, script } => (
            interpreter@,
            seq![script@, plan_file, "--log-file"@, log_file],
        ),
    }
}

/// Lays out a run started at `millis` (milliseconds since the Unix epoch):
/// the plan file receives `plan_json` verbatim, the log file is the plan file
/// with the extension `log.txt`, and the worker gets the plan file and
/// `--log-file <log>` as arguments.
pub fn plan_launch(data_root: &str, plan_json: &str, millis: u64, worker: &WorkerCommand) -> (r:
    LaunchPlan)
    ensures
        r.logs_dir@ == logs_dir_of(data_root@),
        r.plan_file@ == plan_file_of(data_root@, millis as nat),
        r.plan_contents@ == plan_json@,
        r.log_file@ == with_extension(r.plan_file@, "log.txt"@),
        r.control_file@ == control_file_of(data_root@, millis as nat),
        (r.program@, r.args@.map_values(|a: String| a@)) == command_line(
            *worker,
            r.plan_file@,
            r.log_file@,
        ),
{
    let logs_dir = join_path(data_root, "logs");
    let stamp = decimal_string(millis);
    let plan_name = concat3("run_plan_", stamp.as_str(), ".json");
    let control_name = concat3("run_control_", stamp.as_str(), ".json");
    let plan_file = join_path(logs_dir.as_str(), plan_name.as_str());
    let log_file = replace_extension(plan_file.as_str(), "log.txt");
    let control_file = join_path(logs_dir.as_str(), control_name.as_str());
    let mut args: Vec<String> = Vec::new();
    let program = match worker {
        WorkerCommand::Compiled { exe } => String::from_str(exe.as_str()),
        WorkerCommand::Script { interpreter, script } => {
            args.push(String::from_str(script.as_str()));
            String::from_str(interpreter.as_str())
        },
    };
    args.push(String::from_str(plan_file.as_str()));
    args.push(String::from_str("--log-file"));
    args.push(String::from_str(log_file.as_str()));
    let r = LaunchPlan {
        logs_dir,
        plan_file,
        plan_contents: String::from_str(plan_json),
        log_file,
        control_file,
        program,
        args,
    };
    proof {
        let (p, a) = command_line(*worker, r.plan_file@, r.log_file@);
        assert(r.args@.map_values(|a: String| a@) =~= a);
    }
    r
}

/// The single diagnostic line that reports a failed spawn.
pub open spec fn spawn_failure_text(worker: WorkerCommand, reason: Seq<char>) -> Seq<char> {
    match worker {
        WorkerCommand::Compiled { exe } => "Failed to spawn runner EXE ("@ + exe@ + "): "@
            + reason,
        WorkerCommand::Script { script, .. } => "Failed to spawn Python runner (python "@
            + script@ + "): "@ + reason,
    }
}

/// The diagnostic line that reports that `worker` could not be spawned.
pub fn spawn_failure_line(worker: &WorkerCommand, reason: &str) -> (r: String)
    ensures
        r@ == spawn_failure_text(*worker, reason@),
{
    let mut s = match worker {
        WorkerCommand::Compiled { exe } => concat3("Failed to spawn runner EXE (", exe.as_str(), "): "),
        WorkerCommand::Script { script, .. } => concat3(
            "Failed to spawn Python runner (python ",
            script.as_str(),
            "): ",
        ),
    };
    s.append(reason);
    s
}

/// The report of a finished run: the worker's result document, or, where its
/// result text is no JSON document, that text kept whole (shown as
/// `{"raw": <text>}`).
#[derive(Debug)]
pub enum FinalReport {
    Parsed(serde_json::Value),
    Raw(String),
}

/// The final report, given what parsing the result text gave.
pub fn report_from_parse(parsed: Option<serde_json::Value>, text: &str) -> (r: FinalReport)
    ensures
        match parsed {
            Some(v) => r == FinalReport::Parsed(v),
            None => r matches FinalReport::Raw(t) && t@ == text@,
        },
{
    match parsed {
        Some(v) => FinalReport::Parsed(v),
        None => FinalReport::Raw(String::from_str(text)),
    }
}

/// Parses the worker's result text into the final report; where it is no
/// JSON document (an empty text among them) the text itself is kept.
pub fn final_report(text: &str) -> (r: FinalReport)
    ensures
        r is Parsed <==> json_document(text@),
        r matches FinalReport::Raw(t) ==> t@ == text@,
        text@.len() == 0 ==> (r matches FinalReport::Raw(t) && t@.len() == 0),
{
    let parsed = match parse_json(text) {
        Some((v, _)) => Some(v),
        None => None,
    };
    report_from_parse(parsed, text)
}

/// What the operator's view receives about a run.
#[derive(Debug)]
pub enum RunEvent {
    /// One line of the worker's diagnostic stream.
    Line { line: String },
    /// The run is over.
    Done { final_report: FinalReport, plan_file: String, log_file: String },
}

/// What happens to a run, as far as the order of events goes.
pub enum Happening {
    /// The worker wrote a diagnostic line.
    LineRead(Seq<char>),
    /// The worker exited.
    Exited,
}

/// An event, as far as order goes.
pub enum EventKind {
    LineEvent(Seq<char>),
    DoneEvent,
}

/// The events produced from `happenings` by a monitor that starts in state
/// `finished`: a line is relayed while the run is not finished, and the exit
/// gives the completion event once, after which nothing more is relayed.
pub open spec fn trace(finished: bool, happenings: Seq<Happening>) -> Seq<EventKind>
    decreases happenings.len(),
{
    if happenings.len() == 0 {
        Seq::empty()
    } else {
        let rest = happenings.drop_first();
        match happenings[0] {
            Happening::LineRead(l) => if finished {
                trace(true, rest)
            } else {
                seq![EventKind::LineEvent(l)] + trace(false, rest)
            },
            Happening::Exited => if finished {
                trace(true, rest)
            } else {
                seq![EventKind::DoneEvent] + trace(true, rest)
            },
        }
    }
}

proof fn lemma_trace_one(finished: bool, h: Happening)
    ensures
        trace(finished, seq![h]) == (if finished {
            Seq::<EventKind>::empty()
        } else {
            match h {
                Happening::LineRead(l) => seq![EventKind::LineEvent(l)],
                Happening::Exited => seq![EventKind::DoneEvent],
            }
        }),
{
    let hs = seq![h];
    assert(hs.drop_first() =~= Seq::<Happening>::empty());
    assert(trace(true, hs.drop_first()) == Seq::<EventKind>::empty());
    assert(trace(false, hs.drop_first()) == Seq::<EventKind>::empty());
    match h {
        Happening::LineRead(l) => {
            assert(seq![EventKind::LineEvent(l)] + Seq::<EventKind>::empty() =~= seq![EventKind::LineEvent(l)]);
        },
        Happening::Exited => {
            assert(seq![EventKind::DoneEvent] + Seq::<EventKind>::empty() =~= seq![EventKind::DoneEvent]);
        },
    }
}

/// The order kept by a run's events: relays diagnostic lines while the run
/// goes on, then gives the completion event exactly once.
pub struct RunMonitor {
    pub plan_file: String,
    pub log_file: String,
    pub finished: bool,
}

impl RunMonitor {
    /// A monitor for a run that has just been spawned.
    pub fn new(plan_file: String, log_file: String) -> (r: RunMonitor)
        ensures
            !r.finished,
            r.plan_file == plan_file,
            r.log_file == log_file,
    {
        RunMonitor { plan_file, log_file, finished: false }
    }

    /// The event for a diagnostic line: the line itself while the run goes
    /// on, nothing once it has finished.
    pub fn relay_line(&self, line: String) -> (r: Option<RunEvent>)
        ensures
            self.finished ==> r is None,
            !self.finished ==> (r matches Some(RunEvent::Line { line: l }) && l == line),
            trace(self.finished, seq![Happening::LineRead(line@)]) == (match r {
                Some(_) => seq![EventKind::LineEvent(line@)],
                None => Seq::<EventKind>::empty(),
            }),
    {
        proof {
            lemma_trace_one(self.finished, Happening::LineRead(line@));
        }
        if self.finished {
            None
        } else {
            Some(RunEvent::Line { line })
        }
    }

    /// Finishes the run when the worker has exited: clears the registered
    /// control channel, and gives the completion event with the final report
    /// parsed from `result_text` and the plan and log files. A second call
    /// gives nothing.
    pub fn complete(&mut self, session: &mut RunSession, result_text: &str) -> (r: (
        Option<RunEvent>,
        Option<String>,
    ))
        ensures
            final(self).finished,
            final(self).plan_file == old(self).plan_file,
            final(self).log_file == old(self).log_file,
            final(session)@ is None,
            r.1 == old(session).control_path,
            old(self).finished ==> r.0 is None,
            !old(self).finished ==> (r.0 matches Some(
                RunEvent::Done { final_report, plan_file, log_file },
            ) && plan_file@ == old(self).plan_file@ && log_file@ == old(self).log_file@ && (
            final_report is Parsed <==> json_document(result_text@)) && (
            final_report matches FinalReport::Raw(t) ==> t@ == result_text@) && (result_text@.len() == 0
                ==> (final_report matches FinalReport::Raw(t) && t@.len() == 0))),
            trace(old(self).finished, seq![Happening::Exited]) == (match r.0 {
                Some(_) => seq![EventKind::DoneEvent],
                None => Seq::<EventKind>::empty(),
            }),
    {
        proof {
            lemma_trace_one(self.finished, Happening::Exited);
        }
        let stale = session.complete_run();
        if self.finished {
            return (None, stale);
        }
        self.finished = true;
        let report = final_report(result_text);
        let done = RunEvent::Done {
            final_report: report,
            plan_file: String::from_str(self.plan_file.as_str()),
            log_file: String::from_str(self.log_file.as_str()),
        };
        (Some(done), stale)
    }
}

/// A worker that writes `lines` and then exits yields exactly those lines as
/// events, in order, followed by exactly one completion event.
pub proof fn lemma_lines_then_completion(lines: Seq<Seq<char>>)
    ensures
        trace(
            false,
            lines.map_values(|l: Seq<char>| Happening::LineRead(l)).push(Happening::Exited),
        ) == lines.map_values(|l: Seq<char>| EventKind::LineEvent(l)).push(EventKind::DoneEvent),
    decreases lines.len(),
{
    let hs = lines.map_values(|l: Seq<char>| Happening::LineRead(l)).push(Happening::Exited);
    if lines.len() == 0 {
        assert(hs =~= seq![Happening::Exited]);
        lemma_trace_one(false, Happening::Exited);
        assert(seq![EventKind::DoneEvent] + Seq::<EventKind>::empty() =~= lines.map_values(
            |l: Seq<char>| EventKind::LineEvent(l),
        ).push(EventKind::DoneEvent));
    } else {
        let rest = lines.drop_first();
        lemma_lines_then_completion(rest);
        assert(hs[0] == Happening::LineRead(lines[0]));
        assert(hs.drop_first() =~= rest.map_values(|l: Seq<char>| Happening::LineRead(l)).push(
            Happening::Exited,
        ));
        assert(seq![EventKind::LineEvent(lines[0])] + rest.map_values(
            |l: Seq<char>| EventKind::LineEvent(l),
        ).push(EventKind::DoneEvent) =~= lines.map_values(
            |l: Seq<char>| EventKind::LineEvent(l),
        ).push(EventKind::DoneEvent));
    }
}

/// Whatever happens, at most one completion event is given, and no event
/// follows it.
pub proof fn lemma_completion_is_last(finished: bool, hs: Seq<Happening>)
    ensures
        forall|i: int|
            0 <= i < trace(finished, hs).len() && trace(finished, hs)[i] is DoneEvent ==> i
                == trace(finished, hs).len() - 1 && !finished,
    decreases hs.len(),
{
    if hs.len() > 0 {
        let rest = hs.drop_first();
        lemma_completion_is_last(finished, rest);
        lemma_completion_is_last(true, rest);
        lemma_nothing_after_finish(rest);
    }
}

/// A finished run relays nothing more.
pub proof fn lemma_nothing_after_finish(hs: Seq<Happening>)
    ensures
        trace(true, hs).len() == 0,
    decreases hs.len(),
{
    if hs.len() > 0 {
        lemma_nothing_after_finish(hs.drop_first());
    }
}

} // verus!
