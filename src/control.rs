//! The control channel: the operator's stop / pause / skip signals, written
//! as a small JSON record to the file that the running worker polls.

use crate::text::{concat3, decimal, decimal_string};
use vstd::prelude::*;

verus! {

/// A signal for the running worker.
#[derive(Clone, Copy, Debug, PartialEq, Eq, Structural)]
pub enum ControlAction {
    /// Finish the current task, then end the run.
    Stop,
    /// Finish the current task, then wait.
    Pause,
    /// Abandon the current task and go on with the next.
    Skip,
}

/// The word that names an action in the control record.
pub open spec fn action_word(a: ControlAction) -> Seq<char> {
    match a {
        ControlAction::Stop => "stop"@,
        ControlAction::Pause => "pause"@,
        ControlAction::Skip => "skip"@,
    }
}

impl ControlAction {
    /// The word that names this action in the control record.
    pub fn word(&self) -> (r: &'static str)
        ensures
            r@ == action_word(*self),
    {
        match self {
            ControlAction::Stop => "stop",
            ControlAction::Pause => "pause",
            ControlAction::Skip => "skip",
        }
    }
}

/// The control record for an action issued at `timestamp` (seconds since the
/// Unix epoch): `{"action":"<word>","timestamp":<seconds>}`.
pub open spec fn control_record(a: ControlAction, timestamp: nat) -> Seq<char> {
    "{\"action\":\""@ + action_word(a) + "\",\"timestamp\":"@ + decimal(timestamp) + "}"@
}

/// Writes the control record of an action issued at `timestamp`.
pub fn encode_control_record(a: ControlAction, timestamp: u64) -> (r: String)
    ensures
        r@ == control_record(a, timestamp as nat),
{
    let mut s = concat3("{\"action\":\"", a.word(), "\",\"timestamp\":");
    let digits = decimal_string(timestamp);
    s.append(digits.as_str());
    s.append("}");
    s
}

/// Why a control signal was refused.
#[derive(Clone, Copy, Debug, PartialEq, Eq, Structural)]
pub enum ControlError {
    /// No run is in progress, so no worker listens for signals.
    NoActiveRun,
}

impl ControlError {
    /// The message shown to the operator.
    pub fn message(&self) -> (r: String)
        ensures
            r@ == "No active service run"@,
    {
        String::from_str("No active service run")
    }
}

/// A write that the caller performs on the file system: `contents` replaces
/// whatever the file at `path` held.
#[derive(Clone, Debug)]
pub struct ControlWrite {
    pub path: String,
    pub contents: String,
}

/// The write that a signal asks for, given the registered control file, if
/// any: the record replaces the file's contents.
pub open spec fn signal_outcome(
    registered: Option<Seq<char>>,
    a: ControlAction,
    timestamp: nat,
) -> Option<(Seq<char>, Seq<char>)> {
    match registered {
        Some(p) => Some((p, control_record(a, timestamp))),
        None => None,
    }
}

/// A set of files, by path, after a write that a signal asked for (if any).
/// A write replaces the file's contents; no write changes nothing.
pub open spec fn files_after(
    files: Map<Seq<char>, Seq<char>>,
    write: Option<(Seq<char>, Seq<char>)>,
) -> Map<Seq<char>, Seq<char>> {
    match write {
        Some(w) => files.insert(w.0, w.1),
        None => files,
    }
}

/// The process-wide record of the run in progress: the control file of the
/// active run, or none when no run is active. At most one run's control
/// channel is registered at a time.
#[derive(Debug)]
pub struct RunSession {
    pub control_path: Option<String>,
}

impl View for RunSession {
    type V = Option<Seq<char>>;

    open spec fn view(&self) -> Option<Seq<char>> {
        match self.control_path {
            Some(p) => Some(p@),
            None => None,
        }
    }
}

impl RunSession {
    /// A session with no active run.
    pub fn new() -> (r: RunSession)
        ensures
            r@ is None,
    {
        RunSession { control_path: None }
    }

    /// Whether a run is registered.
    pub fn is_active(&self) -> (r: bool)
        ensures
            r == (self@ is Some),
    {
        self.control_path.is_some()
    }

    /// Registers the control file of a run that starts. Returns the control
    /// file of the previous registration, which the caller deletes so that no
    /// stale signal reaches the new worker.
    pub fn start_run(&mut self, control_file: String) -> (stale: Option<String>)
        ensures
            final(self)@ == Some(control_file@),
            stale == old(self).control_path,
    {
        let stale = self.control_path.take();
        self.control_path = Some(control_file);
        stale
    }

    /// Clears the registration when a run completes. Returns the control file
    /// that was registered, which the caller deletes (a failed deletion does
    /// not matter: the file is transient).
    pub fn complete_run(&mut self) -> (done: Option<String>)
        ensures
            final(self)@ is None,
            done == old(self).control_path,
    {
        self.control_path.take()
    }

    /// The write that a signal asks for: the record of `action` at
    /// `timestamp`, replacing the contents of the registered control file.
    /// Fails with `NoActiveRun`, asking for no write, when no run is active.
    pub fn signal(&self, action: ControlAction, timestamp: u64) -> (r: Result<
        ControlWrite,
        ControlError,
    >)
        ensures
            r is Ok <==> self@ is Some,
            r matches Ok(w) ==> signal_outcome(self@, action, timestamp as nat) == Some(
                (w.path@, w.contents@),
            ),
            r matches Err(e) ==> e == ControlError::NoActiveRun && signal_outcome(
                self@,
                action,
                timestamp as nat,
            ) is None,
    {
        match &self.control_path {
            Some(p) => Ok(
                ControlWrite { path: p.clone(), contents: encode_control_record(action, timestamp) },
            ),
            None => Err(ControlError::NoActiveRun),
        }
    }
}

/// Last write wins: a `stop` signal followed by a `pause` signal leaves the
/// control file holding the `pause` record alone, and no other file changed.
pub proof fn lemma_pause_after_stop_replaces(
    files: Map<Seq<char>, Seq<char>>,
    path: Seq<char>,
    t_stop: nat,
    t_pause: nat,
)
    ensures
        files_after(
            files_after(files, signal_outcome(Some(path), ControlAction::Stop, t_stop)),
            signal_outcome(Some(path), ControlAction::Pause, t_pause),
        ) == files.insert(path, control_record(ControlAction::Pause, t_pause)),
{
    assert(files.insert(path, control_record(ControlAction::Stop, t_stop)).insert(
        path,
        control_record(ControlAction::Pause, t_pause),
    ) =~= files.insert(path, control_record(ControlAction::Pause, t_pause)));
}

/// With no run active, any signal is refused and leaves every file as it
/// was: no control file is created.
pub proof fn lemma_no_run_no_file(files: Map<Seq<char>, Seq<char>>, a: ControlAction, t: nat)
    ensures
        signal_outcome(None, a, t) is None,
        files_after(files, signal_outcome(None, a, t)) == files,
{
}

/// Completing a run clears its registration: while a run started with
/// control file `path` is registered, a signal writes its record there; once
/// the run has completed, the same signal is refused and writes nothing.
pub proof fn lemma_completed_run_refuses_signals(
    started: RunSession,
    completed: RunSession,
    path: Seq<char>,
    a: ControlAction,
    t: nat,
)
    requires
        started@ == Some(path),
        completed@ is None,
    ensures
        signal_outcome(started@, a, t) == Some((path, control_record(a, t))),
        signal_outcome(completed@, a, t) is None,
{
}

} // verus!
