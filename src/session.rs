//! The recording-session state machine: at most one session at a time.
use vstd::prelude::*;
use crate::protocol::{DaemonResponse, error_response};

verus! {

/// Where the daemon stands.
#[derive(Debug, Clone, Copy, PartialEq, Eq, Structural)]
pub enum Phase {
    Idle,
    Recording,
    Transcribing,
    /// Shut down: no new session is ever accepted.
    Stopped,
}

/// One recording-to-transcript cycle.
#[derive(Debug, Clone, Copy, PartialEq, Eq, Structural)]
pub struct Session {
    pub id: u64,
    /// Seconds of capture at most; 0 means until an explicit stop.
    pub max_duration: u32,
    /// Time the session began, in milliseconds of the daemon's clock.
    pub started_ms: u64,
}

/// The instant at which a session's capture stops by itself, if any.
pub open spec fn deadline_of(s: Session) -> Option<int> {
    if s.max_duration == 0 {
        None
    } else {
        Some(s.started_ms + s.max_duration * 1000)
    }
}

/// Whether a session's deadline has been reached at `now_ms`.
pub open spec fn deadline_passed(s: Session, now_ms: int) -> bool {
    match deadline_of(s) {
        Some(d) => d <= now_ms,
        None => false,
    }
}

/// The abstract state: a phase and the session, if one exists.
pub struct DaemonState {
    pub phase: Phase,
    pub session: Option<Session>,
}

/// A session exists exactly while the daemon records or transcribes.
pub open spec fn state_wf(s: DaemonState) -> bool {
    s.session.is_some() <==> (s.phase == Phase::Recording || s.phase == Phase::Transcribing)
}

/// What moves the state machine, as seen by the model.
pub enum Command {
    Start { id: u64, max_duration: u32, now_ms: u64 },
    Stop,
    Tick { now_ms: u64 },
    Captured { n_samples: nat },
    CaptureFailed,
    EngineDone,
    Shutdown,
}

/// The next state after a command.
pub open spec fn step(s: DaemonState, c: Command) -> DaemonState {
    match c {
        Command::Start { id, max_duration, now_ms } => if s.phase == Phase::Idle {
            DaemonState {
                phase: Phase::Recording,
                session: Some(Session { id, max_duration, started_ms: now_ms }),
            }
        } else {
            s
        },
        Command::Stop => if s.phase == Phase::Recording {
            DaemonState { phase: Phase::Transcribing, session: s.session }
        } else {
            s
        },
        Command::Tick { now_ms } => if s.phase == Phase::Recording && s.session.is_some()
            && deadline_passed(s.session.unwrap(), now_ms as int) {
            DaemonState { phase: Phase::Transcribing, session: s.session }
        } else {
            s
        },
        Command::Captured { n_samples } => if s.phase == Phase::Recording || s.phase
            == Phase::Transcribing {
            if n_samples == 0 {
                DaemonState { phase: Phase::Idle, session: None }
            } else {
                DaemonState { phase: Phase::Transcribing, session: s.session }
            }
        } else {
            s
        },
        Command::CaptureFailed => if s.phase == Phase::Recording || s.phase
            == Phase::Transcribing {
            DaemonState { phase: Phase::Idle, session: None }
        } else {
            s
        },
        Command::EngineDone => if s.phase == Phase::Transcribing {
            DaemonState { phase: Phase::Idle, session: None }
        } else {
            s
        },
        Command::Shutdown => DaemonState { phase: Phase::Stopped, session: None },
    }
}

/// The state after running a sequence of commands in order.
pub open spec fn run(s: DaemonState, cs: Seq<Command>) -> DaemonState
    decreases cs.len(),
{
    if cs.len() == 0 {
        s
    } else {
        step(run(s, cs.drop_last()), cs.last())
    }
}

/// The state a fresh daemon starts in.
pub open spec fn initial_state() -> DaemonState {
    DaemonState { phase: Phase::Idle, session: None }
}

/// Every command keeps the session invariant.
pub proof fn lemma_step_wf(s: DaemonState, c: Command)
    requires
        state_wf(s),
    ensures
        state_wf(step(s, c)),
{
}

/// Exclusivity: from a fresh daemon, after any sequence of commands, at most
/// one session exists, and it exists exactly while recording or transcribing.
pub proof fn lemma_single_session(cs: Seq<Command>)
    ensures
        state_wf(run(initial_state(), cs)),
    decreases cs.len(),
{
    if cs.len() > 0 {
        lemma_single_session(cs.drop_last());
        lemma_step_wf(run(initial_state(), cs.drop_last()), cs.last());
    }
}

/// A start only ever creates a session when none is active: while one is
/// recording or transcribing, a start leaves the state as it was.
pub proof fn lemma_start_while_busy(s: DaemonState, id: u64, max_duration: u32, now_ms: u64)
    requires
        state_wf(s),
        s.phase == Phase::Recording || s.phase == Phase::Transcribing,
    ensures
        step(s, Command::Start { id, max_duration, now_ms }) == s,
{
}

/// A stop while idle changes nothing: the daemon stays idle with no session.
pub proof fn lemma_stop_while_idle(s: DaemonState)
    requires
        state_wf(s),
        s.phase == Phase::Idle,
    ensures
        step(s, Command::Stop) == s,
        step(s, Command::Stop).session.is_none(),
{
}

/// The engine is only ever asked to run for the one active session: a capture
/// that hands samples on leaves the daemon transcribing that same session,
/// and no start can open a second one meanwhile.
pub proof fn lemma_engine_single_flight(
    s: DaemonState,
    n_samples: nat,
    id: u64,
    max_duration: u32,
    now_ms: u64,
)
    requires
        state_wf(s),
        s.phase == Phase::Recording || s.phase == Phase::Transcribing,
        n_samples > 0,
    ensures
        step(s, Command::Captured { n_samples }).phase == Phase::Transcribing,
        step(s, Command::Captured { n_samples }).session == s.session,
        step(step(s, Command::Captured { n_samples }), Command::Start { id, max_duration, now_ms })
            == step(s, Command::Captured { n_samples }),
{
}

/// After a shutdown no session exists and no later start creates one.
pub proof fn lemma_shutdown_final(s: DaemonState, cs: Seq<Command>)
    ensures
        run(step(s, Command::Shutdown), cs).phase == Phase::Stopped,
        run(step(s, Command::Shutdown), cs).session.is_none(),
    decreases cs.len(),
{
    if cs.len() > 0 {
        lemma_shutdown_final(s, cs.drop_last());
    }
}

/// Message for a start while a session is active.
pub open spec fn busy_message() -> Seq<char> {
    "recording already in progress"@
}

/// Message for a stop without a recording.
pub open spec fn idle_message() -> Seq<char> {
    "no active recording"@
}

/// Message for a request after shutdown, or for a session that shutdown cancelled.
pub open spec fn stopped_message() -> Seq<char> {
    "daemon is shutting down"@
}

/// Whether a response is an `Error` carrying exactly the given message.
pub open spec fn is_error_with(r: DaemonResponse, m: Seq<char>) -> bool {
    r matches DaemonResponse::Error { message } && message@ == m
}

/// What the caller does once capture has ended.
#[derive(Debug, Clone, PartialEq, Eq)]
pub enum Next {
    /// The session is over: send this response.
    Reply(DaemonResponse),
    /// Hand the captured samples to the transcription engine.
    RunEngine,
}

/// Owns the phase and the single session, and decides every transition.
pub struct SessionManager {
    phase: Phase,
    session: Option<Session>,
    next_id: u64,
}

impl SessionManager {
    /// The abstract state of the manager.
    pub closed spec fn state(&self) -> DaemonState {
        DaemonState { phase: self.phase, session: self.session }
    }

    /// The identifier the next session will carry.
    pub closed spec fn next_session_id(&self) -> u64 {
        self.next_id
    }

    pub open spec fn wf(&self) -> bool {
        state_wf(self.state())
    }

    /// A manager with no session, ready to accept a start.
    pub fn new() -> (r: SessionManager)
        ensures
            r.state() == initial_state(),
            r.wf(),
    {
        SessionManager { phase: Phase::Idle, session: None, next_id: 1 }
    }

    pub fn phase(&self) -> (r: Phase)
        ensures
            r == self.state().phase,
    {
        self.phase
    }

    pub fn active_session(&self) -> (r: Option<Session>)
        ensures
            r == self.state().session,
    {
        self.session
    }

    /// Opens a session if the daemon is idle; otherwise rejects the start.
    pub fn start(&mut self, max_duration: u32, now_ms: u64) -> (r: Result<Session, DaemonResponse>)
        requires
            old(self).wf(),
        ensures
            final(self).wf(),
            r is Ok <==> old(self).state().phase == Phase::Idle,
            match r {
                Ok(sess) => sess.id == old(self).next_session_id() && sess.max_duration
                    == max_duration && sess.started_ms == now_ms && final(self).state()
                    == step(old(self).state(), Command::Start { id: sess.id, max_duration, now_ms })
                    && final(self).state().session == Some(sess),
                Err(e) => final(self).state() == old(self).state() && (if old(self).state().phase
                    == Phase::Stopped {
                    is_error_with(e, stopped_message())
                } else {
                    is_error_with(e, busy_message())
                }),
            },
    {
        match self.phase {
            Phase::Idle => {
                let sess = Session { id: self.next_id, max_duration, started_ms: now_ms };
                self.phase = Phase::Recording;
                self.session = Some(sess);
                self.next_id = self.next_id.wrapping_add(1);
                Ok(sess)
            },
            Phase::Stopped => Err(error_response("daemon is shutting down")),
            _ => Err(error_response("recording already in progress")),
        }
    }

    /// Ends capture of the active recording so that it can be transcribed.
    pub fn stop(&mut self) -> (r: DaemonResponse)
        requires
            old(self).wf(),
        ensures
            final(self).wf(),
            final(self).state() == step(old(self).state(), Command::Stop),
            old(self).state().phase == Phase::Recording ==> r == DaemonResponse::Ack,
            old(self).state().phase != Phase::Recording ==> is_error_with(r, idle_message()),
    {
        if self.phase == Phase::Recording {
            self.phase = Phase::Transcribing;
            DaemonResponse::Ack
        } else {
            error_response("no active recording")
        }
    }

    /// Moves a recording whose deadline has passed on to transcription;
    /// returns whether it did.
    pub fn tick(&mut self, now_ms: u64) -> (r: bool)
        requires
            old(self).wf(),
        ensures
            final(self).wf(),
            final(self).state() == step(old(self).state(), Command::Tick { now_ms }),
            r == (old(self).state().phase == Phase::Recording && deadline_passed(
                old(self).state().session.unwrap(),
                now_ms as int,
            )),
    {
        if self.phase == Phase::Recording {
            match self.session {
                Some(s) => {
                    if s.max_duration != 0 && (s.started_ms as u128) + (s.max_duration as u128)
                        * 1000 <= now_ms as u128 {
                        self.phase = Phase::Transcribing;
                        true
                    } else {
                        false
                    }
                },
                None => false,
            }
        } else {
            false
        }
    }

    /// Capture has ended with `n_samples` samples. Empty audio completes the
    /// session with an empty transcript and never reaches the engine.
    pub fn captured(&mut self, n_samples: usize) -> (r: Next)
        requires
            old(self).wf(),
        ensures
            final(self).wf(),
            final(self).state() == step(old(self).state(), Command::Captured { n_samples: n_samples as nat }),
            ({
                let ph = old(self).state().phase;
                if ph == Phase::Recording || ph == Phase::Transcribing {
                    if n_samples == 0 {
                        r matches Next::Reply(DaemonResponse::Success { text }) && text@.len() == 0
                    } else {
                        r == Next::RunEngine
                    }
                } else if ph == Phase::Stopped {
                    r matches Next::Reply(e) && is_error_with(e, stopped_message())
                } else {
                    r matches Next::Reply(e) && is_error_with(e, idle_message())
                }
            }),
    {
        match self.phase {
            Phase::Recording | Phase::Transcribing => {
                if n_samples == 0 {
                    self.phase = Phase::Idle;
                    self.session = None;
                    Next::Reply(DaemonResponse::Success { text: String::new() })
                } else {
                    self.phase = Phase::Transcribing;
                    Next::RunEngine
                }
            },
            Phase::Stopped => Next::Reply(error_response("daemon is shutting down")),
            Phase::Idle => Next::Reply(error_response("no active recording")),
        }
    }

    /// Capture failed on the device: the session ends with that error.
    pub fn capture_failed(&mut self, message: String) -> (r: DaemonResponse)
        requires
            old(self).wf(),
        ensures
            final(self).wf(),
            final(self).state() == step(old(self).state(), Command::CaptureFailed),
            r == (DaemonResponse::Error { message }),
    {
        if self.phase == Phase::Recording || self.phase == Phase::Transcribing {
            self.phase = Phase::Idle;
            self.session = None;
        }
        DaemonResponse::Error { message }
    }

    /// The engine has finished: the session ends with its transcript or its error.
    pub fn engine_done(&mut self, outcome: Result<String, String>) -> (r: DaemonResponse)
        requires
            old(self).wf(),
        ensures
            final(self).wf(),
            final(self).state() == step(old(self).state(), Command::EngineDone),
            r == match outcome {
                Ok(text) => DaemonResponse::Success { text },
                Err(message) => DaemonResponse::Error { message },
            },
    {
        if self.phase == Phase::Transcribing {
            self.phase = Phase::Idle;
            self.session = None;
        }
        match outcome {
            Ok(text) => DaemonResponse::Success { text },
            Err(message) => DaemonResponse::Error { message },
        }
    }

    /// Cancels any session and refuses all later starts.
    pub fn shutdown(&mut self) -> (r: DaemonResponse)
        requires
            old(self).wf(),
        ensures
            final(self).wf(),
            final(self).state() == step(old(self).state(), Command::Shutdown),
            r == DaemonResponse::Ack,
    {
        self.phase = Phase::Stopped;
        self.session = None;
        DaemonResponse::Ack
    }
}

} // verus!
