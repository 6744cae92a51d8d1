//! What a one-shot client decides from the daemon's answers.
use vstd::prelude::*;
use crate::protocol::{
    DaemonResponse, ResponseView, decode_response, parse_response, response_view,
};

verus! {

/// Why a client command did not succeed.
#[derive(Debug, Clone, PartialEq, Eq)]
pub enum ClientError {
    /// No daemon could be reached or started in time.
    DaemonUnavailable,
    /// A stop was asked for while no daemon runs.
    NotRunning,
    /// The connection failed while sending or receiving.
    Connection { message: String },
    /// The daemon's answer could not be read.
    Protocol,
    /// The daemon answered with an error.
    Rejected { message: String },
    /// The daemon answered with a response that does not fit the request.
    Unexpected(DaemonResponse),
}

/// How one request/response exchange with the daemon went.
#[derive(Debug, Clone, PartialEq, Eq)]
pub enum Exchange {
    /// No daemon answered the connection.
    Unreachable,
    /// The transport failed.
    Transport { message: String },
    /// One line came back (without its newline).
    Received { line: String },
}

/// The transcript that an exchange answering a start carries, if any.
pub open spec fn start_outcome(x: Exchange) -> Option<Seq<char>> {
    match x {
        Exchange::Received { line } => match parse_response(line@) {
            Some(ResponseView::Success(t)) => Some(t),
            _ => None,
        },
        _ => None,
    }
}

/// Whether `e` is the error that a failed exchange `x` calls for.
pub open spec fn error_matches(e: ClientError, x: Exchange) -> bool {
    match x {
        Exchange::Unreachable => e == ClientError::DaemonUnavailable,
        Exchange::Transport { message } => e == ClientError::Connection { message },
        Exchange::Received { line } => match parse_response(line@) {
            None => e == ClientError::Protocol,
            Some(ResponseView::Error(m)) => e matches ClientError::Rejected { message } && message@
                == m,
            Some(v) => e matches ClientError::Unexpected(r) && response_view(r) == v,
        },
    }
}

/// Interprets the answer to a start: the transcript on success.
pub fn daemon_start_recording(x: Exchange) -> (r: Result<String, ClientError>)
    ensures
        match r {
            Ok(t) => start_outcome(x) == Some(t@),
            Err(e) => start_outcome(x) is None && error_matches(e, x),
        },
{
    match x {
        Exchange::Unreachable => Err(ClientError::DaemonUnavailable),
        Exchange::Transport { message } => Err(ClientError::Connection { message }),
        Exchange::Received { line } => match decode_response(line.as_str()) {
            Ok(DaemonResponse::Success { text }) => Ok(text),
            Ok(DaemonResponse::Error { message }) => Err(ClientError::Rejected { message }),
            Ok(other) => Err(ClientError::Unexpected(other)),
            Err(_) => Err(ClientError::Protocol),
        },
    }
}

/// Interprets the answer to a stop: success only on a plain acknowledgement.
pub fn daemon_stop_recording(x: Exchange) -> (r: Result<(), ClientError>)
    ensures
        r is Ok <==> (x matches Exchange::Received { line } && parse_response(line@) == Some(
            ResponseView::Ack,
        )),
        match r {
            Ok(_) => true,
            Err(e) => match x {
                Exchange::Unreachable => e == ClientError::NotRunning,
                _ => error_matches(e, x),
            },
        },
{
    match x {
        Exchange::Unreachable => Err(ClientError::NotRunning),
        Exchange::Transport { message } => Err(ClientError::Connection { message }),
        Exchange::Received { line } => match decode_response(line.as_str()) {
            Ok(DaemonResponse::Ack) => Ok(()),
            Ok(DaemonResponse::Error { message }) => Err(ClientError::Rejected { message }),
            Ok(other) => Err(ClientError::Unexpected(other)),
            Err(_) => Err(ClientError::Protocol),
        },
    }
}

/// Interprets the answer to a shutdown: a daemon that is not running, or any
/// answer at all, counts as done; only a failed transport is an error.
pub fn daemon_shutdown(x: Exchange) -> (r: Result<(), ClientError>)
    ensures
        match x {
            Exchange::Transport { message } => r == Err::<(), ClientError>(
                ClientError::Connection { message },
            ),
            _ => r is Ok,
        },
{
    match x {
        Exchange::Transport { message } => Err(ClientError::Connection { message }),
        _ => Ok(()),
    }
}

/// Pause between two liveness probes after spawning a daemon, in milliseconds.
pub const POLL_INTERVAL_MS: u64 = 100;

/// Number of pauses after which a daemon that still does not answer is given up.
pub const MAX_POLLS: u32 = 50;

/// What to do next while bringing a daemon up.
#[derive(Debug, Clone, Copy, PartialEq, Eq, Structural)]
pub enum Readiness {
    /// The daemon answers.
    Ready,
    /// Start a daemon process, then wait this long and probe again.
    Spawn { wait_ms: u64 },
    /// Wait this long and probe again.
    Wait { wait_ms: u64 },
    /// The daemon did not come up in time.
    GiveUp,
}

/// Bounded wait for a daemon to answer: at most one spawn, then a fixed
/// number of fixed pauses.
pub struct StartupWait {
    spawned: bool,
    polls: u32,
}

impl StartupWait {
    pub closed spec fn spawned(&self) -> bool {
        self.spawned
    }

    /// Pauses asked for so far.
    pub closed spec fn polls(&self) -> nat {
        self.polls as nat
    }

    pub open spec fn wf(&self) -> bool {
        self.polls() <= MAX_POLLS && (self.polls() > 0 ==> self.spawned())
    }

    pub fn new() -> (r: StartupWait)
        ensures
            r.wf(),
            !r.spawned(),
            r.polls() == 0,
    {
        StartupWait { spawned: false, polls: 0 }
    }

    /// Decides from the latest liveness probe.
    pub fn next(&mut self, reachable: bool) -> (r: Readiness)
        requires
            old(self).wf(),
        ensures
            final(self).wf(),
            reachable ==> r == Readiness::Ready && *final(self) == *old(self),
            !reachable && !old(self).spawned() ==> r == (Readiness::Spawn { wait_ms: POLL_INTERVAL_MS })
                && final(self).spawned() && final(self).polls() == 1,
            !reachable && old(self).spawned() && old(self).polls() < MAX_POLLS ==> r == (Readiness::Wait {
                wait_ms: POLL_INTERVAL_MS,
            }) && final(self).spawned() && final(self).polls() == old(self).polls() + 1,
            !reachable && old(self).spawned() && old(self).polls() >= MAX_POLLS ==> r
                == Readiness::GiveUp && *final(self) == *old(self),
    {
        if reachable {
            Readiness::Ready
        } else if !self.spawned {
            self.spawned = true;
            self.polls = 1;
            Readiness::Spawn { wait_ms: POLL_INTERVAL_MS }
        } else if self.polls < MAX_POLLS {
            self.polls = self.polls + 1;
            Readiness::Wait { wait_ms: POLL_INTERVAL_MS }
        } else {
            Readiness::GiveUp
        }
    }
}

/// The total pause before giving up never exceeds five seconds.
pub proof fn lemma_startup_wait_bounded(w: StartupWait)
    requires
        w.wf(),
    ensures
        w.polls() * POLL_INTERVAL_MS <= 5000,
{
}

} // verus!
