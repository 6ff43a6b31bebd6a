//! Shared supervisor state and its transitions.
//!
//! One record, guarded by the host's lock, is shared by the handshake
//! reader, the port query and the shutdown path. Its transitions are plain
//! functions from state and observation to new state and requested action;
//! the host performs the spawning, notification and killing they ask for.

use vstd::prelude::*;
use vstd::string::*;
use crate::handshake::parse_handshake_line;
use crate::handshake::spec_parse_handshake;

verus! {

/// How the host starts the backend: spawn the packaged sidecar binary, or
/// attach to a development instance assumed to listen on `DEV_PORT`.
#[derive(Clone, Copy, Debug, PartialEq, Eq, Structural)]
pub enum LaunchMode {
    Sidecar,
    AttachDev,
}

/// The port a manually started development backend is expected to listen on.
pub const DEV_PORT: u16 = 8000;

/// Whether the environment override forces sidecar mode even in a debug
/// build: only the exact value `true` does.
pub fn sidecar_override_enabled(value: Option<&str>) -> (b: bool)
    ensures
        b == (value matches Some(s) && s@ == "true"@),
{
    match value {
        None => false,
        Some(s) => {
            proof {
                reveal_strlit("true");
            }
            let n = s.unicode_len();
            if n != 4 {
                return false;
            }
            let eq = s.get_char(0) == 't' && s.get_char(1) == 'r' && s.get_char(2) == 'u'
                && s.get_char(3) == 'e';
            if eq {
                assert(s@ =~= "true"@);
            } else {
                assert(s@ != "true"@) by {
                    if s@ == "true"@ {
                        assert(s@[0] == 't' && s@[1] == 'r' && s@[2] == 'u' && s@[3] == 'e');
                    }
                }
            }
            eq
        },
    }
}

/// Decide how to start the backend: the packaged sidecar in a release
/// build, or when the override forces it; otherwise attach to the
/// development instance.
pub fn choose_launch_mode(is_release: bool, force_sidecar: bool) -> (m: LaunchMode)
    ensures
        (m is Sidecar) == (is_release || force_sidecar),
{
    if is_release || force_sidecar {
        LaunchMode::Sidecar
    } else {
        LaunchMode::AttachDev
    }
}

/// Mutable record shared by the handshake reader, the port query and the
/// shutdown path. `C` is the host's owned handle to the spawned child
/// process; the supervisor holds at most one and gives it up exactly once.
pub struct SupervisorState<C> {
    /// The discovered backend port; `None` until a handshake succeeds.
    pub port: Option<u16>,
    /// The owned child handle, present from spawn success until shutdown
    /// takes it.
    pub child: Option<C>,
    /// One-shot guard: set by the first close request and never reset.
    pub closing: bool,
}

/// The decision taken on a close-request notification.
pub enum CloseDecision<C> {
    /// First request: suppress the default close, terminate the backend
    /// (graceful kill of the taken handle, then broad-match kill), then
    /// close the window.
    RunTermination { child: Option<C> },
    /// The supervisor is already closing: let the window close at once.
    PassThrough,
}

/// What the handshake reader does to the state with one output line: a
/// successful parse stores the port (last write wins) and asks for a
/// readiness notification carrying it; any other line changes nothing.
pub open spec fn spec_record<C>(s: SupervisorState<C>, line: Seq<u8>) -> (SupervisorState<
    C,
>, Option<u16>) {
    match spec_parse_handshake(line) {
        Some(p) => (
            SupervisorState { port: Some(p), child: s.child, closing: s.closing },
            Some(p),
        ),
        None => (s, None),
    }
}

/// What a close request does: the first one takes the child handle, sets
/// the one-shot guard and asks for the termination sequence; every later
/// one is a pass-through that changes nothing.
pub open spec fn spec_close<C>(s: SupervisorState<C>) -> (SupervisorState<C>, CloseDecision<
    C,
>) {
    if s.closing {
        (s, CloseDecision::PassThrough)
    } else {
        (
            SupervisorState { port: s.port, child: None, closing: true },
            CloseDecision::RunTermination { child: s.child },
        )
    }
}

impl<C> SupervisorState<C> {
    /// Fresh state at host startup: no port, no child, not closing.
    pub fn new() -> (s: Self)
        ensures
            s.port is None,
            s.child is None,
            !s.closing,
    {
        SupervisorState { port: None, child: None, closing: false }
    }

    /// The currently known port; `None` while undiscovered.
    pub fn current_port(&self) -> (p: Option<u16>)
        ensures
            p == self.port,
    {
        self.port
    }

    /// Store the handle of a freshly spawned child.
    pub fn attach_child(&mut self, handle: C)
        ensures
            final(self).child == Some(handle),
            final(self).port == old(self).port,
            final(self).closing == old(self).closing,
    {
        self.child = Some(handle);
    }

    /// Publish the fixed development port (attach-dev mode) and return the
    /// value to announce in the readiness notification.
    pub fn publish_dev_port(&mut self) -> (notify: u16)
        ensures
            final(self).port == Some(DEV_PORT),
            final(self).child == old(self).child,
            final(self).closing == old(self).closing,
            notify == DEV_PORT,
    {
        self.port = Some(DEV_PORT);
        DEV_PORT
    }

    /// Consume one line of backend output. On a successful handshake parse
    /// the port is stored (last write wins) and returned, so that the
    /// caller fires the readiness notification; every other line leaves
    /// the state unchanged and returns nothing.
    pub fn record_handshake(&mut self, line: &[u8]) -> (notify: Option<u16>)
        ensures
            (*final(self), notify) == spec_record(*old(self), line@),
            notify == spec_parse_handshake(line@),
            spec_parse_handshake(line@) matches Some(p) ==> final(self).port == Some(p),
            spec_parse_handshake(line@) is None ==> *final(self) == *old(self),
            final(self).child == old(self).child,
            final(self).closing == old(self).closing,
    {
        match parse_handshake_line(line) {
            Some(p) => {
                self.port = Some(p);
                Some(p)
            },
            None => None,
        }
    }

    /// Handle a close-request notification: the first request takes the
    /// child handle and asks the caller to run the termination sequence;
    /// every later one is a pass-through.
    pub fn on_close_requested(&mut self) -> (d: CloseDecision<C>)
        ensures
            (*final(self), d) == spec_close(*old(self)),
            final(self).closing,
            final(self).port == old(self).port,
            old(self).closing ==> d is PassThrough && *final(self) == *old(self),
            !old(self).closing ==> final(self).child is None && (d matches
                CloseDecision::RunTermination { child } && child == old(self).child),
    {
        if self.closing {
            CloseDecision::PassThrough
        } else {
            self.closing = true;
            let handle = self.child.take();
            CloseDecision::RunTermination { child: handle }
        }
    }
}

/// Law: a line that does not parse as a handshake never changes the state
/// and asks for no notification.
pub proof fn lemma_bad_line_keeps_port<C>(s: SupervisorState<C>, line: Seq<u8>)
    requires
        spec_parse_handshake(line) is None,
    ensures
        spec_record(s, line).0 == s,
        spec_record(s, line).1 is None,
{
}

/// Law: two close requests in sequence run the termination sequence exactly
/// once: the first yields the termination decision and takes the child; the
/// second is a pass-through that changes nothing further.
pub proof fn lemma_close_runs_once<C>(s: SupervisorState<C>)
    requires
        !s.closing,
    ensures
        spec_close(s).1 matches CloseDecision::RunTermination { child } && child == s.child,
        spec_close(spec_close(s).0).1 is PassThrough,
        spec_close(spec_close(s).0).0 == spec_close(s).0,
{
}

/// Law: once the supervisor is closing, every further close request is a
/// no-op pass-through that lets the window close at once.
pub proof fn lemma_close_pass_through<C>(s: SupervisorState<C>)
    requires
        s.closing,
    ensures
        spec_close(s).0 == s,
        spec_close(s).1 is PassThrough,
{
}

/// Outcome of the broad-match termination command run against the
/// backend's process image name.
#[derive(Clone, Copy, Debug, PartialEq, Eq, Structural)]
pub enum BroadKillOutcome {
    /// The command reported success.
    Killed,
    /// The command failed with the exit code that means no matching
    /// process was found: a normal outcome, not an error.
    NoProcessesFound,
    /// Any other failure: a logged warning only; shutdown proceeds.
    Warning,
}

/// Classify the exit of the broad-match termination command.
/// `no_match_code` is the exit code with which the platform's command
/// reports that no process matched the image name.
pub fn classify_broad_kill(success: bool, code: Option<i32>, no_match_code: i32) -> (o:
    BroadKillOutcome)
    ensures
        success ==> o is Killed,
        !success && code == Some(no_match_code) ==> o is NoProcessesFound,
        !success && code != Some(no_match_code) ==> o is Warning,
{
    if success {
        BroadKillOutcome::Killed
    } else {
        match code {
            Some(c) => {
                if c == no_match_code {
                    BroadKillOutcome::NoProcessesFound
                } else {
                    BroadKillOutcome::Warning
                }
            },
            None => BroadKillOutcome::Warning,
        }
    }
}

} // verus!
