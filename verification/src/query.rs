//! The port query interface.
//!
//! A caller asking for the backend port gets it at once when it is already
//! known; otherwise the host polls the shared state at a fixed interval
//! until the port appears or a fixed number of polls is spent, and then
//! reports the port as unknown. The host performs the sleeping; each poll
//! hands the observed state to [`PortQuery::observe`], which decides
//! whether to answer, wait, or give up.

use vstd::prelude::*;

verus! {

/// How many times the query polls the shared state before giving up.
pub const POLL_ATTEMPTS: u32 = 50;

/// How long the host sleeps between two polls, in milliseconds. Together
/// with `POLL_ATTEMPTS` this bounds the total wait at 5000 milliseconds.
pub const POLL_INTERVAL_MS: u64 = 100;

/// Poll-loop state of one port query: the number of polls still allowed.
pub struct PortQuery {
    pub remaining: u32,
}

/// What one poll asks the host to do.
#[derive(Clone, Copy, Debug, PartialEq, Eq, Structural)]
pub enum PollStep {
    /// The port is known: answer with it at once.
    Ready(u16),
    /// The port is still unknown: sleep one interval and poll again.
    Wait,
    /// The budget is spent: answer that the port is unknown.
    GiveUp,
}

/// What one poll does: with no budget left the query gives up, whatever
/// the observation; a known port is answered at once; otherwise one unit
/// of budget is spent on waiting.
pub open spec fn spec_observe(q: PortQuery, port: Option<u16>) -> (PortQuery, PollStep) {
    if q.remaining == 0 {
        (q, PollStep::GiveUp)
    } else {
        match port {
            Some(p) => (q, PollStep::Ready(p)),
            None => (PortQuery { remaining: (q.remaining - 1) as u32 }, PollStep::Wait),
        }
    }
}

/// The answer of the whole poll loop, given the sequence of state
/// observations the polls would make and the budget of polls: the first
/// port observed within the budget, or none.
pub open spec fn spec_query_result(obs: Seq<Option<u16>>, budget: nat) -> Option<u16>
    decreases budget,
{
    if budget == 0 || obs.len() == 0 {
        None
    } else {
        match obs.first() {
            Some(p) => Some(p),
            None => spec_query_result(obs.drop_first(), (budget - 1) as nat),
        }
    }
}

/// How many intervals the whole poll loop sleeps before answering, given
/// the sequence of state observations and the budget of polls.
pub open spec fn spec_query_sleeps(obs: Seq<Option<u16>>, budget: nat) -> nat
    decreases budget,
{
    if budget == 0 || obs.len() == 0 {
        0
    } else {
        match obs.first() {
            Some(p) => 0,
            None => 1 + spec_query_sleeps(obs.drop_first(), (budget - 1) as nat),
        }
    }
}

impl PortQuery {
    /// A fresh query with the full poll budget.
    pub fn new() -> (q: Self)
        ensures
            q.remaining == POLL_ATTEMPTS,
    {
        PortQuery { remaining: POLL_ATTEMPTS }
    }

    /// Decide on one observation of the shared state's port field.
    pub fn observe(&mut self, port: Option<u16>) -> (step: PollStep)
        ensures
            (*final(self), step) == spec_observe(*old(self), port),
            old(self).remaining == 0 ==> step is GiveUp,
            old(self).remaining > 0 ==> (port matches Some(p) ==> step == PollStep::Ready(p)),
            old(self).remaining > 0 && port is None ==> step is Wait && final(self).remaining
                == old(self).remaining - 1,
    {
        if self.remaining == 0 {
            PollStep::GiveUp
        } else {
            match port {
                Some(p) => PollStep::Ready(p),
                None => {
                    self.remaining = self.remaining - 1;
                    PollStep::Wait
                },
            }
        }
    }
}

/// Law: a query that starts before any handshake and never sees a port
/// spends its whole budget sleeping — one full interval per allowed poll —
/// and then answers that the port is unknown.
pub proof fn lemma_query_timeout(obs: Seq<Option<u16>>, budget: nat)
    requires
        obs.len() >= budget,
        forall|i: int| 0 <= i < obs.len() ==> obs[i] is None,
    ensures
        spec_query_result(obs, budget) is None,
        spec_query_sleeps(obs, budget) == budget,
    decreases budget,
{
    if budget > 0 {
        assert(obs.first() is None);
        assert forall|i: int| 0 <= i < obs.drop_first().len() implies obs.drop_first()[i]
            is None by {
            assert(obs.drop_first()[i] == obs[i + 1]);
        }
        lemma_query_timeout(obs.drop_first(), (budget - 1) as nat);
    }
}

/// Law: a query that starts after a handshake has completed sees the port
/// on its first poll and answers it at once, with no waiting.
pub proof fn lemma_query_immediate(obs: Seq<Option<u16>>, budget: nat, p: u16)
    requires
        budget > 0,
        obs.len() > 0,
        obs.first() == Some(p),
    ensures
        spec_query_result(obs, budget) == Some(p),
        spec_query_sleeps(obs, budget) == 0,
{
}

} // verus!
