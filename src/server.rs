use vstd::prelude::*;

use crate::config::ACCEPT_ATTEMPTS;

verus! {

/// How one accept attempt of a transfer server ended.
#[derive(Debug, Clone, Copy, PartialEq, Eq, Structural)]
pub enum AttemptOutcome {
    /// A connection delivered the whole declared payload.
    Delivered,
    /// Accepting failed, or the connection did: a read error, an oversized
    /// header, a truncated stream.
    Failed,
}

/// What a transfer server does after an attempt.
#[derive(Debug, Clone, Copy, PartialEq, Eq, Structural)]
pub enum ServerStep {
    /// The file has arrived: stop accepting.
    Finish,
    /// Accept the next connection.
    AcceptAgain,
    /// Every attempt is spent: no client delivered a file.
    GiveUp,
}

/// The step taken after `outcome` by a server that had already spent `spent`
/// attempts.
pub open spec fn server_step(spent: nat, outcome: AttemptOutcome) -> ServerStep {
    match outcome {
        AttemptOutcome::Delivered => ServerStep::Finish,
        AttemptOutcome::Failed => if spent + 1 >= ACCEPT_ATTEMPTS {
            ServerStep::GiveUp
        } else {
            ServerStep::AcceptAgain
        },
    }
}

/// Where a server that has spent `spent` attempts ends after the outcomes in
/// order: the first step that is not `AcceptAgain`, or `AcceptAgain` if all
/// were.
pub open spec fn server_run(spent: nat, outcomes: Seq<AttemptOutcome>) -> ServerStep
    decreases outcomes.len(),
{
    if outcomes.len() == 0 {
        ServerStep::AcceptAgain
    } else {
        match server_step(spent, outcomes[0]) {
            ServerStep::AcceptAgain => server_run(spent + 1, outcomes.drop_first()),
            step => step,
        }
    }
}

/// The decisions of a transfer server, which counts its accept attempts.
pub struct AcceptLoop {
    spent: u32,
}

impl AcceptLoop {
    /// Attempts spent so far.
    pub closed spec fn spent(&self) -> nat {
        self.spent as nat
    }

    pub fn new() -> (l: AcceptLoop)
        ensures
            l.spent() == 0,
    {
        AcceptLoop { spent: 0 }
    }

    /// Takes the outcome of one attempt, which spends one attempt whatever
    /// went wrong.
    pub fn on_attempt(&mut self, outcome: AttemptOutcome) -> (step: ServerStep)
        requires
            old(self).spent() < ACCEPT_ATTEMPTS,
        ensures
            final(self).spent() == old(self).spent() + 1,
            step == server_step(old(self).spent(), outcome),
    {
        self.spent = self.spent + 1;
        match outcome {
            AttemptOutcome::Delivered => ServerStep::Finish,
            AttemptOutcome::Failed => if self.spent >= ACCEPT_ATTEMPTS {
                ServerStep::GiveUp
            } else {
                ServerStep::AcceptAgain
            },
        }
    }
}

/// A server whose attempts all fail, for whatever reason, keeps accepting
/// while attempts are left and gives up once they are spent; a delivery ends
/// it at once.
pub proof fn lemma_accept_exhaustion(spent: nat, outcomes: Seq<AttemptOutcome>)
    requires
        spent < ACCEPT_ATTEMPTS,
        forall|i: int| 0 <= i < outcomes.len() ==> #[trigger] outcomes[i] == AttemptOutcome::Failed,
    ensures
        spent + outcomes.len() < ACCEPT_ATTEMPTS ==> server_run(spent, outcomes)
            == ServerStep::AcceptAgain,
        spent + outcomes.len() >= ACCEPT_ATTEMPTS ==> server_run(spent, outcomes)
            == ServerStep::GiveUp,
        server_run(spent, outcomes.push(AttemptOutcome::Delivered)) == if spent + outcomes.len()
            < ACCEPT_ATTEMPTS {
            ServerStep::Finish
        } else {
            ServerStep::GiveUp
        },
    decreases outcomes.len(),
{
    if outcomes.len() > 0 {
        assert(outcomes[0] == AttemptOutcome::Failed);
        if spent + 1 < ACCEPT_ATTEMPTS {
            let rest = outcomes.drop_first();
            assert forall|i: int| 0 <= i < rest.len() implies #[trigger] rest[i]
                == AttemptOutcome::Failed by {
                assert(rest[i] == outcomes[i + 1]);
            }
            assert(outcomes.push(AttemptOutcome::Delivered).drop_first() =~= rest.push(
                AttemptOutcome::Delivered,
            ));
            lemma_accept_exhaustion(spent + 1, rest);
        }
    }
}

} // verus!
