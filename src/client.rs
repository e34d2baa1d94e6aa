use crate::backoff::{delay_after, Backoff};
use crate::config::{CLIENT_BACKOFF_HI, CLIENT_BACKOFF_LO};
use vstd::prelude::*;

verus! {

/// The steps of one round of the client, in order.
#[derive(Clone, Copy, Debug, PartialEq, Eq, Structural)]
pub enum ClientStep {
    /// Open a gateway connection to the server.
    ConnectGateway,
    /// Write the early magic.
    WriteEarlyMagic,
    /// Read heartbeat bytes until the finalize byte.
    AwaitFinalize,
    /// Write the late magic.
    WriteLateMagic,
    /// Open the connection to the private service.
    ConnectPrivate,
}

/// What the client does next.
#[derive(Clone, Copy, Debug, PartialEq, Eq, Structural)]
pub enum ClientAction {
    /// Perform this step.
    Perform(ClientStep),
    /// Splice the gateway and private connections, then start a new round.
    Spawn,
    /// Drop the round, sleep this many seconds, then start a new round.
    Sleep(u8),
}

/// The step that follows `s` within a round; the last step has none.
pub open spec fn following(s: ClientStep) -> Option<ClientStep> {
    match s {
        ClientStep::ConnectGateway => Some(ClientStep::WriteEarlyMagic),
        ClientStep::WriteEarlyMagic => Some(ClientStep::AwaitFinalize),
        ClientStep::AwaitFinalize => Some(ClientStep::WriteLateMagic),
        ClientStep::WriteLateMagic => Some(ClientStep::ConnectPrivate),
        ClientStep::ConnectPrivate => None,
    }
}

/// The decisions of the client's outer loop: each round walks the steps in
/// order; a failure sleeps for the next backoff delay, a completed round
/// resets the backoff.
pub struct ClientLoop {
    step: ClientStep,
    backoff: Backoff,
}

impl ClientLoop {
    pub closed spec fn step(&self) -> ClientStep {
        self.step
    }

    /// Failed rounds since the last completed one.
    pub closed spec fn failures(&self) -> nat {
        self.backoff.calls()
    }

    pub closed spec fn wf(&self) -> bool {
        &&& self.backoff.wf()
        &&& self.backoff.lo() == CLIENT_BACKOFF_LO
        &&& self.backoff.hi() == CLIENT_BACKOFF_HI
    }

    pub fn new() -> (r: ClientLoop)
        ensures
            r.wf(),
            r.step() == ClientStep::ConnectGateway,
            r.failures() == 0,
    {
        ClientLoop {
            step: ClientStep::ConnectGateway,
            backoff: Backoff::new(CLIENT_BACKOFF_LO, CLIENT_BACKOFF_HI),
        }
    }

    /// The step to perform now.
    pub fn current(&self) -> (r: ClientStep)
        ensures
            r == self.step(),
    {
        self.step
    }

    /// Takes the outcome of the current step and says what to do next.
    pub fn on_result(&mut self, ok: bool) -> (r: ClientAction)
        requires
            old(self).wf(),
        ensures
            final(self).wf(),
            ok && following(old(self).step()) is Some ==> r == ClientAction::Perform(
                following(old(self).step())->0,
            ) && final(self).step() == following(old(self).step())->0 && final(self).failures()
                == old(self).failures(),
            ok && following(old(self).step()) is None ==> r == ClientAction::Spawn
                && final(self).step() == ClientStep::ConnectGateway && final(self).failures()
                == 0,
            !ok ==> r == ClientAction::Sleep(
                delay_after(
                    CLIENT_BACKOFF_LO as int,
                    CLIENT_BACKOFF_HI as int,
                    old(self).failures(),
                ) as u8,
            ) && final(self).step() == ClientStep::ConnectGateway && final(self).failures()
                == old(self).failures() + 1,
    {
        if !ok {
            let seconds = self.backoff.next();
            self.step = ClientStep::ConnectGateway;
            return ClientAction::Sleep(seconds);
        }
        let next = match self.step {
            ClientStep::ConnectGateway => ClientStep::WriteEarlyMagic,
            ClientStep::WriteEarlyMagic => ClientStep::AwaitFinalize,
            ClientStep::AwaitFinalize => ClientStep::WriteLateMagic,
            ClientStep::WriteLateMagic => ClientStep::ConnectPrivate,
            ClientStep::ConnectPrivate => {
                self.backoff.reset();
                self.step = ClientStep::ConnectGateway;
                return ClientAction::Spawn;
            },
        };
        self.step = next;
        ClientAction::Perform(next)
    }
}

} // verus!
