use crate::backoff::{delay_after, Backoff};
use crate::config::{SERVER_ACCEPT_BACKOFF_HI, SERVER_ACCEPT_BACKOFF_LO};
use crate::err::{class_of, AppliesTo, ErrorKind, IoErrorExt};
use crate::gateway::{
    handshake, lemma_spliced_iff_handshake, next_phase, run, GatewayEvent, GatewayPhase,
};
use vstd::prelude::*;

verus! {

/// What the server does after a failed accept.
#[derive(Clone, Copy, Debug, PartialEq, Eq, Structural)]
pub enum AcceptDecision {
    /// Only that connection failed: accept again at once.
    RetryNow,
    /// The listener failed: sleep this many seconds, then accept again.
    SleepThenRetry(u8),
}

/// The accept loop of one listener: failed connections are skipped, listener
/// failures are retried after a growing delay.
pub struct AcceptRetry {
    backoff: Backoff,
}

impl AcceptRetry {
    /// Listener failures since this accept loop started.
    pub closed spec fn failures(&self) -> nat {
        self.backoff.calls()
    }

    pub closed spec fn wf(&self) -> bool {
        &&& self.backoff.wf()
        &&& self.backoff.lo() == SERVER_ACCEPT_BACKOFF_LO
        &&& self.backoff.hi() == SERVER_ACCEPT_BACKOFF_HI
    }

    pub fn new() -> (r: AcceptRetry)
        ensures
            r.wf(),
            r.failures() == 0,
    {
        AcceptRetry { backoff: Backoff::new(SERVER_ACCEPT_BACKOFF_LO, SERVER_ACCEPT_BACKOFF_HI) }
    }

    /// Decides what follows an accept error of kind `k`.
    pub fn on_error(&mut self, k: ErrorKind) -> (r: AcceptDecision)
        requires
            old(self).wf(),
        ensures
            final(self).wf(),
            class_of(k) == AppliesTo::Connection ==> r == AcceptDecision::RetryNow
                && final(self).failures() == old(self).failures(),
            class_of(k) == AppliesTo::Listener ==> r == AcceptDecision::SleepThenRetry(
                delay_after(
                    SERVER_ACCEPT_BACKOFF_LO as int,
                    SERVER_ACCEPT_BACKOFF_HI as int,
                    old(self).failures(),
                ) as u8,
            ) && final(self).failures() == old(self).failures() + 1,
    {
        match k.applies_to() {
            AppliesTo::Connection => AcceptDecision::RetryNow,
            AppliesTo::Listener => AcceptDecision::SleepThenRetry(self.backoff.next()),
        }
    }
}

/// The result of one short poll of the public listener while draining it.
#[derive(Clone, Copy, Debug, PartialEq, Eq, Structural)]
pub enum DrainPoll {
    /// A queued public connection was accepted (and is dropped).
    Accepted,
    /// The accept failed with an error of this kind.
    Failed(ErrorKind),
    /// Nothing was ready within the poll interval.
    TimedOut,
}

pub open spec fn drain_goes_on(p: DrainPoll) -> bool {
    match p {
        DrainPoll::Accepted => true,
        DrainPoll::Failed(k) => class_of(k) == AppliesTo::Connection,
        DrainPoll::TimedOut => false,
    }
}

/// Whether draining the public listener goes on after the poll `p`: it stops
/// when nothing more is ready or the listener itself failed.
pub fn drain_continues(p: DrainPoll) -> (r: bool)
    ensures
        r == drain_goes_on(p),
{
    match p {
        DrainPoll::Accepted => true,
        DrainPoll::Failed(k) => match k.applies_to() {
            AppliesTo::Connection => true,
            AppliesTo::Listener => false,
        },
        DrainPoll::TimedOut => false,
    }
}

/// What happened while a public connection looked for a gateway.
#[derive(Clone, Copy, Debug, PartialEq, Eq, Structural)]
pub enum PairingEvent {
    /// An armed gateway connection was dequeued and activated.
    Dequeued,
    /// No gateway connection came within the queue timeout.
    QueueTimedOut,
    /// The stream of gateway connections has ended.
    GatewaysEnded,
    /// The finalize byte was written to the gateway (`true`) or not (`false`).
    FinalizeWritten(bool),
    /// The late magic was read from the gateway (`true`) or not (`false`).
    LateMagic(bool),
}

/// What the server does next for a public connection.
#[derive(Clone, Copy, Debug, PartialEq, Eq, Structural)]
pub enum PairingAction {
    /// Write the finalize byte to the gateway connection.
    WriteFinalize,
    /// Read the late magic from the gateway connection.
    ReadLateMagic,
    /// Splice the public connection with the gateway connection.
    Splice,
    /// Drop the gateway connection and dequeue the next one.
    DequeueNext,
    /// Drop the public connection, drain the listener, accept anew.
    DrainAndRestart,
    /// The gateway connections are gone: stop serving.
    Stop,
}

/// The phase of the current gateway connection and the server's next action
/// after event `e`.
pub open spec fn pairing_next(gw: Option<GatewayPhase>, e: PairingEvent) -> (
    Option<GatewayPhase>,
    PairingAction,
) {
    match (gw, e) {
        (_, PairingEvent::GatewaysEnded) => (None, PairingAction::Stop),
        (None, PairingEvent::Dequeued) => (
            Some(GatewayPhase::Finalizing),
            PairingAction::WriteFinalize,
        ),
        (None, PairingEvent::QueueTimedOut) => (None, PairingAction::DrainAndRestart),
        (Some(GatewayPhase::Finalizing), PairingEvent::FinalizeWritten(ok)) => if ok {
            (Some(GatewayPhase::LateHandshake), PairingAction::ReadLateMagic)
        } else {
            (None, PairingAction::DequeueNext)
        },
        (Some(GatewayPhase::LateHandshake), PairingEvent::LateMagic(ok)) => if ok {
            (Some(GatewayPhase::Spliced), PairingAction::Splice)
        } else {
            (None, PairingAction::DequeueNext)
        },
        _ => (None, PairingAction::DequeueNext),
    }
}

/// The history of a gateway connection when the armed stream hands it out:
/// its early magic was read and a visitor activated it.
pub open spec fn activated_history() -> Seq<GatewayEvent> {
    seq![GatewayEvent::EarlyMagic(true), GatewayEvent::Activated]
}

/// The decisions of the server for one public connection: it dequeues armed
/// gateway connections until one completes the handshake, or the queue
/// times out.
pub struct Pairing {
    gateway: Option<GatewayPhase>,
    history: Ghost<Seq<GatewayEvent>>,
}

impl Pairing {
    /// The phase of the gateway connection in hand, if any.
    pub closed spec fn gateway(&self) -> Option<GatewayPhase> {
        self.gateway
    }

    /// The events seen by the gateway connection in hand.
    pub closed spec fn history(&self) -> Seq<GatewayEvent> {
        self.history@
    }

    pub closed spec fn wf(&self) -> bool {
        match self.gateway {
            Some(p) => p == run(GatewayPhase::Accepted, self.history@),
            None => true,
        }
    }

    /// A public connection was just accepted; no gateway is in hand.
    pub fn new() -> (r: Pairing)
        ensures
            r.wf(),
            r.gateway() == None::<GatewayPhase>,
    {
        Pairing { gateway: None, history: Ghost(Seq::empty()) }
    }

    /// Whether the public connection has been spliced.
    pub fn is_committed(&self) -> (r: bool)
        ensures
            r == (self.gateway() == Some(GatewayPhase::Spliced)),
    {
        match self.gateway {
            Some(GatewayPhase::Spliced) => true,
            _ => false,
        }
    }

    /// Takes the next event and says what to do.
    pub fn on(&mut self, e: PairingEvent) -> (r: PairingAction)
        requires
            old(self).wf(),
            old(self).gateway() != Some(GatewayPhase::Spliced),
        ensures
            final(self).wf(),
            (final(self).gateway(), r) == pairing_next(old(self).gateway(), e),
            r == PairingAction::Splice ==> final(self).history().len() >= 4
                && final(self).history().subrange(0, 4) == handshake(),
    {
        match (self.gateway, e) {
            (_, PairingEvent::GatewaysEnded) => {
                self.gateway = None;
                PairingAction::Stop
            },
            (None, PairingEvent::Dequeued) => {
                // The stream hands out armed gateway connections that were just activated.
                self.history = Ghost(activated_history());
                proof {
                    reveal_with_fuel(run, 3);
                }
                self.gateway = Some(GatewayPhase::Finalizing);
                PairingAction::WriteFinalize
            },
            (None, PairingEvent::QueueTimedOut) => PairingAction::DrainAndRestart,
            (Some(GatewayPhase::Finalizing), PairingEvent::FinalizeWritten(ok)) => {
                if ok {
                    proof {
                        self.lemma_extend(GatewayEvent::FinalizeWritten(true));
                    }
                    self.history = Ghost(self.history@.push(GatewayEvent::FinalizeWritten(true)));
                    self.gateway = Some(GatewayPhase::LateHandshake);
                    PairingAction::ReadLateMagic
                } else {
                    self.gateway = None;
                    PairingAction::DequeueNext
                }
            },
            (Some(GatewayPhase::LateHandshake), PairingEvent::LateMagic(ok)) => {
                if ok {
                    proof {
                        self.lemma_extend(GatewayEvent::LateMagic(true));
                        let done = self.history@.push(GatewayEvent::LateMagic(true));
                        lemma_spliced_iff_handshake(done);
                    }
                    self.history = Ghost(self.history@.push(GatewayEvent::LateMagic(true)));
                    self.gateway = Some(GatewayPhase::Spliced);
                    PairingAction::Splice
                } else {
                    self.gateway = None;
                    PairingAction::DequeueNext
                }
            },
            _ => {
                self.gateway = None;
                PairingAction::DequeueNext
            },
        }
    }

    proof fn lemma_extend(&self, e: GatewayEvent)
        requires
            self.wf(),
            self.gateway is Some,
        ensures
            run(GatewayPhase::Accepted, self.history@.push(e)) == next_phase(
                self.gateway->0,
                e,
            ),
    {
        lemma_run_push(GatewayPhase::Accepted, self.history@, e);
    }
}

proof fn lemma_run_push(p: GatewayPhase, evs: Seq<GatewayEvent>, e: GatewayEvent)
    ensures
        run(p, evs.push(e)) == next_phase(run(p, evs), e),
    decreases evs.len(),
{
    if evs.len() == 0 {
        reveal_with_fuel(run, 2);
        assert(evs.push(e).drop_first() =~= Seq::<GatewayEvent>::empty());
    } else {
        assert(evs.push(e).drop_first() =~= evs.drop_first().push(e));
        lemma_run_push(next_phase(p, evs[0]), evs.drop_first(), e);
    }
}

} // verus!
