use vstd::prelude::*;

verus! {

/// Where a gateway connection stands on the server.
#[derive(Clone, Copy, Debug, PartialEq, Eq, Structural)]
pub enum GatewayPhase {
    /// Just accepted; the early magic is awaited.
    Accepted,
    /// Early magic read; kept alive by the heartbeat until a visitor needs it.
    HeartbeatIdle,
    /// Chosen for a visitor; the finalize byte is being written.
    Finalizing,
    /// Finalize written; the late magic is awaited.
    LateHandshake,
    /// Paired with a public connection.
    Spliced,
    /// Failed; the connection is closed.
    Dead,
}

/// What happened to a gateway connection.
#[derive(Clone, Copy, Debug, PartialEq, Eq, Structural)]
pub enum GatewayEvent {
    /// The early magic was read (`true`) or not (`false`).
    EarlyMagic(bool),
    /// A public connection asked for this gateway.
    Activated,
    /// A keepalive could not be written.
    HeartbeatFailed,
    /// The finalize byte was written (`true`) or not (`false`).
    FinalizeWritten(bool),
    /// The late magic was read (`true`) or not (`false`).
    LateMagic(bool),
}

/// One transition of the gateway state machine. An event that does not fit
/// the phase kills the connection; `Spliced` and `Dead` are final.
pub open spec fn next_phase(p: GatewayPhase, e: GatewayEvent) -> GatewayPhase {
    match p {
        GatewayPhase::Accepted => match e {
            GatewayEvent::EarlyMagic(true) => GatewayPhase::HeartbeatIdle,
            _ => GatewayPhase::Dead,
        },
        GatewayPhase::HeartbeatIdle => match e {
            GatewayEvent::Activated => GatewayPhase::Finalizing,
            _ => GatewayPhase::Dead,
        },
        GatewayPhase::Finalizing => match e {
            GatewayEvent::FinalizeWritten(true) => GatewayPhase::LateHandshake,
            _ => GatewayPhase::Dead,
        },
        GatewayPhase::LateHandshake => match e {
            GatewayEvent::LateMagic(true) => GatewayPhase::Spliced,
            _ => GatewayPhase::Dead,
        },
        GatewayPhase::Spliced => GatewayPhase::Spliced,
        GatewayPhase::Dead => GatewayPhase::Dead,
    }
}

/// The phase reached from `p` through the events `evs`, in order.
pub open spec fn run(p: GatewayPhase, evs: Seq<GatewayEvent>) -> GatewayPhase
    decreases evs.len(),
{
    if evs.len() == 0 {
        p
    } else {
        run(next_phase(p, evs[0]), evs.drop_first())
    }
}

/// The three-phase handshake, as the events that carry a gateway connection
/// from its accept to a splice.
pub open spec fn handshake() -> Seq<GatewayEvent> {
    seq![
        GatewayEvent::EarlyMagic(true),
        GatewayEvent::Activated,
        GatewayEvent::FinalizeWritten(true),
        GatewayEvent::LateMagic(true),
    ]
}

impl GatewayPhase {
    /// Applies one event.
    pub fn step(self, e: GatewayEvent) -> (r: GatewayPhase)
        ensures
            r == next_phase(self, e),
    {
        match self {
            GatewayPhase::Accepted => match e {
                GatewayEvent::EarlyMagic(true) => GatewayPhase::HeartbeatIdle,
                _ => GatewayPhase::Dead,
            },
            GatewayPhase::HeartbeatIdle => match e {
                GatewayEvent::Activated => GatewayPhase::Finalizing,
                _ => GatewayPhase::Dead,
            },
            GatewayPhase::Finalizing => match e {
                GatewayEvent::FinalizeWritten(true) => GatewayPhase::LateHandshake,
                _ => GatewayPhase::Dead,
            },
            GatewayPhase::LateHandshake => match e {
                GatewayEvent::LateMagic(true) => GatewayPhase::Spliced,
                _ => GatewayPhase::Dead,
            },
            GatewayPhase::Spliced => GatewayPhase::Spliced,
            GatewayPhase::Dead => GatewayPhase::Dead,
        }
    }

    /// Whether the connection is armed: alive and waiting for a visitor.
    pub fn is_armed(self) -> (r: bool)
        ensures
            r == (self == GatewayPhase::HeartbeatIdle),
    {
        self == GatewayPhase::HeartbeatIdle
    }

    /// Whether the connection may carry a visitor's bytes.
    pub fn is_spliced(self) -> (r: bool)
        ensures
            r == (self == GatewayPhase::Spliced),
    {
        self == GatewayPhase::Spliced
    }
}

/// A dead gateway connection stays dead whatever happens next, so no public
/// connection is ever paired with it.
pub proof fn lemma_dead_is_final(evs: Seq<GatewayEvent>)
    ensures
        run(GatewayPhase::Dead, evs) == GatewayPhase::Dead,
        run(GatewayPhase::Dead, evs) != GatewayPhase::Spliced,
    decreases evs.len(),
{
    if evs.len() > 0 {
        lemma_dead_is_final(evs.drop_first());
    }
}

/// A spliced connection stays spliced.
pub proof fn lemma_spliced_is_final(evs: Seq<GatewayEvent>)
    ensures
        run(GatewayPhase::Spliced, evs) == GatewayPhase::Spliced,
    decreases evs.len(),
{
    if evs.len() > 0 {
        lemma_spliced_is_final(evs.drop_first());
    }
}

/// A gateway connection is spliced exactly when its history begins with the
/// full three-phase handshake: early magic, activation, finalize, late magic.
pub proof fn lemma_spliced_iff_handshake(evs: Seq<GatewayEvent>)
    ensures
        run(GatewayPhase::Accepted, evs) == GatewayPhase::Spliced <==> (evs.len() >= 4
            && evs.subrange(0, 4) == handshake()),
{
    let hs = handshake();
    if evs.len() >= 4 && evs.subrange(0, 4) == hs {
        assert(evs[0] == hs[0]);
        assert(evs[1] == hs[1]);
        assert(evs[2] == hs[2]);
        assert(evs[3] == hs[3]);
        let rest = evs.subrange(4, evs.len() as int);
        assert(evs.drop_first().drop_first().drop_first().drop_first() == rest);
        lemma_spliced_is_final(evs.subrange(4, evs.len() as int));
        reveal_with_fuel(run, 5);
    } else {
        lemma_dead_before_handshake(evs);
    }
}

proof fn lemma_dead_before_handshake(evs: Seq<GatewayEvent>)
    requires
        !(evs.len() >= 4 && evs.subrange(0, 4) == handshake()),
    ensures
        run(GatewayPhase::Accepted, evs) != GatewayPhase::Spliced,
{
    reveal_with_fuel(run, 5);
    let hs = handshake();
    if evs.len() > 0 {
        let e1 = evs.drop_first();
        if evs[0] != hs[0] {
            lemma_dead_is_final(e1);
        } else if e1.len() > 0 {
            let e2 = e1.drop_first();
            if e1[0] != hs[1] {
                lemma_dead_is_final(e2);
            } else if e2.len() > 0 {
                let e3 = e2.drop_first();
                if e2[0] != hs[2] {
                    lemma_dead_is_final(e3);
                } else if e3.len() > 0 {
                    if e3[0] != hs[3] {
                        lemma_dead_is_final(e3.drop_first());
                    } else {
                        assert(evs.subrange(0, 4) =~= hs);
                    }
                }
            }
        }
    }
}

/// Whether a gateway connection with history `evs` was ever armed.
pub open spec fn was_armed(evs: Seq<GatewayEvent>) -> bool {
    evs.len() > 0 && evs[0] == GatewayEvent::EarlyMagic(true)
}

/// How many of the gateway connections with histories `ts` got spliced.
pub open spec fn count_spliced(ts: Seq<Seq<GatewayEvent>>) -> nat
    decreases ts.len(),
{
    if ts.len() == 0 {
        0
    } else {
        count_spliced(ts.drop_last()) + if run(GatewayPhase::Accepted, ts.last())
            == GatewayPhase::Spliced {
            1nat
        } else {
            0nat
        }
    }
}

/// How many of the gateway connections with histories `ts` were ever armed.
pub open spec fn count_armed(ts: Seq<Seq<GatewayEvent>>) -> nat
    decreases ts.len(),
{
    if ts.len() == 0 {
        0
    } else {
        count_armed(ts.drop_last()) + if was_armed(ts.last()) {
            1nat
        } else {
            0nat
        }
    }
}

/// Each gateway connection carries at most one public connection, and only
/// one that was armed: with `n` armed gateway connections at most `n` public
/// connections are committed.
pub proof fn lemma_commits_bounded_by_armed(ts: Seq<Seq<GatewayEvent>>)
    ensures
        count_spliced(ts) <= count_armed(ts) <= ts.len(),
    decreases ts.len(),
{
    if ts.len() > 0 {
        lemma_commits_bounded_by_armed(ts.drop_last());
        let t = ts.last();
        lemma_spliced_iff_handshake(t);
        if run(GatewayPhase::Accepted, t) == GatewayPhase::Spliced {
            assert(t[0] == t.subrange(0, 4)[0]);
        }
    }
}

} // verus!
