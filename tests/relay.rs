use bytes::Bytes;
use relay::active::ActiveSplices;
use relay::backoff::Backoff;
use relay::client::{ClientAction, ClientLoop, ClientStep};
use relay::config::{CLIENT_BACKOFF_HI, CLIENT_BACKOFF_LO, COPY_BUFFER_SIZE};
use relay::dial::{DialStep, Dialer};
use relay::err::{AppliesTo, ErrorKind, IoErrorExt};
use relay::gateway::{GatewayEvent, GatewayPhase};
use relay::heartbeat::{classify, HeartbeatByte, FINALIZE, KEEPALIVE};
use relay::magic::{magic, MagicReader, MagicStep, MAGIC_LEN};
use relay::server::{drain_continues, AcceptDecision, AcceptRetry, DrainPoll, Pairing, PairingAction, PairingEvent};
use relay::stream::Handoff;
use relay::websocket::{ws_scheme, FrameReader, FrameWriter, ReadStatus, WebSocketEnabled, WsMessage, WS_PATH};

#[test]
fn backoff_doubles_and_saturates() {
    let mut b = Backoff::new(1, 64);
    let got: Vec<u8> = (0..9).map(|_| b.next()).collect();
    assert_eq!(got, vec![1, 2, 4, 8, 16, 32, 64, 64, 64]);
}

#[test]
fn backoff_reset_returns_lo() {
    let mut b = Backoff::new(3, 20);
    assert_eq!(b.next(), 3);
    assert_eq!(b.next(), 6);
    assert_eq!(b.next(), 12);
    assert_eq!(b.next(), 20);
    b.reset();
    assert_eq!(b.next(), 3);
}

#[test]
fn backoff_stays_in_range_near_u8_max() {
    let mut b = Backoff::new(200, 255);
    assert_eq!(b.next(), 200);
    assert_eq!(b.next(), 255);
    assert_eq!(b.next(), 255);
}

#[test]
fn backoff_single_value_range() {
    let mut b = Backoff::new(7, 7);
    assert_eq!(b.next(), 7);
    assert_eq!(b.next(), 7);
}

#[test]
fn error_classes() {
    assert_eq!(ErrorKind::ConnectionRefused.applies_to(), AppliesTo::Connection);
    assert_eq!(ErrorKind::ConnectionAborted.applies_to(), AppliesTo::Connection);
    assert_eq!(ErrorKind::ConnectionReset.applies_to(), AppliesTo::Connection);
    assert_eq!(ErrorKind::Other.applies_to(), AppliesTo::Listener);
}

#[test]
fn magic_round_trip() {
    let m = magic();
    assert_eq!(m.len(), MAGIC_LEN);
    let mut r = MagicReader::new();
    for (i, b) in m.iter().enumerate() {
        let step = r.feed(*b);
        if i + 1 == MAGIC_LEN {
            assert_eq!(step, MagicStep::Complete);
        } else {
            assert_eq!(step, MagicStep::Partial);
        }
    }
}

#[test]
fn magic_fails_on_first_wrong_byte() {
    let m = magic();
    let mut r = MagicReader::new();
    assert_eq!(r.feed(m[0]), MagicStep::Partial);
    assert_eq!(r.feed(m[1] ^ 0xff), MagicStep::Mismatch);
}

#[test]
fn heartbeat_bytes() {
    assert_ne!(KEEPALIVE, FINALIZE);
    assert_eq!(classify(KEEPALIVE), HeartbeatByte::Keepalive);
    assert_eq!(classify(FINALIZE), HeartbeatByte::Finalize);
    assert_eq!(classify(0x7f), HeartbeatByte::Invalid);
}

#[test]
fn gateway_full_handshake_splices() {
    let mut p = GatewayPhase::Accepted;
    p = p.step(GatewayEvent::EarlyMagic(true));
    assert_eq!(p, GatewayPhase::HeartbeatIdle);
    assert!(p.is_armed());
    p = p.step(GatewayEvent::Activated);
    assert_eq!(p, GatewayPhase::Finalizing);
    p = p.step(GatewayEvent::FinalizeWritten(true));
    assert_eq!(p, GatewayPhase::LateHandshake);
    p = p.step(GatewayEvent::LateMagic(true));
    assert!(p.is_spliced());
}

#[test]
fn gateway_dies_during_idle_hold() {
    let p = GatewayPhase::Accepted
        .step(GatewayEvent::EarlyMagic(true))
        .step(GatewayEvent::HeartbeatFailed);
    assert_eq!(p, GatewayPhase::Dead);
    assert!(!p.is_armed());
}

#[test]
fn dead_gateway_is_never_spliced() {
    let mut p = GatewayPhase::Accepted.step(GatewayEvent::EarlyMagic(false));
    assert_eq!(p, GatewayPhase::Dead);
    for e in [
        GatewayEvent::EarlyMagic(true),
        GatewayEvent::Activated,
        GatewayEvent::FinalizeWritten(true),
        GatewayEvent::LateMagic(true),
    ] {
        p = p.step(e);
        assert_eq!(p, GatewayPhase::Dead);
    }
}

#[test]
fn gateway_out_of_order_event_kills() {
    let p = GatewayPhase::Accepted.step(GatewayEvent::Activated);
    assert_eq!(p, GatewayPhase::Dead);
    let p = GatewayPhase::HeartbeatIdle.step(GatewayEvent::LateMagic(true));
    assert_eq!(p, GatewayPhase::Dead);
}

#[test]
fn public_with_no_gateway_expires_and_drains() {
    let mut p = Pairing::new();
    assert_eq!(p.on(PairingEvent::QueueTimedOut), PairingAction::DrainAndRestart);
    assert!(!p.is_committed());
}

#[test]
fn public_pairs_after_late_handshake() {
    let mut p = Pairing::new();
    assert_eq!(p.on(PairingEvent::Dequeued), PairingAction::WriteFinalize);
    assert_eq!(p.on(PairingEvent::FinalizeWritten(true)), PairingAction::ReadLateMagic);
    assert!(!p.is_committed());
    assert_eq!(p.on(PairingEvent::LateMagic(true)), PairingAction::Splice);
    assert!(p.is_committed());
}

#[test]
fn public_skips_gateways_that_fail() {
    let mut p = Pairing::new();
    assert_eq!(p.on(PairingEvent::Dequeued), PairingAction::WriteFinalize);
    assert_eq!(p.on(PairingEvent::FinalizeWritten(false)), PairingAction::DequeueNext);
    assert_eq!(p.on(PairingEvent::Dequeued), PairingAction::WriteFinalize);
    assert_eq!(p.on(PairingEvent::FinalizeWritten(true)), PairingAction::ReadLateMagic);
    assert_eq!(p.on(PairingEvent::LateMagic(false)), PairingAction::DequeueNext);
    assert!(!p.is_committed());
    assert_eq!(p.on(PairingEvent::QueueTimedOut), PairingAction::DrainAndRestart);
}

#[test]
fn public_stops_when_gateways_end() {
    let mut p = Pairing::new();
    assert_eq!(p.on(PairingEvent::GatewaysEnded), PairingAction::Stop);
}

#[test]
fn drain_stops_on_timeout_or_listener_error() {
    assert!(drain_continues(DrainPoll::Accepted));
    assert!(drain_continues(DrainPoll::Failed(ErrorKind::ConnectionReset)));
    assert!(!drain_continues(DrainPoll::Failed(ErrorKind::Other)));
    assert!(!drain_continues(DrainPoll::TimedOut));
}

#[test]
fn client_round_succeeds() {
    let mut c = ClientLoop::new();
    assert_eq!(c.current(), ClientStep::ConnectGateway);
    assert_eq!(c.on_result(true), ClientAction::Perform(ClientStep::WriteEarlyMagic));
    assert_eq!(c.on_result(true), ClientAction::Perform(ClientStep::AwaitFinalize));
    assert_eq!(c.on_result(true), ClientAction::Perform(ClientStep::WriteLateMagic));
    assert_eq!(c.on_result(true), ClientAction::Perform(ClientStep::ConnectPrivate));
    assert_eq!(c.on_result(true), ClientAction::Spawn);
    assert_eq!(c.current(), ClientStep::ConnectGateway);
}

fn fail_at_private(c: &mut ClientLoop) -> ClientAction {
    for _ in 0..4 {
        assert!(matches!(c.on_result(true), ClientAction::Perform(_)));
    }
    assert_eq!(c.current(), ClientStep::ConnectPrivate);
    c.on_result(false)
}

#[test]
fn client_reconnect_storm_backoff() {
    let mut c = ClientLoop::new();
    let mut sleeps = Vec::new();
    for _ in 0..5 {
        match fail_at_private(&mut c) {
            ClientAction::Sleep(s) => sleeps.push(s),
            other => panic!("unexpected {:?}", other),
        }
    }
    assert_eq!(sleeps, vec![1, 2, 4, 8, 16]);
    for _ in 0..4 {
        c.on_result(true);
    }
    assert_eq!(c.on_result(true), ClientAction::Spawn);
    c.on_result(true);
    assert_eq!(c.on_result(false), ClientAction::Sleep(CLIENT_BACKOFF_LO));
    assert!(CLIENT_BACKOFF_LO <= CLIENT_BACKOFF_HI);
}

#[test]
fn dial_first_success_wins() {
    let mut d: Dialer<&str, u32> = Dialer::new(3);
    assert_eq!(d.next_index(), 0);
    match d.on_attempt(Err(1)) {
        DialStep::TryNext(i) => assert_eq!(i, 1),
        _ => panic!("expected another attempt"),
    }
    match d.on_attempt(Ok("second")) {
        DialStep::Connected(c) => assert_eq!(c, "second"),
        _ => panic!("expected a connection"),
    }
}

#[test]
fn dial_all_fail_returns_last_error() {
    let mut d: Dialer<&str, u32> = Dialer::new(3);
    assert!(matches!(d.on_attempt(Err(10)), DialStep::TryNext(1)));
    assert!(matches!(d.on_attempt(Err(20)), DialStep::TryNext(2)));
    match d.on_attempt(Err(30)) {
        DialStep::Failed(e) => assert_eq!(e, 30),
        _ => panic!("expected failure"),
    }
}

#[test]
fn dial_single_address() {
    let mut d: Dialer<(), &str> = Dialer::new(1);
    match d.on_attempt(Err("refused")) {
        DialStep::Failed(e) => assert_eq!(e, "refused"),
        _ => panic!("expected failure"),
    }
}

#[test]
fn active_counter_tracks_splices() {
    let mut a = ActiveSplices::new();
    assert_eq!(a.active(), 0);
    let t1 = a.begin().unwrap();
    assert_eq!(a.active(), 1);
    let t2 = a.begin().unwrap();
    assert_eq!(a.active(), 2);
    assert!(a.end(t1));
    assert_eq!(a.active(), 1);
    assert!(a.end(t2));
    assert_eq!(a.active(), 0);
}

#[test]
fn ws_writer_frames_and_flush() {
    let mut w = FrameWriter::new(4);
    assert_eq!(w.write(b"hel"), 3);
    assert!(!w.is_full());
    assert_eq!(w.write(b"lo wo"), 1);
    assert!(w.is_full());
    let first = w.take_frame().unwrap();
    assert_eq!(&first[..], b"hell");
    assert_eq!(w.write(b"o\n"), 2);
    let second = w.take_frame().unwrap();
    assert_eq!(&second[..], b"o\n");
    assert!(w.take_frame().is_none());
}

#[test]
fn ws_writer_concatenation_equals_input() {
    let payload: Vec<u8> = (0..1000u32).map(|i| (i % 251) as u8).collect();
    let mut w = FrameWriter::new(64);
    let mut out = Vec::new();
    let mut rest: &[u8] = &payload;
    while !rest.is_empty() {
        if w.is_full() {
            let m = w.take_frame().unwrap();
            assert!(!m.is_empty() && m.len() <= 64);
            out.extend_from_slice(&m);
        }
        let n = w.write(&rest[..rest.len().min(37)]);
        rest = &rest[n..];
    }
    if let Some(m) = w.take_frame() {
        out.extend_from_slice(&m);
    }
    assert_eq!(out, payload);
}

#[test]
fn ws_reader_keeps_leftover() {
    let mut r = FrameReader::new();
    assert!(r.needs_message());
    assert_eq!(r.on_message(WsMessage::Binary(Bytes::from_static(b"hello\n"))), ReadStatus::Data);
    assert_eq!(&r.read(4)[..], b"hell");
    assert!(!r.needs_message());
    assert_eq!(&r.read(10)[..], b"o\n");
    assert!(r.needs_message());
    assert_eq!(r.on_message(WsMessage::Close), ReadStatus::Eof);
}

#[test]
fn ws_reader_rejects_other_messages() {
    let mut r = FrameReader::new();
    assert_eq!(r.on_message(WsMessage::Other), ReadStatus::Unexpected);
    assert!(r.read(8).is_empty());
}

#[test]
fn ws_round_trip_through_messages() {
    let payload = b"hello\n".repeat(50);
    let mut w = FrameWriter::new(16);
    let mut r = FrameReader::new();
    let mut got = Vec::new();
    let mut rest: &[u8] = &payload;
    let mut messages = Vec::new();
    while !rest.is_empty() {
        if w.is_full() {
            messages.push(w.take_frame().unwrap());
        }
        let n = w.write(rest);
        rest = &rest[n..];
    }
    messages.extend(w.take_frame());
    for m in messages {
        assert_eq!(r.on_message(WsMessage::Binary(m)), ReadStatus::Data);
        while !r.needs_message() {
            got.extend_from_slice(&r.read(5));
        }
    }
    assert_eq!(got, payload);
}

#[test]
fn ws_schemes_and_path() {
    assert_eq!(ws_scheme(WebSocketEnabled::Off), None);
    assert_eq!(ws_scheme(WebSocketEnabled::Insecure), Some("ws"));
    assert_eq!(ws_scheme(WebSocketEnabled::Secure), Some("wss"));
    assert_eq!(WS_PATH, "/ws/");
    assert!(COPY_BUFFER_SIZE > 0);
}

#[test]
fn handoff_single_slot() {
    let mut h = Handoff::new();
    let t = h.request().unwrap();
    assert!(h.is_outstanding());
    assert!(h.request().is_none());
    assert!(h.answer(t));
    assert!(!h.is_outstanding());
    let t2 = h.request().unwrap();
    assert!(h.answer(t2));
}

#[test]
fn accept_retry_skips_connection_errors_and_backs_off() {
    let mut r = AcceptRetry::new();
    assert_eq!(r.on_error(ErrorKind::ConnectionAborted), AcceptDecision::RetryNow);
    assert_eq!(r.on_error(ErrorKind::Other), AcceptDecision::SleepThenRetry(1));
    assert_eq!(r.on_error(ErrorKind::ConnectionRefused), AcceptDecision::RetryNow);
    assert_eq!(r.on_error(ErrorKind::Other), AcceptDecision::SleepThenRetry(2));
    assert_eq!(r.on_error(ErrorKind::Other), AcceptDecision::SleepThenRetry(4));
}

#[test]
fn ws_writer_pending_len() {
    let mut w = FrameWriter::new(8);
    assert_eq!(w.pending_len(), 0);
    assert_eq!(w.write(b""), 0);
    assert_eq!(w.write(b"abc"), 3);
    assert_eq!(w.pending_len(), 3);
    let _ = w.take_frame();
    assert_eq!(w.pending_len(), 0);
}

#[test]
fn gateway_lost_before_finalize_only_expires_public() {
    let gateway = GatewayPhase::Accepted
        .step(GatewayEvent::EarlyMagic(true))
        .step(GatewayEvent::HeartbeatFailed);
    assert!(!gateway.is_armed());
    assert!(!gateway.step(GatewayEvent::Activated).is_spliced());
    let mut public = Pairing::new();
    assert_eq!(public.on(PairingEvent::QueueTimedOut), PairingAction::DrainAndRestart);
    assert!(!public.is_committed());
}

#[test]
fn magic_short_then_wrong_is_mismatch_not_complete() {
    let m = magic();
    let mut r = MagicReader::new();
    for b in &m[..MAGIC_LEN - 1] {
        assert_eq!(r.feed(*b), MagicStep::Partial);
    }
    assert_eq!(r.feed(m[MAGIC_LEN - 1].wrapping_add(1)), MagicStep::Mismatch);
}
