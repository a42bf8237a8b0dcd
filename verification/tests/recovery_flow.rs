use portal_core::access::Capability;
use portal_core::addr::{Addr, Segment, PROTO_SECURE, PROTO_SERVICE, PROTO_TCP};
use portal_core::connection::ConnectionResult;
use portal_core::recovery::{
    RecoveryAction, RecoveryError, RecoveryEvent, RecoveryPhase, RecoveryStrategy,
};
use portal_core::session::{Data, ScratchValue, KEY_INLET_WORKER, KEY_OUTER_CHAN};

fn addr(segs: &[(u64, &str)]) -> Addr {
    let mut a = Addr::empty();
    for (code, data) in segs {
        a.push(Segment::new(*code, data));
    }
    a
}

fn strategy() -> RecoveryStrategy {
    RecoveryStrategy {
        bind: "127.0.0.1:9000".to_string(),
        target: addr(&[(PROTO_SERVICE, "fwd"), (PROTO_SECURE, "api")]),
        auth: None,
        access: Capability::Transport,
    }
}

fn seeded_data() -> Data {
    let mut d = Data::new();
    d.put(KEY_INLET_WORKER, ScratchValue::Worker("w_old".to_string()));
    d.put(KEY_OUTER_CHAN, ScratchValue::Chan(addr(&[(PROTO_SECURE, "outer_old")])));
    d
}

#[test]
fn test_recovery_round_trip_keeps_bind_and_capability() {
    let s = strategy();
    let mut data = seeded_data();
    let deadline = 100u64;

    // The liveness monitor reported the old channel dead.
    let (phase, action) = s.begin(&addr(&[(PROTO_SECURE, "sc_old")]), 0, deadline);
    match &action {
        RecoveryAction::DeleteChannel(w) => assert_eq!(w, "sc_old"),
        other => panic!("expected a channel deletion, got {:?}", other),
    }

    // The recorded outer channel is deleted as well.
    let (phase, action) = s.step(&mut data, phase, RecoveryEvent::ChannelDeleted, 1, deadline);
    match &action {
        RecoveryAction::DeleteChannel(w) => assert_eq!(w, "outer_old"),
        other => panic!("expected the outer channel deletion, got {:?}", other),
    }

    // Then the original target is dialed again.
    let (phase, action) = s.step(&mut data, phase, RecoveryEvent::ChannelDeleted, 2, deadline);
    match &action {
        RecoveryAction::Dial(d) => {
            assert_eq!(d.target.len(), 2);
            assert!(d.auth.is_none());
        }
        other => panic!("expected a dial, got {:?}", other),
    }

    // A second hop is required again: the new outer channel replaces the
    // recorded one before the second dial goes out.
    let first = ConnectionResult {
        secure_channel: addr(&[(PROTO_SECURE, "outer_new")]),
        suffix: addr(&[(PROTO_SERVICE, "fwd"), (PROTO_SECURE, "api")]),
    };
    let (phase, action) = s.step(&mut data, phase, RecoveryEvent::DialOk(first), 3, deadline);
    assert!(matches!(action, RecoveryAction::Dial(_)));
    let recorded = data.get_chan(KEY_OUTER_CHAN).expect("outer channel recorded");
    assert_eq!(recorded.at(0).data, "outer_new");

    // The second dial finishes the rebuild; the old worker is stopped.
    let second = ConnectionResult {
        secure_channel: addr(&[(PROTO_SECURE, "sc_new")]),
        suffix: Addr::empty(),
    };
    let (phase, action) = s.step(&mut data, phase, RecoveryEvent::DialOk(second), 4, deadline);
    match &action {
        RecoveryAction::StopBridge(w) => assert_eq!(w, "w_old"),
        other => panic!("expected the worker stop, got {:?}", other),
    }

    // The new worker starts at the same bind address, gated by the very
    // capability attached at creation.
    let (phase, action) = s.step(&mut data, phase, RecoveryEvent::BridgeStopped, 5, deadline);
    match &action {
        RecoveryAction::StartBridge { bind, route, access } => {
            assert_eq!(bind, "127.0.0.1:9000");
            assert_eq!(route.as_slice(), ["sc_new".to_string()]);
            assert!(matches!(access, Capability::Transport));
        }
        other => panic!("expected the worker start, got {:?}", other),
    }

    let (phase, action) =
        s.step(&mut data, phase, RecoveryEvent::BridgeStarted("w_new".to_string()), 6, deadline);
    assert!(matches!(phase, RecoveryPhase::Done));
    match &action {
        RecoveryAction::Succeed { new_ping } => {
            assert_eq!(new_ping.len(), 1);
            assert_eq!(new_ping.at(0).data, "sc_new");
        }
        other => panic!("expected success, got {:?}", other),
    }
    assert_eq!(data.get_worker(KEY_INLET_WORKER).as_deref(), Some("w_new"));
}

#[test]
fn test_recovery_times_out_at_the_deadline() {
    let s = strategy();
    let (phase, action) = s.begin(&addr(&[(PROTO_SECURE, "sc_old")]), 100, 100);
    assert!(matches!(phase, RecoveryPhase::Failed));
    assert!(matches!(action, RecoveryAction::Fail(RecoveryError::Timeout)));

    // Mid-flight too: once the deadline has passed, any step fails with a
    // timeout and leaves the scratch store as it was.
    let mut data = seeded_data();
    let (phase, _) = s.begin(&addr(&[(PROTO_SECURE, "sc_old")]), 0, 100);
    let (phase, action) = s.step(&mut data, phase, RecoveryEvent::ChannelDeleted, 100, 100);
    assert!(matches!(phase, RecoveryPhase::Failed));
    assert!(matches!(action, RecoveryAction::Fail(RecoveryError::Timeout)));
    assert_eq!(data.get_worker(KEY_INLET_WORKER).as_deref(), Some("w_old"));
}

#[test]
fn test_recovery_rejects_malformed_previous_address() {
    let s = strategy();
    let two_segments = addr(&[(PROTO_SERVICE, "a"), (PROTO_SECURE, "b")]);
    let (phase, action) = s.begin(&two_segments, 0, 100);
    assert!(matches!(phase, RecoveryPhase::Failed));
    assert!(matches!(
        action,
        RecoveryAction::Fail(RecoveryError::BadPreviousAddress)
    ));
}

#[test]
fn test_recovery_without_outer_channel_dials_directly() {
    let s = strategy();
    let mut data = Data::new();
    data.put(KEY_INLET_WORKER, ScratchValue::Worker("w_old".to_string()));
    let (phase, _) = s.begin(&addr(&[(PROTO_SECURE, "sc_old")]), 0, 100);
    let (_phase, action) = s.step(&mut data, phase, RecoveryEvent::ChannelDeleted, 1, 100);
    assert!(matches!(action, RecoveryAction::Dial(_)));
}

#[test]
fn test_recovery_invalid_route_fails() {
    let s = strategy();
    let mut data = Data::new();
    let (phase, _) = s.begin(&addr(&[(PROTO_SECURE, "sc_old")]), 0, 100);
    let (phase, _) = s.step(&mut data, phase, RecoveryEvent::ChannelDeleted, 1, 100);
    let outcome = ConnectionResult {
        secure_channel: Addr::empty(),
        suffix: addr(&[(PROTO_TCP, "4000")]),
    };
    let (phase, action) = s.step(&mut data, phase, RecoveryEvent::DialOk(outcome), 2, 100);
    assert!(matches!(phase, RecoveryPhase::Failed));
    assert!(matches!(action, RecoveryAction::Fail(RecoveryError::InvalidRoute)));
}

#[test]
fn test_recovery_dial_failure_fails() {
    let s = strategy();
    let mut data = Data::new();
    let (phase, _) = s.begin(&addr(&[(PROTO_SECURE, "sc_old")]), 0, 100);
    let (phase, _) = s.step(&mut data, phase, RecoveryEvent::ChannelDeleted, 1, 100);
    let (phase, action) =
        s.step(&mut data, phase, RecoveryEvent::DialFailed("unreachable".to_string()), 2, 100);
    assert!(matches!(phase, RecoveryPhase::Failed));
    match action {
        RecoveryAction::Fail(RecoveryError::DialFailed(m)) => assert_eq!(m, "unreachable"),
        other => panic!("expected a dial failure, got {:?}", other),
    }
}

#[test]
fn test_recovery_strips_trailing_outlet_marker() {
    let s = strategy();
    let mut data = Data::new();
    let (phase, _) = s.begin(&addr(&[(PROTO_SECURE, "sc_old")]), 0, 100);
    let (phase, _) = s.step(&mut data, phase, RecoveryEvent::ChannelDeleted, 1, 100);
    let outcome = ConnectionResult {
        secure_channel: addr(&[(PROTO_SECURE, "sc_new")]),
        suffix: addr(&[(PROTO_SERVICE, "outlet")]),
    };
    // No second hop: the suffix does not start [service, secure-marker]
    // with a channel... it does carry the outlet marker, which the new ping
    // address must not keep.
    let (phase, action) = s.step(&mut data, phase, RecoveryEvent::DialOk(outcome), 2, 100);
    assert!(matches!(action, RecoveryAction::StartBridge { .. }));
    let (phase, action) =
        s.step(&mut data, phase, RecoveryEvent::BridgeStarted("w_new".to_string()), 3, 100);
    assert!(matches!(phase, RecoveryPhase::Done));
    match action {
        RecoveryAction::Succeed { new_ping } => {
            assert_eq!(new_ping.len(), 1);
            assert_eq!(new_ping.at(0).data, "sc_new");
        }
        other => panic!("expected success, got {:?}", other),
    }
}

#[test]
fn test_recovery_worker_start_failure() {
    let s = strategy();
    let mut data = Data::new();
    let (phase, _) = s.begin(&addr(&[(PROTO_SECURE, "sc_old")]), 0, 100);
    let (phase, _) = s.step(&mut data, phase, RecoveryEvent::ChannelDeleted, 1, 100);
    let outcome = ConnectionResult {
        secure_channel: addr(&[(PROTO_SECURE, "sc_new")]),
        suffix: Addr::empty(),
    };
    let (phase, _) = s.step(&mut data, phase, RecoveryEvent::DialOk(outcome), 2, 100);
    let (phase, action) = s.step(
        &mut data,
        phase,
        RecoveryEvent::BridgeStartFailed("bind refused".to_string()),
        3,
        100,
    );
    assert!(matches!(phase, RecoveryPhase::Failed));
    match action {
        RecoveryAction::Fail(RecoveryError::WorkerStartFailed(m)) => {
            assert_eq!(m, "bind refused")
        }
        other => panic!("expected a start failure, got {:?}", other),
    }
}
