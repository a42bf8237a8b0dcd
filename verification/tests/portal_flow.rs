use portal_core::access::Capability;
use portal_core::addr::{Addr, Segment, PROTO_IP4, PROTO_SECURE, PROTO_SERVICE};
use portal_core::api::Status;
use portal_core::connection::ConnectionResult;
use portal_core::portal::{
    delete_inlet_begin, delete_inlet_finish, delete_outlet_begin, delete_outlet_finish,
    get_inlets, get_outlets, random_alias, show_inlet, show_outlet, CreateInlet, CreateOutlet,
    InletAction, InletCreator, NodeState, OutletAction, OutletCreator,
};
use portal_core::session::{KEY_INLET_WORKER, KEY_OUTER_CHAN};

fn addr(segs: &[(u64, &str)]) -> Addr {
    let mut a = Addr::empty();
    for (code, data) in segs {
        a.push(Segment::new(*code, data));
    }
    a
}

fn open_state() -> NodeState {
    NodeState::new(false, None, true)
}

#[test]
fn test_create_inlet_two_hop_makes_session() {
    // The forwarder-to-secure-channel topology: the target is the portable
    // address "/service/forward_to_bob/service/secure_channel".
    let target = addr(&[
        (PROTO_SERVICE, "forward_to_bob"),
        (PROTO_SERVICE, "secure_channel"),
    ]);
    let req = CreateInlet {
        listen_addr: "127.0.0.1:9000".to_string(),
        outlet_addr: target,
        alias: None,
        authorized: None,
    };
    let mut state = open_state();
    let (creator, action) = InletCreator::start(req);
    let alias = creator.alias.clone();
    assert_eq!(alias.len(), 8);
    match &action {
        InletAction::Dial(d) => {
            assert!(d.auth.is_none());
            assert_eq!(d.target.len(), 2);
        }
        other => panic!("expected a dial, got {:?}", other),
    }

    // First dial: a channel came up and the suffix still starts with
    // [service, secure-marker], so a second hop is required.
    let first = ConnectionResult {
        secure_channel: addr(&[(PROTO_SECURE, "sc_outer")]),
        suffix: addr(&[(PROTO_SERVICE, "forward_to_bob"), (PROTO_SECURE, "api")]),
    };
    let (creator, action) = creator.on_dial_ok(&state, first);
    let second_target = match &action {
        InletAction::Dial(d) => d.target.duplicate(),
        other => panic!("expected a second dial, got {:?}", other),
    };
    assert_eq!(second_target.len(), 3);
    assert_eq!(second_target.at(0).data, "sc_outer");
    assert_eq!(second_target.at(1).data, "forward_to_bob");
    assert_eq!(second_target.at(2).data, "api");

    // Second dial: the inner channel is up, nothing remains undialed.
    let second = ConnectionResult {
        secure_channel: addr(&[(PROTO_SECURE, "sc_inner")]),
        suffix: Addr::empty(),
    };
    let (creator, action) = creator.on_dial_ok(&state, second);
    match &action {
        InletAction::StartInlet { bind, route, access } => {
            assert_eq!(bind, "127.0.0.1:9000");
            assert_eq!(route.as_slice(), ["sc_inner".to_string()]);
            assert!(matches!(access, Capability::Transport));
        }
        other => panic!("expected a worker start, got {:?}", other),
    }

    let (status, body) = creator.on_worker(&mut state, Ok("inlet_w1".to_string()));
    assert_eq!(status, Status::Okay);
    assert_eq!(body.alias, alias);
    assert_eq!(body.worker_addr.as_deref(), Some("inlet_w1"));
    assert!(body.error.is_none());
    assert!(!body.outlet_route.is_empty());
    assert_eq!(body.outlet_route, "sc_inner");

    // The route traversed a secure channel: a session exists, seeded with
    // the worker address and the outer channel.
    let session = state.sessions.get(alias.as_str()).expect("session must exist");
    assert_eq!(
        session.data.get_worker(KEY_INLET_WORKER).as_deref(),
        Some("inlet_w1")
    );
    let outer = session.data.get_chan(KEY_OUTER_CHAN).expect("outer channel recorded");
    assert_eq!(outer.at(0).data, "sc_outer");
    assert_eq!(session.strategy.bind, "127.0.0.1:9000");
}

#[test]
fn test_single_hop_through_secure_channel_gets_session() {
    // The route required exactly one secure channel and no forwarding
    // indirection: the bridge still gets a session, seeded with the worker
    // address alone — there is no outer channel to record.
    let target = addr(&[(PROTO_SECURE, "api"), (PROTO_SERVICE, "echo")]);
    let req = CreateInlet {
        listen_addr: "127.0.0.1:9050".to_string(),
        outlet_addr: target,
        alias: Some("direct".to_string()),
        authorized: None,
    };
    let mut state = open_state();
    let (creator, _) = InletCreator::start(req);
    let outcome = ConnectionResult {
        secure_channel: addr(&[(PROTO_SECURE, "sc_only")]),
        suffix: addr(&[(PROTO_SERVICE, "echo")]),
    };
    let (creator, action) = creator.on_dial_ok(&state, outcome);
    assert!(matches!(action, InletAction::StartInlet { .. }));
    let (status, _) = creator.on_worker(&mut state, Ok("w_direct".to_string()));
    assert_eq!(status, Status::Okay);
    let session = state.sessions.get("direct").expect("session must exist");
    assert_eq!(
        session.data.get_worker(KEY_INLET_WORKER).as_deref(),
        Some("w_direct")
    );
    assert!(session.data.get_chan(KEY_OUTER_CHAN).is_none());
}

#[test]
fn test_create_inlet_single_hop_has_no_session() {
    let target = addr(&[(PROTO_SERVICE, "echo")]);
    let req = CreateInlet {
        listen_addr: "127.0.0.1:9100".to_string(),
        outlet_addr: target,
        alias: Some("plain".to_string()),
        authorized: None,
    };
    let mut state = open_state();
    let (creator, _action) = InletCreator::start(req);
    // The dial required no channel: the suffix does not start with the
    // forwarder-to-secure-channel pattern, so the result is single-hop.
    let outcome = ConnectionResult {
        secure_channel: Addr::empty(),
        suffix: addr(&[(PROTO_SERVICE, "echo")]),
    };
    let (creator, action) = creator.on_dial_ok(&state, outcome);
    match &action {
        InletAction::StartInlet { route, .. } => {
            assert_eq!(route.as_slice(), ["echo".to_string()]);
        }
        other => panic!("expected a worker start, got {:?}", other),
    }
    let (status, body) = creator.on_worker(&mut state, Ok("inlet_w2".to_string()));
    assert_eq!(status, Status::Okay);
    assert_eq!(body.alias, "plain");
    assert!(state.sessions.get("plain").is_none());
}

#[test]
fn test_create_inlet_unresolvable_route_is_bad_request() {
    let req = CreateInlet {
        listen_addr: "127.0.0.1:9100".to_string(),
        outlet_addr: addr(&[(PROTO_IP4, "10.0.0.1")]),
        alias: Some("bad".to_string()),
        authorized: None,
    };
    let state = open_state();
    let (creator, _action) = InletCreator::start(req);
    let outcome = ConnectionResult {
        secure_channel: Addr::empty(),
        suffix: addr(&[(PROTO_IP4, "10.0.0.1")]),
    };
    let (_creator, action) = creator.on_dial_ok(&state, outcome);
    match action {
        InletAction::Respond { status, body } => {
            assert_eq!(status, Status::BadRequest);
            assert_eq!(body.error.as_deref(), Some("invalid outlet route"));
        }
        other => panic!("expected a bad-request response, got {:?}", other),
    }
}

#[test]
fn test_failed_worker_reserves_alias_and_shows_error() {
    let req = CreateInlet {
        listen_addr: "127.0.0.1:9200".to_string(),
        outlet_addr: addr(&[(PROTO_SERVICE, "echo")]),
        alias: Some("held".to_string()),
        authorized: None,
    };
    let mut state = open_state();
    let (creator, _) = InletCreator::start(req);
    let outcome = ConnectionResult {
        secure_channel: Addr::empty(),
        suffix: addr(&[(PROTO_SERVICE, "echo")]),
    };
    let (creator, _) = creator.on_dial_ok(&state, outcome);
    let (status, body) = creator.on_worker(&mut state, Err("address already in use".to_string()));
    assert_eq!(status, Status::BadRequest);
    assert!(body.worker_addr.is_none());
    assert_eq!(body.error.as_deref(), Some("address already in use"));

    // The alias stays reserved: showing it succeeds, with no worker.
    let (status, shown) = show_inlet(&state, "held");
    assert_eq!(status, Status::Okay);
    assert!(shown.worker_addr.is_none());
    assert_eq!(shown.bind_addr, "127.0.0.1:9200");
}

#[test]
fn test_show_after_successful_create_has_worker() {
    let req = CreateInlet {
        listen_addr: "127.0.0.1:9300".to_string(),
        outlet_addr: addr(&[(PROTO_SERVICE, "echo")]),
        alias: Some("live".to_string()),
        authorized: None,
    };
    let mut state = open_state();
    let (creator, _) = InletCreator::start(req);
    let outcome = ConnectionResult {
        secure_channel: Addr::empty(),
        suffix: addr(&[(PROTO_SERVICE, "echo")]),
    };
    let (creator, _) = creator.on_dial_ok(&state, outcome);
    let _ = creator.on_worker(&mut state, Ok("w9".to_string()));
    let (status, shown) = show_inlet(&state, "live");
    assert_eq!(status, Status::Okay);
    assert_eq!(shown.worker_addr.as_deref(), Some("w9"));
}

#[test]
fn test_show_inlet_not_found() {
    let state = open_state();
    let (status, body) = show_inlet(&state, "ghost");
    assert_eq!(status, Status::NotFound);
    assert_eq!(body.error.as_deref(), Some("Inlet with alias ghost not found"));
    assert!(body.worker_addr.is_none());
}

#[test]
fn test_delete_inlet_twice_reports_not_found() {
    let req = CreateInlet {
        listen_addr: "127.0.0.1:9400".to_string(),
        outlet_addr: addr(&[(PROTO_SERVICE, "echo")]),
        alias: Some("gone".to_string()),
        authorized: None,
    };
    let mut state = open_state();
    let (creator, _) = InletCreator::start(req);
    let outcome = ConnectionResult {
        secure_channel: Addr::empty(),
        suffix: addr(&[(PROTO_SERVICE, "echo")]),
    };
    let (creator, _) = creator.on_dial_ok(&state, outcome);
    let _ = creator.on_worker(&mut state, Ok("w1".to_string()));

    let info = delete_inlet_begin(&mut state, "gone").expect("first delete finds the inlet");
    let (status, body) = delete_inlet_finish("gone", info, true);
    assert_eq!(status, Status::Okay);
    assert!(body.error.is_none());

    // The second delete, and any delete of an absent alias, is NotFound.
    let again = delete_inlet_begin(&mut state, "gone");
    match again {
        Err((status, body)) => {
            assert_eq!(status, Status::NotFound);
            assert_eq!(body.error.as_deref(), Some("Inlet with alias gone not found"));
        }
        Ok(_) => panic!("second delete must not find the inlet"),
    }
    let third = delete_inlet_begin(&mut state, "gone");
    assert!(matches!(third, Err((Status::NotFound, _))));
}

#[test]
fn test_delete_inlet_stop_failure_is_internal_error() {
    let req = CreateInlet {
        listen_addr: "127.0.0.1:9500".to_string(),
        outlet_addr: addr(&[(PROTO_SERVICE, "echo")]),
        alias: Some("stuck".to_string()),
        authorized: None,
    };
    let mut state = open_state();
    let (creator, _) = InletCreator::start(req);
    let outcome = ConnectionResult {
        secure_channel: Addr::empty(),
        suffix: addr(&[(PROTO_SERVICE, "echo")]),
    };
    let (creator, _) = creator.on_dial_ok(&state, outcome);
    let _ = creator.on_worker(&mut state, Ok("w1".to_string()));
    let info = delete_inlet_begin(&mut state, "stuck").expect("delete finds the inlet");
    let (status, body) = delete_inlet_finish("stuck", info, false);
    assert_eq!(status, Status::InternalServerError);
    assert_eq!(
        body.error.as_deref(),
        Some("Failed to remove inlet with alias stuck")
    );
    // The registry no longer knows the alias, stopped or not.
    let (status, _) = show_inlet(&state, "stuck");
    assert_eq!(status, Status::NotFound);
}

#[test]
fn test_delete_inlet_drops_session() {
    let req = CreateInlet {
        listen_addr: "127.0.0.1:9600".to_string(),
        outlet_addr: addr(&[(PROTO_SERVICE, "fwd"), (PROTO_SECURE, "api")]),
        alias: Some("tunneled".to_string()),
        authorized: None,
    };
    let mut state = open_state();
    let (creator, _) = InletCreator::start(req);
    let outcome = ConnectionResult {
        secure_channel: addr(&[(PROTO_SECURE, "sc1")]),
        suffix: addr(&[(PROTO_SERVICE, "fwd"), (PROTO_SECURE, "api")]),
    };
    let (creator, _) = creator.on_dial_ok(&state, outcome);
    let second = ConnectionResult {
        secure_channel: addr(&[(PROTO_SECURE, "sc2")]),
        suffix: Addr::empty(),
    };
    let (creator, _) = creator.on_dial_ok(&state, second);
    let _ = creator.on_worker(&mut state, Ok("w1".to_string()));
    assert!(state.sessions.get("tunneled").is_some());
    let _ = delete_inlet_begin(&mut state, "tunneled").expect("delete finds the inlet");
    assert!(state.sessions.get("tunneled").is_none());
}

#[test]
fn test_outlet_create_then_delete() {
    // The outlet scenario: create under the alias "web", then delete it.
    let req = CreateOutlet {
        tcp_addr: "127.0.0.1:9001".to_string(),
        worker_addr: "outlet-worker".to_string(),
        alias: Some("web".to_string()),
    };
    let mut state = open_state();
    let (creator, action) = OutletCreator::start(req, &state);
    match &action {
        OutletAction::StartOutlet { worker_addr, tcp_addr, access, accept_default_listener } => {
            assert_eq!(worker_addr, "outlet-worker");
            assert_eq!(tcp_addr, "127.0.0.1:9001");
            assert!(matches!(access, Capability::Transport));
            assert!(*accept_default_listener);
        }
        other => panic!("expected a worker start, got {:?}", other),
    }
    let (status, body) = creator.on_worker(&mut state, Ok(()));
    assert_eq!(status, Status::Okay);
    assert_eq!(body.alias, "web");
    assert!(body.error.is_none());

    let info = delete_outlet_begin(&mut state, "web").expect("delete finds the outlet");
    let (status, body) = delete_outlet_finish("web", info, true);
    assert_eq!(status, Status::Okay);
    assert_eq!(body.alias, "web");
    assert!(body.error.is_none());

    let second = delete_outlet_begin(&mut state, "web");
    assert!(matches!(second, Err((Status::NotFound, _))));
}

#[test]
fn test_outlet_requires_trust_context_when_checking() {
    let req = CreateOutlet {
        tcp_addr: "127.0.0.1:9001".to_string(),
        worker_addr: "outlet-worker".to_string(),
        alias: Some("web".to_string()),
    };
    let state = NodeState::new(true, None, false);
    let (_creator, action) = OutletCreator::start(req, &state);
    match action {
        OutletAction::Fail(m) => assert_eq!(m, "credential check requires trust context"),
        other => panic!("expected a failure, got {:?}", other),
    }
}

#[test]
fn test_outlet_scoped_capability_under_checking() {
    let req = CreateOutlet {
        tcp_addr: "127.0.0.1:9001".to_string(),
        worker_addr: "outlet-worker".to_string(),
        alias: None,
    };
    let state = NodeState::new(true, Some("tc_1".to_string()), false);
    let (_creator, action) = OutletCreator::start(req, &state);
    match action {
        OutletAction::StartOutlet { access, .. } => match access {
            Capability::Scoped { resource, action, scope } => {
                assert_eq!(resource, "tcp-outlet");
                assert_eq!(action, "handle_message");
                assert_eq!(scope, "tc_1");
            }
            other => panic!("expected a scoped capability, got {:?}", other),
        },
        other => panic!("expected a worker start, got {:?}", other),
    }
}

#[test]
fn test_inlet_scope_from_project_segment() {
    let target = addr(&[(portal_core::addr::PROTO_PROJECT, "proj1"), (PROTO_SERVICE, "echo")]);
    let req = CreateInlet {
        listen_addr: "127.0.0.1:9700".to_string(),
        outlet_addr: target,
        alias: Some("scoped".to_string()),
        authorized: None,
    };
    let mut state = NodeState::new(true, None, false);
    state.projects.insert("proj1".to_string(), "pid_42".to_string());
    let (creator, _) = InletCreator::start(req);
    let outcome = ConnectionResult {
        secure_channel: Addr::empty(),
        suffix: addr(&[(PROTO_SERVICE, "echo")]),
    };
    let (_creator, action) = creator.on_dial_ok(&state, outcome);
    match action {
        InletAction::StartInlet { access, .. } => match access {
            Capability::Scoped { resource, scope, .. } => {
                assert_eq!(resource, "scoped");
                assert_eq!(scope, "pid_42");
            }
            other => panic!("expected a scoped capability, got {:?}", other),
        },
        other => panic!("expected a worker start, got {:?}", other),
    }
}

#[test]
fn test_inlet_checking_without_scope_fails() {
    let req = CreateInlet {
        listen_addr: "127.0.0.1:9800".to_string(),
        outlet_addr: addr(&[(PROTO_SERVICE, "echo")]),
        alias: Some("noscope".to_string()),
        authorized: None,
    };
    let state = NodeState::new(true, None, false);
    let (creator, _) = InletCreator::start(req);
    let outcome = ConnectionResult {
        secure_channel: Addr::empty(),
        suffix: addr(&[(PROTO_SERVICE, "echo")]),
    };
    let (_creator, action) = creator.on_dial_ok(&state, outcome);
    match action {
        InletAction::Fail(m) => assert_eq!(m, "credential check requires project"),
        other => panic!("expected a failure, got {:?}", other),
    }
}

#[test]
fn test_list_snapshots() {
    // Registration happens out of alias order; listings sort on read.
    let mut state = open_state();
    for (alias, port) in [("two", "127.0.0.1:2"), ("one", "127.0.0.1:1")] {
        let req = CreateInlet {
            listen_addr: port.to_string(),
            outlet_addr: addr(&[(PROTO_SERVICE, "echo")]),
            alias: Some(alias.to_string()),
            authorized: None,
        };
        let (creator, _) = InletCreator::start(req);
        let outcome = ConnectionResult {
            secure_channel: Addr::empty(),
            suffix: addr(&[(PROTO_SERVICE, "echo")]),
        };
        let (creator, _) = creator.on_dial_ok(&state, outcome);
        let _ = creator.on_worker(&mut state, Ok("w".to_string()));
    }
    let req = CreateOutlet {
        tcp_addr: "127.0.0.1:3".to_string(),
        worker_addr: "ow".to_string(),
        alias: Some("three".to_string()),
    };
    let (creator, _) = OutletCreator::start(req, &state);
    let _ = creator.on_worker(&mut state, Err("refused".to_string()));

    let inlets = get_inlets(&state);
    assert_eq!(inlets.len(), 2);
    assert_eq!(inlets[0].alias, "one");
    assert_eq!(inlets[1].alias, "two");
    assert_eq!(inlets[1].bind_addr, "127.0.0.1:2");

    // The failed outlet is listed too: listing is independent of liveness.
    let outlets = get_outlets(&state);
    assert_eq!(outlets.len(), 1);
    assert_eq!(outlets[0].alias, "three");
    assert!(outlets[0].worker_addr.is_none());

    let (status, shown) = show_outlet(&state, "three");
    assert_eq!(status, Status::Okay);
    assert_eq!(shown.tcp_addr, "127.0.0.1:3");
}

#[test]
fn test_show_outlet_not_found() {
    let state = open_state();
    let (status, body) = show_outlet(&state, "nope");
    assert_eq!(status, Status::NotFound);
    assert_eq!(body.error.as_deref(), Some("Outlet with alias nope not found"));
}

#[test]
fn test_random_alias_is_eight_hex_digits() {
    for _ in 0..16 {
        let a = random_alias();
        assert_eq!(a.len(), 8);
        assert!(a.chars().all(|c| c.is_ascii_hexdigit()));
    }
}
