use portal_core::addr::{
    local_multiaddr_to_route, try_multiaddr_to_addr, without_outlet_address, Addr, Segment,
    PROTO_IP4, PROTO_SECURE, PROTO_SERVICE, PROTO_WORKER,
};
use portal_core::api::{decode_request, Id, Method, Request, Response, Segments, Status};
use portal_core::space::{DeleteCommand, SpaceAction, SpaceEvent, SpacePhase};
use portal_core::text::{hex8, join};

fn addr(segs: &[(u64, &str)]) -> Addr {
    let mut a = Addr::empty();
    for (code, data) in segs {
        a.push(Segment::new(*code, data));
    }
    a
}

#[test]
fn test_space_delete_flow_success() {
    let cmd = DeleteCommand { name: "staging".to_string() };
    let (phase, action) = cmd.run();
    match &action {
        SpaceAction::RemoveConfigEntry(n) => assert_eq!(n, "staging"),
        other => panic!("expected a config removal, got {:?}", other),
    }
    let (phase, action) = cmd.step(phase, SpaceEvent::ConfigRemoved);
    match &action {
        SpaceAction::LookupSpace(n) => assert_eq!(n, "staging"),
        other => panic!("expected a lookup, got {:?}", other),
    }
    let (phase, action) = cmd.step(phase, SpaceEvent::LookupOk("sid_7".to_string()));
    let (header, bytes) = match action {
        SpaceAction::SendRequest { header, bytes } => (header, bytes),
        other => panic!("expected a request, got {:?}", other),
    };
    assert_eq!(header.method, Some(Method::Delete));
    assert_eq!(header.path, "/v0/spaces/sid_7");
    let (decoded, _) = decode_request(bytes.as_slice(), 0).expect("request must decode");
    assert_eq!(decoded.method, Some(Method::Delete));
    assert_eq!(decoded.path, "/v0/spaces/sid_7");

    let reply = Response::ok(header.id).to_vec();
    let (phase, action) = cmd.step(phase, SpaceEvent::ReplyReceived(reply));
    assert!(matches!(action, SpaceAction::RemoveConfigEntry(_)));
    let (phase, action) = cmd.step(phase, SpaceEvent::ConfigRemoved);
    assert!(matches!(phase, SpacePhase::Done));
    assert!(matches!(action, SpaceAction::Finish(Ok(()))));
}

#[test]
fn test_space_delete_missing_space_is_fine() {
    let cmd = DeleteCommand { name: "ghost".to_string() };
    let (phase, _) = cmd.run();
    let (phase, _) = cmd.step(phase, SpaceEvent::ConfigRemoved);
    let (phase, action) = cmd.step(phase, SpaceEvent::LookupFailed);
    assert!(matches!(phase, SpacePhase::Done));
    assert!(matches!(action, SpaceAction::Finish(Ok(()))));
}

#[test]
fn test_space_delete_error_reply_surfaces_message() {
    let cmd = DeleteCommand { name: "busy".to_string() };
    let (phase, _) = cmd.run();
    let (phase, _) = cmd.step(phase, SpaceEvent::ConfigRemoved);
    let (phase, action) = cmd.step(phase, SpaceEvent::LookupOk("sid_9".to_string()));
    let header = match action {
        SpaceAction::SendRequest { header, .. } => header,
        other => panic!("expected a request, got {:?}", other),
    };
    let body = portal_core::api::Error::new("/v0/spaces/sid_9").with_message("space is busy");
    let reply = Response::bad_request(header.id).body(body).to_vec();
    let (phase, action) = cmd.step(phase, SpaceEvent::ReplyReceived(reply));
    assert!(matches!(phase, SpacePhase::Done));
    match action {
        SpaceAction::Finish(Err(m)) => assert_eq!(m, "space is busy"),
        other => panic!("expected a failure, got {:?}", other),
    }
}

#[test]
fn test_join_and_hex() {
    let parts = vec!["a".to_string(), "b".to_string(), "c".to_string()];
    assert_eq!(join(&parts, " => "), "a => b => c");
    assert_eq!(join(&vec!["solo".to_string()], " => "), "solo");
    assert_eq!(join(&Vec::new(), " => "), "");
    assert_eq!(hex8(0x1a2b3c4d), "1a2b3c4d");
    assert_eq!(hex8(0), "00000000");
    assert_eq!(hex8(u32::MAX), "ffffffff");
}

#[test]
fn test_addr_operations() {
    let a = addr(&[(PROTO_SERVICE, "x"), (PROTO_SECURE, "y"), (PROTO_WORKER, "z")]);
    assert_eq!(a.len(), 3);
    assert!(!a.is_empty());
    assert_eq!(a.first().unwrap().data, "x");
    assert_eq!(a.last().unwrap().data, "z");
    let head = a.first_n(2);
    assert_eq!(head.len(), 2);
    assert_eq!(head.at(1).data, "y");
    let tail = a.skip_n(2);
    assert_eq!(tail.len(), 1);
    assert_eq!(tail.at(0).data, "z");
    let joined = head.concat(&tail);
    assert_eq!(joined.len(), 3);
    assert_eq!(joined.at(2).data, "z");
    assert!(a.matches(0, &[PROTO_SERVICE, PROTO_SECURE]));
    assert!(a.matches(1, &[PROTO_SECURE, PROTO_WORKER]));
    assert!(!a.matches(0, &[PROTO_SECURE]));
    assert!(!a.matches(2, &[PROTO_WORKER, PROTO_WORKER]));
}

#[test]
fn test_local_route_derivation() {
    let local = addr(&[(PROTO_SERVICE, "a"), (PROTO_WORKER, "b")]);
    let route = local_multiaddr_to_route(&local).expect("all segments are local");
    assert_eq!(route, vec!["a".to_string(), "b".to_string()]);
    let remote = addr(&[(PROTO_SERVICE, "a"), (PROTO_IP4, "10.0.0.1")]);
    assert!(local_multiaddr_to_route(&remote).is_none());
}

#[test]
fn test_single_local_segment_translation() {
    let one = addr(&[(PROTO_SECURE, "chan")]);
    assert_eq!(try_multiaddr_to_addr(&one).as_deref(), Some("chan"));
    let two = addr(&[(PROTO_SECURE, "chan"), (PROTO_SERVICE, "svc")]);
    assert!(try_multiaddr_to_addr(&two).is_none());
    let remote = addr(&[(PROTO_IP4, "10.0.0.1")]);
    assert!(try_multiaddr_to_addr(&remote).is_none());
}

#[test]
fn test_outlet_marker_stripping() {
    let with_marker = addr(&[(PROTO_SECURE, "chan"), (PROTO_SERVICE, "outlet")]);
    let stripped = without_outlet_address(with_marker);
    assert_eq!(stripped.len(), 1);
    assert_eq!(stripped.at(0).data, "chan");
    let plain = addr(&[(PROTO_SECURE, "chan"), (PROTO_SERVICE, "echo")]);
    let kept = without_outlet_address(plain);
    assert_eq!(kept.len(), 2);
    let other_code = addr(&[(PROTO_WORKER, "outlet")]);
    let kept = without_outlet_address(other_code);
    assert_eq!(kept.len(), 1);
}

#[test]
fn test_status_of_unknown_code_is_none() {
    assert_eq!(Status::of_code(502), None);
    assert_eq!(Status::of_code(0), None);
}

#[test]
fn test_path_segments_split() {
    let s = Segments::parse("/node/inlet/web", 4);
    assert_eq!(
        s.as_slice(),
        ["node".to_string(), "inlet".to_string(), "web".to_string()]
    );
    let s = Segments::parse("a/b/c", 2);
    assert_eq!(s.as_slice(), ["a".to_string(), "b/c".to_string()]);
    let s = Segments::parse("///x", 3);
    assert_eq!(s.as_slice(), ["x".to_string()]);
    let s = Segments::parse("", 2);
    assert_eq!(s.as_slice(), ["".to_string()]);
    let s = Segments::parse("/a//b", 5);
    assert_eq!(
        s.as_slice(),
        ["a".to_string(), "".to_string(), "b".to_string()]
    );
    let req = Request {
        id: Id(1),
        path: "/node/inlet/web".to_string(),
        method: Some(Method::Get),
        has_body: false,
    };
    let s = req.path_segments(3);
    assert_eq!(
        s.as_slice(),
        ["node".to_string(), "inlet".to_string(), "web".to_string()]
    );
}
