use p2p_network::por::ProofOfRepresentation;
use p2p_network::por_auth::{
    AuthDirection, AuthResult, CombinedAuthState, ConnectionData, DirectionalAuthState, ExchangeEvent,
    por_verdict, PollOutcome, PorAuthBehaviour, PorAuthEvent, PorAuthRequest, PorAuthResponse, AUTH_TIMEOUT,
    PROTOCOL_ID, VERIFICATION_TIMEOUT,
};

fn por() -> ProofOfRepresentation {
    ProofOfRepresentation {
        owner_public_key: vec![1, 2, 3],
        peer_id: "node".to_string(),
        issued_at: 10,
        expires_at: 20,
        signature: vec![4, 5],
    }
}

fn meta(k: &str, v: &str) -> Vec<(String, String)> {
    vec![(k.to_string(), v.to_string())]
}

fn next_event(b: &mut PorAuthBehaviour) -> PorAuthEvent {
    match b.poll(None, 0) {
        PollOutcome::Event(e) => e,
        _ => panic!("expected an event"),
    }
}

fn request_from_peer() -> PorAuthRequest {
    PorAuthRequest { por: por(), metadata: meta("role", "peer") }
}

#[test]
fn constants() {
    assert_eq!(PROTOCOL_ID, "/por-auth/1.0.0");
    assert_eq!(AUTH_TIMEOUT, 5_000);
    assert_eq!(VERIFICATION_TIMEOUT, 30_000);
}

#[test]
fn combined_states() {
    let mut c = ConnectionData::new(b"p", 1, b"a", 0);
    assert!(matches!(c.get_combined_state(), CombinedAuthState::NotAuthenticated));
    assert!(c.is_outbound_not_started());
    c.set_inbound_auth_success();
    assert!(matches!(c.get_combined_state(), CombinedAuthState::InboundOnly));
    c.set_outbound_auth_success(meta("k", "v"));
    match c.get_combined_state() {
        CombinedAuthState::FullyAuthenticated(m) => assert_eq!(m, meta("k", "v")),
        _ => panic!("expected full authentication"),
    }
    assert!(c.is_fully_authenticated());
    assert_eq!(c.get_metadata(), Some(meta("k", "v")));
    c.set_inbound_auth_failed("no".to_string());
    match c.get_combined_state() {
        CombinedAuthState::Failed(r) => assert_eq!(r, "no"),
        _ => panic!("expected failure"),
    }
    assert_eq!(c.get_metadata(), None);
    let mut d = ConnectionData::new(b"p", 2, b"a", 0);
    d.set_outbound_auth_success(meta("x", "y"));
    assert!(matches!(d.get_combined_state(), CombinedAuthState::OutboundOnly(_)));
    d.set_outbound_auth_failed("out".to_string());
    d.set_inbound_auth_failed("in".to_string());
    match d.get_combined_state() {
        CombinedAuthState::Failed(r) => assert_eq!(r, "out"),
        _ => panic!("expected failure"),
    }
}

#[test]
fn direction_timeouts() {
    let mut c = ConnectionData::new(b"p", 1, b"a", 0);
    assert_eq!(c.check_timeout(100_000, 5_000), None);
    c.start_outbound_auth(1_000);
    assert_eq!(c.check_timeout(6_000, 5_000), None);
    assert_eq!(c.check_timeout(6_001, 5_000), Some(AuthDirection::Outbound));
    c.start_inbound_auth(2_000);
    assert_eq!(c.check_timeout(7_001, 5_000), Some(AuthDirection::Both));
    c.set_outbound_auth_failed("x".to_string());
    assert_eq!(c.check_timeout(7_001, 5_000), Some(AuthDirection::Inbound));
    c.touch(9);
    assert_eq!(c.last_activity, 9);
    assert!(matches!(c.inbound_auth, DirectionalAuthState::InProgress { started: 2_000 }));
}

#[test]
fn mutual_authentication_round() {
    let mut b = PorAuthBehaviour::with_metadata(por(), meta("role", "me"));
    b.on_connection_established(b"peer", 1, b"/ip4/1.2.3.4", 0);
    let out = b.start_authentication(1, 10).unwrap();
    assert_eq!(out.peer_id, b"peer".to_vec());
    assert_eq!(out.request.por.peer_id, "node");
    assert_eq!(out.request.metadata, meta("role", "me"));

    let r = b.poll(
        Some(ExchangeEvent::Request { peer_id: b"peer".to_vec(), connection_id: 1, request: request_from_peer() }),
        20,
    );
    assert!(matches!(r, PollOutcome::Pending));
    assert!(b.has_pending_verification(1));
    match b.get_pending_verification(b"peer") {
        Some((cid, v)) => {
            assert_eq!(cid, 1);
            assert_eq!(v.received_at, 20);
            assert_eq!(v.address, b"/ip4/1.2.3.4".to_vec());
        }
        None => panic!("expected a pending verification"),
    }
    match next_event(&mut b) {
        PorAuthEvent::VerifyPorRequest { peer_id, connection_id, metadata, .. } => {
            assert_eq!(peer_id, b"peer".to_vec());
            assert_eq!(connection_id, 1);
            assert_eq!(metadata, meta("role", "peer"));
        }
        _ => panic!("expected VerifyPorRequest"),
    }

    let sent = b.submit_por_verification_result(1, AuthResult::Granted(meta("ok", "1")), Ok(()), 30).unwrap();
    assert!(sent.is_none());
    assert!(!b.has_pending_verification(1));
    assert!(matches!(next_event(&mut b), PorAuthEvent::InboundAuthSuccess { connection_id: 1, .. }));
    assert!(!b.is_peer_authenticated(b"peer"));

    let response = PorAuthResponse { result: AuthResult::Granted(meta("peer", "meta")) };
    b.poll(Some(ExchangeEvent::Response { peer_id: b"peer".to_vec(), connection_id: 1, response }), 40);
    assert!(matches!(next_event(&mut b), PorAuthEvent::OutboundAuthSuccess { .. }));
    match next_event(&mut b) {
        PorAuthEvent::MutualAuthSuccess { metadata, address, .. } => {
            assert_eq!(metadata, meta("peer", "meta"));
            assert_eq!(address, b"/ip4/1.2.3.4".to_vec());
        }
        _ => panic!("expected MutualAuthSuccess"),
    }
    assert!(matches!(b.poll(None, 50), PollOutcome::Pending));
    assert!(b.is_peer_authenticated(b"peer"));
    assert_eq!(b.get_peer_metadata(b"peer"), Some(meta("peer", "meta")));

    b.on_connection_closed(1);
    assert!(!b.is_peer_authenticated(b"peer"));
    assert_eq!(b.get_peer_metadata(b"peer"), None);
}

#[test]
fn accepting_first_starts_own_authentication() {
    let mut b = PorAuthBehaviour::new(por());
    b.on_connection_established(b"peer", 3, b"a", 0);
    b.poll(Some(ExchangeEvent::Request { peer_id: b"peer".to_vec(), connection_id: 3, request: request_from_peer() }), 1);
    let out = b.submit_por_verification_result(3, AuthResult::Granted(vec![]), Ok(()), 2).unwrap();
    let req = out.expect("own authentication starts");
    assert_eq!(req.peer_id, b"peer".to_vec());
    assert!(req.request.metadata.is_empty());
}

#[test]
fn refusal_is_announced() {
    let mut b = PorAuthBehaviour::new(por());
    b.on_connection_established(b"peer", 4, b"a", 0);
    b.poll(Some(ExchangeEvent::Request { peer_id: b"peer".to_vec(), connection_id: 4, request: request_from_peer() }), 1);
    next_event(&mut b);
    let out = b.submit_por_verification_result(4, AuthResult::Error("bad por".to_string()), Ok(()), 2).unwrap();
    assert!(out.is_none());
    match next_event(&mut b) {
        PorAuthEvent::OutboundAuthFailure { reason, .. } => assert_eq!(reason, "bad por"),
        _ => panic!("expected OutboundAuthFailure"),
    }
}

#[test]
fn submission_errors() {
    let mut b = PorAuthBehaviour::new(por());
    assert_eq!(
        b.submit_por_verification_result(7, AuthResult::Granted(vec![]), Ok(()), 0).unwrap_err(),
        "No pending verification for connection ID ConnectionId(7)"
    );
    b.on_connection_established(b"peer", 8, b"a", 0);
    b.poll(Some(ExchangeEvent::Request { peer_id: b"peer".to_vec(), connection_id: 8, request: request_from_peer() }), 1);
    assert_eq!(
        b.submit_por_verification_result(8, AuthResult::Granted(vec![]), Err("boom".to_string()), 2).unwrap_err(),
        "Failed to send auth response: boom"
    );
    assert!(!b.has_pending_verification(8));
    assert_eq!(
        b.start_authentication(99, 0).unwrap_err(),
        "No connection data for connection ID ConnectionId(99)"
    );
}

#[test]
fn request_on_unknown_connection_is_dropped() {
    let mut b = PorAuthBehaviour::new(por());
    b.poll(Some(ExchangeEvent::Request { peer_id: b"peer".to_vec(), connection_id: 5, request: request_from_peer() }), 1);
    assert!(!b.has_pending_verification(5));
    assert!(matches!(b.poll(None, 2), PollOutcome::Pending));
    assert!(matches!(b.poll(Some(ExchangeEvent::HandlerInstruction), 3), PollOutcome::PassOn));
    assert!(matches!(b.poll(Some(ExchangeEvent::Other), 3), PollOutcome::Pending));
}

#[test]
fn exchange_failures() {
    let mut b = PorAuthBehaviour::new(por());
    b.on_connection_established(b"peer", 1, b"a", 0);
    b.poll(Some(ExchangeEvent::OutboundFailure { peer_id: b"peer".to_vec(), connection_id: 1, error: "Timeout".to_string() }), 1);
    match next_event(&mut b) {
        PorAuthEvent::InboundAuthFailure { reason, .. } => assert_eq!(reason, "Outbound request failed: Timeout"),
        _ => panic!("expected InboundAuthFailure"),
    }
    b.poll(Some(ExchangeEvent::InboundFailure { peer_id: b"peer".to_vec(), connection_id: 1, error: "Io".to_string() }), 1);
    match next_event(&mut b) {
        PorAuthEvent::OutboundAuthFailure { reason, .. } => assert_eq!(reason, "Inbound request failed: Io"),
        _ => panic!("expected OutboundAuthFailure"),
    }
}

#[test]
fn authentication_timeouts() {
    let mut b = PorAuthBehaviour::new(por());
    b.on_connection_established(b"peer", 1, b"a", 0);
    b.start_authentication(1, 0).unwrap();
    assert!(b.check_timeouts(5_000).is_empty());
    assert!(matches!(b.poll(None, 5_000), PollOutcome::Pending));
    b.check_timeouts(5_001);
    match next_event(&mut b) {
        PorAuthEvent::AuthTimeout { direction, connection_id, .. } => {
            assert_eq!(direction, AuthDirection::Both);
            assert_eq!(connection_id, 1);
        }
        _ => panic!("expected AuthTimeout"),
    }
    b.check_timeouts(100_000);
    assert!(matches!(b.poll(None, 100_000), PollOutcome::Pending));
}

#[test]
fn inbound_only_timeout() {
    let mut b = PorAuthBehaviour::new(por());
    b.on_connection_established(b"peer", 1, b"a", 0);
    b.start_authentication(1, 0).unwrap();
    let response = PorAuthResponse { result: AuthResult::Granted(vec![]) };
    b.poll(Some(ExchangeEvent::Response { peer_id: b"peer".to_vec(), connection_id: 1, response }), 100);
    next_event(&mut b);
    b.check_timeouts(6_000);
    match next_event(&mut b) {
        PorAuthEvent::AuthTimeout { direction, .. } => assert_eq!(direction, AuthDirection::Inbound),
        _ => panic!("expected AuthTimeout"),
    }
}

#[test]
fn verification_timeout_answers_the_peer() {
    let mut b = PorAuthBehaviour::new(por());
    b.on_connection_established(b"peer", 2, b"a", 0);
    b.poll(Some(ExchangeEvent::Request { peer_id: b"peer".to_vec(), connection_id: 2, request: request_from_peer() }), 0);
    assert!(b.check_timeouts(30_000).is_empty());
    let answers = b.check_timeouts(30_001);
    assert_eq!(answers.len(), 1);
    assert_eq!(answers[0].connection_id, 2);
    match &answers[0].response.result {
        AuthResult::Error(e) => assert_eq!(e, "Verification timed out"),
        _ => panic!("expected an error answer"),
    }
    assert!(!b.has_pending_verification(2));
}

#[test]
fn peer_with_two_connections() {
    let mut b = PorAuthBehaviour::new(por());
    b.on_connection_established(b"peer", 1, b"a", 0);
    b.on_connection_established(b"peer", 2, b"b", 0);
    b.on_connection_closed(1);
    b.poll(Some(ExchangeEvent::Request { peer_id: b"peer".to_vec(), connection_id: 2, request: request_from_peer() }), 1);
    assert!(b.has_pending_verification(2));
    b.on_connection_closed(2);
    assert!(!b.has_pending_verification(2));
    b.update_por(por());
    b.update_metadata(meta("a", "b"));
    b.on_connection_established(b"peer", 3, b"c", 0);
    let out = b.start_authentication(3, 0).unwrap();
    assert_eq!(out.request.metadata, meta("a", "b"));
}

fn refusal(r: AuthResult) -> String {
    match r {
        AuthResult::Error(e) => e,
        AuthResult::Granted(_) => panic!("expected a refusal"),
    }
}

#[test]
fn verdict_on_proofs() {
    assert_eq!(refusal(por_verdict(&por(), 30, false)), "PoR validation failed: Expired");
    assert_eq!(refusal(por_verdict(&por(), 5, false)), "PoR validation failed: Not yet valid");
    assert_eq!(refusal(por_verdict(&por(), 15, false)), "PoR validation failed: Invalid signature");
    match por_verdict(&por(), 30, true) {
        AuthResult::Granted(m) => assert!(m.is_empty()),
        AuthResult::Error(e) => panic!("unexpected refusal {e}"),
    }
}

#[test]
fn verdict_grants_a_valid_proof() {
    let kp = p2p_network::por::PorUtils::generate_owner_keypair().unwrap();
    let p = ProofOfRepresentation::create(&kp, "node".to_string(), 100, 50).unwrap();
    match por_verdict(&p, 120, false) {
        AuthResult::Granted(m) => assert!(m.is_empty()),
        AuthResult::Error(e) => panic!("unexpected refusal {e}"),
    }
}
