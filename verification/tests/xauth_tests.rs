use p2p_network::xauth::{check_credentials, credentials, AuthResult, AuthState, XAuthBehaviour, XAuthEvent, AUTH_TIMEOUT, PROTOCOL_ID};

fn pairs(v: &[(&str, &str)]) -> Vec<(String, String)> {
    v.iter().map(|(a, b)| (a.to_string(), b.to_string())).collect()
}

#[test]
fn credential_check() {
    assert!(matches!(check_credentials(&pairs(&[("hello", "world")])), AuthResult::Granted));
    assert!(matches!(check_credentials(&pairs(&[("x", "y"), ("hello", "world")])), AuthResult::Granted));
    match check_credentials(&pairs(&[("hello", "there")])) {
        AuthResult::Error(e) => assert_eq!(e, "Invalid authentication data"),
        _ => panic!("expected refusal"),
    }
    assert!(matches!(check_credentials(&pairs(&[])), AuthResult::Error(_)));
    assert!(matches!(check_credentials(&credentials()), AuthResult::Granted));
    assert_eq!(credentials(), pairs(&[("hello", "world")]));
    assert_eq!(PROTOCOL_ID, "/xauth/1.0.0");
    assert_eq!(AUTH_TIMEOUT, 15_000);
}

#[test]
fn request_on_tracked_connection_records_outcome() {
    let mut b = XAuthBehaviour::new();
    let r = b.handle_auth_request(b"p", &credentials());
    assert!(matches!(r, AuthResult::Granted));
    assert!(b.poll_event().is_none());
    b.track_connection(b"p", b"addr");
    assert!(matches!(b.handle_auth_request(b"p", &credentials()), AuthResult::Granted));
    match b.poll_event() {
        Some(XAuthEvent::Success { peer_id, address }) => {
            assert_eq!(peer_id, b"p".to_vec());
            assert_eq!(address, b"addr".to_vec());
        }
        _ => panic!("expected Success"),
    }
    b.handle_auth_response(b"p", AuthResult::Error("nope".to_string()));
    match b.poll_event() {
        Some(XAuthEvent::Failure { reason, .. }) => assert_eq!(reason, "nope"),
        _ => panic!("expected Failure"),
    }
}

#[test]
fn established_connection_starts_authentication_and_times_out() {
    let mut b = XAuthBehaviour::new();
    let sent = b.on_connection_established(b"p", b"a", 1_000);
    assert_eq!(sent, credentials());
    assert!(b.on_connection_handler_event(b"p", 2_000).is_none());
    b.check_timeouts(16_000);
    assert!(b.poll_event().is_none());
    b.check_timeouts(16_001);
    match b.poll_event() {
        Some(XAuthEvent::Timeout { peer_id, .. }) => assert_eq!(peer_id, b"p".to_vec()),
        _ => panic!("expected Timeout"),
    }
    b.check_timeouts(100_000);
    assert!(b.poll_event().is_none());
}

#[test]
fn handler_event_starts_a_fresh_connection_only() {
    let mut b = XAuthBehaviour::new();
    b.track_connection(b"p", b"a");
    assert_eq!(b.on_connection_handler_event(b"p", 5), Some(credentials()));
    assert!(b.on_connection_handler_event(b"p", 6).is_none());
    assert!(b.on_connection_handler_event(b"q", 6).is_none());
    assert_eq!(b.authenticate_peer(b"p", 7), Some(credentials()));
    assert!(b.authenticate_peer(b"zz", 7).is_none());
}

#[test]
fn failures_and_closing() {
    let mut b = XAuthBehaviour::new();
    b.track_connection(b"p", b"a");
    b.on_outbound_failure(b"p", "DialFailure");
    match b.poll_event() {
        Some(XAuthEvent::Failure { reason, .. }) => assert_eq!(reason, "Outbound request failed: DialFailure"),
        _ => panic!("expected Failure"),
    }
    b.on_inbound_failure(b"p");
    match b.poll_event() {
        Some(XAuthEvent::Failure { reason, .. }) => assert_eq!(reason, "Inbound request failed"),
        _ => panic!("expected Failure"),
    }
    b.on_connection_closed(b"p", 1);
    b.on_inbound_failure(b"p");
    assert!(b.poll_event().is_some());
    b.on_connection_closed(b"p", 0);
    b.on_inbound_failure(b"p");
    assert!(b.poll_event().is_none());
    let _ = AuthState::NotAuthenticated;
}

#[test]
fn each_expired_connection_is_announced_once() {
    let mut b = XAuthBehaviour::new();
    b.on_connection_established(b"p", b"a", 0);
    b.on_connection_established(b"q", b"b", 0);
    b.check_timeouts(20_000);
    let mut peers: Vec<Vec<u8>> = Vec::new();
    while let Some(e) = b.poll_event() {
        match e {
            XAuthEvent::Timeout { peer_id, .. } => peers.push(peer_id),
            _ => panic!("expected Timeout"),
        }
    }
    assert_eq!(peers, vec![b"p".to_vec(), b"q".to_vec()]);
    b.check_timeouts(40_000);
    assert!(b.poll_event().is_none());
}
