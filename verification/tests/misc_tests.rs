use p2p_network::connect::{encode_address, parse_address, AddrComponent, BootstrapConnect, ConnectRetry, RetryStep, CONNECT_FAILED};
use p2p_network::processor::{ConnectionProcessor, CustomProcessor, EchoProcessor};
use p2p_network::search::{timed_out_message, PeerSearch, DEFAULT_MAX_ATTEMPTS, RETRY_INTERVAL_MS};

#[test]
fn processor_names() {
    assert_eq!(EchoProcessor.name(), "EchoProcessor");
    let p = CustomProcessor::new("МойПроцессор");
    assert_eq!(p.name(), "МойПроцессор");
}

#[test]
fn search_attempts_follow_timeout() {
    let s = PeerSearch::new(Some(2));
    let mut n = 0;
    let mut s2 = PeerSearch::new(Some(2));
    while s2.attempts_left() {
        assert!(s2.record_attempt(vec![]).is_none());
        n += 1;
    }
    assert_eq!(n, 20);
    assert!(s.attempts_left());
    assert_eq!(s2.exhausted_message(), "Failed to find peer addresses via Kademlia after 20 attempts");
    assert_eq!(RETRY_INTERVAL_MS, 100);
    let mut d = PeerSearch::new(None);
    assert_eq!(d.exhausted_message(), format!("Failed to find peer addresses via Kademlia after {} attempts", DEFAULT_MAX_ATTEMPTS));
    assert_eq!(d.record_attempt(vec![b"a".to_vec()]), Some(vec![b"a".to_vec()]));
    assert!(!PeerSearch::new(Some(0)).attempts_left());
    assert_eq!(timed_out_message(5), "Peer search timed out after 5 seconds");
}

#[test]
fn peer_and_base_from_components() {
    let comps = vec![
        AddrComponent { encoded: vec![4, 1, 2, 3, 4], peer_id: None },
        AddrComponent { encoded: vec![0xa5, 3, 9], peer_id: Some(vec![9]) },
    ];
    let (peer, base) = BootstrapConnect::peer_and_base_address(&comps).unwrap();
    assert_eq!(peer, vec![9]);
    assert_eq!(base, vec![4, 1, 2, 3, 4]);
    let middle = vec![
        AddrComponent { encoded: vec![1], peer_id: Some(vec![7]) },
        AddrComponent { encoded: vec![2], peer_id: None },
    ];
    let (peer, base) = BootstrapConnect::peer_and_base_address(&middle).unwrap();
    assert_eq!(peer, vec![7]);
    assert_eq!(base, vec![1, 2]);
    let none = vec![AddrComponent { encoded: vec![1], peer_id: None }];
    assert_eq!(
        BootstrapConnect::peer_and_base_address(&none).unwrap_err(),
        "No PeerId (p2p component) found in multiaddress"
    );
}

#[test]
fn bootstrap_address_text() {
    let peer = libp2p::PeerId::random();
    let text = format!("/ip4/127.0.0.1/udp/4001/quic-v1/p2p/{}", peer);
    let (p, base) = BootstrapConnect::extract_peer_id_from_multiaddr(&text).unwrap();
    assert_eq!(p, peer.to_bytes());
    let expected: libp2p::Multiaddr = "/ip4/127.0.0.1/udp/4001/quic-v1".parse().unwrap();
    assert_eq!(base, expected.to_vec());
    let err = BootstrapConnect::extract_peer_id_from_multiaddr("/ip4/127.0.0.1/udp/4001").unwrap_err();
    assert_eq!(err, "No PeerId (p2p component) found in multiaddress");
    let err = BootstrapConnect::extract_peer_id_from_multiaddr("nonsense").unwrap_err();
    assert!(err.starts_with("Invalid multiaddress 'nonsense': "));
}

#[test]
fn bootstrap_retries_pause_between_attempts_only() {
    assert!(BootstrapConnect::retry_after(0, 3));
    assert!(BootstrapConnect::retry_after(1, 3));
    assert!(!BootstrapConnect::retry_after(2, 3));
    assert!(!BootstrapConnect::retry_after(0, 1));
    assert_eq!(CONNECT_FAILED, "Failed to connect to bootstrap server");
}

struct Unnamed;

impl ConnectionProcessor for Unnamed {}

#[test]
fn processor_without_a_name_is_the_default() {
    assert_eq!(Unnamed.name(), "DefaultProcessor");
}

#[test]
fn addresses_parse_into_their_binary_form() {
    let text = "/ip4/127.0.0.1/udp/4001/quic-v1";
    let comps = parse_address(text).unwrap();
    assert_eq!(comps.len(), 3);
    let expected: libp2p::Multiaddr = text.parse().unwrap();
    assert_eq!(encode_address(&comps), expected.to_vec());
    let err = match parse_address("nonsense") {
        Err(e) => e,
        Ok(_) => panic!("expected a parse error"),
    };
    assert_eq!(err, "nonsense".parse::<libp2p::Multiaddr>().unwrap_err().to_string());
}

fn finished(step: RetryStep) -> Option<Result<(), String>> {
    match step {
        RetryStep::Finish(r) => Some(r),
        _ => None,
    }
}

#[test]
fn bootstrap_retries_end_with_success_or_the_last_error() {
    assert_eq!(finished(ConnectRetry::new(0).first_step()), Some(Err(CONNECT_FAILED.to_string())));

    let mut r = ConnectRetry::new(3);
    assert!(matches!(r.first_step(), RetryStep::Attempt));
    assert!(matches!(r.record(Err("one".to_string())), RetryStep::PauseThenAttempt));
    assert_eq!(finished(r.record(Ok(()))), Some(Ok(())));

    let mut r = ConnectRetry::new(2);
    assert!(matches!(r.record(Err("one".to_string())), RetryStep::PauseThenAttempt));
    assert_eq!(finished(r.record(Err("two".to_string()))), Some(Err("two".to_string())));
}
