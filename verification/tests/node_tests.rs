use p2p_network::bootstrap::{BootstrapEvent, BootstrapServerConfig};
use p2p_network::node_state::{
    kad_known_peers, listen_address, peer_addresses_in, BehaviourReport, BootstrapCommand, CommandOutcome,
    NetworkEvent, NodeCommand, NodeState, SwarmReport,
};
use p2p_network::por_auth::PorAuthEvent;

fn node(with_server: bool) -> NodeState {
    let cfg = if with_server { Some(BootstrapServerConfig::default()) } else { None };
    NodeState::new(b"me".to_vec(), cfg, 0)
}

#[test]
fn connections_are_tracked_by_swarm_reports() {
    let mut n = node(false);
    let events = n.handle_swarm_event(SwarmReport::ConnectionEstablished {
        peer_id: b"p".to_vec(),
        addr: b"a1".to_vec(),
        connection_id: 1,
        num_established: 1,
    });
    assert_eq!(events.len(), 2);
    assert!(matches!(events[0], NetworkEvent::ConnectionOpened { connection_id: 1, .. }));
    assert!(matches!(events[1], NetworkEvent::PeerConnected { .. }));
    let events = n.handle_swarm_event(SwarmReport::ConnectionEstablished {
        peer_id: b"p".to_vec(),
        addr: b"a2".to_vec(),
        connection_id: 2,
        num_established: 2,
    });
    assert_eq!(events.len(), 1);
    assert_eq!(n.connections_for_peer(b"p"), vec![b"a1".to_vec(), b"a2".to_vec()]);
    let events = n.handle_swarm_event(SwarmReport::ConnectionClosed {
        peer_id: b"p".to_vec(),
        addr: b"a1".to_vec(),
        connection_id: 1,
        num_established: 1,
    });
    assert_eq!(events.len(), 1);
    assert_eq!(n.connections_for_peer(b"p"), vec![b"a2".to_vec()]);
    let events = n.handle_swarm_event(SwarmReport::ConnectionClosed {
        peer_id: b"p".to_vec(),
        addr: b"a2".to_vec(),
        connection_id: 2,
        num_established: 0,
    });
    assert!(matches!(events[1], NetworkEvent::PeerDisconnected { .. }));
    assert!(!n.is_connected(b"p"));
}

#[test]
fn other_swarm_reports() {
    let mut n = node(false);
    let e = n.handle_swarm_event(SwarmReport::NewListenAddr { addr: b"l".to_vec() });
    assert!(matches!(&e[0], NetworkEvent::ListeningOnAddress { full_addr: None, .. }));
    let e = n.handle_swarm_event(SwarmReport::ExpiredListenAddr { addr: b"l".to_vec() });
    assert!(matches!(&e[0], NetworkEvent::StopListeningOnAddress { .. }));
    let e = n.handle_swarm_event(SwarmReport::IncomingConnectionError { error: "x".to_string() });
    assert!(matches!(&e[0], NetworkEvent::ConnectionError { peer_id: None, .. }));
    let e = n.handle_swarm_event(SwarmReport::OutgoingConnectionError { peer_id: Some(b"q".to_vec()), error: "y".to_string() });
    match &e[0] {
        NetworkEvent::ConnectionError { peer_id, error } => {
            assert_eq!(peer_id, &Some(b"q".to_vec()));
            assert_eq!(error, "y");
        }
        _ => panic!("expected ConnectionError"),
    }
    assert!(n.handle_swarm_event(SwarmReport::Other).is_empty());
}

#[test]
fn mdns_discoveries_follow_the_switch() {
    let mut n = node(false);
    let found = vec![(b"p".to_vec(), b"a".to_vec()), (b"q".to_vec(), b"b".to_vec())];
    let step = n.handle_behaviour_event(BehaviourReport::MdnsDiscovered { peers: found.clone() });
    assert_eq!(step.kad_additions, found);
    assert_eq!(step.events.len(), 2);
    assert!(matches!(n.handle_command(NodeCommand::DisableMdns, 0), CommandOutcome::Nothing));
    let step = n.handle_behaviour_event(BehaviourReport::MdnsDiscovered { peers: found.clone() });
    assert!(step.kad_additions.is_empty() && step.events.is_empty());
    n.handle_command(NodeCommand::EnableMdns, 0);
    assert_eq!(n.mdns_discovered(found.clone()), found);
}

#[test]
fn identify_and_routing_updates() {
    let mut n = node(true);
    let step = n.handle_behaviour_event(BehaviourReport::IdentifyReceived {
        peer_id: b"p".to_vec(),
        listen_addrs: vec![b"x".to_vec(), b"y".to_vec()],
    });
    assert_eq!(step.kad_additions, vec![(b"p".to_vec(), b"x".to_vec()), (b"p".to_vec(), b"y".to_vec())]);
    let step = n.handle_behaviour_event(BehaviourReport::KadRoutingUpdated {
        peer_id: b"p".to_vec(),
        addresses: vec![b"x".to_vec()],
    });
    assert!(step.bootstrap_events.is_empty());
    assert!(matches!(step.events[0], NetworkEvent::KadRoutingUpdated { .. }));
    n.activate_bootstrap_server().unwrap();
    let step = n.handle_behaviour_event(BehaviourReport::KadRoutingUpdated {
        peer_id: b"p".to_vec(),
        addresses: vec![b"x".to_vec()],
    });
    assert_eq!(step.bootstrap_events.len(), 2);
}

#[test]
fn mutual_authentication_is_remembered() {
    let mut n = node(false);
    let ev = PorAuthEvent::MutualAuthSuccess {
        peer_id: b"p".to_vec(),
        connection_id: 1,
        address: b"a".to_vec(),
        metadata: vec![],
    };
    let step = n.handle_behaviour_event(BehaviourReport::PorAuth { event: ev });
    assert!(matches!(step.events[0], NetworkEvent::AuthEvent { .. }));
    assert!(n.is_peer_authenticated(b"p"));
    let ev = PorAuthEvent::InboundAuthSuccess { peer_id: b"q".to_vec(), connection_id: 2, address: vec![] };
    n.handle_behaviour_event(BehaviourReport::PorAuth { event: ev });
    assert!(!n.is_peer_authenticated(b"q"));
    match n.handle_command(NodeCommand::IsPeerAuthenticated { peer_id: b"q".to_vec(), by_authentication: true }, 0) {
        CommandOutcome::Authenticated(b) => assert!(b),
        _ => panic!("expected an answer"),
    }
    assert!(n.answer_is_authenticated(b"p", false));
    assert!(!n.answer_is_authenticated(b"q", false));
}

#[test]
fn listening_and_dialling() {
    assert_eq!(listen_address(4001), "/ip4/0.0.0.0/udp/4001/quic-v1");
    let mut n = node(false);
    match n.handle_command(NodeCommand::OpenListenPort { port: 0 }, 0) {
        CommandOutcome::Listen { addr } => assert_eq!(addr, "/ip4/0.0.0.0/udp/0/quic-v1"),
        _ => panic!("expected Listen"),
    }
    assert!(matches!(n.handle_command(NodeCommand::Connect { addr: b"x".to_vec() }, 0), CommandOutcome::Dial { .. }));
    assert!(matches!(n.handle_command(NodeCommand::Disconnect { peer_id: b"p".to_vec() }, 0), CommandOutcome::NotConnected { .. }));
    n.handle_swarm_event(SwarmReport::ConnectionEstablished { peer_id: b"p".to_vec(), addr: b"a".to_vec(), connection_id: 1, num_established: 1 });
    assert!(matches!(n.handle_command(NodeCommand::Disconnect { peer_id: b"p".to_vec() }, 0), CommandOutcome::Disconnect { .. }));
    n.on_disconnected(b"p");
    assert!(!n.is_connected(b"p"));
    assert!(matches!(n.handle_command(NodeCommand::Shutdown, 0), CommandOutcome::Nothing));
}

#[test]
fn routing_table_queries() {
    let buckets = vec![
        vec![(b"a".to_vec(), vec![]), (b"b".to_vec(), vec![b"b1".to_vec()])],
        vec![(b"c".to_vec(), vec![b"c1".to_vec(), b"c2".to_vec()])],
    ];
    assert_eq!(
        kad_known_peers(&buckets),
        vec![(b"b".to_vec(), vec![b"b1".to_vec()]), (b"c".to_vec(), vec![b"c1".to_vec(), b"c2".to_vec()])]
    );
    assert_eq!(peer_addresses_in(&buckets, b"c"), vec![b"c1".to_vec(), b"c2".to_vec()]);
    assert!(peer_addresses_in(&buckets, b"a").is_empty());
    assert!(peer_addresses_in(&buckets, b"z").is_empty());
    let mut n = node(false);
    match n.handle_command(NodeCommand::GetPeerAddresses { peer_id: b"b".to_vec(), buckets }, 0) {
        CommandOutcome::Addresses(a) => assert_eq!(a, vec![b"b1".to_vec()]),
        _ => panic!("expected addresses"),
    }
}

#[test]
fn bootstrap_commands_without_server() {
    let mut n = node(false);
    for cmd in [BootstrapCommand::Activate, BootstrapCommand::Deactivate, BootstrapCommand::RemoveNode { peer_id: vec![] }] {
        match n.handle_command(NodeCommand::Bootstrap { command: cmd }, 0) {
            CommandOutcome::BootstrapDone { result, event } => {
                assert_eq!(result, Err("Bootstrap server not available".to_string()));
                assert!(event.is_none());
            }
            _ => panic!("expected a refusal"),
        }
    }
    assert!(matches!(n.handle_command(NodeCommand::Bootstrap { command: BootstrapCommand::GetStats }, 0), CommandOutcome::Nothing));
    match n.handle_command(NodeCommand::Bootstrap { command: BootstrapCommand::GetNodes }, 0) {
        CommandOutcome::BootstrapNodes(v) => assert!(v.is_empty()),
        _ => panic!("expected nodes"),
    }
    match n.handle_command(NodeCommand::Bootstrap { command: BootstrapCommand::ForceSync }, 0) {
        CommandOutcome::BootstrapSynced(r) => assert_eq!(r.unwrap_err(), "Bootstrap server not available"),
        _ => panic!("expected a sync answer"),
    }
}

#[test]
fn bootstrap_commands_with_server() {
    let mut n = node(true);
    match n.handle_command(NodeCommand::Bootstrap { command: BootstrapCommand::Activate }, 0) {
        CommandOutcome::BootstrapDone { result, event } => {
            assert_eq!(result, Ok(()));
            assert!(matches!(event, Some(BootstrapEvent::Activated)));
        }
        _ => panic!("expected activation"),
    }
    n.handle_command(
        NodeCommand::Bootstrap { command: BootstrapCommand::AddNode { peer_id: b"n".to_vec(), addrs: vec![b"x".to_vec()] } },
        0,
    );
    match n.handle_command(NodeCommand::Bootstrap { command: BootstrapCommand::GetNodes }, 0) {
        CommandOutcome::BootstrapNodes(v) => assert_eq!(v, vec![(b"n".to_vec(), vec![b"x".to_vec()])]),
        _ => panic!("expected nodes"),
    }
    match n.handle_command(NodeCommand::Bootstrap { command: BootstrapCommand::ForceSync }, 10) {
        CommandOutcome::BootstrapSynced(Ok(Some((targets, _)))) => assert_eq!(targets.len(), 1),
        _ => panic!("expected a synchronisation"),
    }
    match n.handle_command(NodeCommand::Bootstrap { command: BootstrapCommand::GetStats }, 0) {
        CommandOutcome::BootstrapStats(s) => assert_eq!(s.sync_count, 1),
        _ => panic!("expected statistics"),
    }
    assert!(n.bootstrap_tick(10).is_none());
    assert!(n.bootstrap_tick(300_011).is_some());
    match n.handle_command(NodeCommand::Bootstrap { command: BootstrapCommand::Deactivate }, 0) {
        CommandOutcome::BootstrapDone { event, .. } => assert!(matches!(event, Some(BootstrapEvent::Deactivated))),
        _ => panic!("expected deactivation"),
    }
    assert_eq!(n.local_peer_id(), b"me".to_vec());
}

#[test]
fn periodic_duty_synchronises_when_due() {
    let mut n = node(true);
    assert!(n.bootstrap_tick(400_000).is_none());
    n.handle_command(NodeCommand::Bootstrap { command: BootstrapCommand::Activate }, 0);
    n.handle_command(
        NodeCommand::Bootstrap { command: BootstrapCommand::AddNode { peer_id: b"n".to_vec(), addrs: vec![b"x".to_vec()] } },
        0,
    );
    assert!(n.bootstrap_tick(300_000).is_none());
    match n.bootstrap_tick(300_001) {
        Some((targets, BootstrapEvent::Synced { stats })) => {
            assert_eq!(targets, vec![(b"n".to_vec(), vec![b"x".to_vec()])]);
            assert_eq!(stats.sync_count, 1);
        }
        other => panic!("expected a synchronisation, got {other:?}"),
    }
    assert!(n.bootstrap_tick(300_002).is_none());
}

#[test]
fn bootstrap_server_is_there_when_configured() {
    assert!(node(true).get_bootstrap_server().is_some());
    assert!(node(false).get_bootstrap_server().is_none());
}
