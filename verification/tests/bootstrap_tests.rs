use p2p_network::bootstrap::{BootstrapEvent, BootstrapServer, BootstrapServerConfig, BootstrapServerStats, KadEvent};
use p2p_network::routes::{bytes_equal, copy_bytes, list_contains, RouteTable};

fn config(max_routes: usize) -> BootstrapServerConfig {
    BootstrapServerConfig { max_routes, ..BootstrapServerConfig::default() }
}

#[test]
fn default_config_and_stats() {
    let c = BootstrapServerConfig::default();
    assert_eq!(c.sync_interval, 300_000);
    assert_eq!(c.max_routes, 10_000);
    assert_eq!(c.route_ttl, 86_400_000);
    assert!(c.bootstrap_nodes.is_empty());
    assert!(c.aggressive_announce && c.extended_routing);
    let s = BootstrapServerStats::default();
    assert_eq!(s.route_requests + s.successful_responses + s.cached_routes_count + s.sync_count + s.announced_routes, 0);
}

#[test]
fn inactive_server_caches_nothing() {
    let mut s = BootstrapServer::new(b"me".to_vec(), config(10), 0);
    assert!(!s.is_active());
    assert!(s.add_route(b"p", b"a").is_none());
    assert!(s.get_routes(b"p").is_empty());
    assert_eq!(s.get_stats().route_requests, 0);
    assert!(!s.has_route_to(b"p"));
}

#[test]
fn active_server_caches_and_serves_routes() {
    let mut s = BootstrapServer::new(b"me".to_vec(), config(10), 0);
    assert!(matches!(s.activate(), BootstrapEvent::Activated));
    match s.add_route(b"p", b"addr1") {
        Some(BootstrapEvent::RouteAdded { peer_id, addr }) => {
            assert_eq!(peer_id, b"p".to_vec());
            assert_eq!(addr, b"addr1".to_vec());
        }
        _ => panic!("expected RouteAdded"),
    }
    assert!(s.add_route(b"p", b"addr1").is_none());
    assert!(s.add_route(b"p", b"addr2").is_some());
    assert_eq!(s.get_routes(b"p"), vec![b"addr1".to_vec(), b"addr2".to_vec()]);
    let stats = s.get_stats();
    assert_eq!(stats.route_requests, 1);
    assert_eq!(stats.successful_responses, 1);
    assert_eq!(stats.cached_routes_count, 1);
    assert!(s.get_routes(b"q").is_empty());
    assert_eq!(s.get_stats().route_requests, 2);
    assert_eq!(s.get_stats().successful_responses, 1);
    assert!(s.has_route_to(b"p"));
}

#[test]
fn full_cache_refuses_new_peers() {
    let mut s = BootstrapServer::new(b"me".to_vec(), config(1), 0);
    s.activate();
    assert!(s.add_route(b"p", b"a").is_some());
    assert!(s.add_route(b"q", b"b").is_none());
    assert!(s.add_route(b"p", b"c").is_some());
    assert!(!s.has_route_to(b"q"));
}

#[test]
fn sync_timing() {
    let mut s = BootstrapServer::new(b"me".to_vec(), config(10), 1_000);
    assert!(!s.should_sync(1_000_000));
    s.activate();
    assert!(!s.should_sync(301_000));
    assert!(s.should_sync(301_001));
    s.add_bootstrap_node(b"other".to_vec(), vec![b"x".to_vec()]);
    s.add_bootstrap_node(b"me".to_vec(), vec![b"self".to_vec()]);
    let (targets, event) = s.sync_with_bootstrap_nodes(400_000).unwrap();
    assert_eq!(targets, vec![(b"other".to_vec(), vec![b"x".to_vec()])]);
    match event {
        BootstrapEvent::Synced { stats } => assert_eq!(stats.sync_count, 1),
        _ => panic!("expected Synced"),
    }
    assert!(!s.should_sync(400_000));
    s.deactivate();
    assert!(s.sync_with_bootstrap_nodes(900_000).is_none());
}

#[test]
fn bootstrap_node_list() {
    let mut cfg = config(10);
    cfg.bootstrap_nodes = vec![(b"n1".to_vec(), vec![b"a".to_vec()])];
    let mut s = BootstrapServer::new(b"me".to_vec(), cfg, 0);
    assert!(s.is_bootstrap_node(b"n1"));
    s.add_bootstrap_node(b"n2".to_vec(), vec![]);
    assert_eq!(s.get_bootstrap_nodes().len(), 2);
    s.remove_bootstrap_node(b"n1");
    assert!(!s.is_bootstrap_node(b"n1"));
    assert_eq!(s.get_bootstrap_nodes(), vec![(b"n2".to_vec(), vec![])]);
}

#[test]
fn routing_update_is_cached_and_announced() {
    let mut s = BootstrapServer::new(b"me".to_vec(), config(10), 0);
    assert!(s.handle_routing_updated(b"p", &vec![b"a".to_vec()]).is_empty());
    s.activate();
    let events = s.handle_routing_updated(b"p", &vec![b"a".to_vec(), b"b".to_vec()]);
    assert_eq!(events.len(), 3);
    assert!(matches!(events[2], BootstrapEvent::RoutingUpdated { .. }));
    assert_eq!(s.get_stats().announced_routes, 1);
    assert_eq!(s.export_routing_table(), vec![(b"p".to_vec(), vec![b"a".to_vec(), b"b".to_vec()])]);
}

#[test]
fn find_peer_asks_for_a_search_when_nothing_is_cached() {
    let mut s = BootstrapServer::new(b"me".to_vec(), config(10), 0);
    s.activate();
    let (addrs, search) = s.find_peer(b"p");
    assert!(addrs.is_empty());
    assert!(search);
    s.add_route(b"p", b"a");
    let (addrs, search) = s.find_peer(b"p");
    assert_eq!(addrs, vec![b"a".to_vec()]);
    assert!(!search);
}

#[test]
fn import_counts_offered_routes() {
    let mut s = BootstrapServer::new(b"me".to_vec(), config(10), 0);
    let table = vec![(b"p".to_vec(), vec![b"a".to_vec(), b"b".to_vec()]), (b"q".to_vec(), vec![b"c".to_vec()])];
    assert_eq!(s.import_routing_table(&table).0, 0);
    s.activate();
    let (count, events) = s.import_routing_table(&table);
    assert_eq!(count, 3);
    assert_eq!(events.len(), 3);
    assert!(s.has_route_to(b"q"));
    s.clean_expired_routes();
    assert_eq!(s.get_stats().cached_routes_count, 2);
}

#[test]
fn route_table_operations() {
    let mut t = RouteTable::new();
    t.insert(b"p".to_vec(), vec![b"a".to_vec()]);
    t.push_address(b"p", b"b".to_vec());
    t.push_address(b"q", b"c".to_vec());
    assert_eq!(t.len(), 2);
    assert_eq!(t.get(b"p"), Some(vec![b"a".to_vec(), b"b".to_vec()]));
    assert!(t.contains_key(b"q"));
    assert_eq!(t.remove(b"q"), Some(vec![b"c".to_vec()]));
    assert!(!t.contains_key(b"q"));
    let copy = t.copy();
    assert_eq!(copy.to_vec(), t.to_vec());
    let rebuilt = RouteTable::from_list(vec![(b"x".to_vec(), vec![]), (b"x".to_vec(), vec![b"y".to_vec()])]);
    assert_eq!(rebuilt.to_vec(), vec![(b"x".to_vec(), vec![b"y".to_vec()])]);
}

#[test]
fn byte_helpers() {
    assert!(bytes_equal(b"abc", b"abc"));
    assert!(!bytes_equal(b"abc", b"abd"));
    assert_eq!(copy_bytes(b"xyz"), b"xyz".to_vec());
    assert!(list_contains(&vec![b"a".to_vec(), b"b".to_vec()], b"b"));
    assert!(!list_contains(&vec![b"a".to_vec()], b"c"));
}

#[test]
fn routing_update_announces_each_new_route_once() {
    let mut s = BootstrapServer::new(b"me".to_vec(), config(10), 0);
    s.activate();
    let events = s.handle_routing_updated(b"p", &vec![b"a".to_vec(), b"a".to_vec(), b"b".to_vec()]);
    assert_eq!(events.len(), 3);
    match &events[0] {
        BootstrapEvent::RouteAdded { peer_id, addr } => assert_eq!((peer_id.as_slice(), addr.as_slice()), (&b"p"[..], &b"a"[..])),
        other => panic!("unexpected {other:?}"),
    }
    match &events[1] {
        BootstrapEvent::RouteAdded { peer_id, addr } => assert_eq!((peer_id.as_slice(), addr.as_slice()), (&b"p"[..], &b"b"[..])),
        other => panic!("unexpected {other:?}"),
    }
    match &events[2] {
        BootstrapEvent::RoutingUpdated { peer_id, addresses } => {
            assert_eq!(peer_id, b"p");
            assert_eq!(addresses, &vec![b"a".to_vec(), b"a".to_vec(), b"b".to_vec()]);
        }
        other => panic!("unexpected {other:?}"),
    }
    let stats = s.get_stats();
    assert_eq!((stats.announced_routes, stats.cached_routes_count), (1, 1));
    let again = s.handle_routing_updated(b"p", &vec![b"b".to_vec()]);
    assert_eq!(again.len(), 1);
    assert_eq!(s.get_stats().announced_routes, 2);
}

#[test]
fn dht_events_reach_the_route_cache() {
    let mut s = BootstrapServer::new(b"me".to_vec(), config(10), 0);
    let update = KadEvent::RoutingUpdated { peer_id: b"p".to_vec(), addresses: vec![b"a".to_vec()] };
    assert!(s.handle_kad_event(&update).is_empty());
    s.activate();
    assert!(s.handle_kad_event(&KadEvent::Other).is_empty());
    assert_eq!(s.handle_kad_event(&update).len(), 2);
    assert!(s.has_route_to(b"p"));
    assert_eq!(s.get_stats().announced_routes, 1);
}

#[test]
fn raised_limit_admits_new_peers() {
    let mut s = BootstrapServer::new(b"me".to_vec(), config(1), 0);
    s.activate();
    assert!(s.add_route(b"p", b"a").is_some());
    assert!(s.add_route(b"q", b"b").is_none());
    s.increase_max_routes(2);
    assert!(s.add_route(b"q", b"b").is_some());
    assert!(s.has_route_to(b"q"));
    s.update_route_ttl(5);
    assert_eq!(s.export_routing_table().len(), 2);
}
