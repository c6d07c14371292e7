//! The bootstrap server's state: an extended route cache beyond the DHT's own
//! table, the list of other known bootstrap servers, synchronisation timing
//! and usage statistics. Peers and addresses are held in their binary
//! encodings; each operation returns the events it announces.
use vstd::prelude::*;

use crate::routes::{bytes_equal, bytes_list, copy_byte_list, copy_bytes, entries_map, entries_view, keys_unique, list_contains, list_map, Entry, RouteTable};

verus! {

/// Settings of a bootstrap server (durations in milliseconds).
#[derive(Debug, Clone)]
pub struct BootstrapServerConfig {
    /// Interval between synchronisations with other bootstrap servers.
    pub sync_interval: u64,
    /// Most peers that the route cache holds.
    pub max_routes: usize,
    /// Lifetime of a cached route.
    pub route_ttl: u64,
    /// Other known bootstrap servers, with their addresses.
    pub bootstrap_nodes: Vec<(Vec<u8>, Vec<Vec<u8>>)>,
    /// Announce this node as a bootstrap server aggressively.
    pub aggressive_announce: bool,
    /// Keep the extended route cache.
    pub extended_routing: bool,
}

impl Default for BootstrapServerConfig {
    /// Five-minute synchronisation, ten thousand routes, a one-day route
    /// lifetime, no known servers, both options on.
    fn default() -> (r: Self)
        ensures
            r.sync_interval == 300_000,
            r.max_routes == 10_000,
            r.route_ttl == 86_400_000,
            r.bootstrap_nodes@.len() == 0,
            r.aggressive_announce,
            r.extended_routing,
    {
        BootstrapServerConfig {
            sync_interval: 300_000,
            max_routes: 10_000,
            route_ttl: 86_400_000,
            bootstrap_nodes: Vec::new(),
            aggressive_announce: true,
            extended_routing: true,
        }
    }
}

/// Usage statistics of a bootstrap server.
#[derive(Debug, Clone, Copy, PartialEq, Eq, Structural)]
pub struct BootstrapServerStats {
    /// Route lookups served.
    pub route_requests: usize,
    /// Route lookups that found routes.
    pub successful_responses: usize,
    /// Peers in the extended route cache.
    pub cached_routes_count: usize,
    /// Synchronisations with other bootstrap servers.
    pub sync_count: usize,
    /// Routing updates processed.
    pub announced_routes: usize,
}

impl Default for BootstrapServerStats {
    /// All counters at zero.
    fn default() -> (r: Self)
        ensures
            r == (BootstrapServerStats {
                route_requests: 0,
                successful_responses: 0,
                cached_routes_count: 0,
                sync_count: 0,
                announced_routes: 0,
            }),
    {
        BootstrapServerStats {
            route_requests: 0,
            successful_responses: 0,
            cached_routes_count: 0,
            sync_count: 0,
            announced_routes: 0,
        }
    }
}

/// A DHT event as the bootstrap server sees it: a routing update for a peer
/// with its addresses (binary multiaddresses), or anything else.
#[derive(Debug, Clone)]
pub enum KadEvent {
    RoutingUpdated { peer_id: Vec<u8>, addresses: Vec<Vec<u8>> },
    Other,
}

/// Events that a bootstrap server announces.
#[derive(Debug, Clone)]
pub enum BootstrapEvent {
    Activated,
    Deactivated,
    Synced { stats: BootstrapServerStats },
    RouteAdded { peer_id: Vec<u8>, addr: Vec<u8> },
    RoutingUpdated { peer_id: Vec<u8>, addresses: Vec<Vec<u8>> },
}

/// The total number of addresses in a list of entries.
pub open spec fn total_addresses(s: Seq<Entry>) -> nat
    decreases s.len(),
{
    if s.len() == 0 {
        0
    } else {
        total_addresses(s.drop_last()) + s.last().1.len()
    }
}

/// The route cache after adding `addr` for `peer` when the cache holds at
/// most `max` peers: a new peer is refused when the cache is full, a known
/// address is not added twice.
pub open spec fn route_added(
    routes: Map<Seq<u8>, Seq<Seq<u8>>>,
    max: usize,
    peer: Seq<u8>,
    addr: Seq<u8>,
) -> Map<Seq<u8>, Seq<Seq<u8>>> {
    if routes.len() >= max && !routes.contains_key(peer) {
        routes
    } else if routes.contains_key(peer) {
        if routes[peer].contains(addr) {
            routes
        } else {
            routes.insert(peer, routes[peer].push(addr))
        }
    } else {
        routes.insert(peer, seq![addr])
    }
}

/// Whether adding `addr` for `peer` changes the route cache.
pub open spec fn route_is_new(
    routes: Map<Seq<u8>, Seq<Seq<u8>>>,
    max: usize,
    peer: Seq<u8>,
    addr: Seq<u8>,
) -> bool {
    !(routes.len() >= max && !routes.contains_key(peer)) && !(routes.contains_key(peer)
        && routes[peer].contains(addr))
}

/// What a synchronisation at `now` does: an active server records the time,
/// counts the synchronisation, and returns the known bootstrap servers other
/// than itself (to be added to the DHT and queried) with the `Synced` event
/// carrying the new statistics; an inactive server returns nothing and
/// changes nothing. The cache, the known servers, the mode, the settings and
/// the identity stay as they were.
pub open spec fn synced(
    before: BootstrapServer,
    after: BootstrapServer,
    r: Option<(Vec<(Vec<u8>, Vec<Vec<u8>>)>, BootstrapEvent)>,
    now: u64,
) -> bool {
    &&& after.routes() == before.routes()
    &&& after.nodes() == before.nodes()
    &&& after.active_mode() == before.active_mode()
    &&& after.settings() == before.settings()
    &&& after.local_peer() == before.local_peer()
    &&& !before.active_mode() ==> r is None && after.statistics() == before.statistics()
        && after.last_sync_at() == before.last_sync_at()
    &&& before.active_mode() ==> {
        &&& after.last_sync_at() == now
        &&& after.statistics() == (BootstrapServerStats {
            sync_count: (before.statistics().sync_count + 1) as usize,
            ..before.statistics()
        })
        &&& r matches Some((targets, BootstrapEvent::Synced { stats })) && stats
            == after.statistics() && keys_unique(entries_view(targets@)) && entries_map(
            entries_view(targets@),
        ) == before.nodes().remove(before.local_peer())
    }
}

/// What the periodic duty at `now` does to a server `s`, which becomes `t`
/// and returns `r`: a server that is due synchronises as `synced` says, then
/// an active server refreshes its cached-peer count; nothing else changes.
pub open spec fn ticked(
    s: BootstrapServer,
    t: BootstrapServer,
    r: Option<(Vec<(Vec<u8>, Vec<Vec<u8>>)>, BootstrapEvent)>,
    now: u64,
) -> bool {
    &&& t.routes() == s.routes()
    &&& t.nodes() == s.nodes()
    &&& t.active_mode() == s.active_mode()
    &&& t.settings() == s.settings()
    &&& t.local_peer() == s.local_peer()
    &&& !s.due_at(now) ==> r is None && t.last_sync_at() == s.last_sync_at()
    &&& s.due_at(now) ==> {
        &&& t.last_sync_at() == now
        &&& r matches Some((targets, BootstrapEvent::Synced { stats })) && stats == (BootstrapServerStats {
            sync_count: (s.statistics().sync_count + 1) as usize,
            ..s.statistics()
        }) && keys_unique(entries_view(targets@)) && entries_map(entries_view(targets@))
            == s.nodes().remove(s.local_peer())
    }
    &&& !s.active_mode() ==> t.statistics() == s.statistics()
    &&& s.active_mode() ==> t.statistics() == (BootstrapServerStats {
        cached_routes_count: s.routes().len() as usize,
        sync_count: if s.due_at(now) {
            (s.statistics().sync_count + 1) as usize
        } else {
            s.statistics().sync_count
        },
        ..s.statistics()
    })
}

/// The state of a bootstrap server.
pub struct BootstrapServer {
    local_peer_id: Vec<u8>,
    extended_routes: RouteTable,
    known_bootstrap_nodes: RouteTable,
    config: BootstrapServerConfig,
    last_sync: u64,
    active: bool,
    stats: BootstrapServerStats,
}

impl BootstrapServer {
    /// The extended route cache.
    pub closed spec fn routes(&self) -> Map<Seq<u8>, Seq<Seq<u8>>> {
        self.extended_routes.view()
    }

    /// The known bootstrap servers.
    pub closed spec fn nodes(&self) -> Map<Seq<u8>, Seq<Seq<u8>>> {
        self.known_bootstrap_nodes.view()
    }

    /// Whether bootstrap-server mode is on.
    pub closed spec fn active_mode(&self) -> bool {
        self.active
    }

    /// The usage statistics.
    pub closed spec fn statistics(&self) -> BootstrapServerStats {
        self.stats
    }

    /// The settings.
    pub closed spec fn settings(&self) -> BootstrapServerConfig {
        self.config
    }

    /// When the last synchronisation happened.
    pub closed spec fn last_sync_at(&self) -> u64 {
        self.last_sync
    }

    /// This node's own peer id.
    pub closed spec fn local_peer(&self) -> Seq<u8> {
        self.local_peer_id@
    }

    /// Whether the server is active and more than `sync_interval`
    /// milliseconds have passed at `now` since its last synchronisation.
    pub open spec fn due_at(&self, now: u64) -> bool {
        self.active_mode() && now as int - self.last_sync_at() as int > self.settings().sync_interval as int
    }

    /// The tables hold each peer once.
    pub closed spec fn wf(&self) -> bool {
        self.extended_routes.wf() && self.known_bootstrap_nodes.wf()
    }

    /// A server for `local_peer_id` that knows the configured bootstrap
    /// servers (a later entry for a peer replacing an earlier one), starts
    /// inactive with empty cache and zero statistics, and counts its last
    /// synchronisation from `now`.
    pub fn new(local_peer_id: Vec<u8>, config: BootstrapServerConfig, now: u64) -> (r: Self)
        ensures
            r.wf(),
            r.routes() == Map::<Seq<u8>, Seq<Seq<u8>>>::empty(),
            r.nodes() == list_map(entries_view(config.bootstrap_nodes@)),
            !r.active_mode(),
            r.statistics() == BootstrapServerStats::default_value(),
            r.settings() == config,
            r.last_sync_at() == now,
            r.local_peer() == local_peer_id@,
    {
        let nodes = RouteTable::from_list(copy_entries(&config.bootstrap_nodes));
        BootstrapServer {
            local_peer_id,
            extended_routes: RouteTable::new(),
            known_bootstrap_nodes: nodes,
            config,
            last_sync: now,
            active: false,
            stats: BootstrapServerStats::default(),
        }
    }

    /// Turns bootstrap-server mode on and announces it.
    pub fn activate(&mut self) -> (r: BootstrapEvent)
        ensures
            final(self).active_mode(),
            r matches BootstrapEvent::Activated,
            final(self).routes() == old(self).routes(),
            final(self).nodes() == old(self).nodes(),
            final(self).statistics() == old(self).statistics(),
            final(self).settings() == old(self).settings(),
            final(self).last_sync_at() == old(self).last_sync_at(),
            final(self).local_peer() == old(self).local_peer(),
            final(self).wf() == old(self).wf(),
    {
        self.active = true;
        BootstrapEvent::Activated
    }

    /// Turns bootstrap-server mode off and announces it.
    pub fn deactivate(&mut self) -> (r: BootstrapEvent)
        ensures
            !final(self).active_mode(),
            r matches BootstrapEvent::Deactivated,
            final(self).routes() == old(self).routes(),
            final(self).nodes() == old(self).nodes(),
            final(self).statistics() == old(self).statistics(),
            final(self).settings() == old(self).settings(),
            final(self).last_sync_at() == old(self).last_sync_at(),
            final(self).local_peer() == old(self).local_peer(),
            final(self).wf() == old(self).wf(),
    {
        self.active = false;
        BootstrapEvent::Deactivated
    }

    /// Whether bootstrap-server mode is on.
    pub fn is_active(&self) -> (r: bool)
        ensures
            r == self.active_mode(),
    {
        self.active
    }

    /// Caches address `addr` for `peer_id` while the server is active. A new
    /// peer is refused once the cache holds `max_routes` peers, and a known
    /// address is not added twice; when the address is added, the cached-peer
    /// count is refreshed and `RouteAdded` is announced.
    pub fn add_route(&mut self, peer_id: &[u8], addr: &[u8]) -> (r: Option<BootstrapEvent>)
        requires
            old(self).wf(),
        ensures
            final(self).wf(),
            final(self).nodes() == old(self).nodes(),
            final(self).active_mode() == old(self).active_mode(),
            final(self).settings() == old(self).settings(),
            final(self).last_sync_at() == old(self).last_sync_at(),
            final(self).local_peer() == old(self).local_peer(),
            !old(self).active_mode() ==> final(self).routes() == old(self).routes() && r is None
                && final(self).statistics() == old(self).statistics(),
            old(self).active_mode() ==> final(self).routes() == route_added(
                old(self).routes(),
                old(self).settings().max_routes,
                peer_id@,
                addr@,
            ),
            old(self).active_mode() && !route_is_new(
                old(self).routes(),
                old(self).settings().max_routes,
                peer_id@,
                addr@,
            ) ==> r is None && final(self).statistics() == old(self).statistics(),
            old(self).active_mode() && route_is_new(
                old(self).routes(),
                old(self).settings().max_routes,
                peer_id@,
                addr@,
            ) ==> {
                &&& r matches Some(BootstrapEvent::RouteAdded { peer_id: p, addr: a }) && p@
                    == peer_id@ && a@ == addr@
                &&& final(self).statistics() == (BootstrapServerStats {
                    cached_routes_count: final(self).routes().len() as usize,
                    ..old(self).statistics()
                })
            },
    {
        if !self.active {
            return None;
        }
        let count = self.extended_routes.len();
        let known = self.extended_routes.contains_key(peer_id);
        if count >= self.config.max_routes && !known {
            return None;
        }
        if known {
            let addrs = self.extended_routes.get(peer_id).unwrap();
            if list_contains(&addrs, addr) {
                return None;
            }
        }
        self.extended_routes.push_address(peer_id, copy_bytes(addr));
        self.stats.cached_routes_count = self.extended_routes.len();
        Some(BootstrapEvent::RouteAdded { peer_id: copy_bytes(peer_id), addr: copy_bytes(addr) })
    }

    /// The cached addresses of `peer_id` (none while inactive). An active
    /// server counts the request, and counts it as successful when the peer is
    /// cached.
    pub fn get_routes(&mut self, peer_id: &[u8]) -> (r: Vec<Vec<u8>>)
        requires
            old(self).wf(),
            old(self).statistics().route_requests < usize::MAX,
            old(self).statistics().successful_responses < usize::MAX,
        ensures
            final(self).wf(),
            final(self).routes() == old(self).routes(),
            final(self).nodes() == old(self).nodes(),
            final(self).active_mode() == old(self).active_mode(),
            final(self).settings() == old(self).settings(),
            final(self).last_sync_at() == old(self).last_sync_at(),
            final(self).local_peer() == old(self).local_peer(),
            !old(self).active_mode() ==> r@.len() == 0 && final(self).statistics() == old(
                self,
            ).statistics(),
            old(self).active_mode() ==> {
                &&& old(self).routes().contains_key(peer_id@) ==> bytes_list(r@) == old(
                    self,
                ).routes()[peer_id@] && final(self).statistics() == (BootstrapServerStats {
                    route_requests: (old(self).statistics().route_requests + 1) as usize,
                    successful_responses: (old(self).statistics().successful_responses
                        + 1) as usize,
                    ..old(self).statistics()
                })
                &&& !old(self).routes().contains_key(peer_id@) ==> r@.len() == 0
                    && final(self).statistics() == (BootstrapServerStats {
                    route_requests: (old(self).statistics().route_requests + 1) as usize,
                    ..old(self).statistics()
                })
            },
    {
        if !self.active {
            return Vec::new();
        }
        self.stats.route_requests = self.stats.route_requests + 1;
        match self.extended_routes.get(peer_id) {
            Some(addrs) => {
                self.stats.successful_responses = self.stats.successful_responses + 1;
                addrs
            },
            None => Vec::new(),
        }
    }

    /// Whether an active server is due to synchronise at `now`: more than
    /// `sync_interval` milliseconds have passed since the last time.
    pub fn should_sync(&self, now: u64) -> (r: bool)
        ensures
            r == self.due_at(now),
    {
        if !self.active {
            return false;
        }
        now > self.last_sync && now - self.last_sync > self.config.sync_interval
    }

    /// Starts a synchronisation at `now` on an active server: records the time,
    /// counts it, and returns the known bootstrap servers other than this node
    /// (to be added to the DHT and queried) with the `Synced` event. An
    /// inactive server returns `None` and changes nothing.
    pub fn sync_with_bootstrap_nodes(&mut self, now: u64) -> (r: Option<
        (Vec<(Vec<u8>, Vec<Vec<u8>>)>, BootstrapEvent),
    >)
        requires
            old(self).wf(),
            old(self).statistics().sync_count < usize::MAX,
        ensures
            final(self).wf(),
            synced(*old(self), *final(self), r, now),
    {
        if !self.active {
            return None;
        }
        self.last_sync = now;
        let all = self.known_bootstrap_nodes.to_vec();
        let mut targets: Vec<(Vec<u8>, Vec<Vec<u8>>)> = Vec::new();
        let mut i: usize = 0;
        let ghost s = entries_view(all@);
        while i < all.len()
            invariant
                0 <= i <= all@.len(),
                s == entries_view(all@),
                keys_unique(s),
                keys_unique(entries_view(targets@)),
                entries_map(entries_view(targets@)) == entries_map(s.take(i as int)).remove(
                    self.local_peer_id@,
                ),
                forall|j: int|
                    0 <= j < targets@.len() ==> exists|x: int|
                        0 <= x < i && #[trigger] entries_view(targets@)[j] == s[x],
            decreases all@.len() - i,
        {
            let ghost prev = entries_view(targets@);
            proof {
                crate::routes::lemma_take_push_map(s, i as int);
            }
            if !bytes_equal(all[i].0.as_slice(), self.local_peer_id.as_slice()) {
                let k = copy_bytes(all[i].0.as_slice());
                let v = copy_byte_list(&all[i].1);
                proof {
                    assert(!crate::routes::has_key(prev, s[i as int].0)) by {
                        if crate::routes::has_key(prev, s[i as int].0) {
                            let j = choose|j: int|
                                0 <= j < prev.len() && #[trigger] prev[j].0 == s[i as int].0;
                            let x = choose|x: int| 0 <= x < i && prev[j] == s[x];
                        }
                    }
                    crate::routes::lemma_entries_map_push(prev, s[i as int].0, s[i as int].1);
                }
                targets.push((k, v));
                proof {
                    assert(entries_view(targets@) =~= prev.push(s[i as int]));
                    assert forall|j: int| 0 <= j < targets@.len() implies exists|x: int|
                        0 <= x < i + 1 && #[trigger] entries_view(targets@)[j] == s[x] by {
                        if j < prev.len() {
                            assert(entries_view(targets@)[j] == prev[j]);
                        } else {
                            assert(entries_view(targets@)[j] == s[i as int]);
                        }
                    }
                }
            } else {
                proof {
                    assert forall|j: int| 0 <= j < targets@.len() implies exists|x: int|
                        0 <= x < i + 1 && #[trigger] entries_view(targets@)[j] == s[x] by {
                        let x = choose|x: int| 0 <= x < i && entries_view(targets@)[j] == s[x];
                    }
                }
            }
            i = i + 1;
            proof {
                assert(entries_map(entries_view(targets@)) =~= entries_map(s.take(i as int)).remove(
                    self.local_peer_id@,
                ));
            }
        }
        proof {
            assert(s.take(all@.len() as int) =~= s);
        }
        self.stats.sync_count = self.stats.sync_count + 1;
        Some((targets, BootstrapEvent::Synced { stats: self.stats }))
    }

    /// Processes a DHT event: a routing update as `handle_routing_updated`
    /// does; any other event changes nothing and announces nothing.
    pub fn handle_kad_event(&mut self, event: &KadEvent) -> (r: Vec<BootstrapEvent>)
        requires
            old(self).wf(),
            old(self).statistics().announced_routes < usize::MAX,
        ensures
            final(self).wf(),
            event is Other || !old(self).active_mode() ==> r@.len() == 0 && *final(self) == *old(self),
            (match *event {
                KadEvent::RoutingUpdated { peer_id, addresses } => old(self).active_mode() ==> routing_update(
                    *old(self),
                    *final(self),
                    peer_id@,
                    bytes_list(addresses@),
                    r@,
                ),
                KadEvent::Other => true,
            }),
    {
        match event {
            KadEvent::RoutingUpdated { peer_id, addresses } => {
                if !self.active {
                    return Vec::new();
                }
                self.handle_routing_updated(peer_id.as_slice(), addresses)
            },
            KadEvent::Other => Vec::new(),
        }
    }

    /// Processes a DHT routing update for `peer_id` on an active server:
    /// caches each address (announcing each new one), counts the update and
    /// announces `RoutingUpdated`. An inactive server changes nothing.
    pub fn handle_routing_updated(&mut self, peer_id: &[u8], addresses: &Vec<Vec<u8>>) -> (r: Vec<
        BootstrapEvent,
    >)
        requires
            old(self).wf(),
            old(self).statistics().announced_routes < usize::MAX,
        ensures
            final(self).wf(),
            final(self).nodes() == old(self).nodes(),
            final(self).active_mode() == old(self).active_mode(),
            final(self).settings() == old(self).settings(),
            final(self).last_sync_at() == old(self).last_sync_at(),
            final(self).local_peer() == old(self).local_peer(),
            !old(self).active_mode() ==> r@.len() == 0 && final(self).routes() == old(self).routes()
                && final(self).statistics() == old(self).statistics(),
            old(self).active_mode() ==> routing_update(
                *old(self),
                *final(self),
                peer_id@,
                bytes_list(addresses@),
                r@,
            ),
    {
        let mut events: Vec<BootstrapEvent> = Vec::new();
        if !self.active {
            return events;
        }
        let mut i: usize = 0;
        let ghost old_routes = self.routes();
        while i < addresses.len()
            invariant
                0 <= i <= addresses@.len(),
                self.wf(),
                self.active,
                self.nodes() == old(self).nodes(),
                self.settings() == old(self).settings(),
                self.last_sync_at() == old(self).last_sync_at(),
                self.local_peer() == old(self).local_peer(),
                old_routes == old(self).routes(),
                self.routes() == routes_added(
                    old_routes,
                    self.settings().max_routes,
                    peer_id@,
                    bytes_list(addresses@).take(i as int),
                ),
                events@.len() == fresh_routes(
                    old_routes,
                    self.settings().max_routes,
                    peer_id@,
                    bytes_list(addresses@).take(i as int),
                ).len(),
                forall|j: int|
                    0 <= j < events@.len() ==> announces_route(
                        #[trigger] events@[j],
                        peer_id@,
                        fresh_routes(
                            old_routes,
                            self.settings().max_routes,
                            peer_id@,
                            bytes_list(addresses@).take(i as int),
                        )[j],
                    ),
                self.statistics() == (BootstrapServerStats {
                    cached_routes_count: if events@.len() > 0 {
                        self.routes().len() as usize
                    } else {
                        old(self).statistics().cached_routes_count
                    },
                    ..old(self).statistics()
                }),
            decreases addresses@.len() - i,
        {
            let ghost max = self.settings().max_routes;
            let ghost prefix = bytes_list(addresses@).take(i as int);
            let ghost next = bytes_list(addresses@).take(i + 1);
            proof {
                assert(next.drop_last() =~= prefix);
                assert(next.last() == addresses@[i as int]@);
            }
            match self.add_route(peer_id, addresses[i].as_slice()) {
                Some(e) => events.push(e),
                None => {},
            }
            proof {
                assert(fresh_routes(old_routes, max, peer_id@, next).len() == events@.len());
            }
            i = i + 1;
        }
        proof {
            assert(bytes_list(addresses@).take(addresses@.len() as int) =~= bytes_list(addresses@));
        }
        self.stats.announced_routes = self.stats.announced_routes + 1;
        let addrs = copy_byte_list(addresses);
        events.push(
            BootstrapEvent::RoutingUpdated { peer_id: copy_bytes(peer_id), addresses: addrs },
        );
        events
    }

    /// The usage statistics.
    pub fn get_stats(&self) -> (r: BootstrapServerStats)
        ensures
            r == self.statistics(),
    {
        self.stats
    }

    /// Records `peer_id` as a known bootstrap server with addresses `addrs`,
    /// replacing any earlier addresses.
    pub fn add_bootstrap_node(&mut self, peer_id: Vec<u8>, addrs: Vec<Vec<u8>>)
        requires
            old(self).wf(),
        ensures
            final(self).wf(),
            final(self).nodes() == old(self).nodes().insert(peer_id@, bytes_list(addrs@)),
            final(self).routes() == old(self).routes(),
            final(self).active_mode() == old(self).active_mode(),
            final(self).statistics() == old(self).statistics(),
            final(self).settings() == old(self).settings(),
            final(self).last_sync_at() == old(self).last_sync_at(),
            final(self).local_peer() == old(self).local_peer(),
    {
        self.known_bootstrap_nodes.insert(peer_id, addrs);
    }

    /// Forgets the known bootstrap server `peer_id`.
    pub fn remove_bootstrap_node(&mut self, peer_id: &[u8])
        requires
            old(self).wf(),
        ensures
            final(self).wf(),
            final(self).nodes() == old(self).nodes().remove(peer_id@),
            final(self).routes() == old(self).routes(),
            final(self).active_mode() == old(self).active_mode(),
            final(self).statistics() == old(self).statistics(),
            final(self).settings() == old(self).settings(),
            final(self).last_sync_at() == old(self).last_sync_at(),
            final(self).local_peer() == old(self).local_peer(),
    {
        self.known_bootstrap_nodes.remove(peer_id);
    }

    /// The known bootstrap servers with their addresses.
    pub fn get_bootstrap_nodes(&self) -> (r: Vec<(Vec<u8>, Vec<Vec<u8>>)>)
        requires
            self.wf(),
        ensures
            keys_unique(entries_view(r@)),
            entries_map(entries_view(r@)) == self.nodes(),
    {
        self.known_bootstrap_nodes.to_vec()
    }

    /// Whether `peer_id` is a known bootstrap server.
    pub fn is_bootstrap_node(&self, peer_id: &[u8]) -> (r: bool)
        requires
            self.wf(),
        ensures
            r == self.nodes().contains_key(peer_id@),
    {
        self.known_bootstrap_nodes.contains_key(peer_id)
    }

    /// Refreshes the cached-peer count of an active server; routes are not
    /// aged out.
    pub fn clean_expired_routes(&mut self)
        requires
            old(self).wf(),
        ensures
            final(self).wf(),
            final(self).routes() == old(self).routes(),
            final(self).nodes() == old(self).nodes(),
            final(self).active_mode() == old(self).active_mode(),
            final(self).settings() == old(self).settings(),
            final(self).last_sync_at() == old(self).last_sync_at(),
            final(self).local_peer() == old(self).local_peer(),
            !old(self).active_mode() ==> final(self).statistics() == old(self).statistics(),
            old(self).active_mode() ==> final(self).statistics() == (BootstrapServerStats {
                cached_routes_count: old(self).routes().len() as usize,
                ..old(self).statistics()
            }),
    {
        if !self.active {
            return;
        }
        self.stats.cached_routes_count = self.extended_routes.len();
    }

    /// Looks `peer_id` up: an inactive server returns no addresses; an active
    /// one returns its cached addresses (counting the request as `get_routes`
    /// does). The flag says whether a DHT search for the peer should be started,
    /// which is when no address was returned.
    pub fn find_peer(&mut self, peer_id: &[u8]) -> (r: (Vec<Vec<u8>>, bool))
        requires
            old(self).wf(),
            old(self).statistics().route_requests < usize::MAX,
            old(self).statistics().successful_responses < usize::MAX,
        ensures
            final(self).wf(),
            final(self).routes() == old(self).routes(),
            final(self).nodes() == old(self).nodes(),
            final(self).active_mode() == old(self).active_mode(),
            r.1 == (r.0@.len() == 0),
            !old(self).active_mode() ==> r.0@.len() == 0 && final(self).statistics() == old(
                self,
            ).statistics(),
            old(self).active_mode() && old(self).routes().contains_key(peer_id@) ==> bytes_list(
                r.0@,
            ) == old(self).routes()[peer_id@],
            old(self).active_mode() && !old(self).routes().contains_key(peer_id@) ==> r.0@.len()
                == 0,
    {
        if !self.active {
            return (Vec::new(), true);
        }
        let addresses = self.get_routes(peer_id);
        let search = addresses.len() == 0;
        (addresses, search)
    }

    /// The route cache of an active server, for other bootstrap servers (empty
    /// while inactive).
    pub fn export_routing_table(&self) -> (r: Vec<(Vec<u8>, Vec<Vec<u8>>)>)
        requires
            self.wf(),
        ensures
            keys_unique(entries_view(r@)),
            !self.active_mode() ==> r@.len() == 0,
            self.active_mode() ==> entries_map(entries_view(r@)) == self.routes(),
    {
        if !self.active {
            return Vec::new();
        }
        self.extended_routes.to_vec()
    }

    /// Imports routes from another bootstrap server: on an active server each
    /// address goes through `add_route`; the result is the number of addresses
    /// offered (added or not) with the events announced. An inactive server
    /// imports nothing and returns `0`.
    pub fn import_routing_table(&mut self, routes: &Vec<(Vec<u8>, Vec<Vec<u8>>)>) -> (r: (
        usize,
        Vec<BootstrapEvent>,
    ))
        requires
            old(self).wf(),
            total_addresses(entries_view(routes@)) <= usize::MAX,
        ensures
            final(self).wf(),
            final(self).nodes() == old(self).nodes(),
            final(self).active_mode() == old(self).active_mode(),
            !old(self).active_mode() ==> r.0 == 0 && r.1@.len() == 0 && final(self).routes() == old(
                self,
            ).routes(),
            old(self).active_mode() ==> r.0 == total_addresses(entries_view(routes@))
                && final(self).routes() == table_added(
                old(self).routes(),
                old(self).settings().max_routes,
                entries_view(routes@),
            ),
    {
        let mut events: Vec<BootstrapEvent> = Vec::new();
        if !self.active {
            return (0, events);
        }
        let ghost s = entries_view(routes@);
        let ghost start = self.routes();
        let mut imported: usize = 0;
        let mut i: usize = 0;
        while i < routes.len()
            invariant
                0 <= i <= routes@.len(),
                s == entries_view(routes@),
                total_addresses(s) <= usize::MAX,
                self.wf(),
                self.active,
                self.nodes() == old(self).nodes(),
                self.settings() == old(self).settings(),
                start == old(self).routes(),
                imported == total_addresses(s.take(i as int)),
                self.routes() == table_added(start, self.settings().max_routes, s.take(i as int)),
            decreases routes@.len() - i,
        {
            let addrs = &routes[i].1;
            let mut j: usize = 0;
            let ghost mid = self.routes();
            proof {
                lemma_total_addresses_prefix(s, i as int);
                assert(s.take(i + 1).drop_last() =~= s.take(i as int));
            }
            while j < addrs.len()
                invariant
                    0 <= j <= addrs@.len(),
                    addrs == &routes@[i as int].1,
                    s == entries_view(routes@),
                    0 <= i < routes@.len(),
                    self.wf(),
                    self.active,
                    self.nodes() == old(self).nodes(),
                    self.settings() == old(self).settings(),
                    imported == total_addresses(s.take(i as int)) + j,
                    total_addresses(s.take(i as int)) + addrs@.len() <= usize::MAX,
                    self.routes() == routes_added(
                        mid,
                        self.settings().max_routes,
                        s[i as int].0,
                        bytes_list(addrs@).take(j as int),
                    ),
                decreases addrs@.len() - j,
            {
                proof {
                    assert(bytes_list(addrs@).take(j + 1).drop_last() =~= bytes_list(addrs@).take(
                        j as int,
                    ));
                }
                match self.add_route(routes[i].0.as_slice(), addrs[j].as_slice()) {
                    Some(e) => events.push(e),
                    None => {},
                }
                imported = imported + 1;
                j = j + 1;
            }
            proof {
                assert(bytes_list(addrs@).take(addrs@.len() as int) =~= bytes_list(addrs@));
            }
            i = i + 1;
        }
        proof {
            assert(s.take(routes@.len() as int) =~= s);
        }
        (imported, events)
    }

    /// Sets the lifetime of cached routes (milliseconds); nothing else
    /// changes.
    pub fn update_route_ttl(&mut self, new_ttl: u64)
        requires
            old(self).wf(),
        ensures
            final(self).wf(),
            final(self).settings() == (BootstrapServerConfig { route_ttl: new_ttl, ..old(self).settings() }),
            final(self).routes() == old(self).routes(),
            final(self).nodes() == old(self).nodes(),
            final(self).active_mode() == old(self).active_mode(),
            final(self).statistics() == old(self).statistics(),
            final(self).last_sync_at() == old(self).last_sync_at(),
            final(self).local_peer() == old(self).local_peer(),
    {
        self.config.route_ttl = new_ttl;
    }

    /// Sets the limit of cached peers to `new_max`; nothing else changes.
    pub fn increase_max_routes(&mut self, new_max: usize)
        requires
            old(self).wf(),
        ensures
            final(self).wf(),
            final(self).settings() == (BootstrapServerConfig { max_routes: new_max, ..old(self).settings() }),
            final(self).routes() == old(self).routes(),
            final(self).nodes() == old(self).nodes(),
            final(self).active_mode() == old(self).active_mode(),
            final(self).statistics() == old(self).statistics(),
            final(self).last_sync_at() == old(self).last_sync_at(),
            final(self).local_peer() == old(self).local_peer(),
    {
        self.config.max_routes = new_max;
    }

    /// Whether an active server has at least one cached address for `peer_id`.
    pub fn has_route_to(&self, peer_id: &[u8]) -> (r: bool)
        requires
            self.wf(),
        ensures
            r == (self.active_mode() && self.routes().contains_key(peer_id@)
                && self.routes()[peer_id@].len() > 0),
    {
        if !self.active {
            return false;
        }
        match self.extended_routes.get(peer_id) {
            Some(addrs) => addrs.len() > 0,
            None => false,
        }
    }
}

impl BootstrapServerStats {
    /// All counters at zero.
    pub open spec fn default_value() -> BootstrapServerStats {
        BootstrapServerStats {
            route_requests: 0,
            successful_responses: 0,
            cached_routes_count: 0,
            sync_count: 0,
            announced_routes: 0,
        }
    }
}

/// The route cache after adding each address of `addrs` for `peer`, in order.
pub open spec fn routes_added(
    routes: Map<Seq<u8>, Seq<Seq<u8>>>,
    max: usize,
    peer: Seq<u8>,
    addrs: Seq<Seq<u8>>,
) -> Map<Seq<u8>, Seq<Seq<u8>>>
    decreases addrs.len(),
{
    if addrs.len() == 0 {
        routes
    } else {
        route_added(routes_added(routes, max, peer, addrs.drop_last()), max, peer, addrs.last())
    }
}

/// The addresses of `addrs` that are new to the route cache at the moment
/// each is added for `peer`, in order.
pub open spec fn fresh_routes(
    routes: Map<Seq<u8>, Seq<Seq<u8>>>,
    max: usize,
    peer: Seq<u8>,
    addrs: Seq<Seq<u8>>,
) -> Seq<Seq<u8>>
    decreases addrs.len(),
{
    if addrs.len() == 0 {
        Seq::empty()
    } else {
        let earlier = fresh_routes(routes, max, peer, addrs.drop_last());
        if route_is_new(routes_added(routes, max, peer, addrs.drop_last()), max, peer, addrs.last()) {
            earlier.push(addrs.last())
        } else {
            earlier
        }
    }
}

/// Whether `e` announces the new route `addr` for `peer`.
pub open spec fn announces_route(e: BootstrapEvent, peer: Seq<u8>, addr: Seq<u8>) -> bool {
    e matches BootstrapEvent::RouteAdded { peer_id: p, addr: a } && p@ == peer && a@ == addr
}

/// What a DHT routing update for `peer` with addresses `addrs` does to an
/// active server `s`, which becomes `t` and announces `events`: each address
/// is cached in order, each new route is announced in that order, the update
/// is counted (with the cached-peer count refreshed when a route was added),
/// and `RoutingUpdated` is announced last.
pub open spec fn routing_update(
    s: BootstrapServer,
    t: BootstrapServer,
    peer: Seq<u8>,
    addrs: Seq<Seq<u8>>,
    events: Seq<BootstrapEvent>,
) -> bool {
    let max = s.settings().max_routes;
    let fresh = fresh_routes(s.routes(), max, peer, addrs);
    &&& t.routes() == routes_added(s.routes(), max, peer, addrs)
    &&& t.nodes() == s.nodes()
    &&& t.active_mode() == s.active_mode()
    &&& t.settings() == s.settings()
    &&& t.last_sync_at() == s.last_sync_at()
    &&& t.local_peer() == s.local_peer()
    &&& t.statistics() == (BootstrapServerStats {
        announced_routes: (s.statistics().announced_routes + 1) as usize,
        cached_routes_count: if fresh.len() > 0 {
            t.routes().len() as usize
        } else {
            s.statistics().cached_routes_count
        },
        ..s.statistics()
    })
    &&& events.len() == fresh.len() + 1
    &&& forall|i: int| 0 <= i < fresh.len() ==> announces_route(#[trigger] events[i], peer, fresh[i])
    &&& events.last() matches BootstrapEvent::RoutingUpdated { peer_id: p, addresses: a } && p@ == peer
        && bytes_list(a@) == addrs
}

/// The route cache after adding every address of every entry, in order.
pub open spec fn table_added(
    routes: Map<Seq<u8>, Seq<Seq<u8>>>,
    max: usize,
    entries: Seq<Entry>,
) -> Map<Seq<u8>, Seq<Seq<u8>>>
    decreases entries.len(),
{
    if entries.len() == 0 {
        routes
    } else {
        routes_added(
            table_added(routes, max, entries.drop_last()),
            max,
            entries.last().0,
            entries.last().1,
        )
    }
}

proof fn lemma_total_addresses_prefix(s: Seq<Entry>, i: int)
    requires
        0 <= i < s.len(),
    ensures
        total_addresses(s.take(i + 1)) == total_addresses(s.take(i)) + s[i].1.len(),
        total_addresses(s.take(i + 1)) <= total_addresses(s),
    decreases s.len(),
{
    assert(s.take(i + 1).drop_last() =~= s.take(i));
    if i + 1 < s.len() {
        lemma_total_addresses_prefix(s.drop_last(), i);
        assert(s.drop_last().take(i + 1) =~= s.take(i + 1));
        lemma_total_addresses_monotone(s.drop_last(), i + 1);
    } else {
        assert(s.take(i + 1) =~= s);
    }
}

proof fn lemma_total_addresses_monotone(s: Seq<Entry>, n: int)
    requires
        0 <= n <= s.len(),
    ensures
        total_addresses(s.take(n)) <= total_addresses(s),
    decreases s.len(),
{
    if n < s.len() {
        lemma_total_addresses_monotone(s.drop_last(), n);
        assert(s.drop_last().take(n) =~= s.take(n));
    } else {
        assert(s.take(n) =~= s);
    }
}

fn copy_entries(list: &Vec<(Vec<u8>, Vec<Vec<u8>>)>) -> (r: Vec<(Vec<u8>, Vec<Vec<u8>>)>)
    ensures
        entries_view(r@) == entries_view(list@),
{
    let mut out: Vec<(Vec<u8>, Vec<Vec<u8>>)> = Vec::new();
    let mut i: usize = 0;
    while i < list.len()
        invariant
            0 <= i <= list@.len(),
            out@.len() == i,
            entries_view(out@) == entries_view(list@).take(i as int),
        decreases list@.len() - i,
    {
        let k = copy_bytes(list[i].0.as_slice());
        let v = copy_byte_list(&list[i].1);
        let ghost prev = out@;
        out.push((k, v));
        proof {
            assert forall|j: int| 0 <= j < i + 1 implies entries_view(out@)[j] == entries_view(
                list@,
            ).take(i + 1)[j] by {
                if j < i {
                    assert(out@[j] == prev[j]);
                    assert(entries_view(prev)[j] == entries_view(list@).take(i as int)[j]);
                }
            }
        }
        i = i + 1;
        assert(entries_view(out@) =~= entries_view(list@).take(i as int));
    }
    assert(entries_view(list@).take(list@.len() as int) =~= entries_view(list@));
    out
}

/// A full cache refuses a new peer: adding a route for it changes nothing.
pub proof fn law_full_cache_refuses_new_peer(
    routes: Map<Seq<u8>, Seq<Seq<u8>>>,
    max: usize,
    peer: Seq<u8>,
    addr: Seq<u8>,
)
    ensures
        routes.dom().finite() && routes.len() >= max && !routes.contains_key(peer) ==> route_added(
            routes,
            max,
            peer,
            addr,
        ) == routes,
{
}

/// Once an address is cached for a peer, it can be read back, and caching it
/// again changes nothing.
pub proof fn law_cached_route_is_found(
    routes: Map<Seq<u8>, Seq<Seq<u8>>>,
    max: usize,
    peer: Seq<u8>,
    addr: Seq<u8>,
)
    requires
        routes.contains_key(peer) || routes.len() < max,
    ensures
        route_added(routes, max, peer, addr).contains_key(peer),
        route_added(routes, max, peer, addr)[peer].contains(addr),
        route_added(route_added(routes, max, peer, addr), max, peer, addr) == route_added(
            routes,
            max,
            peer,
            addr,
        ),
{
    let r = route_added(routes, max, peer, addr);
    if routes.contains_key(peer) {
        if !routes[peer].contains(addr) {
            assert(r[peer] == routes[peer].push(addr));
            assert(r[peer][routes[peer].len() as int] == addr);
        }
    } else {
        assert(r[peer] == seq![addr]);
        assert(r[peer][0] == addr);
    }
}

/// The cache never holds more peers than its limit once it is within it.
pub proof fn law_route_cache_stays_bounded(
    routes: Map<Seq<u8>, Seq<Seq<u8>>>,
    max: usize,
    peer: Seq<u8>,
    addr: Seq<u8>,
)
    requires
        routes.dom().finite(),
        routes.len() <= max,
    ensures
        route_added(routes, max, peer, addr).dom().finite(),
        route_added(routes, max, peer, addr).len() <= max,
{
    if !(routes.len() >= max && !routes.contains_key(peer)) {
        if routes.contains_key(peer) {
            assert(routes.insert(peer, routes[peer].push(addr)).dom() =~= routes.dom());
        } else {
            assert(routes.insert(peer, seq![addr]).dom() =~= routes.dom().insert(peer));
        }
    }
}

/// A known address is never cached twice: adding an address already cached
/// for the peer changes nothing and is not announced as new; an announced
/// address was not cached for the peer before and is appended after the
/// peer's earlier addresses; and a cache whose address lists hold no repeats
/// keeps holding none.
pub proof fn law_known_address_is_not_cached_twice(
    routes: Map<Seq<u8>, Seq<Seq<u8>>>,
    max: usize,
    peer: Seq<u8>,
    addr: Seq<u8>,
)
    ensures
        routes.contains_key(peer) && routes[peer].contains(addr) ==> {
            &&& route_added(routes, max, peer, addr) == routes
            &&& !route_is_new(routes, max, peer, addr)
        },
        route_is_new(routes, max, peer, addr) ==> {
            &&& !(routes.contains_key(peer) && routes[peer].contains(addr))
            &&& route_added(routes, max, peer, addr)[peer] == (if routes.contains_key(peer) {
                routes[peer]
            } else {
                Seq::empty()
            }).push(addr)
        },
        (forall|p: Seq<u8>| #[trigger] routes.contains_key(p) ==> routes[p].no_duplicates())
            ==> forall|p: Seq<u8>| #[trigger]
            route_added(routes, max, peer, addr).contains_key(p) ==> route_added(
                routes,
                max,
                peer,
                addr,
            )[p].no_duplicates(),
{
    let r = route_added(routes, max, peer, addr);
    if !routes.contains_key(peer) && !(routes.len() >= max) {
        assert(seq![addr] =~= Seq::<Seq<u8>>::empty().push(addr));
    }
    if forall|p: Seq<u8>| #[trigger] routes.contains_key(p) ==> routes[p].no_duplicates() {
        assert forall|p: Seq<u8>| #[trigger] r.contains_key(p) implies r[p].no_duplicates() by {
            if p == peer && route_is_new(routes, max, peer, addr) {
                if routes.contains_key(peer) {
                    let old_list = routes[peer];
                    let new_list = old_list.push(addr);
                    assert forall|i: int, j: int|
                        0 <= i < new_list.len() && 0 <= j < new_list.len() && i != j implies new_list[i]
                        != new_list[j] by {
                        if i == old_list.len() as int {
                            assert(new_list[j] == old_list[j]);
                            assert(old_list.contains(old_list[j]));
                        } else if j == old_list.len() as int {
                            assert(new_list[i] == old_list[i]);
                            assert(old_list.contains(old_list[i]));
                        } else {
                            assert(new_list[i] == old_list[i]);
                            assert(new_list[j] == old_list[j]);
                        }
                    }
                }
            }
        }
    }
}

} // verus!
