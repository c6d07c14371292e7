//! The decisions of a network node: which peers are connected at which
//! addresses, which are authenticated, whether mDNS discoveries are used,
//! and how bootstrap-server commands are answered. The node's event loop
//! performs the network side of each decision.
use vstd::prelude::*;

use crate::bootstrap::{
    routing_update, synced, ticked, BootstrapEvent, BootstrapServer, BootstrapServerConfig, BootstrapServerStats,
};
use crate::peer_map::PeerMap;
use crate::por_auth::{EventView, PorAuthEvent};
use crate::routes::{
    bytes_equal, bytes_list, copy_byte_list, copy_bytes, entries_map, entries_view, keys_unique,
    list_map, Entry, RouteTable,
};
use crate::types::{append_decimal, decimal_text};

verus! {

broadcast use vstd::string::group_string_axioms;

/// `s` without any occurrence of `x`.
pub open spec fn without(s: Seq<Seq<u8>>, x: Seq<u8>) -> Seq<Seq<u8>>
    decreases s.len(),
{
    if s.len() == 0 {
        s
    } else if s.last() == x {
        without(s.drop_last(), x)
    } else {
        without(s.drop_last(), x).push(s.last())
    }
}

/// The connection table after a connection to `peer` at `addr` closed: the
/// address is dropped, and a peer left without addresses is dropped.
pub open spec fn after_close(
    conns: Map<Seq<u8>, Seq<Seq<u8>>>,
    peer: Seq<u8>,
    addr: Seq<u8>,
) -> Map<Seq<u8>, Seq<Seq<u8>>> {
    if conns.contains_key(peer) {
        let rest = without(conns[peer], addr);
        if rest.len() == 0 {
            conns.remove(peer)
        } else {
            conns.insert(peer, rest)
        }
    } else {
        conns
    }
}

/// The connection table after a connection to `peer` at `addr` opened.
pub open spec fn after_open(
    conns: Map<Seq<u8>, Seq<Seq<u8>>>,
    peer: Seq<u8>,
    addr: Seq<u8>,
) -> Map<Seq<u8>, Seq<Seq<u8>>> {
    conns.insert(
        peer,
        if conns.contains_key(peer) {
            conns[peer].push(addr)
        } else {
            seq![addr]
        },
    )
}

/// The text with which bootstrap commands fail on a node without a
/// bootstrap server.
pub open spec fn no_server_text() -> Seq<char> {
    "Bootstrap server not available"@
}

/// What a node tells the application.
#[derive(Debug)]
pub enum NetworkEvent {
    PeerConnected { peer_id: Vec<u8> },
    PeerDisconnected { peer_id: Vec<u8> },
    ConnectionError { peer_id: Option<Vec<u8>>, error: String },
    ConnectionOpened { peer_id: Vec<u8>, addr: Vec<u8>, connection_id: u64, protocols: Vec<String> },
    ConnectionClosed { peer_id: Vec<u8>, addr: Vec<u8>, connection_id: u64 },
    ListeningOnAddress { addr: Vec<u8>, full_addr: Option<Vec<u8>> },
    StopListeningOnAddress { addr: Vec<u8> },
    MdnsIsOn,
    MdnsIsOff,
    KadAddressAdded { peer_id: Vec<u8>, addr: Vec<u8> },
    KadRoutingUpdated { peer_id: Vec<u8>, addresses: Vec<Vec<u8>> },
    AuthEvent { event: PorAuthEvent },
}

/// The abstract form of optional bytes.
pub open spec fn opt_bytes(o: Option<Vec<u8>>) -> Option<Seq<u8>> {
    match o {
        Some(b) => Some(b@),
        None => None,
    }
}

/// Abstract event for the application.
pub enum NetEventView {
    PeerConnected(Seq<u8>),
    PeerDisconnected(Seq<u8>),
    ConnectionError(Option<Seq<u8>>, Seq<char>),
    ConnectionOpened(Seq<u8>, Seq<u8>, u64, Seq<Seq<char>>),
    ConnectionClosed(Seq<u8>, Seq<u8>, u64),
    ListeningOnAddress(Seq<u8>, Option<Seq<u8>>),
    StopListeningOnAddress(Seq<u8>),
    MdnsIsOn,
    MdnsIsOff,
    KadAddressAdded(Seq<u8>, Seq<u8>),
    KadRoutingUpdated(Seq<u8>, Seq<Seq<u8>>),
    AuthEvent(EventView),
}

impl View for NetworkEvent {
    type V = NetEventView;

    open spec fn view(&self) -> NetEventView {
        match self {
            NetworkEvent::PeerConnected { peer_id } => NetEventView::PeerConnected(peer_id@),
            NetworkEvent::PeerDisconnected { peer_id } => NetEventView::PeerDisconnected(peer_id@),
            NetworkEvent::ConnectionError { peer_id, error } => NetEventView::ConnectionError(
                opt_bytes(*peer_id),
                error@,
            ),
            NetworkEvent::ConnectionOpened { peer_id, addr, connection_id, protocols } =>
                NetEventView::ConnectionOpened(
                peer_id@,
                addr@,
                *connection_id,
                protocols@.map_values(|p: String| p@),
            ),
            NetworkEvent::ConnectionClosed { peer_id, addr, connection_id } =>
                NetEventView::ConnectionClosed(peer_id@, addr@, *connection_id),
            NetworkEvent::ListeningOnAddress { addr, full_addr } => NetEventView::ListeningOnAddress(
                addr@,
                opt_bytes(*full_addr),
            ),
            NetworkEvent::StopListeningOnAddress { addr } => NetEventView::StopListeningOnAddress(
                addr@,
            ),
            NetworkEvent::MdnsIsOn => NetEventView::MdnsIsOn,
            NetworkEvent::MdnsIsOff => NetEventView::MdnsIsOff,
            NetworkEvent::KadAddressAdded { peer_id, addr } => NetEventView::KadAddressAdded(
                peer_id@,
                addr@,
            ),
            NetworkEvent::KadRoutingUpdated { peer_id, addresses } =>
                NetEventView::KadRoutingUpdated(peer_id@, bytes_list(addresses@)),
            NetworkEvent::AuthEvent { event } => NetEventView::AuthEvent(event@),
        }
    }
}

/// The abstract forms of a list of events.
pub open spec fn events_view(s: Seq<NetworkEvent>) -> Seq<NetEventView> {
    s.map_values(|e: NetworkEvent| e@)
}

/// What the swarm reported, apart from its behaviours' events.
pub enum SwarmReport {
    /// A connection opened; `num_established` counts the peer's connections
    /// including this one.
    ConnectionEstablished { peer_id: Vec<u8>, addr: Vec<u8>, connection_id: u64, num_established: u32 },
    /// A connection closed; `num_established` counts the peer's remaining
    /// connections.
    ConnectionClosed { peer_id: Vec<u8>, addr: Vec<u8>, connection_id: u64, num_established: u32 },
    NewListenAddr { addr: Vec<u8> },
    ExpiredListenAddr { addr: Vec<u8> },
    /// Dialling failed; the error as text.
    OutgoingConnectionError { peer_id: Option<Vec<u8>>, error: String },
    /// An incoming connection failed; the error as text.
    IncomingConnectionError { error: String },
    Other,
}

/// What a behaviour of the node reported.
pub enum BehaviourReport {
    /// mDNS discovered peers at addresses.
    MdnsDiscovered { peers: Vec<(Vec<u8>, Vec<u8>)> },
    /// The DHT's routing table changed for a peer.
    KadRoutingUpdated { peer_id: Vec<u8>, addresses: Vec<Vec<u8>> },
    /// Any other DHT event.
    KadOther,
    /// A peer identified itself, with the addresses it listens on.
    IdentifyReceived { peer_id: Vec<u8>, listen_addrs: Vec<Vec<u8>> },
    /// The authentication announced an event.
    PorAuth { event: PorAuthEvent },
    Other,
}

/// What the node does about a behaviour's report.
pub struct BehaviourStep {
    /// Addresses to add to the DHT, as peer and address.
    pub kad_additions: Vec<(Vec<u8>, Vec<u8>)>,
    /// Events for the application.
    pub events: Vec<NetworkEvent>,
    /// Events of the bootstrap server.
    pub bootstrap_events: Vec<BootstrapEvent>,
}

/// The abstract form of a list of peers with addresses.
pub open spec fn pairs_bytes(s: Seq<(Vec<u8>, Vec<u8>)>) -> Seq<(Seq<u8>, Seq<u8>)> {
    s.map_values(|p: (Vec<u8>, Vec<u8>)| (p.0@, p.1@))
}

/// The events that announce DHT additions.
pub open spec fn additions_announced(s: Seq<(Seq<u8>, Seq<u8>)>) -> Seq<NetEventView> {
    s.map_values(|p: (Seq<u8>, Seq<u8>)| NetEventView::KadAddressAdded(p.0, p.1))
}

/// `addrs`, each paired with `peer`.
pub open spec fn paired_with(peer: Seq<u8>, addrs: Seq<Seq<u8>>) -> Seq<(Seq<u8>, Seq<u8>)> {
    addrs.map_values(|a: Seq<u8>| (peer, a))
}

/// The events for a swarm report about a connection of `peer` (opened or
/// closed): the connection event, then the peer event when it is the peer's
/// first (or last) connection.
pub open spec fn connection_events(first: NetEventView, then: Option<NetEventView>) -> Seq<
    NetEventView,
> {
    match then {
        Some(e) => seq![first, e],
        None => seq![first],
    }
}

/// The addresses of the first entry for `peer` in a DHT bucket, if any.
pub open spec fn bucket_addresses(b: Seq<Entry>, peer: Seq<u8>) -> Seq<Seq<u8>>
    decreases b.len(),
{
    if b.len() == 0 {
        Seq::empty()
    } else if b[0].0 == peer {
        b[0].1
    } else {
        bucket_addresses(b.drop_first(), peer)
    }
}

/// The addresses of `peer` in a DHT routing table, bucket by bucket: the
/// first bucket whose entry for the peer has addresses gives them.
pub open spec fn table_addresses(t: Seq<Seq<Entry>>, peer: Seq<u8>) -> Seq<Seq<u8>>
    decreases t.len(),
{
    if t.len() == 0 {
        Seq::empty()
    } else {
        let a = bucket_addresses(t[0], peer);
        if a.len() > 0 {
            a
        } else {
            table_addresses(t.drop_first(), peer)
        }
    }
}

/// The entries of a bucket that have addresses, in order.
pub open spec fn reachable_entries(b: Seq<Entry>) -> Seq<Entry>
    decreases b.len(),
{
    if b.len() == 0 {
        Seq::empty()
    } else {
        let rest = reachable_entries(b.drop_last());
        if b.last().1.len() > 0 {
            rest.push(b.last())
        } else {
            rest
        }
    }
}

/// The entries of a routing table that have addresses, bucket by bucket.
pub open spec fn table_reachable(t: Seq<Seq<Entry>>) -> Seq<Entry>
    decreases t.len(),
{
    if t.len() == 0 {
        Seq::empty()
    } else {
        table_reachable(t.drop_last()) + reachable_entries(t.last())
    }
}

/// The abstract form of a routing table.
pub open spec fn buckets_view(t: Seq<Vec<(Vec<u8>, Vec<Vec<u8>>)>>) -> Seq<Seq<Entry>> {
    t.map_values(|b: Vec<(Vec<u8>, Vec<Vec<u8>>)>| entries_view(b@))
}

fn bucket_lookup(bucket: &Vec<(Vec<u8>, Vec<Vec<u8>>)>, peer: &[u8]) -> (r: Vec<Vec<u8>>)
    ensures
        bytes_list(r@) == bucket_addresses(entries_view(bucket@), peer@),
{
    let ghost b = entries_view(bucket@);
    let mut j: usize = 0;
    assert(b.skip(0) =~= b);
    while j < bucket.len()
        invariant
            0 <= j <= bucket@.len(),
            b == entries_view(bucket@),
            bucket_addresses(b, peer@) == bucket_addresses(b.skip(j as int), peer@),
        decreases bucket@.len() - j,
    {
        proof {
            assert(b.skip(j as int).drop_first() =~= b.skip(j + 1));
            assert(b.skip(j as int)[0] == b[j as int]);
        }
        if bytes_equal(bucket[j].0.as_slice(), peer) {
            return copy_byte_list(&bucket[j].1);
        }
        j = j + 1;
    }
    let out: Vec<Vec<u8>> = Vec::new();
    assert(bytes_list(out@) =~= Seq::<Seq<u8>>::empty());
    out
}

/// The addresses of `peer_id` in a DHT routing table given bucket by bucket:
/// those of the first bucket whose entry for the peer has addresses, or none.
pub fn peer_addresses_in(buckets: &Vec<Vec<(Vec<u8>, Vec<Vec<u8>>)>>, peer_id: &[u8]) -> (r: Vec<
    Vec<u8>,
>)
    ensures
        bytes_list(r@) == table_addresses(buckets_view(buckets@), peer_id@),
{
    let ghost t = buckets_view(buckets@);
    let mut i: usize = 0;
    assert(t.skip(0) =~= t);
    while i < buckets.len()
        invariant
            0 <= i <= buckets@.len(),
            t == buckets_view(buckets@),
            table_addresses(t, peer_id@) == table_addresses(t.skip(i as int), peer_id@),
        decreases buckets@.len() - i,
    {
        proof {
            assert(t.skip(i as int).drop_first() =~= t.skip(i + 1));
            assert(t.skip(i as int)[0] == t[i as int]);
        }
        let a = bucket_lookup(&buckets[i], peer_id);
        if a.len() > 0 {
            return a;
        }
        i = i + 1;
    }
    let out: Vec<Vec<u8>> = Vec::new();
    assert(bytes_list(out@) =~= Seq::<Seq<u8>>::empty());
    out
}

/// The peers of a DHT routing table given bucket by bucket that have
/// addresses, with them, in table order.
pub fn kad_known_peers(buckets: &Vec<Vec<(Vec<u8>, Vec<Vec<u8>>)>>) -> (r: Vec<
    (Vec<u8>, Vec<Vec<u8>>),
>)
    ensures
        entries_view(r@) == table_reachable(buckets_view(buckets@)),
{
    let ghost t = buckets_view(buckets@);
    let mut out: Vec<(Vec<u8>, Vec<Vec<u8>>)> = Vec::new();
    let mut i: usize = 0;
    while i < buckets.len()
        invariant
            0 <= i <= buckets@.len(),
            t == buckets_view(buckets@),
            entries_view(out@) == table_reachable(t.take(i as int)),
        decreases buckets@.len() - i,
    {
        let bucket = &buckets[i];
        let ghost b = entries_view(bucket@);
        let ghost base = entries_view(out@);
        let mut j: usize = 0;
        assert(b.take(0) =~= Seq::<Entry>::empty());
        assert(base + reachable_entries(b.take(0)) =~= base);
        while j < bucket.len()
            invariant
                0 <= j <= bucket@.len(),
                b == entries_view(bucket@),
                entries_view(out@) == base + reachable_entries(b.take(j as int)),
            decreases bucket@.len() - j,
        {
            let ghost before = entries_view(out@);
            proof {
                assert(b.take(j + 1).drop_last() =~= b.take(j as int));
                assert(b.take(j + 1).last() == b[j as int]);
            }
            if bucket[j].1.len() > 0 {
                out.push((copy_bytes(bucket[j].0.as_slice()), copy_byte_list(&bucket[j].1)));
                proof {
                    assert(entries_view(out@) =~= before.push(b[j as int]));
                    assert(base + reachable_entries(b.take(j + 1)) =~= (base + reachable_entries(
                        b.take(j as int),
                    )).push(b[j as int]));
                }
            }
            j = j + 1;
        }
        proof {
            assert(b.take(bucket@.len() as int) =~= b);
            assert(t.take(i + 1).drop_last() =~= t.take(i as int));
            assert(t.take(i + 1).last() == t[i as int]);
        }
        i = i + 1;
    }
    assert(t.take(buckets@.len() as int) =~= t);
    out
}

/// The address a node listens on for `port`: QUIC over UDP on all IPv4
/// interfaces, as text.
pub open spec fn listen_address_text(port: u16) -> Seq<char> {
    "/ip4/0.0.0.0/udp/"@ + decimal_text(port as nat) + "/quic-v1"@
}

/// The listening address for `port`, as text.
pub fn listen_address(port: u16) -> (r: String)
    ensures
        r@ == listen_address_text(port),
{
    let mut s = "/ip4/0.0.0.0/udp/".to_string();
    append_decimal(&mut s, port as u128);
    s.append("/quic-v1");
    s
}

/// A bootstrap-server command.
pub enum BootstrapCommand {
    Activate,
    Deactivate,
    GetStats,
    AddNode { peer_id: Vec<u8>, addrs: Vec<Vec<u8>> },
    RemoveNode { peer_id: Vec<u8> },
    GetNodes,
    ForceSync,
}

/// A command to the node, with what the node needs to know from outside to
/// decide it (the DHT's routing table, bucket by bucket; the
/// authentication's own answer).
pub enum NodeCommand {
    EnableMdns,
    DisableMdns,
    EnableKad,
    DisableKad,
    OpenListenPort { port: u16 },
    Connect { addr: Vec<u8> },
    Disconnect { peer_id: Vec<u8> },
    GetConnectionsForPeer { peer_id: Vec<u8> },
    GetPeersConnected { peer_id: Vec<u8> },
    GetListenAddresses,
    Shutdown,
    GetKadKnownPeers { buckets: Vec<Vec<(Vec<u8>, Vec<Vec<u8>>)>> },
    GetPeerAddresses { peer_id: Vec<u8>, buckets: Vec<Vec<(Vec<u8>, Vec<Vec<u8>>)>> },
    FindPeerAddresses { peer_id: Vec<u8> },
    IsPeerAuthenticated { peer_id: Vec<u8>, by_authentication: bool },
    Bootstrap { command: BootstrapCommand },
}

/// What the node's event loop is to do about a command.
pub enum CommandOutcome {
    /// Nothing; no answer.
    Nothing,
    /// Listen on this address and answer with it (or with the error).
    Listen { addr: String },
    /// Dial this address and answer.
    Dial { addr: Vec<u8> },
    /// Disconnect the peer; once that succeeded, forget its connections
    /// (`on_disconnected`) and answer `Ok`, otherwise answer the error.
    Disconnect { peer_id: Vec<u8> },
    /// Answer that the node is not connected to the peer.
    NotConnected { peer_id: Vec<u8> },
    /// Answer with these addresses.
    Addresses(Vec<Vec<u8>>),
    /// Answer with these peers and their addresses.
    Peers(Vec<(Vec<u8>, Vec<Vec<u8>>)>),
    /// Start a DHT search for the peer and answer `Ok`.
    FindPeer { peer_id: Vec<u8> },
    /// Answer with this.
    Authenticated(bool),
    /// Answer with this result, and pass the server's event on, if any.
    BootstrapDone { result: Result<(), String>, event: Option<BootstrapEvent> },
    /// Answer with these statistics.
    BootstrapStats(BootstrapServerStats),
    /// Answer with these bootstrap servers.
    BootstrapNodes(Vec<(Vec<u8>, Vec<Vec<u8>>)>),
    /// A forced synchronisation: the servers to put into the DHT and query,
    /// with the server's event (nothing for an inactive server), or the error.
    BootstrapSynced(Result<Option<(Vec<(Vec<u8>, Vec<Vec<u8>>)>, BootstrapEvent)>, String>),
}

/// What a node decides on: its connections, its authenticated peers, whether
/// mDNS discoveries are used, and its bootstrap server if it has one.
pub struct NodeState {
    local_peer_id: Vec<u8>,
    connected_peers: RouteTable,
    authenticated_peers: PeerMap<()>,
    mdns_enabled: bool,
    bootstrap_server: Option<BootstrapServer>,
}

impl NodeState {
    /// The connected peers with the addresses of their connections.
    pub closed spec fn connections(&self) -> Map<Seq<u8>, Seq<Seq<u8>>> {
        self.connected_peers.view()
    }

    /// The peers that completed mutual authentication.
    pub closed spec fn authenticated(&self) -> Set<Seq<u8>> {
        self.authenticated_peers.view().dom()
    }

    /// Whether mDNS discoveries are used.
    pub closed spec fn mdns(&self) -> bool {
        self.mdns_enabled
    }

    /// The node's own peer id.
    pub closed spec fn local_peer(&self) -> Seq<u8> {
        self.local_peer_id@
    }

    /// Whether the node has a bootstrap server.
    pub closed spec fn has_server(&self) -> bool {
        self.bootstrap_server is Some
    }

    /// The bootstrap server, when the node has one.
    pub closed spec fn server(&self) -> BootstrapServer {
        self.bootstrap_server->0
    }

    /// The tables hold each peer once.
    pub closed spec fn wf(&self) -> bool {
        &&& self.connected_peers.wf()
        &&& self.authenticated_peers.wf()
        &&& (self.bootstrap_server matches Some(s) ==> s.wf())
    }

    /// A node with no connections and no authenticated peers, mDNS on, and a
    /// bootstrap server (inactive, last synchronised at `now`) exactly when a
    /// configuration is given.
    pub fn new(local_peer_id: Vec<u8>, bootstrap_config: Option<BootstrapServerConfig>, now: u64) -> (r:
        Self)
        ensures
            r.wf(),
            r.connections() == Map::<Seq<u8>, Seq<Seq<u8>>>::empty(),
            r.authenticated() == Set::<Seq<u8>>::empty(),
            r.mdns(),
            r.local_peer() == local_peer_id@,
            r.has_server() == bootstrap_config is Some,
            bootstrap_config matches Some(c) ==> {
                &&& !r.server().active_mode()
                &&& r.server().settings() == c
                &&& r.server().nodes() == list_map(entries_view(c.bootstrap_nodes@))
                &&& r.server().routes() == Map::<Seq<u8>, Seq<Seq<u8>>>::empty()
                &&& r.server().local_peer() == local_peer_id@
            },
    {
        let server = match bootstrap_config {
            Some(c) => Some(BootstrapServer::new(copy_bytes(local_peer_id.as_slice()), c, now)),
            None => None,
        };
        let r = NodeState {
            local_peer_id,
            connected_peers: RouteTable::new(),
            authenticated_peers: PeerMap::new(),
            mdns_enabled: true,
            bootstrap_server: server,
        };
        assert(r.authenticated() =~= Set::<Seq<u8>>::empty());
        r
    }

    /// The node's own peer id.
    pub fn local_peer_id(&self) -> (r: Vec<u8>)
        ensures
            r@ == self.local_peer(),
    {
        copy_bytes(self.local_peer_id.as_slice())
    }

    /// Whether `peer_id` completed mutual authentication with this node.
    pub fn is_peer_authenticated(&self, peer_id: &[u8]) -> (r: bool)
        requires
            self.wf(),
        ensures
            r == self.authenticated().contains(peer_id@),
    {
        self.authenticated_peers.contains_key(peer_id)
    }

    /// The answer to an authentication query: authenticated here, or by the
    /// authentication behaviour (`behaviour_says`).
    pub fn answer_is_authenticated(&self, peer_id: &[u8], behaviour_says: bool) -> (r: bool)
        requires
            self.wf(),
        ensures
            r == (self.authenticated().contains(peer_id@) || behaviour_says),
    {
        self.authenticated_peers.contains_key(peer_id) || behaviour_says
    }

    /// Records that `peer_id` completed mutual authentication.
    pub fn on_mutual_auth_success(&mut self, peer_id: &[u8])
        requires
            old(self).wf(),
        ensures
            final(self).wf(),
            final(self).authenticated() == old(self).authenticated().insert(peer_id@),
            final(self).has_server() == old(self).has_server(),
            final(self).server() == old(self).server(),
            final(self).connections() == old(self).connections(),
            final(self).mdns() == old(self).mdns(),
            final(self).local_peer() == old(self).local_peer(),
    {
        self.authenticated_peers.insert(peer_id, ());
    }

    /// Turns the use of mDNS discoveries on or off.
    pub fn set_mdns(&mut self, enabled: bool)
        ensures
            final(self).mdns() == enabled,
            final(self).has_server() == old(self).has_server(),
            final(self).server() == old(self).server(),
            final(self).connections() == old(self).connections(),
            final(self).authenticated() == old(self).authenticated(),
            final(self).local_peer() == old(self).local_peer(),
            final(self).wf() == old(self).wf(),
    {
        self.mdns_enabled = enabled;
    }

    /// The peers discovered by mDNS that go into the DHT: all of them while
    /// mDNS is on, none otherwise.
    pub fn mdns_discovered(&self, peers: Vec<(Vec<u8>, Vec<u8>)>) -> (r: Vec<(Vec<u8>, Vec<u8>)>)
        ensures
            self.mdns() ==> r@ == peers@,
            !self.mdns() ==> r@.len() == 0,
    {
        if self.mdns_enabled {
            peers
        } else {
            Vec::new()
        }
    }

    /// A connection to `peer_id` at `addr` opened; `num_established` counts the
    /// peer's connections including this one. The address is recorded, and the
    /// result says whether this is the peer's first connection.
    pub fn on_connection_established(&mut self, peer_id: &[u8], addr: Vec<u8>, num_established: u32) -> (r:
        bool)
        requires
            old(self).wf(),
        ensures
            final(self).wf(),
            r == (num_established == 1),
            final(self).has_server() == old(self).has_server(),
            final(self).connections() == after_open(old(self).connections(), peer_id@, addr@),
            final(self).authenticated() == old(self).authenticated(),
            final(self).mdns() == old(self).mdns(),
            final(self).local_peer() == old(self).local_peer(),
    {
        self.connected_peers.push_address(peer_id, addr);
        num_established == 1
    }

    /// A connection to `peer_id` at `addr` closed; `num_established` counts the
    /// peer's remaining connections. The address is dropped (with the peer,
    /// once it has none left), and the result says whether the peer is now
    /// disconnected.
    pub fn on_connection_closed(&mut self, peer_id: &[u8], addr: &[u8], num_established: u32) -> (r:
        bool)
        requires
            old(self).wf(),
        ensures
            final(self).wf(),
            r == (num_established == 0),
            final(self).has_server() == old(self).has_server(),
            final(self).connections() == after_close(old(self).connections(), peer_id@, addr@),
            final(self).authenticated() == old(self).authenticated(),
            final(self).mdns() == old(self).mdns(),
            final(self).local_peer() == old(self).local_peer(),
    {
        match self.connected_peers.get(peer_id) {
            Some(addrs) => {
                let rest = remove_all(&addrs, addr);
                if rest.len() == 0 {
                    self.connected_peers.remove(peer_id);
                } else {
                    self.connected_peers.insert(copy_bytes(peer_id), rest);
                }
            },
            None => {},
        }
        num_established == 0
    }

    /// Whether `peer_id` has an open connection (a disconnect request for a
    /// peer without one is refused).
    pub fn is_connected(&self, peer_id: &[u8]) -> (r: bool)
        requires
            self.wf(),
        ensures
            r == self.connections().contains_key(peer_id@),
    {
        self.connected_peers.contains_key(peer_id)
    }

    /// Forgets the connections of `peer_id` after it was disconnected.
    pub fn on_disconnected(&mut self, peer_id: &[u8])
        requires
            old(self).wf(),
        ensures
            final(self).wf(),
            final(self).connections() == old(self).connections().remove(peer_id@),
            final(self).authenticated() == old(self).authenticated(),
            final(self).mdns() == old(self).mdns(),
            final(self).local_peer() == old(self).local_peer(),
    {
        self.connected_peers.remove(peer_id);
    }

    /// The addresses of `peer_id`'s open connections.
    pub fn connections_for_peer(&self, peer_id: &[u8]) -> (r: Vec<Vec<u8>>)
        requires
            self.wf(),
        ensures
            self.connections().contains_key(peer_id@) ==> bytes_list(r@) == self.connections()[peer_id@],
            !self.connections().contains_key(peer_id@) ==> r@.len() == 0,
    {
        match self.connected_peers.get(peer_id) {
            Some(a) => a,
            None => Vec::new(),
        }
    }

    /// Activates the bootstrap server; fails without one.
    pub fn activate_bootstrap_server(&mut self) -> (r: Result<BootstrapEvent, String>)
        requires
            old(self).wf(),
        ensures
            final(self).wf(),
            final(self).connections() == old(self).connections(),
            final(self).authenticated() == old(self).authenticated(),
            final(self).mdns() == old(self).mdns(),
            final(self).local_peer() == old(self).local_peer(),
            final(self).has_server() == old(self).has_server(),
            !old(self).has_server() ==> (r matches Err(e) && e@ == no_server_text()),
            old(self).has_server() ==> (r matches Ok(BootstrapEvent::Activated))
                && final(self).server().active_mode(),
    {
        match &mut self.bootstrap_server {
            Some(s) => Ok(s.activate()),
            None => Err("Bootstrap server not available".to_string()),
        }
    }

    /// Deactivates the bootstrap server; fails without one.
    pub fn deactivate_bootstrap_server(&mut self) -> (r: Result<BootstrapEvent, String>)
        requires
            old(self).wf(),
        ensures
            final(self).wf(),
            final(self).connections() == old(self).connections(),
            final(self).authenticated() == old(self).authenticated(),
            final(self).mdns() == old(self).mdns(),
            final(self).local_peer() == old(self).local_peer(),
            final(self).has_server() == old(self).has_server(),
            !old(self).has_server() ==> (r matches Err(e) && e@ == no_server_text()),
            old(self).has_server() ==> (r matches Ok(BootstrapEvent::Deactivated))
                && !final(self).server().active_mode(),
    {
        match &mut self.bootstrap_server {
            Some(s) => Ok(s.deactivate()),
            None => Err("Bootstrap server not available".to_string()),
        }
    }

    /// The bootstrap server, if the node has one.
    pub fn get_bootstrap_server(&self) -> (r: Option<&BootstrapServer>)
        ensures
            self.has_server() ==> (r matches Some(s) && *s == self.server()),
            !self.has_server() ==> r is None,
    {
        self.bootstrap_server.as_ref()
    }

    /// The bootstrap server's statistics, if there is a server.
    pub fn bootstrap_stats(&self) -> (r: Option<BootstrapServerStats>)
        ensures
            self.has_server() ==> r == Some(self.server().statistics()),
            !self.has_server() ==> r is None,
    {
        match &self.bootstrap_server {
            Some(s) => Some(s.get_stats()),
            None => None,
        }
    }

    /// Records a known bootstrap server; fails without a bootstrap server.
    pub fn add_bootstrap_node(&mut self, peer_id: Vec<u8>, addrs: Vec<Vec<u8>>) -> (r: Result<(), String>)
        requires
            old(self).wf(),
        ensures
            final(self).wf(),
            final(self).connections() == old(self).connections(),
            final(self).authenticated() == old(self).authenticated(),
            final(self).mdns() == old(self).mdns(),
            final(self).local_peer() == old(self).local_peer(),
            final(self).has_server() == old(self).has_server(),
            !old(self).has_server() ==> (r matches Err(e) && e@ == no_server_text()),
            old(self).has_server() ==> r is Ok && final(self).server().nodes() == old(
                self,
            ).server().nodes().insert(peer_id@, bytes_list(addrs@)),
    {
        match &mut self.bootstrap_server {
            Some(s) => {
                s.add_bootstrap_node(peer_id, addrs);
                Ok(())
            },
            None => Err("Bootstrap server not available".to_string()),
        }
    }

    /// Forgets a known bootstrap server; fails without a bootstrap server.
    pub fn remove_bootstrap_node(&mut self, peer_id: &[u8]) -> (r: Result<(), String>)
        requires
            old(self).wf(),
        ensures
            final(self).wf(),
            final(self).connections() == old(self).connections(),
            final(self).authenticated() == old(self).authenticated(),
            final(self).mdns() == old(self).mdns(),
            final(self).local_peer() == old(self).local_peer(),
            final(self).has_server() == old(self).has_server(),
            !old(self).has_server() ==> (r matches Err(e) && e@ == no_server_text()),
            old(self).has_server() ==> r is Ok && final(self).server().nodes() == old(
                self,
            ).server().nodes().remove(peer_id@),
    {
        match &mut self.bootstrap_server {
            Some(s) => {
                s.remove_bootstrap_node(peer_id);
                Ok(())
            },
            None => Err("Bootstrap server not available".to_string()),
        }
    }

    /// The known bootstrap servers (none without a bootstrap server).
    pub fn bootstrap_nodes(&self) -> (r: Vec<(Vec<u8>, Vec<Vec<u8>>)>)
        requires
            self.wf(),
        ensures
            keys_unique(entries_view(r@)),
            self.has_server() ==> entries_map(entries_view(r@)) == self.server().nodes(),
            !self.has_server() ==> r@.len() == 0,
    {
        match &self.bootstrap_server {
            Some(s) => s.get_bootstrap_nodes(),
            None => Vec::new(),
        }
    }

    /// A forced synchronisation at `now`: fails without a bootstrap server;
    /// otherwise what `sync_with_bootstrap_nodes` returns.
    pub fn force_sync(&mut self, now: u64) -> (r: Result<
        Option<(Vec<(Vec<u8>, Vec<Vec<u8>>)>, BootstrapEvent)>,
        String,
    >)
        requires
            old(self).wf(),
            old(self).has_server() ==> old(self).server().statistics().sync_count < usize::MAX,
        ensures
            final(self).wf(),
            final(self).connections() == old(self).connections(),
            final(self).authenticated() == old(self).authenticated(),
            final(self).mdns() == old(self).mdns(),
            final(self).local_peer() == old(self).local_peer(),
            final(self).has_server() == old(self).has_server(),
            !old(self).has_server() ==> (r matches Err(e) && e@ == no_server_text()),
            old(self).has_server() ==> (r matches Ok(o) && synced(
                old(self).server(),
                final(self).server(),
                o,
                now,
            )),
    {
        match &mut self.bootstrap_server {
            Some(s) => Ok(s.sync_with_bootstrap_nodes(now)),
            None => Err("Bootstrap server not available".to_string()),
        }
    }

    /// The periodic bootstrap duty at `now`: an active server that is due
    /// synchronises (its targets and event are returned), then an active server
    /// refreshes its cached-route count.
    pub fn bootstrap_tick(&mut self, now: u64) -> (r: Option<
        (Vec<(Vec<u8>, Vec<Vec<u8>>)>, BootstrapEvent),
    >)
        requires
            old(self).wf(),
            old(self).has_server() ==> old(self).server().statistics().sync_count < usize::MAX,
        ensures
            final(self).wf(),
            final(self).has_server() == old(self).has_server(),
            final(self).connections() == old(self).connections(),
            final(self).authenticated() == old(self).authenticated(),
            final(self).mdns() == old(self).mdns(),
            final(self).local_peer() == old(self).local_peer(),
            !old(self).has_server() ==> r is None,
            old(self).has_server() ==> ticked(old(self).server(), final(self).server(), r, now),
    {
        match &mut self.bootstrap_server {
            Some(s) => {
                let mut out = None;
                if s.is_active() && s.should_sync(now) {
                    out = s.sync_with_bootstrap_nodes(now);
                }
                s.clean_expired_routes();
                out
            },
            None => None,
        }
    }

    /// A DHT routing update for `peer_id`: an active bootstrap server caches
    /// the addresses and returns its events; otherwise nothing happens.
    pub fn on_routing_updated(&mut self, peer_id: &[u8], addresses: &Vec<Vec<u8>>) -> (r: Vec<
        BootstrapEvent,
    >)
        requires
            old(self).wf(),
            old(self).has_server() ==> old(self).server().statistics().announced_routes
                < usize::MAX,
        ensures
            final(self).wf(),
            final(self).has_server() == old(self).has_server(),
            final(self).connections() == old(self).connections(),
            final(self).authenticated() == old(self).authenticated(),
            final(self).mdns() == old(self).mdns(),
            final(self).local_peer() == old(self).local_peer(),
            !(old(self).has_server() && old(self).server().active_mode()) ==> r@.len() == 0
                && final(self).server() == old(self).server(),
            old(self).has_server() && old(self).server().active_mode() ==> routing_update(
                old(self).server(),
                final(self).server(),
                peer_id@,
                bytes_list(addresses@),
                r@,
            ),
    {
        match &mut self.bootstrap_server {
            Some(s) => {
                if s.is_active() {
                    s.handle_routing_updated(peer_id, addresses)
                } else {
                    Vec::new()
                }
            },
            None => Vec::new(),
        }
    }
    /// Handles what the swarm reported and returns the events for the
    /// application, in order: for an opened connection the opening (with no
    /// protocols), then the peer's connection when it is the first; for a
    /// closed one the closing, then the peer's disconnection when none
    /// remains; a new or expired listening address; a connection error
    /// (without peer for an incoming connection). Anything else yields
    /// nothing.
    pub fn handle_swarm_event(&mut self, report: SwarmReport) -> (r: Vec<NetworkEvent>)
        requires
            old(self).wf(),
        ensures
            final(self).wf(),
            final(self).authenticated() == old(self).authenticated(),
            final(self).mdns() == old(self).mdns(),
            final(self).local_peer() == old(self).local_peer(),
            final(self).has_server() == old(self).has_server(),
            match report {
                SwarmReport::ConnectionEstablished { peer_id, addr, connection_id, num_established } => {
                    &&& final(self).connections() == after_open(old(self).connections(), peer_id@, addr@)
                    &&& events_view(r@) == connection_events(
                        NetEventView::ConnectionOpened(peer_id@, addr@, connection_id, Seq::empty()),
                        if num_established == 1 {
                            Some(NetEventView::PeerConnected(peer_id@))
                        } else {
                            None
                        },
                    )
                },
                SwarmReport::ConnectionClosed { peer_id, addr, connection_id, num_established } => {
                    &&& final(self).connections() == after_close(old(self).connections(), peer_id@, addr@)
                    &&& events_view(r@) == connection_events(
                        NetEventView::ConnectionClosed(peer_id@, addr@, connection_id),
                        if num_established == 0 {
                            Some(NetEventView::PeerDisconnected(peer_id@))
                        } else {
                            None
                        },
                    )
                },
                SwarmReport::NewListenAddr { addr } => {
                    &&& final(self).connections() == old(self).connections()
                    &&& events_view(r@) == seq![NetEventView::ListeningOnAddress(addr@, None)]
                },
                SwarmReport::ExpiredListenAddr { addr } => {
                    &&& final(self).connections() == old(self).connections()
                    &&& events_view(r@) == seq![NetEventView::StopListeningOnAddress(addr@)]
                },
                SwarmReport::OutgoingConnectionError { peer_id, error } => {
                    &&& final(self).connections() == old(self).connections()
                    &&& events_view(r@) == seq![
                        NetEventView::ConnectionError(opt_bytes(peer_id), error@),
                    ]
                },
                SwarmReport::IncomingConnectionError { error } => {
                    &&& final(self).connections() == old(self).connections()
                    &&& events_view(r@) == seq![NetEventView::ConnectionError(None, error@)]
                },
                SwarmReport::Other => {
                    &&& final(self).connections() == old(self).connections()
                    &&& r@.len() == 0
                },
            },
    {
        let mut out: Vec<NetworkEvent> = Vec::new();
        match report {
            SwarmReport::ConnectionEstablished { peer_id, addr, connection_id, num_established } => {
                let first = self.on_connection_established(
                    peer_id.as_slice(),
                    copy_bytes(addr.as_slice()),
                    num_established,
                );
                out.push(
                    NetworkEvent::ConnectionOpened {
                        peer_id: copy_bytes(peer_id.as_slice()),
                        addr,
                        connection_id,
                        protocols: Vec::new(),
                    },
                );
                if first {
                    out.push(NetworkEvent::PeerConnected { peer_id });
                }
            },
            SwarmReport::ConnectionClosed { peer_id, addr, connection_id, num_established } => {
                let last = self.on_connection_closed(
                    peer_id.as_slice(),
                    addr.as_slice(),
                    num_established,
                );
                out.push(
                    NetworkEvent::ConnectionClosed {
                        peer_id: copy_bytes(peer_id.as_slice()),
                        addr,
                        connection_id,
                    },
                );
                if last {
                    out.push(NetworkEvent::PeerDisconnected { peer_id });
                }
            },
            SwarmReport::NewListenAddr { addr } => {
                out.push(NetworkEvent::ListeningOnAddress { addr, full_addr: None });
            },
            SwarmReport::ExpiredListenAddr { addr } => {
                out.push(NetworkEvent::StopListeningOnAddress { addr });
            },
            SwarmReport::OutgoingConnectionError { peer_id, error } => {
                out.push(NetworkEvent::ConnectionError { peer_id, error });
            },
            SwarmReport::IncomingConnectionError { error } => {
                out.push(NetworkEvent::ConnectionError { peer_id: None, error });
            },
            SwarmReport::Other => {},
        }
        proof {
            let e = events_view(out@);
            assert(e.len() == out@.len());
            assert forall|i: int| 0 <= i < out@.len() implies e[i] == out@[i]@ by {}
            if out@.len() == 1 {
                assert(e =~= seq![out@[0]@]);
            } else if out@.len() == 2 {
                assert(e =~= seq![out@[0]@, out@[1]@]);
            }
            let empty_protocols: Seq<Seq<char>> = Seq::empty();
            assert(Seq::<String>::empty().map_values(|p: String| p@) =~= empty_protocols);
        }
        out
    }

    /// Handles what a behaviour reported. mDNS discoveries, while mDNS is
    /// on, go into the DHT and are announced one by one. A DHT routing update
    /// is given to an active bootstrap server and announced. A peer's
    /// identification puts its listening addresses into the DHT. An
    /// authentication event is passed on to the application, and a mutual
    /// success records the peer as authenticated. Anything else yields
    /// nothing.
    pub fn handle_behaviour_event(&mut self, report: BehaviourReport) -> (r: BehaviourStep)
        requires
            old(self).wf(),
            report is KadRoutingUpdated && old(self).has_server() ==> old(
                self,
            ).server().statistics().announced_routes < usize::MAX,
        ensures
            final(self).wf(),
            final(self).connections() == old(self).connections(),
            final(self).mdns() == old(self).mdns(),
            final(self).local_peer() == old(self).local_peer(),
            final(self).has_server() == old(self).has_server(),
            !(report is KadRoutingUpdated) ==> r.bootstrap_events@.len() == 0 && final(self).server()
                == old(self).server(),
            !(report is PorAuth) ==> final(self).authenticated() == old(self).authenticated(),
            match report {
                BehaviourReport::MdnsDiscovered { peers } => {
                    &&& old(self).mdns() ==> pairs_bytes(r.kad_additions@) == pairs_bytes(peers@)
                        && events_view(r.events@) == additions_announced(pairs_bytes(peers@))
                    &&& !old(self).mdns() ==> r.kad_additions@.len() == 0 && r.events@.len() == 0
                },
                BehaviourReport::KadRoutingUpdated { peer_id, addresses } => {
                    &&& r.kad_additions@.len() == 0
                    &&& events_view(r.events@) == seq![
                        NetEventView::KadRoutingUpdated(peer_id@, bytes_list(addresses@)),
                    ]
                    &&& !(old(self).has_server() && old(self).server().active_mode())
                        ==> r.bootstrap_events@.len() == 0 && final(self).server() == old(self).server()
                    &&& old(self).has_server() && old(self).server().active_mode() ==> routing_update(
                        old(self).server(),
                        final(self).server(),
                        peer_id@,
                        bytes_list(addresses@),
                        r.bootstrap_events@,
                    )
                },
                BehaviourReport::IdentifyReceived { peer_id, listen_addrs } => {
                    &&& pairs_bytes(r.kad_additions@) == paired_with(peer_id@, bytes_list(listen_addrs@))
                    &&& r.events@.len() == 0
                },
                BehaviourReport::PorAuth { event } => {
                    &&& r.kad_additions@.len() == 0
                    &&& events_view(r.events@) == seq![NetEventView::AuthEvent(event@)]
                    &&& (event@ matches EventView::MutualAuthSuccess(p, _, _, _)
                        ==> final(self).authenticated() == old(self).authenticated().insert(p))
                    &&& (!(event@ is MutualAuthSuccess)
                        ==> final(self).authenticated() == old(self).authenticated())
                },
                _ => r.kad_additions@.len() == 0 && r.events@.len() == 0,
            },
    {
        let mut kad_additions: Vec<(Vec<u8>, Vec<u8>)> = Vec::new();
        let mut events: Vec<NetworkEvent> = Vec::new();
        let mut bootstrap_events: Vec<BootstrapEvent> = Vec::new();
        match report {
            BehaviourReport::MdnsDiscovered { peers } => {
                if self.mdns_enabled {
                    let mut i: usize = 0;
                    while i < peers.len()
                        invariant
                            0 <= i <= peers@.len(),
                            pairs_bytes(kad_additions@) == pairs_bytes(peers@).take(i as int),
                            events_view(events@) == additions_announced(
                                pairs_bytes(peers@).take(i as int),
                            ),
                        decreases peers@.len() - i,
                    {
                        let p = copy_bytes(peers[i].0.as_slice());
                        let a = copy_bytes(peers[i].1.as_slice());
                        let ghost ka = kad_additions@;
                        let ghost ev = events@;
                        kad_additions.push((copy_bytes(p.as_slice()), copy_bytes(a.as_slice())));
                        events.push(NetworkEvent::KadAddressAdded { peer_id: p, addr: a });
                        proof {
                            let pb = pairs_bytes(peers@);
                            assert(pb.take(i + 1) =~= pb.take(i as int).push(pb[i as int]));
                            assert(pairs_bytes(kad_additions@) =~= pairs_bytes(ka).push(pb[i as int]));
                            assert(events_view(events@) =~= events_view(ev).push(
                                NetEventView::KadAddressAdded(pb[i as int].0, pb[i as int].1),
                            ));
                            assert(additions_announced(pb.take(i + 1)) =~= additions_announced(
                                pb.take(i as int),
                            ).push(NetEventView::KadAddressAdded(pb[i as int].0, pb[i as int].1)));
                        }
                        i = i + 1;
                        proof {
                            assert(pairs_bytes(kad_additions@) =~= pairs_bytes(peers@).take(i as int));
                            assert(events_view(events@) =~= additions_announced(
                                pairs_bytes(peers@).take(i as int),
                            ));
                        }
                    }
                    assert(pairs_bytes(peers@).take(peers@.len() as int) =~= pairs_bytes(peers@));
                }
            },
            BehaviourReport::KadRoutingUpdated { peer_id, addresses } => {
                bootstrap_events = self.on_routing_updated(peer_id.as_slice(), &addresses);
                events.push(NetworkEvent::KadRoutingUpdated { peer_id, addresses });
                assert(events_view(events@) =~= seq![events@[0]@]);
            },
            BehaviourReport::KadOther => {},
            BehaviourReport::IdentifyReceived { peer_id, listen_addrs } => {
                let mut i: usize = 0;
                while i < listen_addrs.len()
                    invariant
                        0 <= i <= listen_addrs@.len(),
                        pairs_bytes(kad_additions@) == paired_with(
                            peer_id@,
                            bytes_list(listen_addrs@).take(i as int),
                        ),
                    decreases listen_addrs@.len() - i,
                {
                    let ghost ka = kad_additions@;
                    kad_additions.push(
                        (copy_bytes(peer_id.as_slice()), copy_bytes(listen_addrs[i].as_slice())),
                    );
                    proof {
                        let bl = bytes_list(listen_addrs@);
                        assert(bl.take(i + 1) =~= bl.take(i as int).push(bl[i as int]));
                        assert(pairs_bytes(kad_additions@) =~= pairs_bytes(ka).push(
                            (peer_id@, bl[i as int]),
                        ));
                        assert(paired_with(peer_id@, bl.take(i + 1)) =~= paired_with(
                            peer_id@,
                            bl.take(i as int),
                        ).push((peer_id@, bl[i as int])));
                    }
                    i = i + 1;
                    proof {
                        assert(pairs_bytes(kad_additions@) =~= paired_with(
                            peer_id@,
                            bytes_list(listen_addrs@).take(i as int),
                        ));
                    }
                }
                assert(bytes_list(listen_addrs@).take(listen_addrs@.len() as int) =~= bytes_list(
                    listen_addrs@,
                ));
            },
            BehaviourReport::PorAuth { event } => {
                match &event {
                    PorAuthEvent::MutualAuthSuccess { peer_id, .. } => {
                        self.on_mutual_auth_success(peer_id.as_slice());
                    },
                    _ => {},
                }
                events.push(NetworkEvent::AuthEvent { event });
                assert(events_view(events@) =~= seq![events@[0]@]);
            },
            BehaviourReport::Other => {},
        }
        BehaviourStep { kad_additions, events, bootstrap_events }
    }

    /// Decides a command. mDNS is switched on or off; listening, dialling,
    /// DHT searches and disconnection are handed to the event loop (a peer
    /// without connections is refused); connections, DHT addresses and
    /// known peers are answered from the state and the routing table given;
    /// an authentication query is answered as `answer_is_authenticated`
    /// does; bootstrap commands go to the bootstrap server ("Bootstrap server
    /// not available" without one; statistics are then not answered, the
    /// server list is empty). Other commands change nothing.
    pub fn handle_command(&mut self, cmd: NodeCommand, now: u64) -> (r: CommandOutcome)
        requires
            old(self).wf(),
            cmd matches NodeCommand::Bootstrap { command: BootstrapCommand::ForceSync }
                && old(self).has_server() ==> old(self).server().statistics().sync_count
                < usize::MAX,
        ensures
            final(self).wf(),
            final(self).connections() == old(self).connections(),
            final(self).authenticated() == old(self).authenticated(),
            final(self).local_peer() == old(self).local_peer(),
            final(self).has_server() == old(self).has_server(),
            !(cmd is EnableMdns || cmd is DisableMdns) ==> final(self).mdns() == old(self).mdns(),
            !(cmd is Bootstrap) ==> final(self).server() == old(self).server(),
            match cmd {
                NodeCommand::EnableMdns => final(self).mdns() && r is Nothing,
                NodeCommand::DisableMdns => !final(self).mdns() && r is Nothing,
                NodeCommand::OpenListenPort { port } => r matches CommandOutcome::Listen { addr }
                    && addr@ == listen_address_text(port),
                NodeCommand::Connect { addr } => r matches CommandOutcome::Dial { addr: a } && a@
                    == addr@,
                NodeCommand::Disconnect { peer_id } => {
                    &&& old(self).connections().contains_key(peer_id@) ==> (r matches CommandOutcome::Disconnect {
                        peer_id: p,
                    } && p@ == peer_id@)
                    &&& !old(self).connections().contains_key(peer_id@) ==> (r matches CommandOutcome::NotConnected {
                        peer_id: p,
                    } && p@ == peer_id@)
                },
                NodeCommand::GetConnectionsForPeer { peer_id } => r matches CommandOutcome::Addresses(
                    a,
                ) && (old(self).connections().contains_key(peer_id@) ==> bytes_list(a@) == old(
                    self,
                ).connections()[peer_id@]) && (!old(self).connections().contains_key(peer_id@)
                    ==> a@.len() == 0),
                NodeCommand::GetKadKnownPeers { buckets } => r matches CommandOutcome::Peers(p)
                    && entries_view(p@) == table_reachable(buckets_view(buckets@)),
                NodeCommand::GetPeerAddresses { peer_id, buckets } => r matches CommandOutcome::Addresses(
                    a,
                ) && bytes_list(a@) == table_addresses(buckets_view(buckets@), peer_id@),
                NodeCommand::FindPeerAddresses { peer_id } => r matches CommandOutcome::FindPeer {
                    peer_id: p,
                } && p@ == peer_id@,
                NodeCommand::IsPeerAuthenticated { peer_id, by_authentication } => r
                    == CommandOutcome::Authenticated(
                    old(self).authenticated().contains(peer_id@) || by_authentication,
                ),
                NodeCommand::Bootstrap { command } => match command {
                    BootstrapCommand::Activate => {
                        &&& !old(self).has_server() ==> (r matches CommandOutcome::BootstrapDone {
                            result: Err(e),
                            event: None,
                        } && e@ == no_server_text())
                        &&& old(self).has_server() ==> (r matches CommandOutcome::BootstrapDone {
                            result: Ok(()),
                            event: Some(BootstrapEvent::Activated),
                        }) && final(self).server().active_mode()
                    },
                    BootstrapCommand::Deactivate => {
                        &&& !old(self).has_server() ==> (r matches CommandOutcome::BootstrapDone {
                            result: Err(e),
                            event: None,
                        } && e@ == no_server_text())
                        &&& old(self).has_server() ==> (r matches CommandOutcome::BootstrapDone {
                            result: Ok(()),
                            event: Some(BootstrapEvent::Deactivated),
                        }) && !final(self).server().active_mode()
                    },
                    BootstrapCommand::GetStats => {
                        &&& final(self).server() == old(self).server()
                        &&& old(self).has_server() ==> r == CommandOutcome::BootstrapStats(
                            old(self).server().statistics(),
                        )
                        &&& !old(self).has_server() ==> r is Nothing
                    },
                    BootstrapCommand::AddNode { peer_id, addrs } => {
                        &&& !old(self).has_server() ==> (r matches CommandOutcome::BootstrapDone {
                            result: Err(e),
                            event: None,
                        } && e@ == no_server_text())
                        &&& old(self).has_server() ==> (r matches CommandOutcome::BootstrapDone {
                            result: Ok(()),
                            event: None,
                        }) && final(self).server().nodes() == old(self).server().nodes().insert(
                            peer_id@,
                            bytes_list(addrs@),
                        )
                    },
                    BootstrapCommand::RemoveNode { peer_id } => {
                        &&& !old(self).has_server() ==> (r matches CommandOutcome::BootstrapDone {
                            result: Err(e),
                            event: None,
                        } && e@ == no_server_text())
                        &&& old(self).has_server() ==> (r matches CommandOutcome::BootstrapDone {
                            result: Ok(()),
                            event: None,
                        }) && final(self).server().nodes() == old(self).server().nodes().remove(
                            peer_id@,
                        )
                    },
                    BootstrapCommand::GetNodes => {
                        &&& final(self).server() == old(self).server()
                        &&& r matches CommandOutcome::BootstrapNodes(n)
                        &&& keys_unique(entries_view(n@))
                        &&& old(self).has_server() ==> entries_map(entries_view(n@)) == old(
                            self,
                        ).server().nodes()
                        &&& !old(self).has_server() ==> n@.len() == 0
                    },
                    BootstrapCommand::ForceSync => {
                        &&& !old(self).has_server() ==> (r matches CommandOutcome::BootstrapSynced(
                            Err(e),
                        ) && e@ == no_server_text())
                        &&& old(self).has_server() ==> (r matches CommandOutcome::BootstrapSynced(
                            Ok(o),
                        ) && synced(old(self).server(), final(self).server(), o, now))
                    },
                },
                _ => r is Nothing,
            },
    {
        match cmd {
            NodeCommand::EnableMdns => {
                self.set_mdns(true);
                CommandOutcome::Nothing
            },
            NodeCommand::DisableMdns => {
                self.set_mdns(false);
                CommandOutcome::Nothing
            },
            NodeCommand::OpenListenPort { port } => CommandOutcome::Listen {
                addr: listen_address(port),
            },
            NodeCommand::Connect { addr } => CommandOutcome::Dial { addr },
            NodeCommand::Disconnect { peer_id } => {
                if self.is_connected(peer_id.as_slice()) {
                    CommandOutcome::Disconnect { peer_id }
                } else {
                    CommandOutcome::NotConnected { peer_id }
                }
            },
            NodeCommand::GetConnectionsForPeer { peer_id } => CommandOutcome::Addresses(
                self.connections_for_peer(peer_id.as_slice()),
            ),
            NodeCommand::GetKadKnownPeers { buckets } => CommandOutcome::Peers(
                kad_known_peers(&buckets),
            ),
            NodeCommand::GetPeerAddresses { peer_id, buckets } => CommandOutcome::Addresses(
                peer_addresses_in(&buckets, peer_id.as_slice()),
            ),
            NodeCommand::FindPeerAddresses { peer_id } => CommandOutcome::FindPeer { peer_id },
            NodeCommand::IsPeerAuthenticated { peer_id, by_authentication } => {
                CommandOutcome::Authenticated(
                    self.answer_is_authenticated(peer_id.as_slice(), by_authentication),
                )
            },
            NodeCommand::Bootstrap { command } => match command {
                BootstrapCommand::Activate => match self.activate_bootstrap_server() {
                    Ok(e) => CommandOutcome::BootstrapDone { result: Ok(()), event: Some(e) },
                    Err(e) => CommandOutcome::BootstrapDone { result: Err(e), event: None },
                },
                BootstrapCommand::Deactivate => match self.deactivate_bootstrap_server() {
                    Ok(e) => CommandOutcome::BootstrapDone { result: Ok(()), event: Some(e) },
                    Err(e) => CommandOutcome::BootstrapDone { result: Err(e), event: None },
                },
                BootstrapCommand::GetStats => match self.bootstrap_stats() {
                    Some(s) => CommandOutcome::BootstrapStats(s),
                    None => CommandOutcome::Nothing,
                },
                BootstrapCommand::AddNode { peer_id, addrs } => CommandOutcome::BootstrapDone {
                    result: self.add_bootstrap_node(peer_id, addrs),
                    event: None,
                },
                BootstrapCommand::RemoveNode { peer_id } => CommandOutcome::BootstrapDone {
                    result: self.remove_bootstrap_node(peer_id.as_slice()),
                    event: None,
                },
                BootstrapCommand::GetNodes => CommandOutcome::BootstrapNodes(self.bootstrap_nodes()),
                BootstrapCommand::ForceSync => CommandOutcome::BootstrapSynced(self.force_sync(now)),
            },
            _ => CommandOutcome::Nothing,
        }
    }

}

/// `addrs` without any copy of `addr`.
fn remove_all(addrs: &Vec<Vec<u8>>, addr: &[u8]) -> (r: Vec<Vec<u8>>)
    ensures
        bytes_list(r@) == without(bytes_list(addrs@), addr@),
{
    let mut out: Vec<Vec<u8>> = Vec::new();
    let mut i: usize = 0;
    let ghost all = bytes_list(addrs@);
    while i < addrs.len()
        invariant
            0 <= i <= addrs@.len(),
            all == bytes_list(addrs@),
            bytes_list(out@) == without(all.take(i as int), addr@),
        decreases addrs@.len() - i,
    {
        proof {
            assert(all.take(i + 1).drop_last() =~= all.take(i as int));
        }
        if !bytes_equal(addrs[i].as_slice(), addr) {
            let ghost prev = out@;
            out.push(copy_bytes(addrs[i].as_slice()));
            proof {
                assert(bytes_list(out@) =~= bytes_list(prev).push(all[i as int]));
            }
        }
        i = i + 1;
    }
    proof {
        assert(all.take(addrs@.len() as int) =~= all);
    }
    out
}

/// Closing every connection that was opened leaves no trace: opening a new
/// peer's first connection and then closing it restores the table.
pub proof fn law_close_undoes_open(conns: Map<Seq<u8>, Seq<Seq<u8>>>, peer: Seq<u8>, addr: Seq<u8>)
    requires
        !conns.contains_key(peer),
    ensures
        after_close(after_open(conns, peer, addr), peer, addr) == conns,
{
    reveal_with_fuel(without, 2);
    assert(seq![addr].drop_last() =~= Seq::<Seq<u8>>::empty());
    assert(after_open(conns, peer, addr).remove(peer) =~= conns);
}

/// A closed connection's address is gone from the table.
pub proof fn law_closed_address_is_gone(s: Seq<Seq<u8>>, x: Seq<u8>)
    ensures
        !without(s, x).contains(x),
        without(s, x).len() <= s.len(),
    decreases s.len(),
{
    if s.len() > 0 {
        law_closed_address_is_gone(s.drop_last(), x);
        if s.last() != x {
            let w = without(s.drop_last(), x);
            assert forall|i: int| 0 <= i < w.push(s.last()).len() implies w.push(s.last())[i] != x by {
                if i < w.len() {
                    assert(w.push(s.last())[i] == w[i]);
                    assert(!w.contains(x));
                }
            }
        }
    }
}

/// Closing a connection at `x` drops exactly the copies of `x` from the peer's
/// address list: every other address stays, in its order.
pub proof fn law_close_keeps_other_addresses(s: Seq<Seq<u8>>, x: Seq<u8>)
    ensures
        without(s, x) == s.filter(|a: Seq<u8>| a != x),
    decreases s.len(),
{
    reveal(Seq::filter);
    if s.len() > 0 {
        law_close_keeps_other_addresses(s.drop_last(), x);
    }
}

/// A peer stays connected while it has a connection at another address: after
/// its connection at `addr` closes, the peer keeps exactly its other
/// addresses, in order, and is forgotten only when every address it had was
/// `addr`; other peers are untouched.
pub proof fn law_close_forgets_peer_only_without_other_address(
    conns: Map<Seq<u8>, Seq<Seq<u8>>>,
    peer: Seq<u8>,
    addr: Seq<u8>,
)
    requires
        conns.contains_key(peer),
    ensures
        after_close(conns, peer, addr).contains_key(peer) <==> exists|i: int|
            0 <= i < conns[peer].len() && #[trigger] conns[peer][i] != addr,
        after_close(conns, peer, addr).contains_key(peer) ==> after_close(conns, peer, addr)[peer]
            == conns[peer].filter(|a: Seq<u8>| a != addr),
        forall|q: Seq<u8>|
            q != peer ==> (#[trigger] after_close(conns, peer, addr).contains_key(q)
                <==> conns.contains_key(q)),
        forall|q: Seq<u8>|
            q != peer && conns.contains_key(q) ==> #[trigger] after_close(conns, peer, addr)[q]
                == conns[q],
{
    let s = conns[peer];
    let pred = |a: Seq<u8>| a != addr;
    law_close_keeps_other_addresses(s, addr);
    let f = s.filter(pred);
    if exists|i: int| 0 <= i < s.len() && #[trigger] s[i] != addr {
        let i = choose|i: int| 0 <= i < s.len() && #[trigger] s[i] != addr;
        s.lemma_filter_contains(pred, i);
        assert(f.len() > 0);
    } else if f.len() > 0 {
        s.lemma_filter_pred(pred, 0);
        s.lemma_filter_contains_rev(pred, f[0]);
        let i = choose|i: int| 0 <= i < s.len() && s[i] == f[0];
        assert(s[i] != addr);
    }
}

/// The known peers of one bucket are exactly its entries that have addresses,
/// in bucket order.
pub proof fn law_bucket_lists_every_reachable_entry(b: Seq<Entry>)
    ensures
        reachable_entries(b) == b.filter(|e: Entry| e.1.len() > 0),
    decreases b.len(),
{
    reveal(Seq::filter);
    if b.len() > 0 {
        law_bucket_lists_every_reachable_entry(b.drop_last());
    }
}

/// The known peers of a routing table are, bucket after bucket, every entry
/// that has addresses: each such entry is listed, and nothing else is.
pub proof fn law_table_lists_every_reachable_entry(t: Seq<Seq<Entry>>)
    ensures
        table_reachable(t) == t.map_values(|b: Seq<Entry>| b.filter(|e: Entry| e.1.len() > 0)).flatten(),
        forall|i: int, j: int|
            0 <= i < t.len() && 0 <= j < t[i].len() && t[i][j].1.len() > 0 ==> table_reachable(
                t,
            ).contains(#[trigger] t[i][j]),
    decreases t.len(),
{
    let keep = |b: Seq<Entry>| b.filter(|e: Entry| e.1.len() > 0);
    if t.len() > 0 {
        let front = t.drop_last();
        law_table_lists_every_reachable_entry(front);
        law_bucket_lists_every_reachable_entry(t.last());
        assert(t.map_values(keep) =~= front.map_values(keep).push(keep(t.last())));
        front.map_values(keep).lemma_flatten_push(keep(t.last()));
        assert forall|i: int, j: int|
            0 <= i < t.len() && 0 <= j < t[i].len() && t[i][j].1.len() > 0 implies table_reachable(
            t,
        ).contains(#[trigger] t[i][j]) by {
            let a = table_reachable(front);
            let r = reachable_entries(t.last());
            if i < t.len() - 1 {
                assert(front[i] == t[i]);
                assert(a.contains(front[i][j]));
                let k = choose|k: int| 0 <= k < a.len() && a[k] == front[i][j];
                assert((a + r)[k] == a[k]);
            } else {
                t.last().lemma_filter_contains(|e: Entry| e.1.len() > 0, j);
                let k = choose|k: int| 0 <= k < r.len() && r[k] == t[i][j];
                assert((a + r)[a.len() + k] == r[k]);
            }
        }
    } else {
        assert(t.map_values(keep) =~= Seq::<Seq<Entry>>::empty());
    }
}

} // verus!
