//! The simple request-response authentication between peers: each
//! connection's authentication state, the check of the credentials a peer
//! sends, timeouts, and the events announced on the way.
use vstd::prelude::*;

use crate::peer_map::{keyed_map, PeerMap};
use crate::routes::copy_bytes;

verus! {

broadcast use vstd::string::group_string_axioms;

/// Protocol name of the authentication exchange.
pub const PROTOCOL_ID: &'static str = "/xauth/1.0.0";

/// How long an authentication may stay in progress, in milliseconds.
pub const AUTH_TIMEOUT: u64 = 15_000;

/// The answer to an authentication request.
#[derive(Debug, Clone)]
pub enum AuthResult {
    /// The credentials were accepted.
    Granted,
    Error(String),
}

/// The authentication state of a connection.
#[derive(Debug, Clone)]
pub enum AuthState {
    NotAuthenticated,
    AuthenticationInProgress { started: u64 },
    Authenticated,
    Failed(String),
}

/// A tracked connection: the peer's address and the authentication state.
#[derive(Debug, Clone)]
pub struct ConnectionData {
    pub address: Vec<u8>,
    pub state: AuthState,
}

/// Events that the authentication announces.
#[derive(Debug, Clone)]
pub enum XAuthEvent {
    Success { peer_id: Vec<u8>, address: Vec<u8> },
    Failure { peer_id: Vec<u8>, address: Vec<u8>, reason: String },
    Timeout { peer_id: Vec<u8>, address: Vec<u8> },
}

/// Abstract answer to an authentication request.
pub enum ResultView {
    Granted,
    Error(Seq<char>),
}

/// Abstract authentication state.
pub enum StateView {
    NotAuthenticated,
    InProgress(u64),
    Authenticated,
    Failed(Seq<char>),
}

/// Abstract tracked connection.
pub struct ConnectionView {
    pub address: Seq<u8>,
    pub state: StateView,
}

/// Abstract event.
pub enum EventView {
    Success(Seq<u8>, Seq<u8>),
    Failure(Seq<u8>, Seq<u8>, Seq<char>),
    Timeout(Seq<u8>, Seq<u8>),
}

impl View for AuthResult {
    type V = ResultView;

    open spec fn view(&self) -> ResultView {
        match self {
            AuthResult::Granted => ResultView::Granted,
            AuthResult::Error(e) => ResultView::Error(e@),
        }
    }
}

impl View for AuthState {
    type V = StateView;

    open spec fn view(&self) -> StateView {
        match self {
            AuthState::NotAuthenticated => StateView::NotAuthenticated,
            AuthState::AuthenticationInProgress { started } => StateView::InProgress(*started),
            AuthState::Authenticated => StateView::Authenticated,
            AuthState::Failed(r) => StateView::Failed(r@),
        }
    }
}

impl View for ConnectionData {
    type V = ConnectionView;

    open spec fn view(&self) -> ConnectionView {
        ConnectionView { address: self.address@, state: self.state@ }
    }
}

impl View for XAuthEvent {
    type V = EventView;

    open spec fn view(&self) -> EventView {
        match self {
            XAuthEvent::Success { peer_id, address } => EventView::Success(peer_id@, address@),
            XAuthEvent::Failure { peer_id, address, reason } => EventView::Failure(
                peer_id@,
                address@,
                reason@,
            ),
            XAuthEvent::Timeout { peer_id, address } => EventView::Timeout(peer_id@, address@),
        }
    }
}

/// The value of the first entry for `key`, if any.
pub open spec fn first_value(data: Seq<(Seq<char>, Seq<char>)>, key: Seq<char>) -> Option<Seq<char>>
    decreases data.len(),
{
    if data.len() == 0 {
        None
    } else if data[0].0 == key {
        Some(data[0].1)
    } else {
        first_value(data.drop_first(), key)
    }
}

/// The abstract form of credential pairs.
pub open spec fn pairs_view(data: Seq<(String, String)>) -> Seq<(Seq<char>, Seq<char>)> {
    data.map_values(|p: (String, String)| (p.0@, p.1@))
}

/// The answer that credentials earn: they must map "hello" to "world".
pub open spec fn verdict(data: Seq<(Seq<char>, Seq<char>)>) -> ResultView {
    if first_value(data, "hello"@) == Some("world"@) {
        ResultView::Granted
    } else {
        ResultView::Error("Invalid authentication data"@)
    }
}

/// The credentials this node sends: "hello" mapped to "world".
pub open spec fn own_credentials() -> Seq<(Seq<char>, Seq<char>)> {
    seq![("hello"@, "world"@)]
}

/// Checks credentials: `Ok` when the first entry for "hello" is "world",
/// otherwise an error saying the data is invalid.
pub fn check_credentials(data: &Vec<(String, String)>) -> (r: AuthResult)
    ensures
        r@ == verdict(pairs_view(data@)),
{
    let hello = "hello".to_string();
    let world = "world".to_string();
    let mut i: usize = 0;
    let ghost full = pairs_view(data@);
    assert(full.skip(0) =~= full);
    while i < data.len()
        invariant
            0 <= i <= data@.len(),
            full == pairs_view(data@),
            hello@ == "hello"@,
            world@ == "world"@,
            first_value(full, "hello"@) == first_value(full.skip(i as int), "hello"@),
        decreases data@.len() - i,
    {
        proof {
            assert(full.skip(i as int).drop_first() =~= full.skip(i + 1));
            assert(full.skip(i as int)[0] == full[i as int]);
        }
        if data[i].0 == hello {
            if data[i].1 == world {
                return AuthResult::Granted;
            } else {
                return AuthResult::Error("Invalid authentication data".to_string());
            }
        }
        i = i + 1;
    }
    AuthResult::Error("Invalid authentication data".to_string())
}

/// The credentials this node sends.
pub fn credentials() -> (r: Vec<(String, String)>)
    ensures
        pairs_view(r@) == own_credentials(),
{
    let mut v: Vec<(String, String)> = Vec::new();
    v.push(("hello".to_string(), "world".to_string()));
    assert(pairs_view(v@) =~= own_credentials());
    v
}

/// The state that an answer leads to.
pub open spec fn state_after(result: ResultView) -> StateView {
    match result {
        ResultView::Granted => StateView::Authenticated,
        ResultView::Error(reason) => StateView::Failed(reason),
    }
}

/// The event that an answer for `peer` at `address` announces.
pub open spec fn event_after(result: ResultView, peer: Seq<u8>, address: Seq<u8>) -> EventView {
    match result {
        ResultView::Granted => EventView::Success(peer, address),
        ResultView::Error(reason) => EventView::Failure(peer, address, reason),
    }
}

/// Whether an authentication that started at `started` has timed out at `now`.
pub open spec fn auth_expired(started: u64, now: u64) -> bool {
    now as int - started as int > AUTH_TIMEOUT as int
}

/// The tracked connections' abstract forms.
pub open spec fn connections_view(m: Map<Seq<u8>, ConnectionData>) -> Map<Seq<u8>, ConnectionView> {
    m.map_values(|c: ConnectionData| c@)
}

/// The authentication state of every connection, with the events waiting to
/// be announced.
pub struct XAuthBehaviour {
    connections: PeerMap<ConnectionData>,
    pending_events: Vec<XAuthEvent>,
}

impl XAuthBehaviour {
    /// The tracked connections by peer.
    pub closed spec fn conns(&self) -> Map<Seq<u8>, ConnectionView> {
        connections_view(self.connections.view())
    }

    /// The events waiting to be announced, oldest first.
    pub closed spec fn events(&self) -> Seq<EventView> {
        self.pending_events@.map_values(|e: XAuthEvent| e@)
    }

    /// The connection table holds each peer once.
    pub closed spec fn wf(&self) -> bool {
        self.connections.wf()
    }

    /// No tracked connection and no waiting event.
    pub fn new() -> (r: Self)
        ensures
            r.wf(),
            r.conns() == Map::<Seq<u8>, ConnectionView>::empty(),
            r.events() == Seq::<EventView>::empty(),
    {
        let r = XAuthBehaviour { connections: PeerMap::new(), pending_events: Vec::new() };
        assert(r.conns() =~= Map::<Seq<u8>, ConnectionView>::empty());
        assert(r.events() =~= Seq::<EventView>::empty());
        r
    }

    fn push_event(&mut self, e: XAuthEvent)
        ensures
            final(self).events() == old(self).events().push(e@),
            final(self).connections == old(self).connections,
    {
        let ghost before = self.events();
        self.pending_events.push(e);
        assert(self.events() =~= before.push(e@));
    }

    fn set_state(&mut self, peer_id: &[u8], address: Vec<u8>, state: AuthState)
        requires
            old(self).wf(),
        ensures
            final(self).wf(),
            final(self).conns() == old(self).conns().insert(
                peer_id@,
                ConnectionView { address: address@, state: state@ },
            ),
            final(self).events() == old(self).events(),
    {
        let ghost before = self.connections.view();
        self.connections.insert(peer_id, ConnectionData { address, state });
        assert(self.conns() =~= old(self).conns().insert(
            peer_id@,
            ConnectionView { address: address@, state: state@ },
        ));
    }

    /// Tracks a new connection to `peer_id` at `address`, not yet
    /// authenticated (replacing any earlier record for the peer).
    pub fn track_connection(&mut self, peer_id: &[u8], address: &[u8])
        requires
            old(self).wf(),
        ensures
            final(self).wf(),
            final(self).conns() == old(self).conns().insert(
                peer_id@,
                ConnectionView { address: address@, state: StateView::NotAuthenticated },
            ),
            final(self).events() == old(self).events(),
    {
        self.set_state(peer_id, copy_bytes(address), AuthState::NotAuthenticated);
    }

    /// Answers an authentication request from `peer_id` and, for a tracked
    /// connection, records the outcome and announces success or failure.
    pub fn handle_auth_request(&mut self, peer_id: &[u8], data: &Vec<(String, String)>) -> (r:
        AuthResult)
        requires
            old(self).wf(),
        ensures
            final(self).wf(),
            r@ == verdict(pairs_view(data@)),
            !old(self).conns().contains_key(peer_id@) ==> final(self).conns() == old(self).conns()
                && final(self).events() == old(self).events(),
            old(self).conns().contains_key(peer_id@) ==> {
                let addr = old(self).conns()[peer_id@].address;
                &&& final(self).conns() == old(self).conns().insert(
                    peer_id@,
                    ConnectionView { address: addr, state: state_after(r@) },
                )
                &&& final(self).events() == old(self).events().push(
                    event_after(r@, peer_id@, addr),
                )
            },
    {
        let result = check_credentials(data);
        self.record_result(peer_id, &result);
        result
    }

    /// Records the answer that `peer_id` gave to this node's request: for a
    /// tracked connection, the state becomes authenticated or failed and the
    /// outcome is announced.
    pub fn handle_auth_response(&mut self, peer_id: &[u8], result: AuthResult)
        requires
            old(self).wf(),
        ensures
            final(self).wf(),
            !old(self).conns().contains_key(peer_id@) ==> final(self).conns() == old(self).conns()
                && final(self).events() == old(self).events(),
            old(self).conns().contains_key(peer_id@) ==> {
                let addr = old(self).conns()[peer_id@].address;
                &&& final(self).conns() == old(self).conns().insert(
                    peer_id@,
                    ConnectionView { address: addr, state: state_after(result@) },
                )
                &&& final(self).events() == old(self).events().push(
                    event_after(result@, peer_id@, addr),
                )
            },
    {
        self.record_result(peer_id, &result);
    }

    fn record_result(&mut self, peer_id: &[u8], result: &AuthResult)
        requires
            old(self).wf(),
        ensures
            final(self).wf(),
            !old(self).conns().contains_key(peer_id@) ==> final(self).conns() == old(self).conns()
                && final(self).events() == old(self).events(),
            old(self).conns().contains_key(peer_id@) ==> {
                let addr = old(self).conns()[peer_id@].address;
                &&& final(self).conns() == old(self).conns().insert(
                    peer_id@,
                    ConnectionView { address: addr, state: state_after(result@) },
                )
                &&& final(self).events() == old(self).events().push(
                    event_after(result@, peer_id@, addr),
                )
            },
    {
        let address = match self.connections.get(peer_id) {
            Some(c) => copy_bytes(c.address.as_slice()),
            None => {
                return ;
            },
        };
        match result {
            AuthResult::Granted => {
                self.set_state(peer_id, copy_bytes(address.as_slice()), AuthState::Authenticated);
                self.push_event(
                    XAuthEvent::Success { peer_id: copy_bytes(peer_id), address: address },
                );
            },
            AuthResult::Error(reason) => {
                self.set_state(
                    peer_id,
                    copy_bytes(address.as_slice()),
                    AuthState::Failed(reason.clone()),
                );
                self.push_event(
                    XAuthEvent::Failure {
                        peer_id: copy_bytes(peer_id),
                        address: address,
                        reason: reason.clone(),
                    },
                );
            },
        }
    }

    /// Starts authenticating a tracked connection at `now`: the state becomes
    /// in progress and the credentials to send are returned. `None` for an
    /// untracked peer.
    pub fn authenticate_peer(&mut self, peer_id: &[u8], now: u64) -> (r: Option<
        Vec<(String, String)>,
    >)
        requires
            old(self).wf(),
        ensures
            final(self).wf(),
            final(self).events() == old(self).events(),
            !old(self).conns().contains_key(peer_id@) ==> r is None && final(self).conns() == old(
                self,
            ).conns(),
            old(self).conns().contains_key(peer_id@) ==> {
                &&& r matches Some(d) && pairs_view(d@) == own_credentials()
                &&& final(self).conns() == old(self).conns().insert(
                    peer_id@,
                    ConnectionView {
                        address: old(self).conns()[peer_id@].address,
                        state: StateView::InProgress(now),
                    },
                )
            },
    {
        let address = match self.connections.get(peer_id) {
            Some(c) => copy_bytes(c.address.as_slice()),
            None => {
                return None;
            },
        };
        self.set_state(peer_id, address, AuthState::AuthenticationInProgress { started: now });
        Some(credentials())
    }

    /// A connection to `peer_id` at `address` was established: it is tracked
    /// afresh and authentication starts at once; the credentials to send are
    /// returned.
    pub fn on_connection_established(&mut self, peer_id: &[u8], address: &[u8], now: u64) -> (r:
        Vec<(String, String)>)
        requires
            old(self).wf(),
        ensures
            final(self).wf(),
            final(self).events() == old(self).events(),
            pairs_view(r@) == own_credentials(),
            final(self).conns() == old(self).conns().insert(
                peer_id@,
                ConnectionView { address: address@, state: StateView::InProgress(now) },
            ),
    {
        self.track_connection(peer_id, address);
        let r = self.authenticate_peer(peer_id, now);
        proof {
            assert(self.conns() =~= old(self).conns().insert(
                peer_id@,
                ConnectionView { address: address@, state: StateView::InProgress(now) },
            ));
        }
        r.unwrap()
    }

    /// A connection to `peer_id` closed: the peer is forgotten once no
    /// connection to it remains.
    pub fn on_connection_closed(&mut self, peer_id: &[u8], remaining_established: usize)
        requires
            old(self).wf(),
        ensures
            final(self).wf(),
            final(self).events() == old(self).events(),
            remaining_established == 0 ==> final(self).conns() == old(self).conns().remove(peer_id@),
            remaining_established != 0 ==> final(self).conns() == old(self).conns(),
    {
        if remaining_established == 0 {
            self.connections.remove(peer_id);
            assert(self.conns() =~= old(self).conns().remove(peer_id@));
        }
    }

    /// A handler event arrived from `peer_id`: a tracked connection that has
    /// not started authenticating starts now; the credentials to send are
    /// returned.
    pub fn on_connection_handler_event(&mut self, peer_id: &[u8], now: u64) -> (r: Option<
        Vec<(String, String)>,
    >)
        requires
            old(self).wf(),
        ensures
            final(self).wf(),
            final(self).events() == old(self).events(),
            old(self).conns().contains_key(peer_id@) && old(self).conns()[peer_id@].state
                is NotAuthenticated ==> {
                &&& r matches Some(d) && pairs_view(d@) == own_credentials()
                &&& final(self).conns() == old(self).conns().insert(
                    peer_id@,
                    ConnectionView {
                        address: old(self).conns()[peer_id@].address,
                        state: StateView::InProgress(now),
                    },
                )
            },
            !(old(self).conns().contains_key(peer_id@) && old(self).conns()[peer_id@].state
                is NotAuthenticated) ==> r is None && final(self).conns() == old(self).conns(),
    {
        let fresh = match self.connections.get(peer_id) {
            Some(c) => match c.state {
                AuthState::NotAuthenticated => true,
                _ => false,
            },
            None => false,
        };
        if fresh {
            self.authenticate_peer(peer_id, now)
        } else {
            None
        }
    }

    /// The request to `peer_id` failed with the given error text: a tracked
    /// connection fails with "Outbound request failed: <text>", announced.
    pub fn on_outbound_failure(&mut self, peer_id: &[u8], error: &str)
        requires
            old(self).wf(),
        ensures
            final(self).wf(),
            !old(self).conns().contains_key(peer_id@) ==> final(self).conns() == old(self).conns()
                && final(self).events() == old(self).events(),
            old(self).conns().contains_key(peer_id@) ==> {
                let addr = old(self).conns()[peer_id@].address;
                let reason = "Outbound request failed: "@ + error@;
                &&& final(self).conns() == old(self).conns().insert(
                    peer_id@,
                    ConnectionView { address: addr, state: StateView::Failed(reason) },
                )
                &&& final(self).events() == old(self).events().push(
                    EventView::Failure(peer_id@, addr, reason),
                )
            },
    {
        let mut reason = "Outbound request failed: ".to_string();
        reason.append(error);
        self.record_result(peer_id, &AuthResult::Error(reason));
    }

    /// A request from `peer_id` failed: a tracked connection fails with
    /// "Inbound request failed", announced.
    pub fn on_inbound_failure(&mut self, peer_id: &[u8])
        requires
            old(self).wf(),
        ensures
            final(self).wf(),
            !old(self).conns().contains_key(peer_id@) ==> final(self).conns() == old(self).conns()
                && final(self).events() == old(self).events(),
            old(self).conns().contains_key(peer_id@) ==> {
                let addr = old(self).conns()[peer_id@].address;
                let reason = "Inbound request failed"@;
                &&& final(self).conns() == old(self).conns().insert(
                    peer_id@,
                    ConnectionView { address: addr, state: StateView::Failed(reason) },
                )
                &&& final(self).events() == old(self).events().push(
                    EventView::Failure(peer_id@, addr, reason),
                )
            },
    {
        self.record_result(peer_id, &AuthResult::Error("Inbound request failed".to_string()));
    }

    /// Fails every authentication that has been in progress longer than
    /// `AUTH_TIMEOUT` at `now` with "Authentication timed out", announcing a
    /// timeout for each (in the order the connections were first tracked).
    pub fn check_timeouts(&mut self, now: u64)
        requires
            old(self).wf(),
        ensures
            final(self).wf(),
            final(self).conns().dom() == old(self).conns().dom(),
            forall|k: Seq<u8>| #[trigger]
                old(self).conns().contains_key(k) ==> final(self).conns()[k] == timed_out_view(
                    old(self).conns()[k],
                    now,
                ),
            final(self).events().len() >= old(self).events().len(),
            final(self).events().take(old(self).events().len() as int) == old(self).events(),
            forall|i: int|
                old(self).events().len() <= i < final(self).events().len() ==> timeout_event_ok(
                    #[trigger] final(self).events()[i],
                    old(self).conns(),
                    now,
                ),
            forall|k: Seq<u8>|
                #[trigger] old(self).conns().contains_key(k) && expired_entry(
                    old(self).conns()[k],
                    now,
                ) ==> exists|i: int|
                    old(self).events().len() <= i < final(self).events().len() && final(self).events()[i]
                        == EventView::Timeout(k, old(self).conns()[k].address),
            forall|x: int, y: int|
                old(self).events().len() <= x < y < final(self).events().len() ==> timeout_peer(
                    #[trigger] final(self).events()[x],
                ) != timeout_peer(#[trigger] final(self).events()[y]),
    {
        let ghost old_entries = self.connections.entries();
        let ghost old_events = self.events();
        let ghost old_conns = self.conns();
        proof {
            self.connections.lemma_entries_denote_view();
        }
        let n = self.connections.len();
        let mut i: usize = 0;
        while i < n
            invariant
                0 <= i <= n,
                n == old_entries.len(),
                self.wf(),
                self.connections.entries().len() == n,
                forall|j: int|
                    0 <= j < n ==> #[trigger] self.connections.entries()[j].0 == old_entries[j].0,
                forall|j: int|
                    i <= j < n ==> #[trigger] self.connections.entries()[j].1 == old_entries[j].1,
                forall|j: int|
                    0 <= j < i ==> #[trigger] self.connections.entries()[j].1@ == timed_out_view(
                        old_entries[j].1@,
                        now,
                    ),
                crate::peer_map::unique_keys(old_entries),
                old_conns == connections_view(keyed_map(old_entries)),
                self.events().len() >= old_events.len(),
                self.events().take(old_events.len() as int) == old_events,
                forall|x: int|
                    old_events.len() <= x < self.events().len() ==> exists|j: int|
                        0 <= j < i && #[trigger] self.events()[x] == EventView::Timeout(
                            old_entries[j].0,
                            old_entries[j].1.address@,
                        ) && expired_entry(old_entries[j].1@, now),
                forall|j: int|
                    0 <= j < i && expired_entry(old_entries[j].1@, now) ==> exists|x: int|
                        old_events.len() <= x < self.events().len() && #[trigger] self.events()[x]
                            == EventView::Timeout(old_entries[j].0, old_entries[j].1.address@),
                forall|x: int, y: int|
                    old_events.len() <= x < y < self.events().len() ==> timeout_peer(
                        #[trigger] self.events()[x],
                    ) != timeout_peer(#[trigger] self.events()[y]),
            decreases n - i,
        {
            proof {
                self.connections.lemma_entries_denote_view();
            }
            let (peer_ref, conn_ref) = self.connections.entry_at(i);
            let expired = match conn_ref.state {
                AuthState::AuthenticationInProgress { started } => now > started && now - started
                    > AUTH_TIMEOUT,
                _ => false,
            };
            let ghost before_events = self.events();
            if expired {
                let peer = copy_bytes(peer_ref.as_slice());
                let address = copy_bytes(conn_ref.address.as_slice());
                let updated = ConnectionData {
                    address: copy_bytes(address.as_slice()),
                    state: AuthState::Failed("Authentication timed out".to_string()),
                };
                self.connections.set_at(i, updated);
                self.push_event(XAuthEvent::Timeout { peer_id: peer, address });
                proof {
                    let e = self.events();
                    assert(e[e.len() - 1] == EventView::Timeout(
                        old_entries[i as int].0,
                        old_entries[i as int].1.address@,
                    ));
                    assert(e.take(old_events.len() as int) =~= before_events.take(
                        old_events.len() as int,
                    ));
                    assert forall|x: int|
                        old_events.len() <= x < e.len() implies exists|j: int|
                        0 <= j < i + 1 && #[trigger] e[x] == EventView::Timeout(
                            old_entries[j].0,
                            old_entries[j].1.address@,
                        ) && expired_entry(old_entries[j].1@, now) by {
                        if x < e.len() - 1 {
                            assert(e[x] == before_events[x]);
                        } else {
                            assert(e[x] == EventView::Timeout(
                                old_entries[i as int].0,
                                old_entries[i as int].1.address@,
                            ));
                        }
                    }
                    assert forall|j: int|
                        0 <= j < i + 1 && expired_entry(old_entries[j].1@, now) implies exists|
                        x: int,
                    |
                        old_events.len() <= x < e.len() && #[trigger] e[x] == EventView::Timeout(
                            old_entries[j].0,
                            old_entries[j].1.address@,
                        ) by {
                        if j < i {
                            let x = choose|x: int|
                                old_events.len() <= x < before_events.len()
                                    && #[trigger] before_events[x] == EventView::Timeout(
                                    old_entries[j].0,
                                    old_entries[j].1.address@,
                                );
                            assert(e[x] == before_events[x]);
                        } else {
                            assert(e[e.len() - 1] == EventView::Timeout(
                                old_entries[j].0,
                                old_entries[j].1.address@,
                            ));
                        }
                    }
                    assert forall|x: int, y: int|
                        old_events.len() <= x < y < e.len() implies timeout_peer(#[trigger] e[x])
                        != timeout_peer(#[trigger] e[y]) by {
                        assert(e[x] == before_events[x]);
                        if y < e.len() - 1 {
                            assert(e[y] == before_events[y]);
                        } else {
                            let j = choose|j: int|
                                0 <= j < i && #[trigger] before_events[x] == EventView::Timeout(
                                    old_entries[j].0,
                                    old_entries[j].1.address@,
                                ) && expired_entry(old_entries[j].1@, now);
                            assert(old_entries[j].0 != old_entries[i as int].0);
                        }
                    }
                }
            }
            i = i + 1;
        }
        proof {
            self.connections.lemma_entries_denote_view();
            let new_entries = self.connections.entries();
            assert forall|k: Seq<u8>| #[trigger]
                old_conns.contains_key(k) implies self.conns().contains_key(k) && self.conns()[k]
                == timed_out_view(old_conns[k], now) by {
                let j = choose|j: int|
                    0 <= j < old_entries.len() && #[trigger] old_entries[j].0 == k;
                crate::peer_map::lemma_keyed_at(old_entries, j);
                assert(new_entries[j].0 == k);
            }
            assert forall|k: Seq<u8>| self.conns().contains_key(k) implies old_conns.contains_key(k) by {
                let j = choose|j: int|
                    0 <= j < new_entries.len() && #[trigger] new_entries[j].0 == k;
                assert(old_entries[j].0 == k);
            }
            assert(self.conns().dom() =~= old_conns.dom());
            assert forall|x: int|
                old_events.len() <= x < self.events().len() implies timeout_event_ok(
                #[trigger] self.events()[x],
                old_conns,
                now,
            ) by {
                let j = choose|j: int|
                    0 <= j < n && #[trigger] self.events()[x] == EventView::Timeout(
                        old_entries[j].0,
                        old_entries[j].1.address@,
                    ) && expired_entry(old_entries[j].1@, now);
                crate::peer_map::lemma_keyed_at(old_entries, j);
            }
            assert forall|k: Seq<u8>|
                #[trigger] old_conns.contains_key(k) && expired_entry(old_conns[k], now) implies exists|
                x: int,
            |
                old_events.len() <= x < self.events().len() && self.events()[x] == EventView::Timeout(
                    k,
                    old_conns[k].address,
                ) by {
                let j = choose|j: int|
                    0 <= j < old_entries.len() && #[trigger] old_entries[j].0 == k;
                crate::peer_map::lemma_keyed_at(old_entries, j);
                assert(expired_entry(old_entries[j].1@, now));
                let x = choose|x: int|
                    old_events.len() <= x < self.events().len() && #[trigger] self.events()[x]
                        == EventView::Timeout(old_entries[j].0, old_entries[j].1.address@);
            }
        }
    }

    /// Takes the oldest waiting event, if any.
    pub fn poll_event(&mut self) -> (r: Option<XAuthEvent>)
        requires
            old(self).wf(),
        ensures
            final(self).wf(),
            final(self).conns() == old(self).conns(),
            old(self).events().len() == 0 ==> r is None && final(self).events() == old(
                self,
            ).events(),
            old(self).events().len() > 0 ==> (r matches Some(e) && e@ == old(self).events()[0])
                && final(self).events() == old(self).events().drop_first(),
    {
        if self.pending_events.len() == 0 {
            return None;
        }
        let e = self.pending_events.remove(0);
        assert(self.events() =~= old(self).events().drop_first());
        Some(e)
    }
}

/// Whether a tracked connection's authentication has timed out at `now`.
pub open spec fn expired_entry(c: ConnectionView, now: u64) -> bool {
    c.state matches StateView::InProgress(started) && auth_expired(started, now)
}

/// Whether `e` announces the timeout of a connection in `conns` that has
/// timed out at `now`.
pub open spec fn timeout_event_ok(e: EventView, conns: Map<Seq<u8>, ConnectionView>, now: u64) -> bool {
    match e {
        EventView::Timeout(p, a) => conns.contains_key(p) && conns[p].address == a && expired_entry(
            conns[p],
            now,
        ),
        _ => false,
    }
}

/// The peer whose timeout `e` announces.
pub open spec fn timeout_peer(e: EventView) -> Seq<u8> {
    match e {
        EventView::Timeout(p, _) => p,
        _ => Seq::empty(),
    }
}

/// A tracked connection after a timeout check at `now`.
pub open spec fn timed_out_view(c: ConnectionView, now: u64) -> ConnectionView {
    if expired_entry(c, now) {
        ConnectionView { address: c.address, state: StateView::Failed("Authentication timed out"@) }
    } else {
        c
    }
}

/// The node's own credentials pass the check.
pub proof fn law_own_credentials_accepted()
    ensures
        verdict(own_credentials()) == ResultView::Granted,
{
    reveal_with_fuel(first_value, 2);
}

/// An answer settles the connection it arrives on: an acceptance leaves it
/// authenticated and a refusal failed with the peer's reason, so a later
/// handler event starts no new authentication on it and no timeout is ever
/// announced or applied to it.
pub proof fn law_answer_settles_connection(result: ResultView, address: Seq<u8>, now: u64)
    ensures
        result is Granted ==> state_after(result) == StateView::Authenticated,
        result matches ResultView::Error(reason) ==> state_after(result) == StateView::Failed(
            reason,
        ),
        !(state_after(result) is NotAuthenticated),
        !expired_entry((ConnectionView { address, state: state_after(result) }), now),
        timed_out_view((ConnectionView { address, state: state_after(result) }), now) == (
        ConnectionView { address, state: state_after(result) }),
{
}

} // verus!
