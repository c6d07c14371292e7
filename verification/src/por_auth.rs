//! Mutual authentication by proofs of representation: each connection is
//! authenticated in both directions, the application verifies the proofs it
//! receives, and the events of the exchange wait in order to be announced.
//! Messages travel through a request-response exchange that the caller drives:
//! the functions here decide, and return what is to be sent.
use std::collections::HashMap;
use std::collections::HashSet;
use vstd::prelude::*;

use crate::peer_map::PeerMap;
use crate::pending::expired_at;
use crate::por::{validation_error, PorView, ProofOfRepresentation};
use crate::routes::copy_bytes;
use crate::types::{append_decimal, decimal_text};
use crate::xauth::pairs_view;
use vstd::std_specs::iter::IteratorSpec;

verus! {

broadcast use vstd::std_specs::hash::group_hash_axioms;

/// Protocol name of the exchange.
pub const PROTOCOL_ID: &'static str = "/por-auth/1.0.0";

/// How long one direction of authentication may stay in progress, in
/// milliseconds.
pub const AUTH_TIMEOUT: u64 = 5_000;

/// How long a received proof may wait for the application's verdict, in
/// milliseconds.
pub const VERIFICATION_TIMEOUT: u64 = 30_000;

/// Abstract metadata: key and value texts, in order.
pub type MetaView = Seq<(Seq<char>, Seq<char>)>;

/// A copy of metadata entries.
pub fn copy_metadata(m: &Vec<(String, String)>) -> (r: Vec<(String, String)>)
    ensures
        r@ == m@,
{
    let mut out: Vec<(String, String)> = Vec::new();
    let mut i: usize = 0;
    while i < m.len()
        invariant
            0 <= i <= m@.len(),
            out@ == m@.take(i as int),
        decreases m@.len() - i,
    {
        let k = m[i].0.clone();
        let v = m[i].1.clone();
        out.push((k, v));
        i = i + 1;
        assert(out@ =~= m@.take(i as int));
    }
    assert(m@.take(m@.len() as int) =~= m@);
    out
}

/// Which direction of authentication an event concerns.
#[derive(Debug, Clone, Copy, PartialEq, Eq, Structural)]
pub enum AuthDirection {
    /// From the remote peer to this node.
    Inbound,
    /// From this node to the remote peer.
    Outbound,
    /// Both directions.
    Both,
}

/// The state of one direction of authentication.
#[derive(Debug, Clone)]
pub enum DirectionalAuthState {
    NotStarted,
    InProgress { started: u64 },
    Successful(Vec<(String, String)>),
    Failed(String),
}

/// Abstract state of one direction.
pub enum DirView {
    NotStarted,
    InProgress(u64),
    Successful(MetaView),
    Failed(Seq<char>),
}

impl View for DirectionalAuthState {
    type V = DirView;

    open spec fn view(&self) -> DirView {
        match self {
            DirectionalAuthState::NotStarted => DirView::NotStarted,
            DirectionalAuthState::InProgress { started } => DirView::InProgress(*started),
            DirectionalAuthState::Successful(m) => DirView::Successful(pairs_view(m@)),
            DirectionalAuthState::Failed(r) => DirView::Failed(r@),
        }
    }
}

/// Both directions of a connection's authentication taken together.
#[derive(Debug, Clone)]
pub enum CombinedAuthState {
    NotAuthenticated,
    /// Only this node is authenticated to the peer, which sent this metadata.
    OutboundOnly(Vec<(String, String)>),
    /// Only the peer is authenticated to this node.
    InboundOnly,
    /// Both directions succeeded; the metadata is the peer's.
    FullyAuthenticated(Vec<(String, String)>),
    Failed(String),
}

/// Abstract combined state.
pub enum CombinedView {
    NotAuthenticated,
    OutboundOnly(MetaView),
    InboundOnly,
    FullyAuthenticated(MetaView),
    Failed(Seq<char>),
}

impl View for CombinedAuthState {
    type V = CombinedView;

    open spec fn view(&self) -> CombinedView {
        match self {
            CombinedAuthState::NotAuthenticated => CombinedView::NotAuthenticated,
            CombinedAuthState::OutboundOnly(m) => CombinedView::OutboundOnly(pairs_view(m@)),
            CombinedAuthState::InboundOnly => CombinedView::InboundOnly,
            CombinedAuthState::FullyAuthenticated(m) => CombinedView::FullyAuthenticated(
                pairs_view(m@),
            ),
            CombinedAuthState::Failed(r) => CombinedView::Failed(r@),
        }
    }
}

/// The combined state of the two directions: a failure in either (outbound
/// first) is a failure; otherwise success in both is full authentication,
/// carrying the metadata the peer sent.
pub open spec fn combined(outbound: DirView, inbound: DirView) -> CombinedView {
    match outbound {
        DirView::Failed(r) => CombinedView::Failed(r),
        DirView::Successful(m) => match inbound {
            DirView::Failed(r) => CombinedView::Failed(r),
            DirView::Successful(_) => CombinedView::FullyAuthenticated(m),
            _ => CombinedView::OutboundOnly(m),
        },
        _ => match inbound {
            DirView::Failed(r) => CombinedView::Failed(r),
            DirView::Successful(_) => CombinedView::InboundOnly,
            _ => CombinedView::NotAuthenticated,
        },
    }
}

/// Whether a direction has been in progress longer than `timeout` at `now`.
pub open spec fn dir_expired(s: DirView, now: u64, timeout: u64) -> bool {
    s matches DirView::InProgress(started) && expired_at(started, now, timeout)
}

/// Abstract tracked connection.
pub struct ConnView {
    pub peer: Seq<u8>,
    pub connection: u64,
    pub address: Seq<u8>,
    pub outbound: DirView,
    pub inbound: DirView,
    pub last_activity: u64,
}

/// The directions of `c` that have timed out at `now`, if any.
pub open spec fn timeout_direction(c: ConnView, now: u64, timeout: u64) -> Option<AuthDirection> {
    let o = dir_expired(c.outbound, now, timeout);
    let i = dir_expired(c.inbound, now, timeout);
    if o && i {
        Some(AuthDirection::Both)
    } else if o {
        Some(AuthDirection::Outbound)
    } else if i {
        Some(AuthDirection::Inbound)
    } else {
        None
    }
}

/// The metadata of a fully authenticated connection.
pub open spec fn metadata_of(c: ConnView) -> Option<MetaView> {
    match combined(c.outbound, c.inbound) {
        CombinedView::FullyAuthenticated(m) => Some(m),
        _ => None,
    }
}

/// Whether both directions of `c` succeeded.
pub open spec fn fully_authenticated(c: ConnView) -> bool {
    combined(c.outbound, c.inbound) is FullyAuthenticated
}

/// A connection as the authentication tracks it.
#[derive(Debug, Clone)]
pub struct ConnectionData {
    pub peer_id: Vec<u8>,
    pub connection_id: u64,
    pub address: Vec<u8>,
    pub outbound_auth: DirectionalAuthState,
    pub inbound_auth: DirectionalAuthState,
    /// Last time anything arrived on it, in milliseconds.
    pub last_activity: u64,
}

impl View for ConnectionData {
    type V = ConnView;

    open spec fn view(&self) -> ConnView {
        ConnView {
            peer: self.peer_id@,
            connection: self.connection_id,
            address: self.address@,
            outbound: self.outbound_auth@,
            inbound: self.inbound_auth@,
            last_activity: self.last_activity,
        }
    }
}

/// A freshly tracked connection: neither direction started.
pub open spec fn fresh_conn(peer: Seq<u8>, connection: u64, address: Seq<u8>, now: u64) -> ConnView {
    ConnView {
        peer,
        connection,
        address,
        outbound: DirView::NotStarted,
        inbound: DirView::NotStarted,
        last_activity: now,
    }
}

fn copy_dir_state(s: &DirectionalAuthState) -> (r: DirectionalAuthState)
    ensures
        r@ == s@,
{
    match s {
        DirectionalAuthState::NotStarted => DirectionalAuthState::NotStarted,
        DirectionalAuthState::InProgress { started } => DirectionalAuthState::InProgress {
            started: *started,
        },
        DirectionalAuthState::Successful(m) => DirectionalAuthState::Successful(copy_metadata(m)),
        DirectionalAuthState::Failed(r) => DirectionalAuthState::Failed(r.clone()),
    }
}

impl ConnectionData {
    /// A connection to `peer_id` at `address` tracked from `now`.
    pub fn new(peer_id: &[u8], connection_id: u64, address: &[u8], now: u64) -> (r: Self)
        ensures
            r@ == fresh_conn(peer_id@, connection_id, address@, now),
    {
        ConnectionData {
            peer_id: copy_bytes(peer_id),
            connection_id,
            address: copy_bytes(address),
            outbound_auth: DirectionalAuthState::NotStarted,
            inbound_auth: DirectionalAuthState::NotStarted,
            last_activity: now,
        }
    }

    /// A copy with the same content.
    pub fn duplicate(&self) -> (r: Self)
        ensures
            r@ == self@,
    {
        ConnectionData {
            peer_id: copy_bytes(self.peer_id.as_slice()),
            connection_id: self.connection_id,
            address: copy_bytes(self.address.as_slice()),
            outbound_auth: copy_dir_state(&self.outbound_auth),
            inbound_auth: copy_dir_state(&self.inbound_auth),
            last_activity: self.last_activity,
        }
    }

    /// Records activity at `now`.
    pub fn touch(&mut self, now: u64)
        ensures
            final(self)@ == (ConnView { last_activity: now, ..old(self)@ }),
    {
        self.last_activity = now;
    }

    /// Outbound authentication starts at `now`.
    pub fn start_outbound_auth(&mut self, now: u64)
        ensures
            final(self)@ == (ConnView { outbound: DirView::InProgress(now), ..old(self)@ }),
    {
        self.outbound_auth = DirectionalAuthState::InProgress { started: now };
    }

    /// Inbound authentication starts at `now`.
    pub fn start_inbound_auth(&mut self, now: u64)
        ensures
            final(self)@ == (ConnView { inbound: DirView::InProgress(now), ..old(self)@ }),
    {
        self.inbound_auth = DirectionalAuthState::InProgress { started: now };
    }

    /// The peer accepted this node, answering with `metadata`.
    pub fn set_outbound_auth_success(&mut self, metadata: Vec<(String, String)>)
        ensures
            final(self)@ == (ConnView {
                outbound: DirView::Successful(pairs_view(metadata@)),
                ..old(self)@
            }),
    {
        self.outbound_auth = DirectionalAuthState::Successful(metadata);
    }

    /// Authentication of this node to the peer failed for `reason`.
    pub fn set_outbound_auth_failed(&mut self, reason: String)
        ensures
            final(self)@ == (ConnView { outbound: DirView::Failed(reason@), ..old(self)@ }),
    {
        self.outbound_auth = DirectionalAuthState::Failed(reason);
    }

    /// This node accepted the peer.
    pub fn set_inbound_auth_success(&mut self)
        ensures
            final(self)@ == (ConnView {
                inbound: DirView::Successful(Seq::empty()),
                ..old(self)@
            }),
    {
        self.inbound_auth = DirectionalAuthState::Successful(Vec::new());
        assert(pairs_view(Seq::<(String, String)>::empty()) =~= Seq::empty());
    }

    /// Authentication of the peer to this node failed for `reason`.
    pub fn set_inbound_auth_failed(&mut self, reason: String)
        ensures
            final(self)@ == (ConnView { inbound: DirView::Failed(reason@), ..old(self)@ }),
    {
        self.inbound_auth = DirectionalAuthState::Failed(reason);
    }

    /// Whether outbound authentication has not started.
    pub fn is_outbound_not_started(&self) -> (r: bool)
        ensures
            r == (self@.outbound is NotStarted),
    {
        match self.outbound_auth {
            DirectionalAuthState::NotStarted => true,
            _ => false,
        }
    }

    /// Both directions taken together.
    pub fn get_combined_state(&self) -> (r: CombinedAuthState)
        ensures
            r@ == combined(self@.outbound, self@.inbound),
    {
        match &self.outbound_auth {
            DirectionalAuthState::Failed(r) => CombinedAuthState::Failed(r.clone()),
            DirectionalAuthState::Successful(m) => match &self.inbound_auth {
                DirectionalAuthState::Failed(r) => CombinedAuthState::Failed(r.clone()),
                DirectionalAuthState::Successful(_) => CombinedAuthState::FullyAuthenticated(
                    copy_metadata(m),
                ),
                _ => CombinedAuthState::OutboundOnly(copy_metadata(m)),
            },
            _ => match &self.inbound_auth {
                DirectionalAuthState::Failed(r) => CombinedAuthState::Failed(r.clone()),
                DirectionalAuthState::Successful(_) => CombinedAuthState::InboundOnly,
                _ => CombinedAuthState::NotAuthenticated,
            },
        }
    }

    /// Whether both directions succeeded.
    pub fn is_fully_authenticated(&self) -> (r: bool)
        ensures
            r == fully_authenticated(self@),
    {
        match self.get_combined_state() {
            CombinedAuthState::FullyAuthenticated(_) => true,
            _ => false,
        }
    }

    /// The peer's metadata, once both directions succeeded.
    pub fn get_metadata(&self) -> (r: Option<Vec<(String, String)>>)
        ensures
            metadata_of(self@) matches Some(m) ==> (r matches Some(v) && pairs_view(v@) == m),
            metadata_of(self@) is None ==> r is None,
    {
        match self.get_combined_state() {
            CombinedAuthState::FullyAuthenticated(m) => Some(m),
            _ => None,
        }
    }

    /// The directions whose authentication has been in progress longer than
    /// `timeout` at `now`.
    pub fn check_timeout(&self, now: u64, timeout: u64) -> (r: Option<AuthDirection>)
        ensures
            r == timeout_direction(self@, now, timeout),
    {
        let o = match self.outbound_auth {
            DirectionalAuthState::InProgress { started } => now > started && now - started
                > timeout,
            _ => false,
        };
        let i = match self.inbound_auth {
            DirectionalAuthState::InProgress { started } => now > started && now - started
                > timeout,
            _ => false,
        };
        if o && i {
            Some(AuthDirection::Both)
        } else if o {
            Some(AuthDirection::Outbound)
        } else if i {
            Some(AuthDirection::Inbound)
        } else {
            None
        }
    }
}

/// The answer to a proof: accepted with this node's metadata, or refused.
#[derive(Debug, Clone)]
pub enum AuthResult {
    Granted(Vec<(String, String)>),
    Error(String),
}

/// Abstract answer.
pub enum ResultView {
    Granted(MetaView),
    Error(Seq<char>),
}

impl View for AuthResult {
    type V = ResultView;

    open spec fn view(&self) -> ResultView {
        match self {
            AuthResult::Granted(m) => ResultView::Granted(pairs_view(m@)),
            AuthResult::Error(r) => ResultView::Error(r@),
        }
    }
}

/// The refusal sent for a proof that failed validation with message `e`.
pub open spec fn refusal_text(e: Seq<char>) -> Seq<char> {
    if e == "POR has expired"@ {
        "PoR validation failed: Expired"@
    } else if e == "POR not yet valid"@ {
        "PoR validation failed: Not yet valid"@
    } else if e == "Invalid signature"@ {
        "PoR validation failed: Invalid signature"@
    } else {
        "PoR validation failed: "@ + e
    }
}

/// A node's verdict on a peer's proof at time `now` (UNIX seconds): granted,
/// with no metadata, when every proof is to be accepted or this one is valid;
/// otherwise refused with a message that names what was wrong.
pub fn por_verdict(por: &ProofOfRepresentation, now: u64, accept_all: bool) -> (r: AuthResult)
    ensures
        accept_all || por.valid_at(now) ==> (r matches AuthResult::Granted(m) && m.len() == 0),
        !accept_all && !por.valid_at(now) ==> r@ == ResultView::Error(
            refusal_text(validation_error(*por, now)->0),
        ),
{
    if accept_all {
        return AuthResult::Granted(Vec::new());
    }
    match por.validate(now) {
        Ok(()) => AuthResult::Granted(Vec::new()),
        Err(e) => {
            if e == "POR has expired".to_string() {
                AuthResult::Error("PoR validation failed: Expired".to_string())
            } else if e == "POR not yet valid".to_string() {
                AuthResult::Error("PoR validation failed: Not yet valid".to_string())
            } else if e == "Invalid signature".to_string() {
                AuthResult::Error("PoR validation failed: Invalid signature".to_string())
            } else {
                let mut msg = "PoR validation failed: ".to_string();
                msg.append(e.as_str());
                AuthResult::Error(msg)
            }
        },
    }
}

/// What a node sends to authenticate itself: its proof and metadata.
#[derive(Debug, Clone)]
pub struct PorAuthRequest {
    pub por: ProofOfRepresentation,
    pub metadata: Vec<(String, String)>,
}

/// The answer to a request.
#[derive(Debug, Clone)]
pub struct PorAuthResponse {
    pub result: AuthResult,
}

/// A request to be sent to a peer.
#[derive(Debug)]
pub struct OutgoingRequest {
    pub peer_id: Vec<u8>,
    pub request: PorAuthRequest,
}

/// Abstract outgoing request.
pub struct OutView {
    pub peer: Seq<u8>,
    pub por: PorView,
    pub metadata: MetaView,
}

impl View for OutgoingRequest {
    type V = OutView;

    open spec fn view(&self) -> OutView {
        OutView {
            peer: self.peer_id@,
            por: self.request.por@,
            metadata: pairs_view(self.request.metadata@),
        }
    }
}

/// An answer to be sent on the connection whose request it answers.
#[derive(Debug)]
pub struct OutgoingResponse {
    pub connection_id: u64,
    pub response: PorAuthResponse,
}

/// A proof received from a peer, waiting for the application's verdict.
#[derive(Debug)]
pub struct PendingVerification {
    pub peer_id: Vec<u8>,
    pub address: Vec<u8>,
    pub por: ProofOfRepresentation,
    pub metadata: Vec<(String, String)>,
    /// When it arrived, in milliseconds.
    pub received_at: u64,
}

/// Abstract pending verification.
pub struct VerView {
    pub peer: Seq<u8>,
    pub address: Seq<u8>,
    pub por: PorView,
    pub metadata: MetaView,
    pub received_at: u64,
}

impl View for PendingVerification {
    type V = VerView;

    open spec fn view(&self) -> VerView {
        VerView {
            peer: self.peer_id@,
            address: self.address@,
            por: self.por@,
            metadata: pairs_view(self.metadata@),
            received_at: self.received_at,
        }
    }
}

/// What the authentication announces.
#[derive(Debug, Clone)]
pub enum PorAuthEvent {
    /// A peer sent its proof: the application is to verify it and submit the
    /// verdict.
    VerifyPorRequest {
        peer_id: Vec<u8>,
        connection_id: u64,
        address: Vec<u8>,
        por: ProofOfRepresentation,
        metadata: Vec<(String, String)>,
    },
    OutboundAuthSuccess {
        peer_id: Vec<u8>,
        connection_id: u64,
        address: Vec<u8>,
        metadata: Vec<(String, String)>,
    },
    InboundAuthSuccess { peer_id: Vec<u8>, connection_id: u64, address: Vec<u8> },
    MutualAuthSuccess {
        peer_id: Vec<u8>,
        connection_id: u64,
        address: Vec<u8>,
        metadata: Vec<(String, String)>,
    },
    InboundAuthFailure { peer_id: Vec<u8>, connection_id: u64, address: Vec<u8>, reason: String },
    OutboundAuthFailure { peer_id: Vec<u8>, connection_id: u64, address: Vec<u8>, reason: String },
    AuthTimeout {
        peer_id: Vec<u8>,
        connection_id: u64,
        address: Vec<u8>,
        direction: AuthDirection,
    },
}

/// Abstract event.
pub enum EventView {
    VerifyPorRequest(Seq<u8>, u64, Seq<u8>, PorView, MetaView),
    OutboundAuthSuccess(Seq<u8>, u64, Seq<u8>, MetaView),
    InboundAuthSuccess(Seq<u8>, u64, Seq<u8>),
    MutualAuthSuccess(Seq<u8>, u64, Seq<u8>, MetaView),
    InboundAuthFailure(Seq<u8>, u64, Seq<u8>, Seq<char>),
    OutboundAuthFailure(Seq<u8>, u64, Seq<u8>, Seq<char>),
    AuthTimeout(Seq<u8>, u64, Seq<u8>, AuthDirection),
}

impl View for PorAuthEvent {
    type V = EventView;

    open spec fn view(&self) -> EventView {
        match self {
            PorAuthEvent::VerifyPorRequest { peer_id, connection_id, address, por, metadata } =>
                EventView::VerifyPorRequest(
                peer_id@,
                *connection_id,
                address@,
                por@,
                pairs_view(metadata@),
            ),
            PorAuthEvent::OutboundAuthSuccess { peer_id, connection_id, address, metadata } =>
                EventView::OutboundAuthSuccess(
                peer_id@,
                *connection_id,
                address@,
                pairs_view(metadata@),
            ),
            PorAuthEvent::InboundAuthSuccess { peer_id, connection_id, address } =>
                EventView::InboundAuthSuccess(peer_id@, *connection_id, address@),
            PorAuthEvent::MutualAuthSuccess { peer_id, connection_id, address, metadata } =>
                EventView::MutualAuthSuccess(
                peer_id@,
                *connection_id,
                address@,
                pairs_view(metadata@),
            ),
            PorAuthEvent::InboundAuthFailure { peer_id, connection_id, address, reason } =>
                EventView::InboundAuthFailure(peer_id@, *connection_id, address@, reason@),
            PorAuthEvent::OutboundAuthFailure { peer_id, connection_id, address, reason } =>
                EventView::OutboundAuthFailure(peer_id@, *connection_id, address@, reason@),
            PorAuthEvent::AuthTimeout { peer_id, connection_id, address, direction } =>
                EventView::AuthTimeout(peer_id@, *connection_id, address@, *direction),
        }
    }
}

/// How a connection identifier is written in messages.
pub open spec fn conn_id_text(c: u64) -> Seq<char> {
    "ConnectionId("@ + decimal_text(c as nat) + ")"@
}

/// `prefix` followed by the connection identifier as messages write it.
fn connection_message(prefix: &str, c: u64) -> (r: String)
    ensures
        r@ == prefix@ + conn_id_text(c),
{
    let mut s = prefix.to_string();
    s.append("ConnectionId(");
    append_decimal(&mut s, c as u128);
    s.append(")");
    proof {
        reveal_strlit("ConnectionId(");
        reveal_strlit(")");
    }
    assert(s@ =~= prefix@ + conn_id_text(c));
    s
}

/// `c` with activity recorded at `now`.
pub open spec fn touched(c: ConnView, now: u64) -> ConnView {
    ConnView { last_activity: now, ..c }
}

/// A connection after the peer's answer to this node's request arrived at
/// `now`.
pub open spec fn after_response(c: ConnView, result: ResultView, now: u64) -> ConnView {
    match result {
        ResultView::Granted(m) => ConnView {
            outbound: DirView::Successful(m),
            ..touched(c, now)
        },
        ResultView::Error(r) => ConnView { outbound: DirView::Failed(r), ..touched(c, now) },
    }
}

/// The events announced when the peer's answer arrives on connection `cid`.
pub open spec fn response_events(cid: u64, c: ConnView, result: ResultView, now: u64) -> Seq<
    EventView,
> {
    match result {
        ResultView::Granted(m) => {
            let first = seq![EventView::OutboundAuthSuccess(c.peer, cid, c.address, m)];
            if fully_authenticated(after_response(c, result, now)) {
                first.push(EventView::MutualAuthSuccess(c.peer, cid, c.address, m))
            } else {
                first
            }
        },
        ResultView::Error(r) => seq![EventView::InboundAuthFailure(c.peer, cid, c.address, r)],
    }
}

/// A connection after this node's verdict on the peer's proof, at `now`,
/// before any outbound authentication it triggers.
pub open spec fn after_verdict(c: ConnView, result: ResultView, now: u64) -> ConnView {
    match result {
        ResultView::Granted(_) => ConnView {
            inbound: DirView::Successful(Seq::empty()),
            ..touched(c, now)
        },
        ResultView::Error(r) => ConnView { inbound: DirView::Failed(r), ..touched(c, now) },
    }
}

/// Whether a verdict starts this node's own authentication: an acceptance
/// while the outbound direction has not started.
pub open spec fn verdict_starts_outbound(c: ConnView, result: ResultView) -> bool {
    result is Granted && c.outbound is NotStarted
}

/// The connection once the verdict is recorded (and outbound authentication
/// started, where it triggers that).
pub open spec fn settled_by_verdict(c: ConnView, result: ResultView, now: u64) -> ConnView {
    if verdict_starts_outbound(c, result) {
        ConnView { outbound: DirView::InProgress(now), ..after_verdict(c, result, now) }
    } else {
        after_verdict(c, result, now)
    }
}

/// The events announced by this node's verdict on connection `cid`.
pub open spec fn verdict_events(cid: u64, c: ConnView, result: ResultView, now: u64) -> Seq<
    EventView,
> {
    match result {
        ResultView::Granted(_) => {
            let first = seq![EventView::InboundAuthSuccess(c.peer, cid, c.address)];
            match metadata_of(after_verdict(c, result, now)) {
                Some(m) => first.push(EventView::MutualAuthSuccess(c.peer, cid, c.address, m)),
                None => first,
            }
        },
        ResultView::Error(r) => seq![EventView::OutboundAuthFailure(c.peer, cid, c.address, r)],
    }
}

/// The connection identifiers a peer has, once a connection `cid` to it is
/// added.
pub open spec fn with_connection(peers: Map<Seq<u8>, Set<u64>>, peer: Seq<u8>, cid: u64) -> Map<
    Seq<u8>,
    Set<u64>,
> {
    let before = if peers.contains_key(peer) {
        peers[peer]
    } else {
        Set::empty()
    };
    peers.insert(peer, before.insert(cid))
}

/// The connection identifiers peers have, once connection `cid` to `peer` is
/// gone: a peer left with none is dropped.
pub open spec fn without_connection(peers: Map<Seq<u8>, Set<u64>>, peer: Seq<u8>, cid: u64) -> Map<
    Seq<u8>,
    Set<u64>,
> {
    if peers.contains_key(peer) {
        let rest = peers[peer].remove(cid);
        if rest.is_empty() {
            peers.remove(peer)
        } else {
            peers.insert(peer, rest)
        }
    } else {
        peers
    }
}

/// A connection after a timeout check at `now`: each direction that timed out
/// fails, with a reason naming the direction (or both).
pub open spec fn timed_out_conn(c: ConnView, now: u64) -> ConnView {
    match timeout_direction(c, now, AUTH_TIMEOUT) {
        Some(AuthDirection::Outbound) => ConnView {
            outbound: DirView::Failed("Outbound authentication timed out"@),
            ..c
        },
        Some(AuthDirection::Inbound) => ConnView {
            inbound: DirView::Failed("Inbound authentication timed out"@),
            ..c
        },
        Some(AuthDirection::Both) => ConnView {
            outbound: DirView::Failed("Authentication timed out"@),
            inbound: DirView::Failed("Authentication timed out"@),
            ..c
        },
        None => c,
    }
}

/// Whether `e` announces the timeout of a connection in `conns` that timed
/// out at `now`, with its peer, address and directions.
pub open spec fn timeout_event_for(e: EventView, conns: Map<u64, ConnView>, now: u64) -> bool {
    match e {
        EventView::AuthTimeout(p, k, a, d) => {
            &&& conns.contains_key(k)
            &&& conns[k].peer == p
            &&& conns[k].address == a
            &&& timeout_direction(conns[k], now, AUTH_TIMEOUT) == Some(d)
        },
        _ => false,
    }
}

/// The connection a timeout event names.
pub open spec fn timed_out_id(e: EventView) -> u64 {
    match e {
        EventView::AuthTimeout(_, k, _, _) => k,
        _ => 0,
    }
}

/// The proofs of `m` still within their time at `now`.
pub open spec fn live_verifs(m: Map<u64, VerView>, now: u64) -> Map<u64, VerView> {
    Map::new(
        |k: u64| m.contains_key(k) && !expired_at(m[k].received_at, now, VERIFICATION_TIMEOUT),
        |k: u64| m[k],
    )
}

/// Whether some connection of `peer` is authenticated in both directions.
pub open spec fn peer_authenticated(
    peers: Map<Seq<u8>, Set<u64>>,
    conns: Map<u64, ConnView>,
    peer: Seq<u8>,
) -> bool {
    peers.contains_key(peer) && exists|c: u64|
        #[trigger] peers[peer].contains(c) && conns.contains_key(c) && fully_authenticated(
            conns[c],
        )
}

/// What the request-response exchange reported.
#[derive(Debug)]
pub enum ExchangeEvent {
    /// A peer's request arrived.
    Request { peer_id: Vec<u8>, connection_id: u64, request: PorAuthRequest },
    /// The answer to this node's request arrived.
    Response { peer_id: Vec<u8>, connection_id: u64, response: PorAuthResponse },
    /// This node's request failed, for the reason given as text.
    OutboundFailure { peer_id: Vec<u8>, connection_id: u64, error: String },
    /// A peer's request failed, for the reason given as text.
    InboundFailure { peer_id: Vec<u8>, connection_id: u64, error: String },
    /// An instruction for a connection handler, to be passed on as it is.
    HandlerInstruction,
    /// Anything else.
    Other,
}

/// Abstract exchange report.
pub enum ExchangeView {
    Request(Seq<u8>, u64, PorView, MetaView),
    Response(Seq<u8>, u64, ResultView),
    OutboundFailure(Seq<u8>, u64, Seq<char>),
    InboundFailure(Seq<u8>, u64, Seq<char>),
    HandlerInstruction,
    Other,
}

impl View for ExchangeEvent {
    type V = ExchangeView;

    open spec fn view(&self) -> ExchangeView {
        match self {
            ExchangeEvent::Request { peer_id, connection_id, request } => ExchangeView::Request(
                peer_id@,
                *connection_id,
                request.por@,
                pairs_view(request.metadata@),
            ),
            ExchangeEvent::Response { peer_id, connection_id, response } => ExchangeView::Response(
                peer_id@,
                *connection_id,
                response.result@,
            ),
            ExchangeEvent::OutboundFailure { peer_id, connection_id, error } =>
                ExchangeView::OutboundFailure(peer_id@, *connection_id, error@),
            ExchangeEvent::InboundFailure { peer_id, connection_id, error } =>
                ExchangeView::InboundFailure(peer_id@, *connection_id, error@),
            ExchangeEvent::HandlerInstruction => ExchangeView::HandlerInstruction,
            ExchangeEvent::Other => ExchangeView::Other,
        }
    }
}

/// What one poll yields.
#[derive(Debug)]
pub enum PollOutcome {
    /// Nothing to announce now.
    Pending,
    /// The handler instruction is to be passed on.
    PassOn,
    /// The oldest waiting event.
    Event(PorAuthEvent),
}

/// The whole abstract state of the authentication.
pub struct AuthView {
    pub conns: Map<u64, ConnView>,
    pub peers: Map<Seq<u8>, Set<u64>>,
    pub verifs: Map<u64, VerView>,
    pub events: Seq<EventView>,
    pub por: PorView,
    pub metadata: MetaView,
}

/// The state once a report of the exchange, received at `now`, is handled.
pub open spec fn after_exchange(s: AuthView, e: ExchangeView, now: u64) -> AuthView {
    match e {
        ExchangeView::Request(p, c, por, meta) => if s.conns.contains_key(c) {
            let cv = s.conns[c];
            AuthView {
                conns: s.conns.insert(c, touched(cv, now)),
                verifs: s.verifs.insert(
                    c,
                    VerView { peer: p, address: cv.address, por, metadata: meta, received_at: now },
                ),
                events: s.events.push(EventView::VerifyPorRequest(p, c, cv.address, por, meta)),
                ..s
            }
        } else {
            s
        },
        ExchangeView::Response(p, c, result) => if s.conns.contains_key(c) {
            let cv = s.conns[c];
            AuthView {
                conns: s.conns.insert(c, after_response(cv, result, now)),
                events: s.events + response_events(c, ConnView { peer: p, ..cv }, result, now),
                ..s
            }
        } else {
            s
        },
        ExchangeView::OutboundFailure(p, c, err) => if s.conns.contains_key(c) {
            let cv = s.conns[c];
            let reason = "Outbound request failed: "@ + err;
            AuthView {
                conns: s.conns.insert(c, ConnView { outbound: DirView::Failed(reason), ..cv }),
                events: s.events.push(EventView::InboundAuthFailure(p, c, cv.address, reason)),
                ..s
            }
        } else {
            s
        },
        ExchangeView::InboundFailure(p, c, err) => if s.conns.contains_key(c) {
            let cv = s.conns[c];
            let reason = "Inbound request failed: "@ + err;
            AuthView {
                conns: s.conns.insert(c, ConnView { inbound: DirView::Failed(reason), ..cv }),
                events: s.events.push(EventView::OutboundAuthFailure(p, c, cv.address, reason)),
                ..s
            }
        } else {
            s
        },
        _ => s,
    }
}

/// The authentication of every connection, the proofs awaiting the
/// application's verdict, and the events waiting to be announced.
pub struct PorAuthBehaviour {
    connections: HashMap<u64, ConnectionData>,
    peer_connections: PeerMap<HashSet<u64>>,
    pending_events: Vec<PorAuthEvent>,
    por: ProofOfRepresentation,
    metadata: Vec<(String, String)>,
    pending_verifications: HashMap<u64, PendingVerification>,
}

impl PorAuthBehaviour {
    /// The tracked connections by identifier.
    pub closed spec fn conns(&self) -> Map<u64, ConnView> {
        self.connections@.map_values(|c: ConnectionData| c@)
    }

    /// The connection identifiers of each peer.
    pub closed spec fn peers(&self) -> Map<Seq<u8>, Set<u64>> {
        self.peer_connections.view().map_values(|s: HashSet<u64>| s@)
    }

    /// The proofs awaiting a verdict, by connection identifier.
    pub closed spec fn verifs(&self) -> Map<u64, VerView> {
        self.pending_verifications@.map_values(|v: PendingVerification| v@)
    }

    /// The events waiting to be announced, oldest first.
    pub closed spec fn events(&self) -> Seq<EventView> {
        self.pending_events@.map_values(|e: PorAuthEvent| e@)
    }

    /// This node's proof.
    pub closed spec fn own_por(&self) -> PorView {
        self.por@
    }

    /// The metadata this node sends.
    pub closed spec fn own_metadata(&self) -> MetaView {
        pairs_view(self.metadata@)
    }

    /// The whole abstract state.
    pub open spec fn state(&self) -> AuthView {
        AuthView {
            conns: self.conns(),
            peers: self.peers(),
            verifs: self.verifs(),
            events: self.events(),
            por: self.own_por(),
            metadata: self.own_metadata(),
        }
    }

    /// The request this node sends to `peer`.
    pub open spec fn request_to(&self, peer: Seq<u8>) -> OutView {
        OutView { peer, por: self.own_por(), metadata: self.own_metadata() }
    }

    /// Each peer is listed once, and only with some connection.
    pub closed spec fn wf(&self) -> bool {
        &&& self.peer_connections.wf()
        &&& forall|p: Seq<u8>| #[trigger]
            self.peer_connections.view().contains_key(p) ==> !self.peer_connections.view()[p]@.is_empty()
    }

    /// Nothing tracked, with `por` and no metadata to send.
    pub fn new(por: ProofOfRepresentation) -> (r: Self)
        ensures
            r.wf(),
            r.conns() == Map::<u64, ConnView>::empty(),
            r.peers() == Map::<Seq<u8>, Set<u64>>::empty(),
            r.verifs() == Map::<u64, VerView>::empty(),
            r.events() == Seq::<EventView>::empty(),
            r.own_por() == por@,
            r.own_metadata() == Seq::<(Seq<char>, Seq<char>)>::empty(),
    {
        let r = Self::with_metadata(por, Vec::new());
        assert(r.own_metadata() =~= Seq::<(Seq<char>, Seq<char>)>::empty());
        r
    }

    /// Nothing tracked, with `por` and `metadata` to send.
    pub fn with_metadata(por: ProofOfRepresentation, metadata: Vec<(String, String)>) -> (r: Self)
        ensures
            r.wf(),
            r.conns() == Map::<u64, ConnView>::empty(),
            r.peers() == Map::<Seq<u8>, Set<u64>>::empty(),
            r.verifs() == Map::<u64, VerView>::empty(),
            r.events() == Seq::<EventView>::empty(),
            r.own_por() == por@,
            r.own_metadata() == pairs_view(metadata@),
    {
        let r = PorAuthBehaviour {
            connections: HashMap::new(),
            peer_connections: PeerMap::new(),
            pending_events: Vec::new(),
            por,
            metadata,
            pending_verifications: HashMap::new(),
        };
        assert(r.conns() =~= Map::<u64, ConnView>::empty());
        assert(r.peers() =~= Map::<Seq<u8>, Set<u64>>::empty());
        assert(r.verifs() =~= Map::<u64, VerView>::empty());
        assert(r.events() =~= Seq::<EventView>::empty());
        r
    }

    /// Replaces the proof this node sends.
    pub fn update_por(&mut self, por: ProofOfRepresentation)
        requires
            old(self).wf(),
        ensures
            final(self).wf(),
            final(self).own_por() == por@,
            final(self).own_metadata() == old(self).own_metadata(),
            final(self).conns() == old(self).conns(),
            final(self).peers() == old(self).peers(),
            final(self).verifs() == old(self).verifs(),
            final(self).events() == old(self).events(),
    {
        self.por = por;
    }

    /// Replaces the metadata this node sends.
    pub fn update_metadata(&mut self, metadata: Vec<(String, String)>)
        requires
            old(self).wf(),
        ensures
            final(self).wf(),
            final(self).own_por() == old(self).own_por(),
            final(self).own_metadata() == pairs_view(metadata@),
            final(self).conns() == old(self).conns(),
            final(self).peers() == old(self).peers(),
            final(self).verifs() == old(self).verifs(),
            final(self).events() == old(self).events(),
    {
        self.metadata = metadata;
    }

    fn push_event(&mut self, e: PorAuthEvent)
        ensures
            final(self).events() == old(self).events().push(e@),
            final(self).connections == old(self).connections,
            final(self).peer_connections == old(self).peer_connections,
            final(self).pending_verifications == old(self).pending_verifications,
            final(self).por == old(self).por,
            final(self).metadata == old(self).metadata,
    {
        let ghost before = self.events();
        self.pending_events.push(e);
        assert(self.events() =~= before.push(e@));
    }

    fn put_conn(&mut self, cid: u64, c: ConnectionData)
        ensures
            final(self).conns() == old(self).conns().insert(cid, c@),
            final(self).events() == old(self).events(),
            final(self).peer_connections == old(self).peer_connections,
            final(self).pending_verifications == old(self).pending_verifications,
            final(self).por == old(self).por,
            final(self).metadata == old(self).metadata,
    {
        self.connections.insert(cid, c);
        assert(self.conns() =~= old(self).conns().insert(cid, c@));
    }

    fn take_conn(&mut self, cid: u64) -> (r: Option<ConnectionData>)
        ensures
            old(self).conns().contains_key(cid) ==> (r matches Some(c) && c@ == old(
                self,
            ).conns()[cid]),
            !old(self).conns().contains_key(cid) ==> r is None,
            final(self).conns() == old(self).conns().remove(cid),
            final(self).events() == old(self).events(),
            final(self).peer_connections == old(self).peer_connections,
            final(self).pending_verifications == old(self).pending_verifications,
            final(self).por == old(self).por,
            final(self).metadata == old(self).metadata,
    {
        let r = self.connections.remove(&cid);
        assert(self.conns() =~= old(self).conns().remove(cid));
        r
    }

    /// The request this node sends to `peer_id`.
    fn request_for(&self, peer_id: &[u8]) -> (r: OutgoingRequest)
        ensures
            r@ == self.request_to(peer_id@),
    {
        OutgoingRequest {
            peer_id: copy_bytes(peer_id),
            request: PorAuthRequest { por: self.por.duplicate(), metadata: copy_metadata(&self.metadata) },
        }
    }

    /// A connection `connection_id` to `peer_id` at `address` was
    /// established at `now`: it is tracked with neither direction started.
    pub fn on_connection_established(
        &mut self,
        peer_id: &[u8],
        connection_id: u64,
        address: &[u8],
        now: u64,
    )
        requires
            old(self).wf(),
        ensures
            final(self).wf(),
            final(self).conns() == old(self).conns().insert(
                connection_id,
                fresh_conn(peer_id@, connection_id, address@, now),
            ),
            final(self).peers() == with_connection(old(self).peers(), peer_id@, connection_id),
            final(self).verifs() == old(self).verifs(),
            final(self).events() == old(self).events(),
            final(self).own_por() == old(self).own_por(),
            final(self).own_metadata() == old(self).own_metadata(),
    {
        self.put_conn(connection_id, ConnectionData::new(peer_id, connection_id, address, now));
        let mut set = match self.peer_connections.remove(peer_id) {
            Some(s) => s,
            None => HashSet::new(),
        };
        set.insert(connection_id);
        self.peer_connections.insert(peer_id, set);
        proof {
            let target = with_connection(old(self).peers(), peer_id@, connection_id);
            assert(self.peers() =~= target);
            assert forall|p: Seq<u8>| #[trigger]
                self.peer_connections.view().contains_key(p) implies !self.peer_connections.view()[p]@.is_empty() by {
                if p == peer_id@ {
                    assert(self.peers()[p].contains(connection_id));
                } else {
                    assert(old(self).peers().contains_key(p));
                }
            }
        }
    }

    /// Connection `connection_id` closed: it is forgotten, with any proof
    /// awaiting a verdict on it; its peer is dropped once it has no
    /// connection left.
    pub fn on_connection_closed(&mut self, connection_id: u64)
        requires
            old(self).wf(),
        ensures
            final(self).wf(),
            final(self).events() == old(self).events(),
            final(self).own_por() == old(self).own_por(),
            final(self).own_metadata() == old(self).own_metadata(),
            !old(self).conns().contains_key(connection_id) ==> {
                &&& final(self).conns() == old(self).conns()
                &&& final(self).peers() == old(self).peers()
                &&& final(self).verifs() == old(self).verifs()
            },
            old(self).conns().contains_key(connection_id) ==> {
                &&& final(self).conns() == old(self).conns().remove(connection_id)
                &&& final(self).peers() == without_connection(
                    old(self).peers(),
                    old(self).conns()[connection_id].peer,
                    connection_id,
                )
                &&& final(self).verifs() == old(self).verifs().remove(connection_id)
            },
    {
        let c = match self.take_conn(connection_id) {
            Some(c) => c,
            None => {
                return ;
            },
        };
        let peer = c.peer_id;
        match self.peer_connections.remove(peer.as_slice()) {
            Some(mut set) => {
                set.remove(&connection_id);
                if !set.is_empty() {
                    self.peer_connections.insert(peer.as_slice(), set);
                }
            },
            None => {},
        }
        self.pending_verifications.remove(&connection_id);
        proof {
            let target = without_connection(old(self).peers(), peer@, connection_id);
            assert(self.peers() =~= target);
            assert(self.verifs() =~= old(self).verifs().remove(connection_id));
            assert forall|p: Seq<u8>| #[trigger]
                self.peer_connections.view().contains_key(p) implies !self.peer_connections.view()[p]@.is_empty() by {
                assert(self.peers().contains_key(p));
                if p != peer@ {
                    assert(old(self).peers().contains_key(p));
                }
            }
        }
    }

    /// Starts this node's authentication on a tracked connection at `now`
    /// and returns the request to send to `peer_id`.
    fn start_outbound_auth(&mut self, peer_id: &[u8], connection_id: u64, now: u64) -> (r: Option<
        OutgoingRequest,
    >)
        requires
            old(self).wf(),
        ensures
            final(self).wf(),
            final(self).peers() == old(self).peers(),
            final(self).verifs() == old(self).verifs(),
            final(self).events() == old(self).events(),
            final(self).own_por() == old(self).own_por(),
            final(self).own_metadata() == old(self).own_metadata(),
            !old(self).conns().contains_key(connection_id) ==> r is None && final(self).conns()
                == old(self).conns(),
            old(self).conns().contains_key(connection_id) ==> {
                &&& r matches Some(q) && q@ == old(self).request_to(peer_id@)
                &&& final(self).conns() == old(self).conns().insert(
                    connection_id,
                    ConnView {
                        outbound: DirView::InProgress(now),
                        ..old(self).conns()[connection_id]
                    },
                )
            },
    {
        match self.take_conn(connection_id) {
            Some(mut c) => {
                c.start_outbound_auth(now);
                self.put_conn(connection_id, c);
                assert(self.conns() =~= old(self).conns().insert(
                    connection_id,
                    ConnView {
                        outbound: DirView::InProgress(now),
                        ..old(self).conns()[connection_id]
                    },
                ));
                Some(self.request_for(peer_id))
            },
            None => {
                assert(self.conns() =~= old(self).conns());
                None
            },
        }
    }

    /// Starts waiting, from `now`, for the peer to authenticate itself on a
    /// tracked connection.
    fn start_inbound_auth_waiting(&mut self, connection_id: u64, now: u64)
        requires
            old(self).wf(),
        ensures
            final(self).wf(),
            final(self).peers() == old(self).peers(),
            final(self).verifs() == old(self).verifs(),
            final(self).events() == old(self).events(),
            final(self).own_por() == old(self).own_por(),
            final(self).own_metadata() == old(self).own_metadata(),
            !old(self).conns().contains_key(connection_id) ==> final(self).conns() == old(
                self,
            ).conns(),
            old(self).conns().contains_key(connection_id) ==> final(self).conns() == old(
                self,
            ).conns().insert(
                connection_id,
                ConnView { inbound: DirView::InProgress(now), ..old(self).conns()[connection_id] },
            ),
    {
        match self.take_conn(connection_id) {
            Some(mut c) => {
                c.start_inbound_auth(now);
                self.put_conn(connection_id, c);
                assert(self.conns() =~= old(self).conns().insert(
                    connection_id,
                    ConnView {
                        inbound: DirView::InProgress(now),
                        ..old(self).conns()[connection_id]
                    },
                ));
            },
            None => {
                assert(self.conns() =~= old(self).conns());
            },
        }
    }

    /// Starts both directions of authentication on connection
    /// `connection_id` at `now`, returning the request to send to its peer;
    /// "No connection data for connection ID ..." for an untracked one.
    pub fn start_authentication(&mut self, connection_id: u64, now: u64) -> (r: Result<
        OutgoingRequest,
        String,
    >)
        requires
            old(self).wf(),
        ensures
            final(self).wf(),
            final(self).peers() == old(self).peers(),
            final(self).verifs() == old(self).verifs(),
            final(self).events() == old(self).events(),
            final(self).own_por() == old(self).own_por(),
            final(self).own_metadata() == old(self).own_metadata(),
            !old(self).conns().contains_key(connection_id) ==> {
                &&& r matches Err(e) && e@ == "No connection data for connection ID "@
                    + conn_id_text(connection_id)
                &&& final(self).conns() == old(self).conns()
            },
            old(self).conns().contains_key(connection_id) ==> {
                let c = old(self).conns()[connection_id];
                &&& r matches Ok(q) && q@ == old(self).request_to(c.peer)
                &&& final(self).conns() == old(self).conns().insert(
                    connection_id,
                    ConnView {
                        outbound: DirView::InProgress(now),
                        inbound: DirView::InProgress(now),
                        ..c
                    },
                )
            },
    {
        let peer = match self.connections.get(&connection_id) {
            Some(c) => copy_bytes(c.peer_id.as_slice()),
            None => {
                return Err(
                    connection_message("No connection data for connection ID ", connection_id),
                );
            },
        };
        let q = self.start_outbound_auth(peer.as_slice(), connection_id, now);
        self.start_inbound_auth_waiting(connection_id, now);
        proof {
            let c = old(self).conns()[connection_id];
            assert(self.conns() =~= old(self).conns().insert(
                connection_id,
                ConnView {
                    outbound: DirView::InProgress(now),
                    inbound: DirView::InProgress(now),
                    ..c
                },
            ));
        }
        Ok(q.unwrap())
    }

    /// A request with the peer's proof arrived on connection `connection_id`
    /// at `now`: on a tracked connection the proof is kept for the
    /// application's verdict and a verification request is announced.
    /// Returns whether it was kept.
    fn handle_auth_request(
        &mut self,
        peer_id: &[u8],
        connection_id: u64,
        request: PorAuthRequest,
        now: u64,
    ) -> (r: bool)
        requires
            old(self).wf(),
        ensures
            final(self).wf(),
            final(self).peers() == old(self).peers(),
            final(self).own_por() == old(self).own_por(),
            final(self).own_metadata() == old(self).own_metadata(),
            r == old(self).conns().contains_key(connection_id),
            !r ==> {
                &&& final(self).conns() == old(self).conns()
                &&& final(self).verifs() == old(self).verifs()
                &&& final(self).events() == old(self).events()
            },
            r ==> {
                let c = old(self).conns()[connection_id];
                &&& final(self).conns() == old(self).conns().insert(connection_id, touched(c, now))
                &&& final(self).verifs() == old(self).verifs().insert(
                    connection_id,
                    VerView {
                        peer: peer_id@,
                        address: c.address,
                        por: request.por@,
                        metadata: pairs_view(request.metadata@),
                        received_at: now,
                    },
                )
                &&& final(self).events() == old(self).events().push(
                    EventView::VerifyPorRequest(
                        peer_id@,
                        connection_id,
                        c.address,
                        request.por@,
                        pairs_view(request.metadata@),
                    ),
                )
            },
    {
        let mut c = match self.take_conn(connection_id) {
            Some(c) => c,
            None => {
                assert(self.conns() =~= old(self).conns());
                return false;
            },
        };
        c.touch(now);
        let address = copy_bytes(c.address.as_slice());
        self.put_conn(connection_id, c);
        let verification = PendingVerification {
            peer_id: copy_bytes(peer_id),
            address: copy_bytes(address.as_slice()),
            por: request.por.duplicate(),
            metadata: copy_metadata(&request.metadata),
            received_at: now,
        };
        let ghost v = verification@;
        self.pending_verifications.insert(connection_id, verification);
        self.push_event(
            PorAuthEvent::VerifyPorRequest {
                peer_id: copy_bytes(peer_id),
                connection_id,
                address,
                por: request.por,
                metadata: request.metadata,
            },
        );
        proof {
            let c0 = old(self).conns()[connection_id];
            assert(self.conns() =~= old(self).conns().insert(connection_id, touched(c0, now)));
            assert(self.verifs() =~= old(self).verifs().insert(connection_id, v));
        }
        true
    }

    /// The peer's answer to this node's request arrived on connection
    /// `connection_id` at `now`: on a tracked connection the outbound
    /// direction succeeds or fails accordingly, and the outcome is announced
    /// (with mutual success once both directions succeeded).
    fn handle_auth_response(
        &mut self,
        peer_id: &[u8],
        connection_id: u64,
        response: PorAuthResponse,
        now: u64,
    )
        requires
            old(self).wf(),
        ensures
            final(self).wf(),
            final(self).peers() == old(self).peers(),
            final(self).verifs() == old(self).verifs(),
            final(self).own_por() == old(self).own_por(),
            final(self).own_metadata() == old(self).own_metadata(),
            !old(self).conns().contains_key(connection_id) ==> {
                &&& final(self).conns() == old(self).conns()
                &&& final(self).events() == old(self).events()
            },
            old(self).conns().contains_key(connection_id) ==> {
                let c = ConnView { peer: peer_id@, ..old(self).conns()[connection_id] };
                &&& final(self).conns() == old(self).conns().insert(
                    connection_id,
                    after_response(old(self).conns()[connection_id], response.result@, now),
                )
                &&& final(self).events() == old(self).events() + response_events(
                    connection_id,
                    c,
                    response.result@,
                    now,
                )
            },
    {
        let mut c = match self.take_conn(connection_id) {
            Some(c) => c,
            None => {
                assert(self.conns() =~= old(self).conns());
                return ;
            },
        };
        let ghost c0 = c@;
        let ghost before = self.events();
        c.touch(now);
        let address = copy_bytes(c.address.as_slice());
        match response.result {
            AuthResult::Granted(metadata) => {
                c.set_outbound_auth_success(copy_metadata(&metadata));
                let fully = c.is_fully_authenticated();
                let mutual = c.get_metadata();
                self.put_conn(connection_id, c);
                self.push_event(
                    PorAuthEvent::OutboundAuthSuccess {
                        peer_id: copy_bytes(peer_id),
                        connection_id,
                        address: copy_bytes(address.as_slice()),
                        metadata: metadata,
                    },
                );
                if fully {
                    match mutual {
                        Some(m) => {
                            self.push_event(
                                PorAuthEvent::MutualAuthSuccess {
                                    peer_id: copy_bytes(peer_id),
                                    connection_id,
                                    address,
                                    metadata: m,
                                },
                            );
                        },
                        None => {},
                    }
                }
            },
            AuthResult::Error(reason) => {
                c.set_outbound_auth_failed(reason.clone());
                self.put_conn(connection_id, c);
                self.push_event(
                    PorAuthEvent::InboundAuthFailure {
                        peer_id: copy_bytes(peer_id),
                        connection_id,
                        address,
                        reason,
                    },
                );
            },
        }
        proof {
            assert(self.conns() =~= old(self).conns().insert(
                connection_id,
                after_response(c0, response.result@, now),
            ));
            let cv = ConnView { peer: peer_id@, ..c0 };
            assert(self.events() =~= before + response_events(
                connection_id,
                cv,
                response.result@,
                now,
            ));
        }
    }

    /// Whether a proof received on connection `connection_id` awaits a
    /// verdict.
    pub fn has_pending_verification(&self, connection_id: u64) -> (r: bool)
        ensures
            r == self.verifs().contains_key(connection_id),
    {
        self.pending_verifications.contains_key(&connection_id)
    }

    /// Records the application's verdict on the proof received on connection
    /// `connection_id`, at `now`. `sent` is the outcome of sending the verdict
    /// to the peer on that request's channel (an error's text when it
    /// failed). Fails with "No pending verification for connection ID ..."
    /// when no proof awaits a verdict there (nothing changes), with "Failed to
    /// send auth response: ..." when sending failed, and with "Connection data
    /// not found for connection ID ..." for an untracked connection; in these
    /// last two cases the proof is dropped and nothing else changes.
    /// Otherwise the inbound direction succeeds or fails, the outcome is
    /// announced, and an acceptance while this node has not yet authenticated
    /// itself starts that, returning the request to send.
    pub fn submit_por_verification_result(
        &mut self,
        connection_id: u64,
        result: AuthResult,
        sent: Result<(), String>,
        now: u64,
    ) -> (r: Result<Option<OutgoingRequest>, String>)
        requires
            old(self).wf(),
        ensures
            final(self).wf(),
            final(self).peers() == old(self).peers(),
            final(self).own_por() == old(self).own_por(),
            final(self).own_metadata() == old(self).own_metadata(),
            !old(self).verifs().contains_key(connection_id) ==> {
                &&& r matches Err(e) && e@ == "No pending verification for connection ID "@
                    + conn_id_text(connection_id)
                &&& final(self).conns() == old(self).conns()
                &&& final(self).verifs() == old(self).verifs()
                &&& final(self).events() == old(self).events()
            },
            old(self).verifs().contains_key(connection_id) ==> final(self).verifs() == old(
                self,
            ).verifs().remove(connection_id),
            old(self).verifs().contains_key(connection_id) && sent is Err ==> {
                &&& r matches Err(e) && e@ == "Failed to send auth response: "@ + sent->Err_0@
                &&& final(self).conns() == old(self).conns()
                &&& final(self).events() == old(self).events()
            },
            old(self).verifs().contains_key(connection_id) && sent is Ok
                && !old(self).conns().contains_key(connection_id) ==> {
                &&& r matches Err(e) && e@ == "Connection data not found for connection ID "@
                    + conn_id_text(connection_id)
                &&& final(self).conns() == old(self).conns()
                &&& final(self).events() == old(self).events()
            },
            old(self).verifs().contains_key(connection_id) && sent is Ok && old(
                self,
            ).conns().contains_key(connection_id) ==> {
                let c = old(self).conns()[connection_id];
                &&& final(self).conns() == old(self).conns().insert(
                    connection_id,
                    settled_by_verdict(c, result@, now),
                )
                &&& final(self).events() == old(self).events() + verdict_events(
                    connection_id,
                    c,
                    result@,
                    now,
                )
                &&& verdict_starts_outbound(c, result@) ==> (r matches Ok(Some(q)) && q@
                    == old(self).request_to(c.peer))
                &&& !verdict_starts_outbound(c, result@) ==> r matches Ok(None)
            },
    {
        let removed = self.pending_verifications.remove(&connection_id);
        proof {
            assert(self.verifs() =~= old(self).verifs().remove(connection_id));
        }
        if removed.is_none() {
            return Err(connection_message("No pending verification for connection ID ", connection_id));
        }
        match sent {
            Err(e) => {
                let mut msg = "Failed to send auth response: ".to_string();
                msg.append(e.as_str());
                return Err(msg);
            },
            Ok(()) => {},
        }
        let mut c = match self.take_conn(connection_id) {
            Some(c) => c,
            None => {
                assert(self.conns() =~= old(self).conns());
                return Err(
                    connection_message("Connection data not found for connection ID ", connection_id),
                );
            },
        };
        let ghost c0 = c@;
        let ghost before = self.events();
        c.touch(now);
        let peer = copy_bytes(c.peer_id.as_slice());
        let address = copy_bytes(c.address.as_slice());
        let need_outbound: bool;
        match result {
            AuthResult::Granted(_) => {
                c.set_inbound_auth_success();
                need_outbound = c.is_outbound_not_started();
                let fully = c.is_fully_authenticated();
                let mutual = c.get_metadata();
                self.put_conn(connection_id, c);
                self.push_event(
                    PorAuthEvent::InboundAuthSuccess {
                        peer_id: copy_bytes(peer.as_slice()),
                        connection_id,
                        address: copy_bytes(address.as_slice()),
                    },
                );
                if fully {
                    match mutual {
                        Some(m) => {
                            self.push_event(
                                PorAuthEvent::MutualAuthSuccess {
                                    peer_id: copy_bytes(peer.as_slice()),
                                    connection_id,
                                    address,
                                    metadata: m,
                                },
                            );
                        },
                        None => {},
                    }
                }
            },
            AuthResult::Error(reason) => {
                c.set_inbound_auth_failed(reason.clone());
                need_outbound = false;
                self.put_conn(connection_id, c);
                self.push_event(
                    PorAuthEvent::OutboundAuthFailure {
                        peer_id: copy_bytes(peer.as_slice()),
                        connection_id,
                        address,
                        reason,
                    },
                );
            },
        }
        proof {
            assert(self.conns() =~= old(self).conns().insert(
                connection_id,
                after_verdict(c0, result@, now),
            ));
            assert(self.events() =~= before + verdict_events(connection_id, c0, result@, now));
        }
        if need_outbound {
            let q = self.start_outbound_auth(peer.as_slice(), connection_id, now);
            proof {
                assert(self.conns() =~= old(self).conns().insert(
                    connection_id,
                    settled_by_verdict(c0, result@, now),
                ));
            }
            Ok(q)
        } else {
            Ok(None)
        }
    }

    /// This node's request on connection `connection_id` failed with the
    /// given error text: a tracked connection's outbound direction fails with
    /// "Outbound request failed: <text>", announced as a failure of the
    /// peer's side of the exchange.
    fn on_outbound_failure(&mut self, peer_id: &[u8], connection_id: u64, error: &str)
        requires
            old(self).wf(),
        ensures
            final(self).wf(),
            final(self).peers() == old(self).peers(),
            final(self).verifs() == old(self).verifs(),
            final(self).own_por() == old(self).own_por(),
            final(self).own_metadata() == old(self).own_metadata(),
            !old(self).conns().contains_key(connection_id) ==> {
                &&& final(self).conns() == old(self).conns()
                &&& final(self).events() == old(self).events()
            },
            old(self).conns().contains_key(connection_id) ==> {
                let c = old(self).conns()[connection_id];
                let reason = "Outbound request failed: "@ + error@;
                &&& final(self).conns() == old(self).conns().insert(
                    connection_id,
                    ConnView { outbound: DirView::Failed(reason), ..c },
                )
                &&& final(self).events() == old(self).events().push(
                    EventView::InboundAuthFailure(peer_id@, connection_id, c.address, reason),
                )
            },
    {
        let mut c = match self.take_conn(connection_id) {
            Some(c) => c,
            None => {
                assert(self.conns() =~= old(self).conns());
                return ;
            },
        };
        let mut reason = "Outbound request failed: ".to_string();
        reason.append(error);
        c.set_outbound_auth_failed(reason.clone());
        let address = copy_bytes(c.address.as_slice());
        let ghost cv = c@;
        self.put_conn(connection_id, c);
        self.push_event(
            PorAuthEvent::InboundAuthFailure {
                peer_id: copy_bytes(peer_id),
                connection_id,
                address,
                reason,
            },
        );
        assert(self.conns() =~= old(self).conns().insert(connection_id, cv));
    }

    /// A request from the peer on connection `connection_id` failed with the
    /// given error text: a tracked connection's inbound direction fails with
    /// "Inbound request failed: <text>", announced as a failure of this
    /// node's side of the exchange.
    fn on_inbound_failure(&mut self, peer_id: &[u8], connection_id: u64, error: &str)
        requires
            old(self).wf(),
        ensures
            final(self).wf(),
            final(self).peers() == old(self).peers(),
            final(self).verifs() == old(self).verifs(),
            final(self).own_por() == old(self).own_por(),
            final(self).own_metadata() == old(self).own_metadata(),
            !old(self).conns().contains_key(connection_id) ==> {
                &&& final(self).conns() == old(self).conns()
                &&& final(self).events() == old(self).events()
            },
            old(self).conns().contains_key(connection_id) ==> {
                let c = old(self).conns()[connection_id];
                let reason = "Inbound request failed: "@ + error@;
                &&& final(self).conns() == old(self).conns().insert(
                    connection_id,
                    ConnView { inbound: DirView::Failed(reason), ..c },
                )
                &&& final(self).events() == old(self).events().push(
                    EventView::OutboundAuthFailure(peer_id@, connection_id, c.address, reason),
                )
            },
    {
        let mut c = match self.take_conn(connection_id) {
            Some(c) => c,
            None => {
                assert(self.conns() =~= old(self).conns());
                return ;
            },
        };
        let mut reason = "Inbound request failed: ".to_string();
        reason.append(error);
        c.set_inbound_auth_failed(reason.clone());
        let address = copy_bytes(c.address.as_slice());
        let ghost cv = c@;
        self.put_conn(connection_id, c);
        self.push_event(
            PorAuthEvent::OutboundAuthFailure {
                peer_id: copy_bytes(peer_id),
                connection_id,
                address,
                reason,
            },
        );
        assert(self.conns() =~= old(self).conns().insert(connection_id, cv));
    }
    fn expired_connection_ids(&self, now: u64) -> (r: Vec<u64>)
        ensures
            r@.no_duplicates(),
            forall|i: int|
                0 <= i < r@.len() ==> {
                    &&& self.conns().contains_key(#[trigger] r@[i])
                    &&& timeout_direction(self.conns()[r@[i]], now, AUTH_TIMEOUT) is Some
                },
            forall|k: u64|
                #[trigger] self.conns().contains_key(k) && timeout_direction(
                    self.conns()[k],
                    now,
                    AUTH_TIMEOUT,
                ) is Some ==> r@.contains(k),
    {
        let ghost m = self.connections@;
        let mut out: Vec<u64> = Vec::new();
        let keys_iter = self.connections.keys();
        let ghost ks: Seq<&u64> = keys_iter.remaining();
        let ghost mut pos: Seq<int> = Seq::empty();
        for key in it: keys_iter
            invariant
                self.connections@ == m,
                it.seq() == ks,
                ks.unref().to_set() == m.dom(),
                ks.no_duplicates(),
                forall|i: int|
                    0 <= i < out@.len() ==> {
                        &&& m.contains_key(#[trigger] out@[i])
                        &&& timeout_direction(m[out@[i]]@, now, AUTH_TIMEOUT) is Some
                    },
                forall|j: int|
                    0 <= j < it.index() && timeout_direction(m[*ks[j]]@, now, AUTH_TIMEOUT) is Some
                        ==> out@.contains(*#[trigger] ks[j]),
                out@.no_duplicates(),
                pos.len() == out@.len(),
                forall|i: int|
                    0 <= i < out@.len() ==> 0 <= #[trigger] pos[i] < it.index() && *ks[pos[i]]
                        == out@[i],
        {
            let k = *key;
            proof {
                assert(ks.unref()[it.index()] == k);
                assert(ks.unref().to_set().contains(k));
            }
            let c = self.connections.get(&k).unwrap();
            let ghost before = out@;
            if c.check_timeout(now, AUTH_TIMEOUT).is_some() {
                proof {
                    assert forall|i: int| 0 <= i < out@.len() implies out@[i] != k by {
                        let j = pos[i];
                        assert(ks[j] != ks[it.index()]);
                    }
                }
                out.push(k);
                proof {
                    pos = pos.push(it.index());
                    assert(out@[before.len() as int] == k);
                    assert forall|x: u64| before.contains(x) implies out@.contains(x) by {
                        let y = choose|y: int| 0 <= y < before.len() && before[y] == x;
                        assert(out@[y] == x);
                    }
                }
            }
            proof {
                assert forall|j: int|
                    0 <= j < it.index() + 1 && timeout_direction(m[*ks[j]]@, now, AUTH_TIMEOUT)
                        is Some implies out@.contains(*#[trigger] ks[j]) by {
                    if j < it.index() {
                        assert(before.contains(*ks[j]));
                    } else {
                        assert(*ks[j] == k);
                        assert(out@[out@.len() - 1] == k);
                    }
                }
            }
        }
        proof {
            assert forall|k: u64|
                #[trigger] self.conns().contains_key(k) && timeout_direction(
                    self.conns()[k],
                    now,
                    AUTH_TIMEOUT,
                ) is Some implies out@.contains(k) by {
                assert(ks.unref().to_set().contains(k));
                let j = choose|j: int| 0 <= j < ks.unref().len() && ks.unref()[j] == k;
                assert(*ks[j] == k);
            }
        }
        out
    }

    fn expired_verification_ids(&self, now: u64) -> (r: Vec<u64>)
        ensures
            r@.no_duplicates(),
            forall|i: int|
                0 <= i < r@.len() ==> {
                    &&& self.verifs().contains_key(#[trigger] r@[i])
                    &&& expired_at(self.verifs()[r@[i]].received_at, now, VERIFICATION_TIMEOUT)
                },
            forall|k: u64|
                #[trigger] self.verifs().contains_key(k) && expired_at(
                    self.verifs()[k].received_at,
                    now,
                    VERIFICATION_TIMEOUT,
                ) ==> r@.contains(k),
    {
        let ghost m = self.pending_verifications@;
        let mut out: Vec<u64> = Vec::new();
        let keys_iter = self.pending_verifications.keys();
        let ghost ks: Seq<&u64> = keys_iter.remaining();
        let ghost mut pos: Seq<int> = Seq::empty();
        for key in it: keys_iter
            invariant
                self.pending_verifications@ == m,
                it.seq() == ks,
                ks.unref().to_set() == m.dom(),
                ks.no_duplicates(),
                forall|i: int|
                    0 <= i < out@.len() ==> {
                        &&& m.contains_key(#[trigger] out@[i])
                        &&& expired_at(m[out@[i]].received_at, now, VERIFICATION_TIMEOUT)
                    },
                forall|j: int|
                    0 <= j < it.index() && expired_at(m[*ks[j]].received_at, now, VERIFICATION_TIMEOUT)
                        ==> out@.contains(*#[trigger] ks[j]),
                out@.no_duplicates(),
                pos.len() == out@.len(),
                forall|i: int|
                    0 <= i < out@.len() ==> 0 <= #[trigger] pos[i] < it.index() && *ks[pos[i]]
                        == out@[i],
        {
            let k = *key;
            proof {
                assert(ks.unref()[it.index()] == k);
                assert(ks.unref().to_set().contains(k));
            }
            let v = self.pending_verifications.get(&k).unwrap();
            let ghost before = out@;
            if now > v.received_at && now - v.received_at > VERIFICATION_TIMEOUT {
                proof {
                    assert forall|i: int| 0 <= i < out@.len() implies out@[i] != k by {
                        let j = pos[i];
                        assert(ks[j] != ks[it.index()]);
                    }
                }
                out.push(k);
                proof {
                    pos = pos.push(it.index());
                    assert(out@[before.len() as int] == k);
                    assert forall|x: u64| before.contains(x) implies out@.contains(x) by {
                        let y = choose|y: int| 0 <= y < before.len() && before[y] == x;
                        assert(out@[y] == x);
                    }
                }
            }
            proof {
                assert forall|j: int|
                    0 <= j < it.index() + 1 && expired_at(
                        m[*ks[j]].received_at,
                        now,
                        VERIFICATION_TIMEOUT,
                    ) implies out@.contains(*#[trigger] ks[j]) by {
                    if j < it.index() {
                        assert(before.contains(*ks[j]));
                    } else {
                        assert(*ks[j] == k);
                        assert(out@[out@.len() - 1] == k);
                    }
                }
            }
        }
        proof {
            assert forall|k: u64|
                #[trigger] self.verifs().contains_key(k) && expired_at(
                    self.verifs()[k].received_at,
                    now,
                    VERIFICATION_TIMEOUT,
                ) implies out@.contains(k) by {
                assert(ks.unref().to_set().contains(k));
                let j = choose|j: int| 0 <= j < ks.unref().len() && ks.unref()[j] == k;
                assert(*ks[j] == k);
            }
        }
        out
    }

    fn fail_timed_out(&mut self, cid: u64, now: u64)
        requires
            old(self).wf(),
            old(self).conns().contains_key(cid),
            timeout_direction(old(self).conns()[cid], now, AUTH_TIMEOUT) is Some,
        ensures
            final(self).wf(),
            final(self).peer_connections == old(self).peer_connections,
            final(self).pending_verifications == old(self).pending_verifications,
            final(self).por == old(self).por,
            final(self).metadata == old(self).metadata,
            final(self).conns() == old(self).conns().insert(
                cid,
                timed_out_conn(old(self).conns()[cid], now),
            ),
            final(self).events() == old(self).events().push(
                EventView::AuthTimeout(
                    old(self).conns()[cid].peer,
                    cid,
                    old(self).conns()[cid].address,
                    timeout_direction(old(self).conns()[cid], now, AUTH_TIMEOUT)->Some_0,
                ),
            ),
    {
        let mut c = self.take_conn(cid).unwrap();
        let direction = c.check_timeout(now, AUTH_TIMEOUT).unwrap();
        match direction {
            AuthDirection::Outbound => {
                c.set_outbound_auth_failed("Outbound authentication timed out".to_string());
            },
            AuthDirection::Inbound => {
                c.set_inbound_auth_failed("Inbound authentication timed out".to_string());
            },
            AuthDirection::Both => {
                c.set_outbound_auth_failed("Authentication timed out".to_string());
                c.set_inbound_auth_failed("Authentication timed out".to_string());
            },
        }
        let peer = copy_bytes(c.peer_id.as_slice());
        let address = copy_bytes(c.address.as_slice());
        let ghost cv = c@;
        self.put_conn(cid, c);
        self.push_event(
            PorAuthEvent::AuthTimeout { peer_id: peer, connection_id: cid, address, direction },
        );
        assert(self.conns() =~= old(self).conns().insert(cid, cv));
    }

    /// The check made at each poll, at `now`: every connection whose
    /// authentication has been in progress longer than `AUTH_TIMEOUT` in
    /// some direction fails there, and a timeout is announced for each (in no
    /// particular order); every proof that has awaited a verdict longer than
    /// `VERIFICATION_TIMEOUT` is dropped, and the answers "Verification timed
    /// out" to send for them are returned (in no particular order).
    pub fn check_timeouts(&mut self, now: u64) -> (r: Vec<OutgoingResponse>)
        requires
            old(self).wf(),
        ensures
            final(self).wf(),
            final(self).peers() == old(self).peers(),
            final(self).own_por() == old(self).own_por(),
            final(self).own_metadata() == old(self).own_metadata(),
            final(self).conns().dom() == old(self).conns().dom(),
            forall|k: u64| #[trigger]
                old(self).conns().contains_key(k) ==> final(self).conns()[k] == timed_out_conn(
                    old(self).conns()[k],
                    now,
                ),
            final(self).events().len() >= old(self).events().len(),
            final(self).events().take(old(self).events().len() as int) == old(self).events(),
            forall|i: int|
                old(self).events().len() <= i < final(self).events().len() ==> timeout_event_for(
                    #[trigger] final(self).events()[i],
                    old(self).conns(),
                    now,
                ),
            forall|i: int, j: int|
                old(self).events().len() <= i < j < final(self).events().len() ==> timed_out_id(
                    #[trigger] final(self).events()[i],
                ) != timed_out_id(#[trigger] final(self).events()[j]),
            forall|k: u64|
                #[trigger] old(self).conns().contains_key(k) && timeout_direction(
                    old(self).conns()[k],
                    now,
                    AUTH_TIMEOUT,
                ) is Some ==> exists|i: int|
                    old(self).events().len() <= i < final(self).events().len() && timed_out_id(
                        #[trigger] final(self).events()[i],
                    ) == k,
            final(self).verifs() == live_verifs(old(self).verifs(), now),
            forall|i: int|
                0 <= i < r@.len() ==> {
                    &&& old(self).verifs().contains_key(#[trigger] r@[i].connection_id)
                    &&& expired_at(
                        old(self).verifs()[r@[i].connection_id].received_at,
                        now,
                        VERIFICATION_TIMEOUT,
                    )
                    &&& r@[i].response.result@ == ResultView::Error("Verification timed out"@)
                },
            forall|i: int, j: int|
                0 <= i < j < r@.len() ==> #[trigger] r@[i].connection_id != #[trigger] r@[j].connection_id,
            forall|k: u64|
                #[trigger] old(self).verifs().contains_key(k) && expired_at(
                    old(self).verifs()[k].received_at,
                    now,
                    VERIFICATION_TIMEOUT,
                ) ==> exists|i: int| 0 <= i < r@.len() && r@[i].connection_id == k,
    {
        let ids = self.expired_connection_ids(now);
        let ghost old_conns = self.conns();
        let ghost old_events = self.events();
        let ghost n0 = old_events.len();
        let mut i: usize = 0;
        while i < ids.len()
            invariant
                0 <= i <= ids@.len(),
                self.wf(),
                self.peer_connections == old(self).peer_connections,
                self.pending_verifications == old(self).pending_verifications,
                self.por == old(self).por,
                self.metadata == old(self).metadata,
                old_conns == old(self).conns(),
                old_events == old(self).events(),
                n0 == old_events.len(),
                ids@.no_duplicates(),
                forall|x: int|
                    0 <= x < ids@.len() ==> {
                        &&& old_conns.contains_key(#[trigger] ids@[x])
                        &&& timeout_direction(old_conns[ids@[x]], now, AUTH_TIMEOUT) is Some
                    },
                self.conns().dom() == old_conns.dom(),
                forall|k: u64| #[trigger]
                    old_conns.contains_key(k) ==> self.conns()[k] == if ids@.take(
                        i as int,
                    ).contains(k) {
                        timed_out_conn(old_conns[k], now)
                    } else {
                        old_conns[k]
                    },
                self.events().len() == n0 + i,
                self.events().take(n0 as int) == old_events,
                forall|x: int|
                    0 <= x < i ==> #[trigger] self.events()[n0 + x] == EventView::AuthTimeout(
                        old_conns[ids@[x]].peer,
                        ids@[x],
                        old_conns[ids@[x]].address,
                        timeout_direction(old_conns[ids@[x]], now, AUTH_TIMEOUT)->Some_0,
                    ),
            decreases ids@.len() - i,
        {
            let cid = ids[i];
            proof {
                assert(!ids@.take(i as int).contains(cid)) by {
                    if ids@.take(i as int).contains(cid) {
                        let y = choose|y: int| 0 <= y < i && ids@.take(i as int)[y] == cid;
                        assert(ids@[y] == ids@[i as int]);
                    }
                }
                assert(old_conns.contains_key(cid));
                assert(self.conns()[cid] == old_conns[cid]);
            }
            let ghost before = self.events();
            self.fail_timed_out(cid, now);
            proof {
                let t1 = ids@.take(i + 1);
                let t0 = ids@.take(i as int);
                assert forall|x: u64| t1.contains(x) <==> (t0.contains(x) || x == cid) by {
                    if t1.contains(x) {
                        let y = choose|y: int| 0 <= y < t1.len() && t1[y] == x;
                        if y < i {
                            assert(t0[y] == x);
                        }
                    }
                    if t0.contains(x) {
                        let y = choose|y: int| 0 <= y < t0.len() && t0[y] == x;
                        assert(t1[y] == x);
                    }
                    if x == cid {
                        assert(t1[i as int] == x);
                    }
                }
                assert(self.conns().dom() =~= old_conns.dom());
                assert(self.events().take(n0 as int) =~= before.take(n0 as int));
                assert forall|x: int| 0 <= x < i + 1 implies #[trigger] self.events()[n0 + x]
                    == EventView::AuthTimeout(
                    old_conns[ids@[x]].peer,
                    ids@[x],
                    old_conns[ids@[x]].address,
                    timeout_direction(old_conns[ids@[x]], now, AUTH_TIMEOUT)->Some_0,
                ) by {
                    if x < i {
                        assert(self.events()[n0 + x] == before[n0 + x]);
                    }
                }
            }
            i = i + 1;
        }
        proof {
            assert(ids@.take(ids@.len() as int) =~= ids@);
            assert forall|x: int|
                n0 <= x < self.events().len() implies timeout_event_for(
                #[trigger] self.events()[x],
                old_conns,
                now,
            ) by {
                assert(self.events()[n0 + (x - n0)] == self.events()[x]);
            }
            assert forall|x: int, y: int|
                n0 <= x < y < self.events().len() implies timed_out_id(
                #[trigger] self.events()[x],
            ) != timed_out_id(#[trigger] self.events()[y]) by {
                assert(self.events()[n0 + (x - n0)] == self.events()[x]);
                assert(self.events()[n0 + (y - n0)] == self.events()[y]);
                assert(ids@[x - n0] != ids@[y - n0]);
            }
            assert forall|k: u64|
                #[trigger] old_conns.contains_key(k) && timeout_direction(
                    old_conns[k],
                    now,
                    AUTH_TIMEOUT,
                ) is Some implies exists|x: int|
                n0 <= x < self.events().len() && timed_out_id(#[trigger] self.events()[x]) == k by {
                assert(ids@.contains(k));
                let y = choose|y: int| 0 <= y < ids@.len() && ids@[y] == k;
                assert(self.events()[n0 + y] == EventView::AuthTimeout(
                    old_conns[ids@[y]].peer,
                    ids@[y],
                    old_conns[ids@[y]].address,
                    timeout_direction(old_conns[ids@[y]], now, AUTH_TIMEOUT)->Some_0,
                ));
            }
        }
        let expired = self.expired_verification_ids(now);
        let ghost old_verifs = self.verifs();
        let ghost mid_connections = self.connections@;
        let ghost mid_events = self.pending_events@;
        let mut out: Vec<OutgoingResponse> = Vec::new();
        let mut j: usize = 0;
        while j < expired.len()
            invariant
                0 <= j <= expired@.len(),
                self.wf(),
                old_verifs == old(self).verifs(),
                expired@.no_duplicates(),
                forall|x: int|
                    0 <= x < expired@.len() ==> {
                        &&& old_verifs.contains_key(#[trigger] expired@[x])
                        &&& expired_at(old_verifs[expired@[x]].received_at, now, VERIFICATION_TIMEOUT)
                    },
                forall|k: u64|
                    #[trigger] old_verifs.contains_key(k) && expired_at(
                        old_verifs[k].received_at,
                        now,
                        VERIFICATION_TIMEOUT,
                    ) ==> expired@.contains(k),
                self.verifs() == Map::new(
                    |k: u64| old_verifs.contains_key(k) && !expired@.take(j as int).contains(k),
                    |k: u64| old_verifs[k],
                ),
                self.connections@ == mid_connections,
                self.pending_events@ == mid_events,
                self.peer_connections == old(self).peer_connections,
                self.por == old(self).por,
                self.metadata == old(self).metadata,
                out@.len() == j,
                forall|x: int|
                    0 <= x < j ==> #[trigger] out@[x].connection_id == expired@[x]
                        && out@[x].response.result@ == ResultView::Error("Verification timed out"@),
            decreases expired@.len() - j,
        {
            let k = expired[j];
            let ghost before = self.verifs();
            self.pending_verifications.remove(&k);
            out.push(
                OutgoingResponse {
                    connection_id: k,
                    response: PorAuthResponse {
                        result: AuthResult::Error("Verification timed out".to_string()),
                    },
                },
            );
            proof {
                assert(self.verifs() =~= before.remove(k));
                let t1 = expired@.take(j + 1);
                let t0 = expired@.take(j as int);
                assert forall|x: u64| t1.contains(x) <==> (t0.contains(x) || x == k) by {
                    if t1.contains(x) {
                        let y = choose|y: int| 0 <= y < t1.len() && t1[y] == x;
                        if y < j {
                            assert(t0[y] == x);
                        }
                    }
                    if t0.contains(x) {
                        let y = choose|y: int| 0 <= y < t0.len() && t0[y] == x;
                        assert(t1[y] == x);
                    }
                    if x == k {
                        assert(t1[j as int] == x);
                    }
                }
                assert(self.verifs() =~= Map::new(
                    |k: u64| old_verifs.contains_key(k) && !expired@.take(j + 1).contains(k),
                    |k: u64| old_verifs[k],
                ));
            }
            j = j + 1;
        }
        proof {
            assert(expired@.take(expired@.len() as int) =~= expired@);
            assert(self.verifs() =~= live_verifs(old_verifs, now)) by {
                assert forall|k: u64| #[trigger] old_verifs.contains_key(k) implies (
                expired@.contains(k) <==> expired_at(
                    old_verifs[k].received_at,
                    now,
                    VERIFICATION_TIMEOUT,
                )) by {
                    if expired@.contains(k) {
                        let y = choose|y: int| 0 <= y < expired@.len() && expired@[y] == k;
                    }
                }
            }
            assert forall|x: int, y: int|
                0 <= x < y < out@.len() implies #[trigger] out@[x].connection_id
                != #[trigger] out@[y].connection_id by {
                assert(out@[x].connection_id == expired@[x]);
                assert(out@[y].connection_id == expired@[y]);
            }
            assert forall|k: u64|
                #[trigger] old_verifs.contains_key(k) && expired_at(
                    old_verifs[k].received_at,
                    now,
                    VERIFICATION_TIMEOUT,
                ) implies exists|x: int| 0 <= x < out@.len() && out@[x].connection_id == k by {
                let y = choose|y: int| 0 <= y < expired@.len() && expired@[y] == k;
                assert(out@[y].connection_id == expired@[y]);
            }
        }
        out
    }

    /// Handles what the exchange reported at `now` (after the timeout check
    /// of this poll), or, with nothing reported, takes the oldest waiting
    /// event. A handler instruction is passed on; any other report yields
    /// nothing this time.
    pub fn poll(&mut self, exchange: Option<ExchangeEvent>, now: u64) -> (r: PollOutcome)
        requires
            old(self).wf(),
        ensures
            final(self).wf(),
            exchange matches Some(e) ==> {
                &&& final(self).state() == after_exchange(old(self).state(), e@, now)
                &&& (e is HandlerInstruction ==> r is PassOn)
                &&& (!(e is HandlerInstruction) ==> r is Pending)
            },
            exchange is None && old(self).events().len() == 0 ==> {
                &&& r is Pending
                &&& final(self).state() == old(self).state()
            },
            exchange is None && old(self).events().len() > 0 ==> {
                &&& r matches PollOutcome::Event(e) && e@ == old(self).events()[0]
                &&& final(self).state() == (AuthView {
                    events: old(self).events().drop_first(),
                    ..old(self).state()
                })
            },
    {
        match exchange {
            Some(ExchangeEvent::Request { peer_id, connection_id, request }) => {
                self.handle_auth_request(peer_id.as_slice(), connection_id, request, now);
                PollOutcome::Pending
            },
            Some(ExchangeEvent::Response { peer_id, connection_id, response }) => {
                self.handle_auth_response(peer_id.as_slice(), connection_id, response, now);
                PollOutcome::Pending
            },
            Some(ExchangeEvent::OutboundFailure { peer_id, connection_id, error }) => {
                self.on_outbound_failure(peer_id.as_slice(), connection_id, error.as_str());
                PollOutcome::Pending
            },
            Some(ExchangeEvent::InboundFailure { peer_id, connection_id, error }) => {
                self.on_inbound_failure(peer_id.as_slice(), connection_id, error.as_str());
                PollOutcome::Pending
            },
            Some(ExchangeEvent::HandlerInstruction) => PollOutcome::PassOn,
            Some(ExchangeEvent::Other) => PollOutcome::Pending,
            None => {
                if self.pending_events.len() == 0 {
                    return PollOutcome::Pending;
                }
                let e = self.pending_events.remove(0);
                assert(self.events() =~= old(self).events().drop_first());
                PollOutcome::Event(e)
            },
        }
    }

    /// Whether some connection of `peer_id` is authenticated in both
    /// directions.
    pub fn is_peer_authenticated(&self, peer_id: &[u8]) -> (r: bool)
        requires
            self.wf(),
        ensures
            r == peer_authenticated(self.peers(), self.conns(), peer_id@),
    {
        let set = match self.peer_connections.get(peer_id) {
            Some(s) => s,
            None => {
                return false;
            },
        };
        let ghost ids = set@;
        let iter = set.iter();
        let ghost ks: Seq<&u64> = iter.remaining();
        for id in it: iter
            invariant
                set@ == ids,
                ids == self.peers()[peer_id@],
                self.peers().contains_key(peer_id@),
                it.seq() == ks,
                ks.unref().to_set() == ids,
                forall|j: int|
                    0 <= j < it.index() ==> !(self.conns().contains_key(*#[trigger] ks[j])
                        && fully_authenticated(self.conns()[*ks[j]])),
        {
            let c = *id;
            proof {
                assert(ks.unref()[it.index()] == c);
                assert(ks.unref().to_set().contains(c));
            }
            match self.connections.get(&c) {
                Some(conn) => {
                    if conn.is_fully_authenticated() {
                        assert(self.conns().contains_key(c));
                        return true;
                    }
                },
                None => {},
            }
        }
        proof {
            assert forall|c: u64| #[trigger]
                ids.contains(c) implies !(self.conns().contains_key(c) && fully_authenticated(
                self.conns()[c],
            )) by {
                assert(ks.unref().to_set().contains(c));
                let j = choose|j: int| 0 <= j < ks.unref().len() && ks.unref()[j] == c;
                assert(*ks[j] == c);
            }
        }
        false
    }

    /// The metadata of some connection of `peer_id` authenticated in both
    /// directions (which one is not fixed), if any.
    pub fn get_peer_metadata(&self, peer_id: &[u8]) -> (r: Option<Vec<(String, String)>>)
        requires
            self.wf(),
        ensures
            r is Some <==> peer_authenticated(self.peers(), self.conns(), peer_id@),
            r matches Some(v) ==> exists|c: u64|
                #[trigger] self.peers()[peer_id@].contains(c) && self.conns().contains_key(c)
                    && metadata_of(self.conns()[c]) == Some(pairs_view(v@)),
    {
        let set = match self.peer_connections.get(peer_id) {
            Some(s) => s,
            None => {
                return None;
            },
        };
        let ghost ids = set@;
        let iter = set.iter();
        let ghost ks: Seq<&u64> = iter.remaining();
        for id in it: iter
            invariant
                set@ == ids,
                ids == self.peers()[peer_id@],
                self.peers().contains_key(peer_id@),
                it.seq() == ks,
                ks.unref().to_set() == ids,
                forall|j: int|
                    0 <= j < it.index() ==> !(self.conns().contains_key(*#[trigger] ks[j])
                        && fully_authenticated(self.conns()[*ks[j]])),
        {
            let c = *id;
            proof {
                assert(ks.unref()[it.index()] == c);
                assert(ks.unref().to_set().contains(c));
            }
            match self.connections.get(&c) {
                Some(conn) => {
                    match conn.get_metadata() {
                        Some(m) => {
                            assert(self.conns().contains_key(c));
                            assert(self.conns()[c] == conn@);
                            return Some(m);
                        },
                        None => {},
                    }
                },
                None => {},
            }
        }
        proof {
            assert forall|c: u64| #[trigger]
                ids.contains(c) implies !(self.conns().contains_key(c) && fully_authenticated(
                self.conns()[c],
            )) by {
                assert(ks.unref().to_set().contains(c));
                let j = choose|j: int| 0 <= j < ks.unref().len() && ks.unref()[j] == c;
                assert(*ks[j] == c);
            }
        }
        None
    }

    /// A proof from `peer_id` that awaits a verdict, with its connection
    /// (which one, if several, is not fixed); `None` when there is none.
    pub fn get_pending_verification(&self, peer_id: &[u8]) -> (r: Option<(u64, &PendingVerification)>)
        ensures
            r matches Some((c, v)) ==> {
                &&& self.verifs().contains_key(c)
                &&& v@ == self.verifs()[c]
                &&& v@.peer == peer_id@
            },
            r is None ==> forall|c: u64| #[trigger]
                self.verifs().contains_key(c) ==> self.verifs()[c].peer != peer_id@,
    {
        let ghost m = self.pending_verifications@;
        let keys_iter = self.pending_verifications.keys();
        let ghost ks: Seq<&u64> = keys_iter.remaining();
        for key in it: keys_iter
            invariant
                self.pending_verifications@ == m,
                it.seq() == ks,
                ks.unref().to_set() == m.dom(),
                forall|j: int|
                    0 <= j < it.index() ==> #[trigger] m[*ks[j]].peer_id@ != peer_id@,
        {
            let k = *key;
            proof {
                assert(ks.unref()[it.index()] == k);
                assert(ks.unref().to_set().contains(k));
            }
            let v = self.pending_verifications.get(&k).unwrap();
            if crate::routes::bytes_equal(v.peer_id.as_slice(), peer_id) {
                return Some((k, v));
            }
        }
        proof {
            assert forall|c: u64| #[trigger]
                self.verifs().contains_key(c) implies self.verifs()[c].peer != peer_id@ by {
                assert(ks.unref().to_set().contains(c));
                let j = choose|j: int| 0 <= j < ks.unref().len() && ks.unref()[j] == c;
                assert(*ks[j] == c);
            }
        }
        None
    }

}

/// Closing a connection undoes establishing it: for an identifier not in use,
/// tracking a connection and then forgetting it leaves the connections and
/// each peer's connections as they were.
pub proof fn law_close_undoes_establish(
    s: AuthView,
    peer: Seq<u8>,
    cid: u64,
    address: Seq<u8>,
    now: u64,
)
    requires
        forall|p: Seq<u8>| #[trigger] s.peers.contains_key(p) ==> !s.peers[p].is_empty(),
        !s.conns.contains_key(cid),
        forall|p: Seq<u8>| #[trigger] s.peers.contains_key(p) ==> !s.peers[p].contains(cid),
    ensures
        ({
            let conns = s.conns.insert(cid, fresh_conn(peer, cid, address, now));
            let peers = with_connection(s.peers, peer, cid);
            &&& conns.remove(cid) == s.conns
            &&& without_connection(peers, conns[cid].peer, cid) == s.peers
        }),
{
    let conns = s.conns.insert(cid, fresh_conn(peer, cid, address, now));
    assert(conns.remove(cid) =~= s.conns);
    let peers = with_connection(s.peers, peer, cid);
    if s.peers.contains_key(peer) {
        assert(peers[peer].remove(cid) =~= s.peers[peer]);
        assert(without_connection(peers, peer, cid) =~= s.peers);
    } else {
        assert(peers[peer].remove(cid) =~= Set::<u64>::empty());
        assert(without_connection(peers, peer, cid) =~= s.peers);
    }
}

/// The timeout check settles what it touches: checking again at the same
/// time changes nothing more.
pub proof fn law_timeout_check_idempotent(c: ConnView, now: u64)
    ensures
        timed_out_conn(timed_out_conn(c, now), now) == timed_out_conn(c, now),
{
}

/// Mutual authentication completes in either order: with this node already
/// accepted by the peer, accepting the peer announces mutual success with the
/// peer's metadata; with the peer already accepted, the peer's acceptance of
/// this node does the same.
pub proof fn law_mutual_success_either_order(
    c: ConnView,
    cid: u64,
    peer_meta: MetaView,
    own_meta: MetaView,
    now: u64,
)
    ensures
        c.outbound == DirView::Successful(peer_meta) ==> verdict_events(
            cid,
            c,
            ResultView::Granted(own_meta),
            now,
        ) == seq![
            EventView::InboundAuthSuccess(c.peer, cid, c.address),
            EventView::MutualAuthSuccess(c.peer, cid, c.address, peer_meta),
        ],
        c.inbound is Successful ==> response_events(cid, c, ResultView::Granted(peer_meta), now)
            == seq![
            EventView::OutboundAuthSuccess(c.peer, cid, c.address, peer_meta),
            EventView::MutualAuthSuccess(c.peer, cid, c.address, peer_meta),
        ],
{
}

/// A failed side blocks mutual success: while one direction has failed, no
/// outcome of the other direction makes the connection fully authenticated.
pub proof fn law_failed_side_blocks_mutual(c: ConnView, result: ResultView, now: u64)
    ensures
        c.inbound is Failed ==> !fully_authenticated(after_response(c, result, now)),
        c.outbound is Failed ==> metadata_of(after_verdict(c, result, now)) is None,
{
}

/// The peer's answer to this node's proof decides the outbound direction: a
/// refusal fails it with the peer's reason, so the connection's combined state
/// is that failure and it is not fully authenticated; an acceptance makes it
/// successful with the peer's metadata. The inbound direction, the peer and
/// the address are untouched either way.
pub proof fn law_answer_decides_outbound(c: ConnView, result: ResultView, now: u64)
    ensures
        after_response(c, result, now).inbound == c.inbound,
        after_response(c, result, now).peer == c.peer,
        after_response(c, result, now).address == c.address,
        result matches ResultView::Error(reason) ==> {
            &&& after_response(c, result, now).outbound == DirView::Failed(reason)
            &&& combined(
                after_response(c, result, now).outbound,
                after_response(c, result, now).inbound,
            ) == CombinedView::Failed(reason)
            &&& !fully_authenticated(after_response(c, result, now))
            &&& metadata_of(after_response(c, result, now)) is None
        },
        result matches ResultView::Granted(m) ==> after_response(c, result, now).outbound
            == DirView::Successful(m),
{
}

/// A connection whose peer refused this node's proof no longer counts for the
/// peer: after the refusal on connection `cid`, the peer is authenticated only
/// if another of its connections is fully authenticated.
pub proof fn law_refused_connection_does_not_authenticate_peer(
    peers: Map<Seq<u8>, Set<u64>>,
    conns: Map<u64, ConnView>,
    cid: u64,
    reason: Seq<char>,
    now: u64,
    peer: Seq<u8>,
)
    requires
        conns.contains_key(cid),
    ensures
        peer_authenticated(
            peers,
            conns.insert(cid, after_response(conns[cid], ResultView::Error(reason), now)),
            peer,
        ) ==> exists|c: u64|
            c != cid && #[trigger] peers[peer].contains(c) && conns.contains_key(c)
                && fully_authenticated(conns[c]),
{
    let after = conns.insert(cid, after_response(conns[cid], ResultView::Error(reason), now));
    if peer_authenticated(peers, after, peer) {
        let c = choose|c: u64|
            #[trigger] peers[peer].contains(c) && after.contains_key(c) && fully_authenticated(
                after[c],
            );
        assert(c != cid);
        assert(after[c] == conns[c]);
    }
}

} // verus!
