//! The per-connection handler of paired streams: it numbers the streams
//! negotiated on its connection, keeps them while the connection lives, queues
//! what it reports to the behaviour, and queues the behaviour's requests to
//! open streams. The stream type is left to the caller.
use vstd::prelude::*;

use crate::routes::copy_bytes;
use crate::types::IdIterator;

verus! {

broadcast use vstd::string::group_string_axioms;

/// The protocol name of paired streams negotiated by connection handlers.
pub const XSTREAM_PROTOCOL: &'static str = "/xstream/";

/// The protocol name of paired streams.
pub fn xstream_protocol() -> (r: &'static str)
    ensures
        r@ == XSTREAM_PROTOCOL@,
{
    XSTREAM_PROTOCOL
}

/// Whether `protocol` names paired streams.
pub fn is_xstream_protocol(protocol: &str) -> (r: bool)
    ensures
        r == (protocol@ == XSTREAM_PROTOCOL@),
{
    protocol.to_string() == XSTREAM_PROTOCOL.to_string()
}

/// A request from the behaviour to the handler.
#[derive(Debug, Clone, Copy, PartialEq, Eq, Structural)]
pub enum XStreamHandlerIn {
    /// Open a new outbound stream.
    OpenStream,
}

/// What the handler reports to the behaviour.
#[derive(Debug)]
pub enum XStreamHandlerEvent<S> {
    /// A stream opened by the peer was negotiated.
    IncomingStreamEstablished { stream_id: u128, stream: S },
    /// A stream this node asked for was negotiated.
    OutboundStreamEstablished { stream_id: u128, stream: S },
    /// A stream failed, or negotiation did.
    StreamError { stream_id: Option<u128>, error: String },
    /// A stream was closed.
    StreamClosed { stream_id: u128 },
}

/// Abstract report: streams as they are, texts as character sequences.
pub enum HandlerEventView<S> {
    Incoming(u128, S),
    Outbound(u128, S),
    Error(Option<u128>, Seq<char>),
    Closed(u128),
}

impl<S> View for XStreamHandlerEvent<S> {
    type V = HandlerEventView<S>;

    open spec fn view(&self) -> HandlerEventView<S> {
        match self {
            XStreamHandlerEvent::IncomingStreamEstablished { stream_id, stream } =>
                HandlerEventView::Incoming(*stream_id, *stream),
            XStreamHandlerEvent::OutboundStreamEstablished { stream_id, stream } =>
                HandlerEventView::Outbound(*stream_id, *stream),
            XStreamHandlerEvent::StreamError { stream_id, error } => HandlerEventView::Error(
                *stream_id,
                error@,
            ),
            XStreamHandlerEvent::StreamClosed { stream_id } => HandlerEventView::Closed(*stream_id),
        }
    }
}

/// What happened on the connection. A negotiated stream comes with the
/// function that builds the handler's stream from the identifier allocated
/// to it and the peer's identity; an upgrade error comes with its
/// description.
pub enum ConnectionReport<F> {
    FullyNegotiatedInbound(F),
    FullyNegotiatedOutbound(F),
    ListenUpgradeError(String),
    DialUpgradeError(String),
    Other,
}

/// What one poll of the handler yields.
pub enum HandlerPoll<S> {
    /// The oldest queued report.
    Notify(XStreamHandlerEvent<S>),
    /// An outbound stream is to be requested.
    OpenOutbound,
    /// Nothing to do.
    Pending,
}

/// `PeerId::random` then `PeerId::to_bytes` (libp2p): a fresh random peer
/// identity in its binary encoding. Being random, its bytes are left
/// unstated.
#[verifier::external_body]
fn random_peer_id() -> (r: Vec<u8>) {
    libp2p::PeerId::random().to_bytes()
}

/// The index of the first kept stream with identifier `id`.
pub open spec fn first_kept<S>(kept: Seq<(u128, S)>, id: u128) -> int
    decreases kept.len(),
{
    if kept.len() == 0 {
        0
    } else if kept.last().0 == id && (forall|j: int| 0 <= j < kept.len() - 1 ==> kept[j].0 != id) {
        kept.len() - 1
    } else {
        first_kept(kept.drop_last(), id)
    }
}

proof fn lemma_first_kept<S>(kept: Seq<(u128, S)>, id: u128, i: int)
    requires
        0 <= i < kept.len(),
        kept[i].0 == id,
        forall|j: int| 0 <= j < i ==> kept[j].0 != id,
    ensures
        first_kept(kept, id) == i,
    decreases kept.len(),
{
    if i < kept.len() - 1 {
        lemma_first_kept(kept.drop_last(), id, i);
    }
}

/// A report as the behaviour sees it, if there is one.
pub open spec fn report_view<S>(r: Option<XStreamHandlerEvent<S>>) -> Option<HandlerEventView<S>> {
    match r {
        Some(e) => Some(e@),
        None => None,
    }
}

/// One call of closing with no report queued, on the kept streams `kept`:
/// the oldest kept stream is reported closed and dropped; with none kept,
/// nothing is reported and nothing changes.
pub open spec fn closing_step<S>(kept: Seq<(u128, S)>) -> (Option<HandlerEventView<S>>, Seq<(u128, S)>) {
    if kept.len() == 0 {
        (None, kept)
    } else {
        (Some(HandlerEventView::Closed(kept[0].0)), kept.drop_first())
    }
}

/// The reports of `n` successive calls of closing, starting from the kept
/// streams `kept` with no report queued.
pub open spec fn closing_reports<S>(kept: Seq<(u128, S)>, n: nat) -> Seq<Option<HandlerEventView<S>>>
    decreases n,
{
    if n == 0 {
        Seq::empty()
    } else {
        seq![closing_step(kept).0] + closing_reports(closing_step(kept).1, (n - 1) as nat)
    }
}

/// Closing a connection reports every kept stream closed exactly once, oldest
/// first, one per call, and then nothing on every further call: the `i`-th of
/// `n` successive calls reports the `i`-th kept stream while there is one, and
/// `None` after.
pub proof fn law_close_reports_each_stream_once<S>(kept: Seq<(u128, S)>, n: nat)
    ensures
        closing_reports(kept, n).len() == n,
        forall|i: int|
            0 <= i < n ==> #[trigger] closing_reports(kept, n)[i] == (if i < kept.len() {
                Some(HandlerEventView::<S>::Closed(kept[i].0))
            } else {
                None
            }),
    decreases n,
{
    if n > 0 {
        let rest = closing_step(kept).1;
        law_close_reports_each_stream_once(rest, (n - 1) as nat);
        let head = seq![closing_step(kept).0];
        assert forall|i: int| 0 <= i < n implies #[trigger] closing_reports(kept, n)[i] == (if i
            < kept.len() {
            Some(HandlerEventView::<S>::Closed(kept[i].0))
        } else {
            None
        }) by {
            if i > 0 {
                assert(closing_reports(kept, n)[i] == closing_reports(rest, (n - 1) as nat)[i - 1]);
                if 0 < i < kept.len() {
                    assert(rest[i - 1] == kept[i]);
                }
            }
        }
    }
}

/// The handler of one connection.
pub struct XStreamHandler<S> {
    id_iter: IdIterator,
    streams: Vec<(u128, S)>,
    outgoing_events: Vec<XStreamHandlerEvent<S>>,
    pending_commands: Vec<XStreamHandlerIn>,
    peer_id: Vec<u8>,
}

/// The identifier that follows `id`, wrapping after `u128::MAX`.
pub open spec fn next_after(id: u128) -> u128 {
    if id < u128::MAX {
        (id + 1) as u128
    } else {
        0
    }
}

impl<S: Clone> XStreamHandler<S> {
    /// The identifier the next negotiated stream receives.
    pub closed spec fn next_id(&self) -> u128 {
        self.id_iter.current()
    }

    /// The kept streams with their identifiers, oldest first.
    pub closed spec fn kept(&self) -> Seq<(u128, S)> {
        self.streams@
    }

    /// The queued reports, oldest first.
    pub closed spec fn events(&self) -> Seq<HandlerEventView<S>> {
        self.outgoing_events@.map_values(|e: XStreamHandlerEvent<S>| e@)
    }

    /// How many stream openings the behaviour has requested and the handler
    /// has not yet started.
    pub closed spec fn open_requests(&self) -> nat {
        self.pending_commands@.len()
    }

    /// The peer the streams are with.
    pub closed spec fn peer(&self) -> Seq<u8> {
        self.peer_id@
    }

    /// A handler with no stream, nothing queued, numbering from zero, for a
    /// random peer identity until `set_peer_id` names the real one.
    pub fn new() -> (r: Self)
        ensures
            r.next_id() == 0,
            r.kept().len() == 0,
            r.events().len() == 0,
            r.open_requests() == 0,
    {
        XStreamHandler {
            id_iter: IdIterator::new(),
            streams: Vec::new(),
            outgoing_events: Vec::new(),
            pending_commands: Vec::new(),
            peer_id: random_peer_id(),
        }
    }

    /// Names the peer of the connection.
    pub fn set_peer_id(&mut self, peer_id: &[u8])
        ensures
            final(self).peer() == peer_id@,
            final(self).next_id() == old(self).next_id(),
            final(self).kept() == old(self).kept(),
            final(self).events() == old(self).events(),
            final(self).open_requests() == old(self).open_requests(),
    {
        self.peer_id = copy_bytes(peer_id);
    }

    fn push_event(&mut self, e: XStreamHandlerEvent<S>)
        ensures
            final(self).events() == old(self).events().push(e@),
            final(self).id_iter == old(self).id_iter,
            final(self).streams == old(self).streams,
            final(self).pending_commands == old(self).pending_commands,
            final(self).peer_id == old(self).peer_id,
    {
        let ghost before = self.events();
        self.outgoing_events.push(e);
        assert(self.events() =~= before.push(e@));
    }

    /// Allocates the next identifier, builds the stream for it with `make`
    /// and keeps a clone of it; returns the identifier and the stream.
    fn register<F: FnOnce(u128, Vec<u8>) -> S>(&mut self, make: F) -> (r: (u128, S))
        requires
            forall|id: u128, p: Vec<u8>| #[trigger] make.requires((id, p)),
        ensures
            r.0 == old(self).next_id(),
            exists|p: Vec<u8>| p@ == old(self).peer() && make.ensures((r.0, p), r.1),
            final(self).next_id() == next_after(old(self).next_id()),
            final(self).kept().len() == old(self).kept().len() + 1,
            final(self).kept().drop_last() == old(self).kept(),
            final(self).kept().last().0 == r.0,
            cloned(r.1, final(self).kept().last().1),
            final(self).events() == old(self).events(),
            final(self).open_requests() == old(self).open_requests(),
            final(self).peer() == old(self).peer(),
    {
        let stream_id = self.id_iter.next().unwrap();
        let peer = copy_bytes(self.peer_id.as_slice());
        let ghost p = peer;
        let stream = make(stream_id, peer);
        let kept = stream.clone();
        self.streams.push((stream_id, kept));
        assert(self.kept().drop_last() =~= old(self).kept());
        (stream_id, stream)
    }

    /// A stream opened by the peer was negotiated: it is numbered, built
    /// with `make`, kept, and reported as incoming.
    pub fn handle_inbound_stream<F: FnOnce(u128, Vec<u8>) -> S>(&mut self, make: F)
        requires
            forall|id: u128, p: Vec<u8>| #[trigger] make.requires((id, p)),
        ensures
            final(self).next_id() == next_after(old(self).next_id()),
            final(self).kept().drop_last() == old(self).kept(),
            final(self).kept().len() == old(self).kept().len() + 1,
            final(self).kept().last().0 == old(self).next_id(),
            final(self).events().drop_last() == old(self).events(),
            final(self).events().len() == old(self).events().len() + 1,
            final(self).events().last() matches HandlerEventView::Incoming(id, s) && id == old(
                self,
            ).next_id() && cloned(s, final(self).kept().last().1) && exists|p: Vec<u8>|
                p@ == old(self).peer() && make.ensures((id, p), s),
            final(self).open_requests() == old(self).open_requests(),
            final(self).peer() == old(self).peer(),
    {
        let (stream_id, stream) = self.register(make);
        let ghost before = self.events();
        self.push_event(XStreamHandlerEvent::IncomingStreamEstablished { stream_id, stream });
        assert(self.events().drop_last() =~= before);
    }

    /// A stream this node asked for was negotiated: it is numbered, built
    /// with `make`, kept, and reported as outbound.
    pub fn handle_outbound_stream<F: FnOnce(u128, Vec<u8>) -> S>(&mut self, make: F)
        requires
            forall|id: u128, p: Vec<u8>| #[trigger] make.requires((id, p)),
        ensures
            final(self).next_id() == next_after(old(self).next_id()),
            final(self).kept().drop_last() == old(self).kept(),
            final(self).kept().len() == old(self).kept().len() + 1,
            final(self).kept().last().0 == old(self).next_id(),
            final(self).events().drop_last() == old(self).events(),
            final(self).events().len() == old(self).events().len() + 1,
            final(self).events().last() matches HandlerEventView::Outbound(id, s) && id == old(
                self,
            ).next_id() && cloned(s, final(self).kept().last().1) && exists|p: Vec<u8>|
                p@ == old(self).peer() && make.ensures((id, p), s),
            final(self).open_requests() == old(self).open_requests(),
            final(self).peer() == old(self).peer(),
    {
        let (stream_id, stream) = self.register(make);
        let ghost before = self.events();
        self.push_event(XStreamHandlerEvent::OutboundStreamEstablished { stream_id, stream });
        assert(self.events().drop_last() =~= before);
    }

    /// The kept stream with identifier `stream_id`, if any (the oldest, were
    /// there several).
    pub fn get_stream(&self, stream_id: u128) -> (r: Option<&S>)
        ensures
            r is None <==> forall|i: int| 0 <= i < self.kept().len() ==> self.kept()[i].0 != stream_id,
            r matches Some(s) ==> exists|i: int|
                0 <= i < self.kept().len() && self.kept()[i].0 == stream_id && self.kept()[i].1 == *s,
    {
        let mut i: usize = 0;
        while i < self.streams.len()
            invariant
                0 <= i <= self.streams@.len(),
                forall|j: int| 0 <= j < i ==> self.streams@[j].0 != stream_id,
            decreases self.streams@.len() - i,
        {
            if self.streams[i].0 == stream_id {
                assert(self.kept()[i as int].0 == stream_id);
                return Some(&self.streams[i].1);
            }
            i = i + 1;
        }
        None
    }

    /// The kept stream with identifier `stream_id`, to be changed in place, if
    /// any (the oldest, were there several).
    pub fn get_stream_mut(&mut self, stream_id: u128) -> (r: Option<&mut S>)
        ensures
            r is None <==> forall|i: int|
                0 <= i < old(self).kept().len() ==> old(self).kept()[i].0 != stream_id,
            r is None ==> final(self).kept() == old(self).kept(),
            r matches Some(s) ==> {
                let i = first_kept(old(self).kept(), stream_id);
                &&& 0 <= i < old(self).kept().len()
                &&& old(self).kept()[i].0 == stream_id
                &&& *s == old(self).kept()[i].1
                &&& final(self).kept() == old(self).kept().update(i, (stream_id, *final(s)))
            },
            final(self).next_id() == old(self).next_id(),
            final(self).events() == old(self).events(),
            final(self).open_requests() == old(self).open_requests(),
            final(self).peer() == old(self).peer(),
    {
        let mut i: usize = 0;
        while i < self.streams.len()
            invariant
                0 <= i <= self.streams@.len(),
                *self == *old(self),
                forall|j: int| 0 <= j < i ==> self.streams@[j].0 != stream_id,
            decreases self.streams@.len() - i,
        {
            if self.streams[i].0 == stream_id {
                proof {
                    lemma_first_kept(self.streams@, stream_id, i as int);
                    assert(old(self).kept()[i as int].0 == stream_id);
                }
                return Some(&mut self.streams[i].1);
            }
            i = i + 1;
        }
        None
    }

    /// The behaviour asked for a new outbound stream: the request is queued.
    pub fn on_behaviour_event(&mut self, event: XStreamHandlerIn)
        ensures
            final(self).open_requests() == old(self).open_requests() + 1,
            final(self).next_id() == old(self).next_id(),
            final(self).kept() == old(self).kept(),
            final(self).events() == old(self).events(),
            final(self).peer() == old(self).peer(),
    {
        match event {
            XStreamHandlerIn::OpenStream => {
                self.pending_commands.push(XStreamHandlerIn::OpenStream);
            },
        }
    }

    /// The connection is kept alive while it has streams.
    pub fn connection_keep_alive(&self) -> (r: bool)
        ensures
            r == (self.kept().len() > 0),
    {
        self.streams.len() != 0
    }

    /// The oldest queued report first; otherwise the oldest queued request to
    /// open a stream; otherwise nothing.
    pub fn poll(&mut self) -> (r: HandlerPoll<S>)
        ensures
            final(self).next_id() == old(self).next_id(),
            final(self).kept() == old(self).kept(),
            final(self).peer() == old(self).peer(),
            old(self).events().len() > 0 ==> {
                &&& r matches HandlerPoll::Notify(e) && e@ == old(self).events()[0]
                &&& final(self).events() == old(self).events().drop_first()
                &&& final(self).open_requests() == old(self).open_requests()
            },
            old(self).events().len() == 0 && old(self).open_requests() > 0 ==> {
                &&& r is OpenOutbound
                &&& final(self).events() == old(self).events()
                &&& final(self).open_requests() == old(self).open_requests() - 1
            },
            old(self).events().len() == 0 && old(self).open_requests() == 0 ==> {
                &&& r is Pending
                &&& final(self).events() == old(self).events()
                &&& final(self).open_requests() == 0
            },
    {
        if self.outgoing_events.len() != 0 {
            let e = self.outgoing_events.remove(0);
            assert(self.events() =~= old(self).events().drop_first());
            return HandlerPoll::Notify(e);
        }
        if self.pending_commands.len() != 0 {
            match self.pending_commands.remove(0) {
                XStreamHandlerIn::OpenStream => {
                    return HandlerPoll::OpenOutbound;
                },
            }
        }
        HandlerPoll::Pending
    }

    /// Handles what happened on the connection: a negotiated stream is
    /// registered as `handle_inbound_stream` or `handle_outbound_stream` does;
    /// an upgrade error is reported as a stream error without identifier,
    /// "Listen upgrade error: <description>" or "Dial upgrade error:
    /// <description>"; anything else is ignored.
    pub fn on_connection_event<F: FnOnce(u128, Vec<u8>) -> S>(&mut self, event: ConnectionReport<F>)
        requires
            event matches ConnectionReport::FullyNegotiatedInbound(make) ==> forall|
                id: u128,
                p: Vec<u8>,
            | #[trigger] make.requires((id, p)),
            event matches ConnectionReport::FullyNegotiatedOutbound(make) ==> forall|
                id: u128,
                p: Vec<u8>,
            | #[trigger] make.requires((id, p)),
        ensures
            final(self).open_requests() == old(self).open_requests(),
            final(self).peer() == old(self).peer(),
            event matches ConnectionReport::FullyNegotiatedInbound(make) ==> {
                &&& final(self).next_id() == next_after(old(self).next_id())
                &&& final(self).kept().drop_last() == old(self).kept()
                &&& final(self).kept().len() == old(self).kept().len() + 1
                &&& final(self).events().drop_last() == old(self).events()
                &&& final(self).events().len() == old(self).events().len() + 1
                &&& final(self).events().last() matches HandlerEventView::Incoming(id, s) && id
                    == old(self).next_id() && final(self).kept().last().0 == id && cloned(
                    s,
                    final(self).kept().last().1,
                ) && exists|p: Vec<u8>| p@ == old(self).peer() && make.ensures((id, p), s)
            },
            event matches ConnectionReport::FullyNegotiatedOutbound(make) ==> {
                &&& final(self).next_id() == next_after(old(self).next_id())
                &&& final(self).kept().drop_last() == old(self).kept()
                &&& final(self).kept().len() == old(self).kept().len() + 1
                &&& final(self).events().drop_last() == old(self).events()
                &&& final(self).events().len() == old(self).events().len() + 1
                &&& final(self).events().last() matches HandlerEventView::Outbound(id, s) && id
                    == old(self).next_id() && final(self).kept().last().0 == id && cloned(
                    s,
                    final(self).kept().last().1,
                ) && exists|p: Vec<u8>| p@ == old(self).peer() && make.ensures((id, p), s)
            },
            event matches ConnectionReport::ListenUpgradeError(d) ==> {
                &&& final(self).next_id() == old(self).next_id()
                &&& final(self).kept() == old(self).kept()
                &&& final(self).events() == old(self).events().push(
                    HandlerEventView::Error(None, "Listen upgrade error: "@ + d@),
                )
            },
            event matches ConnectionReport::DialUpgradeError(d) ==> {
                &&& final(self).next_id() == old(self).next_id()
                &&& final(self).kept() == old(self).kept()
                &&& final(self).events() == old(self).events().push(
                    HandlerEventView::Error(None, "Dial upgrade error: "@ + d@),
                )
            },
            event is Other ==> {
                &&& final(self).next_id() == old(self).next_id()
                &&& final(self).kept() == old(self).kept()
                &&& final(self).events() == old(self).events()
            },
    {
        match event {
            ConnectionReport::FullyNegotiatedInbound(make) => {
                self.handle_inbound_stream(make);
            },
            ConnectionReport::FullyNegotiatedOutbound(make) => {
                self.handle_outbound_stream(make);
            },
            ConnectionReport::ListenUpgradeError(d) => {
                let mut error = "Listen upgrade error: ".to_string();
                error.append(d.as_str());
                self.push_event(XStreamHandlerEvent::StreamError { stream_id: None, error });
            },
            ConnectionReport::DialUpgradeError(d) => {
                let mut error = "Dial upgrade error: ".to_string();
                error.append(d.as_str());
                self.push_event(XStreamHandlerEvent::StreamError { stream_id: None, error });
            },
            ConnectionReport::Other => {},
        }
    }

    /// While the connection closes: the oldest queued report first;
    /// otherwise the oldest kept stream is dropped and its closing reported,
    /// one stream per call, so that every kept stream is reported closed;
    /// otherwise `None`, closing is done.
    pub fn poll_close(&mut self) -> (r: Option<XStreamHandlerEvent<S>>)
        ensures
            final(self).next_id() == old(self).next_id(),
            final(self).open_requests() == old(self).open_requests(),
            final(self).peer() == old(self).peer(),
            old(self).events().len() > 0 ==> {
                &&& r matches Some(e) && e@ == old(self).events()[0]
                &&& final(self).events() == old(self).events().drop_first()
                &&& final(self).kept() == old(self).kept()
            },
            old(self).events().len() == 0 ==> {
                &&& report_view(r) == closing_step(old(self).kept()).0
                &&& final(self).events() == old(self).events()
                &&& final(self).kept() == closing_step(old(self).kept()).1
            },
    {
        if self.outgoing_events.len() != 0 {
            let e = self.outgoing_events.remove(0);
            assert(self.events() =~= old(self).events().drop_first());
            return Some(e);
        }
        if self.streams.len() != 0 {
            let (first, _stream) = self.streams.remove(0);
            assert(self.kept() =~= old(self).kept().drop_first());
            return Some(XStreamHandlerEvent::StreamClosed { stream_id: first });
        }
        None
    }
}

} // verus!
