//! The network-wide side of paired streams: every established stream by peer
//! and identifier, the events to announce, and the callers waiting for a
//! stream they asked a peer for. The stream type and the waiting callers'
//! reply handles are left to the caller.
use vstd::prelude::*;

use crate::peer_map::{
    keyed_map, lemma_keyed_at, lemma_keyed_push, lemma_keyed_remove, lemma_keyed_update, holds_key,
    unique_keys, PeerMap,
};
use crate::routes::{bytes_equal, copy_bytes};
use crate::types::XStreamID;
use crate::xstream_handler::{HandlerEventView, XStreamHandler, XStreamHandlerEvent};

verus! {

/// Streams keyed by peer and stream identifier, each key at most once.
pub struct StreamTable<S> {
    entries: Vec<((Vec<u8>, u128), S)>,
}

/// The abstract entries of a stream table.
pub open spec fn table_view<S>(s: Seq<((Vec<u8>, u128), S)>) -> Seq<((Seq<u8>, u128), S)> {
    s.map_values(|e: ((Vec<u8>, u128), S)| ((e.0.0@, e.0.1), e.1))
}

proof fn lemma_table_view_update<S>(s: Seq<((Vec<u8>, u128), S)>, i: int, v: S)
    requires
        0 <= i < s.len(),
    ensures
        table_view(s.update(i, (s[i].0, v))) =~= table_view(s).update(i, (table_view(s)[i].0, v)),
{
}

impl<S> StreamTable<S> {
    /// The streams by peer and identifier.
    pub closed spec fn view(&self) -> Map<(Seq<u8>, u128), S> {
        keyed_map(table_view(self.entries@))
    }

    /// No key is stored twice.
    pub closed spec fn wf(&self) -> bool {
        unique_keys(table_view(self.entries@))
    }

    /// An empty table.
    pub fn new() -> (r: Self)
        ensures
            r.wf(),
            r.view() == Map::<(Seq<u8>, u128), S>::empty(),
    {
        let r = StreamTable { entries: Vec::new() };
        assert(r.view() =~= Map::<(Seq<u8>, u128), S>::empty());
        r
    }

    fn find(&self, peer: &[u8], id: u128) -> (r: Option<usize>)
        ensures
            r matches Some(i) ==> i < self.entries@.len() && table_view(self.entries@)[i as int].0
                == (peer@, id),
            r is None ==> !holds_key(table_view(self.entries@), (peer@, id)),
    {
        let mut i: usize = 0;
        while i < self.entries.len()
            invariant
                0 <= i <= self.entries@.len(),
                forall|j: int| 0 <= j < i ==> table_view(self.entries@)[j].0 != (peer@, id),
            decreases self.entries@.len() - i,
        {
            if self.entries[i].0.1 == id && bytes_equal(self.entries[i].0.0.as_slice(), peer) {
                return Some(i);
            }
            i = i + 1;
        }
        proof {
            if holds_key(table_view(self.entries@), (peer@, id)) {
                let j = choose|j: int|
                    0 <= j < table_view(self.entries@).len() && #[trigger] table_view(
                        self.entries@,
                    )[j].0 == (peer@, id);
            }
        }
        None
    }

    /// The stream of `peer` with identifier `id`, if any.
    pub fn get(&self, peer: &[u8], id: u128) -> (r: Option<&S>)
        requires
            self.wf(),
        ensures
            self.view().contains_key((peer@, id)) ==> r == Some(&self.view()[(peer@, id)]),
            !self.view().contains_key((peer@, id)) ==> r is None,
    {
        match self.find(peer, id) {
            Some(i) => {
                proof {
                    lemma_keyed_at(table_view(self.entries@), i as int);
                }
                Some(&self.entries[i].1)
            },
            None => None,
        }
    }

    /// The stream of `peer` with identifier `id`, to be changed in place, if
    /// any.
    pub fn get_mut(&mut self, peer: &[u8], id: u128) -> (r: Option<&mut S>)
        requires
            old(self).wf(),
        ensures
            final(self).wf(),
            !old(self).view().contains_key((peer@, id)) ==> r is None
                && final(self).view() == old(self).view(),
            old(self).view().contains_key((peer@, id)) ==> (r matches Some(s)
                && *s == old(self).view()[(peer@, id)]
                && final(self).view() == old(self).view().insert((peer@, id), *final(s))),
    {
        let ghost t = table_view(self.entries@);
        match self.find(peer, id) {
            Some(i) => {
                proof {
                    lemma_keyed_at(t, i as int);
                }
                let ghost e = self.entries@;
                let r = &mut self.entries[i].1;
                proof {
                    lemma_keyed_update(t, i as int, *final(r));
                    lemma_table_view_update(e, i as int, *final(r));
                }
                Some(r)
            },
            None => None,
        }
    }

    /// Sets the stream of `peer` with identifier `id`.
    pub fn insert(&mut self, peer: &[u8], id: u128, stream: S)
        requires
            old(self).wf(),
        ensures
            final(self).wf(),
            final(self).view() == old(self).view().insert((peer@, id), stream),
    {
        let ghost s = table_view(self.entries@);
        match self.find(peer, id) {
            Some(i) => {
                proof {
                    lemma_keyed_update(s, i as int, stream);
                }
                self.entries.set(i, ((copy_bytes(peer), id), stream));
                proof {
                    assert(table_view(self.entries@) =~= s.update(i as int, (s[i as int].0, stream)));
                }
            },
            None => {
                proof {
                    lemma_keyed_push(s, (peer@, id), stream);
                }
                self.entries.push(((copy_bytes(peer), id), stream));
                proof {
                    assert(table_view(self.entries@) =~= s.push(((peer@, id), stream)));
                }
            },
        }
    }

    /// Removes the stream of `peer` with identifier `id`, returning it.
    pub fn remove(&mut self, peer: &[u8], id: u128) -> (r: Option<S>)
        requires
            old(self).wf(),
        ensures
            final(self).wf(),
            final(self).view() == old(self).view().remove((peer@, id)),
            old(self).view().contains_key((peer@, id)) ==> r == Some(old(self).view()[(peer@, id)]),
            !old(self).view().contains_key((peer@, id)) ==> r is None,
    {
        let ghost s = table_view(self.entries@);
        match self.find(peer, id) {
            Some(i) => {
                proof {
                    lemma_keyed_at(s, i as int);
                    lemma_keyed_remove(s, i as int);
                }
                let e = self.entries.remove(i);
                proof {
                    assert(table_view(self.entries@) =~= s.remove(i as int));
                }
                Some(e.1)
            },
            None => {
                proof {
                    assert(old(self).view() =~= old(self).view().remove((peer@, id)));
                }
                None
            },
        }
    }
}

/// What the behaviour announces.
#[derive(Debug)]
pub enum XStreamEvent<S> {
    /// A stream this node asked for was established.
    StreamEstablished { peer_id: Vec<u8>, stream_id: XStreamID },
    /// A stream failed.
    StreamError { peer_id: Vec<u8>, stream_id: Option<XStreamID>, error: String },
    /// A stream was closed.
    StreamClosed { peer_id: Vec<u8>, stream_id: XStreamID },
    /// A peer opened a stream.
    IncomingStream { stream: S },
}

/// Abstract event.
pub enum StreamEventView<S> {
    Established(Seq<u8>, u128),
    Error(Seq<u8>, Option<u128>, Seq<char>),
    Closed(Seq<u8>, u128),
    Incoming(S),
}

/// The plain identifier, if any.
pub open spec fn opt_id(id: Option<XStreamID>) -> Option<u128> {
    match id {
        Some(x) => Some(x.0),
        None => None,
    }
}

impl<S> View for XStreamEvent<S> {
    type V = StreamEventView<S>;

    open spec fn view(&self) -> StreamEventView<S> {
        match self {
            XStreamEvent::StreamEstablished { peer_id, stream_id } => StreamEventView::Established(
                peer_id@,
                stream_id.0,
            ),
            XStreamEvent::StreamError { peer_id, stream_id, error } => StreamEventView::Error(
                peer_id@,
                opt_id(*stream_id),
                error@,
            ),
            XStreamEvent::StreamClosed { peer_id, stream_id } => StreamEventView::Closed(
                peer_id@,
                stream_id.0,
            ),
            XStreamEvent::IncomingStream { stream } => StreamEventView::Incoming(*stream),
        }
    }
}

/// What the behaviour hands to the swarm.
#[derive(Debug)]
pub enum BehaviourAction<S> {
    /// An event to announce.
    Generate(XStreamEvent<S>),
    /// The handler of some connection to this peer is to open a stream.
    OpenStreamOn(Vec<u8>),
}

/// Abstract action.
pub enum ActionView<S> {
    Generate(StreamEventView<S>),
    OpenStreamOn(Seq<u8>),
}

impl<S> View for BehaviourAction<S> {
    type V = ActionView<S>;

    open spec fn view(&self) -> ActionView<S> {
        match self {
            BehaviourAction::Generate(e) => ActionView::Generate(e@),
            BehaviourAction::OpenStreamOn(p) => ActionView::OpenStreamOn(p@),
        }
    }
}

/// The established streams, the queued actions, and the callers waiting for a
/// stream from a peer (`W` is what answers such a caller).
pub struct XStreamNetworkBehaviour<S, W> {
    streams: StreamTable<S>,
    events: Vec<BehaviourAction<S>>,
    pending_streams: PeerMap<W>,
}

impl<S: Clone, W> XStreamNetworkBehaviour<S, W> {
    /// The established streams by peer and identifier.
    pub closed spec fn streams(&self) -> Map<(Seq<u8>, u128), S> {
        self.streams.view()
    }

    /// The queued actions, oldest first.
    pub closed spec fn actions(&self) -> Seq<ActionView<S>> {
        self.events@.map_values(|a: BehaviourAction<S>| a@)
    }

    /// The callers waiting for a stream, by peer.
    pub closed spec fn waiting(&self) -> Map<Seq<u8>, W> {
        self.pending_streams.view()
    }

    /// The tables are consistent.
    pub closed spec fn wf(&self) -> bool {
        self.streams.wf() && self.pending_streams.wf()
    }

    /// No stream, nothing queued, nobody waiting.
    pub fn new() -> (r: Self)
        ensures
            r.wf(),
            r.streams() == Map::<(Seq<u8>, u128), S>::empty(),
            r.actions() == Seq::<ActionView<S>>::empty(),
            r.waiting() == Map::<Seq<u8>, W>::empty(),
    {
        let r = XStreamNetworkBehaviour {
            streams: StreamTable::new(),
            events: Vec::new(),
            pending_streams: PeerMap::new(),
        };
        assert(r.actions() =~= Seq::<ActionView<S>>::empty());
        r
    }

    fn push_action(&mut self, a: BehaviourAction<S>)
        ensures
            final(self).actions() == old(self).actions().push(a@),
            final(self).streams == old(self).streams,
            final(self).pending_streams == old(self).pending_streams,
    {
        let ghost before = self.actions();
        self.events.push(a);
        assert(self.actions() =~= before.push(a@));
    }

    /// Asks a handler of a connection to `peer_id` to open a stream.
    pub fn request_open_stream(&mut self, peer_id: &[u8])
        requires
            old(self).wf(),
        ensures
            final(self).wf(),
            final(self).actions() == old(self).actions().push(ActionView::OpenStreamOn(peer_id@)),
            final(self).streams() == old(self).streams(),
            final(self).waiting() == old(self).waiting(),
    {
        self.push_action(BehaviourAction::OpenStreamOn(copy_bytes(peer_id)));
    }

    /// A caller wants a stream to `peer_id`, answered through `response`:
    /// it waits (replacing any caller waiting for that peer) and a stream is
    /// requested.
    pub fn open_stream(&mut self, peer_id: &[u8], response: W)
        requires
            old(self).wf(),
        ensures
            final(self).wf(),
            final(self).waiting() == old(self).waiting().insert(peer_id@, response),
            final(self).actions() == old(self).actions().push(ActionView::OpenStreamOn(peer_id@)),
            final(self).streams() == old(self).streams(),
    {
        self.pending_streams.insert(peer_id, response);
        self.request_open_stream(peer_id);
    }

    /// The stream of `peer_id` with identifier `stream_id`, if established.
    pub fn get_stream(&self, peer_id: &[u8], stream_id: u128) -> (r: Option<&S>)
        requires
            self.wf(),
        ensures
            self.streams().contains_key((peer_id@, stream_id)) ==> r == Some(
                &self.streams()[(peer_id@, stream_id)],
            ),
            !self.streams().contains_key((peer_id@, stream_id)) ==> r is None,
    {
        self.streams.get(peer_id, stream_id)
    }

    /// The stream of `peer_id` with identifier `stream_id`, to be changed in
    /// place, if established.
    pub fn get_stream_mut(&mut self, peer_id: &[u8], stream_id: u128) -> (r: Option<&mut S>)
        requires
            old(self).wf(),
        ensures
            final(self).wf(),
            final(self).actions() == old(self).actions(),
            final(self).waiting() == old(self).waiting(),
            !old(self).streams().contains_key((peer_id@, stream_id)) ==> r is None
                && final(self).streams() == old(self).streams(),
            old(self).streams().contains_key((peer_id@, stream_id)) ==> (r matches Some(s)
                && *s == old(self).streams()[(peer_id@, stream_id)]
                && final(self).streams() == old(self).streams().insert((peer_id@, stream_id), *final(s))),
    {
        self.streams.get_mut(peer_id, stream_id)
    }

    /// A stream was closed by hand: it is forgotten and its closing
    /// announced.
    pub fn notify_stream_closed(&mut self, peer_id: &[u8], stream_id: u128)
        requires
            old(self).wf(),
        ensures
            final(self).wf(),
            final(self).streams() == old(self).streams().remove((peer_id@, stream_id)),
            final(self).actions() == old(self).actions().push(
                ActionView::Generate(StreamEventView::Closed(peer_id@, stream_id)),
            ),
            final(self).waiting() == old(self).waiting(),
    {
        self.streams.remove(peer_id, stream_id);
        self.push_action(
            BehaviourAction::Generate(
                XStreamEvent::StreamClosed {
                    peer_id: copy_bytes(peer_id),
                    stream_id: XStreamID(stream_id),
                },
            ),
        );
    }

    /// The handler for a newly established connection to `peer_id`.
    pub fn handler_for_connection(&self, peer_id: &[u8]) -> (r: XStreamHandler<S>)
        ensures
            r.peer() == peer_id@,
            r.next_id() == 0,
            r.kept().len() == 0,
            r.events().len() == 0,
            r.open_requests() == 0,
    {
        let mut handler = XStreamHandler::new();
        handler.set_peer_id(peer_id);
        handler
    }

    /// A report from a handler of a connection to `peer_id`. A new stream is
    /// kept (a clone of it); an incoming one is announced with the stream; an
    /// outbound one is announced as established, and a caller waiting for a
    /// stream from that peer is returned with a clone of the stream to answer
    /// it. A failed or closed stream is forgotten (when its identifier is
    /// known) and announced.
    pub fn on_connection_handler_event(&mut self, peer_id: &[u8], event: XStreamHandlerEvent<S>) -> (r:
        Option<(W, S)>)
        requires
            old(self).wf(),
        ensures
            final(self).wf(),
            match event@ {
                HandlerEventView::Incoming(id, s) => {
                    &&& r is None
                    &&& final(self).waiting() == old(self).waiting()
                    &&& final(self).streams().dom() == old(self).streams().dom().insert((peer_id@, id))
                    &&& final(self).streams().remove((peer_id@, id)) == old(self).streams().remove(
                        (peer_id@, id),
                    )
                    &&& cloned(s, final(self).streams()[(peer_id@, id)])
                    &&& final(self).actions() == old(self).actions().push(
                        ActionView::Generate(StreamEventView::Incoming(s)),
                    )
                },
                HandlerEventView::Outbound(id, s) => {
                    &&& final(self).streams().dom() == old(self).streams().dom().insert((peer_id@, id))
                    &&& final(self).streams().remove((peer_id@, id)) == old(self).streams().remove(
                        (peer_id@, id),
                    )
                    &&& cloned(s, final(self).streams()[(peer_id@, id)])
                    &&& final(self).waiting() == old(self).waiting().remove(peer_id@)
                    &&& old(self).waiting().contains_key(peer_id@) ==> (r matches Some((w, c))
                        && w == old(self).waiting()[peer_id@] && cloned(s, c))
                    &&& !old(self).waiting().contains_key(peer_id@) ==> r is None
                    &&& final(self).actions() == old(self).actions().push(
                        ActionView::Generate(StreamEventView::Established(peer_id@, id)),
                    )
                },
                HandlerEventView::Error(id, e) => {
                    &&& r is None
                    &&& final(self).waiting() == old(self).waiting()
                    &&& (id matches Some(x) ==> final(self).streams() == old(self).streams().remove(
                        (peer_id@, x),
                    ))
                    &&& (id is None ==> final(self).streams() == old(self).streams())
                    &&& final(self).actions() == old(self).actions().push(
                        ActionView::Generate(StreamEventView::Error(peer_id@, id, e)),
                    )
                },
                HandlerEventView::Closed(id) => {
                    &&& r is None
                    &&& final(self).waiting() == old(self).waiting()
                    &&& final(self).streams() == old(self).streams().remove((peer_id@, id))
                    &&& final(self).actions() == old(self).actions().push(
                        ActionView::Generate(StreamEventView::Closed(peer_id@, id)),
                    )
                },
            },
    {
        match event {
            XStreamHandlerEvent::IncomingStreamEstablished { stream_id, stream } => {
                let kept = stream.clone();
                self.streams.insert(peer_id, stream_id, kept);
                self.push_action(BehaviourAction::Generate(XStreamEvent::IncomingStream { stream }));
                proof {
                    assert(self.streams().dom() =~= old(self).streams().dom().insert(
                        (peer_id@, stream_id),
                    ));
                    assert(self.streams().remove((peer_id@, stream_id)) =~= old(
                        self,
                    ).streams().remove((peer_id@, stream_id)));
                }
                None
            },
            XStreamHandlerEvent::OutboundStreamEstablished { stream_id, stream } => {
                let kept = stream.clone();
                self.streams.insert(peer_id, stream_id, kept);
                let waiter = self.pending_streams.remove(peer_id);
                let r = match waiter {
                    Some(w) => Some((w, stream.clone())),
                    None => None,
                };
                self.push_action(
                    BehaviourAction::Generate(
                        XStreamEvent::StreamEstablished {
                            peer_id: copy_bytes(peer_id),
                            stream_id: XStreamID(stream_id),
                        },
                    ),
                );
                proof {
                    assert(self.streams().dom() =~= old(self).streams().dom().insert(
                        (peer_id@, stream_id),
                    ));
                    assert(self.streams().remove((peer_id@, stream_id)) =~= old(
                        self,
                    ).streams().remove((peer_id@, stream_id)));
                }
                r
            },
            XStreamHandlerEvent::StreamError { stream_id, error } => {
                match stream_id {
                    Some(id) => {
                        self.streams.remove(peer_id, id);
                    },
                    None => {},
                }
                let ghost e = error@;
                self.push_action(
                    BehaviourAction::Generate(
                        XStreamEvent::StreamError {
                            peer_id: copy_bytes(peer_id),
                            stream_id: match stream_id {
                                Some(id) => Some(XStreamID(id)),
                                None => None,
                            },
                            error,
                        },
                    ),
                );
                None
            },
            XStreamHandlerEvent::StreamClosed { stream_id } => {
                self.streams.remove(peer_id, stream_id);
                self.push_action(
                    BehaviourAction::Generate(
                        XStreamEvent::StreamClosed {
                            peer_id: copy_bytes(peer_id),
                            stream_id: XStreamID(stream_id),
                        },
                    ),
                );
                None
            },
        }
    }

    /// One poll. A closing reported by a stream itself comes first: a closed
    /// stream is forgotten, and the report is announced at once. Otherwise
    /// the most recently queued action is handed out (the queue is taken
    /// from its end), if any.
    pub fn poll(&mut self, closure_report: Option<XStreamEvent<S>>) -> (r: Option<
        BehaviourAction<S>,
    >)
        requires
            old(self).wf(),
        ensures
            final(self).wf(),
            final(self).waiting() == old(self).waiting(),
            closure_report matches Some(e) ==> {
                &&& r matches Some(a) && a@ == ActionView::Generate(e@)
                &&& final(self).actions() == old(self).actions()
                &&& (e@ matches StreamEventView::Closed(p, id) ==> final(self).streams() == old(
                    self,
                ).streams().remove((p, id)))
                &&& (!(e@ is Closed) ==> final(self).streams() == old(self).streams())
            },
            closure_report is None ==> {
                &&& final(self).streams() == old(self).streams()
                &&& old(self).actions().len() == 0 ==> r is None && final(self).actions() == old(
                    self,
                ).actions()
                &&& old(self).actions().len() > 0 ==> (r matches Some(a) && a@ == old(
                    self,
                ).actions().last()) && final(self).actions() == old(self).actions().drop_last()
            },
    {
        match closure_report {
            Some(e) => {
                match &e {
                    XStreamEvent::StreamClosed { peer_id, stream_id } => {
                        self.streams.remove(peer_id.as_slice(), stream_id.0);
                    },
                    _ => {},
                }
                Some(BehaviourAction::Generate(e))
            },
            None => {
                if self.events.len() == 0 {
                    return None;
                }
                let r = self.events.pop();
                assert(self.actions() =~= old(self).actions().drop_last());
                r
            },
        }
    }
}

} // verus!
