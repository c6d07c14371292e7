//! The manager of paired streams opened without a connection handler: it
//! numbers the pairs this node opens, with the headers that announce them,
//! and files the substreams that arrive until both halves of a pair are in.
use vstd::prelude::*;

use crate::header::{law_stream_header_roundtrip, StreamHeader, HEADER_SIZE};
use crate::pending::{
    IncomingOutcome, PendingStreamRecord, PendingStreamsManager, StreamPair,
};
use crate::types::{append_decimal, decimal_text, IdIterator};

verus! {

/// The protocol name under which the manager opens and accepts substreams.
pub const STREAM_MANAGER_PROTOCOL: &'static str = "/xstream";

/// How long a substream waits for its partner, in milliseconds.
pub const PENDING_TIMEOUT: u64 = 30_000;

/// The headers that open a pair of substreams.
pub struct OpenedPair {
    pub id: u128,
    pub main_header: Vec<u8>,
    pub error_header: Vec<u8>,
}

/// What became of an arriving substream.
pub enum IncomingStreamResult<S, P> {
    /// It waits for its partner.
    Stored,
    /// Its partner was waiting: the pair is complete.
    Paired(StreamPair<S, P>),
    /// A substream of the same pair and role was waiting: a protocol error;
    /// both substreams are returned to be closed.
    Duplicate { error: String, incoming: S, pending: S },
}

/// The error text for a duplicate substream of pair `id`.
pub open spec fn duplicate_error(id: u128) -> Seq<char> {
    "Получен дубликат потока с ID: "@ + decimal_text(id as nat)
}

/// The record of a substream announced by header `h` that waits for its
/// partner from `now`.
pub open spec fn waiting_record<S, P>(h: StreamHeader, stream: S, peer: P, now: u64) -> PendingStreamRecord<
    S,
    P,
> {
    PendingStreamRecord { stream, id: h.id, is_main: h.is_main, received_at: now, peer_id: peer }
}

/// The pair that a substream announced by header `h` forms with its waiting
/// partner of the other role: the one announced as main is the main stream.
pub open spec fn pair_of<S, P>(waiting: PendingStreamRecord<S, P>, h: StreamHeader, stream: S, peer: P) -> StreamPair<
    S,
    P,
> {
    StreamPair {
        main_stream: if h.is_main {
            stream
        } else {
            waiting.stream
        },
        error_stream: if h.is_main {
            waiting.stream
        } else {
            stream
        },
        id: h.id,
        peer_id: peer,
    }
}

/// Pair numbering and the substreams waiting for their partners.
pub struct StreamManager<S, P> {
    id_iterator: IdIterator,
    pending_manager: PendingStreamsManager<S, P>,
}

impl<S, P> StreamManager<S, P> {
    /// The identifier of the next pair this node opens.
    pub closed spec fn next_id(&self) -> u128 {
        self.id_iterator.current()
    }

    /// The waiting substreams, by pair identifier.
    pub closed spec fn pending(&self) -> Map<u128, PendingStreamRecord<S, P>> {
        self.pending_manager.pending()
    }

    /// How long a substream may wait, in milliseconds.
    pub closed spec fn timeout(&self) -> u64 {
        self.pending_manager.timeout()
    }

    /// Every waiting substream is filed under its own identifier.
    pub closed spec fn wf(&self) -> bool {
        self.pending_manager.wf()
    }

    /// Numbering from zero, nothing waiting, substreams waiting at most
    /// `PENDING_TIMEOUT`.
    pub fn new() -> (r: Self)
        ensures
            r.wf(),
            r.next_id() == 0,
            r.pending() == Map::<u128, PendingStreamRecord<S, P>>::empty(),
            r.timeout() == PENDING_TIMEOUT,
    {
        StreamManager {
            id_iterator: IdIterator::new(),
            pending_manager: PendingStreamsManager::new(PENDING_TIMEOUT),
        }
    }

    /// Numbers a new pair this node opens and returns the headers to write
    /// first on its main and error substreams.
    pub fn open_stream(&mut self) -> (r: OpenedPair)
        requires
            old(self).wf(),
        ensures
            final(self).wf(),
            r.id == old(self).next_id(),
            r.main_header@ == StreamHeader::wire(r.id, true),
            r.error_header@ == StreamHeader::wire(r.id, false),
            final(self).next_id() == if old(self).next_id() < u128::MAX {
                (old(self).next_id() + 1) as u128
            } else {
                0
            },
            final(self).pending() == old(self).pending(),
            final(self).timeout() == old(self).timeout(),
    {
        let id = self.id_iterator.next().unwrap();
        let main_header = PendingStreamsManager::<S, P>::make_header(id, true);
        let error_header = PendingStreamsManager::<S, P>::make_header(id, false);
        OpenedPair { id, main_header, error_header }
    }

    /// Files a substream from `peer_id` whose header bytes were read, at
    /// `now`: it completes a pair whose other half was waiting, is refused as
    /// a duplicate when a half of the same role was waiting (that half is
    /// taken out too), or is stored to wait.
    pub fn handle_incoming_stream(
        &mut self,
        header_bytes: &[u8],
        stream: S,
        peer_id: P,
        now: u64,
    ) -> (r: IncomingStreamResult<S, P>)
        requires
            old(self).wf(),
            header_bytes@.len() == HEADER_SIZE,
        ensures
            final(self).wf(),
            final(self).next_id() == old(self).next_id(),
            final(self).timeout() == old(self).timeout(),
            ({
                let h = StreamHeader::parse(header_bytes@);
                &&& old(self).pending().contains_key(h.id) ==> {
                    let waiting = old(self).pending()[h.id];
                    &&& final(self).pending() == old(self).pending().remove(h.id)
                    &&& waiting.is_main == h.is_main ==> (r matches IncomingStreamResult::Duplicate {
                        error,
                        incoming,
                        pending,
                    } && error@ == duplicate_error(h.id) && incoming == stream && pending
                        == waiting.stream)
                    &&& waiting.is_main != h.is_main ==> r == IncomingStreamResult::Paired(
                        pair_of(waiting, h, stream, peer_id),
                    )
                }
                &&& !old(self).pending().contains_key(h.id) ==> {
                    &&& r is Stored
                    &&& final(self).pending() == old(self).pending().insert(
                        h.id,
                        waiting_record(h, stream, peer_id, now),
                    )
                }
            }),
    {
        let header = StreamHeader::from_bytes(header_bytes);
        match self.pending_manager.accept_incoming(header, stream, peer_id, now) {
            IncomingOutcome::Stored => IncomingStreamResult::Stored,
            IncomingOutcome::Paired(pair) => IncomingStreamResult::Paired(pair),
            IncomingOutcome::Duplicate { incoming, pending } => {
                let mut error = "Получен дубликат потока с ID: ".to_string();
                append_decimal(&mut error, header.id);
                IncomingStreamResult::Duplicate { error, incoming, pending: pending.stream }
            },
        }
    }

    /// Takes out every substream that has waited longer than the timeout at
    /// `now`, to be closed and reported (in no particular order).
    pub fn clean_timed_out_streams(&mut self, now: u64) -> (r: Vec<PendingStreamRecord<S, P>>)
        requires
            old(self).wf(),
        ensures
            final(self).wf(),
            final(self).next_id() == old(self).next_id(),
            final(self).timeout() == old(self).timeout(),
            final(self).pending() == PendingStreamsManager::<S, P>::live_part(
                old(self).pending(),
                now,
                old(self).timeout(),
            ),
            forall|i: int|
                0 <= i < r@.len() ==> {
                    &&& old(self).pending().contains_key(#[trigger] r@[i].id)
                    &&& r@[i] == old(self).pending()[r@[i].id]
                    &&& crate::pending::expired_at(r@[i].received_at, now, old(self).timeout())
                },
            forall|k: u128|
                #[trigger] old(self).pending().contains_key(k) && crate::pending::expired_at(
                    old(self).pending()[k].received_at,
                    now,
                    old(self).timeout(),
                ) ==> exists|i: int| 0 <= i < r@.len() && r@[i].id == k,
            forall|i: int, j: int| 0 <= i < j < r@.len() ==> r@[i].id != r@[j].id,
    {
        self.pending_manager.take_timed_out(now)
    }
}

/// The two substreams of a pair meet whichever arrives first: announced by
/// the headers that `open_stream` writes, the first waits, the second takes it
/// out and forms the pair with it, the one announced as main becoming the main
/// stream, and the waiting table is left as it was before the pair arrived.
pub proof fn law_pair_meets_in_either_order<S, P>(
    pending: Map<u128, PendingStreamRecord<S, P>>,
    id: u128,
    first_is_main: bool,
    first: S,
    second: S,
    peer: P,
    arrived: u64,
)
    requires
        !pending.contains_key(id),
    ensures
        ({
            let h1 = StreamHeader::parse(StreamHeader::wire(id, first_is_main));
            let h2 = StreamHeader::parse(StreamHeader::wire(id, !first_is_main));
            let p1 = pending.insert(h1.id, waiting_record(h1, first, peer, arrived));
            &&& !pending.contains_key(h1.id)
            &&& p1.contains_key(h2.id)
            &&& p1[h2.id].is_main != h2.is_main
            &&& p1.remove(h2.id) == pending
            &&& pair_of(p1[h2.id], h2, second, peer) == (StreamPair {
                main_stream: if first_is_main {
                    first
                } else {
                    second
                },
                error_stream: if first_is_main {
                    second
                } else {
                    first
                },
                id,
                peer_id: peer,
            })
        }),
{
    law_stream_header_roundtrip(id, first_is_main);
    law_stream_header_roundtrip(id, !first_is_main);
    let h1 = StreamHeader::parse(StreamHeader::wire(id, first_is_main));
    let p1 = pending.insert(h1.id, waiting_record(h1, first, peer, arrived));
    assert(p1.remove(id) =~= pending);
}

} // verus!
