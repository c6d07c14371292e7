//! Substreams that arrived without their partner: storage keyed by pair
//! identifier, pairing of the main and error substreams, and expiry.
use std::collections::HashMap;
use vstd::prelude::*;

use crate::header::StreamHeader;
use vstd::std_specs::iter::IteratorSpec;

verus! {

broadcast use vstd::std_specs::hash::group_hash_axioms;

/// A substream waiting for its partner.
pub struct PendingStreamRecord<S, P> {
    /// The substream itself.
    pub stream: S,
    /// Identifier of the pair it belongs to.
    pub id: u128,
    /// `true` for the main substream, `false` for the error substream.
    pub is_main: bool,
    /// When it arrived, in milliseconds of the caller's clock.
    pub received_at: u64,
    /// The peer that opened it.
    pub peer_id: P,
}

/// Whether more than `timeout` milliseconds separate `received_at` from `now`
/// (a `now` before `received_at` counts as no time elapsed).
pub open spec fn expired_at(received_at: u64, now: u64, timeout: u64) -> bool {
    now as int - received_at as int > timeout as int
}

impl<S, P> PendingStreamRecord<S, P> {
    /// A record of a substream that arrived at `received_at`.
    pub fn new(stream: S, id: u128, is_main: bool, peer_id: P, received_at: u64) -> (r: Self)
        ensures
            r.stream == stream,
            r.id == id,
            r.is_main == is_main,
            r.peer_id == peer_id,
            r.received_at == received_at,
    {
        PendingStreamRecord { stream, id, is_main, received_at, peer_id }
    }

    /// Whether, at time `now`, more than `timeout` milliseconds have passed since
    /// the substream arrived.
    pub fn is_timed_out(&self, now: u64, timeout: u64) -> (r: bool)
        ensures
            r == expired_at(self.received_at, now, timeout),
    {
        now > self.received_at && now - self.received_at > timeout
    }
}

/// Both substreams of a pair, once the second has arrived.
pub struct StreamPair<S, P> {
    pub main_stream: S,
    pub error_stream: S,
    pub id: u128,
    pub peer_id: P,
}

/// What became of an arriving substream.
pub enum IncomingOutcome<S, P> {
    /// No partner was waiting: the substream now waits for one.
    Stored,
    /// A substream of the same role and identifier was already waiting: it has
    /// been taken out, and both are returned to be closed.
    Duplicate { incoming: S, pending: PendingStreamRecord<S, P> },
    /// The partner was waiting: the pair is complete.
    Paired(StreamPair<S, P>),
}

/// Substreams waiting for their partners, keyed by pair identifier, with the
/// time after which a waiting substream is given up.
pub struct PendingStreamsManager<S, P> {
    pending_streams: HashMap<u128, PendingStreamRecord<S, P>>,
    default_timeout: u64,
}

impl<S, P> PendingStreamsManager<S, P> {
    /// The waiting substreams, by pair identifier.
    pub closed spec fn pending(&self) -> Map<u128, PendingStreamRecord<S, P>> {
        self.pending_streams@
    }

    /// How long a substream may wait, in milliseconds.
    pub closed spec fn timeout(&self) -> u64 {
        self.default_timeout
    }

    /// Finitely many records, each stored under its own identifier.
    pub open spec fn wf(&self) -> bool {
        &&& self.pending().dom().finite()
        &&& forall|k: u128| #[trigger] self.pending().contains_key(k) ==> self.pending()[k].id == k
    }

    /// The records of `m` that have not expired at `now`.
    pub open spec fn live_part(
        m: Map<u128, PendingStreamRecord<S, P>>,
        now: u64,
        timeout: u64,
    ) -> Map<u128, PendingStreamRecord<S, P>> {
        Map::new(
            |k: u128| m.contains_key(k) && !expired_at(m[k].received_at, now, timeout),
            |k: u128| m[k],
        )
    }

    /// An empty manager whose substreams may wait `default_timeout` milliseconds.
    pub fn new(default_timeout: u64) -> (r: Self)
        ensures
            r.wf(),
            r.pending() == Map::<u128, PendingStreamRecord<S, P>>::empty(),
            r.timeout() == default_timeout,
    {
        PendingStreamsManager { pending_streams: HashMap::new(), default_timeout }
    }

    /// How long a substream may wait, in milliseconds.
    pub fn default_timeout(&self) -> (r: u64)
        ensures
            r == self.timeout(),
    {
        self.default_timeout
    }

    /// Stores a substream that arrived at `now`, replacing any record with the
    /// same identifier.
    pub fn add_pending_stream(&mut self, stream: S, id: u128, is_main: bool, peer_id: P, now: u64)
        requires
            old(self).wf(),
        ensures
            final(self).wf(),
            final(self).timeout() == old(self).timeout(),
            final(self).pending() == old(self).pending().insert(
                id,
                PendingStreamRecord { stream, id, is_main, received_at: now, peer_id },
            ),
    {
        self.pending_streams.insert(id, PendingStreamRecord::new(stream, id, is_main, peer_id, now));
        proof {
            assert forall|k: u128| #[trigger] self.pending().contains_key(k) implies self.pending()[k].id
                == k by {
                if k != id {
                    assert(old(self).pending().contains_key(k));
                }
            }
        }
    }

    /// Whether a substream with identifier `id` is waiting.
    pub fn has_pending_stream(&self, id: u128) -> (r: bool)
        ensures
            r == self.pending().contains_key(id),
    {
        self.pending_streams.contains_key(&id)
    }

    /// Takes out the substream with identifier `id`, if one is waiting.
    pub fn take_pending_stream(&mut self, id: u128) -> (r: Option<PendingStreamRecord<S, P>>)
        requires
            old(self).wf(),
        ensures
            final(self).wf(),
            final(self).timeout() == old(self).timeout(),
            final(self).pending() == old(self).pending().remove(id),
            old(self).pending().contains_key(id) ==> r == Some(old(self).pending()[id]),
            !old(self).pending().contains_key(id) ==> r is None,
    {
        let r = self.pending_streams.remove(&id);
        proof {
            assert forall|k: u128| #[trigger] self.pending().contains_key(k) implies self.pending()[k].id
                == k by {
                assert(old(self).pending().contains_key(k));
            }
        }
        r
    }

    /// The number of waiting substreams.
    pub fn count(&self) -> (r: usize)
        ensures
            r == self.pending().len(),
    {
        self.pending_streams.len()
    }

    /// Takes out every substream that has waited longer than the timeout at
    /// `now`, and returns them (in no particular order) so that they can be
    /// closed and reported.
    pub fn take_timed_out(&mut self, now: u64) -> (r: Vec<PendingStreamRecord<S, P>>)
        requires
            old(self).wf(),
        ensures
            final(self).wf(),
            final(self).timeout() == old(self).timeout(),
            final(self).pending() == Self::live_part(old(self).pending(), now, old(self).timeout()),
            forall|i: int|
                0 <= i < r@.len() ==> {
                    &&& old(self).pending().contains_key(#[trigger] r@[i].id)
                    &&& r@[i] == old(self).pending()[r@[i].id]
                    &&& expired_at(r@[i].received_at, now, old(self).timeout())
                },
            forall|k: u128|
                #[trigger] old(self).pending().contains_key(k) && expired_at(
                    old(self).pending()[k].received_at,
                    now,
                    old(self).timeout(),
                ) ==> exists|i: int| 0 <= i < r@.len() && r@[i].id == k,
            forall|i: int, j: int| 0 <= i < j < r@.len() ==> r@[i].id != r@[j].id,
    {
        let timeout = self.default_timeout;
        let ghost old_map = self.pending_streams@;
        let mut expired: Vec<u128> = Vec::new();
        let keys_iter = self.pending_streams.keys();
        let ghost ks: Seq<&u128> = keys_iter.remaining();
        let ghost mut pos: Seq<int> = Seq::empty();
        for key in it: keys_iter
            invariant
                self.pending_streams@ == old_map,
                timeout == self.default_timeout,
                it.seq() == ks,
                ks.unref().to_set() == old_map.dom(),
                ks.no_duplicates(),
                forall|i: int|
                    0 <= i < expired@.len() ==> {
                        &&& old_map.contains_key(#[trigger] expired@[i])
                        &&& expired_at(old_map[expired@[i]].received_at, now, timeout)
                    },
                forall|j: int|
                    0 <= j < it.index() && expired_at(old_map[*ks[j]].received_at, now, timeout)
                        ==> expired@.contains(*#[trigger] ks[j]),
                expired@.no_duplicates(),
                pos.len() == expired@.len(),
                forall|i: int|
                    0 <= i < expired@.len() ==> 0 <= #[trigger] pos[i] < it.index() && *ks[pos[i]]
                        == expired@[i],
        {
            let k = *key;
            proof {
                assert(ks.unref()[it.index()] == k);
                assert(ks.unref().to_set().contains(k));
            }
            let rec = self.pending_streams.get(&k).unwrap();
            let ghost before = expired@;
            if rec.is_timed_out(now, timeout) {
                proof {
                    assert forall|i: int| 0 <= i < expired@.len() implies expired@[i] != k by {
                        let j = pos[i];
                        assert(ks[j] != ks[it.index()]);
                    }
                }
                expired.push(k);
                proof {
                    pos = pos.push(it.index());
                }
                proof {
                    assert(expired@[before.len() as int] == k);
                    assert forall|x: u128| before.contains(x) implies expired@.contains(x) by {
                        let y = choose|y: int| 0 <= y < before.len() && before[y] == x;
                        assert(expired@[y] == x);
                    }
                }
            }
            proof {
                assert forall|j: int|
                    0 <= j < it.index() + 1 && expired_at(old_map[*ks[j]].received_at, now, timeout)
                    implies expired@.contains(*#[trigger] ks[j]) by {
                    if j < it.index() {
                        assert(before.contains(*ks[j]));
                    } else {
                        assert(*ks[j] == k);
                        assert(expired@[expired@.len() - 1] == k);
                    }
                }
            }
        }
        proof {
            assert forall|k: u128|
                #[trigger] old_map.contains_key(k) && expired_at(old_map[k].received_at, now, timeout)
                implies expired@.contains(k) by {
                assert(ks.unref().to_set().contains(k));
                let j = choose|j: int| 0 <= j < ks.unref().len() && ks.unref()[j] == k;
                assert(*ks[j] == k);
            }
        }
        let mut out: Vec<PendingStreamRecord<S, P>> = Vec::new();
        let mut i: usize = 0;
        while i < expired.len()
            invariant
                0 <= i <= expired@.len(),
                timeout == self.default_timeout,
                expired@.no_duplicates(),
                forall|x: int|
                    0 <= x < expired@.len() ==> {
                        &&& old_map.contains_key(#[trigger] expired@[x])
                        &&& expired_at(old_map[expired@[x]].received_at, now, timeout)
                    },
                forall|k: u128| #[trigger]
                    self.pending_streams@.contains_key(k) <==> (old_map.contains_key(k)
                        && !expired@.take(i as int).contains(k)),
                forall|k: u128| #[trigger]
                    self.pending_streams@.contains_key(k) ==> self.pending_streams@[k] == old_map[k],
                out@.len() == i,
                forall|x: int| 0 <= x < i ==> #[trigger] out@[x] == old_map[expired@[x]],
            decreases expired@.len() - i,
        {
            let k = expired[i];
            let r = self.pending_streams.remove(&k);
            proof {
                assert(expired@.take(i + 1) =~= expired@.take(i as int).push(k));
                assert(!expired@.take(i as int).contains(k)) by {
                    if expired@.take(i as int).contains(k) {
                        let y = choose|y: int| 0 <= y < i && expired@.take(i as int)[y] == k;
                        assert(expired@[y] == expired@[i as int]);
                    }
                }
                assert(old_map.contains_key(k));
                let t1 = expired@.take(i + 1);
                let t0 = expired@.take(i as int);
                assert forall|x: u128| t1.contains(x) <==> (t0.contains(x) || x == k) by {
                    if t1.contains(x) {
                        let y = choose|y: int| 0 <= y < t1.len() && t1[y] == x;
                        if y < i {
                            assert(t0[y] == x);
                        }
                    }
                    if t0.contains(x) {
                        let y = choose|y: int| 0 <= y < t0.len() && t0[y] == x;
                        assert(t1[y] == x);
                    }
                    if x == k {
                        assert(t1[i as int] == x);
                    }
                }
            }
            out.push(r.unwrap());
            i = i + 1;
        }
        proof {
            assert(expired@.take(expired@.len() as int) =~= expired@);
            assert(self.pending_streams@ =~= Self::live_part(old_map, now, timeout)) by {
                assert forall|k: u128| self.pending_streams@.contains_key(k) implies !expired_at(
                    old_map[k].received_at,
                    now,
                    timeout,
                ) by {
                    if expired_at(old_map[k].received_at, now, timeout) {
                        assert(expired@.contains(k));
                    }
                }
                assert forall|k: u128| #[trigger] old_map.contains_key(k) && !expired_at(
                    old_map[k].received_at,
                    now,
                    timeout,
                ) implies self.pending_streams@.contains_key(k) by {
                    if expired@.contains(k) {
                        let x = choose|x: int| 0 <= x < expired@.len() && expired@[x] == k;
                    }
                }
            }
            assert forall|k: u128|
                #[trigger] old_map.contains_key(k) && expired_at(old_map[k].received_at, now, timeout)
                implies exists|x: int| 0 <= x < out@.len() && out@[x].id == k by {
                assert(expired@.contains(k));
                let x = choose|x: int| 0 <= x < expired@.len() && expired@[x] == k;
                assert(out@[x] == old_map[expired@[x]]);
                assert(old(self).pending().contains_key(k));
                assert(old_map[k].id == k);
            }
            assert forall|k: u128| #[trigger] self.pending().contains_key(k) implies self.pending()[k].id
                == k by {
                assert(old(self).pending().contains_key(k));
            }
            assert forall|x: int, y: int| 0 <= x < y < out@.len() implies out@[x].id != out@[y].id by {
                assert(out@[x] == old_map[expired@[x]]);
                assert(out@[y] == old_map[expired@[y]]);
                assert(old(self).pending().contains_key(expired@[x]));
                assert(old(self).pending().contains_key(expired@[y]));
                assert(old_map[expired@[x]].id == expired@[x]);
                assert(old_map[expired@[y]].id == expired@[y]);
            }
        }
        out
    }

    /// Files an arriving substream with header `header`. When its partner (same
    /// identifier, other role) is waiting, the partner is taken out and the pair
    /// is returned, main substream first. When a substream of the same
    /// identifier and role is waiting, it is taken out and both are returned as
    /// a duplicate. Otherwise the substream is stored to wait, stamped `now`.
    pub fn accept_incoming(&mut self, header: StreamHeader, stream: S, peer_id: P, now: u64) -> (r:
        IncomingOutcome<S, P>)
        requires
            old(self).wf(),
        ensures
            final(self).wf(),
            final(self).timeout() == old(self).timeout(),
            old(self).pending().contains_key(header.id) ==> {
                let waiting = old(self).pending()[header.id];
                &&& final(self).pending() == old(self).pending().remove(header.id)
                &&& waiting.is_main == header.is_main ==> r == (IncomingOutcome::Duplicate::<S, P> {
                    incoming: stream,
                    pending: waiting,
                })
                &&& waiting.is_main != header.is_main ==> r == IncomingOutcome::Paired(
                    StreamPair {
                        main_stream: if header.is_main {
                            stream
                        } else {
                            waiting.stream
                        },
                        error_stream: if header.is_main {
                            waiting.stream
                        } else {
                            stream
                        },
                        id: header.id,
                        peer_id,
                    },
                )
            },
            !old(self).pending().contains_key(header.id) ==> {
                &&& r == IncomingOutcome::<S, P>::Stored
                &&& final(self).pending() == old(self).pending().insert(
                    header.id,
                    PendingStreamRecord {
                        stream,
                        id: header.id,
                        is_main: header.is_main,
                        received_at: now,
                        peer_id,
                    },
                )
            },
    {
        match self.take_pending_stream(header.id) {
            Some(waiting) => {
                if waiting.is_main == header.is_main {
                    IncomingOutcome::Duplicate { incoming: stream, pending: waiting }
                } else if header.is_main {
                    IncomingOutcome::Paired(
                        StreamPair {
                            main_stream: stream,
                            error_stream: waiting.stream,
                            id: header.id,
                            peer_id,
                        },
                    )
                } else {
                    IncomingOutcome::Paired(
                        StreamPair {
                            main_stream: waiting.stream,
                            error_stream: stream,
                            id: header.id,
                            peer_id,
                        },
                    )
                }
            },
            None => {
                self.add_pending_stream(stream, header.id, header.is_main, peer_id, now);
                IncomingOutcome::Stored
            },
        }
    }

    /// The header bytes that announce a substream of pair `id` (main or error).
    pub fn make_header(id: u128, is_main: bool) -> (r: Vec<u8>)
        ensures
            r@ == StreamHeader::wire(id, is_main),
            r@.len() == crate::header::HEADER_SIZE,
    {
        StreamHeader::make(id, is_main)
    }
}

/// A substream stored to wait is found again, and taking it out leaves the
/// manager as it was before it arrived.
pub proof fn law_take_undoes_add<S, P>(
    before: Map<u128, PendingStreamRecord<S, P>>,
    rec: PendingStreamRecord<S, P>,
)
    requires
        !before.contains_key(rec.id),
    ensures
        before.insert(rec.id, rec).contains_key(rec.id),
        before.insert(rec.id, rec)[rec.id] == rec,
        before.insert(rec.id, rec).remove(rec.id) =~= before,
        before.insert(rec.id, rec).len() == before.len() + 1 || !before.dom().finite(),
{
    if before.dom().finite() {
        assert(before.insert(rec.id, rec).dom() =~= before.dom().insert(rec.id));
    }
}

/// Taking a waiting substream out removes exactly its record: it is no longer
/// waiting, one record fewer waits, and every other record stays as it was;
/// taking an identifier that is not waiting changes nothing.
pub proof fn law_take_removes_only_that_record<S, P>(
    pending: Map<u128, PendingStreamRecord<S, P>>,
    id: u128,
)
    requires
        pending.dom().finite(),
    ensures
        !pending.remove(id).contains_key(id),
        forall|k: u128|
            k != id ==> (#[trigger] pending.remove(id).contains_key(k) <==> pending.contains_key(k)),
        forall|k: u128|
            k != id && pending.contains_key(k) ==> #[trigger] pending.remove(id)[k] == pending[k],
        pending.contains_key(id) ==> pending.remove(id).len() + 1 == pending.len(),
        !pending.contains_key(id) ==> pending.remove(id) == pending,
{
    assert(pending.remove(id).dom() =~= pending.dom().remove(id));
    if !pending.contains_key(id) {
        assert(pending.remove(id) =~= pending);
    }
}

} // verus!
