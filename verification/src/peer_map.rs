//! A map from peers (in their binary encoding) to values, each peer at most
//! once, kept in arrival order.
use vstd::prelude::*;

use crate::routes::{bytes_equal, copy_bytes};

verus! {

/// The abstract entries of a list of peers with values.
pub open spec fn keyed_view<V>(s: Seq<(Vec<u8>, V)>) -> Seq<(Seq<u8>, V)> {
    s.map_values(|e: (Vec<u8>, V)| (e.0@, e.1))
}

/// No peer appears twice.
pub open spec fn unique_keys<K, V>(s: Seq<(K, V)>) -> bool {
    forall|i: int, j: int| 0 <= i < s.len() && 0 <= j < s.len() && i != j ==> s[i].0 != s[j].0
}

/// Whether some entry is for peer `k`.
pub open spec fn holds_key<K, V>(s: Seq<(K, V)>, k: K) -> bool {
    exists|i: int| 0 <= i < s.len() && #[trigger] s[i].0 == k
}

/// The map that a list of entries with distinct peers denotes.
pub open spec fn keyed_map<K, V>(s: Seq<(K, V)>) -> Map<K, V> {
    Map::new(
        |k: K| holds_key(s, k),
        |k: K| s[choose|i: int| 0 <= i < s.len() && #[trigger] s[i].0 == k].1,
    )
}

pub(crate) proof fn lemma_keyed_at<K, V>(s: Seq<(K, V)>, i: int)
    requires
        unique_keys(s),
        0 <= i < s.len(),
    ensures
        keyed_map(s).contains_key(s[i].0),
        keyed_map(s)[s[i].0] == s[i].1,
{
    let k = s[i].0;
    assert(holds_key(s, k));
    let j = choose|j: int| 0 <= j < s.len() && #[trigger] s[j].0 == k;
    assert(j == i);
}

pub(crate) proof fn lemma_keyed_update<K, V>(s: Seq<(K, V)>, i: int, v: V)
    requires
        unique_keys(s),
        0 <= i < s.len(),
    ensures
        unique_keys(s.update(i, (s[i].0, v))),
        keyed_map(s.update(i, (s[i].0, v))) =~= keyed_map(s).insert(s[i].0, v),
{
    let t = s.update(i, (s[i].0, v));
    let k = s[i].0;
    assert forall|x: K| holds_key(t, x) <==> holds_key(s, x) by {
        if holds_key(t, x) {
            let j = choose|j: int| 0 <= j < t.len() && #[trigger] t[j].0 == x;
            assert(s[j].0 == x);
        }
        if holds_key(s, x) {
            let j = choose|j: int| 0 <= j < s.len() && #[trigger] s[j].0 == x;
            assert(t[j].0 == x);
        }
    }
    assert forall|x: K| #[trigger] keyed_map(t).contains_key(x) implies keyed_map(t)[x]
        == keyed_map(s).insert(k, v)[x] by {
        let j = choose|j: int| 0 <= j < t.len() && #[trigger] t[j].0 == x;
        lemma_keyed_at(t, j);
        if j != i {
            lemma_keyed_at(s, j);
        }
    }
}

pub(crate) proof fn lemma_keyed_push<K, V>(s: Seq<(K, V)>, k: K, v: V)
    requires
        unique_keys(s),
        !holds_key(s, k),
    ensures
        unique_keys(s.push((k, v))),
        keyed_map(s.push((k, v))) =~= keyed_map(s).insert(k, v),
{
    let t = s.push((k, v));
    assert forall|x: K| holds_key(t, x) <==> (holds_key(s, x) || x == k) by {
        if holds_key(t, x) {
            let j = choose|j: int| 0 <= j < t.len() && #[trigger] t[j].0 == x;
            if j < s.len() {
                assert(s[j].0 == x);
            }
        }
        if holds_key(s, x) {
            let j = choose|j: int| 0 <= j < s.len() && #[trigger] s[j].0 == x;
            assert(t[j].0 == x);
        }
        if x == k {
            assert(t[s.len() as int].0 == x);
        }
    }
    assert forall|x: K| #[trigger] keyed_map(t).contains_key(x) implies keyed_map(t)[x]
        == keyed_map(s).insert(k, v)[x] by {
        let j = choose|j: int| 0 <= j < t.len() && #[trigger] t[j].0 == x;
        lemma_keyed_at(t, j);
        if j < s.len() {
            lemma_keyed_at(s, j);
        }
    }
}

pub(crate) proof fn lemma_keyed_remove<K, V>(s: Seq<(K, V)>, i: int)
    requires
        unique_keys(s),
        0 <= i < s.len(),
    ensures
        unique_keys(s.remove(i)),
        keyed_map(s.remove(i)) =~= keyed_map(s).remove(s[i].0),
{
    let t = s.remove(i);
    let k = s[i].0;
    assert forall|x: K| holds_key(t, x) <==> (holds_key(s, x) && x != k) by {
        if holds_key(t, x) {
            let j = choose|j: int| 0 <= j < t.len() && #[trigger] t[j].0 == x;
            if j < i {
                assert(s[j].0 == x);
            } else {
                assert(s[j + 1].0 == x);
            }
        }
        if holds_key(s, x) && x != k {
            let j = choose|j: int| 0 <= j < s.len() && #[trigger] s[j].0 == x;
            if j < i {
                assert(t[j].0 == x);
            } else {
                assert(t[j - 1].0 == x);
            }
        }
    }
    assert forall|x: K| #[trigger] keyed_map(t).contains_key(x) implies keyed_map(t)[x]
        == keyed_map(s).remove(k)[x] by {
        let j = choose|j: int| 0 <= j < t.len() && #[trigger] t[j].0 == x;
        lemma_keyed_at(t, j);
        if j < i {
            lemma_keyed_at(s, j);
        } else {
            lemma_keyed_at(s, j + 1);
        }
    }
}

/// Peers with one value each.
pub struct PeerMap<V> {
    entries: Vec<(Vec<u8>, V)>,
}

impl<V> PeerMap<V> {
    /// The map from peers to values.
    pub closed spec fn view(&self) -> Map<Seq<u8>, V> {
        keyed_map(keyed_view(self.entries@))
    }

    /// The peers in arrival order with their values.
    pub closed spec fn entries(&self) -> Seq<(Seq<u8>, V)> {
        keyed_view(self.entries@)
    }

    /// No peer is stored twice.
    pub closed spec fn wf(&self) -> bool {
        unique_keys(keyed_view(self.entries@))
    }

    /// The entries in arrival order denote the map.
    pub proof fn lemma_entries_denote_view(&self)
        requires
            self.wf(),
        ensures
            unique_keys(self.entries()),
            keyed_map(self.entries()) == self.view(),
            forall|i: int|
                0 <= i < self.entries().len() ==> self.view().contains_key(
                    #[trigger] self.entries()[i].0,
                ) && self.view()[self.entries()[i].0] == self.entries()[i].1,
    {
        assert forall|i: int| 0 <= i < self.entries().len() implies self.view().contains_key(
            #[trigger] self.entries()[i].0,
        ) && self.view()[self.entries()[i].0] == self.entries()[i].1 by {
            lemma_keyed_at(self.entries(), i);
        }
    }

    /// An empty map.
    pub fn new() -> (r: Self)
        ensures
            r.wf(),
            r.view() == Map::<Seq<u8>, V>::empty(),
            r.entries().len() == 0,
    {
        let r = PeerMap { entries: Vec::new() };
        assert(r.view() =~= Map::<Seq<u8>, V>::empty());
        r
    }

    /// The number of peers.
    pub fn len(&self) -> (r: usize)
        ensures
            r == self.entries().len(),
    {
        self.entries.len()
    }

    fn find(&self, key: &[u8]) -> (r: Option<usize>)
        requires
            self.wf(),
        ensures
            r matches Some(i) ==> i < self.entries@.len() && keyed_view(self.entries@)[i as int].0
                == key@,
            r is None ==> !holds_key(keyed_view(self.entries@), key@),
    {
        let mut i: usize = 0;
        while i < self.entries.len()
            invariant
                0 <= i <= self.entries@.len(),
                forall|j: int| 0 <= j < i ==> keyed_view(self.entries@)[j].0 != key@,
            decreases self.entries@.len() - i,
        {
            if bytes_equal(self.entries[i].0.as_slice(), key) {
                return Some(i);
            }
            i = i + 1;
        }
        proof {
            if holds_key(keyed_view(self.entries@), key@) {
                let j = choose|j: int|
                    0 <= j < keyed_view(self.entries@).len() && #[trigger] keyed_view(
                        self.entries@,
                    )[j].0 == key@;
            }
        }
        None
    }

    /// Whether peer `key` is present.
    pub fn contains_key(&self, key: &[u8]) -> (r: bool)
        requires
            self.wf(),
        ensures
            r == self.view().contains_key(key@),
    {
        match self.find(key) {
            Some(i) => {
                proof {
                    lemma_keyed_at(keyed_view(self.entries@), i as int);
                }
                true
            },
            None => false,
        }
    }

    /// The value of peer `key`, if present.
    pub fn get(&self, key: &[u8]) -> (r: Option<&V>)
        requires
            self.wf(),
        ensures
            self.view().contains_key(key@) ==> r == Some(&self.view()[key@]),
            !self.view().contains_key(key@) ==> r is None,
    {
        match self.find(key) {
            Some(i) => {
                proof {
                    lemma_keyed_at(keyed_view(self.entries@), i as int);
                }
                Some(&self.entries[i].1)
            },
            None => None,
        }
    }

    /// Sets the value of peer `key`; a new peer goes last in arrival order.
    pub fn insert(&mut self, key: &[u8], value: V)
        requires
            old(self).wf(),
        ensures
            final(self).wf(),
            final(self).view() == old(self).view().insert(key@, value),
            old(self).view().contains_key(key@) ==> final(self).entries().len() == old(
                self,
            ).entries().len(),
            !old(self).view().contains_key(key@) ==> final(self).entries() == old(
                self,
            ).entries().push((key@, value)),
    {
        let ghost s = keyed_view(self.entries@);
        match self.find(key) {
            Some(i) => {
                proof {
                    lemma_keyed_update(s, i as int, value);
                    lemma_keyed_at(s, i as int);
                }
                let k = copy_bytes(key);
                self.entries.set(i, (k, value));
                proof {
                    assert(keyed_view(self.entries@) =~= s.update(i as int, (s[i as int].0, value)));
                }
            },
            None => {
                proof {
                    lemma_keyed_push(s, key@, value);
                    if keyed_map(s).contains_key(key@) {
                        assert(holds_key(s, key@));
                    }
                }
                let k = copy_bytes(key);
                self.entries.push((k, value));
                proof {
                    assert(keyed_view(self.entries@) =~= s.push((key@, value)));
                }
            },
        }
    }

    /// Removes peer `key` and returns its value, if present.
    pub fn remove(&mut self, key: &[u8]) -> (r: Option<V>)
        requires
            old(self).wf(),
        ensures
            final(self).wf(),
            final(self).view() == old(self).view().remove(key@),
            old(self).view().contains_key(key@) ==> r == Some(old(self).view()[key@]),
            !old(self).view().contains_key(key@) ==> r is None,
    {
        let ghost s = keyed_view(self.entries@);
        match self.find(key) {
            Some(i) => {
                proof {
                    lemma_keyed_at(s, i as int);
                    lemma_keyed_remove(s, i as int);
                }
                let e = self.entries.remove(i);
                proof {
                    assert(keyed_view(self.entries@) =~= s.remove(i as int));
                }
                Some(e.1)
            },
            None => {
                proof {
                    assert(old(self).view() =~= old(self).view().remove(key@));
                }
                None
            },
        }
    }

    /// The peer and value at position `i` of arrival order.
    pub fn entry_at(&self, i: usize) -> (r: (&Vec<u8>, &V))
        requires
            i < self.entries().len(),
        ensures
            r.0@ == self.entries()[i as int].0,
            *r.1 == self.entries()[i as int].1,
    {
        (&self.entries[i].0, &self.entries[i].1)
    }

    /// Replaces the value at position `i` of arrival order.
    pub fn set_at(&mut self, i: usize, value: V)
        requires
            old(self).wf(),
            i < old(self).entries().len(),
        ensures
            final(self).wf(),
            final(self).entries() == old(self).entries().update(
                i as int,
                (old(self).entries()[i as int].0, value),
            ),
            final(self).view() == old(self).view().insert(old(self).entries()[i as int].0, value),
    {
        let ghost s = keyed_view(self.entries@);
        proof {
            lemma_keyed_update(s, i as int, value);
        }
        let k = copy_bytes(self.entries[i].0.as_slice());
        self.entries.set(i, (k, value));
        proof {
            assert(keyed_view(self.entries@) =~= s.update(i as int, (s[i as int].0, value)));
        }
    }
}

} // verus!
