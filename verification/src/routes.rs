//! A table from peers to their addresses, both held in their binary
//! encodings: the shape of the bootstrap server's route cache, of its list of
//! known bootstrap servers and of a node's table of connected peers.
use vstd::prelude::*;

verus! {

/// Whether two byte strings are equal.
pub fn bytes_equal(a: &[u8], b: &[u8]) -> (r: bool)
    ensures
        r == (a@ == b@),
{
    if a.len() != b.len() {
        return false;
    }
    let mut i: usize = 0;
    while i < a.len()
        invariant
            0 <= i <= a@.len(),
            a@.len() == b@.len(),
            forall|j: int| 0 <= j < i ==> a@[j] == b@[j],
        decreases a@.len() - i,
    {
        if a[i] != b[i] {
            return false;
        }
        i = i + 1;
    }
    assert(a@ =~= b@);
    true
}

/// A copy of a byte string.
pub fn copy_bytes(a: &[u8]) -> (r: Vec<u8>)
    ensures
        r@ == a@,
{
    let mut out: Vec<u8> = Vec::new();
    let mut i: usize = 0;
    while i < a.len()
        invariant
            0 <= i <= a@.len(),
            out@ == a@.take(i as int),
        decreases a@.len() - i,
    {
        out.push(a[i]);
        i = i + 1;
        assert(out@ =~= a@.take(i as int));
    }
    assert(a@.take(a@.len() as int) =~= a@);
    out
}

/// A copy of a list of byte strings.
pub fn copy_byte_list(list: &Vec<Vec<u8>>) -> (r: Vec<Vec<u8>>)
    ensures
        bytes_list(r@) == bytes_list(list@),
{
    let mut out: Vec<Vec<u8>> = Vec::new();
    let mut i: usize = 0;
    while i < list.len()
        invariant
            0 <= i <= list@.len(),
            bytes_list(out@) == bytes_list(list@).take(i as int),
            out@.len() == i,
        decreases list@.len() - i,
    {
        let item = copy_bytes(list[i].as_slice());
        let ghost prev = out@;
        out.push(item);
        proof {
            assert forall|j: int| 0 <= j < i + 1 implies bytes_list(out@)[j] == bytes_list(
                list@,
            ).take(i + 1)[j] by {
                if j < i {
                    assert(out@[j] == prev[j]);
                    assert(bytes_list(prev)[j] == bytes_list(list@).take(i as int)[j]);
                }
            }
        }
        i = i + 1;
        assert(bytes_list(out@) =~= bytes_list(list@).take(i as int));
    }
    assert(bytes_list(list@).take(list@.len() as int) =~= bytes_list(list@));
    out
}

/// Whether `list` holds the byte string `item`.
pub fn list_contains(list: &Vec<Vec<u8>>, item: &[u8]) -> (r: bool)
    ensures
        r == bytes_list(list@).contains(item@),
{
    let mut i: usize = 0;
    while i < list.len()
        invariant
            0 <= i <= list@.len(),
            forall|j: int| 0 <= j < i ==> bytes_list(list@)[j] != item@,
        decreases list@.len() - i,
    {
        if bytes_equal(list[i].as_slice(), item) {
            assert(bytes_list(list@)[i as int] == item@);
            return true;
        }
        i = i + 1;
    }
    false
}

/// The byte strings of a list.
pub open spec fn bytes_list(v: Seq<Vec<u8>>) -> Seq<Seq<u8>> {
    v.map_values(|b: Vec<u8>| b@)
}

/// A table entry: a peer and its addresses.
pub type Entry = (Seq<u8>, Seq<Seq<u8>>);

/// The abstract entries of a list of peers with their addresses.
pub open spec fn entries_view(s: Seq<(Vec<u8>, Vec<Vec<u8>>)>) -> Seq<Entry> {
    s.map_values(|e: (Vec<u8>, Vec<Vec<u8>>)| (e.0@, bytes_list(e.1@)))
}

/// No peer appears twice.
pub open spec fn keys_unique(s: Seq<Entry>) -> bool {
    forall|i: int, j: int| 0 <= i < s.len() && 0 <= j < s.len() && i != j ==> s[i].0 != s[j].0
}

/// Whether some entry is for peer `k`.
pub open spec fn has_key(s: Seq<Entry>, k: Seq<u8>) -> bool {
    exists|i: int| 0 <= i < s.len() && #[trigger] s[i].0 == k
}

/// The map from peers to addresses that a list of entries with distinct
/// peers denotes.
pub open spec fn entries_map(s: Seq<Entry>) -> Map<Seq<u8>, Seq<Seq<u8>>> {
    Map::new(
        |k: Seq<u8>| has_key(s, k),
        |k: Seq<u8>| s[choose|i: int| 0 <= i < s.len() && #[trigger] s[i].0 == k].1,
    )
}

/// The entry at `i` is what the map holds for its peer.
pub proof fn lemma_entries_map_at(s: Seq<Entry>, i: int)
    requires
        keys_unique(s),
        0 <= i < s.len(),
    ensures
        entries_map(s).contains_key(s[i].0),
        entries_map(s)[s[i].0] == s[i].1,
{
    let k = s[i].0;
    assert(has_key(s, k));
    let j = choose|j: int| 0 <= j < s.len() && #[trigger] s[j].0 == k;
    assert(j == i);
}

/// Replacing the addresses of the entry at `i` replaces them in the map.
pub proof fn lemma_entries_map_update(s: Seq<Entry>, i: int, v: Seq<Seq<u8>>)
    requires
        keys_unique(s),
        0 <= i < s.len(),
    ensures
        keys_unique(s.update(i, (s[i].0, v))),
        entries_map(s.update(i, (s[i].0, v))) =~= entries_map(s).insert(s[i].0, v),
{
    let t = s.update(i, (s[i].0, v));
    let k = s[i].0;
    assert forall|x: Seq<u8>| has_key(t, x) <==> has_key(s, x) by {
        if has_key(t, x) {
            let j = choose|j: int| 0 <= j < t.len() && #[trigger] t[j].0 == x;
            assert(s[j].0 == x);
        }
        if has_key(s, x) {
            let j = choose|j: int| 0 <= j < s.len() && #[trigger] s[j].0 == x;
            assert(t[j].0 == x);
        }
    }
    assert forall|x: Seq<u8>| #[trigger] entries_map(t).contains_key(x) implies entries_map(t)[x]
        == entries_map(s).insert(k, v)[x] by {
        let j = choose|j: int| 0 <= j < t.len() && #[trigger] t[j].0 == x;
        lemma_entries_map_at(t, j);
        if j != i {
            lemma_entries_map_at(s, j);
        }
    }
}

/// Appending an entry for a new peer adds it to the map.
pub proof fn lemma_entries_map_push(s: Seq<Entry>, k: Seq<u8>, v: Seq<Seq<u8>>)
    requires
        keys_unique(s),
        !has_key(s, k),
    ensures
        keys_unique(s.push((k, v))),
        entries_map(s.push((k, v))) =~= entries_map(s).insert(k, v),
{
    let t = s.push((k, v));
    assert forall|x: Seq<u8>| has_key(t, x) <==> (has_key(s, x) || x == k) by {
        if has_key(t, x) {
            let j = choose|j: int| 0 <= j < t.len() && #[trigger] t[j].0 == x;
            if j < s.len() {
                assert(s[j].0 == x);
            }
        }
        if has_key(s, x) {
            let j = choose|j: int| 0 <= j < s.len() && #[trigger] s[j].0 == x;
            assert(t[j].0 == x);
        }
        if x == k {
            assert(t[s.len() as int].0 == x);
        }
    }
    assert forall|x: Seq<u8>| #[trigger] entries_map(t).contains_key(x) implies entries_map(t)[x]
        == entries_map(s).insert(k, v)[x] by {
        let j = choose|j: int| 0 <= j < t.len() && #[trigger] t[j].0 == x;
        lemma_entries_map_at(t, j);
        if j < s.len() {
            lemma_entries_map_at(s, j);
        }
    }
}

/// Removing the entry at `i` removes its peer from the map.
pub proof fn lemma_entries_map_remove(s: Seq<Entry>, i: int)
    requires
        keys_unique(s),
        0 <= i < s.len(),
    ensures
        keys_unique(s.remove(i)),
        entries_map(s.remove(i)) =~= entries_map(s).remove(s[i].0),
{
    let t = s.remove(i);
    let k = s[i].0;
    assert forall|x: Seq<u8>| has_key(t, x) <==> (has_key(s, x) && x != k) by {
        if has_key(t, x) {
            let j = choose|j: int| 0 <= j < t.len() && #[trigger] t[j].0 == x;
            if j < i {
                assert(s[j].0 == x);
            } else {
                assert(s[j + 1].0 == x);
            }
        }
        if has_key(s, x) && x != k {
            let j = choose|j: int| 0 <= j < s.len() && #[trigger] s[j].0 == x;
            if j < i {
                assert(t[j].0 == x);
            } else {
                assert(t[j - 1].0 == x);
            }
        }
    }
    assert forall|x: Seq<u8>| #[trigger] entries_map(t).contains_key(x) implies entries_map(t)[x]
        == entries_map(s).remove(k)[x] by {
        let j = choose|j: int| 0 <= j < t.len() && #[trigger] t[j].0 == x;
        lemma_entries_map_at(t, j);
        if j < i {
            lemma_entries_map_at(s, j);
        } else {
            lemma_entries_map_at(s, j + 1);
        }
    }
}

/// The number of peers in the map of a list of entries with distinct peers.
pub proof fn lemma_entries_map_len(s: Seq<Entry>)
    requires
        keys_unique(s),
    ensures
        entries_map(s).dom().finite(),
        entries_map(s).dom().len() == s.len(),
    decreases s.len(),
{
    if s.len() == 0 {
        assert(entries_map(s).dom() =~= Set::<Seq<u8>>::empty());
    } else {
        let init = s.drop_last();
        assert(keys_unique(init));
        assert(!has_key(init, s.last().0)) by {
            if has_key(init, s.last().0) {
                let j = choose|j: int| 0 <= j < init.len() && #[trigger] init[j].0 == s.last().0;
                assert(s[j].0 == s[s.len() - 1].0);
            }
        }
        lemma_entries_map_len(init);
        lemma_entries_map_push(init, s.last().0, s.last().1);
        assert(init.push(s.last()) =~= s);
        assert(entries_map(s).dom() =~= entries_map(init).dom().insert(s.last().0));
    }
}

/// Peers with their addresses, each peer at most once.
pub struct RouteTable {
    entries: Vec<(Vec<u8>, Vec<Vec<u8>>)>,
}

impl RouteTable {
    /// The table as a map from peers to address lists.
    pub closed spec fn view(&self) -> Map<Seq<u8>, Seq<Seq<u8>>> {
        entries_map(entries_view(self.entries@))
    }

    /// The entries in storage order.
    pub closed spec fn entries(&self) -> Seq<Entry> {
        entries_view(self.entries@)
    }

    /// No peer is stored twice.
    pub closed spec fn wf(&self) -> bool {
        keys_unique(entries_view(self.entries@))
    }

    /// The table of the listed entries.
    pub open spec fn abstract_view(&self) -> Map<Seq<u8>, Seq<Seq<u8>>> {
        entries_map(self.entries())
    }

    proof fn lemma_view(&self)
        ensures
            self.view() == entries_map(self.entries()),
            self.entries().len() == self.entries@.len(),
    {
    }

    /// An empty table.
    pub fn new() -> (r: RouteTable)
        ensures
            r.wf(),
            r.view() == Map::<Seq<u8>, Seq<Seq<u8>>>::empty(),
    {
        let r = RouteTable { entries: Vec::new() };
        assert(r.view() =~= Map::<Seq<u8>, Seq<Seq<u8>>>::empty());
        r
    }

    /// The number of peers.
    pub fn len(&self) -> (r: usize)
        requires
            self.wf(),
        ensures
            r == self.view().len(),
    {
        proof {
            lemma_entries_map_len(entries_view(self.entries@));
        }
        self.entries.len()
    }

    /// Where peer `key` is stored, if anywhere.
    fn find(&self, key: &[u8]) -> (r: Option<usize>)
        requires
            self.wf(),
        ensures
            r matches Some(i) ==> i < self.entries@.len() && entries_view(self.entries@)[i as int].0
                == key@,
            r is None ==> !has_key(entries_view(self.entries@), key@),
    {
        let mut i: usize = 0;
        while i < self.entries.len()
            invariant
                0 <= i <= self.entries@.len(),
                forall|j: int| 0 <= j < i ==> entries_view(self.entries@)[j].0 != key@,
            decreases self.entries@.len() - i,
        {
            if bytes_equal(self.entries[i].0.as_slice(), key) {
                return Some(i);
            }
            i = i + 1;
        }
        proof {
            if has_key(entries_view(self.entries@), key@) {
                let j = choose|j: int|
                    0 <= j < entries_view(self.entries@).len() && #[trigger] entries_view(
                        self.entries@,
                    )[j].0 == key@;
            }
        }
        None
    }

    /// Whether peer `key` is in the table.
    pub fn contains_key(&self, key: &[u8]) -> (r: bool)
        requires
            self.wf(),
        ensures
            r == self.view().contains_key(key@),
    {
        match self.find(key) {
            Some(i) => {
                proof {
                    lemma_entries_map_at(entries_view(self.entries@), i as int);
                }
                true
            },
            None => false,
        }
    }

    /// A copy of the addresses of peer `key`, if it is in the table.
    pub fn get(&self, key: &[u8]) -> (r: Option<Vec<Vec<u8>>>)
        requires
            self.wf(),
        ensures
            self.view().contains_key(key@) ==> (r matches Some(v) && bytes_list(v@)
                == self.view()[key@]),
            !self.view().contains_key(key@) ==> r is None,
    {
        match self.find(key) {
            Some(i) => {
                proof {
                    lemma_entries_map_at(entries_view(self.entries@), i as int);
                }
                Some(copy_byte_list(&self.entries[i].1))
            },
            None => None,
        }
    }

    /// Sets the addresses of peer `key`, adding the peer if it is new.
    pub fn insert(&mut self, key: Vec<u8>, addrs: Vec<Vec<u8>>)
        requires
            old(self).wf(),
        ensures
            final(self).wf(),
            final(self).view() == old(self).view().insert(key@, bytes_list(addrs@)),
    {
        match self.find(key.as_slice()) {
            Some(i) => {
                let ghost s = entries_view(self.entries@);
                proof {
                    lemma_entries_map_update(s, i as int, bytes_list(addrs@));
                }
                self.entries.set(i, (key, addrs));
                proof {
                    assert(entries_view(self.entries@) =~= s.update(
                        i as int,
                        (s[i as int].0, bytes_list(addrs@)),
                    ));
                }
            },
            None => {
                let ghost s = entries_view(self.entries@);
                proof {
                    lemma_entries_map_push(s, key@, bytes_list(addrs@));
                }
                self.entries.push((key, addrs));
                proof {
                    assert(entries_view(self.entries@) =~= s.push((key@, bytes_list(addrs@))));
                }
            },
        }
    }

    /// Appends `addr` to the addresses of peer `key`, adding the peer with just
    /// that address if it is new.
    pub fn push_address(&mut self, key: &[u8], addr: Vec<u8>)
        requires
            old(self).wf(),
        ensures
            final(self).wf(),
            final(self).view() == old(self).view().insert(
                key@,
                if old(self).view().contains_key(key@) {
                    old(self).view()[key@].push(addr@)
                } else {
                    seq![addr@]
                },
            ),
    {
        let ghost s = entries_view(self.entries@);
        match self.find(key) {
            Some(i) => {
                proof {
                    lemma_entries_map_at(s, i as int);
                }
                let mut addrs = copy_byte_list(&self.entries[i].1);
                let k = copy_bytes(key);
                addrs.push(addr);
                proof {
                    lemma_entries_map_update(s, i as int, bytes_list(addrs@));
                    assert(bytes_list(addrs@) =~= s[i as int].1.push(addr@));
                }
                self.entries.set(i, (k, addrs));
                proof {
                    assert(entries_view(self.entries@) =~= s.update(
                        i as int,
                        (s[i as int].0, bytes_list(addrs@)),
                    ));
                }
            },
            None => {
                let k = copy_bytes(key);
                let mut addrs: Vec<Vec<u8>> = Vec::new();
                addrs.push(addr);
                proof {
                    assert(bytes_list(addrs@) =~= seq![addr@]);
                    lemma_entries_map_push(s, key@, bytes_list(addrs@));
                }
                self.entries.push((k, addrs));
                proof {
                    assert(entries_view(self.entries@) =~= s.push((key@, seq![addr@])));
                }
            },
        }
    }

    /// Removes peer `key` and returns its addresses, if it was in the table.
    pub fn remove(&mut self, key: &[u8]) -> (r: Option<Vec<Vec<u8>>>)
        requires
            old(self).wf(),
        ensures
            final(self).wf(),
            final(self).view() == old(self).view().remove(key@),
            old(self).view().contains_key(key@) ==> (r matches Some(v) && bytes_list(v@) == old(
                self,
            ).view()[key@]),
            !old(self).view().contains_key(key@) ==> r is None,
    {
        let ghost s = entries_view(self.entries@);
        match self.find(key) {
            Some(i) => {
                proof {
                    lemma_entries_map_at(s, i as int);
                    lemma_entries_map_remove(s, i as int);
                }
                let e = self.entries.remove(i);
                proof {
                    assert(entries_view(self.entries@) =~= s.remove(i as int));
                }
                Some(e.1)
            },
            None => {
                proof {
                    assert(old(self).view() =~= old(self).view().remove(key@));
                }
                None
            },
        }
    }

    /// A copy of every entry, in storage order.
    pub fn to_vec(&self) -> (r: Vec<(Vec<u8>, Vec<Vec<u8>>)>)
        requires
            self.wf(),
        ensures
            entries_view(r@) == self.entries(),
            entries_map(entries_view(r@)) == self.view(),
            keys_unique(entries_view(r@)),
    {
        let mut out: Vec<(Vec<u8>, Vec<Vec<u8>>)> = Vec::new();
        let mut i: usize = 0;
        while i < self.entries.len()
            invariant
                0 <= i <= self.entries@.len(),
                entries_view(out@) == entries_view(self.entries@).take(i as int),
                out@.len() == i,
            decreases self.entries@.len() - i,
        {
            let k = copy_bytes(self.entries[i].0.as_slice());
            let v = copy_byte_list(&self.entries[i].1);
            let ghost prev = out@;
            out.push((k, v));
            proof {
                assert forall|j: int| 0 <= j < i + 1 implies entries_view(out@)[j] == entries_view(
                    self.entries@,
                ).take(i + 1)[j] by {
                    if j < i {
                        assert(out@[j] == prev[j]);
                        assert(entries_view(prev)[j] == entries_view(self.entries@).take(i as int)[j]);
                    }
                }
            }
            i = i + 1;
            assert(entries_view(out@) =~= entries_view(self.entries@).take(i as int));
        }
        assert(entries_view(self.entries@).take(self.entries@.len() as int) =~= entries_view(
            self.entries@,
        ));
        out
    }

    /// A copy of this table.
    pub fn copy(&self) -> (r: RouteTable)
        requires
            self.wf(),
        ensures
            r.wf(),
            r.view() == self.view(),
            r.entries() == self.entries(),
    {
        RouteTable { entries: self.to_vec() }
    }

    /// The table holding `list`'s entries, a later entry for a peer replacing
    /// an earlier one.
    pub fn from_list(list: Vec<(Vec<u8>, Vec<Vec<u8>>)>) -> (r: RouteTable)
        ensures
            r.wf(),
            r.view() == list_map(entries_view(list@)),
    {
        let mut table = RouteTable::new();
        let ghost all = entries_view(list@);
        let mut i: usize = 0;
        while i < list.len()
            invariant
                table.wf(),
                0 <= i <= list@.len(),
                all == entries_view(list@),
                table.view() == list_map(all.take(i as int)),
            decreases list@.len() - i,
        {
            let k = copy_bytes(list[i].0.as_slice());
            let v = copy_byte_list(&list[i].1);
            proof {
                assert(all.take(i + 1).drop_last() =~= all.take(i as int));
            }
            table.insert(k, v);
            i = i + 1;
        }
        proof {
            assert(all.take(list@.len() as int) =~= all);
        }
        table
    }
}

/// The map of the first `i + 1` entries is that of the first `i` with entry
/// `i` added.
pub proof fn lemma_take_push_map(s: Seq<Entry>, i: int)
    requires
        keys_unique(s),
        0 <= i < s.len(),
    ensures
        keys_unique(s.take(i)),
        !has_key(s.take(i), s[i].0),
        entries_map(s.take(i + 1)) =~= entries_map(s.take(i)).insert(s[i].0, s[i].1),
{
    assert(s.take(i + 1) =~= s.take(i).push(s[i]));
    assert(!has_key(s.take(i), s[i].0)) by {
        if has_key(s.take(i), s[i].0) {
            let j = choose|j: int| 0 <= j < s.take(i).len() && #[trigger] s.take(i)[j].0 == s[i].0;
            assert(s[j].0 == s[i].0);
        }
    }
    lemma_entries_map_push(s.take(i), s[i].0, s[i].1);
}

/// The map that a list of entries builds when each entry in turn sets its
/// peer's addresses.
pub open spec fn list_map(s: Seq<Entry>) -> Map<Seq<u8>, Seq<Seq<u8>>>
    decreases s.len(),
{
    if s.len() == 0 {
        Map::empty()
    } else {
        list_map(s.drop_last()).insert(s.last().0, s.last().1)
    }
}

} // verus!
