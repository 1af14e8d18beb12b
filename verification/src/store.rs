use vstd::prelude::*;

verus! {

// The store is modelled as a sequence of entries, each a key `(arg0, arg1)`
// paired with the FIFO queue of `(command, payload)` packets parked under
// that key.  Entry order is insertion order; keys are unique.

/// A query id of 0 is a wildcard: it matches any key component.
pub open spec fn key_matches(arg0: u32, arg1: u32, key: (u32, u32)) -> bool {
    (arg0 == 0 || key.0 == arg0) && (arg1 == 0 || key.1 == arg1)
}

/// A queue can serve a query when it is non-empty and its head command is
/// among the expected commands (an empty expectation accepts any command).
pub open spec fn queue_ready(queue: Seq<(u32, Seq<u8>)>, expected: Seq<u32>) -> bool {
    queue.len() > 0 && (expected.len() == 0 || expected.contains(queue[0].0))
}

/// Whether one entry can serve the query `(arg0, arg1, expected)`.
pub open spec fn entry_matches(
    entry: ((u32, u32), Seq<(u32, Seq<u8>)>),
    arg0: u32,
    arg1: u32,
    expected: Seq<u32>,
) -> bool {
    key_matches(arg0, arg1, entry.0) && queue_ready(entry.1, expected)
}

/// The index of the first entry at or after `i` that can serve the query,
/// or the length of the store when none can.
pub open spec fn first_match(
    s: Seq<((u32, u32), Seq<(u32, Seq<u8>)>)>,
    arg0: u32,
    arg1: u32,
    expected: Seq<u32>,
    i: int,
) -> int
    decreases s.len() - i,
{
    if i < 0 || i >= s.len() {
        s.len() as int
    } else if entry_matches(s[i], arg0, arg1, expected) {
        i
    } else {
        first_match(s, arg0, arg1, expected, i + 1)
    }
}

/// The index of the entry whose key is exactly `(arg0, arg1)`, searching
/// from `i`, or the length of the store when there is none.
pub open spec fn index_of_key(
    s: Seq<((u32, u32), Seq<(u32, Seq<u8>)>)>,
    arg0: u32,
    arg1: u32,
    i: int,
) -> int
    decreases s.len() - i,
{
    if i < 0 || i >= s.len() {
        s.len() as int
    } else if s[i].0 == (arg0, arg1) {
        i
    } else {
        index_of_key(s, arg0, arg1, i + 1)
    }
}

/// The store after parking a packet: appended to the queue of its exact
/// key, or as a fresh entry at the end when the key is new.
pub open spec fn spec_put(
    s: Seq<((u32, u32), Seq<(u32, Seq<u8>)>)>,
    arg0: u32,
    arg1: u32,
    cmd: u32,
    data: Seq<u8>,
) -> Seq<((u32, u32), Seq<(u32, Seq<u8>)>)> {
    let i = index_of_key(s, arg0, arg1, 0);
    if i < s.len() {
        s.update(i, (s[i].0, s[i].1.push((cmd, data))))
    } else {
        s.push(((arg0, arg1), seq![(cmd, data)]))
    }
}

/// What a query pops: the head of the first matching queue, tagged with
/// that entry's concrete key, or nothing when no entry matches.
pub open spec fn spec_get_result(
    s: Seq<((u32, u32), Seq<(u32, Seq<u8>)>)>,
    arg0: u32,
    arg1: u32,
    expected: Seq<u32>,
) -> Option<(u32, u32, u32, Seq<u8>)> {
    let i = first_match(s, arg0, arg1, expected, 0);
    if i < s.len() {
        Some((s[i].1[0].0, s[i].0.0, s[i].0.1, s[i].1[0].1))
    } else {
        None
    }
}

/// The store after a query: the first matching queue loses its head;
/// a miss leaves the store unchanged.
pub open spec fn spec_get_store(
    s: Seq<((u32, u32), Seq<(u32, Seq<u8>)>)>,
    arg0: u32,
    arg1: u32,
    expected: Seq<u32>,
) -> Seq<((u32, u32), Seq<(u32, Seq<u8>)>)> {
    let i = first_match(s, arg0, arg1, expected, 0);
    if i < s.len() {
        s.update(i, (s[i].0, s[i].1.drop_first()))
    } else {
        s
    }
}

/// The store after dropping the whole entry for an exact key.
pub open spec fn spec_clear(
    s: Seq<((u32, u32), Seq<(u32, Seq<u8>)>)>,
    arg0: u32,
    arg1: u32,
) -> Seq<((u32, u32), Seq<(u32, Seq<u8>)>)> {
    let i = index_of_key(s, arg0, arg1, 0);
    if i < s.len() {
        s.remove(i)
    } else {
        s
    }
}


/// `index_of_key` finds the first exact occurrence of the key, or reports
/// that there is none.
pub proof fn lemma_index_of_key(
    s: Seq<((u32, u32), Seq<(u32, Seq<u8>)>)>,
    arg0: u32,
    arg1: u32,
    i: int,
)
    requires
        0 <= i <= s.len(),
    ensures
        ({
            let r = index_of_key(s, arg0, arg1, i);
            &&& i <= r <= s.len()
            &&& r < s.len() ==> s[r].0 == (arg0, arg1)
            &&& forall|j: int| i <= j < r ==> s[j].0 != (arg0, arg1)
        }),
    decreases s.len() - i,
{
    if i < s.len() && s[i].0 != (arg0, arg1) {
        lemma_index_of_key(s, arg0, arg1, i + 1);
    }
}

/// `first_match` finds the first entry that can serve the query, or
/// reports that there is none.
pub proof fn lemma_first_match(
    s: Seq<((u32, u32), Seq<(u32, Seq<u8>)>)>,
    arg0: u32,
    arg1: u32,
    expected: Seq<u32>,
    i: int,
)
    requires
        0 <= i <= s.len(),
    ensures
        ({
            let r = first_match(s, arg0, arg1, expected, i);
            &&& i <= r <= s.len()
            &&& r < s.len() ==> entry_matches(s[r], arg0, arg1, expected)
            &&& forall|j: int| i <= j < r ==> !entry_matches(s[j], arg0, arg1, expected)
        }),
    decreases s.len() - i,
{
    if i < s.len() && !entry_matches(s[i], arg0, arg1, expected) {
        lemma_first_match(s, arg0, arg1, expected, i + 1);
    }
}

struct StoreEntry {
    arg0: u32,
    arg1: u32,
    packets: Vec<(u32, Vec<u8>)>,
}

/// Parks packets that do not match the transaction a caller is currently
/// awaiting, keyed by `(arg0, arg1)`, FIFO per key, with wildcard lookup.
pub struct AdbPacketStore {
    entries: Vec<StoreEntry>,
}

impl AdbPacketStore {
    pub closed spec fn view(&self) -> Seq<((u32, u32), Seq<(u32, Seq<u8>)>)> {
        self.entries@.map_values(
            |e: StoreEntry| ((e.arg0, e.arg1), e.packets.deep_view()),
        )
    }

    /// Keys are unique: the map reading of the entry sequence is sound.
    pub open spec fn wf(&self) -> bool {
        forall|i: int, j: int|
            0 <= i < j < self.view().len() ==> self.view()[i].0 != self.view()[j].0
    }

    pub fn new() -> (r: Self)
        ensures
            r.view() == Seq::<((u32, u32), Seq<(u32, Seq<u8>)>)>::empty(),
            r.wf(),
    {
        let r = AdbPacketStore { entries: Vec::new() };
        proof {
            assert(r.view() =~= Seq::<((u32, u32), Seq<(u32, Seq<u8>)>)>::empty());
        }
        r
    }

    /// The position of the entry with exactly this key, or the entry count.
    fn position_of_key(&self, arg0: u32, arg1: u32) -> (r: usize)
        ensures
            r == index_of_key(self.view(), arg0, arg1, 0),
    {
        let mut i: usize = 0;
        while i < self.entries.len()
            invariant
                0 <= i <= self.entries@.len(),
                self.view().len() == self.entries@.len(),
                index_of_key(self.view(), arg0, arg1, 0) == index_of_key(
                    self.view(),
                    arg0,
                    arg1,
                    i as int,
                ),
                forall|j: int| 0 <= j < i ==> self.view()[j].0 != (arg0, arg1),
            decreases self.entries@.len() - i,
        {
            if self.entries[i].arg0 == arg0 && self.entries[i].arg1 == arg1 {
                return i;
            }
            i = i + 1;
        }
        i
    }

    /// Parks one packet under its `(arg0, arg1)` key, at the back of that
    /// key's FIFO queue.
    pub fn put_packet(&mut self, arg0: u32, arg1: u32, cmd: u32, data: Vec<u8>)
        requires
            old(self).wf(),
        ensures
            final(self).view() == spec_put(old(self).view(), arg0, arg1, cmd, data@),
            final(self).wf(),
    {
        proof {
            lemma_index_of_key(old(self).view(), arg0, arg1, 0);
        }
        let i = self.position_of_key(arg0, arg1);
        if i < self.entries.len() {
            let entry = &mut self.entries[i];
            entry.packets.push((cmd, data));
            proof {
                let ov = old(self).view();
                let nv = self.view();
                assert(nv =~~= spec_put(ov, arg0, arg1, cmd, data@));
                assert(forall|p: int| 0 <= p < nv.len() ==> nv[p].0 == ov[p].0);
            }
        } else {
            let mut packets: Vec<(u32, Vec<u8>)> = Vec::new();
            packets.push((cmd, data));
            self.entries.push(StoreEntry { arg0, arg1, packets });
            proof {
                let ov = old(self).view();
                let nv = self.view();
                assert(nv =~~= spec_put(ov, arg0, arg1, cmd, data@));
                assert(nv =~~= ov.push(((arg0, arg1), seq![(cmd, data@)])));
                assert forall|p: int, q: int| 0 <= p < q < nv.len() implies nv[p].0 != nv[q].0 by {
                    if q == nv.len() - 1 {
                        assert(ov[p].0 != (arg0, arg1));
                    }
                }
            }
        }
    }

    /// Whether `expected` names `cmd`, an empty list accepting anything.
    fn expected_accepts(expected: &[u32], cmd: u32) -> (r: bool)
        ensures
            r == (expected@.len() == 0 || expected@.contains(cmd)),
    {
        if expected.len() == 0 {
            return true;
        }
        let mut i: usize = 0;
        while i < expected.len()
            invariant
                0 <= i <= expected@.len(),
                forall|j: int| 0 <= j < i ==> expected@[j] != cmd,
            decreases expected@.len() - i,
        {
            if expected[i] == cmd {
                return true;
            }
            i = i + 1;
        }
        false
    }

    /// Finds the key of the first parked queue that can serve the query:
    /// its key matches `(arg0, arg1)` under the wildcard rule and its head
    /// command is expected.
    pub fn find_packet(&self, arg0: u32, arg1: u32, expected_cmds: &[u32]) -> (r: Option<
        (u32, u32),
    >)
        ensures
            ({
                let i = first_match(self.view(), arg0, arg1, expected_cmds@, 0);
                if i < self.view().len() {
                    r == Some(self.view()[i].0)
                } else {
                    r is None
                }
            }),
    {
        let mut i: usize = 0;
        while i < self.entries.len()
            invariant
                0 <= i <= self.entries@.len(),
                self.view().len() == self.entries@.len(),
                first_match(self.view(), arg0, arg1, expected_cmds@, 0) == first_match(
                    self.view(),
                    arg0,
                    arg1,
                    expected_cmds@,
                    i as int,
                ),
            decreases self.entries@.len() - i,
        {
            let entry = &self.entries[i];
            let key_ok = (arg0 == 0 || entry.arg0 == arg0) && (arg1 == 0 || entry.arg1 == arg1);
            let mut ready = false;
            if key_ok && entry.packets.len() > 0 {
                let head_cmd = entry.packets[0].0;
                if Self::expected_accepts(expected_cmds, head_cmd) {
                    ready = true;
                }
            }
            if ready {
                proof {
                    assert(entry_matches(self.view()[i as int], arg0, arg1, expected_cmds@));
                }
                return Some((entry.arg0, entry.arg1));
            }
            proof {
                assert(!entry_matches(self.view()[i as int], arg0, arg1, expected_cmds@));
            }
            i = i + 1;
        }
        None
    }

    /// Pops, FIFO, the head packet of the first queue that can serve the
    /// query, returning it together with that queue's concrete key.
    pub fn get_packet(&mut self, arg0: u32, arg1: u32, expected_cmds: &[u32]) -> (r: Option<
        (u32, u32, u32, Vec<u8>),
    >)
        requires
            old(self).wf(),
        ensures
            final(self).wf(),
            final(self).view() == spec_get_store(old(self).view(), arg0, arg1, expected_cmds@),
            ({
                let expect = spec_get_result(old(self).view(), arg0, arg1, expected_cmds@);
                match r {
                    Some((cmd, a0, a1, data)) => expect == Some((cmd, a0, a1, data@)),
                    None => expect is None,
                }
            }),
    {
        let ghost old_view = self.view();
        proof {
            assert(old_view == old(self).view());
        }
        let mut i: usize = 0;
        while i < self.entries.len()
            invariant
                0 <= i <= self.entries@.len(),
                old_view == old(self).view(),
                self.view() == old_view,
                self.wf(),
                self.view().len() == self.entries@.len(),
                first_match(old_view, arg0, arg1, expected_cmds@, 0) == first_match(
                    old_view,
                    arg0,
                    arg1,
                    expected_cmds@,
                    i as int,
                ),
            decreases self.entries@.len() - i,
        {
            let key_ok = {
                let entry = &self.entries[i];
                (arg0 == 0 || entry.arg0 == arg0) && (arg1 == 0 || entry.arg1 == arg1)
            };
            let mut ready = false;
            if key_ok && self.entries[i].packets.len() > 0 {
                let head_cmd = self.entries[i].packets[0].0;
                if Self::expected_accepts(expected_cmds, head_cmd) {
                    ready = true;
                }
            }
            if ready {
                proof {
                    assert(entry_matches(old_view[i as int], arg0, arg1, expected_cmds@));
                    assert(first_match(old_view, arg0, arg1, expected_cmds@, 0) == i as int);
                }
                let key0 = self.entries[i].arg0;
                let key1 = self.entries[i].arg1;
                let entry = &mut self.entries[i];
                let (cmd, data) = entry.packets.remove(0);
                proof {
                    let nv = self.view();
                    assert(nv[i as int].1 =~~= old_view[i as int].1.drop_first());
                    assert(nv =~~= spec_get_store(old_view, arg0, arg1, expected_cmds@));
                    assert(self.view() == spec_get_store(old(self).view(), arg0, arg1, expected_cmds@));
                    assert(data@ == old_view[i as int].1[0].1);
                    assert(cmd == old_view[i as int].1[0].0);
                    assert(key0 == old_view[i as int].0.0);
                    assert(key1 == old_view[i as int].0.1);
                    assert(spec_get_result(old(self).view(), arg0, arg1, expected_cmds@)
                        == Some((cmd, key0, key1, data@)));
                }
                return Some((cmd, key0, key1, data));
            }
            proof {
                assert(!entry_matches(old_view[i as int], arg0, arg1, expected_cmds@));
            }
            i = i + 1;
        }
        None
    }

    /// Drops every packet parked under exactly `(arg0, arg1)`; late packets
    /// for a closed stream are discarded this way.
    pub fn clear_packet(&mut self, arg0: u32, arg1: u32)
        requires
            old(self).wf(),
        ensures
            final(self).wf(),
            final(self).view() == spec_clear(old(self).view(), arg0, arg1),
    {
        proof {
            lemma_index_of_key(old(self).view(), arg0, arg1, 0);
        }
        let i = self.position_of_key(arg0, arg1);
        if i < self.entries.len() {
            let _ = self.entries.remove(i);
            proof {
                let ov = old(self).view();
                let nv = self.view();
                assert(nv =~~= spec_clear(ov, arg0, arg1));
                assert(forall|k: int| 0 <= k < i ==> nv[k] == ov[k]);
                assert(forall|k: int| i <= k < nv.len() ==> nv[k] == ov[k + 1]);
                assert forall|p: int, q: int| 0 <= p < q < nv.len() implies nv[p].0 != nv[q].0 by {
                    let op = if p < i { p } else { p + 1 };
                    let oq = if q < i { q } else { q + 1 };
                    assert(ov[op].0 != ov[oq].0);
                }
            }
        }
    }
}



/// Clearing an exact key removes it entirely: in a store with unique
/// keys no entry for that key survives.
pub proof fn lemma_clear_removes_key(
    s: Seq<((u32, u32), Seq<(u32, Seq<u8>)>)>,
    arg0: u32,
    arg1: u32,
)
    requires
        forall|i: int, j: int| 0 <= i < j < s.len() ==> s[i].0 != s[j].0,
    ensures
        ({
            let s2 = spec_clear(s, arg0, arg1);
            index_of_key(s2, arg0, arg1, 0) == s2.len()
        }),
{
    lemma_index_of_key(s, arg0, arg1, 0);
    let i = index_of_key(s, arg0, arg1, 0);
    let s2 = spec_clear(s, arg0, arg1);
    if i < s.len() {
        assert(forall|k: int| 0 <= k < i ==> s2[k] == s[k]);
        assert(forall|k: int| i <= k < s2.len() ==> s2[k] == s[k + 1]);
        assert forall|k: int| 0 <= k < s2.len() implies s2[k].0 != (arg0, arg1) by {
            let ok = if k < i {
                k
            } else {
                k + 1
            };
            if s2[k].0 == (arg0, arg1) {
                assert(s[ok].0 == (arg0, arg1));
                if ok < i {
                    assert(s[ok].0 != (arg0, arg1));
                } else {
                    assert(s[i].0 == s[ok].0);
                }
            }
        }
        lemma_index_of_key(s2, arg0, arg1, 0);
        if index_of_key(s2, arg0, arg1, 0) < s2.len() {
            assert(s2[index_of_key(s2, arg0, arg1, 0)].0 == (arg0, arg1));
        }
    }
}


/// Whether the store holds a packet `(cmd, data)` somewhere in the queue
/// of key `(arg0, arg1)`.
pub open spec fn store_has_packet(
    s: Seq<((u32, u32), Seq<(u32, Seq<u8>)>)>,
    arg0: u32,
    arg1: u32,
    cmd: u32,
    data: Seq<u8>,
) -> bool {
    exists|i: int, j: int|
        0 <= i < s.len() && #[trigger] s[i].0 == (arg0, arg1) && 0 <= j < s[i].1.len()
            && #[trigger] s[i].1[j] == (cmd, data)
}

/// Parking a packet makes it a member of its key's queue.
pub proof fn lemma_put_has(
    s: Seq<((u32, u32), Seq<(u32, Seq<u8>)>)>,
    arg0: u32,
    arg1: u32,
    cmd: u32,
    data: Seq<u8>,
)
    ensures
        store_has_packet(spec_put(s, arg0, arg1, cmd, data), arg0, arg1, cmd, data),
{
    lemma_index_of_key(s, arg0, arg1, 0);
    let i = index_of_key(s, arg0, arg1, 0);
    let s2 = spec_put(s, arg0, arg1, cmd, data);
    if i < s.len() {
        assert(s2[i].0 == (arg0, arg1));
        assert(s2[i].1[s[i].1.len() as int] == (cmd, data));
    } else {
        assert(s2[s.len() as int].0 == (arg0, arg1));
        assert(s2[s.len() as int].1[0] == (cmd, data));
    }
}

/// Parking one packet removes no other from the store.
pub proof fn lemma_put_preserves(
    s: Seq<((u32, u32), Seq<(u32, Seq<u8>)>)>,
    arg0: u32,
    arg1: u32,
    cmd: u32,
    data: Seq<u8>,
    f0: u32,
    f1: u32,
    fc: u32,
    fd: Seq<u8>,
)
    requires
        store_has_packet(s, f0, f1, fc, fd),
    ensures
        store_has_packet(spec_put(s, arg0, arg1, cmd, data), f0, f1, fc, fd),
{
    let (i, j) = choose|i: int, j: int|
        0 <= i < s.len() && #[trigger] s[i].0 == (f0, f1) && 0 <= j < s[i].1.len()
            && #[trigger] s[i].1[j] == (fc, fd);
    let s2 = spec_put(s, arg0, arg1, cmd, data);
    let k = index_of_key(s, arg0, arg1, 0);
    lemma_index_of_key(s, arg0, arg1, 0);
    if k < s.len() {
        if i == k {
            assert(s2[i].0 == (f0, f1));
            assert(s2[i].1[j] == (fc, fd));
        } else {
            assert(s2[i] == s[i]);
            assert(s2[i].0 == (f0, f1) && s2[i].1[j] == (fc, fd));
        }
    } else {
        assert(s2[i] == s[i]);
        assert(s2[i].0 == (f0, f1) && s2[i].1[j] == (fc, fd));
    }
}

/// Popping one packet removes no member with different contents.
pub proof fn lemma_get_preserves(
    s: Seq<((u32, u32), Seq<(u32, Seq<u8>)>)>,
    arg0: u32,
    arg1: u32,
    expected: Seq<u32>,
    f0: u32,
    f1: u32,
    fc: u32,
    fd: Seq<u8>,
)
    requires
        store_has_packet(s, f0, f1, fc, fd),
        ({
            let popped = spec_get_result(s, arg0, arg1, expected);
            popped matches Some((cmd, a0, a1, data)) ==> !(a0 == f0 && a1 == f1 && cmd == fc
                && data == fd)
        }),
    ensures
        store_has_packet(spec_get_store(s, arg0, arg1, expected), f0, f1, fc, fd),
{
    let (i, j) = choose|i: int, j: int|
        0 <= i < s.len() && #[trigger] s[i].0 == (f0, f1) && 0 <= j < s[i].1.len()
            && #[trigger] s[i].1[j] == (fc, fd);
    lemma_first_match(s, arg0, arg1, expected, 0);
    let m = first_match(s, arg0, arg1, expected, 0);
    let s2 = spec_get_store(s, arg0, arg1, expected);
    if m < s.len() {
        if i == m {
            assert(s[m].1[0].0 == fc && s[m].1[0].1 == fd ==> false);
            assert(j >= 1);
            assert(s2[i].0 == (f0, f1));
            assert(s2[i].1[j - 1] == s[i].1[j]);
            assert(s2[i].1[j - 1] == (fc, fd));
        } else {
            assert(s2[i] == s[i]);
            assert(s2[i].0 == (f0, f1) && s2[i].1[j] == (fc, fd));
        }
    } else {
        assert(s2 == s);
        assert(s2[i].0 == (f0, f1) && s2[i].1[j] == (fc, fd));
    }
}

/// Clearing a stream's queue removes no member of any other key.
pub proof fn lemma_clear_preserves(
    s: Seq<((u32, u32), Seq<(u32, Seq<u8>)>)>,
    arg0: u32,
    arg1: u32,
    f0: u32,
    f1: u32,
    fc: u32,
    fd: Seq<u8>,
)
    requires
        store_has_packet(s, f0, f1, fc, fd),
        !(f0 == arg0 && f1 == arg1),
    ensures
        store_has_packet(spec_clear(s, arg0, arg1), f0, f1, fc, fd),
{
    let (i, j) = choose|i: int, j: int|
        0 <= i < s.len() && #[trigger] s[i].0 == (f0, f1) && 0 <= j < s[i].1.len()
            && #[trigger] s[i].1[j] == (fc, fd);
    lemma_index_of_key(s, arg0, arg1, 0);
    let k = index_of_key(s, arg0, arg1, 0);
    let s2 = spec_clear(s, arg0, arg1);
    if k < s.len() {
        assert(i != k);
        let i2 = if i < k {
            i
        } else {
            i - 1
        };
        assert(s2[i2] == s[i]);
        assert(s2[i2].0 == (f0, f1) && s2[i2].1[j] == (fc, fd));
    } else {
        assert(s2[i].0 == (f0, f1) && s2[i].1[j] == (fc, fd));
    }
}

/// FIFO law: parking two packets under one fresh exact key and querying
/// that key twice hands them back in arrival order.
pub proof fn lemma_store_fifo(
    s: Seq<((u32, u32), Seq<(u32, Seq<u8>)>)>,
    arg0: u32,
    arg1: u32,
    cmd1: u32,
    data1: Seq<u8>,
    cmd2: u32,
    data2: Seq<u8>,
    expected1: Seq<u32>,
    expected2: Seq<u32>,
)
    requires
        arg0 != 0,
        arg1 != 0,
        index_of_key(s, arg0, arg1, 0) == s.len(),
        expected1.len() == 0 || expected1.contains(cmd1),
        expected2.len() == 0 || expected2.contains(cmd2),
    ensures
        ({
            let s2 = spec_put(spec_put(s, arg0, arg1, cmd1, data1), arg0, arg1, cmd2, data2);
            let s3 = spec_get_store(s2, arg0, arg1, expected1);
            &&& spec_get_result(s2, arg0, arg1, expected1) == Some((cmd1, arg0, arg1, data1))
            &&& spec_get_result(s3, arg0, arg1, expected2) == Some((cmd2, arg0, arg1, data2))
        }),
{
    lemma_index_of_key(s, arg0, arg1, 0);
    let s1 = spec_put(s, arg0, arg1, cmd1, data1);
    assert(s1 == s.push(((arg0, arg1), seq![(cmd1, data1)])));
    lemma_index_of_key(s1, arg0, arg1, 0);
    let n = s.len() as int;
    let r1 = index_of_key(s1, arg0, arg1, 0);
    if r1 < n {
        assert(s1[r1] == s[r1]);
        assert(s[r1].0 == (arg0, arg1));
        assert(false);
    } else if r1 > n {
        assert(s1[n].0 != (arg0, arg1));
        assert(false);
    }
    assert(index_of_key(s1, arg0, arg1, 0) == n);
    let s2 = spec_put(s1, arg0, arg1, cmd2, data2);
    assert(s2 == s1.update(n, (s1[n].0, s1[n].1.push((cmd2, data2)))));
    assert(s2[n].1 =~= seq![(cmd1, data1), (cmd2, data2)]);
    lemma_first_match(s2, arg0, arg1, expected1, 0);
    let f1 = first_match(s2, arg0, arg1, expected1, 0);
    assert(entry_matches(s2[n], arg0, arg1, expected1));
    assert(f1 <= n);
    if f1 < n {
        assert(s2[f1].0 == (arg0, arg1));
        assert(s[f1].0 == (arg0, arg1));
        assert(false);
    }
    assert(spec_get_result(s2, arg0, arg1, expected1) == Some((cmd1, arg0, arg1, data1)));
    let s3 = spec_get_store(s2, arg0, arg1, expected1);
    assert(s3 == s2.update(n, (s2[n].0, s2[n].1.drop_first())));
    assert(s3[n].1 =~= seq![(cmd2, data2)]);
    lemma_first_match(s3, arg0, arg1, expected2, 0);
    let f2 = first_match(s3, arg0, arg1, expected2, 0);
    assert(entry_matches(s3[n], arg0, arg1, expected2));
    if f2 < n {
        assert(s3[f2].0 == (arg0, arg1));
        assert(s[f2].0 == (arg0, arg1));
        assert(false);
    }
    assert(spec_get_result(s3, arg0, arg1, expected2) == Some((cmd2, arg0, arg1, data2)));
}

/// Wildcard law: a packet parked under `(arg0, arg1)` is served to a query
/// that names either id and leaves the other as the 0 wildcard, provided
/// its command is expected; a query expecting other commands misses.
pub proof fn lemma_store_wildcard(
    arg0: u32,
    arg1: u32,
    cmd: u32,
    data: Seq<u8>,
    expected: Seq<u32>,
    other: Seq<u32>,
)
    requires
        arg0 != 0,
        arg1 != 0,
        expected.len() == 0 || expected.contains(cmd),
        !other.contains(cmd),
        other.len() > 0,
    ensures
        ({
            let s = spec_put(Seq::empty(), arg0, arg1, cmd, data);
            &&& spec_get_result(s, 0, arg1, expected) == Some((cmd, arg0, arg1, data))
            &&& spec_get_result(s, arg0, 0, expected) == Some((cmd, arg0, arg1, data))
            &&& spec_get_result(s, arg0, arg1, other) is None
        }),
{
    let e: Seq<((u32, u32), Seq<(u32, Seq<u8>)>)> = Seq::empty();
    let s = spec_put(e, arg0, arg1, cmd, data);
    assert(s == e.push(((arg0, arg1), seq![(cmd, data)])));
    assert(entry_matches(s[0], 0, arg1, expected));
    assert(first_match(s, 0, arg1, expected, 0) == 0);
    assert(entry_matches(s[0], arg0, 0, expected));
    assert(first_match(s, arg0, 0, expected, 0) == 0);
    assert(!entry_matches(s[0], arg0, arg1, other));
    lemma_first_match(s, arg0, arg1, other, 0);
    let f = first_match(s, arg0, arg1, other, 0);
    if f < 1 {
        assert(entry_matches(s[0], arg0, arg1, other));
        assert(false);
    }
    assert(f == 1);
}

} // verus!
