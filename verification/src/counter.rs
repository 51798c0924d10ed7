//! The counter store: a fixed-capacity keyed table of per-key counter
//! records, together with the increment protocol that the per-packet path
//! applies to it.

use vstd::prelude::*;

verus! {

/// One per-key counter record. Both fields only ever grow: every observed
/// packet adds 1 to `rx_packets` and the packet's length to `rx_bytes`.
#[derive(Clone, Copy, Debug, PartialEq, Eq, Structural)]
pub struct DataRec {
    pub rx_packets: u64,
    pub rx_bytes: u64,
}

impl Default for DataRec {
    fn default() -> (r: Self)
        ensures
            r == (DataRec { rx_packets: 0, rx_bytes: 0 }),
    {
        DataRec { rx_packets: 0, rx_bytes: 0 }
    }
}

impl DataRec {
    /// The record after one increment step for a packet of `len` bytes.
    pub open spec fn incremented(self, len: u64) -> DataRec {
        DataRec {
            rx_packets: (self.rx_packets + 1) as u64,
            rx_bytes: (self.rx_bytes + len) as u64,
        }
    }
}

/// One slot of the counter store: a key and the record it owns.
#[derive(Clone, Copy, Debug, PartialEq, Eq, Structural)]
pub struct CounterEntry {
    pub key: u32,
    pub rec: DataRec,
}

/// Errors of the counter store.
#[derive(Clone, Copy, Debug, PartialEq, Eq, Structural)]
pub enum StoreError {
    /// The table was full on a first-touch insert; the record is dropped,
    /// the packet path continues unaffected.
    CapacityExceeded,
}

/// A fixed-capacity keyed table of counter records. Capacity is fixed at
/// construction; keys are unique; records are created on first touch and
/// never removed.
///
/// The fields are public so that specifications can speak about them, but
/// the table must only be mutated through its methods, which preserve
/// well-formedness (`wf`).
pub struct CounterStore {
    pub entries: Vec<CounterEntry>,
    pub capacity: usize,
}

impl View for CounterStore {
    type V = Seq<CounterEntry>;

    open spec fn view(&self) -> Seq<CounterEntry> {
        self.entries@
    }
}

impl CounterStore {
    /// Well-formedness: within capacity, and no key occupies two slots.
    pub open spec fn wf(self) -> bool {
        &&& self@.len() <= self.capacity
        &&& forall|i: int, j: int|
            0 <= i < j < self@.len() ==> (#[trigger] self@[i]).key != (#[trigger] self@[j]).key
    }

    /// Whether some slot holds `key`.
    pub open spec fn spec_contains(self, key: u32) -> bool {
        exists|i: int| 0 <= i < self@.len() && (#[trigger] self@[i]).key == key
    }

    /// The slot holding `key`; meaningful only when `spec_contains(key)`,
    /// and unique under `wf`.
    pub open spec fn spec_index_of(self, key: u32) -> int {
        choose|i: int| 0 <= i < self@.len() && (#[trigger] self@[i]).key == key
    }

    /// The value a read of `key` returns: a copy of its record, if present.
    pub open spec fn spec_read(self, key: u32) -> Option<DataRec> {
        if self.spec_contains(key) {
            Some(self@[self.spec_index_of(key)].rec)
        } else {
            None
        }
    }

    /// Under `wf`, a key occupies at most one slot.
    pub proof fn lemma_key_slot_unique(self, i: int, j: int)
        requires
            self.wf(),
            0 <= i < self@.len(),
            0 <= j < self@.len(),
            self@[i].key == self@[j].key,
        ensures
            i == j,
    {
        if i < j {
            assert(self@[i].key != self@[j].key);
        }
        if j < i {
            assert(self@[j].key != self@[i].key);
        }
    }

    /// An empty table with the given fixed capacity.
    pub fn new(capacity: usize) -> (s: Self)
        ensures
            s.wf(),
            s@.len() == 0,
            s.capacity == capacity,
    {
        CounterStore { entries: Vec::new(), capacity }
    }

    /// Linear scan for `key`; exact key match only.
    fn find(&self, key: u32) -> (r: Option<usize>)
        ensures
            match r {
                Some(i) => i < self@.len() && self@[i as int].key == key,
                None => !self.spec_contains(key),
            },
    {
        let mut i: usize = 0;
        while i < self.entries.len()
            invariant
                i <= self.entries@.len(),
                forall|j: int| 0 <= j < i ==> (#[trigger] self.entries@[j]).key != key,
            decreases self.entries@.len() - i,
        {
            if self.entries[i].key == key {
                return Some(i);
            }
            i = i + 1;
        }
        None
    }

    /// Read the record for `key`: a value copy, `None` if the key was never
    /// touched. Reading does not change the table, so two reads with no
    /// intervening increment return identical values.
    pub fn read(&self, key: u32) -> (r: Option<DataRec>)
        requires
            self.wf(),
        ensures
            r == self.spec_read(key),
    {
        match self.find(key) {
            Some(i) => {
                proof {
                    assert(self.spec_contains(key));
                    self.lemma_key_slot_unique(i as int, self.spec_index_of(key));
                }
                Some(self.entries[i].rec)
            }
            None => None,
        }
    }

    /// Appending a fresh key preserves well-formedness.
    pub proof fn lemma_push_fresh_key_wf(self, key: u32, rec: DataRec)
        requires
            self.wf(),
            !self.spec_contains(key),
            self@.len() < self.capacity,
        ensures
            ({
                let s = self@.push(CounterEntry { key, rec });
                &&& s.len() <= self.capacity
                &&& forall|i: int, j: int|
                    0 <= i < j < s.len() ==> (#[trigger] s[i]).key != (#[trigger] s[j]).key
            }),
    {
        let s = self@.push(CounterEntry { key, rec });
        assert forall|i: int, j: int|
            0 <= i < j < s.len() implies (#[trigger] s[i]).key != (#[trigger] s[j]).key by {
            if j < self@.len() {
                assert(self@[i].key != self@[j].key);
            } else {
                assert(s[j].key == key);
                assert(s[i] == self@[i]);
                if s[i].key == key {
                    assert(self.spec_contains(key));
                }
            }
        }
    }

    /// Look the key up, creating a zero record on first touch. Returns a
    /// handle (slot index) to the single record owned by `key`. Fails with
    /// `CapacityExceeded`, and only then, when the key is absent and the
    /// table is full; the table is then left unchanged.
    pub fn get_or_create(&mut self, key: u32) -> (r: Result<usize, StoreError>)
        requires
            old(self).wf(),
        ensures
            final(self).wf(),
            final(self).capacity == old(self).capacity,
            match r {
                Ok(h) => {
                    &&& h < final(self)@.len()
                    &&& final(self)@[h as int].key == key
                    &&& if old(self).spec_contains(key) {
                        &&& *final(self) == *old(self)
                        &&& h == old(self).spec_index_of(key)
                    } else {
                        &&& old(self)@.len() < old(self).capacity
                        &&& h == old(self)@.len()
                        &&& final(self)@ == old(self)@.push(
                            CounterEntry { key, rec: DataRec { rx_packets: 0, rx_bytes: 0 } },
                        )
                    }
                },
                Err(e) => {
                    &&& e == StoreError::CapacityExceeded
                    &&& *final(self) == *old(self)
                    &&& !old(self).spec_contains(key)
                    &&& old(self)@.len() >= old(self).capacity
                },
            },
            r is Ok <==> (old(self).spec_contains(key) || old(self)@.len() < old(self).capacity),
    {
        match self.find(key) {
            Some(i) => {
                proof {
                    assert(self.spec_contains(key));
                    self.lemma_key_slot_unique(i as int, self.spec_index_of(key));
                }
                Ok(i)
            }
            None => {
                if self.entries.len() < self.capacity {
                    let h = self.entries.len();
                    proof {
                        self.lemma_push_fresh_key_wf(key, DataRec { rx_packets: 0, rx_bytes: 0 });
                    }
                    self.entries.push(CounterEntry {
                        key,
                        rec: DataRec { rx_packets: 0, rx_bytes: 0 },
                    });
                    Ok(h)
                } else {
                    Err(StoreError::CapacityExceeded)
                }
            }
        }
    }

    /// The atomic update protocol: add 1 to `rx_packets` and `len` to
    /// `rx_bytes` of the record behind `handle`, as one logically-atomic
    /// step. No other slot changes.
    pub fn increment(&mut self, handle: usize, len: u64)
        requires
            old(self).wf(),
            handle < old(self)@.len(),
            old(self)@[handle as int].rec.rx_packets < u64::MAX,
            old(self)@[handle as int].rec.rx_bytes + len <= u64::MAX,
        ensures
            final(self).wf(),
            final(self).capacity == old(self).capacity,
            final(self)@ == old(self)@.update(
                handle as int,
                (CounterEntry {
                    key: old(self)@[handle as int].key,
                    rec: old(self)@[handle as int].rec.incremented(len),
                }),
            ),
    {
        let e = self.entries[handle];
        let rec = DataRec { rx_packets: e.rec.rx_packets + 1, rx_bytes: e.rec.rx_bytes + len };
        self.entries.set(handle, CounterEntry { key: e.key, rec });
        proof {
            assert forall|i: int, j: int|
                0 <= i < j < self@.len() implies (#[trigger] self@[i]).key
                != (#[trigger] self@[j]).key by {
                assert(self@[i].key == old(self)@[i].key);
                assert(self@[j].key == old(self)@[j].key);
                assert(old(self)@[i].key != old(self)@[j].key);
            }
        }
    }
}

/// The (packets, bytes) totals, as unbounded integers, after a sequence of
/// increment steps of the given byte lengths has been applied to `r`, in
/// the order of the sequence.
pub open spec fn tally(r: DataRec, lens: Seq<u64>) -> (int, int)
    decreases lens.len(),
{
    if lens.len() == 0 {
        (r.rx_packets as int, r.rx_bytes as int)
    } else {
        let prev = tally(r, lens.drop_last());
        (prev.0 + 1, prev.1 + lens.last())
    }
}

/// The sum of a sequence of byte lengths.
pub open spec fn seq_sum(lens: Seq<u64>) -> int
    decreases lens.len(),
{
    if lens.len() == 0 {
        0
    } else {
        seq_sum(lens.drop_last()) + lens.last()
    }
}

/// A sequence of increment steps adds exactly its length to the packet
/// total and exactly the sum of its byte lengths to the byte total. The
/// totals depend only on how many steps ran and on their lengths, not on
/// any ordering among them.
pub proof fn lemma_tally_totals(r: DataRec, lens: Seq<u64>)
    ensures
        tally(r, lens).0 == r.rx_packets + lens.len(),
        tally(r, lens).1 == r.rx_bytes + seq_sum(lens),
    decreases lens.len(),
{
    if lens.len() > 0 {
        lemma_tally_totals(r, lens.drop_last());
    }
}

/// The sum of `n` equal lengths `l` is `n * l`.
pub proof fn lemma_seq_sum_constant(n: nat, l: u64)
    ensures
        seq_sum(Seq::new(n, |i: int| l)) == n * l,
    decreases n,
{
    let lens = Seq::new(n, |i: int| l);
    if n == 0 {
        assert(lens.len() == 0);
    } else {
        let prefix = Seq::new((n - 1) as nat, |i: int| l);
        lemma_seq_sum_constant((n - 1) as nat, l);
        assert(lens.drop_last() =~= prefix);
        assert((n - 1) * l + l == n * l) by (nonlinear_arith);
    }
}

/// After any `n` increment steps of byte length `l` on one record that
/// started at zero, the totals are exactly `packets == n` and
/// `bytes == n * l`, whatever order the steps completed in: each step is a
/// single logically-atomic fetch-and-add on each field, so no step can be
/// lost and the totals are independent of the interleaving.
pub proof fn lemma_concurrent_increment_tally(n: nat, l: u64)
    ensures
        tally(DataRec { rx_packets: 0, rx_bytes: 0 }, Seq::new(n, |i: int| l)).0 == n,
        tally(DataRec { rx_packets: 0, rx_bytes: 0 }, Seq::new(n, |i: int| l)).1 == n * l,
{
    let zero = DataRec { rx_packets: 0, rx_bytes: 0 };
    lemma_tally_totals(zero, Seq::new(n, |i: int| l));
    lemma_seq_sum_constant(n, l);
}

/// Removing one element from a sequence of byte lengths takes exactly
/// that element out of the sum.
pub proof fn lemma_seq_sum_remove(s: Seq<u64>, i: int)
    requires
        0 <= i < s.len(),
    ensures
        seq_sum(s) == seq_sum(s.remove(i)) + s[i],
    decreases s.len(),
{
    if i == s.len() - 1 {
        assert(s.remove(i) =~= s.drop_last());
    } else {
        let t = s.drop_last();
        lemma_seq_sum_remove(t, i);
        assert(s.remove(i).drop_last() =~= t.remove(i));
        assert(s.remove(i).last() == s.last());
    }
}

/// The sum of a sequence of byte lengths depends only on which lengths
/// occur, with their multiplicities, not on their order.
pub proof fn lemma_seq_sum_permutation(s1: Seq<u64>, s2: Seq<u64>)
    requires
        s1.to_multiset() == s2.to_multiset(),
    ensures
        seq_sum(s1) == seq_sum(s2),
    decreases s1.len(),
{
    s1.to_multiset_ensures();
    s2.to_multiset_ensures();
    if s1.len() == 0 {
        assert(s2.len() == 0);
    } else {
        let i1 = s1.len() - 1;
        let x = s1.last();
        assert(s1.contains(x));
        assert(s1.to_multiset().count(x) > 0);
        assert(s2.to_multiset().count(x) > 0);
        assert(s2.contains(x));
        let j = choose|j: int| 0 <= j < s2.len() && s2[j] == x;
        assert(s1.remove(i1).to_multiset() =~= s1.to_multiset().remove(x));
        assert(s2.remove(j).to_multiset() =~= s2.to_multiset().remove(x));
        lemma_seq_sum_permutation(s1.remove(i1), s2.remove(j));
        lemma_seq_sum_remove(s1, i1);
        lemma_seq_sum_remove(s2, j);
    }
}

/// Two interleavings that performed the same increment steps -- the same
/// byte lengths, with the same multiplicities, in any order -- leave
/// identical totals behind.
pub proof fn lemma_tally_order_independent(r: DataRec, lens1: Seq<u64>, lens2: Seq<u64>)
    requires
        lens1.to_multiset() == lens2.to_multiset(),
    ensures
        tally(r, lens1) == tally(r, lens2),
{
    lens1.to_multiset_ensures();
    lens2.to_multiset_ensures();
    lemma_tally_totals(r, lens1);
    lemma_tally_totals(r, lens2);
    lemma_seq_sum_permutation(lens1, lens2);
}

/// One run of `increment` advances the tally by exactly one step: under
/// the no-overflow bounds that `increment` requires, the record it leaves
/// behind carries the one-step tally of its predecessor.
pub proof fn lemma_incremented_is_tally_step(r: DataRec, l: u64)
    requires
        r.rx_packets < u64::MAX,
        r.rx_bytes + l <= u64::MAX,
    ensures
        r.incremented(l).rx_packets == tally(r, seq![l]).0,
        r.incremented(l).rx_bytes == tally(r, seq![l]).1,
{
    let s = seq![l];
    assert(s.drop_last() =~= Seq::<u64>::empty());
    assert(s.last() == l);
    assert(tally(r, Seq::<u64>::empty()) == (r.rx_packets as int, r.rx_bytes as int));
    assert(tally(r, s) == (tally(r, s.drop_last()).0 + 1, tally(r, s.drop_last()).1 + l));
}

/// Reading a key yields a value determined by the table alone, so two
/// reads of the same key with no intervening increment return identical
/// values.
pub proof fn lemma_read_idempotent(
    s: CounterStore,
    key: u32,
    r1: Option<DataRec>,
    r2: Option<DataRec>,
)
    requires
        r1 == s.spec_read(key),
        r2 == s.spec_read(key),
    ensures
        r1 == r2,
{
}

/// First-touch convergence: once one of two racing `get_or_create` calls
/// for an absent key has created the record (per that call's contract, the
/// table grew by one zero record at slot `h1`), the key occupies exactly
/// one slot, and the other call finds that same slot: by the contract of
/// `get_or_create` on a table containing the key, it returns
/// `spec_index_of(key)` -- shown here to equal `h1` -- and leaves the
/// table unchanged.
pub proof fn lemma_first_touch_single_record(
    s0: CounterStore,
    s1: CounterStore,
    h1: usize,
    key: u32,
)
    requires
        s0.wf(),
        !s0.spec_contains(key),
        s0@.len() < s0.capacity,
        s1.capacity == s0.capacity,
        h1 == s0@.len(),
        s1@ == s0@.push(CounterEntry { key, rec: DataRec { rx_packets: 0, rx_bytes: 0 } }),
    ensures
        s1.wf(),
        s1.spec_contains(key),
        s1.spec_index_of(key) == h1,
        s1.spec_read(key) == Some(DataRec { rx_packets: 0, rx_bytes: 0 }),
        forall|i: int| 0 <= i < s1@.len() && (#[trigger] s1@[i]).key == key ==> i == h1,
{
    s0.lemma_push_fresh_key_wf(key, DataRec { rx_packets: 0, rx_bytes: 0 });
    assert(s1@[h1 as int].key == key);
    assert forall|i: int| 0 <= i < s1@.len() && (#[trigger] s1@[i]).key == key implies i
        == h1 by {
        s1.lemma_key_slot_unique(i, h1 as int);
    }
    assert(s1.spec_index_of(key) == h1) by {
        s1.lemma_key_slot_unique(s1.spec_index_of(key), h1 as int);
    }
}

} // verus!
