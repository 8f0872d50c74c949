use vstd::prelude::*;

use crate::pubkey::Pubkey;

verus! {

/// One purchase: `entrant` owns the half-open entry-index range
/// `[start_index, start_index + count)` of its raffle.
#[derive(Clone, Copy, Debug)]
pub struct EntryRecord {
    pub entrant: Pubkey,
    pub start_index: u64,
    pub count: u64,
}

impl EntryRecord {
    pub open spec fn end(self) -> int {
        self.start_index + self.count
    }

    pub open spec fn covers(self, index: int) -> bool {
        self.start_index <= index < self.end()
    }
}

/// Total of the `count` fields of a sequence of purchases.
pub open spec fn sum_counts(s: Seq<EntryRecord>) -> nat
    decreases s.len(),
{
    if s.len() == 0 {
        0
    } else {
        sum_counts(s.drop_last()) + s.last().count as nat
    }
}

/// The ranges of `s` tile `[0, total)` in order, each one non-empty.
pub open spec fn tiles(s: Seq<EntryRecord>, total: int) -> bool {
    &&& forall|i: int| 0 <= i < s.len() ==> (#[trigger] s[i]).count > 0
    &&& forall|i: int| 0 <= i < s.len() ==> (#[trigger] s[i]).end() <= total
    &&& forall|i: int, j: int| 0 <= i < j < s.len() ==> (#[trigger] s[i]).end() <= (#[trigger] s[j]).start_index
    &&& forall|i: int| 1 <= i < s.len() ==> (#[trigger] s[i]).start_index == s[i - 1].end()
    &&& s.len() == 0 ==> total == 0
    &&& s.len() > 0 ==> s[0].start_index == 0 && s.last().end() == total
}

/// The append-only record of a raffle's purchases, in order of purchase.
/// `next_index` is the number of entries sold, which is where the next
/// purchase's range starts.
pub struct EntryLedger {
    pub entries: Vec<EntryRecord>,
    pub next_index: u64,
}

impl EntryLedger {
    pub open spec fn wf(self) -> bool {
        tiles(self.entries@, self.next_index as int)
    }

    /// The entrant whose range holds `index`.
    pub open spec fn holder_of(self, index: int) -> Pubkey {
        self.entries@[choose|i: int| 0 <= i < self.entries@.len() && self.entries@[i].covers(index)].entrant
    }

    pub fn new() -> (r: EntryLedger)
        ensures
            r.wf(),
            r.entries@.len() == 0,
            r.next_index == 0,
    {
        EntryLedger { entries: Vec::new(), next_index: 0 }
    }

    /// Tells whether the purchases tile `[0, next_index)` in order, as
    /// `wf` states; for ledgers read back from storage.
    pub fn is_well_formed(&self) -> (r: bool)
        ensures
            r == self.wf(),
    {
        let ghost s = self.entries@;
        let n = self.entries.len();
        let mut running: u64 = 0;
        let mut i: usize = 0;
        while i < n
            invariant
                i <= n,
                n == s.len(),
                s == self.entries@,
                tiles(s.take(i as int), running as int),
            decreases n - i,
        {
            let e = self.entries[i];
            if e.start_index != running || e.count == 0 || e.count > u64::MAX - running {
                proof {
                    if self.wf() {
                        if i > 0 {
                            assert(s.take(i as int)[i - 1] == s[i - 1]);
                            assert(s[i as int].start_index == s[i - 1].end());
                        }
                        assert(s[i as int].count > 0);
                        assert(s[i as int].end() <= self.next_index);
                    }
                }
                return false;
            }
            proof {
                let p = s.take(i as int);
                let q = s.take(i + 1);
                assert(q =~= p.push(e));
                assert forall|a: int, b: int| 0 <= a < b < q.len() implies (#[trigger] q[a]).end()
                    <= (#[trigger] q[b]).start_index by {
                    if b < i {
                        assert(p[a] == q[a] && p[b] == q[b]);
                    } else {
                        assert(p[a] == q[a]);
                    }
                }
                assert forall|a: int| 1 <= a < q.len() implies (#[trigger] q[a]).start_index == q[a
                    - 1].end() by {
                    if a < i {
                        assert(p[a] == q[a] && p[a - 1] == q[a - 1]);
                    } else {
                        assert(p[a - 1] == q[a - 1]);
                    }
                }
                assert forall|a: int| 0 <= a < q.len() implies (#[trigger] q[a]).end() <= running
                    + e.count && q[a].count > 0 by {
                    if a < i {
                        assert(p[a] == q[a]);
                    }
                }
            }
            running = running + e.count;
            i = i + 1;
        }
        proof {
            assert(s.take(n as int) =~= s);
        }
        running == self.next_index
    }

    /// Records a purchase of `count` entries by `entrant`; returns the first
    /// index of its range.
    pub fn append(&mut self, entrant: Pubkey, count: u64) -> (start: u64)
        requires
            old(self).wf(),
            count > 0,
            old(self).next_index + count <= u64::MAX,
        ensures
            final(self).wf(),
            start == old(self).next_index,
            final(self).next_index == old(self).next_index + count,
            final(self).entries@ == old(self).entries@.push(
                EntryRecord { entrant, start_index: start, count },
            ),
    {
        let start = self.next_index;
        self.entries.push(EntryRecord { entrant, start_index: start, count });
        self.next_index = start + count;
        start
    }

    /// Position of the purchase whose range holds `index`, found by binary
    /// search over the ordered ranges.
    pub fn resolve(&self, index: u64) -> (r: usize)
        requires
            self.wf(),
            index < self.next_index,
        ensures
            r < self.entries@.len(),
            self.entries@[r as int].covers(index as int),
    {
        let n = self.entries.len();
        let mut lo: usize = 0;
        let mut hi: usize = n;
        while hi - lo > 1
            invariant
                self.wf(),
                index < self.next_index,
                n == self.entries@.len(),
                lo < hi <= n,
                self.entries@[lo as int].start_index <= index,
                hi < n ==> index < self.entries@[hi as int].start_index,
            decreases hi - lo,
        {
            let mid = lo + (hi - lo) / 2;
            if self.entries[mid].start_index <= index {
                lo = mid;
            } else {
                hi = mid;
            }
        }
        if hi < n {
            assert(self.entries@[lo + 1].start_index == self.entries@[lo as int].end());
        }
        lo
    }

    /// Resolves `index` to the entrant that owns it.
    pub fn holder(&self, index: u64) -> (r: Pubkey)
        requires
            self.wf(),
            index < self.next_index,
        ensures
            r == self.holder_of(index as int),
    {
        let i = self.resolve(index);
        proof {
            let k = choose|k: int| 0 <= k < self.entries@.len() && self.entries@[k].covers(index as int);
            lemma_single_cover(self.entries@, self.next_index as int, index as int, i as int, k);
        }
        self.entries[i].entrant
    }
}

/// At most one range of a tiling holds a given index.
pub proof fn lemma_single_cover(s: Seq<EntryRecord>, total: int, index: int, i: int, j: int)
    requires
        tiles(s, total),
        0 <= i < s.len(),
        0 <= j < s.len(),
        s[i].covers(index),
        s[j].covers(index),
    ensures
        i == j,
{
    if i < j {
        assert(s[i].end() <= s[j].start_index);
    } else if j < i {
        assert(s[j].end() <= s[i].start_index);
    }
}

/// The number of entries sold is the total of the purchased counts.
pub proof fn ledger_total_is_sum_of_counts(ledger: EntryLedger)
    requires
        ledger.wf(),
    ensures
        ledger.next_index == sum_counts(ledger.entries@),
{
    let s = ledger.entries@;
    lemma_prefix_sum(s, ledger.next_index as int, s.len() as int);
    assert(s.take(s.len() as int) =~= s);
}

proof fn lemma_prefix_sum(s: Seq<EntryRecord>, total: int, k: int)
    requires
        tiles(s, total),
        0 <= k <= s.len(),
    ensures
        k == 0 ==> sum_counts(s.take(k)) == 0,
        k > 0 ==> sum_counts(s.take(k)) == s[k - 1].end(),
    decreases k,
{
    if k > 0 {
        lemma_prefix_sum(s, total, k - 1);
        assert(s.take(k).drop_last() =~= s.take(k - 1));
        if k > 1 {
            assert(s[k - 1].start_index == s[k - 2].end());
        }
    }
}

/// Winner resolution is deterministic: for a fixed seed and fixed ledger
/// contents exactly one purchase holds the index `seed mod entries sold`, and
/// `holder_of` names its entrant.
pub proof fn winner_resolution_is_deterministic(ledger: EntryLedger, seed: u64)
    requires
        ledger.wf(),
        ledger.next_index > 0,
    ensures
        exists|i: int|
            0 <= i < ledger.entries@.len() && ledger.entries@[i].covers(
                seed as int % ledger.next_index as int,
            ),
        forall|i: int|
            0 <= i < ledger.entries@.len() && #[trigger] ledger.entries@[i].covers(
                seed as int % ledger.next_index as int,
            ) ==> ledger.entries@[i].entrant == ledger.holder_of(
                seed as int % ledger.next_index as int,
            ),
{
    let s = ledger.entries@;
    let index = seed as int % ledger.next_index as int;
    lemma_some_cover(s, ledger.next_index as int, index);
    let k = choose|k: int| 0 <= k < s.len() && s[k].covers(index);
    assert forall|i: int| 0 <= i < s.len() && #[trigger] s[i].covers(index) implies s[i].entrant
        == ledger.holder_of(index) by {
        lemma_single_cover(s, ledger.next_index as int, index, i, k);
    }
}

/// Every index below the total lies in some range of a tiling.
proof fn lemma_some_cover(s: Seq<EntryRecord>, total: int, index: int)
    requires
        tiles(s, total),
        0 <= index < total,
    ensures
        exists|i: int| 0 <= i < s.len() && s[i].covers(index),
    decreases s.len(),
{
    let n = s.len() as int;
    if s[n - 1].start_index <= index {
        assert(s[n - 1].covers(index));
    } else {
        let t = s.drop_last();
        let sub_total = s[n - 2].end();
        assert(s[n - 1].start_index == s[n - 2].end());
        assert forall|i: int| 0 <= i < t.len() implies (#[trigger] t[i]).end() <= sub_total by {
            if i < n - 2 {
                assert(s[i].end() <= s[n - 2].start_index);
            }
        }
        assert(tiles(t, sub_total));
        lemma_some_cover(t, sub_total, index);
        let k = choose|k: int| 0 <= k < t.len() && t[k].covers(index);
        assert(s[k].covers(index));
    }
}

} // verus!
