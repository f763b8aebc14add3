//! The cache of entries that were fetched and are yet to be scanned.
//!
//! The cache is ordered by position on the ledger: whatever the order in
//! which entries arrive, they leave it lowest position first.

use vstd::prelude::*;
use crate::storage::{BlockHeight, Epoch, IndexedTx};
use crate::tx::{Key, Transaction};

verus! {

/// A fetched shielded payload with its position, the epoch of its block and
/// the keys that its transaction changed.
pub type IndexedNoteEntry = (IndexedTx, (Epoch, Vec<Key>, Transaction));

/// The entries stand in strictly ascending order of position.
pub open spec fn sorted(s: Seq<IndexedNoteEntry>) -> bool {
    forall|i: int, j: int| 0 <= i < j < s.len() ==> (#[trigger] s[i]).0.spec_lt((#[trigger] s[j]).0)
}

/// The cache `s` after `entry` arrived: it stands before the first entry with
/// a later position, and takes the place of an entry at its own position.
pub open spec fn spec_insert(s: Seq<IndexedNoteEntry>, entry: IndexedNoteEntry) -> Seq<
    IndexedNoteEntry,
>
    decreases s.len(),
{
    if s.len() == 0 {
        seq![entry]
    } else if entry.0.spec_lt(s[0].0) {
        seq![entry] + s
    } else if entry.0 == s[0].0 {
        seq![entry] + s.drop_first()
    } else {
        seq![s[0]] + spec_insert(s.drop_first(), entry)
    }
}

/// The cache `s` after the entries of `arrivals` arrived one by one.
pub open spec fn spec_insert_all(s: Seq<IndexedNoteEntry>, arrivals: Seq<IndexedNoteEntry>) -> Seq<
    IndexedNoteEntry,
>
    decreases arrivals.len(),
{
    if arrivals.len() == 0 {
        s
    } else {
        spec_insert(spec_insert_all(s, arrivals.drop_last()), arrivals.last())
    }
}

/// Whether some entry of `s` stands at `position`.
pub open spec fn has_position(s: Seq<IndexedNoteEntry>, position: IndexedTx) -> bool {
    exists|i: int| 0 <= i < s.len() && (#[trigger] s[i]).0 == position
}

/// Whether some entry of `s` is of the block at `height`.
pub open spec fn has_height(s: Seq<IndexedNoteEntry>, height: u64) -> bool {
    exists|i: int| 0 <= i < s.len() && (#[trigger] s[i]).0.height.0 == height
}

/// An arrival goes in behind the entries that come before it.
pub proof fn lemma_insert_after_prefix(s: Seq<IndexedNoteEntry>, entry: IndexedNoteEntry, n: int)
    requires
        0 <= n <= s.len(),
        forall|j: int| 0 <= j < n ==> (#[trigger] s[j]).0.spec_lt(entry.0),
    ensures
        spec_insert(s, entry) == s.take(n) + spec_insert(s.skip(n), entry),
    decreases n,
{
    if n == 0 {
        assert(s.skip(0) =~= s);
        assert(s.take(0) + spec_insert(s, entry) =~= spec_insert(s, entry));
    } else {
        assert(s[0].0.spec_lt(entry.0));
        let rest = s.drop_first();
        assert forall|j: int| 0 <= j < n - 1 implies (#[trigger] rest[j]).0.spec_lt(entry.0) by {
            assert(rest[j] == s[j + 1]);
        }
        lemma_insert_after_prefix(rest, entry, n - 1);
        assert(rest.skip(n - 1) =~= s.skip(n));
        assert(seq![s[0]] + (rest.take(n - 1) + spec_insert(s.skip(n), entry)) =~= s.take(n)
            + spec_insert(s.skip(n), entry));
    }
}

/// What an arrival does to a cache in order: the cache stays in order, holds
/// the arrival, and keeps each entry at another position and no others.
pub proof fn lemma_insert_sorted(s: Seq<IndexedNoteEntry>, entry: IndexedNoteEntry)
    requires
        sorted(s),
    ensures
        sorted(spec_insert(s, entry)),
        spec_insert(s, entry).contains(entry),
        forall|e: IndexedNoteEntry|
            #[trigger] spec_insert(s, entry).contains(e) <==> (e == entry || (s.contains(e) && e.0
                != entry.0)),
        spec_insert(s, entry).len() == if has_position(s, entry.0) {
            s.len()
        } else {
            s.len() + 1
        },
    decreases s.len(),
{
    let r = spec_insert(s, entry);
    if s.len() == 0 {
        assert(r[0] == entry);
        assert forall|e: IndexedNoteEntry| #[trigger] r.contains(e) <==> (e == entry || (s.contains(
            e,
        ) && e.0 != entry.0)) by {
            if r.contains(e) {
                let i = choose|i: int| 0 <= i < r.len() && r[i] == e;
            }
        }
    } else if entry.0.spec_lt(s[0].0) {
        assert(r[0] == entry);
        assert forall|i: int, j: int| 0 <= i < j < r.len() implies (#[trigger] r[i]).0.spec_lt(
            (#[trigger] r[j]).0,
        ) by {
            if i == 0 {
                assert(r[j] == s[j - 1]);
                if j > 1 {
                    assert(s[0].0.spec_lt(s[j - 1].0));
                }
            } else {
                assert(r[i] == s[i - 1] && r[j] == s[j - 1]);
            }
        }
        assert forall|e: IndexedNoteEntry| #[trigger] r.contains(e) <==> (e == entry || (s.contains(
            e,
        ) && e.0 != entry.0)) by {
            if r.contains(e) {
                let i = choose|i: int| 0 <= i < r.len() && r[i] == e;
                if i > 0 {
                    assert(s[i - 1] == e);
                    if i > 1 {
                        assert(s[0].0.spec_lt(s[i - 1].0));
                    }
                }
            }
            if s.contains(e) {
                let i = choose|i: int| 0 <= i < s.len() && s[i] == e;
                assert(r[i + 1] == e);
            }
        }
        assert(!has_position(s, entry.0)) by {
            if has_position(s, entry.0) {
                let i = choose|i: int| 0 <= i < s.len() && (#[trigger] s[i]).0 == entry.0;
                if i > 0 {
                    assert(s[0].0.spec_lt(s[i].0));
                }
            }
        }
    } else if entry.0 == s[0].0 {
        assert(r[0] == entry);
        assert forall|i: int, j: int| 0 <= i < j < r.len() implies (#[trigger] r[i]).0.spec_lt(
            (#[trigger] r[j]).0,
        ) by {
            assert(r[j] == s[j]);
            if i == 0 {
                assert(s[0].0.spec_lt(s[j].0));
            } else {
                assert(r[i] == s[i]);
            }
        }
        assert forall|e: IndexedNoteEntry| #[trigger] r.contains(e) <==> (e == entry || (s.contains(
            e,
        ) && e.0 != entry.0)) by {
            if r.contains(e) {
                let i = choose|i: int| 0 <= i < r.len() && r[i] == e;
                if i > 0 {
                    assert(s[i] == e);
                    assert(s[0].0.spec_lt(s[i].0));
                }
            }
            if s.contains(e) && e.0 != entry.0 {
                let i = choose|i: int| 0 <= i < s.len() && s[i] == e;
                assert(r[i] == e);
            }
        }
        assert(has_position(s, entry.0)) by {
            assert(s[0].0 == entry.0);
        }
    } else {
        let rest = s.drop_first();
        let inner = spec_insert(rest, entry);
        assert(s[0].0.spec_lt(entry.0));
        assert(sorted(rest)) by {
            assert forall|i: int, j: int| 0 <= i < j < rest.len() implies (#[trigger] rest[i]).0.spec_lt(
                (#[trigger] rest[j]).0,
            ) by {
                assert(rest[i] == s[i + 1] && rest[j] == s[j + 1]);
            }
        }
        lemma_insert_sorted(rest, entry);
        assert(r[0] == s[0]);
        assert forall|k: int| 0 <= k < inner.len() implies s[0].0.spec_lt((#[trigger] inner[k]).0) by {
            assert(inner.contains(inner[k]));
            if inner[k] != entry {
                assert(rest.contains(inner[k]));
                let m = choose|m: int| 0 <= m < rest.len() && rest[m] == inner[k];
                assert(s[m + 1] == inner[k]);
                assert(s[0].0.spec_lt(s[m + 1].0));
            }
        }
        assert forall|i: int, j: int| 0 <= i < j < r.len() implies (#[trigger] r[i]).0.spec_lt(
            (#[trigger] r[j]).0,
        ) by {
            assert(r[j] == inner[j - 1]);
            if i > 0 {
                assert(r[i] == inner[i - 1]);
            }
        }
        assert forall|e: IndexedNoteEntry| #[trigger] r.contains(e) <==> (e == entry || (s.contains(
            e,
        ) && e.0 != entry.0)) by {
            if r.contains(e) {
                let i = choose|i: int| 0 <= i < r.len() && r[i] == e;
                if i == 0 {
                    assert(s[0] == e);
                } else {
                    assert(inner[i - 1] == e);
                    assert(inner.contains(e));
                    if e != entry {
                        let m = choose|m: int| 0 <= m < rest.len() && rest[m] == e;
                        assert(s[m + 1] == e);
                    }
                }
            }
            if e == entry {
                let m = choose|m: int| 0 <= m < inner.len() && inner[m] == entry;
                assert(r[m + 1] == e);
            }
            if s.contains(e) && e.0 != entry.0 {
                let i = choose|i: int| 0 <= i < s.len() && s[i] == e;
                if i == 0 {
                    assert(r[0] == e);
                } else {
                    assert(rest[i - 1] == e);
                    assert(rest.contains(e));
                    assert(inner.contains(e));
                    let m = choose|m: int| 0 <= m < inner.len() && inner[m] == e;
                    assert(r[m + 1] == e);
                }
            }
        }
        assert(has_position(s, entry.0) == has_position(rest, entry.0)) by {
            if has_position(s, entry.0) {
                let i = choose|i: int| 0 <= i < s.len() && (#[trigger] s[i]).0 == entry.0;
                assert(rest[i - 1].0 == entry.0);
            }
            if has_position(rest, entry.0) {
                let i = choose|i: int| 0 <= i < rest.len() && (#[trigger] rest[i]).0 == entry.0;
                assert(s[i + 1].0 == entry.0);
            }
        }
    }
}

/// Entries that arrive in any order stand in the cache in ascending order of
/// position, and so leave it by heights that never decrease.
pub proof fn lemma_arrivals_leave_in_order(arrivals: Seq<IndexedNoteEntry>)
    ensures
        sorted(spec_insert_all(Seq::empty(), arrivals)),
        forall|i: int, j: int|
            0 <= i < j < spec_insert_all(Seq::empty(), arrivals).len() ==> (
            #[trigger] spec_insert_all(Seq::empty(), arrivals)[i]).0.height.0 <= (
            #[trigger] spec_insert_all(Seq::empty(), arrivals)[j]).0.height.0,
        forall|k: int|
            0 <= k < arrivals.len() ==> has_position(
                spec_insert_all(Seq::empty(), arrivals),
                (#[trigger] arrivals[k]).0,
            ),
        forall|e: IndexedNoteEntry| #[trigger]
            spec_insert_all(Seq::empty(), arrivals).contains(e) ==> arrivals.contains(e),
    decreases arrivals.len(),
{
    let all = spec_insert_all(Seq::empty(), arrivals);
    if arrivals.len() > 0 {
        let before = spec_insert_all(Seq::empty(), arrivals.drop_last());
        lemma_arrivals_leave_in_order(arrivals.drop_last());
        lemma_insert_sorted(before, arrivals.last());
        assert forall|k: int| 0 <= k < arrivals.len() implies has_position(
            all,
            (#[trigger] arrivals[k]).0,
        ) by {
            if k == arrivals.len() - 1 {
                let m = choose|m: int| 0 <= m < all.len() && all[m] == arrivals.last();
                assert(all[m].0 == arrivals[k].0);
            } else {
                assert(arrivals.drop_last()[k] == arrivals[k]);
                let m = choose|m: int|
                    0 <= m < before.len() && (#[trigger] before[m]).0 == arrivals[k].0;
                if before[m].0 == arrivals.last().0 {
                    let n = choose|n: int| 0 <= n < all.len() && all[n] == arrivals.last();
                    assert(all[n].0 == arrivals[k].0);
                } else {
                    assert(before.contains(before[m]));
                    assert(all.contains(before[m]));
                    let n = choose|n: int| 0 <= n < all.len() && all[n] == before[m];
                    assert(all[n].0 == arrivals[k].0);
                }
            }
        }
        assert forall|e: IndexedNoteEntry| #[trigger] all.contains(e) implies arrivals.contains(
            e,
        ) by {
            if e == arrivals.last() {
                assert(arrivals[arrivals.len() - 1] == e);
            } else {
                assert(before.contains(e));
                assert(arrivals.drop_last().contains(e));
                let m = choose|m: int|
                    0 <= m < arrivals.drop_last().len() && arrivals.drop_last()[m] == e;
                assert(arrivals[m] == e);
            }
        }
    }
    assert forall|i: int, j: int| 0 <= i < j < all.len() implies (#[trigger] all[i]).0.height.0 <= (
    #[trigger] all[j]).0.height.0 by {
        assert(all[i].0.spec_lt(all[j].0));
    }
}

/// The cache of entries that were fetched and are yet to be scanned.
#[derive(Clone, Debug, PartialEq, Eq)]
pub struct Unscanned {
    txs: Vec<IndexedNoteEntry>,
}

impl View for Unscanned {
    type V = Seq<IndexedNoteEntry>;

    /// The entries in the order in which they leave the cache.
    closed spec fn view(&self) -> Seq<IndexedNoteEntry> {
        self.txs@
    }
}

impl Unscanned {
    /// The entries stand in ascending order of position. Every cache that
    /// this module hands out is so, and every method keeps it so.
    pub open spec fn wf(&self) -> bool {
        sorted(self@)
    }

    /// An empty cache.
    pub fn new() -> (r: Unscanned)
        ensures
            r.wf(),
            r@ == Seq::<IndexedNoteEntry>::empty(),
    {
        Unscanned { txs: Vec::new() }
    }

    /// The number of entries.
    pub fn len(&self) -> (n: usize)
        ensures
            n == self@.len(),
    {
        self.txs.len()
    }

    /// Whether the cache holds no entry.
    pub fn is_empty(&self) -> (r: bool)
        ensures
            r == (self@.len() == 0),
    {
        self.txs.len() == 0
    }

    /// Puts an entry into the cache, in the place of the entry at the same
    /// position if there is one.
    pub fn insert(&mut self, entry: IndexedNoteEntry)
        requires
            old(self).wf(),
        ensures
            final(self).wf(),
            final(self)@ == spec_insert(old(self)@, entry),
            forall|e: IndexedNoteEntry|
                #[trigger] final(self)@.contains(e) <==> (e == entry || (old(self)@.contains(e)
                    && e.0 != entry.0)),
    {
        let n = self.txs.len();
        let mut i: usize = 0;
        while i < n && self.txs[i].0.lt(entry.0)
            invariant
                i <= n,
                n == self.txs@.len(),
                self.txs@ == old(self).txs@,
                forall|j: int| 0 <= j < i ==> (#[trigger] self.txs@[j]).0.spec_lt(entry.0),
            decreases n - i,
        {
            i += 1;
        }
        let ghost before = self.txs@;
        proof {
            lemma_insert_after_prefix(before, entry, i as int);
            lemma_insert_sorted(before, entry);
            let rest = before.skip(i as int);
            if i < n {
                assert(rest[0] == before[i as int]);
            }
        }
        if i < n && !entry.0.lt(self.txs[i].0) {
            proof {
                let rest = before.skip(i as int);
                assert(entry.0 == rest[0].0);
                assert(before.take(i as int) + (seq![entry] + rest.drop_first()) =~= before.update(
                    i as int,
                    entry,
                ));
            }
            self.txs.set(i, entry);
        } else {
            proof {
                let rest = before.skip(i as int);
                assert(spec_insert(rest, entry) =~= seq![entry] + rest);
                assert(before.take(i as int) + (seq![entry] + rest) =~= before.insert(
                    i as int,
                    entry,
                ));
            }
            self.txs.insert(i, entry);
        }
    }

    /// Puts entries into the cache one by one.
    pub fn extend(&mut self, items: Vec<IndexedNoteEntry>)
        requires
            old(self).wf(),
        ensures
            final(self).wf(),
            final(self)@ == spec_insert_all(old(self)@, items@),
    {
        let ghost all = items@;
        assert(all.take(0) =~= Seq::<IndexedNoteEntry>::empty());
        for item in it: items
            invariant
                it.seq() == all,
                self.wf(),
                self@ == spec_insert_all(old(self)@, all.take(it.index() as int)),
        {
            proof {
                let i = it.index() as int;
                assert(all.take(i + 1).drop_last() =~= all.take(i));
                assert(all.take(i + 1).last() == item);
            }
            self.insert(item);
        }
        assert(all.take(all.len() as int) =~= all);
    }

    /// Whether some entry is of the block at `height`.
    pub fn contains_height(&self, height: u64) -> (r: bool)
        ensures
            r == has_height(self@, height),
    {
        let mut i: usize = 0;
        while i < self.txs.len()
            invariant
                i <= self.txs@.len(),
                forall|j: int| 0 <= j < i ==> (#[trigger] self.txs@[j]).0.height.0 != height,
            decreases self.txs@.len() - i,
        {
            if self.txs[i].0.height.0 == height {
                return true;
            }
            i += 1;
        }
        false
    }

    /// Drops the entries of the blocks below that of `ix`, which are scanned
    /// in full. A block that is scanned in part keeps all its entries.
    pub fn scanned(&mut self, ix: &IndexedTx)
        requires
            old(self).wf(),
        ensures
            final(self).wf(),
            final(self)@.len() <= old(self)@.len(),
            final(self)@ == old(self)@.skip(old(self)@.len() - final(self)@.len()),
            forall|j: int|
                0 <= j < old(self)@.len() - final(self)@.len() ==> (#[trigger] old(self)@[j]).0.height.0
                    < ix.height.0,
            forall|j: int|
                0 <= j < final(self)@.len() ==> (#[trigger] final(self)@[j]).0.height.0
                    >= ix.height.0,
    {
        let n = self.txs.len();
        let mut i: usize = 0;
        while i < n && self.txs[i].0.height.0 < ix.height.0
            invariant
                i <= n,
                n == self.txs@.len(),
                self.txs@ == old(self).txs@,
                forall|j: int| 0 <= j < i ==> (#[trigger] self.txs@[j]).0.height.0 < ix.height.0,
            decreases n - i,
        {
            i += 1;
        }
        let ghost before = self.txs@;
        let rest = self.txs.split_off(i);
        assert(rest@ =~= before.skip(i as int));
        assert(sorted(rest@)) by {
            assert forall|a: int, b: int| 0 <= a < b < rest@.len() implies (#[trigger] rest@[a]).0.spec_lt(
                (#[trigger] rest@[b]).0,
            ) by {
                assert(rest@[a] == before[a + i] && rest@[b] == before[b + i]);
            }
        }
        assert forall|j: int| 0 <= j < rest@.len() implies (#[trigger] rest@[j]).0.height.0
            >= ix.height.0 by {
            assert(rest@[j] == before[j + i]);
            if j > 0 {
                assert(before[i as int].0.spec_lt(before[j + i].0));
            }
        }
        self.txs = rest;
    }

    /// The height of the lowest entry, or 0 for an empty cache.
    pub fn first_height(&self) -> (r: BlockHeight)
        ensures
            r == if self@.len() > 0 {
                self@[0].0.height
            } else {
                BlockHeight(0)
            },
    {
        if self.txs.len() > 0 {
            self.txs[0].0.height
        } else {
            BlockHeight(0)
        }
    }

    /// Takes the entry at the lowest position out of the cache.
    pub fn pop_first(&mut self) -> (r: Option<IndexedNoteEntry>)
        requires
            old(self).wf(),
        ensures
            final(self).wf(),
            old(self)@.len() == 0 ==> r.is_none() && final(self)@ == old(self)@,
            old(self)@.len() > 0 ==> r == Some(old(self)@[0]) && final(self)@ == old(self)@.drop_first(),
            forall|j: int|
                0 <= j < final(self)@.len() ==> r.unwrap().0.spec_lt((#[trigger] final(self)@[j]).0),
    {
        if self.txs.len() == 0 {
            None
        } else {
            let ghost before = self.txs@;
            let first = self.txs.remove(0);
            assert(self.txs@ =~= before.drop_first());
            assert forall|a: int, b: int| 0 <= a < b < self.txs@.len() implies (
            #[trigger] self.txs@[a]).0.spec_lt((#[trigger] self.txs@[b]).0) by {
                assert(self.txs@[a] == before[a + 1] && self.txs@[b] == before[b + 1]);
            }
            assert forall|j: int| 0 <= j < self.txs@.len() implies first.0.spec_lt(
                (#[trigger] self.txs@[j]).0,
            ) by {
                assert(self.txs@[j] == before[j + 1]);
            }
            Some(first)
        }
    }
}

} // verus!
