//! The order of entries, sorting a column by it, and adding a row to every
//! class at once.

use vstd::prelude::*;
use vstd::relations::{sorted_by, total_ordering};
use vstd::seq_lib::{
    lemma_sorted_unique, to_multiset_build, to_multiset_contains, to_multiset_insert,
    to_multiset_len, to_multiset_remove,
};
use crate::model::{aligned, stamps_of, ClassView, Data, Entry, Timestamp, BLANK};

verus! {

/// Earlier or the same moment: seconds first, then nanoseconds.
pub open spec fn stamp_le(a: Timestamp, b: Timestamp) -> bool {
    a.secs < b.secs || (a.secs == b.secs && a.nanos <= b.nanos)
}

/// The order of entries: by moment, and among entries of one moment by value.
pub open spec fn entry_le(a: Entry, b: Entry) -> bool {
    if a.stamp == b.stamp {
        a.value <= b.value
    } else {
        stamp_le(a.stamp, b.stamp)
    }
}

/// No entry stands before one that it should follow.
pub open spec fn is_sorted(entries: Seq<Entry>) -> bool {
    forall|i: int, j: int| 0 <= i < j < entries.len() ==> entry_le(entries[i], entries[j])
}

/// `sorted` holds exactly the entries of `entries`, each as often, in order.
pub open spec fn is_sorting_of(sorted: Seq<Entry>, entries: Seq<Entry>) -> bool {
    is_sorted(sorted) && sorted.to_multiset() == entries.to_multiset()
}

/// `after` is the class `before` with one more row at `stamp`, unset, and its
/// rows put in order.
pub open spec fn gained_row(before: ClassView, stamp: Timestamp, after: ClassView) -> bool {
    &&& after.name == before.name
    &&& is_sorting_of(after.entries, before.entries.push(Entry { stamp, value: BLANK }))
}

/// Every class holds the same timestamps as the first, each as often, in
/// whatever order.
pub open spec fn same_moments(classes: Seq<ClassView>) -> bool {
    forall|i: int|
        0 <= i < classes.len() ==> stamps_of(#[trigger] classes[i].entries).to_multiset()
            == stamps_of(classes[0].entries).to_multiset()
}

/// `after` is `before` with a row at `stamp` added to every class.
pub open spec fn gained_rows(
    before: Seq<ClassView>,
    stamp: Timestamp,
    after: Seq<ClassView>,
) -> bool {
    &&& after.len() == before.len()
    &&& forall|i: int| 0 <= i < before.len() ==> gained_row(before[i], stamp, #[trigger] after[i])
}

/// A class that gained a row has one row more.
pub proof fn lemma_gained_row_len(before: ClassView, stamp: Timestamp, after: ClassView)
    requires
        gained_row(before, stamp, after),
    ensures
        after.entries.len() == before.entries.len() + 1,
{
    to_multiset_len(after.entries);
    to_multiset_len(before.entries.push(Entry { stamp, value: BLANK }));
}

/// A column has only one sorted arrangement: two sortings of the same entries
/// are the same sequence.
pub proof fn lemma_sorting_unique(a: Seq<Entry>, b: Seq<Entry>, entries: Seq<Entry>)
    requires
        is_sorting_of(a, entries),
        is_sorting_of(b, entries),
    ensures
        a == b,
{
    let leq = |x: Entry, y: Entry| entry_le(x, y);
    assert(total_ordering(leq));
    assert(sorted_by(a, leq));
    assert(sorted_by(b, leq));
    lemma_sorted_unique(a, b, leq);
}

/// Entries that are only rearranged have their timestamps only rearranged.
pub proof fn lemma_stamps_rearranged(a: Seq<Entry>, b: Seq<Entry>)
    requires
        a.to_multiset() == b.to_multiset(),
    ensures
        stamps_of(a).to_multiset() == stamps_of(b).to_multiset(),
    decreases a.len(),
{
    to_multiset_len(a);
    to_multiset_len(b);
    if a.len() == 0 {
        assert(stamps_of(a) =~= stamps_of(b));
    } else {
        let last = a.len() - 1;
        let x = a[last];
        assert(a.contains(x));
        to_multiset_contains(a, x);
        to_multiset_contains(b, x);
        let j = choose|j: int| 0 <= j < b.len() && b[j] == x;
        let a_rest = a.remove(last);
        let b_rest = b.remove(j);
        to_multiset_remove(a, last);
        to_multiset_remove(b, j);
        lemma_stamps_rearranged(a_rest, b_rest);
        assert(stamps_of(a) =~= stamps_of(a_rest).push(x.stamp));
        to_multiset_build(stamps_of(a_rest), x.stamp);
        assert(stamps_of(b) =~= stamps_of(b_rest).insert(j, x.stamp));
        to_multiset_insert(stamps_of(b_rest), j, x.stamp);
    }
}

/// Two columns that hold the same timestamps, each as often, and both in
/// order, hold them at the same rows.
pub proof fn lemma_sorted_stamps_agree(a: Seq<Entry>, b: Seq<Entry>)
    requires
        is_sorted(a),
        is_sorted(b),
        stamps_of(a).to_multiset() == stamps_of(b).to_multiset(),
    ensures
        stamps_of(a) == stamps_of(b),
{
    let leq = |x: Timestamp, y: Timestamp| stamp_le(x, y);
    assert(total_ordering(leq));
    assert(sorted_by(stamps_of(a), leq)) by {
        assert forall|i: int, j: int| 0 <= i < j < stamps_of(a).len() implies #[trigger] leq(
            stamps_of(a)[i],
            stamps_of(a)[j],
        ) by {
            assert(entry_le(a[i], a[j]));
        }
    }
    assert(sorted_by(stamps_of(b), leq)) by {
        assert forall|i: int, j: int| 0 <= i < j < stamps_of(b).len() implies #[trigger] leq(
            stamps_of(b)[i],
            stamps_of(b)[j],
        ) by {
            assert(entry_le(b[i], b[j]));
        }
    }
    lemma_sorted_unique(stamps_of(a), stamps_of(b), leq);
}

/// After a new row every class has the same timestamps at the same rows,
/// provided the classes held the same timestamps before, in whatever order.
pub proof fn lemma_new_row_aligns(before: Seq<ClassView>, stamp: Timestamp, after: Seq<ClassView>)
    requires
        same_moments(before),
        gained_rows(before, stamp, after),
    ensures
        aligned(after),
{
    assert forall|k: int| 0 <= k < after.len() implies stamps_of(#[trigger] after[k].entries)
        == stamps_of(after[0].entries) by {
        let blank = Entry { stamp, value: BLANK };
        assert(gained_row(before[k], stamp, after[k]));
        assert(gained_row(before[0], stamp, after[0]));
        lemma_stamps_rearranged(after[k].entries, before[k].entries.push(blank));
        lemma_stamps_rearranged(after[0].entries, before[0].entries.push(blank));
        assert(stamps_of(before[k].entries.push(blank)) =~= stamps_of(before[k].entries).push(
            stamp,
        ));
        assert(stamps_of(before[0].entries.push(blank)) =~= stamps_of(before[0].entries).push(
            stamp,
        ));
        to_multiset_build(stamps_of(before[k].entries), stamp);
        to_multiset_build(stamps_of(before[0].entries), stamp);
        lemma_sorted_stamps_agree(after[k].entries, after[0].entries);
    }
}

/// Classes that have the same timestamps at the same rows hold the same
/// timestamps, and as many rows each.
pub proof fn lemma_aligned_same_moments(classes: Seq<ClassView>)
    requires
        aligned(classes),
    ensures
        same_moments(classes),
        forall|i: int|
            0 <= i < classes.len() ==> (#[trigger] classes[i]).entries.len()
                == classes[0].entries.len(),
{
    assert forall|i: int| 0 <= i < classes.len() implies (#[trigger] classes[i]).entries.len()
        == classes[0].entries.len() by {
        assert(stamps_of(classes[i].entries).len() == stamps_of(classes[0].entries).len());
    }
}

/// Whether `a` may stand before `b` in a sorted column.
pub fn entry_precedes(a: &Entry, b: &Entry) -> (r: bool)
    ensures
        r == entry_le(*a, *b),
{
    if a.stamp.secs != b.stamp.secs {
        a.stamp.secs < b.stamp.secs
    } else if a.stamp.nanos != b.stamp.nanos {
        a.stamp.nanos < b.stamp.nanos
    } else {
        a.value <= b.value
    }
}

/// Puts a column in order. Nothing is added or lost.
pub fn sort_entries(entries: &mut Vec<Entry>)
    ensures
        is_sorting_of(final(entries)@, old(entries)@),
{
    let mut sorted: Vec<Entry> = Vec::new();
    let mut i: usize = 0;
    assert(entries@.take(0) =~= Seq::<Entry>::empty());
    while i < entries.len()
        invariant
            i <= entries.len(),
            entries@ == old(entries)@,
            is_sorted(sorted@),
            sorted@.to_multiset() == entries@.take(i as int).to_multiset(),
        decreases entries.len() - i,
    {
        let e = entries[i];
        let mut p: usize = 0;
        while p < sorted.len() && entry_precedes(&sorted[p], &e)
            invariant
                p <= sorted.len(),
                forall|k: int| 0 <= k < p ==> entry_le(#[trigger] sorted@[k], e),
            decreases sorted.len() - p,
        {
            p += 1;
        }
        let ghost before = sorted@;
        assert forall|k: int| p <= k < before.len() implies entry_le(e, #[trigger] before[k]) by {
            assert(!entry_le(before[p as int], e));
            if p < k {
                assert(entry_le(before[p as int], before[k]));
            }
        }
        sorted.insert(p, e);
        proof {
            assert(is_sorted(sorted@)) by {
                assert forall|a: int, b: int| 0 <= a < b < sorted@.len() implies entry_le(
                    sorted@[a],
                    sorted@[b],
                ) by {
                    if a < p && b > p {
                        assert(entry_le(before[a], before[b - 1]));
                    } else if a > p {
                        assert(entry_le(before[a - 1], before[b - 1]));
                    } else if b < p {
                        assert(entry_le(before[a], before[b]));
                    }
                }
            }
            to_multiset_insert(before, p as int, e);
            assert(entries@.take(i + 1) =~= entries@.take(i as int).push(e));
            to_multiset_build(entries@.take(i as int), e);
        }
        i += 1;
    }
    assert(entries@.take(i as int) =~= entries@);
    *entries = sorted;
}

impl Data {
    /// Adds an unset row at `timestamp` to every class and puts each class's
    /// rows in order. Classes that held the same timestamps before have them
    /// at the same rows afterwards.
    pub fn new_blank_row(&mut self, timestamp: Timestamp)
        ensures
            gained_rows(old(self)@, timestamp, final(self)@),
            forall|i: int|
                0 <= i < old(self)@.len() ==> (#[trigger] final(self)@[i]).entries.len()
                    == old(self)@[i].entries.len() + 1,
            same_moments(old(self)@) ==> aligned(final(self)@),
            aligned(old(self)@) ==> aligned(final(self)@),
    {
        let blank = Entry { stamp: timestamp, value: BLANK };
        let mut i: usize = 0;
        while i < self.classes.len()
            invariant
                i <= self.classes.len(),
                self.classes.len() == old(self).classes.len(),
                blank == (Entry { stamp: timestamp, value: BLANK }),
                forall|k: int|
                    0 <= k < i ==> gained_row(
                        old(self)@[k],
                        timestamp,
                        (#[trigger] self.classes@[k])@,
                    ),
                forall|k: int|
                    0 <= k < i ==> (#[trigger] self.classes@[k]).entries@.len()
                        == old(self)@[k].entries.len() + 1,
                forall|k: int|
                    i <= k < self.classes.len() ==> #[trigger] self.classes@[k] == old(
                        self,
                    ).classes@[k],
            decreases self.classes.len() - i,
        {
            let ghost before = self.classes@[i as int].entries@;
            self.classes[i].entries.push(blank);
            let ghost pushed = self.classes@[i as int].entries@;
            sort_entries(&mut self.classes[i].entries);
            proof {
                assert(pushed == before.push(blank));
                lemma_gained_row_len(old(self)@[i as int], timestamp, self.classes@[i as int]@);
            }
            i += 1;
        }
        proof {
            assert(gained_rows(old(self)@, timestamp, self@));
            if aligned(old(self)@) {
                lemma_aligned_same_moments(old(self)@);
            }
            if same_moments(old(self)@) {
                lemma_new_row_aligns(old(self)@, timestamp, self@);
            }
        }
    }
}

} // verus!
