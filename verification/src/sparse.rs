//! Sparse per-region lists.
//!
//! A sparse list holds at most one entry per region and is kept in strictly
//! increasing order of region. The functions here state what it means to
//! write an entry into such a list, to accumulate a delta in it, and to
//! replay a whole list of writes, and they implement those operations with a
//! binary search.

use vstd::prelude::*;

verus! {

/// An entry that belongs to one region.
pub trait Keyed: Copy {
    /// The region the entry belongs to.
    spec fn key(&self) -> u32;

    /// The region the entry belongs to.
    fn region_key(&self) -> (out: u32)
        ensures
            out == self.key(),
    ;
}

/// An entry that carries one signed value for its region.
pub trait Valued: Keyed {
    /// The value the entry carries.
    spec fn amount(&self) -> i32;

    /// The value the entry carries.
    fn payload(&self) -> (out: i32)
        ensures
            out == self.amount(),
    ;
}

/// Strictly increasing by region: sorted, and no region occurs twice.
pub open spec fn strictly_sorted<T: Keyed>(s: Seq<T>) -> bool {
    forall|i: int, j: int|
        #![trigger s[i], s[j]]
        0 <= i < j < s.len() ==> s[i].key() < s[j].key()
}

/// The entry that a list holds for `region`, if any. Where a region occurs
/// more than once the last occurrence counts.
pub open spec fn lookup<T: Keyed>(s: Seq<T>, region: u32) -> Option<T>
    decreases s.len(),
{
    if s.len() == 0 {
        None
    } else if s.last().key() == region {
        Some(s.last())
    } else {
        lookup(s.drop_last(), region)
    }
}

/// The list after `e` has been written into it: `e` replaces the entry of its
/// region if there is one, and is inserted in region order otherwise.
pub open spec fn upsert<T: Keyed>(s: Seq<T>, e: T) -> Seq<T>
    decreases s.len(),
{
    if s.len() == 0 {
        seq![e]
    } else if s.last().key() < e.key() {
        s.push(e)
    } else if s.last().key() == e.key() {
        s.drop_last().push(e)
    } else {
        upsert(s.drop_last(), e).push(s.last())
    }
}

/// The list after every entry of `writes` has been written into it, first to
/// last.
pub open spec fn replay<T: Keyed>(s: Seq<T>, writes: Seq<T>) -> Seq<T>
    decreases writes.len(),
{
    if writes.len() == 0 {
        s
    } else {
        upsert(replay(s, writes.drop_last()), writes.last())
    }
}

/// Writing an entry makes it the entry of its region and leaves the entries
/// of all other regions as they were.
pub proof fn lemma_upsert_lookup<T: Keyed>(s: Seq<T>, e: T, region: u32)
    ensures
        lookup(upsert(s, e), region) == if region == e.key() {
            Some(e)
        } else {
            lookup(s, region)
        },
    decreases s.len(),
{
    if s.len() == 0 {
        assert(seq![e].drop_last() =~= Seq::<T>::empty());
    } else if s.last().key() < e.key() {
        assert(s.push(e).drop_last() =~= s);
    } else if s.last().key() == e.key() {
        assert(s.drop_last().push(e).drop_last() =~= s.drop_last());
    } else {
        lemma_upsert_lookup(s.drop_last(), e, region);
        assert(upsert(s.drop_last(), e).push(s.last()).drop_last() =~= upsert(s.drop_last(), e));
    }
}

/// A list that holds no entry of a region has none to look up.
pub proof fn lemma_lookup_absent<T: Keyed>(s: Seq<T>, region: u32)
    requires
        forall|i: int| 0 <= i < s.len() ==> (#[trigger] s[i]).key() != region,
    ensures
        lookup(s, region) is None,
    decreases s.len(),
{
    if s.len() > 0 {
        let head = s.drop_last();
        assert forall|i: int| 0 <= i < head.len() implies (#[trigger] head[i]).key()
            != region by {
            assert(s[i].key() != region);
        }
        lemma_lookup_absent(head, region);
        assert(s[s.len() - 1].key() != region);
    }
}

/// In a strictly sorted list, the region of the last entry has no entry
/// before it, and the list without its last entry is strictly sorted.
pub proof fn lemma_sorted_last<T: Keyed>(s: Seq<T>)
    requires
        strictly_sorted(s),
        s.len() > 0,
    ensures
        lookup(s.drop_last(), s.last().key()) is None,
        strictly_sorted(s.drop_last()),
{
    let head = s.drop_last();
    assert forall|i: int| 0 <= i < head.len() implies (#[trigger] head[i]).key()
        != s.last().key() by {
        assert(s[i].key() < s[s.len() - 1].key());
    }
    lemma_lookup_absent(head, s.last().key());
    assert forall|i: int, j: int|
        #![trigger head[i], head[j]]
        0 <= i < j < head.len() implies head[i].key() < head[j].key() by {
        assert(s[i].key() < s[j].key());
    }
}

/// Every entry of the list after a write is the written entry or an entry
/// that was there before, and a write keeps a strictly sorted list strictly
/// sorted.
pub proof fn lemma_upsert_sorted<T: Keyed>(s: Seq<T>, e: T)
    requires
        strictly_sorted(s),
    ensures
        strictly_sorted(upsert(s, e)),
        forall|i: int|
            0 <= i < upsert(s, e).len() ==> #[trigger] upsert(s, e)[i] == e || s.contains(
                upsert(s, e)[i],
            ),
    decreases s.len(),
{
    let u = upsert(s, e);
    if s.len() == 0 {
    } else if s.last().key() < e.key() {
        assert forall|i: int| 0 <= i < u.len() implies #[trigger] u[i] == e || s.contains(
            u[i],
        ) by {
            if i < s.len() {
                assert(s[i] == u[i]);
            }
        }
        assert forall|i: int, j: int|
            #![trigger u[i], u[j]]
            0 <= i < j < u.len() implies u[i].key() < u[j].key() by {
            if j == s.len() {
                if i < s.len() - 1 {
                    assert(s[i].key() < s[s.len() - 1].key());
                }
            } else {
                assert(s[i].key() < s[j].key());
            }
        }
    } else if s.last().key() == e.key() {
        assert forall|i: int| 0 <= i < u.len() implies #[trigger] u[i] == e || s.contains(
            u[i],
        ) by {
            if i < s.len() - 1 {
                assert(s[i] == u[i]);
            }
        }
        assert forall|i: int, j: int|
            #![trigger u[i], u[j]]
            0 <= i < j < u.len() implies u[i].key() < u[j].key() by {
            assert(s[i].key() < s[j].key());
        }
    } else {
        let head = s.drop_last();
        assert forall|i: int, j: int|
            #![trigger head[i], head[j]]
            0 <= i < j < head.len() implies head[i].key() < head[j].key() by {
            assert(s[i].key() < s[j].key());
        }
        lemma_upsert_sorted(head, e);
        let inner = upsert(head, e);
        assert forall|i: int| 0 <= i < u.len() implies #[trigger] u[i] == e || s.contains(
            u[i],
        ) by {
            if i < inner.len() {
                assert(u[i] == inner[i]);
                if inner[i] != e {
                    let k = choose|k: int| 0 <= k < head.len() && head[k] == inner[i];
                    assert(s[k] == inner[i]);
                }
            } else {
                assert(u[i] == s[s.len() - 1]);
            }
        }
        assert forall|i: int, j: int|
            #![trigger u[i], u[j]]
            0 <= i < j < u.len() implies u[i].key() < u[j].key() by {
            if j == inner.len() {
                assert(u[i] == inner[i]);
                if inner[i] != e {
                    let k = choose|k: int| 0 <= k < head.len() && head[k] == inner[i];
                    assert(s[k].key() < s[s.len() - 1].key());
                }
            } else {
                assert(inner[i].key() < inner[j].key());
            }
        }
    }
}

/// Where a strictly sorted list splits into regions below `e`'s and regions
/// at or above it, the write happens exactly at the split.
pub proof fn lemma_upsert_at<T: Keyed>(s: Seq<T>, e: T, idx: int)
    requires
        strictly_sorted(s),
        0 <= idx <= s.len(),
        forall|i: int| 0 <= i < idx ==> (#[trigger] s[i]).key() < e.key(),
        forall|i: int| idx <= i < s.len() ==> (#[trigger] s[i]).key() >= e.key(),
    ensures
        upsert(s, e) == if idx < s.len() && s[idx].key() == e.key() {
            s.update(idx, e)
        } else {
            s.insert(idx, e)
        },
    decreases s.len(),
{
    if s.len() == 0 {
        assert(seq![e] =~= s.insert(0, e));
    } else if s.last().key() < e.key() {
        assert(idx == s.len()) by {
            if idx < s.len() {
                assert(s[s.len() - 1].key() >= e.key());
            }
        }
        assert(s.push(e) =~= s.insert(idx, e));
    } else if s.last().key() == e.key() {
        assert(idx == s.len() - 1) by {
            if idx == s.len() {
                assert(s[s.len() - 1].key() < e.key());
            } else if idx < s.len() - 1 {
                assert(s[idx].key() >= e.key());
                assert(s[idx].key() < s[s.len() - 1].key());
            }
        }
        assert(s.drop_last().push(e) =~= s.update(idx, e));
    } else {
        let head = s.drop_last();
        assert(idx <= s.len() - 1) by {
            if idx == s.len() {
                assert(s[s.len() - 1].key() < e.key());
            }
        }
        assert forall|i: int, j: int|
            #![trigger head[i], head[j]]
            0 <= i < j < head.len() implies head[i].key() < head[j].key() by {
            assert(s[i].key() < s[j].key());
        }
        assert forall|i: int| 0 <= i < idx implies (#[trigger] head[i]).key() < e.key() by {
            assert(s[i].key() < e.key());
        }
        assert forall|i: int| idx <= i < head.len() implies (#[trigger] head[i]).key()
            >= e.key() by {
            assert(s[i].key() >= e.key());
        }
        lemma_upsert_at(head, e, idx);
        if idx < head.len() && head[idx].key() == e.key() {
            assert(head.update(idx, e).push(s.last()) =~= s.update(idx, e));
        } else {
            assert(head.insert(idx, e).push(s.last()) =~= s.insert(idx, e));
        }
    }
}

/// Replaying writes keeps a strictly sorted list strictly sorted.
pub proof fn lemma_replay_sorted<T: Keyed>(s: Seq<T>, writes: Seq<T>)
    requires
        strictly_sorted(s),
    ensures
        strictly_sorted(replay(s, writes)),
    decreases writes.len(),
{
    if writes.len() > 0 {
        lemma_replay_sorted(s, writes.drop_last());
        lemma_upsert_sorted(replay(s, writes.drop_last()), writes.last());
    }
}

/// After a replay, a region holds the last entry that was written for it, or
/// what it held before if nothing was written for it.
pub proof fn lemma_replay_lookup<T: Keyed>(s: Seq<T>, writes: Seq<T>, region: u32)
    ensures
        lookup(replay(s, writes), region) == match lookup(writes, region) {
            Some(e) => Some(e),
            None => lookup(s, region),
        },
    decreases writes.len(),
{
    if writes.len() > 0 {
        lemma_replay_lookup(s, writes.drop_last(), region);
        lemma_upsert_lookup(replay(s, writes.drop_last()), writes.last(), region);
    }
}

/// First index of a strictly sorted list whose region is at or above
/// `region`; the length of the list if there is none.
pub fn position<T: Keyed>(v: &Vec<T>, region: u32) -> (idx: usize)
    requires
        strictly_sorted(v@),
    ensures
        idx <= v.len(),
        forall|i: int| 0 <= i < idx ==> (#[trigger] v@[i]).key() < region,
        forall|i: int| idx <= i < v.len() ==> (#[trigger] v@[i]).key() >= region,
{
    let mut lo: usize = 0;
    let mut hi: usize = v.len();
    while lo < hi
        invariant
            lo <= hi <= v.len(),
            strictly_sorted(v@),
            forall|i: int| 0 <= i < lo ==> (#[trigger] v@[i]).key() < region,
            forall|i: int| hi <= i < v.len() ==> (#[trigger] v@[i]).key() >= region,
        decreases hi - lo,
    {
        let mid: usize = lo + (hi - lo) / 2;
        if v[mid].region_key() < region {
            assert forall|i: int| 0 <= i < mid + 1 implies (#[trigger] v@[i]).key() < region by {
                if i < mid {
                    assert(v@[i].key() < v@[mid as int].key());
                }
            }
            lo = mid + 1;
        } else {
            assert forall|i: int| mid <= i < v.len() implies (#[trigger] v@[i]).key()
                >= region by {
                if i > mid {
                    assert(v@[mid as int].key() < v@[i].key());
                }
            }
            hi = mid;
        }
    }
    lo
}

/// Write `e` into a strictly sorted list.
pub fn put<T: Keyed>(v: &mut Vec<T>, e: T)
    requires
        strictly_sorted(old(v)@),
    ensures
        final(v)@ == upsert(old(v)@, e),
        strictly_sorted(final(v)@),
{
    let region = e.region_key();
    let idx = position(v, region);
    proof {
        lemma_upsert_at(v@, e, idx as int);
        lemma_upsert_sorted(v@, e);
    }
    if idx < v.len() && v[idx].region_key() == region {
        v.set(idx, e);
    } else {
        v.insert(idx, e);
    }
}

/// Write every entry of `writes` into a strictly sorted list, first to last.
pub fn put_all<T: Keyed>(v: &mut Vec<T>, writes: &Vec<T>)
    requires
        strictly_sorted(old(v)@),
    ensures
        final(v)@ == replay(old(v)@, writes@),
        strictly_sorted(final(v)@),
{
    let mut i: usize = 0;
    while i < writes.len()
        invariant
            i <= writes.len(),
            strictly_sorted(v@),
            v@ == replay(old(v)@, writes@.take(i as int)),
        decreases writes.len() - i,
    {
        proof {
            assert(writes@.take(i + 1).drop_last() =~= writes@.take(i as int));
        }
        put(v, writes[i]);
        i += 1;
    }
    proof {
        assert(writes@.take(i as int) =~= writes@);
    }
}

/// Whether a list is strictly sorted by region.
pub fn is_strictly_sorted<T: Keyed>(v: &Vec<T>) -> (out: bool)
    ensures
        out == strictly_sorted(v@),
{
    if v.len() < 2 {
        return true;
    }
    let mut i: usize = 1;
    while i < v.len()
        invariant
            1 <= i <= v.len(),
            forall|a: int, b: int|
                #![trigger v@[a], v@[b]]
                0 <= a < b < i ==> v@[a].key() < v@[b].key(),
        decreases v.len() - i,
    {
        if v[i - 1].region_key() >= v[i].region_key() {
            assert(!(v@[i - 1].key() < v@[i as int].key()));
            return false;
        }
        assert forall|a: int, b: int|
            #![trigger v@[a], v@[b]]
            0 <= a < b < i + 1 implies v@[a].key() < v@[b].key() by {
            if b == i && a < i - 1 {
                assert(v@[a].key() < v@[i - 1].key());
            }
        }
        i += 1;
    }
    true
}

/// Sorted by region; a region may occur more than once.
pub open spec fn sorted_by_region<T: Keyed>(s: Seq<T>) -> bool {
    forall|i: int, j: int|
        #![trigger s[i], s[j]]
        0 <= i < j < s.len() ==> s[i].key() <= s[j].key()
}

/// The list with `e` put behind every entry whose region is not above
/// `e`'s.
pub open spec fn insert_stable<T: Keyed>(s: Seq<T>, e: T) -> Seq<T>
    decreases s.len(),
{
    if s.len() == 0 {
        seq![e]
    } else if s.last().key() <= e.key() {
        s.push(e)
    } else {
        insert_stable(s.drop_last(), e).push(s.last())
    }
}

/// The list sorted by region; entries of one region keep their order.
pub open spec fn sort_by_region<T: Keyed>(s: Seq<T>) -> Seq<T>
    decreases s.len(),
{
    if s.len() == 0 {
        s
    } else {
        insert_stable(sort_by_region(s.drop_last()), s.last())
    }
}

/// Where every entry from `idx` on lies above `e`'s region and the entry
/// before `idx` does not, `e` is inserted exactly at `idx`.
pub proof fn lemma_insert_stable_at<T: Keyed>(s: Seq<T>, e: T, idx: int)
    requires
        0 <= idx <= s.len(),
        idx > 0 ==> s[idx - 1].key() <= e.key(),
        forall|i: int| idx <= i < s.len() ==> (#[trigger] s[i]).key() > e.key(),
    ensures
        insert_stable(s, e) == s.insert(idx, e),
    decreases s.len(),
{
    if s.len() == 0 {
        assert(seq![e] =~= s.insert(0, e));
    } else if s.last().key() <= e.key() {
        assert(idx == s.len()) by {
            if idx < s.len() {
                assert(s[s.len() - 1].key() > e.key());
            }
        }
        assert(s.push(e) =~= s.insert(idx, e));
    } else {
        let head = s.drop_last();
        assert forall|i: int| idx <= i < head.len() implies (#[trigger] head[i]).key()
            > e.key() by {
            assert(s[i].key() > e.key());
        }
        lemma_insert_stable_at(head, e, idx);
        assert(head.insert(idx, e).push(s.last()) =~= s.insert(idx, e));
    }
}

/// Inserting into a sorted list keeps it sorted and adds one entry.
pub proof fn lemma_insert_stable_sorted<T: Keyed>(s: Seq<T>, e: T)
    requires
        sorted_by_region(s),
    ensures
        sorted_by_region(insert_stable(s, e)),
        insert_stable(s, e).len() == s.len() + 1,
        forall|i: int|
            0 <= i < insert_stable(s, e).len() ==> #[trigger] insert_stable(s, e)[i] == e
                || s.contains(insert_stable(s, e)[i]),
    decreases s.len(),
{
    let u = insert_stable(s, e);
    if s.len() == 0 {
    } else if s.last().key() <= e.key() {
        assert forall|i: int| 0 <= i < u.len() implies #[trigger] u[i] == e || s.contains(
            u[i],
        ) by {
            if i < s.len() {
                assert(s[i] == u[i]);
            }
        }
        assert forall|i: int, j: int|
            #![trigger u[i], u[j]]
            0 <= i < j < u.len() implies u[i].key() <= u[j].key() by {
            if j == s.len() {
                if i < s.len() - 1 {
                    assert(s[i].key() <= s[s.len() - 1].key());
                }
            } else {
                assert(s[i].key() <= s[j].key());
            }
        }
    } else {
        let head = s.drop_last();
        assert forall|i: int, j: int|
            #![trigger head[i], head[j]]
            0 <= i < j < head.len() implies head[i].key() <= head[j].key() by {
            assert(s[i].key() <= s[j].key());
        }
        lemma_insert_stable_sorted(head, e);
        let inner = insert_stable(head, e);
        assert forall|i: int| 0 <= i < u.len() implies #[trigger] u[i] == e || s.contains(
            u[i],
        ) by {
            if i < inner.len() {
                assert(u[i] == inner[i]);
                if inner[i] != e {
                    let k = choose|k: int| 0 <= k < head.len() && head[k] == inner[i];
                    assert(s[k] == inner[i]);
                }
            } else {
                assert(u[i] == s[s.len() - 1]);
            }
        }
        assert forall|i: int, j: int|
            #![trigger u[i], u[j]]
            0 <= i < j < u.len() implies u[i].key() <= u[j].key() by {
            if j == inner.len() {
                assert(u[i] == inner[i]);
                if inner[i] != e {
                    let k = choose|k: int| 0 <= k < head.len() && head[k] == inner[i];
                    if k < s.len() - 1 {
                        assert(s[k].key() <= s[s.len() - 1].key());
                    }
                }
            } else {
                assert(inner[i].key() <= inner[j].key());
            }
        }
    }
}

/// Sorting yields a sorted list of the same length.
pub proof fn lemma_sort_sorted<T: Keyed>(s: Seq<T>)
    ensures
        sorted_by_region(sort_by_region(s)),
        sort_by_region(s).len() == s.len(),
    decreases s.len(),
{
    if s.len() > 0 {
        lemma_sort_sorted(s.drop_last());
        lemma_insert_stable_sorted(sort_by_region(s.drop_last()), s.last());
    }
}

/// Sorting leaves a sorted list as it is.
pub proof fn lemma_sort_of_sorted<T: Keyed>(s: Seq<T>)
    requires
        sorted_by_region(s),
    ensures
        sort_by_region(s) == s,
    decreases s.len(),
{
    if s.len() > 0 {
        let head = s.drop_last();
        assert forall|i: int, j: int|
            #![trigger head[i], head[j]]
            0 <= i < j < head.len() implies head[i].key() <= head[j].key() by {
            assert(s[i].key() <= s[j].key());
        }
        lemma_sort_of_sorted(head);
        if head.len() > 0 {
            assert(s[head.len() - 1].key() <= s[s.len() - 1].key());
            assert(head.last() == s[head.len() - 1]);
        }
        assert(head.push(s.last()) =~= s);
    }
}

/// Sorting twice is the same as sorting once.
pub proof fn lemma_sort_idempotent<T: Keyed>(s: Seq<T>)
    ensures
        sort_by_region(sort_by_region(s)) == sort_by_region(s),
{
    lemma_sort_sorted(s);
    lemma_sort_of_sorted(sort_by_region(s));
}

/// A strictly sorted list is sorted.
pub proof fn lemma_strictly_sorted_is_sorted<T: Keyed>(s: Seq<T>)
    requires
        strictly_sorted(s),
    ensures
        sorted_by_region(s),
        sort_by_region(s) == s,
{
    assert forall|i: int, j: int|
        #![trigger s[i], s[j]]
        0 <= i < j < s.len() implies s[i].key() <= s[j].key() by {
        assert(s[i].key() < s[j].key());
    }
    lemma_sort_of_sorted(s);
}

/// A copy of the list, sorted by region; entries of one region keep their
/// order. A list that is already sorted is copied in one pass.
pub fn sorted_copy<T: Keyed>(list: &Vec<T>) -> (out: Vec<T>)
    ensures
        out@ == sort_by_region(list@),
{
    let mut out: Vec<T> = Vec::new();
    let mut i: usize = 0;
    while i < list.len()
        invariant
            i <= list.len(),
            out@ == sort_by_region(list@.take(i as int)),
        decreases list.len() - i,
    {
        let e = list[i];
        let region = e.region_key();
        let mut j: usize = out.len();
        while j > 0 && out[j - 1].region_key() > region
            invariant
                j <= out.len(),
                region == e.key(),
                forall|k: int| j <= k < out.len() ==> (#[trigger] out@[k]).key() > region,
            decreases j,
        {
            j -= 1;
        }
        proof {
            lemma_insert_stable_at(out@, e, j as int);
            assert(list@.take(i + 1).drop_last() =~= list@.take(i as int));
        }
        out.insert(j, e);
        i += 1;
    }
    proof {
        assert(list@.take(i as int) =~= list@);
    }
    out
}

} // verus!
