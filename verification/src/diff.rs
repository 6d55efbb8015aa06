//! The per-tick change set.
//!
//! A [`Diff`] is a sparse record of what a kernel wants to change: one list
//! per scalar, each with at most one entry per region and sorted by region, a
//! sorted list of causes, named diagnostics, and an optional energy summary.
//! Writing a scalar twice keeps the last value, resource deltas add up,
//! hazards replace, and causes accumulate in order.

use vstd::prelude::*;
use vstd::string::StringExecFns;

use crate::cause::{
    causes_sorted, entries_view, insert_all_sorted, insert_cause, insert_causes, insert_sorted,
    Entry, EntryView,
};
use crate::fixed::clamp_int;
use crate::sparse::{
    position, put, put_all, replay, sort_by_region, strictly_sorted, upsert, Keyed, Valued,
};
use crate::text::{lemma_text_order_equal, order_text};

verus! {

/// A biome written for a region.
#[derive(Clone, Copy, Debug, PartialEq, Eq, Structural)]
pub struct BiomeChange {
    pub region: u32,
    pub biome: i32,
}

/// A signed change of a resource meter of a region.
#[derive(Clone, Copy, Debug, PartialEq, Eq, Structural)]
pub struct ResourceDelta {
    pub region: u32,
    pub delta: i32,
}

/// A scalar written for a region.
#[derive(Clone, Copy, Debug, PartialEq, Eq, Structural)]
pub struct ScalarValue {
    pub region: u32,
    pub value: i32,
}

/// Mean albedo anomaly and mean temperature adjustment of a tick.
#[derive(Clone, Copy, Debug, PartialEq, Eq, Structural)]
pub struct DiagEnergy {
    pub albedo_anomaly_milli: i32,
    pub temp_adjust_tenths: i32,
}

/// The hazard gauges written for a region.
#[derive(Clone, Copy, Debug, PartialEq, Eq, Structural)]
pub struct HazardEvent {
    pub region: u32,
    pub drought: u16,
    pub flood: u16,
}

/// A value under a name: a diagnostic, or an entry of a serialised map.
#[derive(Debug, PartialEq, Eq)]
pub struct NamedValue {
    pub name: String,
    pub value: i32,
}

impl Clone for NamedValue {
    fn clone(&self) -> (out: Self)
        ensures
            out == *self,
    {
        NamedValue { name: self.name.clone(), value: self.value }
    }
}

impl View for NamedValue {
    type V = (Seq<char>, i32);

    open spec fn view(&self) -> (Seq<char>, i32) {
        (self.name@, self.value)
    }
}

impl Keyed for BiomeChange {
    open spec fn key(&self) -> u32 {
        self.region
    }

    fn region_key(&self) -> (out: u32) {
        self.region
    }
}

impl Keyed for ResourceDelta {
    open spec fn key(&self) -> u32 {
        self.region
    }

    fn region_key(&self) -> (out: u32) {
        self.region
    }
}

impl Keyed for ScalarValue {
    open spec fn key(&self) -> u32 {
        self.region
    }

    fn region_key(&self) -> (out: u32) {
        self.region
    }
}

impl Keyed for HazardEvent {
    open spec fn key(&self) -> u32 {
        self.region
    }

    fn region_key(&self) -> (out: u32) {
        self.region
    }
}

impl Valued for BiomeChange {
    open spec fn amount(&self) -> i32 {
        self.biome
    }

    fn payload(&self) -> (out: i32) {
        self.biome
    }
}

impl Valued for ResourceDelta {
    open spec fn amount(&self) -> i32 {
        self.delta
    }

    fn payload(&self) -> (out: i32) {
        self.delta
    }
}

impl Valued for ScalarValue {
    open spec fn amount(&self) -> i32 {
        self.value
    }

    fn payload(&self) -> (out: i32) {
        self.value
    }
}

/// Sum of two deltas, saturating at the bounds of `i32`.
pub open spec fn delta_sum(a: i32, b: i32) -> i32 {
    clamp_int(a as int + b as int, i32::MIN as int, i32::MAX as int) as i32
}

/// The delta that a list holds for `region`; zero where it holds none.
pub open spec fn delta_at(s: Seq<ResourceDelta>, region: u32) -> i32 {
    match crate::sparse::lookup(s, region) {
        Some(entry) => entry.delta,
        None => 0,
    }
}

/// The list after `delta` has been added for `region`: the delta joins the
/// one already recorded for the region, and an entry whose sum is zero
/// leaves the list.
pub open spec fn accumulate(s: Seq<ResourceDelta>, region: u32, delta: i32) -> Seq<ResourceDelta>
    decreases s.len(),
{
    if s.len() == 0 {
        seq![ResourceDelta { region, delta }]
    } else if s.last().region < region {
        s.push(ResourceDelta { region, delta })
    } else if s.last().region == region {
        if delta_sum(s.last().delta, delta) == 0 {
            s.drop_last()
        } else {
            s.drop_last().push(ResourceDelta { region, delta: delta_sum(s.last().delta, delta) })
        }
    } else {
        accumulate(s.drop_last(), region, delta).push(s.last())
    }
}

/// The list after every delta of `more` has been added, first to last.
pub open spec fn accumulate_all(s: Seq<ResourceDelta>, more: Seq<ResourceDelta>) -> Seq<
    ResourceDelta,
>
    decreases more.len(),
{
    if more.len() == 0 {
        s
    } else {
        accumulate(accumulate_all(s, more.drop_last()), more.last().region, more.last().delta)
    }
}

/// Where a strictly sorted list splits into regions below `region` and
/// regions at or above it, the delta is added exactly at the split, and the
/// list stays strictly sorted.
pub proof fn lemma_accumulate_at(s: Seq<ResourceDelta>, region: u32, delta: i32, idx: int)
    requires
        strictly_sorted(s),
        0 <= idx <= s.len(),
        forall|i: int| 0 <= i < idx ==> (#[trigger] s[i]).region < region,
        forall|i: int| idx <= i < s.len() ==> (#[trigger] s[i]).region >= region,
    ensures
        accumulate(s, region, delta) == if idx < s.len() && s[idx].region == region {
            if delta_sum(s[idx].delta, delta) == 0 {
                s.remove(idx)
            } else {
                s.update(idx, ResourceDelta { region, delta: delta_sum(s[idx].delta, delta) })
            }
        } else {
            s.insert(idx, ResourceDelta { region, delta })
        },
        strictly_sorted(accumulate(s, region, delta)),
    decreases s.len(),
{
    let e = ResourceDelta { region, delta };
    let r = accumulate(s, region, delta);
    if s.len() == 0 {
        assert(seq![e] =~= s.insert(0, e));
    } else if s.last().region < region {
        assert(idx == s.len()) by {
            if idx < s.len() {
                assert(s[s.len() - 1].region >= region);
            }
        }
        assert(s.push(e) =~= s.insert(idx, e));
        assert forall|i: int, j: int|
            #![trigger r[i], r[j]]
            0 <= i < j < r.len() implies r[i].key() < r[j].key() by {
            if j == s.len() {
                if i < s.len() - 1 {
                    assert(s[i].key() < s[s.len() - 1].key());
                }
            } else {
                assert(s[i].key() < s[j].key());
            }
        }
    } else if s.last().region == region {
        assert(idx == s.len() - 1) by {
            if idx == s.len() {
                assert(s[s.len() - 1].region < region);
            } else if idx < s.len() - 1 {
                assert(s[idx].region >= region);
                assert(s[idx].key() < s[s.len() - 1].key());
            }
        }
        let sum = delta_sum(s.last().delta, delta);
        if sum == 0 {
            assert(s.drop_last() =~= s.remove(idx));
        } else {
            assert(s.drop_last().push(ResourceDelta { region, delta: sum }) =~= s.update(
                idx,
                ResourceDelta { region, delta: sum },
            ));
        }
        assert forall|i: int, j: int|
            #![trigger r[i], r[j]]
            0 <= i < j < r.len() implies r[i].key() < r[j].key() by {
            assert(s[i].key() < s[j].key());
        }
    } else {
        let head = s.drop_last();
        assert(idx <= s.len() - 1) by {
            if idx == s.len() {
                assert(s[s.len() - 1].region < region);
            }
        }
        assert forall|i: int, j: int|
            #![trigger head[i], head[j]]
            0 <= i < j < head.len() implies head[i].key() < head[j].key() by {
            assert(s[i].key() < s[j].key());
        }
        assert forall|i: int| 0 <= i < idx implies (#[trigger] head[i]).region < region by {
            assert(s[i].region < region);
        }
        assert forall|i: int| idx <= i < head.len() implies (#[trigger] head[i]).region
            >= region by {
            assert(s[i].region >= region);
        }
        lemma_accumulate_at(head, region, delta, idx);
        let inner = accumulate(head, region, delta);
        if idx < head.len() && head[idx].region == region {
            let sum = delta_sum(head[idx].delta, delta);
            if sum == 0 {
                assert(head.remove(idx).push(s.last()) =~= s.remove(idx));
            } else {
                assert(head.update(idx, ResourceDelta { region, delta: sum }).push(s.last())
                    =~= s.update(idx, ResourceDelta { region, delta: sum }));
            }
        } else {
            assert(head.insert(idx, e).push(s.last()) =~= s.insert(idx, e));
        }
        assert forall|i: int, j: int|
            #![trigger r[i], r[j]]
            0 <= i < j < r.len() implies r[i].key() < r[j].key() by {
            if j == inner.len() {
                assert(r[i] == inner[i]);
                if idx < head.len() && head[idx].region == region {
                    if delta_sum(head[idx].delta, delta) == 0 {
                        if i < idx {
                            assert(s[i].key() < s[s.len() - 1].key());
                        } else {
                            assert(s[i + 1].key() < s[s.len() - 1].key());
                        }
                    } else {
                        assert(s[i].key() < s[s.len() - 1].key());
                    }
                } else {
                    if i < idx {
                        assert(s[i].key() < s[s.len() - 1].key());
                    } else if i > idx {
                        assert(s[i - 1].key() < s[s.len() - 1].key());
                    }
                }
            } else {
                assert(inner[i].key() < inner[j].key());
            }
        }
    }
}

/// Adding deltas one after another keeps a strictly sorted list strictly
/// sorted.
pub proof fn lemma_accumulate_all_sorted(s: Seq<ResourceDelta>, more: Seq<ResourceDelta>)
    requires
        strictly_sorted(s),
    ensures
        strictly_sorted(accumulate_all(s, more)),
    decreases more.len(),
{
    if more.len() > 0 {
        lemma_accumulate_all_sorted(s, more.drop_last());
        lemma_accumulate_sorted(
            accumulate_all(s, more.drop_last()),
            more.last().region,
            more.last().delta,
        );
    }
}

/// Number of entries of a list whose region lies below `region`, counted
/// from the front up to the first entry at or above it.
pub open spec fn regions_below(s: Seq<ResourceDelta>, region: u32) -> int
    decreases s.len(),
{
    if s.len() == 0 {
        0
    } else if s.last().region < region {
        s.len() as int
    } else {
        regions_below(s.drop_last(), region)
    }
}

proof fn lemma_regions_below(s: Seq<ResourceDelta>, region: u32)
    requires
        strictly_sorted(s),
    ensures
        0 <= regions_below(s, region) <= s.len(),
        forall|i: int| 0 <= i < regions_below(s, region) ==> (#[trigger] s[i]).region < region,
        forall|i: int|
            regions_below(s, region) <= i < s.len() ==> (#[trigger] s[i]).region >= region,
    decreases s.len(),
{
    if s.len() == 0 {
    } else if s.last().region < region {
        assert forall|i: int| 0 <= i < s.len() implies (#[trigger] s[i]).region < region by {
            if i < s.len() - 1 {
                assert(s[i].key() < s[s.len() - 1].key());
            }
        }
    } else {
        let head = s.drop_last();
        assert forall|i: int, j: int|
            #![trigger head[i], head[j]]
            0 <= i < j < head.len() implies head[i].key() < head[j].key() by {
            assert(s[i].key() < s[j].key());
        }
        lemma_regions_below(head, region);
        assert forall|i: int| regions_below(s, region) <= i < s.len() implies (
        #[trigger] s[i]).region >= region by {
            if i < s.len() - 1 {
                assert(head[i].region >= region);
            }
        }
        assert forall|i: int| 0 <= i < regions_below(s, region) implies (
        #[trigger] s[i]).region < region by {
            assert(head[i].region < region);
        }
    }
}

/// Adding a delta keeps a strictly sorted list strictly sorted, changes the
/// delta of its region to the saturated sum, and leaves all other regions as
/// they were.
pub proof fn lemma_accumulate_sorted(s: Seq<ResourceDelta>, region: u32, delta: i32)
    requires
        strictly_sorted(s),
    ensures
        strictly_sorted(accumulate(s, region, delta)),
{
    lemma_regions_below(s, region);
    lemma_accumulate_at(s, region, delta, regions_below(s, region));
}

/// The entry of a region after a delta has been added for it: the delta
/// itself where the region had no entry, the saturated sum where it had
/// one, and no entry where that sum is zero.
pub open spec fn accumulated_entry(before: Option<ResourceDelta>, region: u32, delta: i32)
    -> Option<ResourceDelta> {
    match before {
        None => Some(ResourceDelta { region, delta }),
        Some(e) => if delta_sum(e.delta, delta) == 0 {
            None
        } else {
            Some(ResourceDelta { region, delta: delta_sum(e.delta, delta) })
        },
    }
}

/// Adding a delta changes the entry of its region and leaves the entries
/// of all other regions as they were.
pub proof fn lemma_accumulate_lookup(s: Seq<ResourceDelta>, region: u32, delta: i32, other: u32)
    requires
        strictly_sorted(s),
    ensures
        crate::sparse::lookup(accumulate(s, region, delta), other) == if other == region {
            accumulated_entry(crate::sparse::lookup(s, region), region, delta)
        } else {
            crate::sparse::lookup(s, other)
        },
    decreases s.len(),
{
    let fresh = ResourceDelta { region, delta };
    let acc = accumulate(s, region, delta);
    if s.len() == 0 {
        assert(acc =~= seq![fresh]);
        assert(acc.drop_last() =~= s);
        assert(acc.last() == fresh);
    } else if s.last().region < region {
        assert(acc.drop_last() =~= s);
        assert(acc.last() == fresh);
        assert forall|i: int| 0 <= i < s.len() implies (#[trigger] s[i]).key() != region by {
            if i < s.len() - 1 {
                assert(s[i].key() < s[s.len() - 1].key());
            }
        }
        crate::sparse::lemma_lookup_absent(s, region);
    } else if s.last().region == region {
        let head = s.drop_last();
        let sum = delta_sum(s.last().delta, delta);
        crate::sparse::lemma_sorted_last(s);
        if sum != 0 {
            let merged = ResourceDelta { region, delta: sum };
            assert(acc == head.push(merged));
            assert(acc.drop_last() =~= head);
            assert(acc.last() == merged);
        } else {
            assert(acc == head);
        }
    } else {
        let head = s.drop_last();
        crate::sparse::lemma_sorted_last(s);
        lemma_accumulate_lookup(head, region, delta, other);
        let inner = accumulate(head, region, delta);
        assert(acc == inner.push(s.last()));
        assert(acc.drop_last() =~= inner);
        assert(acc.last() == s.last());
    }
}

/// Adding a delta changes the delta of its region to the saturated sum and
/// leaves the deltas of all other regions as they were.
pub proof fn lemma_accumulate_delta_at(
    s: Seq<ResourceDelta>,
    region: u32,
    delta: i32,
    other: u32,
)
    requires
        strictly_sorted(s),
    ensures
        delta_at(accumulate(s, region, delta), other) == if other == region {
            delta_sum(delta_at(s, region), delta)
        } else {
            delta_at(s, other)
        },
{
    lemma_accumulate_lookup(s, region, delta, other);
    assert(delta_sum(0, delta) == delta);
}

/// Add `delta` for `region` to a strictly sorted list of deltas.
pub fn add_delta(target: &mut Vec<ResourceDelta>, region: u32, delta: i32)
    requires
        strictly_sorted(old(target)@),
    ensures
        final(target)@ == accumulate(old(target)@, region, delta),
        strictly_sorted(final(target)@),
{
    let idx = position(target, region);
    proof {
        lemma_accumulate_at(target@, region, delta, idx as int);
    }
    if idx < target.len() && target[idx].region == region {
        let wide: i64 = target[idx].delta as i64 + delta as i64;
        let sum: i32 = if wide < i32::MIN as i64 {
            i32::MIN
        } else if wide > i32::MAX as i64 {
            i32::MAX
        } else {
            wide as i32
        };
        if sum == 0 {
            target.remove(idx);
        } else {
            target.set(idx, ResourceDelta { region, delta: sum });
        }
    } else {
        target.insert(idx, ResourceDelta { region, delta });
    }
}

/// Add every delta of `more` to a strictly sorted list, first to last.
pub fn add_deltas(target: &mut Vec<ResourceDelta>, more: &Vec<ResourceDelta>)
    requires
        strictly_sorted(old(target)@),
    ensures
        final(target)@ == accumulate_all(old(target)@, more@),
        strictly_sorted(final(target)@),
{
    let mut i: usize = 0;
    while i < more.len()
        invariant
            i <= more.len(),
            strictly_sorted(target@),
            target@ == accumulate_all(old(target)@, more@.take(i as int)),
        decreases more.len() - i,
    {
        proof {
            assert(more@.take(i + 1).drop_last() =~= more@.take(i as int));
        }
        add_delta(target, more[i].region, more[i].delta);
        i += 1;
    }
    proof {
        assert(more@.take(i as int) =~= more@);
    }
}

/// What a list of diagnostics says, entry by entry.
pub open spec fn diagnostics_view(v: Seq<NamedValue>) -> Seq<(Seq<char>, i32)> {
    v.map_values(|d: NamedValue| d@)
}

/// Index of the first diagnostic called `name`; the length of the list if
/// there is none.
pub open spec fn first_named(s: Seq<(Seq<char>, i32)>, name: Seq<char>) -> int
    decreases s.len(),
{
    if s.len() == 0 {
        0
    } else if s[0].0 == name {
        0
    } else {
        1 + first_named(s.drop_first(), name)
    }
}

/// The list after `name` has been set to `value`: the first diagnostic of
/// that name is overwritten, or a new one is appended.
pub open spec fn set_named(s: Seq<(Seq<char>, i32)>, name: Seq<char>, value: i32) -> Seq<
    (Seq<char>, i32),
> {
    if first_named(s, name) < s.len() {
        s.update(first_named(s, name), (name, value))
    } else {
        s.push((name, value))
    }
}

/// The list after every diagnostic of `more` has been set, first to last.
pub open spec fn set_all_named(s: Seq<(Seq<char>, i32)>, more: Seq<(Seq<char>, i32)>) -> Seq<
    (Seq<char>, i32),
>
    decreases more.len(),
{
    if more.len() == 0 {
        s
    } else {
        set_named(set_all_named(s, more.drop_last()), more.last().0, more.last().1)
    }
}

/// No name occurs twice.
pub open spec fn names_unique(s: Seq<(Seq<char>, i32)>) -> bool {
    forall|i: int, j: int|
        #![trigger s[i], s[j]]
        0 <= i < j < s.len() ==> s[i].0 != s[j].0
}

/// The first diagnostic called `name` has no diagnostic of that name before
/// it.
pub proof fn lemma_first_named(s: Seq<(Seq<char>, i32)>, name: Seq<char>)
    ensures
        0 <= first_named(s, name) <= s.len(),
        forall|i: int| 0 <= i < first_named(s, name) ==> (#[trigger] s[i]).0 != name,
        first_named(s, name) < s.len() ==> s[first_named(s, name)].0 == name,
    decreases s.len(),
{
    if s.len() > 0 && s[0].0 != name {
        let rest = s.drop_first();
        lemma_first_named(rest, name);
        assert forall|i: int| 0 <= i < first_named(s, name) implies (#[trigger] s[i]).0
            != name by {
            if i > 0 {
                assert(rest[i - 1] == s[i]);
            }
        }
        if first_named(s, name) < s.len() {
            assert(rest[first_named(rest, name)] == s[first_named(s, name)]);
        }
    }
}

/// Setting a diagnostic keeps names unique.
pub proof fn lemma_set_named_unique(s: Seq<(Seq<char>, i32)>, name: Seq<char>, value: i32)
    requires
        names_unique(s),
    ensures
        names_unique(set_named(s, name, value)),
{
    lemma_first_named(s, name);
    let t = set_named(s, name, value);
    let k = first_named(s, name);
    assert forall|i: int, j: int|
        #![trigger t[i], t[j]]
        0 <= i < j < t.len() implies t[i].0 != t[j].0 by {
        if k < s.len() {
            assert(s[i].0 != s[j].0);
            if i == k {
                assert(s[i].0 == name);
            }
            if j == k {
                assert(s[j].0 == name);
            }
        } else {
            if j < s.len() {
                assert(s[i].0 != s[j].0);
            } else {
                assert(s[i].0 != name);
            }
        }
    }
}

/// Setting diagnostics one after another keeps names unique.
pub proof fn lemma_set_all_named_unique(s: Seq<(Seq<char>, i32)>, more: Seq<(Seq<char>, i32)>)
    requires
        names_unique(s),
    ensures
        names_unique(set_all_named(s, more)),
    decreases more.len(),
{
    if more.len() > 0 {
        lemma_set_all_named_unique(s, more.drop_last());
        lemma_set_named_unique(set_all_named(s, more.drop_last()), more.last().0, more.last().1);
    }
}

/// Set the diagnostic called `name` to `value`.
pub fn set_diagnostic(target: &mut Vec<NamedValue>, name: &str, value: i32)
    ensures
        diagnostics_view(final(target)@) == set_named(
            diagnostics_view(old(target)@),
            name@,
            value,
        ),
{
    let ghost s = diagnostics_view(target@);
    let mut i: usize = 0;
    proof {
        lemma_first_named(s, name@);
    }
    while i < target.len()
        invariant
            i <= target.len(),
            s == diagnostics_view(target@),
            target@ == old(target)@,
            forall|k: int| 0 <= k < i ==> (#[trigger] s[k]).0 != name@,
            0 <= first_named(s, name@) <= s.len(),
            forall|k: int| 0 <= k < first_named(s, name@) ==> (#[trigger] s[k]).0 != name@,
            first_named(s, name@) < s.len() ==> s[first_named(s, name@)].0 == name@,
        decreases target.len() - i,
    {
        proof {
            lemma_text_order_equal(target@[i as int].name@, name@);
            assert(s[i as int] == target@[i as int]@);
        }
        if order_text(target[i].name.as_str(), name) == 0 {
            proof {
                let k = first_named(s, name@);
                if k < i {
                    assert(s[k].0 == name@);
                } else if k > i {
                    assert(s[i as int].0 != name@);
                }
                assert(diagnostics_view(
                    target@.update(i as int, NamedValue { name: target@[i as int].name, value }),
                ) =~= s.update(i as int, (name@, value)));
            }
            let renamed = NamedValue { name: String::from_str(name), value };
            proof {
                assert(diagnostics_view(target@.update(i as int, renamed)) =~= s.update(
                    i as int,
                    (name@, value),
                ));
            }
            target.set(i, renamed);
            return ;
        }
        i += 1;
    }
    let fresh = NamedValue { name: String::from_str(name), value };
    proof {
        let k = first_named(s, name@);
        if k < s.len() {
            assert(s[k].0 == name@);
        }
        assert(diagnostics_view(target@.push(fresh)) =~= s.push((name@, value)));
    }
    target.push(fresh);
}

/// Set every diagnostic of `more`, first to last.
pub fn set_diagnostics(target: &mut Vec<NamedValue>, more: &Vec<NamedValue>)
    ensures
        diagnostics_view(final(target)@) == set_all_named(
            diagnostics_view(old(target)@),
            diagnostics_view(more@),
        ),
{
    let ghost m = diagnostics_view(more@);
    let mut i: usize = 0;
    while i < more.len()
        invariant
            i <= more.len(),
            m == diagnostics_view(more@),
            diagnostics_view(target@) == set_all_named(
                diagnostics_view(old(target)@),
                m.take(i as int),
            ),
        decreases more.len() - i,
    {
        proof {
            assert(m.take(i + 1).drop_last() =~= m.take(i as int));
            assert(m[i as int] == more@[i as int]@);
        }
        set_diagnostic(target, more[i].name.as_str(), more[i].value);
        i += 1;
    }
    proof {
        assert(m.take(i as int) =~= m);
    }
}


/// Sparse, sorted, mergeable record of per-region changes.
#[derive(Clone, Debug, PartialEq, Eq)]
pub struct Diff {
    pub biome: Vec<BiomeChange>,
    pub water: Vec<ResourceDelta>,
    pub soil: Vec<ResourceDelta>,
    pub insolation: Vec<ScalarValue>,
    pub tide_envelope: Vec<ScalarValue>,
    pub elevation: Vec<ScalarValue>,
    pub temperature: Vec<ScalarValue>,
    pub temperature_baseline: Vec<ScalarValue>,
    pub precipitation: Vec<ScalarValue>,
    pub precip_extreme: Vec<ScalarValue>,
    pub humidity: Vec<ScalarValue>,
    pub albedo: Vec<ScalarValue>,
    pub permafrost_active: Vec<ScalarValue>,
    pub freshwater_flux: Vec<ScalarValue>,
    pub melt_pulse: Vec<ScalarValue>,
    pub ice_mass: Vec<ScalarValue>,
    pub heatwave_idx: Vec<ScalarValue>,
    pub diag_climate: Vec<ScalarValue>,
    pub hazards: Vec<HazardEvent>,
    pub causes: Vec<Entry>,
    pub diagnostics: Vec<NamedValue>,
    pub diag_energy: Option<DiagEnergy>,
}

/// What a diff says: its lists as sequences, its causes and diagnostics by
/// their text.
pub struct DiffView {
    pub biome: Seq<BiomeChange>,
    pub water: Seq<ResourceDelta>,
    pub soil: Seq<ResourceDelta>,
    pub insolation: Seq<ScalarValue>,
    pub tide_envelope: Seq<ScalarValue>,
    pub elevation: Seq<ScalarValue>,
    pub temperature: Seq<ScalarValue>,
    pub temperature_baseline: Seq<ScalarValue>,
    pub precipitation: Seq<ScalarValue>,
    pub precip_extreme: Seq<ScalarValue>,
    pub humidity: Seq<ScalarValue>,
    pub albedo: Seq<ScalarValue>,
    pub permafrost_active: Seq<ScalarValue>,
    pub freshwater_flux: Seq<ScalarValue>,
    pub melt_pulse: Seq<ScalarValue>,
    pub ice_mass: Seq<ScalarValue>,
    pub heatwave_idx: Seq<ScalarValue>,
    pub diag_climate: Seq<ScalarValue>,
    pub hazards: Seq<HazardEvent>,
    pub causes: Seq<EntryView>,
    pub diagnostics: Seq<(Seq<char>, i32)>,
    pub diag_energy: Option<DiagEnergy>,
}

impl View for Diff {
    type V = DiffView;

    open spec fn view(&self) -> DiffView {
        DiffView {
            biome: self.biome@,
            water: self.water@,
            soil: self.soil@,
            insolation: self.insolation@,
            tide_envelope: self.tide_envelope@,
            elevation: self.elevation@,
            temperature: self.temperature@,
            temperature_baseline: self.temperature_baseline@,
            precipitation: self.precipitation@,
            precip_extreme: self.precip_extreme@,
            humidity: self.humidity@,
            albedo: self.albedo@,
            permafrost_active: self.permafrost_active@,
            freshwater_flux: self.freshwater_flux@,
            melt_pulse: self.melt_pulse@,
            ice_mass: self.ice_mass@,
            heatwave_idx: self.heatwave_idx@,
            diag_climate: self.diag_climate@,
            hazards: self.hazards@,
            causes: entries_view(self.causes@),
            diagnostics: diagnostics_view(self.diagnostics@),
            diag_energy: self.diag_energy,
        }
    }
}

impl DiffView {
    /// The diff without any entry.
    pub open spec fn empty() -> DiffView {
        DiffView {
            biome: Seq::empty(),
            water: Seq::empty(),
            soil: Seq::empty(),
            insolation: Seq::empty(),
            tide_envelope: Seq::empty(),
            elevation: Seq::empty(),
            temperature: Seq::empty(),
            temperature_baseline: Seq::empty(),
            precipitation: Seq::empty(),
            precip_extreme: Seq::empty(),
            humidity: Seq::empty(),
            albedo: Seq::empty(),
            permafrost_active: Seq::empty(),
            freshwater_flux: Seq::empty(),
            melt_pulse: Seq::empty(),
            ice_mass: Seq::empty(),
            heatwave_idx: Seq::empty(),
            diag_climate: Seq::empty(),
            hazards: Seq::empty(),
            causes: Seq::empty(),
            diagnostics: Seq::empty(),
            diag_energy: None,
        }
    }

    /// Every per-region list is strictly sorted by region, the causes are
    /// sorted, and no diagnostic name occurs twice.
    pub open spec fn wf(self) -> bool {
        &&& strictly_sorted(self.biome)
        &&& strictly_sorted(self.water)
        &&& strictly_sorted(self.soil)
        &&& strictly_sorted(self.insolation)
        &&& strictly_sorted(self.tide_envelope)
        &&& strictly_sorted(self.elevation)
        &&& strictly_sorted(self.temperature)
        &&& strictly_sorted(self.temperature_baseline)
        &&& strictly_sorted(self.precipitation)
        &&& strictly_sorted(self.precip_extreme)
        &&& strictly_sorted(self.humidity)
        &&& strictly_sorted(self.albedo)
        &&& strictly_sorted(self.permafrost_active)
        &&& strictly_sorted(self.freshwater_flux)
        &&& strictly_sorted(self.melt_pulse)
        &&& strictly_sorted(self.ice_mass)
        &&& strictly_sorted(self.heatwave_idx)
        &&& strictly_sorted(self.diag_climate)
        &&& strictly_sorted(self.hazards)
        &&& causes_sorted(self.causes)
        &&& names_unique(self.diagnostics)
    }

    /// No list holds an entry and no energy summary is present.
    pub open spec fn is_empty(self) -> bool {
        &&& self.biome.len() == 0
        &&& self.water.len() == 0
        &&& self.soil.len() == 0
        &&& self.insolation.len() == 0
        &&& self.tide_envelope.len() == 0
        &&& self.elevation.len() == 0
        &&& self.temperature.len() == 0
        &&& self.temperature_baseline.len() == 0
        &&& self.precipitation.len() == 0
        &&& self.precip_extreme.len() == 0
        &&& self.humidity.len() == 0
        &&& self.albedo.len() == 0
        &&& self.permafrost_active.len() == 0
        &&& self.freshwater_flux.len() == 0
        &&& self.melt_pulse.len() == 0
        &&& self.ice_mass.len() == 0
        &&& self.heatwave_idx.len() == 0
        &&& self.diag_climate.len() == 0
        &&& self.hazards.len() == 0
        &&& self.causes.len() == 0
        &&& self.diagnostics.len() == 0
        &&& self.diag_energy is None
    }

    /// The diff after a biome has been recorded for a region.
    pub open spec fn with_biome(self, region: u32, biome: i32) -> DiffView {
        DiffView { biome: upsert(self.biome, BiomeChange { region, biome }), ..self }
    }

    /// The diff after a water delta has been recorded for a region; a zero
    /// delta records nothing.
    pub open spec fn with_water_delta(self, region: u32, delta: i32) -> DiffView {
        if delta == 0 {
            self
        } else {
            DiffView { water: accumulate(self.water, region, delta), ..self }
        }
    }

    /// The diff after a soil delta has been recorded for a region; a zero
    /// delta records nothing.
    pub open spec fn with_soil_delta(self, region: u32, delta: i32) -> DiffView {
        if delta == 0 {
            self
        } else {
            DiffView { soil: accumulate(self.soil, region, delta), ..self }
        }
    }

    /// The diff after the insolation, in tenths of watts per square metre, has been recorded for a
    /// region.
    pub open spec fn with_insolation(self, region: u32, value: i32) -> DiffView {
        DiffView { insolation: upsert(self.insolation, ScalarValue { region, value }), ..self }
    }

    /// The diff after the tide envelope, in tenths of metres, has been recorded for a
    /// region.
    pub open spec fn with_tide_envelope(self, region: u32, value: i32) -> DiffView {
        DiffView { tide_envelope: upsert(self.tide_envelope, ScalarValue { region, value }), ..self }
    }

    /// The diff after the elevation, in metres, has been recorded for a
    /// region.
    pub open spec fn with_elevation(self, region: u32, value: i32) -> DiffView {
        DiffView { elevation: upsert(self.elevation, ScalarValue { region, value }), ..self }
    }

    /// The diff after the temperature, in tenths of degrees Celsius, has been recorded for a
    /// region.
    pub open spec fn with_temperature(self, region: u32, value: i32) -> DiffView {
        DiffView { temperature: upsert(self.temperature, ScalarValue { region, value }), ..self }
    }

    /// The diff after the temperature baseline offset, in tenths of degrees, has been recorded for a
    /// region.
    pub open spec fn with_temperature_baseline(self, region: u32, value: i32) -> DiffView {
        DiffView { temperature_baseline: upsert(self.temperature_baseline, ScalarValue { region, value }), ..self }
    }

    /// The diff after the precipitation, in millimetres, has been recorded for a
    /// region.
    pub open spec fn with_precipitation(self, region: u32, value: i32) -> DiffView {
        DiffView { precipitation: upsert(self.precipitation, ScalarValue { region, value }), ..self }
    }

    /// The diff after the precipitation extreme, in millimetres, has been recorded for a
    /// region.
    pub open spec fn with_precip_extreme(self, region: u32, value: i32) -> DiffView {
        DiffView { precip_extreme: upsert(self.precip_extreme, ScalarValue { region, value }), ..self }
    }

    /// The diff after the humidity, in tenths of a percent, has been recorded for a
    /// region.
    pub open spec fn with_humidity(self, region: u32, value: i32) -> DiffView {
        DiffView { humidity: upsert(self.humidity, ScalarValue { region, value }), ..self }
    }

    /// The diff after the albedo, in milli-units, has been recorded for a
    /// region.
    pub open spec fn with_albedo(self, region: u32, value: i32) -> DiffView {
        DiffView { albedo: upsert(self.albedo, ScalarValue { region, value }), ..self }
    }

    /// The diff after the permafrost active-layer depth, in centimetres, has been recorded for a
    /// region.
    pub open spec fn with_permafrost_active(self, region: u32, value: i32) -> DiffView {
        DiffView { permafrost_active: upsert(self.permafrost_active, ScalarValue { region, value }), ..self }
    }

    /// The diff after the freshwater flux, in tenths of millimetres, has been recorded for a
    /// region.
    pub open spec fn with_freshwater_flux(self, region: u32, value: i32) -> DiffView {
        DiffView { freshwater_flux: upsert(self.freshwater_flux, ScalarValue { region, value }), ..self }
    }

    /// The diff after the melt pulse, in millimetres, has been recorded for a
    /// region.
    pub open spec fn with_melt_pulse(self, region: u32, value: i32) -> DiffView {
        DiffView { melt_pulse: upsert(self.melt_pulse, ScalarValue { region, value }), ..self }
    }

    /// The diff after the ice mass, in kilotons, has been recorded for a
    /// region.
    pub open spec fn with_ice_mass(self, region: u32, value: i32) -> DiffView {
        DiffView { ice_mass: upsert(self.ice_mass, ScalarValue { region, value }), ..self }
    }

    /// The diff after the heatwave index, has been recorded for a
    /// region.
    pub open spec fn with_heatwave_idx(self, region: u32, value: i32) -> DiffView {
        DiffView { heatwave_idx: upsert(self.heatwave_idx, ScalarValue { region, value }), ..self }
    }

    /// The diff after the climate diagnostic scalar, has been recorded for a
    /// region.
    pub open spec fn with_diag_climate(self, region: u32, value: i32) -> DiffView {
        DiffView { diag_climate: upsert(self.diag_climate, ScalarValue { region, value }), ..self }
    }

    /// The diff after hazard gauges have been recorded for a region.
    pub open spec fn with_hazard(self, region: u32, drought: u16, flood: u16) -> DiffView {
        DiffView { hazards: upsert(self.hazards, HazardEvent { region, drought, flood }), ..self }
    }

    /// The diff after a cause has been recorded.
    pub open spec fn with_cause(self, cause: EntryView) -> DiffView {
        DiffView { causes: insert_cause(self.causes, cause), ..self }
    }

    /// The diff after a named diagnostic has been set.
    pub open spec fn with_diagnostic(self, name: Seq<char>, value: i32) -> DiffView {
        DiffView { diagnostics: set_named(self.diagnostics, name, value), ..self }
    }

    /// The diff after the energy summary has been set.
    pub open spec fn with_diag_energy(self, diag: DiagEnergy) -> DiffView {
        DiffView { diag_energy: Some(diag), ..self }
    }

    /// The diff with every per-region list sorted by region; entries of one
    /// region keep their order.
    pub open spec fn sort_all(self) -> DiffView {
        DiffView {
            biome: sort_by_region(self.biome),
            water: sort_by_region(self.water),
            soil: sort_by_region(self.soil),
            insolation: sort_by_region(self.insolation),
            tide_envelope: sort_by_region(self.tide_envelope),
            elevation: sort_by_region(self.elevation),
            temperature: sort_by_region(self.temperature),
            temperature_baseline: sort_by_region(self.temperature_baseline),
            precipitation: sort_by_region(self.precipitation),
            precip_extreme: sort_by_region(self.precip_extreme),
            humidity: sort_by_region(self.humidity),
            albedo: sort_by_region(self.albedo),
            permafrost_active: sort_by_region(self.permafrost_active),
            freshwater_flux: sort_by_region(self.freshwater_flux),
            melt_pulse: sort_by_region(self.melt_pulse),
            ice_mass: sort_by_region(self.ice_mass),
            heatwave_idx: sort_by_region(self.heatwave_idx),
            diag_climate: sort_by_region(self.diag_climate),
            hazards: sort_by_region(self.hazards),
            ..self
        }
    }

    /// The diff after `other` has been merged into it: every write, delta,
    /// hazard, cause and diagnostic of `other` is replayed in order, and an
    /// energy summary of `other` replaces the one that was there.
    pub open spec fn merged(self, other: DiffView) -> DiffView {
        DiffView {
            biome: replay(self.biome, other.biome),
            water: accumulate_all(self.water, other.water),
            soil: accumulate_all(self.soil, other.soil),
            insolation: replay(self.insolation, other.insolation),
            tide_envelope: replay(self.tide_envelope, other.tide_envelope),
            elevation: replay(self.elevation, other.elevation),
            temperature: replay(self.temperature, other.temperature),
            temperature_baseline: replay(self.temperature_baseline, other.temperature_baseline),
            precipitation: replay(self.precipitation, other.precipitation),
            precip_extreme: replay(self.precip_extreme, other.precip_extreme),
            humidity: replay(self.humidity, other.humidity),
            albedo: replay(self.albedo, other.albedo),
            permafrost_active: replay(self.permafrost_active, other.permafrost_active),
            freshwater_flux: replay(self.freshwater_flux, other.freshwater_flux),
            melt_pulse: replay(self.melt_pulse, other.melt_pulse),
            ice_mass: replay(self.ice_mass, other.ice_mass),
            heatwave_idx: replay(self.heatwave_idx, other.heatwave_idx),
            diag_climate: replay(self.diag_climate, other.diag_climate),
            hazards: replay(self.hazards, other.hazards),
            causes: insert_causes(self.causes, other.causes),
            diagnostics: set_all_named(self.diagnostics, other.diagnostics),
            diag_energy: match other.diag_energy {
                Some(energy) => Some(energy),
                None => self.diag_energy,
            },
        }
    }
}

/// A diff in order is its own sorted copy.
pub proof fn lemma_sort_all_of_wf(d: DiffView)
    requires
        d.wf(),
    ensures
        d.sort_all() == d,
{
    crate::sparse::lemma_strictly_sorted_is_sorted(d.biome);
    crate::sparse::lemma_strictly_sorted_is_sorted(d.water);
    crate::sparse::lemma_strictly_sorted_is_sorted(d.soil);
    crate::sparse::lemma_strictly_sorted_is_sorted(d.insolation);
    crate::sparse::lemma_strictly_sorted_is_sorted(d.tide_envelope);
    crate::sparse::lemma_strictly_sorted_is_sorted(d.elevation);
    crate::sparse::lemma_strictly_sorted_is_sorted(d.temperature);
    crate::sparse::lemma_strictly_sorted_is_sorted(d.temperature_baseline);
    crate::sparse::lemma_strictly_sorted_is_sorted(d.precipitation);
    crate::sparse::lemma_strictly_sorted_is_sorted(d.precip_extreme);
    crate::sparse::lemma_strictly_sorted_is_sorted(d.humidity);
    crate::sparse::lemma_strictly_sorted_is_sorted(d.albedo);
    crate::sparse::lemma_strictly_sorted_is_sorted(d.permafrost_active);
    crate::sparse::lemma_strictly_sorted_is_sorted(d.freshwater_flux);
    crate::sparse::lemma_strictly_sorted_is_sorted(d.melt_pulse);
    crate::sparse::lemma_strictly_sorted_is_sorted(d.ice_mass);
    crate::sparse::lemma_strictly_sorted_is_sorted(d.heatwave_idx);
    crate::sparse::lemma_strictly_sorted_is_sorted(d.diag_climate);
    crate::sparse::lemma_strictly_sorted_is_sorted(d.hazards);
}

impl Default for Diff {
    fn default() -> (out: Self)
        ensures
            out@ == DiffView::empty(),
            out@.wf(),
    {
        let out = Diff {
            biome: Vec::new(),
            water: Vec::new(),
            soil: Vec::new(),
            insolation: Vec::new(),
            tide_envelope: Vec::new(),
            elevation: Vec::new(),
            temperature: Vec::new(),
            temperature_baseline: Vec::new(),
            precipitation: Vec::new(),
            precip_extreme: Vec::new(),
            humidity: Vec::new(),
            albedo: Vec::new(),
            permafrost_active: Vec::new(),
            freshwater_flux: Vec::new(),
            melt_pulse: Vec::new(),
            ice_mass: Vec::new(),
            heatwave_idx: Vec::new(),
            diag_climate: Vec::new(),
            hazards: Vec::new(),
            causes: Vec::new(),
            diagnostics: Vec::new(),
            diag_energy: None,
        };
        proof {
            assert(entries_view(out.causes@) =~= Seq::empty());
            assert(diagnostics_view(out.diagnostics@) =~= Seq::empty());
        }
        out
    }
}

impl Diff {
    /// Every per-region list is strictly sorted by region, the causes are
    /// sorted, and no diagnostic name occurs twice.
    pub open spec fn wf(&self) -> bool {
        self@.wf()
    }

    /// Record the biome of a region; a later record for the same region
    /// replaces an earlier one.
    pub fn record_biome(&mut self, region_index: usize, biome: u8)
        requires
            old(self).wf(),
        ensures
            final(self).wf(),
            final(self)@ == old(self)@.with_biome(region_index as u32, biome as i32),
    {
        self.set_biome_value(#[verifier::truncate] (region_index as u32), biome as i32);
    }

    /// Add a water delta for a region. A zero delta records nothing; a sum
    /// of zero removes the entry.
    pub fn record_water_delta(&mut self, region_index: usize, delta: i32)
        requires
            old(self).wf(),
        ensures
            final(self).wf(),
            final(self)@ == old(self)@.with_water_delta(region_index as u32, delta),
    {
        if delta == 0 {
            return ;
        }
        Self::insert_delta(&mut self.water, #[verifier::truncate] (region_index as u32), delta);
    }

    /// Add a soil delta for a region. A zero delta records nothing; a sum of
    /// zero removes the entry.
    pub fn record_soil_delta(&mut self, region_index: usize, delta: i32)
        requires
            old(self).wf(),
        ensures
            final(self).wf(),
            final(self)@ == old(self)@.with_soil_delta(region_index as u32, delta),
    {
        if delta == 0 {
            return ;
        }
        Self::insert_delta(&mut self.soil, #[verifier::truncate] (region_index as u32), delta);
    }


    /// Record the insolation, in tenths of watts per square metre, of a region; a later record for the same
    /// region replaces an earlier one.
    pub fn record_insolation(&mut self, region_index: usize, value: i32)
        requires
            old(self).wf(),
        ensures
            final(self).wf(),
            final(self)@ == old(self)@.with_insolation(region_index as u32, value),
    {
        Self::set_scalar_value(
            &mut self.insolation,
            #[verifier::truncate] (region_index as u32),
            value,
        );
    }

    /// Record the tide envelope, in tenths of metres, of a region; a later record for the same
    /// region replaces an earlier one.
    pub fn record_tide_envelope(&mut self, region_index: usize, value: i32)
        requires
            old(self).wf(),
        ensures
            final(self).wf(),
            final(self)@ == old(self)@.with_tide_envelope(region_index as u32, value),
    {
        Self::set_scalar_value(
            &mut self.tide_envelope,
            #[verifier::truncate] (region_index as u32),
            value,
        );
    }

    /// Record the elevation, in metres, of a region; a later record for the same
    /// region replaces an earlier one.
    pub fn record_elevation(&mut self, region_index: usize, value: i32)
        requires
            old(self).wf(),
        ensures
            final(self).wf(),
            final(self)@ == old(self)@.with_elevation(region_index as u32, value),
    {
        Self::set_scalar_value(
            &mut self.elevation,
            #[verifier::truncate] (region_index as u32),
            value,
        );
    }

    /// Record the temperature, in tenths of degrees Celsius, of a region; a later record for the same
    /// region replaces an earlier one.
    pub fn record_temperature(&mut self, region_index: usize, value: i32)
        requires
            old(self).wf(),
        ensures
            final(self).wf(),
            final(self)@ == old(self)@.with_temperature(region_index as u32, value),
    {
        Self::set_scalar_value(
            &mut self.temperature,
            #[verifier::truncate] (region_index as u32),
            value,
        );
    }

    /// Record the temperature baseline offset, in tenths of degrees, of a region; a later record for the same
    /// region replaces an earlier one.
    pub fn record_temperature_baseline(&mut self, region_index: usize, value: i32)
        requires
            old(self).wf(),
        ensures
            final(self).wf(),
            final(self)@ == old(self)@.with_temperature_baseline(region_index as u32, value),
    {
        Self::set_scalar_value(
            &mut self.temperature_baseline,
            #[verifier::truncate] (region_index as u32),
            value,
        );
    }

    /// Record the precipitation, in millimetres, of a region; a later record for the same
    /// region replaces an earlier one.
    pub fn record_precipitation(&mut self, region_index: usize, value: i32)
        requires
            old(self).wf(),
        ensures
            final(self).wf(),
            final(self)@ == old(self)@.with_precipitation(region_index as u32, value),
    {
        Self::set_scalar_value(
            &mut self.precipitation,
            #[verifier::truncate] (region_index as u32),
            value,
        );
    }

    /// Record the precipitation extreme, in millimetres, of a region; a later record for the same
    /// region replaces an earlier one.
    pub fn record_precip_extreme(&mut self, region_index: usize, value: i32)
        requires
            old(self).wf(),
        ensures
            final(self).wf(),
            final(self)@ == old(self)@.with_precip_extreme(region_index as u32, value),
    {
        Self::set_scalar_value(
            &mut self.precip_extreme,
            #[verifier::truncate] (region_index as u32),
            value,
        );
    }

    /// Record the humidity, in tenths of a percent, of a region; a later record for the same
    /// region replaces an earlier one.
    pub fn record_humidity(&mut self, region_index: usize, value: i32)
        requires
            old(self).wf(),
        ensures
            final(self).wf(),
            final(self)@ == old(self)@.with_humidity(region_index as u32, value),
    {
        Self::set_scalar_value(
            &mut self.humidity,
            #[verifier::truncate] (region_index as u32),
            value,
        );
    }

    /// Record the albedo, in milli-units, of a region; a later record for the same
    /// region replaces an earlier one.
    pub fn record_albedo(&mut self, region_index: usize, value: i32)
        requires
            old(self).wf(),
        ensures
            final(self).wf(),
            final(self)@ == old(self)@.with_albedo(region_index as u32, value),
    {
        Self::set_scalar_value(
            &mut self.albedo,
            #[verifier::truncate] (region_index as u32),
            value,
        );
    }

    /// Record the permafrost active-layer depth, in centimetres, of a region; a later record for the same
    /// region replaces an earlier one.
    pub fn record_permafrost_active(&mut self, region_index: usize, value: i32)
        requires
            old(self).wf(),
        ensures
            final(self).wf(),
            final(self)@ == old(self)@.with_permafrost_active(region_index as u32, value),
    {
        Self::set_scalar_value(
            &mut self.permafrost_active,
            #[verifier::truncate] (region_index as u32),
            value,
        );
    }

    /// Record the freshwater flux, in tenths of millimetres, of a region; a later record for the same
    /// region replaces an earlier one.
    pub fn record_freshwater_flux(&mut self, region_index: usize, value: i32)
        requires
            old(self).wf(),
        ensures
            final(self).wf(),
            final(self)@ == old(self)@.with_freshwater_flux(region_index as u32, value),
    {
        Self::set_scalar_value(
            &mut self.freshwater_flux,
            #[verifier::truncate] (region_index as u32),
            value,
        );
    }

    /// Record the melt pulse, in millimetres, of a region; a later record for the same
    /// region replaces an earlier one.
    pub fn record_melt_pulse(&mut self, region_index: usize, value: i32)
        requires
            old(self).wf(),
        ensures
            final(self).wf(),
            final(self)@ == old(self)@.with_melt_pulse(region_index as u32, value),
    {
        Self::set_scalar_value(
            &mut self.melt_pulse,
            #[verifier::truncate] (region_index as u32),
            value,
        );
    }

    /// Record the ice mass, in kilotons, of a region; a later record for the same
    /// region replaces an earlier one.
    pub fn record_ice_mass(&mut self, region_index: usize, value: i32)
        requires
            old(self).wf(),
        ensures
            final(self).wf(),
            final(self)@ == old(self)@.with_ice_mass(region_index as u32, value),
    {
        Self::set_scalar_value(
            &mut self.ice_mass,
            #[verifier::truncate] (region_index as u32),
            value,
        );
    }

    /// Record the heatwave index, of a region; a later record for the same
    /// region replaces an earlier one.
    pub fn record_heatwave_idx(&mut self, region_index: usize, value: i32)
        requires
            old(self).wf(),
        ensures
            final(self).wf(),
            final(self)@ == old(self)@.with_heatwave_idx(region_index as u32, value),
    {
        Self::set_scalar_value(
            &mut self.heatwave_idx,
            #[verifier::truncate] (region_index as u32),
            value,
        );
    }

    /// Record the climate diagnostic scalar, of a region; a later record for the same
    /// region replaces an earlier one.
    pub fn record_diag_climate(&mut self, region_index: usize, value: i32)
        requires
            old(self).wf(),
        ensures
            final(self).wf(),
            final(self)@ == old(self)@.with_diag_climate(region_index as u32, value),
    {
        Self::set_scalar_value(
            &mut self.diag_climate,
            #[verifier::truncate] (region_index as u32),
            value,
        );
    }

    /// Record the hazard gauges of a region, replacing any earlier record
    /// for it.
    pub fn record_hazard(&mut self, region_index: usize, drought: u16, flood: u16)
        requires
            old(self).wf(),
        ensures
            final(self).wf(),
            final(self)@ == old(self)@.with_hazard(region_index as u32, drought, flood),
    {
        put(
            &mut self.hazards,
            HazardEvent { region: #[verifier::truncate] (region_index as u32), drought, flood },
        );
    }

    /// Insert a cause entry while keeping the list ordered by
    /// `(target, code, note)`; among equal entries the new one is last.
    pub fn record_cause(&mut self, cause: Entry)
        requires
            old(self).wf(),
        ensures
            final(self).wf(),
            causes_sorted(final(self)@.causes),
            final(self)@ == old(self)@.with_cause(cause@),
    {
        insert_sorted(&mut self.causes, cause);
    }

    /// Record every cause of `causes`, first to last.
    pub fn extend_causes(&mut self, causes: Vec<Entry>)
        requires
            old(self).wf(),
        ensures
            final(self).wf(),
            final(self)@ == (DiffView {
                causes: insert_causes(old(self)@.causes, entries_view(causes@)),
                ..old(self)@
            }),
    {
        insert_all_sorted(&mut self.causes, &causes);
    }

    /// Set a named diagnostic, replacing an earlier value of that name.
    pub fn record_diagnostic(&mut self, name: &str, value: i32)
        requires
            old(self).wf(),
        ensures
            final(self).wf(),
            final(self)@ == old(self)@.with_diagnostic(name@, value),
    {
        proof {
            lemma_set_named_unique(self@.diagnostics, name@, value);
        }
        set_diagnostic(&mut self.diagnostics, name, value);
    }

    /// Set the energy summary, replacing an earlier one.
    pub fn record_diag_energy(&mut self, diag: DiagEnergy)
        ensures
            final(self)@ == old(self)@.with_diag_energy(diag),
            old(self).wf() ==> final(self).wf(),
    {
        self.diag_energy = Some(diag);
    }

    /// Merge `other` into this diff, as if every record of `other` were
    /// replayed on it in order.
    pub fn merge(&mut self, other: &Diff)
        requires
            old(self).wf(),
        ensures
            final(self).wf(),
            final(self)@ == old(self)@.merged(other@),
    {
        put_all(&mut self.biome, &other.biome);
        add_deltas(&mut self.water, &other.water);
        add_deltas(&mut self.soil, &other.soil);
        put_all(&mut self.insolation, &other.insolation);
        put_all(&mut self.tide_envelope, &other.tide_envelope);
        put_all(&mut self.elevation, &other.elevation);
        put_all(&mut self.temperature, &other.temperature);
        put_all(&mut self.temperature_baseline, &other.temperature_baseline);
        put_all(&mut self.precipitation, &other.precipitation);
        put_all(&mut self.precip_extreme, &other.precip_extreme);
        put_all(&mut self.humidity, &other.humidity);
        put_all(&mut self.albedo, &other.albedo);
        put_all(&mut self.permafrost_active, &other.permafrost_active);
        put_all(&mut self.freshwater_flux, &other.freshwater_flux);
        put_all(&mut self.melt_pulse, &other.melt_pulse);
        put_all(&mut self.ice_mass, &other.ice_mass);
        put_all(&mut self.heatwave_idx, &other.heatwave_idx);
        put_all(&mut self.diag_climate, &other.diag_climate);
        put_all(&mut self.hazards, &other.hazards);
        insert_all_sorted(&mut self.causes, &other.causes);
        proof {
            lemma_set_all_named_unique(self@.diagnostics, other@.diagnostics);
        }
        set_diagnostics(&mut self.diagnostics, &other.diagnostics);
        if let Some(energy) = other.diag_energy {
            self.diag_energy = Some(energy);
        }
    }

    /// Hand out the causes and leave the list empty.
    pub fn take_causes(&mut self) -> (out: Vec<Entry>)
        ensures
            out@ == old(self).causes@,
            entries_view(out@) == old(self)@.causes,
            final(self)@ == (DiffView { causes: Seq::empty(), ..old(self)@ }),
            old(self).wf() ==> final(self).wf(),
    {
        let mut out: Vec<Entry> = Vec::new();
        std::mem::swap(&mut self.causes, &mut out);
        proof {
            assert(entries_view(self.causes@) =~= Seq::empty());
        }
        out
    }

    /// Whether the diff records nothing at all.
    pub fn is_empty(&self) -> (out: bool)
        ensures
            out == self@.is_empty(),
    {
        proof {
            assert(entries_view(self.causes@).len() == self.causes@.len());
            assert(diagnostics_view(self.diagnostics@).len() == self.diagnostics@.len());
        }
        self.biome.is_empty()
            && self.water.is_empty()
            && self.soil.is_empty()
            && self.insolation.is_empty()
            && self.tide_envelope.is_empty()
            && self.elevation.is_empty()
            && self.temperature.is_empty()
            && self.temperature_baseline.is_empty()
            && self.precipitation.is_empty()
            && self.precip_extreme.is_empty()
            && self.humidity.is_empty()
            && self.albedo.is_empty()
            && self.permafrost_active.is_empty()
            && self.freshwater_flux.is_empty()
            && self.melt_pulse.is_empty()
            && self.ice_mass.is_empty()
            && self.heatwave_idx.is_empty()
            && self.diag_climate.is_empty()
            && self.hazards.is_empty()
            && self.causes.is_empty()
            && self.diagnostics.is_empty()
            && self.diag_energy.is_none()
    }

    /// Whether every list is in order: the condition under which records
    /// may be made.
    pub fn is_well_formed(&self) -> (out: bool)
        ensures
            out == self.wf(),
    {
        crate::sparse::is_strictly_sorted(&self.biome)
            && crate::sparse::is_strictly_sorted(&self.water)
            && crate::sparse::is_strictly_sorted(&self.soil)
            && crate::sparse::is_strictly_sorted(&self.insolation)
            && crate::sparse::is_strictly_sorted(&self.tide_envelope)
            && crate::sparse::is_strictly_sorted(&self.elevation)
            && crate::sparse::is_strictly_sorted(&self.temperature)
            && crate::sparse::is_strictly_sorted(&self.temperature_baseline)
            && crate::sparse::is_strictly_sorted(&self.precipitation)
            && crate::sparse::is_strictly_sorted(&self.precip_extreme)
            && crate::sparse::is_strictly_sorted(&self.humidity)
            && crate::sparse::is_strictly_sorted(&self.albedo)
            && crate::sparse::is_strictly_sorted(&self.permafrost_active)
            && crate::sparse::is_strictly_sorted(&self.freshwater_flux)
            && crate::sparse::is_strictly_sorted(&self.melt_pulse)
            && crate::sparse::is_strictly_sorted(&self.ice_mass)
            && crate::sparse::is_strictly_sorted(&self.heatwave_idx)
            && crate::sparse::is_strictly_sorted(&self.diag_climate)
            && crate::sparse::is_strictly_sorted(&self.hazards)
            && crate::cause::is_sorted(&self.causes)
            && diagnostics_unique(&self.diagnostics)
    }

    /// Write the biome of a region.
    pub fn set_biome_value(&mut self, region: u32, biome: i32)
        requires
            old(self).wf(),
        ensures
            final(self).wf(),
            final(self)@ == old(self)@.with_biome(region, biome),
    {
        put(&mut self.biome, BiomeChange { region, biome });
    }

    /// Add `delta` for `region` to a list of deltas.
    pub fn insert_delta(target: &mut Vec<ResourceDelta>, region: u32, delta: i32)
        requires
            strictly_sorted(old(target)@),
        ensures
            final(target)@ == accumulate(old(target)@, region, delta),
            strictly_sorted(final(target)@),
    {
        add_delta(target, region, delta);
    }

    /// Write `value` for `region` into a list of scalars.
    pub fn set_scalar_value(target: &mut Vec<ScalarValue>, region: u32, value: i32)
        requires
            strictly_sorted(old(target)@),
        ensures
            final(target)@ == upsert(old(target)@, ScalarValue { region, value }),
            strictly_sorted(final(target)@),
    {
        put(target, ScalarValue { region, value });
    }
}

/// Whether no diagnostic name occurs twice.
pub fn diagnostics_unique(v: &Vec<NamedValue>) -> (out: bool)
    ensures
        out == names_unique(diagnostics_view(v@)),
{
    let ghost s = diagnostics_view(v@);
    let mut j: usize = 0;
    while j < v.len()
        invariant
            j <= v.len(),
            s == diagnostics_view(v@),
            forall|a: int, b: int| #![trigger s[a], s[b]] 0 <= a < b < j ==> s[a].0 != s[b].0,
        decreases v.len() - j,
    {
        let mut i: usize = 0;
        while i < j
            invariant
                i <= j < v.len(),
                s == diagnostics_view(v@),
                forall|a: int| 0 <= a < i ==> (#[trigger] s[a]).0 != s[j as int].0,
            decreases j - i,
        {
            proof {
                lemma_text_order_equal(v@[i as int].name@, v@[j as int].name@);
                assert(s[i as int] == v@[i as int]@);
                assert(s[j as int] == v@[j as int]@);
            }
            if order_text(v[i].name.as_str(), v[j].name.as_str()) == 0 {
                return false;
            }
            i += 1;
        }
        j += 1;
    }
    true
}

} // verus!
