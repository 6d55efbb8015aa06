//! How per-region lists are laid out for serialisation.
//!
//! A list becomes a map from region key to value. A diff becomes a list of
//! named maps, one for each list that is not empty, under stable names.

use vstd::prelude::*;
use vstd::string::StringExecFns;

use crate::diff::{
    diagnostics_view, first_named, lemma_first_named, set_diagnostic, set_named, Diff, DiffView,
    NamedValue,
};
use crate::sparse::{is_strictly_sorted, strictly_sorted, Valued};
use crate::text::{decimal, digit_char, lemma_decimal_nonempty};
use crate::world::World;

verus! {


/// The key of a region in a frame's maps: `r:` and the region's index in
/// decimal.
pub open spec fn region_key_text(region: u32) -> Seq<char> {
    "r:"@ + decimal(region as nat)
}

/// Different digits have different characters.
pub proof fn lemma_digit_char_injective(a: int, b: int)
    requires
        0 <= a < 10,
        0 <= b < 10,
        digit_char(a) == digit_char(b),
    ensures
        a == b,
{
}

/// Different numbers have different decimal renderings.
pub proof fn lemma_decimal_injective(a: nat, b: nat)
    requires
        decimal(a) == decimal(b),
    ensures
        a == b,
    decreases a,
{
    lemma_decimal_nonempty(a / 10);
    lemma_decimal_nonempty(b / 10);
    if a < 10 && b < 10 {
        assert(decimal(a)[0] == digit_char(a as int));
        assert(decimal(b)[0] == digit_char(b as int));
        lemma_digit_char_injective(a as int, b as int);
    } else if a >= 10 && b >= 10 {
        let da = decimal(a / 10);
        let db = decimal(b / 10);
        assert(decimal(a).last() == digit_char((a % 10) as int));
        assert(decimal(b).last() == digit_char((b % 10) as int));
        assert(decimal(a).drop_last() =~= da);
        assert(decimal(b).drop_last() =~= db);
        lemma_decimal_injective(a / 10, b / 10);
        lemma_digit_char_injective((a % 10) as int, (b % 10) as int);
        assert(a == 10 * (a / 10) + a % 10);
        assert(b == 10 * (b / 10) + b % 10);
    } else if a < 10 {
        assert(decimal(a).len() == 1);
        assert(decimal(b).len() == decimal(b / 10).len() + 1);
    } else {
        assert(decimal(b).len() == 1);
        assert(decimal(a).len() == decimal(a / 10).len() + 1);
    }
}

/// Different regions have different keys.
pub proof fn lemma_region_key_injective(a: u32, b: u32)
    requires
        region_key_text(a) == region_key_text(b),
    ensures
        a == b,
{
    let prefix = "r:"@;
    assert(region_key_text(a).skip(prefix.len() as int) =~= decimal(a as nat));
    assert(region_key_text(b).skip(prefix.len() as int) =~= decimal(b as nat));
    lemma_decimal_injective(a as nat, b as nat);
}

/// A list packed into a map: each entry is set under its region's key,
/// first to last, so that a later entry of a region replaces an earlier
/// one.
pub open spec fn keyed<T: Valued>(list: Seq<T>) -> Seq<(Seq<char>, i32)>
    decreases list.len(),
{
    if list.len() == 0 {
        Seq::empty()
    } else {
        set_named(
            keyed(list.drop_last()),
            region_key_text(list.last().key()),
            list.last().amount(),
        )
    }
}

/// Every name of a packed list is the key of one of the list's regions.
pub proof fn lemma_keyed_names<T: Valued>(list: Seq<T>)
    ensures
        forall|i: int|
            0 <= i < keyed(list).len() ==> exists|j: int|
                0 <= j < list.len() && (#[trigger] keyed(list)[i]).0 == region_key_text(
                    (#[trigger] list[j]).key(),
                ),
    decreases list.len(),
{
    if list.len() > 0 {
        let head = list.drop_last();
        lemma_keyed_names(head);
        let name = region_key_text(list.last().key());
        lemma_first_named(keyed(head), name);
        let packed = keyed(list);
        assert forall|i: int| 0 <= i < packed.len() implies exists|j: int|
            0 <= j < list.len() && (#[trigger] packed[i]).0 == region_key_text(
                (#[trigger] list[j]).key(),
            ) by {
            if packed[i].0 == name {
                assert(list[list.len() - 1].key() == list.last().key());
            } else {
                assert(packed[i] == keyed(head)[i]);
                let j = choose|j: int|
                    0 <= j < head.len() && keyed(head)[i].0 == region_key_text(
                        (#[trigger] head[j]).key(),
                    );
                assert(list[j] == head[j]);
            }
        }
    }
}

/// A strictly sorted list packs entry by entry: nothing is replaced.
pub proof fn lemma_keyed_of_sorted<T: Valued>(list: Seq<T>)
    requires
        strictly_sorted(list),
    ensures
        keyed(list) == Seq::new(
            list.len(),
            |i: int| (region_key_text(list[i].key()), list[i].amount()),
        ),
    decreases list.len(),
{
    if list.len() > 0 {
        let head = list.drop_last();
        assert forall|i: int, j: int|
            #![trigger head[i], head[j]]
            0 <= i < j < head.len() implies head[i].key() < head[j].key() by {
            assert(list[i].key() < list[j].key());
        }
        lemma_keyed_of_sorted(head);
        let name = region_key_text(list.last().key());
        lemma_first_named(keyed(head), name);
        let k = first_named(keyed(head), name);
        if k < keyed(head).len() {
            assert(keyed(head)[k].0 == region_key_text(head[k].key()));
            lemma_region_key_injective(head[k].key(), list.last().key());
            assert(list[k].key() < list[list.len() - 1].key());
        }
        assert(keyed(list) =~= Seq::new(
            list.len(),
            |i: int| (region_key_text(list[i].key()), list[i].amount()),
        ));
    }
}

/// Pack a list into a map from region key to value.
pub fn pack<T: Valued>(list: &Vec<T>) -> (out: Vec<NamedValue>)
    ensures
        diagnostics_view(out@) == keyed(list@),
{
    let mut out: Vec<NamedValue> = Vec::new();
    let sorted = is_strictly_sorted(list);
    let mut i: usize = 0;
    proof {
        assert(diagnostics_view(out@) =~= keyed(list@.take(0)));
    }
    while i < list.len()
        invariant
            i <= list.len(),
            sorted == strictly_sorted(list@),
            diagnostics_view(out@) == keyed(list@.take(i as int)),
        decreases list.len() - i,
    {
        let key = World::region_key(list[i].region_key() as usize);
        let value = list[i].payload();
        proof {
            assert(list@.take(i + 1).drop_last() =~= list@.take(i as int));
        }
        if sorted {
            let entry = NamedValue { name: key, value };
            proof {
                let prefix = list@.take(i as int);
                let longer = list@.take(i + 1);
                assert forall|a: int, b: int|
                    #![trigger prefix[a], prefix[b]]
                    0 <= a < b < prefix.len() implies prefix[a].key() < prefix[b].key() by {
                    assert(list@[a].key() < list@[b].key());
                }
                assert forall|a: int, b: int|
                    #![trigger longer[a], longer[b]]
                    0 <= a < b < longer.len() implies longer[a].key() < longer[b].key() by {
                    assert(list@[a].key() < list@[b].key());
                }
                lemma_keyed_of_sorted(prefix);
                lemma_keyed_of_sorted(longer);
                let pushed = diagnostics_view(out@.push(entry));
                assert(pushed.len() == longer.len());
                assert forall|k: int| 0 <= k < pushed.len() implies pushed[k] == keyed(
                    longer,
                )[k] by {
                    if k < i {
                        assert(pushed[k] == diagnostics_view(out@)[k]);
                        assert(keyed(prefix)[k] == (
                            region_key_text(prefix[k].key()),
                            prefix[k].amount(),
                        ));
                        assert(prefix[k] == longer[k]);
                    } else {
                        assert(pushed[k] == entry@);
                        assert(longer[k] == list@[i as int]);
                    }
                }
                assert(pushed =~= keyed(longer));
            }
            out.push(entry);
        } else {
            set_diagnostic(&mut out, key.as_str(), value);
        }
        i += 1;
    }
    proof {
        assert(list@.take(i as int) =~= list@);
    }
    out
}


/// A named map of a serialised record.
#[derive(Clone, Debug)]
pub struct Field {
    pub name: &'static str,
    pub entries: Vec<NamedValue>,
}

/// What a field says: its name and its entries.
pub struct FieldView {
    pub name: Seq<char>,
    pub entries: Seq<(Seq<char>, i32)>,
}

impl View for Field {
    type V = FieldView;

    open spec fn view(&self) -> FieldView {
        FieldView { name: self.name@, entries: diagnostics_view(self.entries@) }
    }
}

/// What a list of fields says, field by field.
pub open spec fn fields_view(v: Seq<Field>) -> Seq<FieldView> {
    v.map_values(|f: Field| f@)
}

/// The field of a map under a name: one field if the map holds an entry,
/// none if the map is empty.
pub open spec fn field_if_present(name: Seq<char>, entries: Seq<(Seq<char>, i32)>) -> Seq<
    FieldView,
> {
    if entries.len() == 0 {
        Seq::empty()
    } else {
        seq![FieldView { name, entries }]
    }
}

/// Append the field of a map under a name, unless the map is empty.
pub fn push_field(out: &mut Vec<Field>, name: &'static str, entries: Vec<NamedValue>)
    ensures
        fields_view(final(out)@) == fields_view(old(out)@) + field_if_present(
            name@,
            diagnostics_view(entries@),
        ),
{
    proof {
        assert(diagnostics_view(entries@).len() == entries@.len());
    }
    if entries.is_empty() {
        proof {
            assert(fields_view(out@) + Seq::<FieldView>::empty() =~= fields_view(out@));
        }
    } else {
        let field = Field { name, entries };
        proof {
            assert(fields_view(out@.push(field)) =~= fields_view(out@) + seq![field@]);
        }
        out.push(field);
    }
}

/// The per-region fields of a serialised diff: every list that is not
/// empty, packed into a map, under its name, in a fixed order. Hazards, causes,
/// diagnostics and the energy summary are not among them.
pub open spec fn diff_fields_spec(d: DiffView) -> Seq<FieldView> {
    Seq::<FieldView>::empty()
    + field_if_present("biome"@, keyed(d.biome))
    + field_if_present("water"@, keyed(d.water))
    + field_if_present("soil"@, keyed(d.soil))
    + field_if_present("insolation"@, keyed(d.insolation))
    + field_if_present("tide_envelope"@, keyed(d.tide_envelope))
    + field_if_present("elevation"@, keyed(d.elevation))
    + field_if_present("temp"@, keyed(d.temperature))
    + field_if_present("temperature_baseline"@, keyed(d.temperature_baseline))
    + field_if_present("precip"@, keyed(d.precipitation))
    + field_if_present("precip_extreme"@, keyed(d.precip_extreme))
    + field_if_present("humidity"@, keyed(d.humidity))
    + field_if_present("albedo"@, keyed(d.albedo))
    + field_if_present("permafrost_active"@, keyed(d.permafrost_active))
    + field_if_present("freshwater_flux"@, keyed(d.freshwater_flux))
    + field_if_present("melt_pulse"@, keyed(d.melt_pulse))
    + field_if_present("ice_mass"@, keyed(d.ice_mass))
    + field_if_present("heatwave_idx"@, keyed(d.heatwave_idx))
    + field_if_present("diag_climate"@, keyed(d.diag_climate))
}

/// The per-region fields of a serialised diff.
pub fn diff_fields(diff: &Diff) -> (out: Vec<Field>)
    ensures
        fields_view(out@) == diff_fields_spec(diff@),
{
    let mut out: Vec<Field> = Vec::new();
    proof {
        assert(fields_view(out@) =~= Seq::<FieldView>::empty());
    }
    push_field(&mut out, "biome", pack(&diff.biome));
    push_field(&mut out, "water", pack(&diff.water));
    push_field(&mut out, "soil", pack(&diff.soil));
    push_field(&mut out, "insolation", pack(&diff.insolation));
    push_field(&mut out, "tide_envelope", pack(&diff.tide_envelope));
    push_field(&mut out, "elevation", pack(&diff.elevation));
    push_field(&mut out, "temp", pack(&diff.temperature));
    push_field(&mut out, "temperature_baseline", pack(&diff.temperature_baseline));
    push_field(&mut out, "precip", pack(&diff.precipitation));
    push_field(&mut out, "precip_extreme", pack(&diff.precip_extreme));
    push_field(&mut out, "humidity", pack(&diff.humidity));
    push_field(&mut out, "albedo", pack(&diff.albedo));
    push_field(&mut out, "permafrost_active", pack(&diff.permafrost_active));
    push_field(&mut out, "freshwater_flux", pack(&diff.freshwater_flux));
    push_field(&mut out, "melt_pulse", pack(&diff.melt_pulse));
    push_field(&mut out, "ice_mass", pack(&diff.ice_mass));
    push_field(&mut out, "heatwave_idx", pack(&diff.heatwave_idx));
    push_field(&mut out, "diag_climate", pack(&diff.diag_climate));
    out
}

} // verus!
