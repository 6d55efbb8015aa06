//! Frames: the per-tick output record.
//!
//! A frame carries the tick, the grid's shape, the tick's diff packed into
//! maps from region key to value, the diagnostics, the highlights, the
//! chronicle, and the era flag. A map is a list of named values in which no
//! name occurs twice. Hazards and temperature baselines are not part of a
//! frame.

use vstd::prelude::*;
use vstd::string::StringExecFns;

use crate::diff::{diagnostics_view, Diff, DiffView, NamedValue};
use crate::io::record::{
    field_if_present, fields_view, keyed, pack, push_field, Field, FieldView,
};

verus! {

/// The diff of a tick, packed into maps from region key to value.
#[derive(Clone, Debug)]
pub struct FrameDiff {
    pub biome: Vec<NamedValue>,
    pub insolation: Vec<NamedValue>,
    pub tide_envelope: Vec<NamedValue>,
    pub elevation: Vec<NamedValue>,
    pub temp: Vec<NamedValue>,
    pub precip: Vec<NamedValue>,
    pub precip_extreme: Vec<NamedValue>,
    pub humidity: Vec<NamedValue>,
    pub albedo: Vec<NamedValue>,
    pub permafrost_active: Vec<NamedValue>,
    pub freshwater_flux: Vec<NamedValue>,
    pub melt_pulse: Vec<NamedValue>,
    pub ice_mass: Vec<NamedValue>,
    pub heatwave_idx: Vec<NamedValue>,
    pub diag_climate: Vec<NamedValue>,
    pub soil: Vec<NamedValue>,
    pub water: Vec<NamedValue>,
}

/// What a packed diff holds, map by map.
pub struct FrameDiffView {
    pub biome: Seq<(Seq<char>, i32)>,
    pub insolation: Seq<(Seq<char>, i32)>,
    pub tide_envelope: Seq<(Seq<char>, i32)>,
    pub elevation: Seq<(Seq<char>, i32)>,
    pub temp: Seq<(Seq<char>, i32)>,
    pub precip: Seq<(Seq<char>, i32)>,
    pub precip_extreme: Seq<(Seq<char>, i32)>,
    pub humidity: Seq<(Seq<char>, i32)>,
    pub albedo: Seq<(Seq<char>, i32)>,
    pub permafrost_active: Seq<(Seq<char>, i32)>,
    pub freshwater_flux: Seq<(Seq<char>, i32)>,
    pub melt_pulse: Seq<(Seq<char>, i32)>,
    pub ice_mass: Seq<(Seq<char>, i32)>,
    pub heatwave_idx: Seq<(Seq<char>, i32)>,
    pub diag_climate: Seq<(Seq<char>, i32)>,
    pub soil: Seq<(Seq<char>, i32)>,
    pub water: Seq<(Seq<char>, i32)>,
}

impl View for FrameDiff {
    type V = FrameDiffView;

    open spec fn view(&self) -> FrameDiffView {
        FrameDiffView {
            biome: diagnostics_view(self.biome@),
            insolation: diagnostics_view(self.insolation@),
            tide_envelope: diagnostics_view(self.tide_envelope@),
            elevation: diagnostics_view(self.elevation@),
            temp: diagnostics_view(self.temp@),
            precip: diagnostics_view(self.precip@),
            precip_extreme: diagnostics_view(self.precip_extreme@),
            humidity: diagnostics_view(self.humidity@),
            albedo: diagnostics_view(self.albedo@),
            permafrost_active: diagnostics_view(self.permafrost_active@),
            freshwater_flux: diagnostics_view(self.freshwater_flux@),
            melt_pulse: diagnostics_view(self.melt_pulse@),
            ice_mass: diagnostics_view(self.ice_mass@),
            heatwave_idx: diagnostics_view(self.heatwave_idx@),
            diag_climate: diagnostics_view(self.diag_climate@),
            soil: diagnostics_view(self.soil@),
            water: diagnostics_view(self.water@),
        }
    }
}

impl FrameDiffView {
    /// The packed form of a diff.
    pub open spec fn of(d: DiffView) -> FrameDiffView {
        FrameDiffView {
            biome: keyed(d.biome),
            insolation: keyed(d.insolation),
            tide_envelope: keyed(d.tide_envelope),
            elevation: keyed(d.elevation),
            temp: keyed(d.temperature),
            precip: keyed(d.precipitation),
            precip_extreme: keyed(d.precip_extreme),
            humidity: keyed(d.humidity),
            albedo: keyed(d.albedo),
            permafrost_active: keyed(d.permafrost_active),
            freshwater_flux: keyed(d.freshwater_flux),
            melt_pulse: keyed(d.melt_pulse),
            ice_mass: keyed(d.ice_mass),
            heatwave_idx: keyed(d.heatwave_idx),
            diag_climate: keyed(d.diag_climate),
            soil: keyed(d.soil),
            water: keyed(d.water),
        }
    }

    /// The fields of the serialised diff: every map that is not empty,
    /// under its name, in a fixed order.
    pub open spec fn fields_spec(self) -> Seq<FieldView> {
        Seq::<FieldView>::empty()
        + field_if_present("biome"@, self.biome)
        + field_if_present("insolation"@, self.insolation)
        + field_if_present("tide_envelope"@, self.tide_envelope)
        + field_if_present("elevation"@, self.elevation)
        + field_if_present("temp"@, self.temp)
        + field_if_present("precip"@, self.precip)
        + field_if_present("precip_extreme"@, self.precip_extreme)
        + field_if_present("humidity"@, self.humidity)
        + field_if_present("albedo"@, self.albedo)
        + field_if_present("permafrost_active"@, self.permafrost_active)
        + field_if_present("freshwater_flux"@, self.freshwater_flux)
        + field_if_present("melt_pulse"@, self.melt_pulse)
        + field_if_present("ice_mass"@, self.ice_mass)
        + field_if_present("heatwave_idx"@, self.heatwave_idx)
        + field_if_present("diag_climate"@, self.diag_climate)
        + field_if_present("soil"@, self.soil)
        + field_if_present("water"@, self.water)
    }

    /// No map holds an entry.
    pub open spec fn is_empty(self) -> bool {
        &&& self.biome.len() == 0
        &&& self.insolation.len() == 0
        &&& self.tide_envelope.len() == 0
        &&& self.elevation.len() == 0
        &&& self.temp.len() == 0
        &&& self.precip.len() == 0
        &&& self.precip_extreme.len() == 0
        &&& self.humidity.len() == 0
        &&& self.albedo.len() == 0
        &&& self.permafrost_active.len() == 0
        &&& self.freshwater_flux.len() == 0
        &&& self.melt_pulse.len() == 0
        &&& self.ice_mass.len() == 0
        &&& self.heatwave_idx.len() == 0
        &&& self.diag_climate.len() == 0
        &&& self.soil.len() == 0
        &&& self.water.len() == 0
    }
}

impl Default for FrameDiff {
    fn default() -> (out: Self)
        ensures
            out@.is_empty(),
    {
        let out = FrameDiff {
            biome: Vec::new(),
            insolation: Vec::new(),
            tide_envelope: Vec::new(),
            elevation: Vec::new(),
            temp: Vec::new(),
            precip: Vec::new(),
            precip_extreme: Vec::new(),
            humidity: Vec::new(),
            albedo: Vec::new(),
            permafrost_active: Vec::new(),
            freshwater_flux: Vec::new(),
            melt_pulse: Vec::new(),
            ice_mass: Vec::new(),
            heatwave_idx: Vec::new(),
            diag_climate: Vec::new(),
            soil: Vec::new(),
            water: Vec::new(),
        };
        proof {
            assert(diagnostics_view(out.biome@).len() == out.biome@.len());
            assert(diagnostics_view(out.insolation@).len() == out.insolation@.len());
            assert(diagnostics_view(out.tide_envelope@).len() == out.tide_envelope@.len());
            assert(diagnostics_view(out.elevation@).len() == out.elevation@.len());
            assert(diagnostics_view(out.temp@).len() == out.temp@.len());
            assert(diagnostics_view(out.precip@).len() == out.precip@.len());
            assert(diagnostics_view(out.precip_extreme@).len() == out.precip_extreme@.len());
            assert(diagnostics_view(out.humidity@).len() == out.humidity@.len());
            assert(diagnostics_view(out.albedo@).len() == out.albedo@.len());
            assert(diagnostics_view(out.permafrost_active@).len() == out.permafrost_active@.len());
            assert(diagnostics_view(out.freshwater_flux@).len() == out.freshwater_flux@.len());
            assert(diagnostics_view(out.melt_pulse@).len() == out.melt_pulse@.len());
            assert(diagnostics_view(out.ice_mass@).len() == out.ice_mass@.len());
            assert(diagnostics_view(out.heatwave_idx@).len() == out.heatwave_idx@.len());
            assert(diagnostics_view(out.diag_climate@).len() == out.diag_climate@.len());
            assert(diagnostics_view(out.soil@).len() == out.soil@.len());
            assert(diagnostics_view(out.water@).len() == out.water@.len());
        }
        out
    }
}

impl FrameDiff {
    /// The fields of the serialised diff: every map that is not empty,
    /// under its name, in a fixed order.
    pub fn into_fields(self) -> (out: Vec<Field>)
        ensures
            fields_view(out@) == self@.fields_spec(),
    {
        let mut out: Vec<Field> = Vec::new();
        proof {
            assert(fields_view(out@) =~= Seq::<FieldView>::empty());
        }
        push_field(&mut out, "biome", self.biome);
        push_field(&mut out, "insolation", self.insolation);
        push_field(&mut out, "tide_envelope", self.tide_envelope);
        push_field(&mut out, "elevation", self.elevation);
        push_field(&mut out, "temp", self.temp);
        push_field(&mut out, "precip", self.precip);
        push_field(&mut out, "precip_extreme", self.precip_extreme);
        push_field(&mut out, "humidity", self.humidity);
        push_field(&mut out, "albedo", self.albedo);
        push_field(&mut out, "permafrost_active", self.permafrost_active);
        push_field(&mut out, "freshwater_flux", self.freshwater_flux);
        push_field(&mut out, "melt_pulse", self.melt_pulse);
        push_field(&mut out, "ice_mass", self.ice_mass);
        push_field(&mut out, "heatwave_idx", self.heatwave_idx);
        push_field(&mut out, "diag_climate", self.diag_climate);
        push_field(&mut out, "soil", self.soil);
        push_field(&mut out, "water", self.water);
        out
    }

    /// Whether no map holds an entry.
    pub fn is_empty(&self) -> (out: bool)
        ensures
            out == self@.is_empty(),
    {
        proof {
            assert(diagnostics_view(self.biome@).len() == self.biome@.len());
            assert(diagnostics_view(self.insolation@).len() == self.insolation@.len());
            assert(diagnostics_view(self.tide_envelope@).len() == self.tide_envelope@.len());
            assert(diagnostics_view(self.elevation@).len() == self.elevation@.len());
            assert(diagnostics_view(self.temp@).len() == self.temp@.len());
            assert(diagnostics_view(self.precip@).len() == self.precip@.len());
            assert(diagnostics_view(self.precip_extreme@).len() == self.precip_extreme@.len());
            assert(diagnostics_view(self.humidity@).len() == self.humidity@.len());
            assert(diagnostics_view(self.albedo@).len() == self.albedo@.len());
            assert(diagnostics_view(self.permafrost_active@).len() == self.permafrost_active@.len());
            assert(diagnostics_view(self.freshwater_flux@).len() == self.freshwater_flux@.len());
            assert(diagnostics_view(self.melt_pulse@).len() == self.melt_pulse@.len());
            assert(diagnostics_view(self.ice_mass@).len() == self.ice_mass@.len());
            assert(diagnostics_view(self.heatwave_idx@).len() == self.heatwave_idx@.len());
            assert(diagnostics_view(self.diag_climate@).len() == self.diag_climate@.len());
            assert(diagnostics_view(self.soil@).len() == self.soil@.len());
            assert(diagnostics_view(self.water@).len() == self.water@.len());
        }
        self.biome.is_empty()
            && self.insolation.is_empty()
            && self.tide_envelope.is_empty()
            && self.elevation.is_empty()
            && self.temp.is_empty()
            && self.precip.is_empty()
            && self.precip_extreme.is_empty()
            && self.humidity.is_empty()
            && self.albedo.is_empty()
            && self.permafrost_active.is_empty()
            && self.freshwater_flux.is_empty()
            && self.melt_pulse.is_empty()
            && self.ice_mass.is_empty()
            && self.heatwave_idx.is_empty()
            && self.diag_climate.is_empty()
            && self.soil.is_empty()
            && self.water.is_empty()
    }
}

/// The shape of the grid.
#[derive(Clone, Copy, Debug, PartialEq, Eq, Structural)]
pub struct FrameWorldMeta {
    pub width: u32,
    pub height: u32,
}

/// The output record of one tick.
#[derive(Clone, Debug)]
pub struct Frame<H> {
    pub t: u64,
    pub world: FrameWorldMeta,
    pub diff: FrameDiff,
    pub diagnostics: Vec<NamedValue>,
    pub highlights: Vec<H>,
    pub chronicle: Vec<String>,
    pub era_end: bool,
}

/// Build the frame of tick `t` from the tick's diff, highlights and
/// chronicle.
pub fn make_frame<H>(
    t: u64,
    diff: Diff,
    highlights: Vec<H>,
    chronicle: Vec<String>,
    era_end: bool,
    width: u32,
    height: u32,
) -> (out: Frame<H>)
    ensures
        out.t == t,
        out.world == (FrameWorldMeta { width, height }),
        out.diff@ == FrameDiffView::of(diff@),
        diagnostics_view(out.diagnostics@) == diff@.diagnostics,
        out.highlights == highlights,
        out.chronicle == chronicle,
        out.era_end == era_end,
{
    let frame_diff = FrameDiff {
        biome: pack(&diff.biome),
        insolation: pack(&diff.insolation),
        tide_envelope: pack(&diff.tide_envelope),
        elevation: pack(&diff.elevation),
        temp: pack(&diff.temperature),
        precip: pack(&diff.precipitation),
        precip_extreme: pack(&diff.precip_extreme),
        humidity: pack(&diff.humidity),
        albedo: pack(&diff.albedo),
        permafrost_active: pack(&diff.permafrost_active),
        freshwater_flux: pack(&diff.freshwater_flux),
        melt_pulse: pack(&diff.melt_pulse),
        ice_mass: pack(&diff.ice_mass),
        heatwave_idx: pack(&diff.heatwave_idx),
        diag_climate: pack(&diff.diag_climate),
        soil: pack(&diff.soil),
        water: pack(&diff.water),
    };
    Frame {
        t,
        world: FrameWorldMeta { width, height },
        diff: frame_diff,
        diagnostics: diff.diagnostics,
        highlights,
        chronicle,
        era_end,
    }
}

/// A serialised frame as a line of its own: the text followed by a line
/// feed.
pub fn ndjson_line(json: &str) -> (out: String)
    ensures
        out@ == json@.push('\n'),
{
    proof {
        reveal_strlit("\n");
    }
    let mut out = String::from_str(json);
    out.append("\n");
    proof {
        assert("\n"@ =~= seq!['\n']);
        assert(out@ =~= json@.push('\n'));
    }
    out
}

} // verus!
