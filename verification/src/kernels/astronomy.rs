//! Astronomy: insolation and tide envelope per region, and the orbital
//! causes of a tick.

use vstd::prelude::*;
use vstd::string::StringExecFns;

use crate::cause::{Code, Entry, EntryView};
use crate::diff::{Diff, DiffView};
use crate::error::SimError;
use crate::schedule::{lines_view, KernelRun};
use crate::text::{labelled, labelled_text, region_target, region_target_text};
use crate::world::{Region, World};

verus! {

/// Stage label of the astronomy kernel.
pub const STAGE: &'static str = "kernel:astronomy";

/// End of the chronicle line in a tick of spring tides.
pub const SPRING_TIDE_SUMMARY: &'static str = "Spring tides amplify coastal forces.";

/// End of the chronicle line in a tick of neap tides.
pub const NEAP_TIDE_SUMMARY: &'static str = "Neap tides calm coastal forces.";

/// What the orbital formulas give for one region.
#[derive(Debug)]
pub struct RegionSample {
    /// Insolation, in tenths of watts per square metre.
    pub insolation_tenths: i32,
    /// Note of the insolation gradient against the equator.
    pub gradient_note: String,
    /// Tide envelope, in tenths of metres.
    pub tide_envelope_tenths: i32,
}

/// What the orbital formulas give for one tick.
#[derive(Debug)]
pub struct AstronomySample {
    /// Note of the obliquity shift.
    pub obliquity_note: String,
    /// Note of the precession phase.
    pub precession_note: String,
    /// Position in the solar cycle, as an index.
    pub solar_cycle_index: u32,
    /// Whether the lunar wave is at or above zero: spring tides; neap tides
    /// otherwise.
    pub spring_tide: bool,
    /// Note of the tide phase.
    pub tide_note: String,
    /// Start of the chronicle line: tilt and precession.
    pub orbit_summary: String,
    /// One sample per region.
    pub regions: Vec<RegionSample>,
}

/// What a region's sample says.
pub struct RegionSampleView {
    pub insolation_tenths: i32,
    pub gradient_note: Seq<char>,
    pub tide_envelope_tenths: i32,
}

/// What a tick's sample says.
pub struct AstronomySampleView {
    pub obliquity_note: Seq<char>,
    pub precession_note: Seq<char>,
    pub solar_cycle_index: u32,
    pub spring_tide: bool,
    pub tide_note: Seq<char>,
    pub orbit_summary: Seq<char>,
    pub regions: Seq<RegionSampleView>,
}

impl View for RegionSample {
    type V = RegionSampleView;

    open spec fn view(&self) -> RegionSampleView {
        RegionSampleView {
            insolation_tenths: self.insolation_tenths,
            gradient_note: self.gradient_note@,
            tide_envelope_tenths: self.tide_envelope_tenths,
        }
    }
}

impl View for AstronomySample {
    type V = AstronomySampleView;

    open spec fn view(&self) -> AstronomySampleView {
        AstronomySampleView {
            obliquity_note: self.obliquity_note@,
            precession_note: self.precession_note@,
            solar_cycle_index: self.solar_cycle_index,
            spring_tide: self.spring_tide,
            tide_note: self.tide_note@,
            orbit_summary: self.orbit_summary@,
            regions: self.regions@.map_values(|r: RegionSample| r@),
        }
    }
}

/// A cause about the world's astronomy.
pub open spec fn world_cause(code: Code, note: Seq<char>) -> EntryView {
    EntryView { target: "world:astronomy"@, code, note: Some(note) }
}

/// The diff with the orbital causes of the tick: obliquity shift,
/// precession phase, and solar cycle.
pub open spec fn orbital_causes(s: AstronomySampleView) -> DiffView {
    DiffView::empty().with_cause(world_cause(Code::ObliquityShift, s.obliquity_note)).with_cause(
        world_cause(Code::PrecessionPhase, s.precession_note),
    ).with_cause(
        world_cause(
            Code::SolarCyclePeak,
            labelled_text("cycle_index="@, s.solar_cycle_index as int),
        ),
    )
}

/// The diff after the kernel has handled one region: insolation and tide
/// envelope are recorded, the insolation gradient is named, and the tide is
/// named as spring or neap.
pub open spec fn region_step(d: DiffView, r: Region, s: AstronomySampleView, rs: RegionSampleView)
    -> DiffView {
    d.with_insolation(r.id, rs.insolation_tenths).with_cause(
        EntryView {
            target: region_target_text(r.id, "/insolation"@),
            code: Code::InsolationGradient,
            note: Some(rs.gradient_note),
        },
    ).with_tide_envelope(r.id, rs.tide_envelope_tenths).with_cause(
        EntryView {
            target: region_target_text(r.id, "/tide"@),
            code: if s.spring_tide {
                Code::TideSpring
            } else {
                Code::TideNeap
            },
            note: Some(s.tide_note),
        },
    )
}

/// The diff after the kernel has handled the first `n` regions.
pub open spec fn region_steps(regions: Seq<Region>, s: AstronomySampleView, n: nat) -> DiffView
    decreases n,
{
    if n == 0 {
        orbital_causes(s)
    } else {
        region_step(region_steps(regions, s, (n - 1) as nat), regions[n - 1], s, s.regions[n - 1])
    }
}

/// The chronicle line of the tick: the orbit summary, then the tide
/// summary.
pub open spec fn chronicle_line(s: AstronomySampleView) -> Seq<char> {
    s.orbit_summary + (if s.spring_tide {
        SPRING_TIDE_SUMMARY@
    } else {
        NEAP_TIDE_SUMMARY@
    })
}

/// Handle one region.
pub fn update_region(
    diff: &mut Diff,
    region: &Region,
    sample: &AstronomySample,
    region_sample: &RegionSample,
)
    requires
        old(diff).wf(),
    ensures
        final(diff).wf(),
        final(diff)@ == region_step(old(diff)@, *region, sample@, region_sample@),
{
    let index = region.index();
    diff.record_insolation(index, region_sample.insolation_tenths);
    let target = region_target(region.id, "/insolation");
    diff.record_cause(
        Entry::new(
            target.as_str(),
            Code::InsolationGradient,
            Some(region_sample.gradient_note.clone()),
        ),
    );
    diff.record_tide_envelope(index, region_sample.tide_envelope_tenths);
    let code = if sample.spring_tide {
        Code::TideSpring
    } else {
        Code::TideNeap
    };
    let target = region_target(region.id, "/tide");
    diff.record_cause(Entry::new(target.as_str(), code, Some(sample.tide_note.clone())));
}

/// Run the kernel over all regions.
///
/// A world in which a region's id is not its position is refused with
/// `RegionIndexMismatch` for the first such region.
pub fn update<H>(world: &World, sample: &AstronomySample) -> (out: Result<KernelRun<H>, SimError>)
    requires
        sample.regions@.len() == world.regions@.len(),
    ensures
        match out {
            Ok(run) => {
                &&& world@.ids_match()
                &&& run.diff.wf()
                &&& run.diff@ == region_steps(world.regions@, sample@, world.regions@.len())
                &&& lines_view(run.chronicle@) == seq![chronicle_line(sample@)]
                &&& run.highlights@.len() == 0
            },
            Err(e) => {
                &&& !world@.ids_match()
                &&& world@.first_mismatch(e)
            },
        },
{
    match world.check_ids() {
        Err(e) => {
            return Err(e);
        },
        Ok(_) => {},
    }
    let mut diff = Diff::default();
    diff.record_cause(
        Entry::new("world:astronomy", Code::ObliquityShift, Some(sample.obliquity_note.clone())),
    );
    diff.record_cause(
        Entry::new("world:astronomy", Code::PrecessionPhase, Some(sample.precession_note.clone())),
    );
    let cycle_note = labelled("cycle_index=", sample.solar_cycle_index as i64);
    diff.record_cause(Entry::new("world:astronomy", Code::SolarCyclePeak, Some(cycle_note)));
    let mut index: usize = 0;
    while index < world.regions.len()
        invariant
            index <= world.regions@.len(),
            sample.regions@.len() == world.regions@.len(),
            diff.wf(),
            world@.ids_match(),
            diff@ == region_steps(world.regions@, sample@, index as nat),
        decreases world.regions@.len() - index,
    {
        let region = &world.regions[index];
        proof {
            assert(sample@.regions[index as int] == sample.regions@[index as int]@);
        }
        update_region(&mut diff, region, sample, &sample.regions[index]);
        index += 1;
    }
    let mut line = sample.orbit_summary.clone();
    if sample.spring_tide {
        line.append(SPRING_TIDE_SUMMARY);
    } else {
        line.append(NEAP_TIDE_SUMMARY);
    }
    let mut chronicle: Vec<String> = Vec::new();
    chronicle.push(line);
    proof {
        assert(lines_view(chronicle@) =~= seq![chronicle_line(sample@)]);
    }
    Ok(KernelRun { diff, chronicle, highlights: Vec::new() })
}

} // verus!
