//! Geodynamics: rare volcanic uplift and subsidence, spread to the grid
//! neighbours.

use vstd::prelude::*;
use vstd::string::StringExecFns;

use crate::cause::{Code, Entry, EntryView};
use crate::diff::{Diff, DiffView};
use crate::error::SimError;
use crate::fixed::{clamp_i32, clamp_int, toward_zero};
use crate::rng::{child_id_spec, draw_spec, mix64_spec, Stream, COUNTER_STEP, MIX_A};
use crate::schedule::{lines_view, KernelRun};
use crate::text::{
    decimal, explicit_signed_decimal, labelled_explicit, labelled_explicit_text, push_decimal,
    push_explicit_signed_decimal, region_target, region_target_text,
};
use crate::world::{Region, World, ELEVATION_MAX_M, ELEVATION_MIN_M};

verus! {

/// Stage label of the geodynamics kernel.
pub const STAGE: &'static str = "kernel:geodynamics";

/// One region in this many has an event in a tick.
pub const EVENT_DENOMINATOR: u64 = 1_000;

/// Largest magnitude of the elevation change that reaches a neighbour, in
/// metres.
pub const NEIGHBOUR_DELTA_LIMIT: i32 = 50;

/// Clamp an elevation to the range that regions can have.
pub fn clamp_elevation(value: i32) -> (out: i32)
    ensures
        out == clamp_int(value as int, ELEVATION_MIN_M as int, ELEVATION_MAX_M as int),
        ELEVATION_MIN_M <= out <= ELEVATION_MAX_M,
{
    clamp_i32(value, ELEVATION_MIN_M, ELEVATION_MAX_M)
}

/// The random draws of an event, before they are scaled.
#[derive(Clone, Copy, Debug, PartialEq, Eq, Structural)]
pub struct EventDraw {
    /// Whether the terrain rises; it sinks otherwise.
    pub uplift: bool,
    /// The 53 bits from which the magnitude is made.
    pub magnitude_bits: u64,
    /// The 53 bits from which the aerosol depth is made.
    pub aerosol_bits: u64,
}

/// The counter of a region's child stream after `draws` draws.
pub open spec fn position_after(id: u64, draws: nat) -> u64
    decreases draws,
{
    if draws == 0 {
        mix64_spec(id ^ MIX_A)
    } else {
        position_after(id, (draws - 1) as nat).wrapping_add(COUNTER_STEP)
    }
}

/// The event of a region in a tick, if it has one: the first draw of the
/// region's child stream decides whether there is an event, the second
/// whether the terrain rises, and the third and fourth give the bits of
/// magnitude and aerosol depth.
pub open spec fn event_spec(parent: u64, index: u64) -> Option<EventDraw> {
    let id = child_id_spec(parent, index);
    if draw_spec(id, position_after(id, 1)) % EVENT_DENOMINATOR != 0 {
        None
    } else {
        Some(
            EventDraw {
                uplift: draw_spec(id, position_after(id, 2)) & 1 == 0,
                magnitude_bits: draw_spec(id, position_after(id, 3)) >> 11u64,
                aerosol_bits: draw_spec(id, position_after(id, 4)) >> 11u64,
            },
        )
    }
}

/// Draw the event of a region, if it has one this tick.
pub fn draw_event(rng: &Stream, index: usize) -> (out: Option<EventDraw>)
    ensures
        out == event_spec(rng.id(), index as u64),
{
    let mut region_rng = rng.derive(index as u64);
    proof {
        reveal_with_fuel(position_after, 5);
    }
    if region_rng.next_u64() % EVENT_DENOMINATOR != 0 {
        return None;
    }
    let uplift = region_rng.next_u64() & 1 == 0;
    let magnitude_bits = region_rng.next_bits53();
    let aerosol_bits = region_rng.next_bits53();
    Some(EventDraw { uplift, magnitude_bits, aerosol_bits })
}

/// An event as the kernel takes it: direction, magnitude in metres, and the
/// aerosol's optical depth as it is to be written in the cause.
#[derive(Debug)]
pub struct GeoEvent {
    pub uplift: bool,
    pub magnitude_m: i32,
    pub optical_depth: String,
}

/// What an event says, with its text as a character sequence.
pub struct GeoEventView {
    pub uplift: bool,
    pub magnitude_m: i32,
    pub optical_depth: Seq<char>,
}

impl View for GeoEvent {
    type V = GeoEventView;

    open spec fn view(&self) -> GeoEventView {
        GeoEventView {
            uplift: self.uplift,
            magnitude_m: self.magnitude_m,
            optical_depth: self.optical_depth@,
        }
    }
}

/// What a list of optional events says, region by region.
pub open spec fn events_view(v: Seq<Option<GeoEvent>>) -> Seq<Option<GeoEventView>> {
    v.map_values(
        |e: Option<GeoEvent>|
            match e {
                Some(event) => Some(event@),
                None => None,
            },
    )
}

/// What the kernel has worked out after some regions.
pub struct Step {
    pub diff: DiffView,
    pub chronicle: Seq<Seq<char>>,
}

/// The signed elevation change of an event.
pub open spec fn primary_delta(e: GeoEventView) -> int {
    if e.uplift {
        e.magnitude_m as int
    } else {
        -(e.magnitude_m as int)
    }
}

/// An elevation moved by `delta` and clamped to the elevation range.
pub open spec fn shifted(elevation: int, delta: int) -> int {
    clamp_int(elevation + delta, ELEVATION_MIN_M as int, ELEVATION_MAX_M as int)
}

/// The change that reaches the neighbours: half the primary change, rounded
/// towards zero, limited to `NEIGHBOUR_DELTA_LIMIT`.
pub open spec fn neighbour_delta(primary: int) -> int {
    clamp_int(
        toward_zero(primary, 2),
        -(NEIGHBOUR_DELTA_LIMIT as int),
        NEIGHBOUR_DELTA_LIMIT as int,
    )
}

/// The diff after the change has reached the cell `(x, y)`, if that cell
/// lies in the grid and the world has a region at its position.
pub open spec fn spread_to(
    d: DiffView,
    regions: Seq<Region>,
    width: int,
    height: int,
    x: int,
    y: int,
    delta: int,
) -> DiffView {
    if 0 <= x < width && 0 <= y < height && y * width + x < regions.len() {
        d.with_elevation(
            ((y * width + x) as usize) as u32,
            shifted(regions[y * width + x].elevation_m as int, delta) as i32,
        )
    } else {
        d
    }
}

/// The diff after the change has reached the four grid neighbours of
/// `(x, y)`: west, east, north, south.
pub open spec fn spread(
    d: DiffView,
    regions: Seq<Region>,
    width: int,
    height: int,
    x: int,
    y: int,
    delta: int,
) -> DiffView {
    let west = spread_to(d, regions, width, height, x - 1, y, delta);
    let east = spread_to(west, regions, width, height, x + 1, y, delta);
    let north = spread_to(east, regions, width, height, x, y - 1, delta);
    spread_to(north, regions, width, height, x, y + 1, delta)
}

/// The note of the aerosol cause.
pub open spec fn aerosol_note(id: u32, optical_depth: Seq<char>) -> Seq<char> {
    "region="@ + decimal(id as nat) + " optical_depth="@ + optical_depth
}

/// The chronicle line of an event.
pub open spec fn event_line(id: u32, uplift: bool, primary: int) -> Seq<char> {
    "Volcanic "@ + (if uplift {
        "uplift"@
    } else {
        "collapse"@
    }) + " near region "@ + decimal(id as nat) + " adjusted terrain by "@
        + explicit_signed_decimal(primary) + " m."@
}

/// The state after the kernel has handled a region that has an event: the
/// region's elevation moves by the primary change, the neighbours' by the
/// neighbour change if that is not zero, and the event is named and
/// chronicled.
pub open spec fn event_step(
    acc: Step,
    regions: Seq<Region>,
    width: int,
    height: int,
    r: Region,
    e: GeoEventView,
) -> Step {
    let primary = primary_delta(e);
    let d1 = acc.diff.with_elevation(r.id, shifted(r.elevation_m as int, primary) as i32).with_cause(
        EntryView {
            target: region_target_text(r.id, "/elevation"@),
            code: if e.uplift {
                Code::OrogenyBelt
            } else {
                Code::SubsidenceDeltas
            },
            note: Some(labelled_explicit_text("delta_m="@, primary)),
        },
    );
    let d2 = if neighbour_delta(primary) != 0 {
        spread(d1, regions, width, height, r.x as int, r.y as int, neighbour_delta(primary))
    } else {
        d1
    };
    Step {
        diff: d2.with_cause(
            EntryView {
                target: "world:atmosphere"@,
                code: Code::VolcanicAerosolPulse,
                note: Some(aerosol_note(r.id, e.optical_depth)),
            },
        ),
        chronicle: acc.chronicle.push(event_line(r.id, e.uplift, primary)),
    }
}

/// The state after the kernel has handled the first `n` regions.
pub open spec fn region_steps(
    regions: Seq<Region>,
    width: int,
    height: int,
    events: Seq<Option<GeoEventView>>,
    n: nat,
) -> Step
    decreases n,
{
    if n == 0 {
        Step { diff: DiffView::empty(), chronicle: Seq::empty() }
    } else {
        let acc = region_steps(regions, width, height, events, (n - 1) as nat);
        match events[n - 1] {
            Some(e) => event_step(acc, regions, width, height, regions[n - 1], e),
            None => acc,
        }
    }
}

fn spread_one(diff: &mut Diff, world: &World, x: i64, y: i64, delta: i32)
    requires
        old(diff).wf(),
        -1 <= x <= 0x1_0000_0000,
        -1 <= y <= 0x1_0000_0000,
        -NEIGHBOUR_DELTA_LIMIT <= delta <= NEIGHBOUR_DELTA_LIMIT,
    ensures
        final(diff).wf(),
        final(diff)@ == spread_to(
            old(diff)@,
            world.regions@,
            world.width as int,
            world.height as int,
            x as int,
            y as int,
            delta as int,
        ),
{
    if x < 0 || y < 0 || x >= world.width as i64 || y >= world.height as i64 {
        return ;
    }
    let width = world.width as u64;
    let row = y as u64;
    assert(row * width <= 0xFFFF_FFFF * 0xFFFF_FFFF) by (nonlinear_arith)
        requires
            0 <= row <= 0xFFFF_FFFF,
            0 <= width <= 0xFFFF_FFFF,
    ;
    let position: u64 = row * width + x as u64;
    if position < world.regions.len() as u64 {
        let index = position as usize;
        let moved: i64 = world.regions[index].elevation_m as i64 + delta as i64;
        let next = clamp_elevation(
            if moved < i32::MIN as i64 {
                i32::MIN
            } else if moved > i32::MAX as i64 {
                i32::MAX
            } else {
                moved as i32
            },
        );
        diff.record_elevation(index, next);
    }
}

/// Build the note of the aerosol cause.
pub fn aerosol_text(id: u32, optical_depth: &str) -> (out: String)
    ensures
        out@ == aerosol_note(id, optical_depth@),
{
    let mut out = String::from_str("region=");
    push_decimal(&mut out, id as u64);
    out.append(" optical_depth=");
    out.append(optical_depth);
    proof {
        assert(out@ =~= aerosol_note(id, optical_depth@));
    }
    out
}

/// Build the chronicle line of an event.
pub fn event_chronicle(id: u32, uplift: bool, primary: i64) -> (out: String)
    ensures
        out@ == event_line(id, uplift, primary as int),
{
    let mut out = String::from_str("Volcanic ");
    if uplift {
        out.append("uplift");
    } else {
        out.append("collapse");
    }
    out.append(" near region ");
    push_decimal(&mut out, id as u64);
    out.append(" adjusted terrain by ");
    push_explicit_signed_decimal(&mut out, primary);
    out.append(" m.");
    proof {
        assert(out@ =~= event_line(id, uplift, primary as int));
    }
    out
}

/// Handle a region that has an event.
pub fn update_region(
    diff: &mut Diff,
    chronicle: &mut Vec<String>,
    world: &World,
    region: &Region,
    event: &GeoEvent,
)
    requires
        old(diff).wf(),
    ensures
        final(diff).wf(),
        (Step { diff: final(diff)@, chronicle: lines_view(final(chronicle)@) }) == event_step(
            Step { diff: old(diff)@, chronicle: lines_view(old(chronicle)@) },
            world.regions@,
            world.width as int,
            world.height as int,
            *region,
            event@,
        ),
{
    let primary: i64 = if event.uplift {
        event.magnitude_m as i64
    } else {
        -(event.magnitude_m as i64)
    };
    let moved: i64 = region.elevation_m as i64 + primary;
    let primary_new = clamp_elevation(
        if moved < i32::MIN as i64 {
            i32::MIN
        } else if moved > i32::MAX as i64 {
            i32::MAX
        } else {
            moved as i32
        },
    );
    diff.record_elevation(region.index(), primary_new);
    let code = if event.uplift {
        Code::OrogenyBelt
    } else {
        Code::SubsidenceDeltas
    };
    let target = region_target(region.id, "/elevation");
    let note = labelled_explicit("delta_m=", primary);
    diff.record_cause(Entry::new(target.as_str(), code, Some(note)));

    let half: i64 = if primary >= 0 {
        primary / 2
    } else {
        -((-primary) / 2)
    };
    let delta: i32 = if half < -(NEIGHBOUR_DELTA_LIMIT as i64) {
        -NEIGHBOUR_DELTA_LIMIT
    } else if half > NEIGHBOUR_DELTA_LIMIT as i64 {
        NEIGHBOUR_DELTA_LIMIT
    } else {
        half as i32
    };
    if delta != 0 {
        let x = region.x as i64;
        let y = region.y as i64;
        spread_one(diff, world, x - 1, y, delta);
        spread_one(diff, world, x + 1, y, delta);
        spread_one(diff, world, x, y - 1, delta);
        spread_one(diff, world, x, y + 1, delta);
    }
    let aerosol = aerosol_text(region.id, event.optical_depth.as_str());
    diff.record_cause(Entry::new("world:atmosphere", Code::VolcanicAerosolPulse, Some(aerosol)));
    let line = event_chronicle(region.id, event.uplift, primary);
    proof {
        assert(lines_view(chronicle@.push(line)) =~= lines_view(chronicle@).push(line@));
    }
    chronicle.push(line);
}

/// Run the kernel over all regions, with the event of each region that has
/// one.
///
/// A world in which a region's id is not its position is refused with
/// `RegionIndexMismatch` for the first such region.
pub fn update<H>(world: &World, events: &Vec<Option<GeoEvent>>) -> (out: Result<
    KernelRun<H>,
    SimError,
>)
    requires
        events@.len() == world.regions@.len(),
    ensures
        match out {
            Ok(run) => {
                &&& world@.ids_match()
                &&& run.diff.wf()
                &&& (Step { diff: run.diff@, chronicle: lines_view(run.chronicle@) })
                    == region_steps(
                    world.regions@,
                    world.width as int,
                    world.height as int,
                    events_view(events@),
                    world.regions@.len(),
                )
                &&& run.highlights@.len() == 0
            },
            Err(e) => {
                &&& !world@.ids_match()
                &&& world@.first_mismatch(e)
            },
        },
{
    match world.check_ids() {
        Err(e) => {
            return Err(e);
        },
        Ok(_) => {},
    }
    let mut diff = Diff::default();
    let mut chronicle: Vec<String> = Vec::new();
    let ghost ev = events_view(events@);
    let mut index: usize = 0;
    proof {
        assert(lines_view(chronicle@) =~= Seq::empty());
    }
    while index < world.regions.len()
        invariant
            index <= world.regions@.len(),
            events@.len() == world.regions@.len(),
            ev == events_view(events@),
            diff.wf(),
            world@.ids_match(),
            (Step { diff: diff@, chronicle: lines_view(chronicle@) }) == region_steps(
                world.regions@,
                world.width as int,
                world.height as int,
                ev,
                index as nat,
            ),
        decreases world.regions@.len() - index,
    {
        let region = &world.regions[index];
        proof {
            assert(ev[index as int] == match events@[index as int] {
                Some(event) => Some(event@),
                None => None,
            });
        }
        match &events[index] {
            Some(event) => {
                update_region(&mut diff, &mut chronicle, world, region, event);
            },
            None => {},
        }
        index += 1;
    }
    Ok(KernelRun { diff, chronicle, highlights: Vec::new() })
}

} // verus!
