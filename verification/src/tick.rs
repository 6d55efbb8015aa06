//! The per-tick driver.
//!
//! A tick runs the kernels in a fixed order. Each kernel sees the world as
//! the kernels before it have left it: a kernel's diff is merged into the
//! aggregate and applied to the world as soon as the kernel has run. The
//! driver is a state machine. It names the kernel whose run it expects
//! next and the stream that kernel draws from; it is handed the run; it
//! commits it and moves on. The coupler needs no sample, so the driver runs
//! it itself, right after the cryosphere.

use vstd::prelude::*;
use vstd::string::StringExecFns;
use vstd::string::StringSliceAdditionalSpecFns;

use crate::diff::{Diff, DiffView};
use crate::error::SimError;
use crate::kernels::coupler::{
    lemma_reconcile_regions, reconcile_with_world, reconciled_diff, reconciled_world, start_of,
};
use crate::reduce::{applied, apply_diff, lemma_apply_keeps_bounds};
use crate::rng::{
    child_id_spec, fnv1a64_spec, mix64_spec, root_id_spec, Stream, MIX_A, ROOT_COUNTER_MASK,
};
use crate::schedule::{kernel_stream, lines_view, run_kernel, KernelRun};
use crate::world::{lemma_grown, World, WorldView};

verus! {

/// Stage label of the stream that all climate-family kernels descend from.
pub const CLIMATE_STAGE: &'static str = "kernel:climate";

/// Chronicle line that stands for the atmosphere's own lines.
pub const HADLEY_LINE: &'static str = "Hadley belt drifted northward under seasonal tilt.";

/// The kernel whose run the driver expects next.
#[derive(Clone, Copy, Debug, PartialEq, Eq, Structural)]
pub enum Stage {
    Astronomy,
    Geodynamics,
    Atmosphere,
    Cryosphere,
    Diagnostics,
    Classification,
    Ecology,
    Finished,
}

impl Stage {
    /// The stage after this one.
    pub open spec fn next_spec(self) -> Stage {
        match self {
            Stage::Astronomy => Stage::Geodynamics,
            Stage::Geodynamics => Stage::Atmosphere,
            Stage::Atmosphere => Stage::Cryosphere,
            Stage::Cryosphere => Stage::Diagnostics,
            Stage::Diagnostics => Stage::Classification,
            Stage::Classification => Stage::Ecology,
            Stage::Ecology => Stage::Finished,
            Stage::Finished => Stage::Finished,
        }
    }

    /// The label that selects the stage's stream.
    pub open spec fn label_text(self) -> Seq<char> {
        match self {
            Stage::Astronomy => "kernel:astronomy"@,
            Stage::Geodynamics => "kernel:geodynamics"@,
            Stage::Atmosphere => "kernel:atmosphere"@,
            Stage::Cryosphere => "kernel:cryosphere"@,
            Stage::Diagnostics => "CLIMATE::climate_diag"@,
            Stage::Classification => "kernel:climate/core"@,
            Stage::Ecology => "kernel:ecology"@,
            Stage::Finished => "kernel:chronicle"@,
        }
    }

    /// The stage after this one.
    pub fn next(&self) -> (out: Stage)
        ensures
            out == self.next_spec(),
    {
        match self {
            Stage::Astronomy => Stage::Geodynamics,
            Stage::Geodynamics => Stage::Atmosphere,
            Stage::Atmosphere => Stage::Cryosphere,
            Stage::Cryosphere => Stage::Diagnostics,
            Stage::Diagnostics => Stage::Classification,
            Stage::Classification => Stage::Ecology,
            Stage::Ecology => Stage::Finished,
            Stage::Finished => Stage::Finished,
        }
    }

    /// The label that selects the stage's stream.
    pub fn label(&self) -> (out: &'static str)
        ensures
            out@ == self.label_text(),
    {
        match self {
            Stage::Astronomy => "kernel:astronomy",
            Stage::Geodynamics => "kernel:geodynamics",
            Stage::Atmosphere => "kernel:atmosphere",
            Stage::Cryosphere => "kernel:cryosphere",
            Stage::Diagnostics => "CLIMATE::climate_diag",
            Stage::Classification => "kernel:climate/core",
            Stage::Ecology => "kernel:ecology",
            Stage::Finished => "kernel:chronicle",
        }
    }
}

/// The world after the run of `stage` has been committed. After the
/// cryosphere the coupler runs on the committed world, and its diff is
/// committed too.
pub open spec fn world_after(stage: Stage, w: WorldView, d: DiffView) -> WorldView {
    let committed = applied(w, d);
    if stage == Stage::Cryosphere {
        applied(reconciled_world(committed, d), reconciled_diff(committed, d))
    } else {
        committed
    }
}

/// The aggregate diff after the run of `stage` has been committed.
pub open spec fn aggregate_after(stage: Stage, aggregate: DiffView, w: WorldView, d: DiffView)
    -> DiffView {
    if stage == Stage::Cryosphere {
        aggregate.merged(d).merged(reconciled_diff(applied(w, d), d))
    } else {
        aggregate.merged(d)
    }
}

/// The chronicle after the run of `stage` has been committed. The
/// atmosphere's lines are replaced by one fixed line; every other kernel's
/// lines are appended as they are; the coupler adds its line if it recorded
/// anything.
pub open spec fn chronicle_after(
    stage: Stage,
    chronicle: Seq<Seq<char>>,
    w: WorldView,
    d: DiffView,
    lines: Seq<Seq<char>>,
) -> Seq<Seq<char>> {
    if stage == Stage::Atmosphere {
        if lines.len() > 0 {
            chronicle.push(HADLEY_LINE@)
        } else {
            chronicle
        }
    } else if stage == Stage::Cryosphere {
        if reconciled_diff(applied(w, d), d).is_empty() {
            chronicle + lines
        } else {
            (chronicle + lines).push(crate::kernels::coupler::CHRONICLE_LINE@)
        }
    } else {
        chronicle + lines
    }
}

/// Committing a stage changes neither tick, seed nor grid shape, keeps the
/// regions' ids, keeps a world that may enter a tick so, and keeps all
/// meters within bounds.
pub proof fn lemma_world_after(stage: Stage, w: WorldView, d: DiffView)
    ensures
        world_after(stage, w, d).tick == w.tick,
        world_after(stage, w, d).seed == w.seed,
        world_after(stage, w, d).width == w.width,
        world_after(stage, w, d).height == w.height,
        world_after(stage, w, d).regions.len() == w.regions.len(),
        w.ids_match() ==> world_after(stage, w, d).ids_match(),
        w.enterable() ==> world_after(stage, w, d).enterable(),
        w.meters_in_bounds() ==> world_after(stage, w, d).meters_in_bounds(),
        w.wf() ==> world_after(stage, w, d).wf(),
{
    lemma_apply_keeps_bounds(w, d);
    if stage == Stage::Cryosphere {
        let committed = applied(w, d);
        let coupled = reconciled_world(committed, d);
        lemma_grown(committed.climate, committed.regions.len());
        if crate::kernels::coupler::engaged(committed, d) {
            lemma_reconcile_regions(
                start_of(committed),
                committed.regions,
                committed.regions.len(),
            );
        }
        lemma_apply_keeps_bounds(coupled, reconciled_diff(committed, d));
    }
}

/// A tick in progress.
pub struct Tick<H> {
    pub seed: u64,
    pub tick: u64,
    pub stage: Stage,
    pub climate_stream: Stream,
    pub aggregate: Diff,
    pub chronicle: Vec<String>,
    pub highlights: Vec<H>,
}

impl<H> Tick<H> {
    /// The tick in progress is the one after the world's current tick, the
    /// world may enter a tick, the tick's stream is the climate stream of
    /// that tick, and its aggregate is in order.
    pub open spec fn wf_for(&self, world: &World) -> bool {
        &&& world.tick < u64::MAX
        &&& world@.enterable()
        &&& self.tick == world.tick + 1
        &&& self.aggregate.wf()
        &&& self.climate_stream.id() == root_id_spec(
            self.seed,
            fnv1a64_spec(CLIMATE_STAGE.spec_bytes()),
            self.tick,
        )
    }

    /// The stream that the kernel of the current stage draws from. The
    /// diagnostics kernel has a root stream of its own; every other kernel
    /// draws from a child of the climate stream.
    pub fn kernel_stream(&self) -> (out: Stream)
        ensures
            self.stage == Stage::Diagnostics ==> out.id() == root_id_spec(
                self.seed,
                fnv1a64_spec(vstd::utf8::encode_utf8(self.stage.label_text())),
                self.tick,
            ) && out.position() == mix64_spec(out.id() ^ ROOT_COUNTER_MASK),
            self.stage != Stage::Diagnostics ==> out.id() == child_id_spec(
                self.climate_stream.id(),
                fnv1a64_spec(vstd::utf8::encode_utf8(self.stage.label_text())),
            ) && out.position() == mix64_spec(out.id() ^ MIX_A),
    {
        match self.stage {
            Stage::Diagnostics => Stream::from(self.seed, self.stage.label(), self.tick),
            _ => kernel_stream(&self.climate_stream, self.stage.label()),
        }
    }

    /// Commit the run of the current stage's kernel and move to the next
    /// stage.
    pub fn advance(&mut self, world: &mut World, run: KernelRun<H>)
        requires
            old(self).wf_for(old(world)),
            old(self).stage != Stage::Finished,
        ensures
            final(self).wf_for(final(world)),
            final(self).stage == old(self).stage.next_spec(),
            final(self).seed == old(self).seed,
            final(self).tick == old(self).tick,
            final(self).climate_stream == old(self).climate_stream,
            final(world)@ == world_after(old(self).stage, old(world)@, run.diff@),
            final(self).aggregate@ == aggregate_after(
                old(self).stage,
                old(self).aggregate@,
                old(world)@,
                run.diff@,
            ),
            lines_view(final(self).chronicle@) == chronicle_after(
                old(self).stage,
                lines_view(old(self).chronicle@),
                old(world)@,
                run.diff@,
                lines_view(run.chronicle@),
            ),
            final(self).highlights@ == old(self).highlights@ + run.highlights@,
            old(world)@.meters_in_bounds() ==> final(world)@.meters_in_bounds(),
            old(world)@.wf() ==> final(world)@.wf(),
    {
        proof {
            lemma_world_after(self.stage, world@, run.diff@);
        }
        let stage = self.stage;
        let mut run = run_kernel(world, &mut self.aggregate, run);
        let ghost before = lines_view(self.chronicle@);
        let ghost lines = lines_view(run.chronicle@);
        match stage {
            Stage::Atmosphere => {
                if !run.chronicle.is_empty() {
                    let line = String::from_str(HADLEY_LINE);
                    proof {
                        assert(lines_view(self.chronicle@.push(line)) =~= before.push(HADLEY_LINE@));
                    }
                    self.chronicle.push(line);
                }
            },
            _ => {
                proof {
                    assert(lines_view(self.chronicle@ + run.chronicle@) =~= before + lines);
                }
                self.chronicle.append(&mut run.chronicle);
            },
        }
        self.highlights.append(&mut run.highlights);
        match stage {
            Stage::Cryosphere => {
                let coupler_diff = reconcile_with_world(world, &self.aggregate, &run.diff);
                let active = !coupler_diff.is_empty();
                self.aggregate.merge(&coupler_diff);
                apply_diff(world, &coupler_diff);
                if active {
                    let line = String::from_str(crate::kernels::coupler::CHRONICLE_LINE);
                    proof {
                        assert(lines_view(self.chronicle@.push(line)) =~= (before + lines).push(
                            crate::kernels::coupler::CHRONICLE_LINE@,
                        ));
                    }
                    self.chronicle.push(line);
                }
            },
            _ => {},
        }
        self.stage = stage.next();
    }

    /// Close the tick: advance the world's tick and hand out the aggregate
    /// diff, the chronicle and the highlights.
    pub fn finish(self, world: &mut World) -> (out: (Diff, Vec<String>, Vec<H>))
        requires
            self.wf_for(old(world)),
            self.stage == Stage::Finished,
        ensures
            final(world).tick == old(world).tick + 1,
            final(world).tick == self.tick,
            final(world)@ == (WorldView { tick: self.tick, ..old(world)@ }),
            out.0 == self.aggregate,
            out.1 == self.chronicle,
            out.2 == self.highlights,
    {
        world.tick = self.tick;
        (self.aggregate, self.chronicle, self.highlights)
    }
}

/// Open the tick `tick` on a world whose current tick is `tick - 1`.
///
/// Any other tick is refused with `InvalidTickOrder`. A world that may not
/// enter a tick is refused with the error that says why: the first region
/// whose id is not its position, or else the first region whose water or
/// soil exceeds its maximum. The world is only read, so a refused tick
/// leaves it as it is; and since committing a run keeps a world that may
/// enter a tick so, no kernel refuses it later in the tick.
pub fn begin_tick<H>(world: &World, seed: u64, tick: u64) -> (out: Result<Tick<H>, SimError>)
    ensures
        match out {
            Ok(state) => {
                &&& tick == world.tick + 1
                &&& world@.enterable()
                &&& state.wf_for(world)
                &&& state.seed == seed
                &&& state.tick == tick
                &&& state.stage == Stage::Astronomy
                &&& state.aggregate@ == DiffView::empty()
                &&& state.chronicle@.len() == 0
                &&& state.highlights@.len() == 0
            },
            Err(e) => if tick != world.tick + 1 {
                e == (SimError::InvalidTickOrder { current: world.tick, requested: tick })
            } else {
                !world@.enterable() && world@.entry_refused_with(e)
            },
        },
{
    if world.tick == u64::MAX || tick != world.tick + 1 {
        return Err(SimError::InvalidTickOrder { current: world.tick, requested: tick });
    }
    match world.check_entry() {
        Err(e) => {
            return Err(e);
        },
        Ok(_) => {},
    }
    let climate_stream = Stream::from(seed, CLIMATE_STAGE, tick);
    Ok(
        Tick {
            seed,
            tick,
            stage: Stage::Astronomy,
            climate_stream,
            aggregate: Diff::default(),
            chronicle: Vec::new(),
            highlights: Vec::new(),
        },
    )
}

} // verus!
