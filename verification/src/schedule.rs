//! What a kernel hands back, and how it is committed.

use vstd::prelude::*;

use crate::diff::Diff;
use crate::reduce::{applied, apply_diff};
use crate::rng::{child_id_spec, fnv1a64_spec, mix64_spec, stream_label, Stream, MIX_A};
use crate::world::World;
use vstd::string::StringSliceAdditionalSpecFns;

verus! {

/// What a list of lines says, line by line.
pub open spec fn lines_view(v: Seq<String>) -> Seq<Seq<char>> {
    v.map_values(|line: String| line@)
}

/// The outcome of one kernel: its diff, its chronicle lines, and highlights
/// of a kind that the engine carries but never inspects.
#[derive(Clone, Debug)]
pub struct KernelRun<H> {
    pub diff: Diff,
    pub chronicle: Vec<String>,
    pub highlights: Vec<H>,
}

impl<H> KernelRun<H> {
    /// A run with the given diff and neither chronicle nor highlights.
    pub fn new(diff: Diff) -> (out: Self)
        ensures
            out.diff == diff,
            out.chronicle@.len() == 0,
            out.highlights@.len() == 0,
    {
        KernelRun { diff, chronicle: Vec::new(), highlights: Vec::new() }
    }
}

/// The stream a kernel draws from: the child of the parent stream that the
/// hash of the kernel's stage label selects.
pub fn kernel_stream(parent_stream: &Stream, stage_label: &str) -> (out: Stream)
    ensures
        out.id() == child_id_spec(parent_stream.id(), fnv1a64_spec(stage_label.spec_bytes())),
        out.position() == mix64_spec(out.id() ^ MIX_A),
{
    parent_stream.derive(stream_label(stage_label))
}

/// Commit a kernel's run: merge its diff into the aggregate and apply it to
/// the world, so that the next kernel sees its effects.
pub fn run_kernel<H>(world: &mut World, aggregate_diff: &mut Diff, run: KernelRun<H>) -> (out:
    KernelRun<H>)
    requires
        old(aggregate_diff).wf(),
    ensures
        out == run,
        final(aggregate_diff).wf(),
        final(aggregate_diff)@ == old(aggregate_diff)@.merged(run.diff@),
        final(world)@ == applied(old(world)@, run.diff@),
{
    aggregate_diff.merge(&run.diff);
    apply_diff(world, &run.diff);
    run
}

} // verus!
