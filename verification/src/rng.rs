//! Deterministic random stream utilities.
//!
//! Each [`Stream`] is an independent pseudo-random sequence derived from the
//! simulation seed, a logical stage label, and the current tick. Child streams
//! are derived without mutating the parent, so kernels can fan out
//! region-level generators while staying reproducible.

use vstd::prelude::*;
use vstd::string::StringSliceAdditionalSpecFns;

verus! {

/// FNV-1a 64-bit offset basis.
pub const FNV_OFFSET: u64 = 0xcbf29ce484222325;

/// FNV-1a 64-bit prime.
pub const FNV_PRIME: u64 = 0x100000001b3;

/// Increment applied to the counter on every draw.
pub const COUNTER_STEP: u64 = 0x9E3779B97F4A7C15;

/// First multiplier of the mixer.
pub const MIX_A: u64 = 0xBF58476D1CE4E5B9;

/// Second multiplier of the mixer.
pub const MIX_B: u64 = 0x94D049BB133111EB;

/// Seed multiplier used when a stream id is built.
pub const SEED_MUL: u64 = 0xA0761D6478BD642F;

/// Seed increment used when a stream id is built.
pub const SEED_ADD: u64 = 0xE7037ED1A0B428DB;

/// Tick multiplier used when a stream id is built.
pub const TICK_MUL: u64 = 0x8E9D5A8F6A09E667;

/// Mask that turns a fresh stream id into its first counter.
pub const ROOT_COUNTER_MASK: u64 = 0xD1342543DE82EF95;

/// The splitmix-style finaliser, as a function on 64-bit words.
pub open spec fn mix64_spec(z: u64) -> u64 {
    let a = (z ^ (z >> 30u64)).wrapping_mul(MIX_A);
    let b = (a ^ (a >> 27u64)).wrapping_mul(MIX_B);
    b ^ (b >> 31u64)
}

/// FNV-1a over a byte sequence: each byte is xor-ed in, then the hash is
/// multiplied by the prime, left to right.
pub open spec fn fnv1a64_spec(bytes: Seq<u8>) -> u64
    decreases bytes.len(),
{
    if bytes.len() == 0 {
        FNV_OFFSET
    } else {
        (fnv1a64_spec(bytes.drop_last()) ^ (bytes.last() as u64)).wrapping_mul(FNV_PRIME)
    }
}

/// Stream id for a `(seed, stage hash, tick)` triple.
pub open spec fn root_id_spec(seed: u64, stage_hash: u64, tick: u64) -> u64 {
    mix64_spec(
        seed.wrapping_mul(SEED_MUL).wrapping_add(SEED_ADD) ^ tick.wrapping_mul(TICK_MUL)
            ^ stage_hash,
    )
}

/// Stream id of the child that `label` selects under parent id `parent`.
pub open spec fn child_id_spec(parent: u64, label: u64) -> u64 {
    mix64_spec(parent ^ mix64_spec(label ^ MIX_B))
}

/// Value drawn from a stream with the given id once its counter has moved to
/// `counter`.
pub open spec fn draw_spec(id: u64, counter: u64) -> u64 {
    mix64_spec(id ^ counter)
}

/// A seeded, splittable pseudo-random sequence.
///
/// The state is 128 bits: a stream id that never changes, and a counter that
/// advances by a fixed step on every draw.
#[derive(Clone, Copy, Debug)]
pub struct Stream {
    stream_id: u64,
    counter: u64,
}

impl Stream {
    /// The stream id (upper half of the state).
    pub closed spec fn id(&self) -> u64 {
        self.stream_id
    }

    /// The rolling counter (lower half of the state).
    pub closed spec fn position(&self) -> u64 {
        self.counter
    }

    /// Construct a stream for the given `(seed, stage, tick)` triple.
    pub fn from(seed: u64, stage: &str, tick: u64) -> (out: Self)
        ensures
            out.id() == root_id_spec(seed, fnv1a64_spec(stage.spec_bytes()), tick),
            out.position() == mix64_spec(out.id() ^ ROOT_COUNTER_MASK),
    {
        let stage_hash = fnv1a64(stage.as_bytes());
        let stream_id = mix64(
            seed.wrapping_mul(SEED_MUL).wrapping_add(SEED_ADD) ^ tick.wrapping_mul(TICK_MUL)
                ^ stage_hash,
        );
        let counter = mix64(stream_id ^ ROOT_COUNTER_MASK);
        Stream { stream_id, counter }
    }

    /// Deterministically derive a child stream identified by `label`.
    ///
    /// The parent is not advanced, and the child depends on the parent's id
    /// only, never on how many values the parent has produced.
    pub fn derive(&self, label: u64) -> (out: Self)
        ensures
            out.id() == child_id_spec(self.id(), label),
            out.position() == mix64_spec(out.id() ^ MIX_A),
    {
        let derived = mix64(self.stream_id ^ mix64(label ^ MIX_B));
        let counter = mix64(derived ^ MIX_A);
        Stream { stream_id: derived, counter }
    }

    /// Advance the stream and return the next `u64` sample.
    pub fn next_u64(&mut self) -> (out: u64)
        ensures
            final(self).id() == old(self).id(),
            final(self).position() == old(self).position().wrapping_add(COUNTER_STEP),
            out == draw_spec(old(self).id(), final(self).position()),
    {
        let counter = self.counter.wrapping_add(COUNTER_STEP);
        self.counter = counter;
        mix64(self.stream_id ^ counter)
    }

    /// Advance the stream and return the top 53 bits of the next sample.
    ///
    /// Divided by `2^53` this is a uniform value in `[0, 1)` with the full
    /// precision of a double.
    pub fn next_bits53(&mut self) -> (out: u64)
        ensures
            final(self).id() == old(self).id(),
            final(self).position() == old(self).position().wrapping_add(COUNTER_STEP),
            out == draw_spec(old(self).id(), final(self).position()) >> 11u64,
            out < 0x20_0000_0000_0000,
    {
        let raw = self.next_u64();
        let out = raw >> 11u64;
        assert(raw >> 11u64 < 0x20_0000_0000_0000u64) by (bit_vector);
        out
    }

    /// Advance the stream and return the top 24 bits of the next sample.
    ///
    /// Divided by `2^24` this is a uniform value in `[0, 1)` with the full
    /// precision of a single-precision number.
    pub fn next_bits24(&mut self) -> (out: u32)
        ensures
            final(self).id() == old(self).id(),
            final(self).position() == old(self).position().wrapping_add(COUNTER_STEP),
            out == draw_spec(old(self).id(), final(self).position()) >> 40u64,
            out < 0x100_0000,
    {
        let raw = self.next_u64();
        let out = raw >> 40u64;
        assert(raw >> 40u64 < 0x100_0000u64) by (bit_vector);
        out as u32
    }
}

/// Produce a deterministic label for deriving child streams: the FNV-1a hash
/// of the name's bytes.
pub fn stream_label(name: &str) -> (out: u64)
    ensures
        out == fnv1a64_spec(name.spec_bytes()),
{
    fnv1a64(name.as_bytes())
}

/// FNV-1a 64-bit hash of a byte slice.
pub fn fnv1a64(bytes: &[u8]) -> (out: u64)
    ensures
        out == fnv1a64_spec(bytes@),
{
    let mut hash: u64 = FNV_OFFSET;
    let mut i: usize = 0;
    while i < bytes.len()
        invariant
            i <= bytes.len(),
            hash == fnv1a64_spec(bytes@.take(i as int)),
        decreases bytes.len() - i,
    {
        proof {
            assert(bytes@.take(i + 1).drop_last() =~= bytes@.take(i as int));
        }
        hash = (hash ^ (bytes[i] as u64)).wrapping_mul(FNV_PRIME);
        i += 1;
    }
    proof {
        assert(bytes@.take(i as int) =~= bytes@);
    }
    hash
}

/// The splitmix-style finaliser.
pub fn mix64(z: u64) -> (out: u64)
    ensures
        out == mix64_spec(z),
{
    let a = (z ^ (z >> 30u64)).wrapping_mul(MIX_A);
    let b = (a ^ (a >> 27u64)).wrapping_mul(MIX_B);
    b ^ (b >> 31u64)
}

} // verus!
