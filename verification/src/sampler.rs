use vstd::prelude::*;
use vstd::arithmetic::div_mod::lemma_small_mod;

verus! {

/// The rolling frame counter wraps here to bound its growth; sampling is
/// observability only, so the wrap has no behavioral effect downstream.
pub const SAMPLER_WRAP: u64 = 1_000_000;

/// The counter value after `k` raw frames have been noted.
pub open spec fn spec_count_after(k: nat) -> nat {
    k % 1_000_000
}

/// Samples one raw frame out of every `raw_freq` received, for diagnostic
/// logging: with frequency `f`, the frames at ordinal positions 1, f+1,
/// 2f+1, … are flagged, whatever they contain.
pub struct RawSampler {
    pub count: u64,
    pub raw_freq: u32,
}

impl RawSampler {
    /// The sampler's invariant: the configured frequency is at least 2
    /// and the rolling counter stays below the wrap bound.
    pub open spec fn wf(self) -> bool {
        &&& self.raw_freq >= 2
        &&& self.count < 1_000_000
    }

    pub fn new(raw_freq: u32) -> (r: RawSampler)
        requires
            raw_freq >= 2,
        ensures
            r.wf(),
            r.count == 0,
            r.raw_freq == raw_freq,
    {
        RawSampler { count: 0, raw_freq }
    }

    /// Counts one raw frame; returns whether this frame is sampled. A
    /// frame is sampled exactly when the counter — the number of earlier
    /// frames, modulo the wrap — is a multiple of the frequency.
    pub fn note_frame(&mut self) -> (r: bool)
        requires
            old(self).wf(),
        ensures
            final(self).wf(),
            final(self).raw_freq == old(self).raw_freq,
            r == (old(self).count % (old(self).raw_freq as u64) == 0),
            final(self).count == (old(self).count + 1) % 1_000_000,
    {
        let r = self.count % (self.raw_freq as u64) == 0;
        self.count = self.count + 1;
        if self.count >= SAMPLER_WRAP {
            self.count = 0;
        }
        proof {
            if old(self).count + 1 < 1_000_000 {
                lemma_small_mod((old(self).count + 1) as nat, 1_000_000);
            }
        }
        r
    }
}

/// Law: starting from a fresh sampler, the counter seen by the `k`-th
/// frame (1-based) is `k - 1` modulo the wrap; within the first million
/// frames the sampled ordinals are therefore exactly those with
/// `(k - 1) % raw_freq == 0`: positions 1, raw_freq+1, 2·raw_freq+1, …,
/// independent of what the frames contain.
pub proof fn lemma_sampling_positions(raw_freq: u32, k: nat)
    requires
        raw_freq >= 2,
        1 <= k <= 1_000_000,
    ensures
        (spec_count_after((k - 1) as nat) % (raw_freq as nat) == 0) <==> (((k - 1) as nat) % (
        raw_freq as nat) == 0),
{
    lemma_small_mod((k - 1) as nat, 1_000_000);
}

/// Law: the counter evolves as frame count modulo the wrap — one more
/// frame advances `spec_count_after` by one, wrapping at a million — so
/// `note_frame`'s contract chains to any number of frames.
pub proof fn lemma_sampler_count_step(k: nat)
    requires
        k >= 1,
    ensures
        (spec_count_after((k - 1) as nat) + 1) % 1_000_000 == spec_count_after(k),
{
    let m: int = 1_000_000;
    vstd::arithmetic::div_mod::lemma_fundamental_div_mod((k - 1) as int, m as int);
    vstd::arithmetic::div_mod::lemma_mod_division_less_than_divisor((k - 1) as int, m as int);
    let q = (k - 1) as int / m as int;
    let r = (k - 1) as int % m as int;
    if r + 1 < m {
        vstd::arithmetic::div_mod::lemma_mod_multiples_vanish(q, r + 1, m as int);
        lemma_small_mod((r + 1) as nat, m as nat);
    } else {
        vstd::arithmetic::div_mod::lemma_mod_multiples_vanish(q + 1, 0, m as int);
    }
}

} // verus!
