//! Cutting captured samples into fixed-size codec frames.

use vstd::prelude::*;

verus! {

/// Capture and playback rate, in samples per second.
pub const SAMPLE_RATE: u32 = 48_000;

/// Samples per codec frame: 20 ms at 48 kHz, mono.
pub const FRAME_SAMPLES: usize = 960;

/// The samples still waiting in `buf` are followed by `new_samples`; every
/// full frame is taken off the front, in order, and the rest (less than a
/// frame) stays in `buf`. Nothing is lost, duplicated or reordered.
pub fn accumulate<T: Copy>(buf: &mut Vec<T>, new_samples: &[T]) -> (frames: Vec<Vec<T>>)
    ensures
        frames@.len() == (old(buf)@ + new_samples@).len() / (FRAME_SAMPLES as nat),
        forall|i: int|
            0 <= i < frames@.len() ==> (#[trigger] frames@[i])@ == (old(buf)@ + new_samples@).subrange(
                i * FRAME_SAMPLES,
                (i + 1) * FRAME_SAMPLES,
            ),
        final(buf)@ == (old(buf)@ + new_samples@).subrange(
            frames@.len() * FRAME_SAMPLES,
            (old(buf)@ + new_samples@).len() as int,
        ),
        final(buf)@.len() < FRAME_SAMPLES,
{
    let ghost all = old(buf)@ + new_samples@;
    let n = new_samples.len();
    let mut k: usize = 0;
    while k < n
        invariant
            n == new_samples@.len(),
            all == old(buf)@ + new_samples@,
            k <= n,
            buf@ == all.subrange(0, old(buf)@.len() + k),
        decreases n - k,
    {
        buf.push(new_samples[k]);
        assert(buf@ =~= all.subrange(0, old(buf)@.len() + k + 1));
        k = k + 1;
    }
    assert(buf@ =~= all);
    let mut frames: Vec<Vec<T>> = Vec::new();
    while buf.len() >= FRAME_SAMPLES
        invariant
            all == old(buf)@ + new_samples@,
            frames@.len() * FRAME_SAMPLES <= all.len(),
            buf@ == all.subrange(frames@.len() * FRAME_SAMPLES, all.len() as int),
            forall|i: int|
                0 <= i < frames@.len() ==> (#[trigger] frames@[i])@ == all.subrange(
                    i * FRAME_SAMPLES,
                    (i + 1) * FRAME_SAMPLES,
                ),
        decreases buf@.len(),
    {
        let mut rest = buf.split_off(FRAME_SAMPLES);
        std::mem::swap(buf, &mut rest);
        frames.push(rest);
        assert(buf@ =~= all.subrange(frames@.len() * FRAME_SAMPLES, all.len() as int));
    }
    assert(all.len() / (FRAME_SAMPLES as nat) == frames@.len()) by {
        let f = frames@.len() as int;
        assert(f * 960 <= all.len() < f * 960 + 960);
        vstd::arithmetic::div_mod::lemma_fundamental_div_mod_converse(
            all.len() as int,
            960,
            f,
            all.len() - f * 960,
        );
    }
    frames
}

} // verus!
