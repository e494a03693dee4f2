//! The playback boundary: the platform audio thread reads PCM here.

use vstd::prelude::*;
use crate::client::ring_buffer::{min, read_output, wrapping_inc, PcmRingBuffer};

verus! {

/// Fills `output` from the active ring, or with silence when there is none.
/// Returns the number of real samples written.
pub fn fill_audio_track(ring: Option<&mut PcmRingBuffer>, output: &mut [i16]) -> (actual: usize)
    requires
        match ring {
            Some(r) => r@.wf(),
            None => true,
        },
    ensures
        match ring {
            Some(r) => {
                &&& actual == min(old(output)@.len() as int, r@.samples.len() as int)
                &&& final(output)@ == read_output(r@.samples, old(output)@.len())
                &&& final(r)@.samples == r@.samples.skip(actual as int)
                &&& final(r)@.capacity == r@.capacity
                &&& final(r)@.overwritten_samples == r@.overwritten_samples
                &&& final(r)@.underruns == if actual < old(output)@.len() {
                    wrapping_inc(r@.underruns)
                } else {
                    r@.underruns
                }
                &&& final(r)@.wf()
            },
            None => actual == 0 && final(output)@ == read_output(Seq::empty(), old(output)@.len()),
        },
{
    match ring {
        Some(ring) => ring.read_into(output),
        None => {
            let n = output.len();
            let mut i: usize = 0;
            while i < n
                invariant
                    n == output@.len(),
                    n == old(output)@.len(),
                    i <= n,
                    forall|j: int| 0 <= j < i ==> output@[j] == 0,
                decreases n - i,
            {
                output[i] = 0;
                i += 1;
            }
            assert(output@ =~= read_output(Seq::empty(), n as nat));
            0
        },
    }
}

} // verus!
