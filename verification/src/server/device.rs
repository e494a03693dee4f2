//! What the server reports about the default output device.

use vstd::prelude::*;

verus! {

/// The default render device and its shared-mode mix format.
#[derive(Clone, Debug)]
pub struct DeviceInfo {
    pub friendly_name: String,
    pub mix_sample_rate: u32,
    pub mix_channels: u16,
    pub mix_bits_per_sample: u16,
    pub mix_sample_type: String,
}

} // verus!
