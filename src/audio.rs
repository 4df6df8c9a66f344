//! Audio output configuration: which sample rate and channel count to open
//! the device with, and how far ahead of playback samples are queued.
use vstd::prelude::*;

verus! {

/// A configuration range a device supports: a channel count with a range
/// of sample rates.
#[derive(Debug, Clone, Copy, PartialEq, Eq, Structural)]
pub struct SupportedRange {
    pub min_rate: u32,
    pub max_rate: u32,
    pub channels: u16,
}

/// Sample rate and channel count of an output stream.
#[derive(Debug, Clone, Copy, PartialEq, Eq, Structural)]
pub struct OutputConfig {
    pub sample_rate: u32,
    pub channels: u16,
}

/// At most this many samples wait in the device queue.
pub const MAX_QUEUED_SAMPLES: usize = 96000;

pub open spec fn compatible(c: OutputConfig, r: SupportedRange) -> bool {
    r.min_rate <= c.sample_rate <= r.max_rate && c.channels == r.channels
}

pub open spec fn supported(c: OutputConfig, ranges: Seq<SupportedRange>) -> bool {
    exists|i: int| 0 <= i < ranges.len() && compatible(c, #[trigger] ranges[i])
}

/// Standard configurations tried, in order, when the requested one is not
/// supported.
pub open spec fn fallbacks() -> Seq<OutputConfig> {
    seq![
        OutputConfig { sample_rate: 48000, channels: 2 },
        OutputConfig { sample_rate: 44100, channels: 2 },
        OutputConfig { sample_rate: 48000, channels: 1 },
        OutputConfig { sample_rate: 44100, channels: 1 },
        OutputConfig { sample_rate: 22050, channels: 1 },
        OutputConfig { sample_rate: 22050, channels: 2 },
    ]
}

/// The first fallback from `i` on that the device supports.
pub open spec fn first_fallback(ranges: Seq<SupportedRange>, i: int) -> Option<OutputConfig>
    decreases fallbacks().len() - i,
{
    if i < 0 || i >= fallbacks().len() {
        None
    } else if supported(fallbacks()[i], ranges) {
        Some(fallbacks()[i])
    } else {
        first_fallback(ranges, i + 1)
    }
}

/// The configuration to open: the requested one when supported, else the
/// first supported fallback; `None` when the device supports none of them.
pub open spec fn negotiate_spec(requested: OutputConfig, ranges: Seq<SupportedRange>) -> Option<OutputConfig> {
    if supported(requested, ranges) {
        Some(requested)
    } else {
        first_fallback(ranges, 0)
    }
}

pub fn is_config_compatible(c: OutputConfig, r: SupportedRange) -> (b: bool)
    ensures
        b == compatible(c, r),
{
    r.min_rate <= c.sample_rate && c.sample_rate <= r.max_rate && c.channels == r.channels
}

fn is_supported(c: OutputConfig, ranges: &Vec<SupportedRange>) -> (b: bool)
    ensures
        b == supported(c, ranges@),
{
    let mut i: usize = 0;
    while i < ranges.len()
        invariant
            i <= ranges@.len(),
            forall|k: int| 0 <= k < i ==> !compatible(c, #[trigger] ranges@[k]),
        decreases ranges.len() - i,
    {
        if is_config_compatible(c, ranges[i]) {
            return true;
        }
        i = i + 1;
    }
    false
}

/// Chooses the output configuration for a requested one among what the
/// device supports.
pub fn negotiate_config(requested: OutputConfig, ranges: &Vec<SupportedRange>) -> (r: Option<
    OutputConfig,
>)
    ensures
        r == negotiate_spec(requested, ranges@),
{
    if is_supported(requested, ranges) {
        return Some(requested);
    }
    let list = [
        OutputConfig { sample_rate: 48000, channels: 2 },
        OutputConfig { sample_rate: 44100, channels: 2 },
        OutputConfig { sample_rate: 48000, channels: 1 },
        OutputConfig { sample_rate: 44100, channels: 1 },
        OutputConfig { sample_rate: 22050, channels: 1 },
        OutputConfig { sample_rate: 22050, channels: 2 },
    ];
    assert(list@ == fallbacks());
    let mut i: usize = 0;
    while i < 6
        invariant
            i <= 6,
            list@ == fallbacks(),
            !supported(requested, ranges@),
            first_fallback(ranges@, 0) == first_fallback(ranges@, i as int),
        decreases 6 - i,
    {
        if is_supported(list[i], ranges) {
            assert(list@[i as int] == fallbacks()[i as int]);
            return Some(list[i]);
        }
        i = i + 1;
    }
    None
}

/// Decoded audio keeps being written while the device queue holds no more
/// than the limit.
pub fn keep_feeding(queued_samples: usize) -> (r: bool)
    ensures
        r == (queued_samples <= MAX_QUEUED_SAMPLES),
{
    queued_samples <= MAX_QUEUED_SAMPLES
}

} // verus!
