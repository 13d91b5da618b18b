//! The choice of the output configuration: which sample rate and which buffer
//! size the device is asked for.

use vstd::prelude::*;

verus! {

/// The buffer size that is asked for where the device allows it.
pub const PREFERRED_BUFFER_SIZE: u32 = 1024;

/// The sample rate that is asked for where the device supports it.
pub const PREFERRED_SAMPLE_RATE: u32 = 44100;

/// The number of channels that is asked for.
pub const OUTPUT_CHANNELS: u16 = 2;

/// The buffer sizes that a configuration supports.
#[derive(Clone, Copy, Debug, PartialEq, Eq, Structural)]
pub enum SupportedBufferSize {
    Range { min: u32, max: u32 },
    /// The device does not say.
    Unknown,
}

/// A range of configurations that the device supports.
#[derive(Clone, Copy, Debug, PartialEq, Eq, Structural)]
pub struct SupportedOutputConfig {
    pub min_sample_rate: u32,
    pub max_sample_rate: u32,
    pub buffer_size: SupportedBufferSize,
}

/// The configuration that the device uses where it is asked for none.
#[derive(Clone, Copy, Debug, PartialEq, Eq, Structural)]
pub struct DefaultOutputConfig {
    pub sample_rate: u32,
    pub buffer_size: SupportedBufferSize,
}

/// The configuration that the device is asked for. The channels are always
/// `OUTPUT_CHANNELS`.
#[derive(Clone, Copy, Debug, PartialEq, Eq, Structural)]
pub struct Output {
    pub sample_rate: u32,
    pub buffer_size: u32,
}

impl SupportedOutputConfig {
    /// Whether the preferred sample rate lies in the range.
    pub open spec fn is_preferred(self) -> bool {
        self.max_sample_rate >= PREFERRED_SAMPLE_RATE && self.min_sample_rate
            <= PREFERRED_SAMPLE_RATE
    }
}

/// The first of `configs` that supports the preferred sample rate.
pub open spec fn first_preferred(configs: Seq<SupportedOutputConfig>) -> Option<
    SupportedOutputConfig,
>
    decreases configs.len(),
{
    if configs.len() == 0 {
        None
    } else if configs[0].is_preferred() {
        Some(configs[0])
    } else {
        first_preferred(configs.drop_first())
    }
}

/// The buffer size that is asked for: the preferred size, and the largest
/// supported size where that is smaller.
pub open spec fn chosen_buffer_size(supported: SupportedBufferSize) -> u32 {
    match supported {
        SupportedBufferSize::Unknown => PREFERRED_BUFFER_SIZE,
        SupportedBufferSize::Range { min, max } => if max < PREFERRED_BUFFER_SIZE {
            max
        } else {
            PREFERRED_BUFFER_SIZE
        },
    }
}

/// The configuration that is asked for: the preferred sample rate with the
/// buffer sizes of the first range that supports it, and the device's own
/// configuration where no range does.
pub open spec fn chosen_output(
    supported: Seq<SupportedOutputConfig>,
    default_config: DefaultOutputConfig,
) -> Output {
    match first_preferred(supported) {
        Some(preferred) => Output {
            sample_rate: PREFERRED_SAMPLE_RATE,
            buffer_size: chosen_buffer_size(preferred.buffer_size),
        },
        None => Output {
            sample_rate: default_config.sample_rate,
            buffer_size: chosen_buffer_size(default_config.buffer_size),
        },
    }
}

impl Output {
    /// Chooses the configuration to ask the device for.
    pub fn new(supported: &Vec<SupportedOutputConfig>, default_config: DefaultOutputConfig) -> (output:
        Self)
        ensures
            output == chosen_output(supported@, default_config),
            output.buffer_size <= PREFERRED_BUFFER_SIZE,
    {
        let mut preferred: Option<SupportedOutputConfig> = None;
        let mut i: usize = 0;
        assert(supported@.skip(0) =~= supported@);
        while preferred.is_none() && i < supported.len()
            invariant
                i <= supported@.len(),
                match preferred {
                    Some(found) => found.is_preferred() && first_preferred(supported@) == Some(
                        found,
                    ),
                    None => first_preferred(supported@) == first_preferred(
                        supported@.skip(i as int),
                    ),
                },
            decreases supported@.len() - i + if preferred is None {
                1nat
            } else {
                0nat
            },
        {
            let ghost rest = supported@.skip(i as int);
            assert(rest[0] == supported@[i as int]);
            assert(rest.drop_first() =~= supported@.skip(i + 1));
            let config = supported[i];
            if config.max_sample_rate >= PREFERRED_SAMPLE_RATE && config.min_sample_rate
                <= PREFERRED_SAMPLE_RATE {
                preferred = Some(config);
            } else {
                i += 1;
            }
        }
        let (buffer_size_range, sample_rate) = match preferred {
            Some(found) => {
                let rate = if found.max_sample_rate < PREFERRED_SAMPLE_RATE {
                    found.max_sample_rate
                } else {
                    PREFERRED_SAMPLE_RATE
                };
                (found.buffer_size, rate)
            },
            None => {
                assert(supported@.skip(i as int).len() == 0);
                (default_config.buffer_size, default_config.sample_rate)
            },
        };
        let buffer_size = match buffer_size_range {
            SupportedBufferSize::Unknown => PREFERRED_BUFFER_SIZE,
            SupportedBufferSize::Range { min: _, max } => if max < PREFERRED_BUFFER_SIZE {
                max
            } else {
                PREFERRED_BUFFER_SIZE
            },
        };
        Output { sample_rate, buffer_size }
    }
}

} // verus!
