use vstd::prelude::*;

verus! {

/// Format of the captured stream. Samples are signed 32-bit integers, least
/// significant byte first, with the channels interleaved.
#[derive(Clone, Copy, Debug, PartialEq, Eq, Structural)]
pub struct StreamSpec {
    /// Samples per second and channel.
    pub rate: u32,
    /// Number of interleaved channels.
    pub channels: u8,
}

/// Byte counts that tune the capture transport between latency and the risk
/// of dropouts.
#[derive(Clone, Copy, Debug, PartialEq, Eq, Structural)]
pub struct BufferPolicy {
    /// Most that the transport may buffer.
    pub max_length: u32,
    /// How much the transport aims to keep buffered.
    pub target_length: u32,
    /// How much is buffered before the stream starts.
    pub pre_buffer: u32,
    /// Least that the transport asks for at a time.
    pub min_request: u32,
    /// Size of the blocks in which captured data is handed over.
    pub fragment_size: u32,
}

impl StreamSpec {
    /// The one format that the meter captures in: 48 kHz stereo.
    pub fn capture() -> (spec: StreamSpec)
        ensures
            spec == (StreamSpec { rate: 48000, channels: 2 }),
    {
        StreamSpec { rate: 48000, channels: 2 }
    }
}

impl BufferPolicy {
    /// The target does not exceed the maximum.
    pub open spec fn is_consistent(self) -> bool {
        self.target_length <= self.max_length
    }

    /// A policy of the given byte counts, unless the target exceeds the
    /// maximum.
    pub fn new(
        max_length: u32,
        target_length: u32,
        pre_buffer: u32,
        min_request: u32,
        fragment_size: u32,
    ) -> (policy: Option<BufferPolicy>)
        ensures
            target_length <= max_length ==> policy == Some(
                BufferPolicy { max_length, target_length, pre_buffer, min_request, fragment_size },
            ),
            target_length > max_length ==> policy is None,
    {
        if target_length <= max_length {
            Some(BufferPolicy { max_length, target_length, pre_buffer, min_request, fragment_size })
        } else {
            None
        }
    }

    /// The policy of the meter, sized for frames of 512 samples: at most two
    /// frames buffered, one aimed at, nothing buffered ahead, and half a
    /// frame per request and per fragment.
    pub fn low_latency() -> (policy: BufferPolicy)
        ensures
            policy == (BufferPolicy {
                max_length: 4096,
                target_length: 2048,
                pre_buffer: 0,
                min_request: 1024,
                fragment_size: 1024,
            }),
            policy.is_consistent(),
    {
        BufferPolicy {
            max_length: 4096,
            target_length: 2048,
            pre_buffer: 0,
            min_request: 1024,
            fragment_size: 1024,
        }
    }

    /// Whether the target does not exceed the maximum.
    pub fn check(&self) -> (ok: bool)
        ensures
            ok == self.is_consistent(),
    {
        self.target_length <= self.max_length
    }
}

} // verus!
