//! Sizes of audio data.
use crate::protocol::AudioConfig;
use vstd::prelude::*;

verus! {

/// Bytes of one sample of all channels; a fraction of a byte does not count.
pub open spec fn sample_bytes(c: AudioConfig) -> int {
    (c.bits_per_sample / 8) * c.channels
}

/// Calculate bytes per audio sample.
pub fn bytes_per_sample(config: &AudioConfig) -> (n: usize)
    ensures
        n == sample_bytes(*config),
        n <= 0x1fff_0000,
{
    proof {
        let b = config.bits_per_sample / 8;
        let c = config.channels;
        assert(0 <= b * c <= 8191 * 65535) by (nonlinear_arith)
            requires
                0 <= b <= 8191,
                0 <= c <= 65535,
        ;
    }
    (config.bits_per_sample as usize / 8) * config.channels as usize
}

/// Calculate buffer size in bytes.
pub fn buffer_size_bytes(config: &AudioConfig) -> (n: usize)
    requires
        sample_bytes(*config) * config.buffer_size <= usize::MAX,
    ensures
        n == sample_bytes(*config) * config.buffer_size,
{
    let per_sample: usize = bytes_per_sample(config);
    proof {
        assert(0 <= per_sample * config.buffer_size) by (nonlinear_arith)
            requires
                0 <= per_sample,
                0 <= config.buffer_size,
        ;
    }
    per_sample * config.buffer_size as usize
}

/// A sample takes the whole bytes of its bits, once for each channel.
pub proof fn law_sample_bytes_follow_bits_and_channels(c: AudioConfig)
    ensures
        c.bits_per_sample % 8 == 0 ==> 8 * sample_bytes(c) == c.bits_per_sample * c.channels,
        8 * sample_bytes(c) <= c.bits_per_sample * c.channels,
        c.bits_per_sample * c.channels <= 8 * sample_bytes(c) + 7 * c.channels,
{
    let q = (c.bits_per_sample / 8) as int;
    let r = (c.bits_per_sample % 8) as int;
    let n = c.channels as int;
    assert((8 * q + r) * n == 8 * (q * n) + r * n) by (nonlinear_arith);
    assert(0 <= r * n <= 7 * n) by (nonlinear_arith)
        requires
            0 <= r <= 7,
            0 <= n,
    ;
    assert(r == 0 ==> r * n == 0) by (nonlinear_arith);
}

} // verus!
