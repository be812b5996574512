//! Sizes and rates of video data.
use crate::protocol::{PixelFormat, VideoCodec, VideoConfig};
use crate::types::lemma_u32_product;
use vstd::prelude::*;

verus! {

/// Highest bitrate that is recommended: 200 megabits a second.
pub const MAX_RECOMMENDED_BITRATE: u32 = 200_000_000;

/// Check if hardware encoding is available. It is, on macOS and Linux.
pub fn is_hw_encoding_available() -> (b: bool)
    ensures
        b,
{
    true
}

/// Bytes of a frame: four per pixel, or one and a half.
pub open spec fn frame_len(c: VideoConfig) -> int {
    match c.pixel_format {
        PixelFormat::Bgra8 | PixelFormat::Rgba8 => (c.width * c.height) * 4,
        PixelFormat::Nv12 | PixelFormat::I420 => (c.width * c.height) * 3 / 2,
    }
}

/// Whether the bytes of a frame can be counted.
pub open spec fn frame_fits(c: VideoConfig) -> bool {
    match c.pixel_format {
        PixelFormat::Bgra8 | PixelFormat::Rgba8 => (c.width * c.height) * 4 <= usize::MAX,
        PixelFormat::Nv12 | PixelFormat::I420 => (c.width * c.height) * 3 <= usize::MAX,
    }
}

/// Calculate bytes per frame for a given configuration.
pub fn bytes_per_frame(config: &VideoConfig) -> (n: usize)
    requires
        frame_fits(*config),
    ensures
        n == frame_len(*config),
{
    proof {
        lemma_u32_product(config.width, config.height);
    }
    let pixels: usize = config.width as usize * config.height as usize;
    match config.pixel_format {
        PixelFormat::Bgra8 | PixelFormat::Rgba8 => pixels * 4,
        PixelFormat::Nv12 | PixelFormat::I420 => pixels * 3 / 2,
    }
}

/// Calculate raw bitrate for uncompressed video.
pub fn raw_bitrate(config: &VideoConfig) -> (n: u64)
    requires
        frame_fits(*config),
        frame_len(*config) * config.fps * 8 <= u64::MAX,
    ensures
        n == frame_len(*config) * config.fps * 8,
{
    let bytes: usize = bytes_per_frame(config);
    proof {
        assert(0 <= bytes * config.fps) by (nonlinear_arith)
            requires
                0 <= bytes,
                0 <= config.fps,
        ;
    }
    bytes as u64 * config.fps as u64 * 8
}

/// Bits a second for compressed video, before the cap: about a hundredth of the
/// pixels for H.265 and a fiftieth for H.264; all of them for raw video.
pub open spec fn base_bitrate(c: VideoConfig) -> int {
    let rate = (c.width * c.height) * c.fps;
    match c.codec {
        VideoCodec::H265 => rate / 100,
        VideoCodec::H264 => rate / 50,
        VideoCodec::Raw => rate * 32,
    }
}

/// Recommended bitrate for compressed video.
pub fn recommended_bitrate(config: &VideoConfig) -> (n: u32)
    requires
        (config.width * config.height) * config.fps <= u64::MAX,
        config.codec == VideoCodec::Raw ==> base_bitrate(*config) <= u64::MAX,
    ensures
        n == (if base_bitrate(*config) < MAX_RECOMMENDED_BITRATE {
            base_bitrate(*config)
        } else {
            MAX_RECOMMENDED_BITRATE as int
        }),
{
    proof {
        lemma_u32_product(config.width, config.height);
        assert(0 <= (config.width * config.height) * config.fps) by (nonlinear_arith)
            requires
                0 <= config.width * config.height,
                0 <= config.fps,
        ;
    }
    let pixels: u64 = config.width as u64 * config.height as u64;
    let fps: u64 = config.fps as u64;
    let base: u64 = match config.codec {
        VideoCodec::H265 => pixels * fps / 100,
        VideoCodec::H264 => pixels * fps / 50,
        VideoCodec::Raw => pixels * fps * 32,
    };
    if base < MAX_RECOMMENDED_BITRATE as u64 {
        base as u32
    } else {
        MAX_RECOMMENDED_BITRATE
    }
}

/// H.265 is recommended no more bits than H.264, and both no more than raw video.
pub proof fn law_better_codecs_need_fewer_bits(c: VideoConfig)
    ensures
        ({
            let rate = |codec: VideoCodec| base_bitrate(VideoConfig { codec, ..c });
            rate(VideoCodec::H265) <= rate(VideoCodec::H264) <= rate(VideoCodec::Raw)
        }),
{
    lemma_u32_product(c.width, c.height);
    assert(0 <= (c.width * c.height) * c.fps) by (nonlinear_arith)
        requires
            0 <= c.width * c.height,
            0 <= c.fps,
    ;
}

/// The bytes of a frame in a configuration are those of a buffer of its size and
/// format, and can be counted wherever they fit.
pub proof fn law_frame_sizes_agree(c: VideoConfig)
    ensures
        frame_len(c) == crate::types::frame_bytes(c.width, c.height, c.pixel_format),
        (c.width * c.height) * 4 <= usize::MAX ==> frame_fits(c),
        frame_fits(c) ==> frame_len(c) <= usize::MAX,
{
    crate::types::law_frames_take_their_bytes(c.width, c.height, c.pixel_format);
    lemma_u32_product(c.width, c.height);
}

/// A codec is recommended a fixed share of the pixels that are shown in a second: a
/// hundredth of a bit for each with H.265, a fiftieth with H.264, rounded down, and
/// 32 bits without compression.
pub proof fn law_recommended_bits_follow_the_pixels(c: VideoConfig)
    ensures
        ({
            let rate = (c.width * c.height) * c.fps;
            let n = base_bitrate(c);
            match c.codec {
                VideoCodec::H265 => 100 * n <= rate < 100 * n + 100,
                VideoCodec::H264 => 50 * n <= rate < 50 * n + 50,
                VideoCodec::Raw => n == 32 * rate,
            }
        }),
{
}

/// The highest bitrate that is recommended.
pub proof fn law_rate_limits()
    ensures
        MAX_RECOMMENDED_BITRATE == 200 * 1_000_000,
{
}

} // verus!
