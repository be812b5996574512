//! Encoded and decoded frames, and the configuration of encoders.
use crate::error::{BridgeError, BridgeResult};
use crate::protocol::{VideoCodec, VideoConfig};
use vstd::prelude::*;
use vstd::string::StringExecFns;

verus! {

/// Encoded video frame.
#[derive(Debug, Clone)]
pub struct EncodedFrame {
    /// Encoded data (H.264/H.265 NAL units).
    pub data: Vec<u8>,
    /// Presentation timestamp in microseconds.
    pub pts_us: u64,
    /// Decode timestamp in microseconds.
    pub dts_us: u64,
    /// Whether this is a keyframe.
    pub is_keyframe: bool,
    /// Frame number.
    pub frame_number: u64,
}

/// Decoded video frame.
#[derive(Debug)]
pub struct DecodedFrame {
    /// Pixel data (BGRA).
    pub data: Vec<u8>,
    /// Frame width.
    pub width: u32,
    /// Frame height.
    pub height: u32,
    /// Bytes per row.
    pub bytes_per_row: u32,
    /// Presentation timestamp in microseconds.
    pub pts_us: u64,
}

/// Video encoder configuration.
#[derive(Debug, Clone, Copy, PartialEq, Eq, Structural)]
pub struct EncoderConfig {
    /// Video width.
    pub width: u32,
    /// Video height.
    pub height: u32,
    /// Target frame rate.
    pub fps: u32,
    /// Target bitrate in bits per second.
    pub bitrate: u32,
    /// Codec to use.
    pub codec: VideoCodec,
    /// Keyframe interval in frames.
    pub keyframe_interval: u32,
    /// Enable low-latency mode.
    pub low_latency: bool,
    /// Enable real-time encoding.
    pub realtime: bool,
    /// Maximum quality mode (for high-bandwidth connections like Thunderbolt).
    pub max_quality: bool,
}

impl Default for EncoderConfig {
    fn default() -> (c: Self)
        ensures
            c == (EncoderConfig {
                width: 1920,
                height: 1080,
                fps: 60,
                bitrate: 60_000_000,
                codec: VideoCodec::H265,
                keyframe_interval: 60,
                low_latency: true,
                realtime: true,
                max_quality: false,
            }),
    {
        EncoderConfig {
            width: 1920,
            height: 1080,
            fps: 60,
            bitrate: 60_000_000,
            codec: VideoCodec::H265,
            keyframe_interval: 60,
            low_latency: true,
            realtime: true,
            max_quality: false,
        }
    }
}

impl From<&VideoConfig> for EncoderConfig {
    fn from(config: &VideoConfig) -> (c: Self) {
        EncoderConfig {
            width: config.width,
            height: config.height,
            fps: config.fps,
            bitrate: config.bitrate,
            codec: config.codec,
            keyframe_interval: 60,
            low_latency: true,
            realtime: true,
            max_quality: false,
        }
    }
}

impl vstd::std_specs::convert::FromSpecImpl<&VideoConfig> for EncoderConfig {
    open spec fn obeys_from_spec() -> bool {
        true
    }

    open spec fn from_spec(config: &VideoConfig) -> EncoderConfig {
        EncoderConfig {
            width: config.width,
            height: config.height,
            fps: config.fps,
            bitrate: config.bitrate,
            codec: config.codec,
            keyframe_interval: 60,
            low_latency: true,
            realtime: true,
            max_quality: false,
        }
    }
}

/// State of a video decoder.
#[derive(Debug, Clone, Copy, PartialEq, Eq, Structural)]
pub struct VideoDecoder {
    pub width: u32,
    pub height: u32,
    pub codec: VideoCodec,
    /// Whether the parameter sets of the stream have come.
    pub initialized: bool,
}

impl VideoDecoder {
    /// A decoder for compressed video. It is not initialized until it receives
    /// parameter sets.
    pub fn new(width: u32, height: u32, codec: VideoCodec) -> (r: BridgeResult<Self>)
        ensures
            match r {
                Ok(d) => codec != VideoCodec::Raw && d == (VideoDecoder {
                    width,
                    height,
                    codec,
                    initialized: false,
                }),
                Err(e) => codec == VideoCodec::Raw && (e matches BridgeError::Video(m) && m@
                    == "Raw codec doesn't need decoder"@),
            },
    {
        if codec == VideoCodec::Raw {
            Err(BridgeError::Video(String::from_str("Raw codec doesn't need decoder")))
        } else {
            Ok(VideoDecoder { width, height, codec, initialized: false })
        }
    }

    /// Tells whether the parameter sets of the stream have come.
    pub fn is_initialized(&self) -> (b: bool)
        ensures
            b == self.initialized,
    {
        self.initialized
    }
}

/// An encoder for a session takes the size, frame rate, bitrate and codec that were
/// agreed on, and works in real time with low latency.
pub proof fn law_encoder_follows_the_session(c: VideoConfig)
    ensures
        ({
            let f = <EncoderConfig as vstd::std_specs::convert::FromSpec<&VideoConfig>>::from_spec(
                &c,
            );
            &&& f.width == c.width
            &&& f.height == c.height
            &&& f.fps == c.fps
            &&& f.bitrate == c.bitrate
            &&& f.codec == c.codec
            &&& f.keyframe_interval == 60
            &&& f.low_latency
            &&& f.realtime
            &&& !f.max_quality
        }),
{
}

} // verus!
