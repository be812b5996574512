//! Protocol message definitions.
//!
//! Video and audio travel over UDP, control messages over a reliable channel.
//! A floating-point field is held as its IEEE 754 bits, which is also how it
//! travels.
use vstd::prelude::*;

verus! {

/// Protocol version for compatibility checking.
pub const PROTOCOL_VERSION: u32 = 1;

/// Magic bytes for packet identification: `BRDG`.
pub const MAGIC: [u8; 4] = [0x42, 0x52, 0x44, 0x47];

/// Maximum packet size for UDP (MTU-safe).
pub const MAX_UDP_PACKET_SIZE: usize = 1400;

/// Maximum packet size for UDP over a Thunderbolt link, which carries whole
/// datagrams.
pub const MAX_UDP_PACKET_SIZE_THUNDERBOLT: usize = 65507;

/// Maximum video frame size (for allocation): 16 MiB.
pub const MAX_FRAME_SIZE: usize = 16 * 1024 * 1024;

/// Header present at the start of every packet.
#[derive(Debug, Clone, Copy)]
pub struct PacketHeader {
    /// Magic bytes for identification.
    pub magic: [u8; 4],
    /// Protocol version.
    pub version: u32,
    /// Packet type.
    pub packet_type: PacketType,
    /// Sequence number for ordering/loss detection.
    pub sequence: u64,
    /// Timestamp in microseconds (for latency measurement).
    pub timestamp_us: u64,
    /// Payload length.
    pub payload_len: u32,
}

/// Type of packet being sent.
#[derive(Debug, Clone, Copy, PartialEq, Eq, Structural)]
pub enum PacketType {
    /// Control channel messages.
    Control,
    /// Video frame data.
    Video,
    /// Audio sample data.
    Audio,
    /// Input events.
    Input,
    /// Keepalive/ping.
    Ping,
    /// Pong response.
    Pong,
}

/// Control channel messages (sent over reliable connection).
#[derive(Debug, Clone)]
pub enum ControlMessage {
    /// Initial connection handshake.
    Hello(HelloMessage),
    /// Response to Hello.
    Welcome(WelcomeMessage),
    /// Request video stream configuration.
    ConfigureVideo(VideoConfig),
    /// Request audio stream configuration.
    ConfigureAudio(AudioConfig),
    /// Start streaming.
    StartStream,
    /// Stop streaming.
    StopStream,
    /// Latency report for adaptive quality.
    LatencyReport(LatencyReport),
    /// Disconnect gracefully.
    Disconnect,
    /// Ask for a keyframe after video was lost.
    RequestKeyframe,
}

/// Initial handshake message from client.
#[derive(Debug, Clone)]
pub struct HelloMessage {
    /// Client name/identifier.
    pub client_name: String,
    /// Supported protocol version.
    pub protocol_version: u32,
    /// Requested video configuration.
    pub video_config: VideoConfig,
    /// Requested audio configuration.
    pub audio_config: AudioConfig,
}

/// Server response to Hello.
#[derive(Debug, Clone)]
pub struct WelcomeMessage {
    /// Server name/identifier.
    pub server_name: String,
    /// Negotiated video configuration.
    pub video_config: VideoConfig,
    /// Negotiated audio configuration.
    pub audio_config: AudioConfig,
    /// UDP port for video stream.
    pub video_port: u16,
    /// UDP port for audio stream.
    pub audio_port: u16,
}

/// Video stream configuration.
#[derive(Debug, Clone, Copy, PartialEq, Eq, Structural)]
pub struct VideoConfig {
    /// Frame width in pixels.
    pub width: u32,
    /// Frame height in pixels.
    pub height: u32,
    /// Target frame rate.
    pub fps: u32,
    /// Video codec to use.
    pub codec: VideoCodec,
    /// Target bitrate in bits per second.
    pub bitrate: u32,
    /// Pixel format.
    pub pixel_format: PixelFormat,
}

impl VideoConfig {
    /// The configuration that a session starts from: 4K at 60 frames a second.
    pub open spec fn initial() -> VideoConfig {
        VideoConfig {
            width: 3840,
            height: 2160,
            fps: 60,
            codec: VideoCodec::H265,
            bitrate: 50_000_000,
            pixel_format: PixelFormat::Bgra8,
        }
    }
}

impl Default for VideoConfig {
    fn default() -> (c: Self)
        ensures
            c == VideoConfig::initial(),
    {
        VideoConfig {
            width: 3840,
            height: 2160,
            fps: 60,
            codec: VideoCodec::H265,
            bitrate: 50_000_000,
            pixel_format: PixelFormat::Bgra8,
        }
    }
}

/// Supported video codecs.
#[derive(Debug, Clone, Copy, PartialEq, Eq, Structural)]
pub enum VideoCodec {
    /// Raw uncompressed (for testing/Thunderbolt).
    Raw,
    /// H.264/AVC.
    H264,
    /// H.265/HEVC (preferred).
    H265,
}

/// Pixel format for raw video.
#[derive(Debug, Clone, Copy, PartialEq, Eq, Structural)]
pub enum PixelFormat {
    /// 32-bit BGRA (native for macOS).
    Bgra8,
    /// 32-bit RGBA.
    Rgba8,
    /// NV12 (YUV 4:2:0 semi-planar).
    Nv12,
    /// I420 (YUV 4:2:0 planar).
    I420,
}

/// Video frame header (prepended to video data).
#[derive(Debug, Clone, Copy, PartialEq, Eq, Structural)]
pub struct VideoFrameHeader {
    /// Frame number.
    pub frame_number: u64,
    /// Presentation timestamp in microseconds.
    pub pts_us: u64,
    /// Whether this is a keyframe.
    pub is_keyframe: bool,
    /// Total frame size in bytes.
    pub frame_size: u32,
    /// Fragment index (for frames split across packets).
    pub fragment_index: u16,
    /// Total number of fragments.
    pub fragment_count: u16,
    /// Frame width.
    pub width: u32,
    /// Frame height.
    pub height: u32,
}

/// Audio stream configuration.
#[derive(Debug, Clone, Copy, PartialEq, Eq, Structural)]
pub struct AudioConfig {
    /// Sample rate in Hz.
    pub sample_rate: u32,
    /// Number of channels.
    pub channels: u16,
    /// Audio codec.
    pub codec: AudioCodec,
    /// Bits per sample (for raw audio).
    pub bits_per_sample: u16,
    /// Buffer size in samples.
    pub buffer_size: u32,
}

impl AudioConfig {
    /// The configuration that a session starts from: raw stereo at 48 kHz in
    /// buffers of ten milliseconds.
    pub open spec fn initial() -> AudioConfig {
        AudioConfig {
            sample_rate: 48000,
            channels: 2,
            codec: AudioCodec::Raw,
            bits_per_sample: 32,
            buffer_size: 480,
        }
    }
}

impl Default for AudioConfig {
    fn default() -> (c: Self)
        ensures
            c == AudioConfig::initial(),
    {
        AudioConfig {
            sample_rate: 48000,
            channels: 2,
            codec: AudioCodec::Raw,
            bits_per_sample: 32,
            buffer_size: 480,
        }
    }
}

/// Supported audio codecs.
#[derive(Debug, Clone, Copy, PartialEq, Eq, Structural)]
pub enum AudioCodec {
    /// Raw PCM (lowest latency).
    Raw,
    /// Opus (good quality, low latency).
    Opus,
}

/// Audio packet header.
#[derive(Debug, Clone, Copy, PartialEq, Eq, Structural)]
pub struct AudioPacketHeader {
    /// Sequence number.
    pub sequence: u64,
    /// Presentation timestamp in microseconds.
    pub pts_us: u64,
    /// Number of samples in this packet.
    pub sample_count: u32,
    /// Payload size in bytes.
    pub payload_size: u32,
}

/// Input event types.
#[derive(Debug, Clone)]
pub enum InputEvent {
    /// Keyboard event.
    Keyboard(KeyboardEvent),
    /// Mouse movement.
    MouseMove(MouseMoveEvent),
    /// Mouse button.
    MouseButton(MouseButtonEvent),
    /// Mouse scroll.
    MouseScroll(MouseScrollEvent),
    /// Raw HID report (for gaming peripherals).
    RawHid(RawHidEvent),
}

/// Keyboard event.
#[derive(Debug, Clone, Copy, PartialEq, Eq, Structural)]
pub struct KeyboardEvent {
    /// Virtual key code (macOS key code).
    pub key_code: u16,
    /// Whether key is pressed (true) or released (false).
    pub is_pressed: bool,
    /// Modifier flags.
    pub modifiers: ModifierFlags,
    /// Timestamp in microseconds.
    pub timestamp_us: u64,
}

/// Mouse movement event.
#[derive(Debug, Clone, Copy, PartialEq, Eq, Structural)]
pub struct MouseMoveEvent {
    /// Bits of the absolute X position (0.0 - 1.0 normalized).
    pub x_bits: u64,
    /// Bits of the absolute Y position (0.0 - 1.0 normalized).
    pub y_bits: u64,
    /// Bits of the delta X (for relative mode).
    pub delta_x_bits: u64,
    /// Bits of the delta Y (for relative mode).
    pub delta_y_bits: u64,
    /// Whether to use absolute or relative positioning.
    pub is_absolute: bool,
    /// Timestamp in microseconds.
    pub timestamp_us: u64,
}

/// Mouse button event.
#[derive(Debug, Clone, Copy, PartialEq, Eq, Structural)]
pub struct MouseButtonEvent {
    /// Button number (0 = left, 1 = right, 2 = middle, etc.).
    pub button: u8,
    /// Whether button is pressed (true) or released (false).
    pub is_pressed: bool,
    /// Click count (1 = single, 2 = double, etc.).
    pub click_count: u8,
    /// Timestamp in microseconds.
    pub timestamp_us: u64,
}

/// Mouse scroll event.
#[derive(Debug, Clone, Copy, PartialEq, Eq, Structural)]
pub struct MouseScrollEvent {
    /// Bits of the horizontal scroll delta.
    pub delta_x_bits: u64,
    /// Bits of the vertical scroll delta.
    pub delta_y_bits: u64,
    /// Whether this is a continuous (trackpad) or discrete (wheel) scroll.
    pub is_continuous: bool,
    /// Timestamp in microseconds.
    pub timestamp_us: u64,
}

/// Raw HID report for gaming peripherals.
#[derive(Debug, Clone)]
pub struct RawHidEvent {
    /// Device vendor ID.
    pub vendor_id: u16,
    /// Device product ID.
    pub product_id: u16,
    /// Report ID.
    pub report_id: u8,
    /// Raw report data.
    pub data: Vec<u8>,
    /// Timestamp in microseconds.
    pub timestamp_us: u64,
}

/// Keyboard modifier flags.
#[derive(Debug, Clone, Copy, PartialEq, Eq, Structural)]
pub struct ModifierFlags {
    pub shift: bool,
    pub control: bool,
    pub option: bool,
    pub command: bool,
    pub caps_lock: bool,
    pub fn_key: bool,
}

impl Default for ModifierFlags {
    fn default() -> (m: Self)
        ensures
            m == (ModifierFlags {
                shift: false,
                control: false,
                option: false,
                command: false,
                caps_lock: false,
                fn_key: false,
            }),
    {
        ModifierFlags {
            shift: false,
            control: false,
            option: false,
            command: false,
            caps_lock: false,
            fn_key: false,
        }
    }
}

/// Latency report for adaptive quality.
#[derive(Debug, Clone, Copy, PartialEq, Eq, Structural)]
pub struct LatencyReport {
    /// Round-trip time in microseconds.
    pub rtt_us: u64,
    /// Video decode latency in microseconds.
    pub decode_latency_us: u64,
    /// Display latency in microseconds.
    pub display_latency_us: u64,
    /// Bits of the packet loss share (0.0 - 1.0), a single-precision number.
    pub packet_loss_bits: u32,
    /// Jitter in microseconds.
    pub jitter_us: u64,
}

impl PacketType {
    /// The variant's place in the enumeration, by which it travels.
    pub open spec fn place(self) -> u32 {
        match self {
            PacketType::Control => 0,
            PacketType::Video => 1,
            PacketType::Audio => 2,
            PacketType::Input => 3,
            PacketType::Ping => 4,
            PacketType::Pong => 5,
        }
    }

    /// The variant's place in the enumeration.
    pub fn index(self) -> (i: u32)
        ensures
            i == self.place(),
    {
        match self {
            PacketType::Control => 0,
            PacketType::Video => 1,
            PacketType::Audio => 2,
            PacketType::Input => 3,
            PacketType::Ping => 4,
            PacketType::Pong => 5,
        }
    }

    /// The variant in a place, where there is one.
    pub fn from_index(i: u32) -> (r: Option<PacketType>)
        ensures
            r matches Some(t) ==> t.place() == i,
            r is None <==> i > 5,
    {
        match i {
            0 => Some(PacketType::Control),
            1 => Some(PacketType::Video),
            2 => Some(PacketType::Audio),
            3 => Some(PacketType::Input),
            4 => Some(PacketType::Ping),
            5 => Some(PacketType::Pong),
            _ => None,
        }
    }
}

impl VideoCodec {
    /// The variant's place in the enumeration, by which it travels.
    pub open spec fn place(self) -> u32 {
        match self {
            VideoCodec::Raw => 0,
            VideoCodec::H264 => 1,
            VideoCodec::H265 => 2,
        }
    }

    /// The variant's place in the enumeration.
    pub fn index(self) -> (i: u32)
        ensures
            i == self.place(),
    {
        match self {
            VideoCodec::Raw => 0,
            VideoCodec::H264 => 1,
            VideoCodec::H265 => 2,
        }
    }

    /// The variant in a place, where there is one.
    pub fn from_index(i: u32) -> (r: Option<VideoCodec>)
        ensures
            r matches Some(c) ==> c.place() == i,
            r is None <==> i > 2,
    {
        match i {
            0 => Some(VideoCodec::Raw),
            1 => Some(VideoCodec::H264),
            2 => Some(VideoCodec::H265),
            _ => None,
        }
    }
}

impl PixelFormat {
    /// The variant's place in the enumeration, by which it travels.
    pub open spec fn place(self) -> u32 {
        match self {
            PixelFormat::Bgra8 => 0,
            PixelFormat::Rgba8 => 1,
            PixelFormat::Nv12 => 2,
            PixelFormat::I420 => 3,
        }
    }

    /// The variant's place in the enumeration.
    pub fn index(self) -> (i: u32)
        ensures
            i == self.place(),
    {
        match self {
            PixelFormat::Bgra8 => 0,
            PixelFormat::Rgba8 => 1,
            PixelFormat::Nv12 => 2,
            PixelFormat::I420 => 3,
        }
    }

    /// The variant in a place, where there is one.
    pub fn from_index(i: u32) -> (r: Option<PixelFormat>)
        ensures
            r matches Some(f) ==> f.place() == i,
            r is None <==> i > 3,
    {
        match i {
            0 => Some(PixelFormat::Bgra8),
            1 => Some(PixelFormat::Rgba8),
            2 => Some(PixelFormat::Nv12),
            3 => Some(PixelFormat::I420),
            _ => None,
        }
    }
}

impl AudioCodec {
    /// The variant's place in the enumeration, by which it travels.
    pub open spec fn place(self) -> u32 {
        match self {
            AudioCodec::Raw => 0,
            AudioCodec::Opus => 1,
        }
    }

    /// The variant's place in the enumeration.
    pub fn index(self) -> (i: u32)
        ensures
            i == self.place(),
    {
        match self {
            AudioCodec::Raw => 0,
            AudioCodec::Opus => 1,
        }
    }

    /// The variant in a place, where there is one.
    pub fn from_index(i: u32) -> (r: Option<AudioCodec>)
        ensures
            r matches Some(c) ==> c.place() == i,
            r is None <==> i > 1,
    {
        match i {
            0 => Some(AudioCodec::Raw),
            1 => Some(AudioCodec::Opus),
            _ => None,
        }
    }
}

/// The kinds of packets, codecs and pixel formats travel by these numbers.
pub proof fn law_kinds_travel_by_number(t: PacketType, v: VideoCodec, p: PixelFormat, a: AudioCodec)
    ensures
        t.place() < 6,
        t == PacketType::Control <==> t.place() == 0,
        t == PacketType::Video <==> t.place() == 1,
        t == PacketType::Audio <==> t.place() == 2,
        t == PacketType::Input <==> t.place() == 3,
        t == PacketType::Ping <==> t.place() == 4,
        t == PacketType::Pong <==> t.place() == 5,
        v == VideoCodec::Raw <==> v.place() == 0,
        v == VideoCodec::H264 <==> v.place() == 1,
        v == VideoCodec::H265 <==> v.place() == 2,
        p == PixelFormat::Bgra8 <==> p.place() == 0,
        p == PixelFormat::Rgba8 <==> p.place() == 1,
        p == PixelFormat::Nv12 <==> p.place() == 2,
        p == PixelFormat::I420 <==> p.place() == 3,
        a == AudioCodec::Raw <==> a.place() == 0,
        a == AudioCodec::Opus <==> a.place() == 1,
{
}

/// The sizes of packets and frames.
pub proof fn law_protocol_limits()
    ensures
        MAX_UDP_PACKET_SIZE == 1400,
        MAX_UDP_PACKET_SIZE_THUNDERBOLT == 65535 - 28,
        MAX_FRAME_SIZE == 0x100_0000,
        PROTOCOL_VERSION == 1,
{
}

} // verus!
