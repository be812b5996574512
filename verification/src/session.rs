//! A session of the server with one client: what is captured, how it is sent,
//! and how the server reacts to what the client says.
use crate::input::codec::InputView;
use crate::protocol::{
    ControlMessage, InputEvent, LatencyReport, PacketHeader, PacketType, PixelFormat, VideoCodec,
    VideoConfig, VideoFrameHeader, MAX_UDP_PACKET_SIZE_THUNDERBOLT,
};
use crate::queue::QueueItem;
use crate::transport::TransportConfig;
use crate::types::Resolution;
use crate::udp::{chunk, chunk_count, count_chunks, nth_chunk};
use crate::video::capture::{CaptureConfig, CapturedFrame, DisplayInfo};
use crate::video::codec::EncoderConfig;
use crate::video::color_convert::nv12_of;
use crate::video::encoder::{can_convert, VideoEncoder};
use crate::video::virtual_display::{VirtualDisplay, DISPLAY_NUMBER};
use vstd::prelude::*;
use vstd::string::StringExecFns;

verus! {

/// Socket buffers over Thunderbolt: 32 MiB.
pub const THUNDERBOLT_BUFFER: usize = 33_554_432;

/// Room that is left in a packet beside the headers.
pub const PACKET_MARGIN: usize = 64;

/// The transport of a session: large packets and buffers over Thunderbolt.
pub fn session_transport(config: TransportConfig, is_thunderbolt: bool) -> (c: TransportConfig)
    ensures
        c == (if is_thunderbolt {
            TransportConfig {
                max_packet_size: MAX_UDP_PACKET_SIZE_THUNDERBOLT,
                send_buffer_size: THUNDERBOLT_BUFFER,
                recv_buffer_size: THUNDERBOLT_BUFFER,
                ..config
            }
        } else {
            config
        }),
{
    if is_thunderbolt {
        TransportConfig {
            max_packet_size: MAX_UDP_PACKET_SIZE_THUNDERBOLT,
            send_buffer_size: THUNDERBOLT_BUFFER,
            recv_buffer_size: THUNDERBOLT_BUFFER,
            ..config
        }
    } else {
        config
    }
}

/// What the server is started with.
#[derive(Debug, Clone, Copy, PartialEq, Eq, Structural)]
pub struct ServerOptions {
    /// Video width (0 = native).
    pub width: u32,
    /// Video height (0 = native).
    pub height: u32,
    /// Target frame rate.
    pub fps: u32,
    /// Video bitrate in megabits per second.
    pub bitrate_mbps: u32,
    /// Send video uncompressed.
    pub raw_video: bool,
}

/// A size, or the one to use where none is given.
pub open spec fn size_or(size: u32, other: u32) -> u32 {
    if size > 0 {
        size
    } else {
        other
    }
}

/// The video configuration that a server is started with: 4K where no size is
/// given.
pub fn server_video_config(options: &ServerOptions) -> (c: VideoConfig)
    requires
        options.bitrate_mbps * 1_000_000 <= u32::MAX,
    ensures
        c == (VideoConfig {
            width: size_or(options.width, 3840),
            height: size_or(options.height, 2160),
            fps: options.fps,
            codec: if options.raw_video {
                VideoCodec::Raw
            } else {
                VideoCodec::H265
            },
            bitrate: (options.bitrate_mbps * 1_000_000) as u32,
            pixel_format: PixelFormat::Bgra8,
        }),
{
    VideoConfig {
        width: if options.width > 0 {
            options.width
        } else {
            3840
        },
        height: if options.height > 0 {
            options.height
        } else {
            2160
        },
        fps: options.fps,
        codec: if options.raw_video {
            VideoCodec::Raw
        } else {
            VideoCodec::H265
        },
        bitrate: options.bitrate_mbps * 1_000_000,
        pixel_format: PixelFormat::Bgra8,
    }
}

/// How a session gets something to capture.
#[derive(Debug, Clone, Copy, PartialEq, Eq, Structural)]
pub enum DisplayPlan {
    /// Capture the display that is there.
    Native { width: u32, height: u32 },
    /// Make a virtual display of this size; go back to the display that is there
    /// if that fails.
    Virtual { width: u32, height: u32, fps: u32, fallback: Option<Resolution> },
}

/// Whether the client asks for more pixels than a display has.
pub open spec fn exceeds(video: VideoConfig, d: DisplayInfo) -> bool {
    video.width > d.width || video.height > d.height
}

/// What is captured, if anything can be. Without a display a virtual one is
/// needed; where the client asks for more than the display has, one is tried.
pub open spec fn planned(
    main: Option<DisplayInfo>,
    video: VideoConfig,
    virtual_supported: bool,
) -> Option<DisplayPlan> {
    match main {
        None => if virtual_supported {
            Some(
                DisplayPlan::Virtual {
                    width: size_or(video.width, 3840),
                    height: size_or(video.height, 2160),
                    fps: video.fps,
                    fallback: None,
                },
            )
        } else {
            None
        },
        Some(d) => if exceeds(video, d) && virtual_supported {
            Some(
                DisplayPlan::Virtual {
                    width: video.width,
                    height: video.height,
                    fps: video.fps,
                    fallback: Some(Resolution { width: d.width, height: d.height }),
                },
            )
        } else {
            Some(DisplayPlan::Native { width: d.width, height: d.height })
        },
    }
}

/// Plans what to capture.
pub fn plan_display(main: Option<DisplayInfo>, video: &VideoConfig, virtual_supported: bool) -> (r:
    Result<DisplayPlan, String>)
    ensures
        match r {
            Ok(plan) => planned(main, *video, virtual_supported) == Some(plan),
            Err(m) => planned(main, *video, virtual_supported) is None && m@
                == "No display available: headless and virtual display not supported"@,
        },
{
    match main {
        None => if virtual_supported {
            let width: u32 = if video.width > 0 {
                video.width
            } else {
                3840
            };
            let height: u32 = if video.height > 0 {
                video.height
            } else {
                2160
            };
            Ok(DisplayPlan::Virtual { width, height, fps: video.fps, fallback: None })
        } else {
            Err(
                String::from_str(
                    "No display available: headless and virtual display not supported",
                ),
            )
        },
        Some(d) => if (video.width > d.width || video.height > d.height) && virtual_supported {
            Ok(
                DisplayPlan::Virtual {
                    width: video.width,
                    height: video.height,
                    fps: video.fps,
                    fallback: Some(Resolution { width: d.width, height: d.height }),
                },
            )
        } else {
            Ok(DisplayPlan::Native { width: d.width, height: d.height })
        },
    }
}

/// What a session captures.
#[derive(Debug, Clone, Copy, PartialEq, Eq, Structural)]
pub struct CaptureTarget {
    pub width: u32,
    pub height: u32,
    /// The display, where it is not the main one.
    pub display_id: Option<u32>,
}

/// What is captured, given the virtual display if one could be made.
pub open spec fn captured(plan: DisplayPlan, created: Option<VirtualDisplay>) -> Option<
    CaptureTarget,
> {
    match plan {
        DisplayPlan::Native { width, height } => Some(
            CaptureTarget { width, height, display_id: None },
        ),
        DisplayPlan::Virtual { fallback, .. } => match created {
            Some(v) => Some(
                CaptureTarget {
                    width: v.width,
                    height: v.height,
                    display_id: Some(v.display_num),
                },
            ),
            None => match fallback {
                Some(size) => Some(
                    CaptureTarget { width: size.width, height: size.height, display_id: None },
                ),
                None => None,
            },
        },
    }
}

/// What to capture, once it is known whether the virtual display that was planned
/// could be made, or why not.
pub fn capture_target(plan: DisplayPlan, created: Result<VirtualDisplay, String>) -> (r: Result<
    CaptureTarget,
    String,
>)
    ensures
        match r {
            Ok(t) => captured(plan, created.ok()) == Some(t),
            Err(m) => captured(plan, created.ok()) is None && created is Err && m@
                == "No display available: headless and virtual display failed: "@
                + created->Err_0@,
        },
{
    match plan {
        DisplayPlan::Native { width, height } => Ok(
            CaptureTarget { width, height, display_id: None },
        ),
        DisplayPlan::Virtual { fallback, .. } => match created {
            Ok(v) => Ok(
                CaptureTarget {
                    width: v.width(),
                    height: v.height(),
                    display_id: Some(v.display_id()),
                },
            ),
            Err(e) => match fallback {
                Some(size) => Ok(
                    CaptureTarget { width: size.width, height: size.height, display_id: None },
                ),
                None => {
                    let mut m = String::from_str(
                        "No display available: headless and virtual display failed: ",
                    );
                    m.append(e.as_str());
                    Err(m)
                },
            },
        },
    }
}

/// With a display there is always something to capture, whether or not a virtual
/// display can be made.
pub proof fn law_a_display_is_enough(
    d: DisplayInfo,
    video: VideoConfig,
    virtual_supported: bool,
    created: Option<VirtualDisplay>,
)
    ensures
        planned(Some(d), video, virtual_supported) is Some,
        captured(planned(Some(d), video, virtual_supported)->0, created) is Some,
{
}

/// Where virtual displays can be made, the client gets at least the pixels that it
/// asks for: a virtual display has the size that was planned.
pub proof fn law_client_gets_its_size(main: Option<DisplayInfo>, video: VideoConfig)
    ensures
        ({
            let plan = planned(main, video, true)->0;
            let made = match plan {
                DisplayPlan::Native { .. } => None,
                DisplayPlan::Virtual { width, height, .. } => Some(
                    VirtualDisplay { display_num: DISPLAY_NUMBER, width, height },
                ),
            };
            let target = captured(plan, made)->0;
            &&& planned(main, video, true) is Some
            &&& captured(plan, made) is Some
            &&& target.width >= video.width
            &&& target.height >= video.height
        }),
{
}

/// The configuration of the capture.
pub fn session_capture_config(target: &CaptureTarget, fps: u32) -> (c: CaptureConfig)
    ensures
        c == (CaptureConfig {
            width: target.width,
            height: target.height,
            fps,
            show_cursor: true,
            capture_audio: false,
            display_id: target.display_id,
        }),
{
    CaptureConfig {
        width: target.width,
        height: target.height,
        fps,
        show_cursor: true,
        capture_audio: false,
        display_id: target.display_id,
    }
}

/// The configuration of the encoder: that of the client, in the size of what is
/// captured. Raw video needs none.
pub open spec fn encoder_for(video: VideoConfig, target: CaptureTarget) -> Option<EncoderConfig> {
    if video.codec == VideoCodec::Raw {
        None
    } else {
        Some(
            EncoderConfig {
                width: target.width,
                height: target.height,
                fps: video.fps,
                bitrate: video.bitrate,
                codec: video.codec,
                keyframe_interval: 60,
                low_latency: true,
                realtime: true,
                max_quality: false,
            },
        )
    }
}

/// The configuration of the encoder, where one is needed.
pub fn session_encoder_config(video: &VideoConfig, target: &CaptureTarget) -> (r: Option<
    EncoderConfig,
>)
    ensures
        r == encoder_for(*video, *target),
{
    if video.codec == VideoCodec::Raw {
        None
    } else {
        let captured = VideoConfig { width: target.width, height: target.height, ..*video };
        Some(EncoderConfig::from(&captured))
    }
}

/// Longest chunk of a frame that goes into one packet.
pub fn fragment_size(max_packet_size: usize) -> (n: usize)
    requires
        max_packet_size >= PacketHeader::SIZE + VideoFrameHeader::SIZE + PACKET_MARGIN,
    ensures
        n == max_packet_size - PacketHeader::SIZE - VideoFrameHeader::SIZE - PACKET_MARGIN,
{
    max_packet_size - PacketHeader::SIZE - VideoFrameHeader::SIZE - PACKET_MARGIN
}

/// The bytes of several packets.
pub open spec fn views(v: Seq<Vec<u8>>) -> Seq<Seq<u8>> {
    v.map_values(|p: Vec<u8>| p@)
}

/// What is said of a frame that is streamed.
#[derive(Debug, Clone, Copy, PartialEq, Eq, Structural)]
pub struct StreamedFrame {
    pub frame_number: u64,
    pub pts_us: u64,
    /// Whether it was not encoded: then it can be shown by itself.
    pub is_raw: bool,
    /// Whether the encoder made it a keyframe.
    pub is_keyframe: bool,
    pub width: u32,
    pub height: u32,
}

impl StreamedFrame {
    /// Whether fragment `i` is marked as a keyframe: each of a raw frame, the first
    /// of an encoded one.
    pub open spec fn is_marked(self, i: int) -> bool {
        self.is_raw || (self.is_keyframe && i == 0)
    }

    /// Which fragments are marked as a keyframe.
    pub open spec fn marks(self) -> spec_fn(int) -> bool {
        |i: int| self.is_marked(i)
    }

    /// The frame header of fragment `i` of a frame of `len` bytes.
    pub open spec fn header(self, len: nat, size: nat, i: int) -> VideoFrameHeader {
        VideoFrameHeader {
            frame_number: self.frame_number,
            pts_us: self.pts_us,
            is_keyframe: self.is_marked(i),
            frame_size: len as u32,
            fragment_index: i as u16,
            fragment_count: chunk_count(len, size) as u16,
            width: self.width,
            height: self.height,
        }
    }

    /// The contents of the packet that carries fragment `i`: frame header and
    /// chunk.
    pub open spec fn payload(self, data: Seq<u8>, size: nat, i: int) -> Seq<u8> {
        self.header(data.len(), size, i).encoding() + chunk(data, size, i)
    }

    /// The contents of all packets that carry a frame, in the order in which they
    /// are sent.
    pub open spec fn all_payloads(self, data: Seq<u8>, size: nat) -> Seq<Seq<u8>> {
        Seq::new(chunk_count(data.len(), size), |i: int| self.payload(data, size, i))
    }

    /// The contents of the packets that carry a frame, in the order in which they
    /// are sent.
    pub fn payloads(&self, data: &[u8], size: usize) -> (v: Vec<Vec<u8>>)
        requires
            size > 0,
        ensures
            views(v@) == self.all_payloads(data@, size as nat),
    {
        let count: usize = count_chunks(data.len(), size);
        let mut v: Vec<Vec<u8>> = Vec::new();
        let mut i: usize = 0;
        while i < count
            invariant
                i <= count,
                size > 0,
                count == chunk_count(data@.len(), size as nat),
                v@.len() == i,
                forall|k: int|
                    0 <= k < i ==> (#[trigger] v@[k])@ == self.payload(data@, size as nat, k),
            decreases count - i,
        {
            let header = VideoFrameHeader {
                frame_number: self.frame_number,
                pts_us: self.pts_us,
                is_keyframe: self.is_raw || (self.is_keyframe && i == 0),
                frame_size: data.len() as u32,
                fragment_index: i as u16,
                fragment_count: count as u16,
                width: self.width,
                height: self.height,
            };
            let mut payload = header.to_bytes();
            payload.extend_from_slice(nth_chunk(data, size, i));
            assert(payload@ =~= self.payload(data@, size as nat, i as int));
            v.push(payload);
            i += 1;
        }
        assert(views(v@) =~= self.all_payloads(data@, size as nat));
        v
    }
}

/// How the bitrate is to change after a report.
#[derive(Debug, Clone, Copy, PartialEq, Eq, Structural)]
pub enum RateChange {
    /// To four fifths.
    LowerByFifth,
    /// To nine tenths.
    LowerByTenth,
    /// Up by fifteen hundredths.
    Raise,
    /// Not at all.
    Keep,
}

/// Bits of the single-precision numbers 0.10, 0.03 and 0.01.
pub const LOSS_HIGH_BITS: u32 = 0x3DCC_CCCD;

pub const LOSS_MODERATE_BITS: u32 = 0x3CF5_C28F;

pub const LOSS_LOW_BITS: u32 = 0x3C23_D70A;

/// Bits of infinity: the greatest bits of a number that is not negative.
pub const INFINITY_BITS: u32 = 0x7F80_0000;

/// Bits of minus infinity.
pub const MINUS_INFINITY_BITS: u32 = 0xFF80_0000;

/// Bits of minus zero: the least bits of a number with the sign set.
pub const MINUS_ZERO_BITS: u32 = 0x8000_0000;

/// Whether a single-precision number is greater than a positive one, by their
/// bits. No comparison with something that is no number holds.
pub open spec fn is_above(bits: u32, positive: u32) -> bool {
    positive < bits <= INFINITY_BITS
}

/// Whether a single-precision number is less than a positive one, by their bits.
pub open spec fn is_below(bits: u32, positive: u32) -> bool {
    bits < positive || MINUS_ZERO_BITS <= bits <= MINUS_INFINITY_BITS
}

/// How the bitrate changes with the share of packets that are lost.
pub open spec fn change_for(loss_bits: u32) -> RateChange {
    if is_above(loss_bits, LOSS_HIGH_BITS) {
        RateChange::LowerByFifth
    } else if is_above(loss_bits, LOSS_MODERATE_BITS) {
        RateChange::LowerByTenth
    } else if is_below(loss_bits, LOSS_LOW_BITS) {
        RateChange::Raise
    } else {
        RateChange::Keep
    }
}

/// Lowest bitrate: below it 4K is unwatchable.
pub const MIN_BITRATE: u32 = 15_000_000;

/// Highest bitrate over a network.
pub const MAX_BITRATE: u32 = 80_000_000;

/// Highest bitrate over Thunderbolt.
pub const MAX_BITRATE_THUNDERBOLT: u32 = 4_000_000_000;

/// Lowest bitrate to start with over Thunderbolt.
pub const START_BITRATE_THUNDERBOLT: u32 = 200_000_000;

/// Nanoseconds that pass at least between two changes: two seconds.
pub const ADJUSTMENT_INTERVAL_NS: u64 = 2_000_000_000;

/// Control of the bitrate by the loss of packets.
#[derive(Debug, Clone, Copy, PartialEq, Eq, Structural)]
pub struct RateControl {
    pub current: u32,
    pub max: u32,
}

/// A bitrate within bounds.
pub open spec fn bounded_rate(rate: u32, max: u32) -> u32 {
    if rate < MIN_BITRATE {
        MIN_BITRATE
    } else if rate > max {
        max
    } else {
        rate
    }
}

impl RateControl {
    /// The bitrate at the start: what was agreed on, and no little over
    /// Thunderbolt.
    pub fn new(initial: u32, is_thunderbolt: bool) -> (c: Self)
        ensures
            c.max == (if is_thunderbolt {
                MAX_BITRATE_THUNDERBOLT
            } else {
                MAX_BITRATE
            }),
            c.current == (if is_thunderbolt && initial < START_BITRATE_THUNDERBOLT {
                START_BITRATE_THUNDERBOLT
            } else {
                initial
            }),
    {
        if is_thunderbolt {
            let current: u32 = if initial < START_BITRATE_THUNDERBOLT {
                START_BITRATE_THUNDERBOLT
            } else {
                initial
            };
            RateControl { current, max: MAX_BITRATE_THUNDERBOLT }
        } else {
            RateControl { current: initial, max: MAX_BITRATE }
        }
    }

    /// Whether the bitrate may change again.
    pub fn is_due(elapsed_ns: u64) -> (b: bool)
        ensures
            b == (elapsed_ns > ADJUSTMENT_INTERVAL_NS),
    {
        elapsed_ns > ADJUSTMENT_INTERVAL_NS
    }

    /// How the bitrate is to change after a report.
    pub fn change(report: &LatencyReport) -> (c: RateChange)
        ensures
            c == change_for(report.packet_loss_bits),
    {
        let loss: u32 = report.packet_loss_bits;
        if LOSS_HIGH_BITS < loss && loss <= INFINITY_BITS {
            RateChange::LowerByFifth
        } else if LOSS_MODERATE_BITS < loss && loss <= INFINITY_BITS {
            RateChange::LowerByTenth
        } else if loss < LOSS_LOW_BITS || (MINUS_ZERO_BITS <= loss && loss
            <= MINUS_INFINITY_BITS) {
            RateChange::Raise
        } else {
            RateChange::Keep
        }
    }

    /// Moves to a changed bitrate, kept within bounds, and tells the encoder.
    pub fn adjust(&mut self, scaled: u32, encoder: &mut VideoEncoder)
        requires
            old(self).max >= MIN_BITRATE,
        ensures
            *final(self) == (RateControl {
                current: bounded_rate(scaled, old(self).max),
                ..*old(self)
            }),
            *final(encoder) == (if final(self).current != old(self).current {
                VideoEncoder {
                    config: EncoderConfig {
                        bitrate: final(self).current,
                        ..old(encoder).config
                    },
                    ..*old(encoder)
                }
            } else {
                *old(encoder)
            }),
    {
        let rate: u32 = if scaled < MIN_BITRATE {
            MIN_BITRATE
        } else if scaled > self.max {
            self.max
        } else {
            scaled
        };
        if rate != self.current {
            if encoder.set_bitrate(rate).is_ok() {
                self.current = rate;
            }
        }
    }
}

/// The bitrate stays within bounds once it was adjusted, whatever is asked for.
pub proof fn law_bitrate_stays_within_bounds(scaled: u32, is_thunderbolt: bool)
    ensures
        ({
            let max = if is_thunderbolt {
                MAX_BITRATE_THUNDERBOLT
            } else {
                MAX_BITRATE
            };
            MIN_BITRATE <= bounded_rate(scaled, max) <= max
        }),
{
}

/// The more is lost, the lower the bitrate: of two shares of lost packets, from
/// none to all, the greater one never asks for a higher bitrate.
pub proof fn law_more_loss_never_raises(a: u32, b: u32)
    requires
        a <= b <= 0x3F80_0000,
    ensures
        change_for(b) == RateChange::Raise ==> change_for(a) == RateChange::Raise,
        change_for(a) == RateChange::LowerByTenth ==> change_for(b) == RateChange::LowerByTenth
            || change_for(b) == RateChange::LowerByFifth,
        change_for(a) == RateChange::LowerByFifth ==> change_for(b) == RateChange::LowerByFifth,
{
}

/// What the server does about a control message.
#[derive(Debug, Clone, Copy, PartialEq, Eq, Structural)]
pub enum ServerReaction {
    /// Start capturing.
    StartCapture,
    /// Stop capturing.
    StopCapture,
    /// Let the report change the bitrate.
    Adapt(LatencyReport),
    /// Ask the encoder for a keyframe.
    Keyframe,
    /// End the session.
    End,
    /// Nothing.
    Nothing,
}

/// What the server does about a control message. A report matters only where
/// there is an encoder, and so does a request for a keyframe.
pub open spec fn reaction_to(msg: ControlMessage, is_raw: bool) -> ServerReaction {
    match msg {
        ControlMessage::StartStream => ServerReaction::StartCapture,
        ControlMessage::StopStream => ServerReaction::StopCapture,
        ControlMessage::LatencyReport(report) => if is_raw {
            ServerReaction::Nothing
        } else {
            ServerReaction::Adapt(report)
        },
        ControlMessage::RequestKeyframe => if is_raw {
            ServerReaction::Nothing
        } else {
            ServerReaction::Keyframe
        },
        ControlMessage::Disconnect => ServerReaction::End,
        _ => ServerReaction::Nothing,
    }
}

/// State of a session on the server.
#[derive(Debug, Clone, Copy, PartialEq, Eq, Structural)]
pub struct ServerSession {
    pub target: CaptureTarget,
    /// Whether frames are sent as they are captured.
    pub is_raw: bool,
    /// Longest chunk of a frame that goes into one packet.
    pub fragment_size: usize,
    pub is_streaming: bool,
    /// Number of the next frame.
    pub video_frame_number: u64,
    pub rate: RateControl,
}

impl ServerSession {
    /// A session that does not stream yet.
    pub fn new(
        video: &VideoConfig,
        target: CaptureTarget,
        max_packet_size: usize,
        is_thunderbolt: bool,
    ) -> (s: Self)
        requires
            max_packet_size > PacketHeader::SIZE + VideoFrameHeader::SIZE + PACKET_MARGIN,
        ensures
            s.target == target,
            s.is_raw == (video.codec == VideoCodec::Raw),
            s.fragment_size == max_packet_size - PacketHeader::SIZE - VideoFrameHeader::SIZE
                - PACKET_MARGIN,
            !s.is_streaming,
            s.video_frame_number == 0,
            s.rate.max == (if is_thunderbolt {
                MAX_BITRATE_THUNDERBOLT
            } else {
                MAX_BITRATE
            }),
            s.rate.current == (if is_thunderbolt && video.bitrate < START_BITRATE_THUNDERBOLT {
                START_BITRATE_THUNDERBOLT
            } else {
                video.bitrate
            }),
    {
        ServerSession {
            target,
            is_raw: video.codec == VideoCodec::Raw,
            fragment_size: fragment_size(max_packet_size),
            is_streaming: false,
            video_frame_number: 0,
            rate: RateControl::new(video.bitrate, is_thunderbolt),
        }
    }

    /// Takes in a control message: what to do about it.
    pub fn on_control(&mut self, msg: &ControlMessage) -> (r: ServerReaction)
        ensures
            r == reaction_to(*msg, old(self).is_raw),
            *final(self) == (ServerSession {
                is_streaming: match r {
                    ServerReaction::StartCapture => true,
                    ServerReaction::StopCapture => false,
                    _ => old(self).is_streaming,
                },
                ..*old(self)
            }),
    {
        match msg {
            ControlMessage::StartStream => {
                self.is_streaming = true;
                ServerReaction::StartCapture
            },
            ControlMessage::StopStream => {
                self.is_streaming = false;
                ServerReaction::StopCapture
            },
            ControlMessage::LatencyReport(report) => if self.is_raw {
                ServerReaction::Nothing
            } else {
                ServerReaction::Adapt(*report)
            },
            ControlMessage::RequestKeyframe => if self.is_raw {
                ServerReaction::Nothing
            } else {
                ServerReaction::Keyframe
            },
            ControlMessage::Disconnect => ServerReaction::End,
            _ => ServerReaction::Nothing,
        }
    }

    /// What is said of the next frame.
    pub open spec fn next_frame(self, pts_us: u64, is_keyframe: bool) -> StreamedFrame {
        StreamedFrame {
            frame_number: self.video_frame_number,
            pts_us,
            is_raw: self.is_raw,
            is_keyframe,
            width: self.target.width,
            height: self.target.height,
        }
    }

    /// The session when `n` more frames were sent.
    pub open spec fn after_frames(self, n: nat) -> ServerSession {
        ServerSession { video_frame_number: (self.video_frame_number + n) as u64, ..self }
    }

    /// The contents of the packets that carry the next frame.
    pub open spec fn frame_payloads(self, data: Seq<u8>, pts_us: u64, is_keyframe: bool) -> Seq<
        Seq<u8>,
    > {
        self.next_frame(pts_us, is_keyframe).all_payloads(data, self.fragment_size as nat)
    }

    /// The contents of the packets that carry the encoded frames of a queue.
    pub open spec fn queue_payloads(self, q: Seq<QueueItem>) -> Seq<Seq<u8>>
        decreases q.len(),
    {
        if q.len() == 0 {
            Seq::empty()
        } else {
            let e = q.last()->Encoded_0;
            self.queue_payloads(q.drop_last()) + self.after_frames(
                (q.len() - 1) as nat,
            ).frame_payloads(e.data@, e.pts_us, e.is_keyframe)
        }
    }

    /// The contents of the packets that carry the next frame.
    pub fn stream_frame(&mut self, data: &[u8], pts_us: u64, is_keyframe: bool) -> (v: Vec<Vec<u8>>)
        requires
            old(self).fragment_size > 0,
            old(self).video_frame_number < u64::MAX,
        ensures
            *final(self) == old(self).after_frames(1),
            views(v@) == old(self).frame_payloads(data@, pts_us, is_keyframe),
    {
        let frame = StreamedFrame {
            frame_number: self.video_frame_number,
            pts_us,
            is_raw: self.is_raw,
            is_keyframe,
            width: self.target.width,
            height: self.target.height,
        };
        self.video_frame_number += 1;
        frame.payloads(data, self.fragment_size)
    }

    /// The contents of the packets that carry what the encoder has ready.
    pub fn stream_encoded(&mut self, encoder: &mut VideoEncoder) -> (v: Vec<Vec<u8>>)
        requires
            old(encoder).wf(),
            old(self).fragment_size > 0,
            old(self).video_frame_number + old(encoder).queue@.len() <= u64::MAX,
        ensures
            final(encoder).wf(),
            final(encoder).queue@.len() == 0,
            final(encoder).queue.capacity() == old(encoder).queue.capacity(),
            final(encoder).config == old(encoder).config,
            final(encoder).device_fd == old(encoder).device_fd,
            final(encoder).nv12_buf@ == old(encoder).nv12_buf@,
            final(encoder).frame_count == old(encoder).frame_count,
            final(encoder).keyframe_requested == old(encoder).keyframe_requested,
            *final(self) == old(self).after_frames(old(encoder).queue@.len()),
            views(v@) == old(self).queue_payloads(old(encoder).queue@),
    {
        let ghost q = encoder.queue@;
        let ghost mut sent: int = 0;
        let mut v: Vec<Vec<u8>> = Vec::new();
        let mut drained = false;
        assert(q.skip(0) =~= q);
        assert(views(v@) =~= Seq::empty());
        while !drained
            invariant
                encoder.wf(),
                q == old(encoder).queue@,
                0 <= sent <= q.len(),
                encoder.queue@ == q.skip(sent),
                encoder.queue.capacity() == old(encoder).queue.capacity(),
                encoder.config == old(encoder).config,
                encoder.device_fd == old(encoder).device_fd,
                encoder.nv12_buf@ == old(encoder).nv12_buf@,
                encoder.frame_count == old(encoder).frame_count,
                encoder.keyframe_requested == old(encoder).keyframe_requested,
                self.fragment_size > 0,
                old(self).video_frame_number + q.len() <= u64::MAX,
                *self == old(self).after_frames(sent as nat),
                views(v@) == old(self).queue_payloads(q.take(sent)),
                drained ==> sent == q.len(),
            decreases
                    q.len() - sent + if drained {
                        0int
                    } else {
                        1
                    },
        {
            match encoder.recv_frame() {
                Some(e) => {
                    let ghost before = v@;
                    let mut p = self.stream_frame(e.data.as_slice(), e.pts_us, e.is_keyframe);
                    let ghost added = p@;
                    v.append(&mut p);
                    proof {
                        let t = q.take(sent + 1);
                        assert(t.drop_last() =~= q.take(sent));
                        assert(t.last() == QueueItem::Encoded(e));
                        assert(views(v@) =~= views(before) + views(added));
                        assert(q.skip(sent).skip(1) =~= q.skip(sent + 1));
                        sent = sent + 1;
                    }
                },
                None => {
                    drained = true;
                },
            }
        }
        assert(q.take(sent) =~= q);
        v
    }

    /// The contents of the packets to send for a captured frame. A raw one is sent
    /// as it is; any other goes through the encoder, and what that has ready is
    /// sent.
    pub fn process_frame(&mut self, frame: &CapturedFrame, encoder: &mut Option<VideoEncoder>) -> (v:
        Vec<Vec<u8>>)
        requires
            old(self).fragment_size > 0,
            old(self).video_frame_number < u64::MAX,
            match *old(encoder) {
                Some(e) => {
                    &&& e.wf()
                    &&& e.frame_count < u64::MAX
                    &&& old(self).video_frame_number + e.queue@.len() < u64::MAX
                    &&& can_convert(frame.data@, frame.width, frame.height)
                },
                None => true,
            },
        ensures
            if old(self).is_raw {
                &&& *final(encoder) == *old(encoder)
                &&& *final(self) == old(self).after_frames(1)
                &&& views(v@) == old(self).frame_payloads(frame.data@, frame.pts_us, true)
            } else {
                match (*old(encoder), *final(encoder)) {
                    (Some(e), Some(f)) => {
                        &&& f.wf()
                        &&& f.queue@.len() == 0
                        &&& f.queue.capacity() == e.queue.capacity()
                        &&& f.config == e.config
                        &&& f.device_fd == e.device_fd
                        &&& f.nv12_buf@ == nv12_of(
                            frame.data@,
                            frame.width as int,
                            frame.height as int,
                        )
                        &&& f.frame_count == e.frame_count + 1
                        &&& !f.keyframe_requested
                        &&& exists|q: Seq<QueueItem>|
                            #[trigger] e.queues_for(frame.pts_us, q) && *final(self) == old(
                                self,
                            ).after_frames(q.len()) && views(v@) == old(self).queue_payloads(q)
                    },
                    (None, None) => v@.len() == 0 && *final(self) == *old(self),
                    _ => false,
                }
            },
    {
        if self.is_raw {
            return self.stream_frame(frame.data.as_slice(), frame.pts_us, true);
        }
        match encoder {
            Some(e) => {
                let _ = e.encode(frame);
                self.stream_encoded(e)
            },
            None => Vec::new(),
        }
    }
}

/// The event that a packet on the input channel carries: it has to be marked as
/// input, and to be readable.
pub fn input_event(header: &PacketHeader, data: &[u8]) -> (r: Option<InputEvent>)
    ensures
        match r {
            Some(e) => {
                &&& header.packet_type == PacketType::Input
                &&& InputView::read_error(data@) is None
                &&& e@.encoding().is_prefix_of(data@)
            },
            None => header.packet_type != PacketType::Input || InputView::read_error(
                data@,
            ) is Some,
        },
{
    if header.packet_type != PacketType::Input {
        return None;
    }
    match InputEvent::from_bytes(data) {
        Ok(e) => Some(e),
        Err(_) => None,
    }
}

/// What came of waiting a moment for the client's first packet on a channel.
#[derive(Debug, Clone, Copy, PartialEq, Eq, Structural)]
pub enum PingWait {
    /// A packet came.
    Received,
    /// The channel failed.
    Failed,
    /// Nothing came.
    Nothing,
}

/// Whether to wait on for the client's first packet: only while nothing came, and
/// not past the deadline.
pub fn keep_waiting_for_ping(event: PingWait, past_deadline: bool) -> (b: bool)
    ensures
        b == (event == PingWait::Nothing && !past_deadline),
{
    match event {
        PingWait::Received => false,
        PingWait::Failed => false,
        PingWait::Nothing => !past_deadline,
    }
}

/// A bitrate within the bounds of its session is taken as it is; above the upper
/// bound the upper bound is taken, and below the lower one the lower bound.
pub proof fn law_bitrate_within_bounds_is_taken(scaled: u32, max: u32)
    requires
        max >= 15_000_000,
    ensures
        15_000_000 <= scaled <= max ==> bounded_rate(scaled, max) == scaled,
        scaled > max ==> bounded_rate(scaled, max) == max,
        scaled < 15_000_000 ==> bounded_rate(scaled, max) == 15_000_000,
{
}

/// Asking for more never gives less.
pub proof fn law_bitrate_grows_with_what_is_asked(a: u32, b: u32, max: u32)
    requires
        a <= b,
        max >= 15_000_000,
    ensures
        bounded_rate(a, max) <= bounded_rate(b, max),
        bounded_rate(bounded_rate(a, max), max) == bounded_rate(a, max),
{
}

/// The share of lost packets decides on the change: above a tenth the bitrate goes
/// down by a fifth, above three hundredths by a tenth, below a hundredth it goes up,
/// and otherwise it stays. A share is given by the bits of a single-precision
/// number; one that is no number changes nothing, and a negative one counts as
/// nothing lost.
pub proof fn law_loss_decides_on_the_change(bits: u32)
    ensures
        change_for(bits) == RateChange::LowerByFifth <==> 0x3DCC_CCCD < bits <= 0x7F80_0000,
        change_for(bits) == RateChange::LowerByTenth <==> 0x3CF5_C28F < bits <= 0x3DCC_CCCD,
        change_for(bits) == RateChange::Raise <==> bits < 0x3C23_D70A || 0x8000_0000 <= bits
            <= 0xFF80_0000,
        change_for(bits) == RateChange::Keep <==> 0x3C23_D70A <= bits <= 0x3CF5_C28F || 0x7F80_0000
            < bits < 0x8000_0000 || bits > 0xFF80_0000,
{
}

/// A display that has the pixels that the client asks for is captured as it is, and
/// so is any display where no virtual one can be made.
pub proof fn law_large_displays_are_captured_as_they_are(
    d: DisplayInfo,
    video: VideoConfig,
    virtual_supported: bool,
    created: Option<VirtualDisplay>,
)
    requires
        (video.width <= d.width && video.height <= d.height) || !virtual_supported,
    ensures
        planned(Some(d), video, virtual_supported) is Some,
        captured(planned(Some(d), video, virtual_supported)->0, created) == Some(
            CaptureTarget { width: d.width, height: d.height, display_id: None },
        ),
{
}

/// A client that asks for more pixels than the display has gets a virtual display
/// of exactly its size, at its frame rate; where that cannot be made, the display is
/// captured as it is.
pub proof fn law_small_displays_are_replaced(
    d: DisplayInfo,
    video: VideoConfig,
    created: Option<VirtualDisplay>,
)
    requires
        video.width > d.width || video.height > d.height,
    ensures
        planned(Some(d), video, true) matches Some(DisplayPlan::Virtual { width, height, fps, .. })
            && width == video.width && height == video.height && fps == video.fps,
        captured(planned(Some(d), video, true)->0, created) == Some(
            match created {
                Some(v) => CaptureTarget {
                    width: v.width,
                    height: v.height,
                    display_id: Some(v.display_num),
                },
                None => CaptureTarget { width: d.width, height: d.height, display_id: None },
            },
        ),
{
}

/// Without a display only a virtual one can be captured: of the size that the
/// client asks for, and 4K where it asks for none.
pub proof fn law_headless_machines_need_a_virtual_display(
    video: VideoConfig,
    virtual_supported: bool,
    created: Option<VirtualDisplay>,
)
    ensures
        planned(None, video, virtual_supported) is Some <==> virtual_supported,
        virtual_supported ==> {
            let plan = planned(None, video, true)->0;
            &&& plan matches DisplayPlan::Virtual { width, height, fps, .. } && (video.width > 0
                ==> width == video.width) && (video.width == 0 ==> width == 3840) && (video.height > 0
                ==> height == video.height) && (video.height == 0 ==> height == 2160) && fps
                == video.fps
            &&& captured(plan, created) is Some <==> created is Some
            &&& created is Some ==> captured(plan, created) == Some(
                CaptureTarget {
                    width: created->0.width,
                    height: created->0.height,
                    display_id: Some(created->0.display_num),
                },
            )
        },
{
}

/// The encoder works in the size of what is captured, with the codec, frame rate and
/// bitrate that were agreed on; only raw video has none.
pub proof fn law_encoder_fits_the_session(video: VideoConfig, target: CaptureTarget)
    ensures
        encoder_for(video, target) is None <==> video.codec == VideoCodec::Raw,
        encoder_for(video, target) matches Some(c) ==> c.width == target.width && c.height
            == target.height && c.fps == video.fps && c.bitrate == video.bitrate && c.codec
            == video.codec && c.low_latency && c.realtime && !c.max_quality && c.keyframe_interval
            == 60,
{
}

/// Each word of the client is answered by what it asks for, and by nothing else: it
/// starts and stops the capture, ends the session, and, where there is an encoder,
/// changes its bitrate by the report or makes it give a keyframe.
pub proof fn law_server_does_what_is_asked(msg: ControlMessage, is_raw: bool)
    ensures
        reaction_to(msg, is_raw) == ServerReaction::StartCapture <==> msg is StartStream,
        reaction_to(msg, is_raw) == ServerReaction::StopCapture <==> msg is StopStream,
        reaction_to(msg, is_raw) == ServerReaction::End <==> msg is Disconnect,
        reaction_to(msg, is_raw) == ServerReaction::Keyframe <==> msg is RequestKeyframe && !is_raw,
        reaction_to(msg, is_raw) matches ServerReaction::Adapt(report) ==> !is_raw && msg
            == ControlMessage::LatencyReport(report),
        msg matches ControlMessage::LatencyReport(report) ==> !is_raw ==> reaction_to(msg, is_raw)
            == ServerReaction::Adapt(report),
{
}

/// Fragments of a raw frame are all marked as a keyframe; of an encoded one only the
/// first is, if the frame is a keyframe.
pub proof fn law_marks_follow_the_frame(frame: StreamedFrame, i: int)
    ensures
        frame.is_raw ==> frame.is_marked(i),
        !frame.is_raw && !frame.is_keyframe ==> !frame.is_marked(i),
        !frame.is_raw && frame.is_keyframe ==> (frame.is_marked(i) <==> i == 0),
        frame.marks()(i) == frame.is_marked(i),
{
}

/// Frames are numbered one after the other, and a frame says of itself what the
/// session knows: its number, its time, its size, and whether it is raw.
pub proof fn law_streamed_frames_are_numbered(
    s: ServerSession,
    n: nat,
    pts_us: u64,
    is_keyframe: bool,
)
    requires
        s.video_frame_number + n <= u64::MAX,
    ensures
        ({
            let f = s.after_frames(n).next_frame(pts_us, is_keyframe);
            &&& f.frame_number == s.video_frame_number + n
            &&& f.pts_us == pts_us
            &&& f.is_keyframe == is_keyframe
            &&& f.is_raw == s.is_raw
            &&& f.width == s.target.width
            &&& f.height == s.target.height
        }),
        s.after_frames(n).target == s.target,
        s.after_frames(n).is_raw == s.is_raw,
        s.after_frames(n).fragment_size == s.fragment_size,
        s.after_frames(n).is_streaming == s.is_streaming,
        s.after_frames(n).rate == s.rate,
{
}

/// The header of a fragment describes its frame: its number, time, size in bytes and
/// in pixels, and the number and place of its fragments.
pub proof fn law_fragment_headers_describe_the_frame(
    frame: StreamedFrame,
    len: nat,
    size: nat,
    i: int,
)
    requires
        size > 0,
        len <= u32::MAX,
        chunk_count(len, size) <= u16::MAX,
        0 <= i < chunk_count(len, size),
    ensures
        ({
            let h = frame.header(len, size, i);
            &&& h.frame_number == frame.frame_number
            &&& h.pts_us == frame.pts_us
            &&& h.frame_size == len
            &&& h.fragment_index == i
            &&& h.fragment_count == chunk_count(len, size)
            &&& h.width == frame.width
            &&& h.height == frame.height
        }),
{
}

/// What an encoder has ready is streamed in its order, none of it twice and none
/// left out: the packets of two parts of a queue follow each other, numbered on.
pub proof fn law_queue_is_streamed_in_order(
    s: ServerSession,
    a: Seq<QueueItem>,
    b: Seq<QueueItem>,
)
    requires
        s.video_frame_number + a.len() + b.len() <= u64::MAX,
    ensures
        s.queue_payloads(a + b) == s.queue_payloads(a) + s.after_frames(a.len()).queue_payloads(b),
    decreases b.len(),
{
    if b.len() == 0 {
        assert(a + b =~= a);
        assert(s.queue_payloads(a) + Seq::<Seq<u8>>::empty() =~= s.queue_payloads(a));
    } else {
        let t = b.drop_last();
        law_queue_is_streamed_in_order(s, a, t);
        assert((a + b).drop_last() =~= a + t);
        assert((a + b).last() == b.last());
        let n = (b.len() - 1) as nat;
        assert(s.after_frames(a.len()).after_frames(n) == s.after_frames(a.len() + n));
        assert(s.queue_payloads(a + b) =~= s.queue_payloads(a) + s.after_frames(
            a.len(),
        ).queue_payloads(b));
    }
}

/// One encoded frame is streamed with its own bytes, time and keyframe mark, in as
/// many packets as it has chunks, each behind its header.
pub proof fn law_encoded_frame_is_streamed_whole(s: ServerSession, q: Seq<QueueItem>, i: int)
    requires
        q.len() == 1,
        q[0] is Encoded,
        s.fragment_size > 0,
        0 <= i < chunk_count(q[0]->Encoded_0.data@.len(), s.fragment_size as nat),
    ensures
        ({
            let e = q[0]->Encoded_0;
            let size = s.fragment_size as nat;
            let frame = StreamedFrame {
                frame_number: s.video_frame_number,
                pts_us: e.pts_us,
                is_raw: s.is_raw,
                is_keyframe: e.is_keyframe,
                width: s.target.width,
                height: s.target.height,
            };
            &&& s.queue_payloads(q).len() == chunk_count(e.data@.len(), size)
            &&& s.queue_payloads(q)[i] == frame.header(e.data@.len(), size, i).encoding() + chunk(
                e.data@,
                size,
                i,
            )
        }),
{
    assert(q.drop_last() =~= Seq::empty());
    assert(s.queue_payloads(q.drop_last()) =~= Seq::empty());
    assert(s.after_frames(0) == s);
}

/// The limits of a session: bitrates in bits a second, buffers and times.
pub proof fn law_session_limits()
    ensures
        MIN_BITRATE == 15_000_000,
        MAX_BITRATE == 80_000_000,
        MAX_BITRATE_THUNDERBOLT == 50 * MAX_BITRATE,
        START_BITRATE_THUNDERBOLT == 200_000_000,
        ADJUSTMENT_INTERVAL_NS == 2 * 1_000_000_000,
        THUNDERBOLT_BUFFER == 32 * 1024 * 1024,
        PACKET_MARGIN == 64,
{
}

/// Packets are listed in the order in which they are sent, and all of them are.
pub proof fn law_packets_are_listed_in_order(v: Seq<Vec<u8>>, i: int)
    requires
        0 <= i < v.len(),
    ensures
        views(v).len() == v.len(),
        views(v)[i] == v[i]@,
{
}

} // verus!
