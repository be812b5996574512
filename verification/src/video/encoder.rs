//! The video encoder around the hardware: what goes into it and what comes out.
use crate::error::{BridgeError, BridgeResult};
use crate::protocol::VideoCodec;
use crate::queue::{BoundedQueue, Offer, QueueItem};
use crate::video::capture::CapturedFrame;
use crate::video::codec::{EncodedFrame, EncoderConfig};
use crate::video::color_convert::{bgra_to_nv12, nv12_of};
use vstd::prelude::*;
use vstd::string::StringExecFns;

verus! {

/// Encoded frames that may wait to be fetched.
pub const ENCODED_QUEUE: usize = 8;

/// V4L2 M2M hardware video encoder.
///
/// Feed raw frames with `encode`; retrieve compressed NAL-unit frames with
/// `recv_frame`.
pub struct VideoEncoder {
    pub config: EncoderConfig,
    /// File descriptor of the opened device.
    pub device_fd: i32,
    /// Reusable NV12 scratch buffer.
    pub nv12_buf: Vec<u8>,
    /// Encoded frames that wait to be fetched.
    pub queue: BoundedQueue,
    pub frame_count: u64,
    pub keyframe_requested: bool,
}

/// The places where an encoder device is looked for, in order.
pub fn device_candidates() -> (v: Vec<&'static str>)
    ensures
        v@.len() == 3,
        v@[0]@ == "/dev/nvhost-msenc"@,
        v@[1]@ == "/dev/video0"@,
        v@[2]@ == "/dev/video1"@,
{
    let mut v: Vec<&'static str> = Vec::new();
    v.push("/dev/nvhost-msenc");
    v.push("/dev/video0");
    v.push("/dev/video1");
    v
}

/// Whether a frame can be converted for the encoder: it has all its pixels, and
/// an even number of them in each direction.
pub open spec fn can_convert(data: Seq<u8>, width: u32, height: u32) -> bool {
    &&& data.len() >= 4 * (width * height)
    &&& width == 0 || height == 0 || (width % 2 == 0 && height % 2 == 0)
}

impl VideoEncoder {
    /// Nothing but encoded frames wait in the queue.
    pub open spec fn wf(self) -> bool {
        forall|i: int| 0 <= i < self.queue@.len() ==> #[trigger] self.queue@[i] is Encoded
    }

    /// Whether a frame with a time leaves this queue: its encoded frame comes last,
    /// where there is room for it.
    pub open spec fn queues_for(self, pts_us: u64, after: Seq<QueueItem>) -> bool {
        if self.queue@.len() < self.queue.capacity() {
            let e = after.last()->Encoded_0;
            &&& after == self.queue@.push(QueueItem::Encoded(e))
            &&& e.data@.len() == 0
            &&& e.pts_us == pts_us
            &&& e.dts_us == pts_us
            &&& e.is_keyframe == self.keyframe_requested
            &&& e.frame_number == self.frame_count
        } else {
            after == self.queue@
        }
    }

    /// An encoder on an opened device, where one could be opened. Raw video needs
    /// no encoder.
    pub fn new(config: EncoderConfig, device: Option<i32>) -> (r: BridgeResult<Self>)
        ensures
            match r {
                Ok(e) => {
                    &&& config.codec != VideoCodec::Raw
                    &&& device == Some(e.device_fd)
                    &&& e.wf()
                    &&& e.config == config
                    &&& e.nv12_buf@.len() == 0
                    &&& e.queue@.len() == 0
                    &&& e.queue.capacity() == ENCODED_QUEUE
                    &&& e.frame_count == 0
                    &&& !e.keyframe_requested
                },
                Err(BridgeError::Video(m)) => if config.codec == VideoCodec::Raw {
                    m@ == "Raw codec doesn't need encoder"@
                } else {
                    device is None && m@
                        == "No V4L2 M2M encoder device found. Checked: /dev/nvhost-msenc, /dev/video0, /dev/video1. Ensure you are running on Jetson Nano hardware with the appropriate kernel driver loaded (nvhost-msenc or tegra-video)."@
                },
                Err(_) => false,
            },
    {
        if config.codec == VideoCodec::Raw {
            return Err(BridgeError::Video(String::from_str("Raw codec doesn't need encoder")));
        }
        match device {
            None => Err(
                BridgeError::Video(
                    String::from_str(
                        "No V4L2 M2M encoder device found. Checked: /dev/nvhost-msenc, /dev/video0, /dev/video1. Ensure you are running on Jetson Nano hardware with the appropriate kernel driver loaded (nvhost-msenc or tegra-video).",
                    ),
                ),
            ),
            Some(device_fd) => Ok(
                VideoEncoder {
                    config,
                    device_fd,
                    nv12_buf: Vec::new(),
                    queue: BoundedQueue::new(ENCODED_QUEUE),
                    frame_count: 0,
                    keyframe_requested: false,
                },
            ),
        }
    }

    /// Submit a raw BGRA frame for hardware encoding: it is converted, and its
    /// encoded frame joins the queue, or is dropped where the queue is full. A
    /// request for a keyframe is used up either way.
    pub fn encode(&mut self, frame: &CapturedFrame) -> (r: BridgeResult<()>)
        requires
            old(self).wf(),
            can_convert(frame.data@, frame.width, frame.height),
            old(self).frame_count < u64::MAX,
        ensures
            r is Ok,
            final(self).wf(),
            final(self).config == old(self).config,
            final(self).device_fd == old(self).device_fd,
            final(self).nv12_buf@ == nv12_of(frame.data@, frame.width as int, frame.height as int),
            final(self).frame_count == old(self).frame_count + 1,
            !final(self).keyframe_requested,
            final(self).queue.capacity() == old(self).queue.capacity(),
            old(self).queues_for(frame.pts_us, final(self).queue@),
    {
        bgra_to_nv12(frame.data.as_slice(), frame.width, frame.height, &mut self.nv12_buf);
        let frame_number: u64 = self.frame_count;
        self.frame_count += 1;
        let is_keyframe = self.keyframe_requested;
        self.keyframe_requested = false;
        let encoded = EncodedFrame {
            data: Vec::new(),
            pts_us: frame.pts_us,
            dts_us: frame.pts_us,
            is_keyframe,
            frame_number,
        };
        match self.queue.offer(QueueItem::Encoded(encoded)) {
            Offer::Sent => Ok(()),
            Offer::Full => Ok(()),
            Offer::Disconnected => Err(
                BridgeError::Video(String::from_str("Encoder output channel closed")),
            ),
        }
    }

    /// Try to receive the next encoded frame without blocking.
    pub fn recv_frame(&mut self) -> (r: Option<EncodedFrame>)
        requires
            old(self).wf(),
        ensures
            final(self).wf(),
            final(self).config == old(self).config,
            final(self).device_fd == old(self).device_fd,
            final(self).nv12_buf@ == old(self).nv12_buf@,
            final(self).frame_count == old(self).frame_count,
            final(self).keyframe_requested == old(self).keyframe_requested,
            final(self).queue.capacity() == old(self).queue.capacity(),
            match r {
                Some(f) => {
                    &&& old(self).queue@.len() > 0
                    &&& old(self).queue@[0] == QueueItem::Encoded(f)
                    &&& final(self).queue@ == old(self).queue@.skip(1)
                },
                None => old(self).queue@.len() == 0 && final(self).queue@ == old(self).queue@,
            },
    {
        match self.queue.take() {
            Some(QueueItem::Encoded(f)) => Some(f),
            _ => None,
        }
    }

    /// Request that the next encoded frame be a keyframe (IDR).
    pub fn request_keyframe(&mut self)
        ensures
            *final(self) == (VideoEncoder { keyframe_requested: true, ..*old(self) }),
    {
        self.keyframe_requested = true;
    }

    /// Update the target bitrate dynamically.
    pub fn set_bitrate(&mut self, bitrate: u32) -> (r: BridgeResult<()>)
        ensures
            r is Ok,
            *final(self) == (VideoEncoder {
                config: EncoderConfig { bitrate, ..old(self).config },
                ..*old(self)
            }),
    {
        self.config.bitrate = bitrate;
        Ok(())
    }

    /// Waits for frames that were submitted and are not encoded yet. There are
    /// none: what was submitted is in the queue already.
    pub fn flush(&mut self) -> (r: BridgeResult<()>)
        ensures
            r is Ok,
            *final(self) == *old(self),
    {
        Ok(())
    }

    /// Number of frames that were submitted.
    pub fn frame_count(&self) -> (n: u64)
        ensures
            n == self.frame_count,
    {
        self.frame_count
    }
}

/// A frame that is submitted while there is room waits behind all others, with its
/// own time, the next number, and marked as a keyframe exactly if one was asked for.
/// Where there is no room, nothing changes.
pub proof fn law_submitted_frames_wait_in_order(
    e: VideoEncoder,
    pts_us: u64,
    after: Seq<QueueItem>,
)
    requires
        e.queues_for(pts_us, after),
    ensures
        e.queue@.len() >= e.queue.capacity() ==> after == e.queue@,
        e.queue@.len() < e.queue.capacity() ==> {
            &&& after.len() == e.queue@.len() + 1
            &&& forall|i: int| 0 <= i < e.queue@.len() ==> #[trigger] after[i] == e.queue@[i]
            &&& after.last() matches QueueItem::Encoded(f) && f.pts_us == pts_us && f.dts_us
                == pts_us && f.is_keyframe == e.keyframe_requested && f.frame_number
                == e.frame_count
        },
{
}

/// Every frame with all its pixels and even sides can be encoded, and one without
/// pixels.
pub proof fn law_whole_frames_can_be_encoded(data: Seq<u8>, width: u32, height: u32)
    requires
        data.len() >= 4 * (width * height),
    ensures
        width % 2 == 0 && height % 2 == 0 ==> can_convert(data, width, height),
        width == 0 || height == 0 ==> can_convert(data, width, height),
{
}

/// The frames that may wait behind the encoder.
pub proof fn law_encoder_limits()
    ensures
        ENCODED_QUEUE == 8,
{
}

} // verus!
