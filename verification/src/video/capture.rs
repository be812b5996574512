//! Screen capture: configuration, frames and the state of a capturer.
use crate::error::{BridgeError, BridgeResult};
use crate::protocol::VideoConfig;
use crate::queue::{BoundedQueue, Offer, QueueItem};
use vstd::prelude::*;
use vstd::string::StringExecFns;

verus! {

/// Captured frame with metadata.
#[derive(Debug)]
pub struct CapturedFrame {
    /// Pixel data (BGRA format).
    pub data: Vec<u8>,
    /// Frame width.
    pub width: u32,
    /// Frame height.
    pub height: u32,
    /// Bytes per row.
    pub bytes_per_row: u32,
    /// Presentation timestamp in microseconds.
    pub pts_us: u64,
    /// Frame number.
    pub frame_number: u64,
    /// DMA-BUF file descriptor (for zero-copy GPU access).
    pub dma_buf_fd: Option<i32>,
}

impl CapturedFrame {
    /// Read pixel data from the frame. Without data there is none to read.
    pub fn read_pixel_data(&self) -> (v: Vec<u8>)
        ensures
            v@ == self.data@,
    {
        let v = self.data.clone();
        assert(v@ =~= self.data@);
        v
    }
}

/// Screen capture configuration.
#[derive(Debug, Clone, Copy, PartialEq, Eq, Structural)]
pub struct CaptureConfig {
    /// Target width (0 = native).
    pub width: u32,
    /// Target height (0 = native).
    pub height: u32,
    /// Target frame rate.
    pub fps: u32,
    /// Capture cursor.
    pub show_cursor: bool,
    /// Capture audio (not implemented yet).
    pub capture_audio: bool,
    /// Display to capture (None = main display).
    pub display_id: Option<u32>,
}

impl Default for CaptureConfig {
    fn default() -> (c: Self)
        ensures
            c == (CaptureConfig {
                width: 0,
                height: 0,
                fps: 60,
                show_cursor: true,
                capture_audio: false,
                display_id: None,
            }),
    {
        CaptureConfig {
            width: 0,
            height: 0,
            fps: 60,
            show_cursor: true,
            capture_audio: false,
            display_id: None,
        }
    }
}

impl From<&VideoConfig> for CaptureConfig {
    fn from(config: &VideoConfig) -> (c: Self) {
        CaptureConfig {
            width: config.width,
            height: config.height,
            fps: config.fps,
            show_cursor: true,
            capture_audio: false,
            display_id: None,
        }
    }
}

impl vstd::std_specs::convert::FromSpecImpl<&VideoConfig> for CaptureConfig {
    open spec fn obeys_from_spec() -> bool {
        true
    }

    open spec fn from_spec(config: &VideoConfig) -> CaptureConfig {
        CaptureConfig {
            width: config.width,
            height: config.height,
            fps: config.fps,
            show_cursor: true,
            capture_audio: false,
            display_id: None,
        }
    }
}

/// Capture statistics.
#[derive(Debug, Clone, Copy, PartialEq, Eq, Structural)]
pub struct CaptureStats {
    pub frames_captured: u64,
    pub is_running: bool,
}

/// Information about a display.
#[derive(Debug, Clone, Copy, PartialEq, Eq, Structural)]
pub struct DisplayInfo {
    pub id: u32,
    pub width: u32,
    pub height: u32,
    pub is_main: bool,
}

/// A size that is asked for, or the native one where none is.
pub open spec fn or_native(asked: u32, native: u32) -> u32 {
    if asked > 0 {
        asked
    } else {
        native
    }
}

/// The size of the frames to capture.
pub fn capture_size(config: &CaptureConfig, native_width: u32, native_height: u32) -> (r: (u32, u32))
    ensures
        r.0 == or_native(config.width, native_width),
        r.1 == or_native(config.height, native_height),
{
    let width: u32 = if config.width > 0 {
        config.width
    } else {
        native_width
    };
    let height: u32 = if config.height > 0 {
        config.height
    } else {
        native_height
    };
    (width, height)
}

/// Pixels of four bytes with the fourth set to full opacity. A rest of fewer than
/// four bytes stays.
pub open spec fn opaque_pixels(s: Seq<u8>) -> Seq<u8> {
    Seq::new(
        s.len(),
        |i: int|
            if i % 4 == 3 {
                0xFFu8
            } else {
                s[i]
            },
    )
}

/// Sets the alpha byte of every pixel, which the X server leaves at zero.
pub fn make_opaque(data: &mut Vec<u8>)
    ensures
        final(data)@ == opaque_pixels(old(data)@),
{
    let ghost before = data@;
    let len: usize = data.len();
    let n: usize = len / 4;
    let mut i: usize = 0;
    while i < n
        invariant
            i <= n,
            n == len / 4,
            before == old(data)@,
            data@.len() == len,
            before.len() == len,
            forall|k: int|
                0 <= k < len ==> #[trigger] data@[k] == if k % 4 == 3 && k < 4 * i {
                    0xFFu8
                } else {
                    before[k]
                },
        decreases n - i,
    {
        data.set(4 * i + 3, 0xFF);
        i += 1;
    }
    assert(data@ =~= opaque_pixels(before));
}

/// Frames that may wait to be fetched: few, for low latency.
pub const CAPTURE_QUEUE: usize = 4;

/// State of a screen capturer.
pub struct ScreenCapturer {
    pub config: CaptureConfig,
    /// Frames that wait to be fetched.
    pub queue: BoundedQueue,
    pub frame_count: u64,
    pub is_running: bool,
    pub is_stopped: bool,
}

impl ScreenCapturer {
    /// Nothing but frames of the screen wait in the queue.
    pub open spec fn wf(self) -> bool {
        forall|i: int| 0 <= i < self.queue@.len() ==> #[trigger] self.queue@[i] is Captured
    }

    /// Create a new screen capturer with the given configuration.
    pub fn new(config: CaptureConfig) -> (r: BridgeResult<Self>)
        ensures
            r is Ok,
            r->Ok_0.wf(),
            r->Ok_0.config == config,
            r->Ok_0.queue@.len() == 0,
            r->Ok_0.queue.capacity() == CAPTURE_QUEUE,
            r->Ok_0.frame_count == 0,
            !r->Ok_0.is_running,
            !r->Ok_0.is_stopped,
    {
        Ok(
            ScreenCapturer {
                config,
                queue: BoundedQueue::new(CAPTURE_QUEUE),
                frame_count: 0,
                is_running: false,
                is_stopped: false,
            },
        )
    }

    /// Start capturing frames. Tells whether a capture has to be started.
    pub fn start(&mut self) -> (starts: bool)
        ensures
            *final(self) == (ScreenCapturer { is_running: true, ..*old(self) }),
            starts == !old(self).is_running,
    {
        let starts = !self.is_running;
        self.is_running = true;
        starts
    }

    /// Stop capturing frames. Tells whether a capture has to be stopped.
    pub fn stop(&mut self) -> (stops: bool)
        ensures
            *final(self) == (ScreenCapturer { is_running: false, ..*old(self) }),
            stops == old(self).is_running,
    {
        let stops = self.is_running;
        self.is_running = false;
        stops
    }

    /// Takes note that capturing ended by itself: the display is gone.
    pub fn note_lost(&mut self)
        ensures
            *final(self) == (ScreenCapturer { is_running: false, is_stopped: true, ..*old(self) }),
    {
        self.is_stopped = true;
        self.is_running = false;
    }

    /// Takes note that the stream reported its end. Capturing stays switched on until
    /// it is stopped.
    pub fn note_stopped(&mut self)
        ensures
            *final(self) == (ScreenCapturer { is_stopped: true, ..*old(self) }),
    {
        self.is_stopped = true;
    }

    /// Returns `true` if the capture stream stopped for an external reason
    /// (e.g. the X server went away).
    pub fn is_stopped(&self) -> (b: bool)
        ensures
            b == self.is_stopped,
    {
        self.is_stopped
    }

    /// Restart capture, optionally switching to a different display. Captures
    /// again whether or not it ran before; frames from before are dropped.
    pub fn restart(&mut self, new_display_id: Option<u32>)
        ensures
            final(self).wf(),
            final(self).is_running,
            !final(self).is_stopped,
            final(self).frame_count == old(self).frame_count,
            final(self).queue@.len() == 0,
            final(self).queue.capacity() == old(self).queue.capacity(),
            final(self).config == (CaptureConfig {
                display_id: match new_display_id {
                    Some(id) => Some(id),
                    None => old(self).config.display_id,
                },
                ..old(self).config
            }),
    {
        let _ = self.stop();
        self.is_stopped = false;
        if new_display_id.is_some() {
            self.config.display_id = new_display_id;
        }
        let ghost config = self.config;
        let mut drained = false;
        while !drained
            invariant
                self.config == config,
                !self.is_stopped,
                self.frame_count == old(self).frame_count,
                self.queue.capacity() == old(self).queue.capacity(),
                drained ==> self.queue@.len() == 0,
            decreases
                    self.queue@.len() + if drained {
                        0int
                    } else {
                        1
                    },
        {
            drained = self.queue.take().is_none();
        }
        let _ = self.start();
    }

    /// Makes a frame of the bytes that the X server gave for the screen, and
    /// queues it. It is dropped where the queue is full.
    pub fn accept_image(
        &mut self,
        pixels: Vec<u8>,
        native_width: u32,
        native_height: u32,
        pts_us: u64,
    ) -> (r: Offer)
        requires
            old(self).wf(),
            old(self).frame_count < u64::MAX,
            or_native(old(self).config.width, native_width) * 4 <= u32::MAX,
        ensures
            final(self).wf(),
            final(self).config == old(self).config,
            final(self).is_running == old(self).is_running,
            final(self).is_stopped == old(self).is_stopped,
            final(self).frame_count == old(self).frame_count + 1,
            final(self).queue.capacity() == old(self).queue.capacity(),
            if old(self).queue@.len() < old(self).queue.capacity() {
                let f = final(self).queue@.last()->Captured_0;
                &&& r == Offer::Sent
                &&& final(self).queue@ == old(self).queue@.push(QueueItem::Captured(f))
                &&& f.data@ == opaque_pixels(pixels@)
                &&& f.width == or_native(old(self).config.width, native_width)
                &&& f.height == or_native(old(self).config.height, native_height)
                &&& f.bytes_per_row == f.width * 4
                &&& f.pts_us == pts_us
                &&& f.frame_number == old(self).frame_count
                &&& f.dma_buf_fd is None
            } else {
                r == Offer::Full && final(self).queue@ == old(self).queue@
            },
    {
        let (width, height): (u32, u32) = capture_size(&self.config, native_width, native_height);
        let mut data = pixels;
        make_opaque(&mut data);
        let frame_number: u64 = self.frame_count;
        self.frame_count += 1;
        let frame = CapturedFrame {
            data,
            width,
            height,
            bytes_per_row: width * 4,
            pts_us,
            frame_number,
            dma_buf_fd: None,
        };
        self.queue.offer(QueueItem::Captured(frame))
    }

    /// Makes a frame of the bytes of a surface, in which a row may be longer than
    /// its pixels, and queues it. It is dropped where the queue is full.
    pub fn accept_surface(
        &mut self,
        data: Vec<u8>,
        width: u32,
        height: u32,
        bytes_per_row: u32,
        pts_us: u64,
    ) -> (r: Offer)
        requires
            old(self).wf(),
            old(self).frame_count < u64::MAX,
        ensures
            final(self).wf(),
            final(self).config == old(self).config,
            final(self).is_running == old(self).is_running,
            final(self).is_stopped == old(self).is_stopped,
            final(self).frame_count == old(self).frame_count + 1,
            final(self).queue.capacity() == old(self).queue.capacity(),
            if old(self).queue@.len() < old(self).queue.capacity() {
                let f = final(self).queue@.last()->Captured_0;
                &&& r == Offer::Sent
                &&& final(self).queue@ == old(self).queue@.push(QueueItem::Captured(f))
                &&& f.data@ == data@
                &&& f.width == width
                &&& f.height == height
                &&& f.bytes_per_row == bytes_per_row
                &&& f.pts_us == pts_us
                &&& f.frame_number == old(self).frame_count
                &&& f.dma_buf_fd is None
            } else {
                r == Offer::Full && final(self).queue@ == old(self).queue@
            },
    {
        let frame_number: u64 = self.frame_count;
        self.frame_count += 1;
        let frame = CapturedFrame {
            data,
            width,
            height,
            bytes_per_row,
            pts_us,
            frame_number,
            dma_buf_fd: None,
        };
        self.queue.offer(QueueItem::Captured(frame))
    }

    /// Try to receive the next captured frame without blocking.
    pub fn recv_frame(&mut self) -> (r: Option<CapturedFrame>)
        requires
            old(self).wf(),
        ensures
            final(self).wf(),
            final(self).config == old(self).config,
            final(self).is_running == old(self).is_running,
            final(self).is_stopped == old(self).is_stopped,
            final(self).frame_count == old(self).frame_count,
            final(self).queue.capacity() == old(self).queue.capacity(),
            match r {
                Some(f) => {
                    &&& old(self).queue@.len() > 0
                    &&& old(self).queue@[0] == QueueItem::Captured(f)
                    &&& final(self).queue@ == old(self).queue@.skip(1)
                },
                None => old(self).queue@.len() == 0 && final(self).queue@ == old(self).queue@,
            },
    {
        match self.queue.take() {
            Some(QueueItem::Captured(f)) => Some(f),
            _ => None,
        }
    }

    /// Return current capture statistics.
    pub fn stats(&self) -> (s: CaptureStats)
        ensures
            s == (CaptureStats {
                frames_captured: self.frame_count,
                is_running: self.is_running,
            }),
    {
        CaptureStats { frames_captured: self.frame_count, is_running: self.is_running }
    }

    /// Capturing an X display needs no special permission.
    pub fn has_permission() -> (b: bool)
        ensures
            b,
    {
        true
    }

    /// There is nothing to ask for.
    pub fn request_permission() -> (b: bool)
        ensures
            b,
    {
        true
    }
}

/// The displays of an X server, given the sizes of its screens; the first is the
/// main one.
pub fn get_displays(screens: &[(u16, u16)]) -> (v: Vec<DisplayInfo>)
    ensures
        v@.len() == screens@.len(),
        forall|i: int|
            0 <= i < v@.len() ==> #[trigger] v@[i] == (DisplayInfo {
                id: i as u32,
                width: screens@[i].0 as u32,
                height: screens@[i].1 as u32,
                is_main: i == 0,
            }),
{
    let mut v: Vec<DisplayInfo> = Vec::new();
    let mut i: usize = 0;
    while i < screens.len()
        invariant
            i <= screens@.len(),
            v@.len() == i,
            forall|k: int|
                0 <= k < i ==> #[trigger] v@[k] == (DisplayInfo {
                    id: k as u32,
                    width: screens@[k].0 as u32,
                    height: screens@[k].1 as u32,
                    is_main: k == 0,
                }),
        decreases screens@.len() - i,
    {
        v.push(
            DisplayInfo {
                id: i as u32,
                width: screens[i].0 as u32,
                height: screens[i].1 as u32,
                is_main: i == 0,
            },
        );
        i += 1;
    }
    v
}

/// What a capture stream says of a frame.
#[derive(Debug, Clone, Copy, PartialEq, Eq, Structural)]
pub enum FrameStatus {
    /// The frame is there.
    Complete,
    /// The stream has ended.
    Stopped,
    /// Nothing has changed on the screen.
    Idle,
    /// The display is blank.
    Blank,
    /// Any other status.
    Other,
}

/// What is done with a frame of a capture stream.
#[derive(Debug, Clone, Copy, PartialEq, Eq, Structural)]
pub enum FrameAction {
    Process,
    MarkStopped,
    Ignore,
}

/// What to do with a sample of a capture stream. Only samples of the screen
/// count; one whose status cannot be told is taken for a frame.
pub fn on_sample(is_screen: bool, status: Option<FrameStatus>) -> (a: FrameAction)
    ensures
        a == (if !is_screen {
            FrameAction::Ignore
        } else if status is None || status == Some(FrameStatus::Complete) {
            FrameAction::Process
        } else if status == Some(FrameStatus::Stopped) {
            FrameAction::MarkStopped
        } else {
            FrameAction::Ignore
        }),
{
    if !is_screen {
        return FrameAction::Ignore;
    }
    match status {
        None => FrameAction::Process,
        Some(FrameStatus::Complete) => FrameAction::Process,
        Some(FrameStatus::Stopped) => FrameAction::MarkStopped,
        Some(_) => FrameAction::Ignore,
    }
}

/// Waiting for a frame fails only where the capture has gone.
pub fn require_frame(frame: Option<CapturedFrame>) -> (r: BridgeResult<CapturedFrame>)
    ensures
        match r {
            Ok(f) => frame == Some(f),
            Err(e) => frame is None && (e matches BridgeError::Video(m) && m@
                == "Capture channel closed"@),
        },
{
    match frame {
        Some(f) => Ok(f),
        None => Err(BridgeError::Video(String::from_str("Capture channel closed"))),
    }
}

/// A size that is asked for is taken, and the native one where none is.
pub proof fn law_asked_sizes_are_taken(asked: u32, native: u32)
    ensures
        asked != 0 ==> or_native(asked, native) == asked,
        asked == 0 ==> or_native(asked, native) == native,
{
}

/// Making pixels opaque keeps their colors: of every four bytes the first three stay
/// and the fourth is full; a rest of fewer than four bytes stays.
pub proof fn law_opaque_pixels_keep_their_colors(s: Seq<u8>, i: int)
    requires
        0 <= i < s.len(),
    ensures
        opaque_pixels(s).len() == s.len(),
        i % 4 != 3 ==> opaque_pixels(s)[i] == s[i],
        i % 4 == 3 ==> opaque_pixels(s)[i] == 255,
        opaque_pixels(opaque_pixels(s)) == opaque_pixels(s),
{
    assert(opaque_pixels(opaque_pixels(s)) =~= opaque_pixels(s));
}

/// A capture for a session takes the size and the frame rate that were agreed on, of
/// the main display, with the cursor and without sound.
pub proof fn law_capture_follows_the_session(c: VideoConfig)
    ensures
        ({
            let f = <CaptureConfig as vstd::std_specs::convert::FromSpec<&VideoConfig>>::from_spec(
                &c,
            );
            &&& f.width == c.width
            &&& f.height == c.height
            &&& f.fps == c.fps
            &&& f.show_cursor
            &&& !f.capture_audio
            &&& f.display_id is None
        }),
{
}

/// The frames that may wait behind a capture.
pub proof fn law_capture_limits()
    ensures
        CAPTURE_QUEUE == 4,
{
}

} // verus!
