//! A diagnosis of whether a machine can capture its screen, make virtual displays
//! and encode video.
use crate::protocol::VideoCodec;
use crate::video::capture::{CaptureConfig, DisplayInfo};
use crate::video::codec::EncoderConfig;
use vstd::prelude::*;

verus! {

/// What the diagnosis found.
#[derive(Debug, Clone, Copy, PartialEq, Eq, Structural)]
pub struct DiagResults {
    /// Whether the screen may be captured.
    pub permission: bool,
    pub displays_found: bool,
    /// Whether a virtual display could be made, where that is supported.
    pub virtual_display: Option<bool>,
    /// Whether frames were captured, where that was tried.
    pub capture: Option<bool>,
    pub capture_frames: u64,
    /// Whether frames were encoded, where that was tried.
    pub encode: Option<bool>,
    pub encoded_frames: u64,
}

/// How one part of the diagnosis ended.
#[derive(Debug, Clone, Copy, PartialEq, Eq, Structural)]
pub enum DiagStatus {
    /// It went well.
    Passed,
    /// It failed.
    Failed,
    /// It was not tried.
    Skipped,
}

/// How a part of the diagnosis ended.
pub open spec fn status_of(result: Option<bool>) -> DiagStatus {
    match result {
        Some(true) => DiagStatus::Passed,
        Some(false) => DiagStatus::Failed,
        None => DiagStatus::Skipped,
    }
}

/// Tells how a part of the diagnosis ended.
pub fn status(result: Option<bool>) -> (s: DiagStatus)
    ensures
        s == status_of(result),
{
    match result {
        Some(true) => DiagStatus::Passed,
        Some(false) => DiagStatus::Failed,
        None => DiagStatus::Skipped,
    }
}

/// What to do about a failure.
#[derive(Debug, Clone, Copy, PartialEq, Eq, Structural)]
pub enum Tip {
    /// Grant the permission to record the screen.
    GrantPermission,
    /// Run from a terminal on the machine itself, or use a display dongle.
    RunLocally,
    /// Capturing failed with permission: there may be no display.
    ConnectDisplay,
}

impl DiagResults {
    /// Nothing was tried yet.
    pub fn new() -> (r: Self)
        ensures
            r == (DiagResults {
                permission: false,
                displays_found: false,
                virtual_display: None,
                capture: None,
                capture_frames: 0,
                encode: None,
                encoded_frames: 0,
            }),
    {
        DiagResults {
            permission: false,
            displays_found: false,
            virtual_display: None,
            capture: None,
            capture_frames: 0,
            encode: None,
            encoded_frames: 0,
        }
    }

    /// Whether the machine is ready: nothing failed. What was not tried is no
    /// failure, but for the permission and the displays.
    pub open spec fn is_ready(self) -> bool {
        &&& self.permission
        &&& self.displays_found
        &&& self.virtual_display != Some(false)
        &&& self.capture != Some(false)
        &&& self.encode != Some(false)
    }

    /// Tells whether the machine is ready.
    pub fn all_pass(&self) -> (b: bool)
        ensures
            b == self.is_ready(),
    {
        self.permission && self.displays_found && !matches!(self.virtual_display, Some(false))
            && !matches!(self.capture, Some(false)) && !matches!(self.encode, Some(false))
    }

    /// What to do about the failures, in the order in which it is said: nothing
    /// where the machine is ready.
    pub fn tips(&self) -> (v: Vec<Tip>)
        ensures
            v@ == self.tips_of(),
    {
        let mut v: Vec<Tip> = Vec::new();
        if self.all_pass() {
            return v;
        }
        if !self.permission {
            v.push(Tip::GrantPermission);
        }
        if matches!(self.virtual_display, Some(false)) {
            v.push(Tip::RunLocally);
        }
        if matches!(self.capture, Some(false)) && self.permission {
            v.push(Tip::ConnectDisplay);
        }
        assert(v@ =~= self.tips_of());
        v
    }

    /// What to do about the failures.
    pub open spec fn tips_of(self) -> Seq<Tip> {
        let grant = if !self.permission {
            seq![Tip::GrantPermission]
        } else {
            seq![]
        };
        let run = if self.virtual_display == Some(false) {
            seq![Tip::RunLocally]
        } else {
            seq![]
        };
        let connect = if self.capture == Some(false) && self.permission {
            seq![Tip::ConnectDisplay]
        } else {
            seq![]
        };
        if self.is_ready() {
            seq![]
        } else {
            grant + run + connect
        }
    }

    /// Takes note of the frames that were captured.
    pub fn note_capture(&mut self, frames: u64)
        ensures
            *final(self) == (DiagResults {
                capture: Some(frames > 0),
                capture_frames: frames,
                ..*old(self)
            }),
    {
        self.capture = Some(frames > 0);
        self.capture_frames = frames;
    }

    /// Takes note of the frames that were encoded.
    pub fn note_encode(&mut self, frames: u64)
        ensures
            *final(self) == (DiagResults {
                encode: Some(frames > 0),
                encoded_frames: frames,
                ..*old(self)
            }),
    {
        self.encode = Some(frames > 0);
        self.encoded_frames = frames;
    }

    /// Whether encoding is tried: only on what was captured.
    pub fn tries_encode(&self) -> (b: bool)
        ensures
            b == (self.capture == Some(true)),
    {
        matches!(self.capture, Some(true))
    }
}

/// The configuration of the test capture: of a virtual display in 4K, of any other
/// in its own size.
pub fn test_capture_config(display: &DisplayInfo, virtual_id: Option<u32>) -> (c: CaptureConfig)
    ensures
        c == (CaptureConfig {
            width: if virtual_id == Some(display.id) {
                3840
            } else {
                0
            },
            height: if virtual_id == Some(display.id) {
                2160
            } else {
                0
            },
            fps: 60,
            show_cursor: true,
            capture_audio: false,
            display_id: Some(display.id),
        }),
{
    let is_virtual = match virtual_id {
        Some(id) => id == display.id,
        None => false,
    };
    let (width, height): (u32, u32) = if is_virtual {
        (3840, 2160)
    } else {
        (0, 0)
    };
    CaptureConfig {
        width,
        height,
        fps: 60,
        show_cursor: true,
        capture_audio: false,
        display_id: Some(display.id),
    }
}

/// The configuration of the test encoder.
pub fn test_encoder_config(display: &DisplayInfo) -> (c: EncoderConfig)
    ensures
        c == (EncoderConfig {
            width: display.width,
            height: display.height,
            fps: 60,
            bitrate: 100_000_000,
            codec: VideoCodec::H265,
            keyframe_interval: 60,
            low_latency: true,
            realtime: true,
            max_quality: false,
        }),
{
    EncoderConfig {
        width: display.width,
        height: display.height,
        fps: 60,
        bitrate: 100_000_000,
        codec: VideoCodec::H265,
        keyframe_interval: 60,
        low_latency: true,
        realtime: true,
        max_quality: false,
    }
}

/// What became of the resolution that was asked for.
#[derive(Debug, Clone, Copy, PartialEq, Eq, Structural)]
pub enum ResolutionVerdict {
    /// There are more pixels than points, by this factor.
    Scaled(usize),
    /// It is what was asked for.
    Native,
    /// It is something else.
    Mismatch,
}

/// Judges the resolution of a virtual display by its points and its pixels.
pub fn judge_resolution(logical_width: usize, pixel_width: usize, asked_width: u32) -> (v:
    ResolutionVerdict)
    requires
        logical_width > 0 || pixel_width == 0,
    ensures
        v == (if pixel_width > logical_width {
            ResolutionVerdict::Scaled(pixel_width / logical_width)
        } else if pixel_width == logical_width && logical_width as u32 == asked_width {
            ResolutionVerdict::Native
        } else {
            ResolutionVerdict::Mismatch
        }),
{
    if pixel_width > logical_width {
        ResolutionVerdict::Scaled(pixel_width / logical_width)
    } else if pixel_width == logical_width && logical_width as u32 == asked_width {
        ResolutionVerdict::Native
    } else {
        ResolutionVerdict::Mismatch
    }
}

/// The sum of sizes.
pub open spec fn total_size(s: Seq<usize>) -> int
    decreases s.len(),
{
    if s.len() == 0 {
        0
    } else {
        total_size(s.drop_last()) + s.last()
    }
}

proof fn lemma_total_prefix(s: Seq<usize>, n: int)
    requires
        0 <= n <= s.len(),
    ensures
        0 <= total_size(s.take(n)) <= total_size(s),
    decreases s.len(),
{
    if n == s.len() {
        assert(s.take(n) =~= s);
        if n > 0 {
            lemma_total_prefix(s.drop_last(), n - 1);
            assert(s.drop_last().take(n - 1) =~= s.drop_last());
        }
    } else {
        lemma_total_prefix(s.drop_last(), n);
        assert(s.drop_last().take(n) =~= s.take(n));
    }
}

/// Mean size of the encoded frames, rounded down.
pub fn average_size(sizes: &Vec<usize>) -> (a: usize)
    requires
        sizes@.len() > 0,
        total_size(sizes@) <= usize::MAX,
    ensures
        a == total_size(sizes@) / (sizes@.len() as int),
{
    let n: usize = sizes.len();
    let mut total: usize = 0;
    let mut i: usize = 0;
    while i < n
        invariant
            i <= n,
            n == sizes@.len(),
            total_size(sizes@) <= usize::MAX,
            total == total_size(sizes@.take(i as int)),
        decreases n - i,
    {
        proof {
            lemma_total_prefix(sizes@, i + 1);
            assert(sizes@.take(i + 1).drop_last() =~= sizes@.take(i as int));
        }
        total = total + sizes[i];
        i += 1;
    }
    assert(sizes@.take(i as int) =~= sizes@);
    total / n
}

/// A machine that is not ready gets at least one tip where the permission, the
/// virtual display or the capture is what failed, and one that is ready gets none.
pub proof fn law_failures_have_tips(r: DiagResults)
    ensures
        r.is_ready() ==> r.tips_of().len() == 0,
        !r.permission || r.virtual_display == Some(false) || r.capture == Some(false)
            ==> r.tips_of().len() > 0,
{
}

/// A machine is ready exactly if it has the permission and a display, and nothing
/// that was tried has failed.
pub proof fn law_ready_machines_have_no_failure(r: DiagResults)
    ensures
        r.is_ready() <==> r.permission && r.displays_found && r.virtual_display != Some(false)
            && r.capture != Some(false) && r.encode != Some(false),
        status_of(Some(true)) == DiagStatus::Passed,
        status_of(Some(false)) == DiagStatus::Failed,
        status_of(None) == DiagStatus::Skipped,
{
}

/// A tip is given exactly for its own failure, each once and in this order: for a
/// missing permission, for a virtual display that could not be made, and for a
/// capture that failed in spite of the permission.
pub proof fn law_tips_fit_the_failures(r: DiagResults)
    ensures
        r.tips_of().contains(Tip::GrantPermission) <==> !r.permission,
        r.tips_of().contains(Tip::RunLocally) <==> r.virtual_display == Some(false),
        r.tips_of().contains(Tip::ConnectDisplay) <==> r.capture == Some(false) && r.permission,
        r.tips_of().no_duplicates(),
        !r.permission ==> r.tips_of()[0] == Tip::GrantPermission,
        r.tips_of().contains(Tip::ConnectDisplay) ==> r.tips_of().last() == Tip::ConnectDisplay,
{
    let t = r.tips_of();
    if !r.permission {
        assert(t[0] == Tip::GrantPermission);
    }
    if r.virtual_display == Some(false) {
        assert(t[if r.permission {
            0int
        } else {
            1
        }] == Tip::RunLocally);
    }
    if r.capture == Some(false) && r.permission {
        assert(t[t.len() - 1] == Tip::ConnectDisplay);
    }
}

/// Sizes add up: one size is its own sum, and two lists add up to the sum of both.
pub proof fn law_sizes_add_up(a: Seq<usize>, b: Seq<usize>)
    ensures
        total_size(a + b) == total_size(a) + total_size(b),
        a.len() == 1 ==> total_size(a) == a[0],
        a.len() == 0 ==> total_size(a) == 0,
    decreases b.len(),
{
    if a.len() == 1 {
        assert(a.drop_last() =~= Seq::empty());
        assert(total_size(a.drop_last()) == 0);
    }
    if b.len() == 0 {
        assert(a + b =~= a);
    } else {
        law_sizes_add_up(a, b.drop_last());
        assert((a + b).drop_last() =~= a + b.drop_last());
    }
}

} // verus!
