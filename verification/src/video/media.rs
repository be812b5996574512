//! Times and kinds of media samples.
use vstd::prelude::*;

verus! {

/// A time as a fraction of seconds.
#[derive(Debug, Clone, Copy, PartialEq, Eq, Structural)]
pub struct CMTimeStruct {
    pub value: i64,
    pub timescale: i32,
    pub flags: u32,
    pub epoch: i64,
}

impl CMTimeStruct {
    /// A valid time.
    pub fn new(value: i64, timescale: i32) -> (t: Self)
        ensures
            t == (CMTimeStruct { value, timescale, flags: 1, epoch: 0 }),
    {
        CMTimeStruct { value, timescale, flags: 1, epoch: 0 }
    }

    /// No time.
    pub fn invalid() -> (t: Self)
        ensures
            t == (CMTimeStruct { value: 0, timescale: 0, flags: 0, epoch: 0 }),
    {
        CMTimeStruct { value: 0, timescale: 0, flags: 0, epoch: 0 }
    }
}

/// Times of a sample.
#[derive(Debug, Clone, Copy, PartialEq, Eq, Structural)]
pub struct CMSampleTimingInfo {
    pub duration: CMTimeStruct,
    pub presentation_time_stamp: CMTimeStruct,
    pub decode_time_stamp: CMTimeStruct,
}

/// Dimensions of a video.
#[derive(Debug, Clone, Copy, PartialEq, Eq, Structural)]
pub struct CMVideoDimensions {
    pub width: i32,
    pub height: i32,
}

/// Status of a frame of a display stream.
#[derive(Debug, Clone, Copy, PartialEq, Eq, Structural)]
pub enum CGDisplayStreamFrameStatus {
    FrameComplete,
    FrameIdle,
    FrameBlank,
    Stopped,
}

/// Kinds of rectangles of an update.
#[derive(Debug, Clone, Copy, PartialEq, Eq, Structural)]
pub enum CGDisplayStreamUpdateRectType {
    MovedRects,
    DirtyRects,
    ReducedDirtyRects,
}

} // verus!
