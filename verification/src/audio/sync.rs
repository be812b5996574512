//! Synchronization of audio with video.
use vstd::prelude::*;

verus! {

/// Latest presentation time that the arithmetic has room for, in microseconds.
pub const MAX_PTS_US: u64 = 0x3fff_ffff_ffff_ffff;

/// The quotient without its fraction, on either side of zero.
pub open spec fn quotient(a: int, b: int) -> int
    recommends
        b > 0,
{
    if a >= 0 {
        a / b
    } else {
        -((-a) / b)
    }
}

/// Audio synchronization helper for A/V sync.
#[derive(Debug, Clone, Copy, PartialEq, Eq, Structural)]
pub struct AudioSync {
    /// Target latency in microseconds.
    pub target_latency_us: u64,
    /// Current audio PTS.
    pub audio_pts_us: u64,
    /// Current video PTS.
    pub video_pts_us: u64,
    /// Sync adjustment in microseconds (positive = audio ahead).
    pub adjustment_us: i64,
}

/// How far audio is ahead of video.
pub open spec fn drift(audio_pts_us: u64, video_pts_us: u64) -> int {
    audio_pts_us - video_pts_us
}

/// The adjustment after one step: it goes a tenth of the way to the drift.
pub open spec fn smoothed(adjustment: int, drift: int) -> int {
    adjustment + quotient(drift - adjustment, 10)
}

impl AudioSync {
    /// Whether the times leave room for the arithmetic.
    pub open spec fn wf(self) -> bool {
        &&& self.audio_pts_us <= MAX_PTS_US
        &&& self.video_pts_us <= MAX_PTS_US
        &&& -MAX_PTS_US <= self.adjustment_us <= MAX_PTS_US
    }

    /// A synchronization that has seen nothing yet.
    pub fn new(target_latency_us: u64) -> (s: Self)
        ensures
            s == (AudioSync {
                target_latency_us,
                audio_pts_us: 0,
                video_pts_us: 0,
                adjustment_us: 0,
            }),
            s.wf(),
    {
        AudioSync { target_latency_us, audio_pts_us: 0, video_pts_us: 0, adjustment_us: 0 }
    }

    /// Update with new audio timestamp.
    pub fn update_audio(&mut self, pts_us: u64)
        requires
            old(self).wf(),
            pts_us <= MAX_PTS_US,
        ensures
            final(self).wf(),
            *final(self) == (AudioSync {
                audio_pts_us: pts_us,
                adjustment_us: smoothed(
                    old(self).adjustment_us as int,
                    drift(pts_us, old(self).video_pts_us),
                ) as i64,
                ..*old(self)
            }),
    {
        self.audio_pts_us = pts_us;
        self.calculate_adjustment();
    }

    /// Update with new video timestamp.
    pub fn update_video(&mut self, pts_us: u64)
        requires
            old(self).wf(),
            pts_us <= MAX_PTS_US,
        ensures
            final(self).wf(),
            *final(self) == (AudioSync {
                video_pts_us: pts_us,
                adjustment_us: smoothed(
                    old(self).adjustment_us as int,
                    drift(old(self).audio_pts_us, pts_us),
                ) as i64,
                ..*old(self)
            }),
    {
        self.video_pts_us = pts_us;
        self.calculate_adjustment();
    }

    /// Moves the adjustment towards the drift.
    pub fn calculate_adjustment(&mut self)
        requires
            old(self).wf(),
        ensures
            final(self).wf(),
            *final(self) == (AudioSync {
                adjustment_us: smoothed(
                    old(self).adjustment_us as int,
                    drift(old(self).audio_pts_us, old(self).video_pts_us),
                ) as i64,
                ..*old(self)
            }),
    {
        let drift: i64 = self.audio_pts_us as i64 - self.video_pts_us as i64;
        let gap: i64 = drift - self.adjustment_us;
        let step: i64 = if gap >= 0 {
            gap / 10
        } else {
            -((-gap) / 10)
        };
        self.adjustment_us = self.adjustment_us + step;
    }

    /// Get the current sync adjustment.
    pub fn adjustment_us(&self) -> (a: i64)
        ensures
            a == self.adjustment_us,
    {
        self.adjustment_us
    }

    /// Check if sync is within acceptable bounds. A target beyond the range of
    /// signed numbers is never met.
    pub fn is_synced(&self) -> (b: bool)
        requires
            self.wf(),
        ensures
            b == (self.target_latency_us <= i64::MAX && -self.target_latency_us
                < self.adjustment_us < self.target_latency_us),
    {
        let magnitude: i64 = if self.adjustment_us < 0 {
            -self.adjustment_us
        } else {
            self.adjustment_us
        };
        if self.target_latency_us > 0x7fff_ffff_ffff_ffff {
            false
        } else {
            magnitude < self.target_latency_us as i64
        }
    }
}

/// The adjustment comes closer to the drift with every step and never goes past
/// it; it stays where it is within ten microseconds.
pub proof fn law_adjustment_approaches_the_drift(adjustment: int, drift: int)
    ensures
        adjustment <= drift ==> adjustment <= smoothed(adjustment, drift) <= drift,
        adjustment >= drift ==> adjustment >= smoothed(adjustment, drift) >= drift,
        -10 < drift - adjustment < 10 ==> smoothed(adjustment, drift) == adjustment,
        drift - adjustment >= 10 ==> smoothed(adjustment, drift) > adjustment,
        drift - adjustment <= -10 ==> smoothed(adjustment, drift) < adjustment,
{
}

/// The adjustment after `n` steps with the same drift.
pub open spec fn smoothed_by(adjustment: int, drift: int, n: nat) -> int
    decreases n,
{
    if n == 0 {
        adjustment
    } else {
        smoothed(smoothed_by(adjustment, drift, (n - 1) as nat), drift)
    }
}

/// A drift that does not change is made up for, up to ten microseconds, after no
/// more steps than the adjustment is away from it.
pub proof fn law_constant_drift_is_made_up_for(adjustment: int, drift: int, n: nat)
    requires
        n >= drift - adjustment,
        n >= adjustment - drift,
    ensures
        -10 < drift - smoothed_by(adjustment, drift, n) < 10,
    decreases n,
{
    lemma_gap_shrinks(adjustment, drift, n);
}

/// With each step the gap shrinks by one at least, until it is below ten.
proof fn lemma_gap_shrinks(adjustment: int, drift: int, n: nat)
    ensures
        ({
            let gap = drift - smoothed_by(adjustment, drift, n);
            let start = drift - adjustment;
            &&& start >= 0 ==> 0 <= gap && (gap < 10 || gap <= start - n)
            &&& start <= 0 ==> gap <= 0 && (gap > -10 || gap >= start + n)
        }),
    decreases n,
{
    if n > 0 {
        lemma_gap_shrinks(adjustment, drift, (n - 1) as nat);
        law_adjustment_approaches_the_drift(
            smoothed_by(adjustment, drift, (n - 1) as nat),
            drift,
        );
    }
}

/// The adjustment goes a tenth of its distance to the drift in one step, rounded
/// towards staying.
pub proof fn law_adjustment_goes_a_tenth_of_the_way(adjustment: int, drift: int)
    ensures
        ({
            let gap = drift - adjustment;
            let step = smoothed(adjustment, drift) - adjustment;
            &&& gap >= 0 ==> 10 * step <= gap < 10 * step + 10
            &&& gap <= 0 ==> 10 * step >= gap > 10 * step - 10
        }),
{
}

/// The drift is what audio is ahead of video: video that comes up to it makes up for
/// it, and it is negative where audio is behind.
pub proof fn law_drift_is_the_lead_of_audio(audio_pts_us: u64, video_pts_us: u64)
    ensures
        video_pts_us + drift(audio_pts_us, video_pts_us) == audio_pts_us,
{
}

} // verus!
