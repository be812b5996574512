//! Audio playback: samples are queued as packets come in, and taken out as the
//! device asks for them.
use crate::audio::capture::{sample_data, AudioPacket};
use crate::audio::stream::StreamOpening;
use crate::bytes::{
    le_bytes, le_value, lemma_le_bytes_len, lemma_le_round_trip, lemma_pow256_widths, u32_from_le,
};
use crate::error::{BridgeError, BridgeResult};
use crate::protocol::AudioConfig;
use std::collections::VecDeque;
use vstd::prelude::*;
use vstd::string::StringExecFns;

verus! {

broadcast use lemma_le_bytes_len;

/// Audio playback configuration.
#[derive(Debug, Clone, Copy, PartialEq, Eq, Structural)]
pub struct PlaybackConfig {
    /// Sample rate in Hz.
    pub sample_rate: u32,
    /// Number of channels.
    pub channels: u16,
    /// Buffer size in samples (lower = less latency but more CPU).
    pub buffer_size: u32,
    /// Number of buffers to queue (jitter buffer).
    pub buffer_count: u32,
}

impl Default for PlaybackConfig {
    fn default() -> (c: Self)
        ensures
            c == (PlaybackConfig {
                sample_rate: 48000,
                channels: 2,
                buffer_size: 960,
                buffer_count: 4,
            }),
    {
        PlaybackConfig { sample_rate: 48000, channels: 2, buffer_size: 960, buffer_count: 4 }
    }
}

impl From<&AudioConfig> for PlaybackConfig {
    fn from(config: &AudioConfig) -> (c: Self) {
        PlaybackConfig {
            sample_rate: config.sample_rate,
            channels: config.channels,
            buffer_size: config.buffer_size,
            buffer_count: 4,
        }
    }
}

impl vstd::std_specs::convert::FromSpecImpl<&AudioConfig> for PlaybackConfig {
    open spec fn obeys_from_spec() -> bool {
        true
    }

    open spec fn from_spec(config: &AudioConfig) -> PlaybackConfig {
        PlaybackConfig {
            sample_rate: config.sample_rate,
            channels: config.channels,
            buffer_size: config.buffer_size,
            buffer_count: 4,
        }
    }
}

/// Playback statistics.
#[derive(Debug, Clone, Copy, PartialEq, Eq, Structural)]
pub struct PlaybackStats {
    pub packets_played: u64,
    pub underruns: u64,
    pub buffer_level: usize,
}

impl Default for PlaybackStats {
    fn default() -> (s: Self)
        ensures
            s == (PlaybackStats { packets_played: 0, underruns: 0, buffer_level: 0 }),
    {
        PlaybackStats { packets_played: 0, underruns: 0, buffer_level: 0 }
    }
}

/// The samples in bytes, four bytes for each; a rest of fewer bytes is dropped.
pub open spec fn samples_in(b: Seq<u8>) -> Seq<u32> {
    Seq::new(b.len() / 4, |i: int| le_value(b.subrange(4 * i, 4 * i + 4)) as u32)
}

/// Reads samples from bytes.
pub fn decode_samples(data: &[u8]) -> (v: Vec<u32>)
    ensures
        v@ == samples_in(data@),
{
    let len: usize = data.len();
    let n: usize = len / 4;
    let mut v: Vec<u32> = Vec::new();
    let mut i: usize = 0;
    while i < n
        invariant
            i <= n,
            len == data@.len(),
            n == len / 4,
            v@ == samples_in(data@).take(i as int),
        decreases n - i,
    {
        let k: usize = 4 * i;
        let b: [u8; 4] = [data[k], data[k + 1], data[k + 2], data[k + 3]];
        assert(b@ =~= data@.subrange(4 * i as int, 4 * i + 4));
        v.push(u32_from_le(b));
        assert(v@ =~= samples_in(data@).take(i + 1));
        i += 1;
    }
    assert(samples_in(data@).take(n as int) =~= samples_in(data@));
    v
}

/// Samples are played as they were captured: bytes give back the samples that
/// they were made of.
pub proof fn law_samples_survive_packets(s: Seq<u32>)
    ensures
        samples_in(sample_data(s)) == s,
{
    let b = sample_data(s);
    let t = samples_in(b);
    lemma_pow256_widths();
    assert(t.len() == s.len());
    assert forall|i: int| 0 <= i < s.len() implies t[i] == s[i] by {
        let want = le_bytes(s[i] as nat, 4);
        let got = b.subrange(4 * i, 4 * i + 4);
        assert forall|k: int| 0 <= k < 4 implies got[k] == want[k] by {
            assert((4 * i + k) / 4 == i);
            assert((4 * i + k) % 4 == k);
        }
        assert(got =~= want);
        lemma_le_round_trip(s[i] as nat, 4);
    }
    assert(t =~= s);
}

/// The samples that a device gets for `n` that it asks for: those queued, then
/// silence.
pub open spec fn served(queue: Seq<u32>, n: nat) -> Seq<u32> {
    Seq::new(
        n,
        |i: int|
            if i < queue.len() {
                queue[i]
            } else {
                0
            },
    )
}

/// The samples that are left after `n` were asked for.
pub open spec fn left_after(queue: Seq<u32>, n: nat) -> Seq<u32> {
    if n < queue.len() {
        queue.skip(n as int)
    } else {
        Seq::empty()
    }
}

/// Number of samples that were asked for and not there.
pub open spec fn missing(queue: Seq<u32>, n: nat) -> nat {
    if n > queue.len() {
        (n - queue.len()) as nat
    } else {
        0
    }
}

/// State of an audio player.
pub struct AudioPlayer {
    pub config: PlaybackConfig,
    pub is_running: bool,
    pub stats: PlaybackStats,
    /// Samples that wait to be played.
    pub buffer: VecDeque<u32>,
}

impl AudioPlayer {
    /// Create a new audio player.
    pub fn new(config: PlaybackConfig) -> (r: BridgeResult<Self>)
        ensures
            r is Ok,
            r->Ok_0.config == config,
            !r->Ok_0.is_running,
            r->Ok_0.stats == (PlaybackStats { packets_played: 0, underruns: 0, buffer_level: 0 }),
            r->Ok_0.buffer@ == Seq::<u32>::empty(),
    {
        Ok(
            AudioPlayer {
                config,
                is_running: false,
                stats: PlaybackStats::default(),
                buffer: VecDeque::new(),
            },
        )
    }

    /// Number of packets that may wait in front of the buffer.
    pub fn queue_capacity(&self) -> (n: usize)
        requires
            self.config.buffer_count * 2 <= usize::MAX,
        ensures
            n == self.config.buffer_count * 2,
    {
        self.config.buffer_count as usize * 2
    }

    /// Start audio playback, given how opening the output stream went. Where
    /// playback already runs, no stream is needed. A new stream starts with an
    /// empty buffer.
    pub fn start(&mut self, opening: StreamOpening) -> (r: BridgeResult<()>)
        ensures
            ({
                let complaint = if old(self).is_running {
                    None
                } else {
                    opening.complaint("No output device available"@)
                };
                &&& final(self).config == old(self).config
                &&& final(self).stats == old(self).stats
                &&& final(self).is_running == (complaint is None)
                &&& final(self).buffer@ == (if old(self).is_running || complaint is Some {
                    old(self).buffer@
                } else {
                    Seq::empty()
                })
                &&& match r {
                    Ok(_) => complaint is None,
                    Err(BridgeError::Audio(m)) => complaint == Some(m@),
                    Err(_) => false,
                }
            }),
    {
        if self.is_running {
            return Ok(());
        }
        match opening.into_result("No output device available") {
            Ok(_) => {
                self.is_running = true;
                self.buffer = VecDeque::new();
                Ok(())
            },
            Err(e) => Err(e),
        }
    }

    /// Stop audio playback. Tells whether a stream has to be closed.
    pub fn stop(&mut self) -> (stops: bool)
        ensures
            *final(self) == (AudioPlayer { is_running: false, ..*old(self) }),
            stops == old(self).is_running,
    {
        let stops = self.is_running;
        self.is_running = false;
        stops
    }

    /// Get playback statistics.
    pub fn stats(&self) -> (s: PlaybackStats)
        ensures
            s == self.stats,
    {
        self.stats
    }

    /// Check if playback is active.
    pub fn is_running(&self) -> (b: bool)
        ensures
            b == self.is_running,
    {
        self.is_running
    }

    /// Samples can be played only while playback runs.
    pub fn require_running(&self) -> (r: BridgeResult<()>)
        ensures
            match r {
                Ok(_) => self.is_running,
                Err(e) => !self.is_running && (e matches BridgeError::Audio(m) && m@
                    == "Playback not started"@),
            },
    {
        if self.is_running {
            Ok(())
        } else {
            Err(BridgeError::Audio(String::from_str("Playback not started")))
        }
    }

    /// The samples of a packet that is to be played.
    pub fn play(&self, packet: &AudioPacket) -> (r: BridgeResult<Vec<u32>>)
        ensures
            match r {
                Ok(v) => self.is_running && v@ == samples_in(packet.data@),
                Err(e) => !self.is_running && (e matches BridgeError::Audio(m) && m@
                    == "Playback not started"@),
            },
    {
        match self.require_running() {
            Ok(_) => Ok(decode_samples(packet.data.as_slice())),
            Err(e) => Err(e),
        }
    }

    /// Takes note of whether a packet could be queued.
    pub fn note_queued(&mut self, queued: bool) -> (r: BridgeResult<()>)
        requires
            old(self).stats.packets_played < u64::MAX,
        ensures
            final(self).is_running == old(self).is_running,
            final(self).config == old(self).config,
            final(self).buffer@ == old(self).buffer@,
            final(self).stats == (PlaybackStats {
                packets_played: (old(self).stats.packets_played + if queued {
                    1int
                } else {
                    0
                }) as u64,
                ..old(self).stats
            }),
            match r {
                Ok(_) => queued,
                Err(e) => !queued && (e matches BridgeError::Audio(m) && m@
                    == "Failed to queue samples"@),
            },
    {
        if queued {
            self.stats.packets_played += 1;
            Ok(())
        } else {
            Err(BridgeError::Audio(String::from_str("Failed to queue samples")))
        }
    }

    /// Appends samples to the buffer.
    pub fn enqueue(&mut self, samples: &Vec<u32>)
        ensures
            final(self).is_running == old(self).is_running,
            final(self).config == old(self).config,
            final(self).stats == old(self).stats,
            final(self).buffer@ == old(self).buffer@ + samples@,
    {
        let mut i: usize = 0;
        while i < samples.len()
            invariant
                i <= samples@.len(),
                self.is_running == old(self).is_running,
                self.config == old(self).config,
                self.stats == old(self).stats,
                self.buffer@ == old(self).buffer@ + samples@.take(i as int),
            decreases samples@.len() - i,
        {
            self.buffer.push_back(samples[i]);
            assert(self.buffer@ =~= old(self).buffer@ + samples@.take(i + 1));
            i += 1;
        }
        assert(samples@.take(i as int) =~= samples@);
    }

    /// Serves the device: as many samples as it asks for, silence where the
    /// buffer runs out. Each missing sample counts as an underrun.
    pub fn fill(&mut self, n: usize) -> (v: Vec<u32>)
        requires
            old(self).stats.underruns + missing(old(self).buffer@, n as nat) <= u64::MAX,
        ensures
            v@ == served(old(self).buffer@, n as nat),
            final(self).is_running == old(self).is_running,
            final(self).config == old(self).config,
            final(self).buffer@ == left_after(old(self).buffer@, n as nat),
            final(self).stats == (PlaybackStats {
                underruns: (old(self).stats.underruns + missing(
                    old(self).buffer@,
                    n as nat,
                )) as u64,
                buffer_level: left_after(old(self).buffer@, n as nat).len() as usize,
                ..old(self).stats
            }),
    {
        let ghost queue = self.buffer@;
        let mut v: Vec<u32> = Vec::new();
        let mut i: usize = 0;
        while i < n
            invariant
                i <= n,
                queue == old(self).buffer@,
                old(self).stats.underruns + missing(queue, n as nat) <= u64::MAX,
                self.is_running == old(self).is_running,
                self.config == old(self).config,
                v@ == served(queue, i as nat),
                self.buffer@ == left_after(queue, i as nat),
                self.stats == (PlaybackStats {
                    underruns: (old(self).stats.underruns + missing(queue, i as nat)) as u64,
                    ..old(self).stats
                }),
            decreases n - i,
        {
            match self.buffer.pop_front() {
                Some(s) => {
                    v.push(s);
                },
                None => {
                    v.push(0);
                    self.stats.underruns += 1;
                },
            }
            assert(v@ =~= served(queue, (i + 1) as nat));
            assert(self.buffer@ =~= left_after(queue, (i + 1) as nat));
            i += 1;
        }
        self.stats.buffer_level = self.buffer.len();
        v
    }
}

/// Serving a device twice gives it the same samples as serving it once for as
/// many: nothing is lost or repeated between two requests.
pub proof fn law_serving_in_parts_is_serving_at_once(queue: Seq<u32>, a: nat, b: nat)
    ensures
        served(queue, a) + served(left_after(queue, a), b) == served(queue, a + b),
        left_after(left_after(queue, a), b) == left_after(queue, a + b),
        missing(queue, a) + missing(left_after(queue, a), b) == missing(queue, a + b),
{
    assert(served(queue, a) + served(left_after(queue, a), b) =~= served(queue, a + b));
    assert(left_after(left_after(queue, a), b) =~= left_after(queue, a + b));
}

/// Four bytes make a sample, the least significant first, in the order in which they
/// come; a rest of fewer bytes makes none.
pub proof fn law_bytes_make_samples_in_order(b: Seq<u8>, i: int)
    requires
        0 <= i,
        4 * i + 4 <= b.len(),
    ensures
        4 * samples_in(b).len() <= b.len() < 4 * samples_in(b).len() + 4,
        samples_in(b)[i] == b[4 * i] + 256 * b[4 * i + 1] + 65536 * b[4 * i + 2] + 16777216 * b[4 * i
            + 3],
{
    crate::bytes::lemma_le_value_4(b.subrange(4 * i, 4 * i + 4));
}

/// A device is served what is queued, in its order, and silence behind it; what it
/// did not get stays queued, and every sample that was missing is counted.
pub proof fn law_queued_samples_are_played_first(queue: Seq<u32>, n: nat)
    ensures
        served(queue, n).len() == n,
        n <= queue.len() ==> served(queue, n) + left_after(queue, n) == queue && missing(queue, n)
            == 0,
        n > queue.len() ==> served(queue, n).take(queue.len() as int) == queue && left_after(
            queue,
            n,
        ).len() == 0 && missing(queue, n) + queue.len() == n && forall|i: int|
            queue.len() <= i < n ==> #[trigger] served(queue, n)[i] == 0,
{
    if n <= queue.len() {
        assert(served(queue, n) + left_after(queue, n) =~= queue);
    } else {
        assert(served(queue, n).take(queue.len() as int) =~= queue);
    }
}

/// Playback for a session takes the sample rate, channels and buffers that were
/// agreed on.
pub proof fn law_playback_follows_the_session(c: AudioConfig)
    ensures
        ({
            let f = <PlaybackConfig as vstd::std_specs::convert::FromSpec<
                &AudioConfig,
            >>::from_spec(&c);
            &&& f.sample_rate == c.sample_rate
            &&& f.channels == c.channels
            &&& f.buffer_size == c.buffer_size
            &&& f.buffer_count == 4
        }),
{
}

} // verus!
