//! Audio capture: the packets that are made of captured samples.
use crate::audio::stream::StreamOpening;
use crate::bytes::{le_bytes, lemma_le_bytes_len, u32_le};
use crate::error::{BridgeError, BridgeResult};
use crate::protocol::AudioConfig;
use crate::queue::{BoundedQueue, Offer, QueueItem};
use vstd::prelude::*;
use vstd::string::StringExecFns;

verus! {

broadcast use lemma_le_bytes_len;

/// Captured audio packet.
#[derive(Debug, Clone)]
pub struct AudioPacket {
    /// Audio sample data (PCM).
    pub data: Vec<u8>,
    /// Presentation timestamp in microseconds.
    pub pts_us: u64,
    /// Number of samples.
    pub sample_count: u32,
    /// Sequence number.
    pub sequence: u64,
}

/// Audio capturer configuration.
#[derive(Debug, Clone, Copy, PartialEq, Eq, Structural)]
pub struct AudioCaptureConfig {
    /// Sample rate in Hz.
    pub sample_rate: u32,
    /// Number of channels.
    pub channels: u16,
    /// Buffer size in samples.
    pub buffer_size: u32,
    /// Capture from input device (microphone) instead of output loopback.
    pub capture_input: bool,
}

impl Default for AudioCaptureConfig {
    fn default() -> (c: Self)
        ensures
            c == (AudioCaptureConfig {
                sample_rate: 48000,
                channels: 2,
                buffer_size: 480,
                capture_input: false,
            }),
    {
        AudioCaptureConfig {
            sample_rate: 48000,
            channels: 2,
            buffer_size: 480,
            capture_input: false,
        }
    }
}

impl From<&AudioConfig> for AudioCaptureConfig {
    fn from(config: &AudioConfig) -> (c: Self) {
        AudioCaptureConfig {
            sample_rate: config.sample_rate,
            channels: config.channels,
            buffer_size: config.buffer_size,
            capture_input: false,
        }
    }
}

impl vstd::std_specs::convert::FromSpecImpl<&AudioConfig> for AudioCaptureConfig {
    open spec fn obeys_from_spec() -> bool {
        true
    }

    open spec fn from_spec(config: &AudioConfig) -> AudioCaptureConfig {
        AudioCaptureConfig {
            sample_rate: config.sample_rate,
            channels: config.channels,
            buffer_size: config.buffer_size,
            capture_input: false,
        }
    }
}

/// Samples in bytes: four for each, least significant first.
pub open spec fn sample_data(s: Seq<u32>) -> Seq<u8> {
    Seq::new(4 * s.len(), |i: int| le_bytes(s[i / 4] as nat, 4)[i % 4])
}

/// Writes samples in bytes.
pub fn encode_samples(samples: &[u32]) -> (v: Vec<u8>)
    ensures
        v@ == sample_data(samples@),
{
    let mut v: Vec<u8> = Vec::new();
    let mut i: usize = 0;
    while i < samples.len()
        invariant
            i <= samples@.len(),
            v@ == sample_data(samples@.take(i as int)),
        decreases samples@.len() - i,
    {
        v.append(&mut u32_le(samples[i]));
        proof {
            let before = samples@.take(i as int);
            let after = samples@.take(i + 1);
            let want = sample_data(after);
            assert(v@.len() == want.len());
            assert forall|k: int| 0 <= k < want.len() implies v@[k] == want[k] by {
                if k < 4 * i {
                    assert(before[k / 4] == after[k / 4]);
                } else {
                    assert(k / 4 == i);
                    assert(k % 4 == k - 4 * i);
                }
            }
            assert(v@ =~= want);
        }
        i += 1;
    }
    assert(samples@.take(i as int) =~= samples@);
    v
}

/// Packets that may wait to be fetched.
pub const PACKET_QUEUE: usize = 32;

/// State of an audio capturer.
pub struct AudioCapturer {
    pub config: AudioCaptureConfig,
    /// Packets that wait to be fetched.
    pub queue: BoundedQueue,
    /// Sequence number of the next packet.
    pub sequence: u64,
    pub is_running: bool,
}

impl AudioCapturer {
    /// Nothing but sound waits in the queue.
    pub open spec fn wf(self) -> bool {
        forall|i: int| 0 <= i < self.queue@.len() ==> #[trigger] self.queue@[i] is Audio
    }

    /// Create a new audio capturer.
    pub fn new(config: AudioCaptureConfig) -> (r: BridgeResult<Self>)
        ensures
            r is Ok,
            r->Ok_0.wf(),
            r->Ok_0.config == config,
            r->Ok_0.queue@.len() == 0,
            r->Ok_0.queue.capacity() == PACKET_QUEUE,
            r->Ok_0.sequence == 0,
            !r->Ok_0.is_running,
    {
        Ok(
            AudioCapturer {
                config,
                queue: BoundedQueue::new(PACKET_QUEUE),
                sequence: 0,
                is_running: false,
            },
        )
    }

    /// Start capturing audio, given how opening the input stream went. Where
    /// capturing already runs, no stream is needed.
    pub fn start(&mut self, opening: StreamOpening) -> (r: BridgeResult<()>)
        ensures
            ({
                let complaint = if old(self).is_running {
                    None
                } else {
                    opening.complaint("No input device available"@)
                };
                &&& *final(self) == (AudioCapturer {
                    is_running: complaint is None,
                    ..*old(self)
                })
                &&& match r {
                    Ok(_) => complaint is None,
                    Err(BridgeError::Audio(m)) => complaint == Some(m@),
                    Err(_) => false,
                }
            }),
    {
        if self.is_running {
            return Ok(());
        }
        match opening.into_result("No input device available") {
            Ok(_) => {
                self.is_running = true;
                Ok(())
            },
            Err(e) => Err(e),
        }
    }

    /// Stop capturing audio. Tells whether a stream has to be closed.
    pub fn stop(&mut self) -> (stops: bool)
        ensures
            *final(self) == (AudioCapturer { is_running: false, ..*old(self) }),
            stops == old(self).is_running,
    {
        let stops = self.is_running;
        self.is_running = false;
        stops
    }

    /// Makes a packet of captured samples, and queues it. Samples are counted in
    /// stereo pairs. The packet is dropped where the queue is full.
    pub fn accept_samples(&mut self, samples: &[u32], timestamp_us: u64) -> (r: Offer)
        requires
            old(self).wf(),
            old(self).sequence < u64::MAX,
        ensures
            final(self).wf(),
            final(self).config == old(self).config,
            final(self).is_running == old(self).is_running,
            final(self).sequence == old(self).sequence + 1,
            final(self).queue.capacity() == old(self).queue.capacity(),
            if old(self).queue@.len() < old(self).queue.capacity() {
                let p = final(self).queue@.last()->Audio_0;
                &&& r == Offer::Sent
                &&& final(self).queue@ == old(self).queue@.push(QueueItem::Audio(p))
                &&& p.data@ == sample_data(samples@)
                &&& p.pts_us == timestamp_us
                &&& p.sample_count == (samples@.len() as u32) / 2
                &&& p.sequence == old(self).sequence
            } else {
                r == Offer::Full && final(self).queue@ == old(self).queue@
            },
    {
        let p = AudioPacket {
            data: encode_samples(samples),
            pts_us: timestamp_us,
            sample_count: samples.len() as u32 / 2,
            sequence: self.sequence,
        };
        self.sequence += 1;
        self.queue.offer(QueueItem::Audio(p))
    }

    /// Get the next audio packet (non-blocking).
    pub fn recv_packet(&mut self) -> (r: Option<AudioPacket>)
        requires
            old(self).wf(),
        ensures
            final(self).wf(),
            final(self).config == old(self).config,
            final(self).is_running == old(self).is_running,
            final(self).sequence == old(self).sequence,
            final(self).queue.capacity() == old(self).queue.capacity(),
            match r {
                Some(p) => {
                    &&& old(self).queue@.len() > 0
                    &&& old(self).queue@[0] == QueueItem::Audio(p)
                    &&& final(self).queue@ == old(self).queue@.skip(1)
                },
                None => old(self).queue@.len() == 0 && final(self).queue@ == old(self).queue@,
            },
    {
        match self.queue.take() {
            Some(QueueItem::Audio(p)) => Some(p),
            _ => None,
        }
    }

    /// Check if capturing is active.
    pub fn is_running(&self) -> (b: bool)
        ensures
            b == self.is_running,
    {
        self.is_running
    }
}

/// Capture of the system's own sound through a virtual device.
#[derive(Debug)]
pub struct VirtualAudioCapture {}

impl VirtualAudioCapture {
    /// Connects to the driver extension. There is none, so this fails.
    pub fn new() -> (r: BridgeResult<VirtualAudioCapture>)
        ensures
            r is Err,
            r->Err_0 matches BridgeError::Audio(m) && m@
                == "DriverKit virtual audio capture not implemented. Requires AudioServerPlugin DriverKit extension."@,
    {
        Err(
            BridgeError::Audio(
                String::from_str(
                    "DriverKit virtual audio capture not implemented. Requires AudioServerPlugin DriverKit extension.",
                ),
            ),
        )
    }
}

/// Samples travel with their least significant byte first: four bytes for each, in
/// the order of the samples, make up its value.
pub proof fn law_samples_travel_in_order(s: Seq<u32>, i: int)
    requires
        0 <= i < s.len(),
    ensures
        sample_data(s).len() == 4 * s.len(),
        s[i] == sample_data(s)[4 * i] + 256 * sample_data(s)[4 * i + 1] + 65536 * sample_data(
            s,
        )[4 * i + 2] + 16777216 * sample_data(s)[4 * i + 3],
{
    let b = sample_data(s);
    let want = le_bytes(s[i] as nat, 4);
    assert forall|k: int| 0 <= k < 4 implies #[trigger] want[k] == b[4 * i + k] by {
        assert((4 * i + k) / 4 == i);
        assert((4 * i + k) % 4 == k);
    }
    crate::bytes::lemma_pow256_widths();
    crate::bytes::lemma_le_round_trip(s[i] as nat, 4);
    crate::bytes::lemma_le_value_4(want);
    assert(want[0] == b[4 * i]);
    assert(want[1] == b[4 * i + 1]);
    assert(want[2] == b[4 * i + 2]);
    assert(want[3] == b[4 * i + 3]);
}

/// A capture for a session takes the sample rate, channels and buffers that were
/// agreed on, from the output and not from a microphone.
pub proof fn law_capture_follows_the_session(c: AudioConfig)
    ensures
        ({
            let f = <AudioCaptureConfig as vstd::std_specs::convert::FromSpec<
                &AudioConfig,
            >>::from_spec(&c);
            &&& f.sample_rate == c.sample_rate
            &&& f.channels == c.channels
            &&& f.buffer_size == c.buffer_size
            &&& !f.capture_input
        }),
{
}

/// The packets that may wait behind a capture.
pub proof fn law_capture_limits()
    ensures
        PACKET_QUEUE == 32,
{
}

} // verus!
