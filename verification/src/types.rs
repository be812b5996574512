//! Common types used across the components.
use crate::net::SocketAddress;
use crate::protocol::PixelFormat;
use crate::text::{decimal, format_u64};
use vstd::prelude::*;
use vstd::string::StringExecFns;

verus! {

/// Connection state for a Bridge session.
#[derive(Debug, Clone, Copy, PartialEq, Eq, Structural)]
pub enum ConnectionState {
    /// Not connected.
    Disconnected,
    /// Attempting to connect.
    Connecting,
    /// Connected and handshaking.
    Handshaking,
    /// Fully connected and streaming.
    Connected,
    /// Reconnecting after connection loss.
    Reconnecting,
}

/// Information about a discovered Bridge server.
#[derive(Debug, Clone)]
pub struct ServerInfo {
    /// Server name.
    pub name: String,
    /// Server address.
    pub address: SocketAddress,
    /// Server hostname.
    pub hostname: String,
    /// Screen resolution.
    pub resolution: Resolution,
    /// Whether server is available.
    pub available: bool,
}

/// Screen resolution.
#[derive(Debug, Clone, Copy, PartialEq, Eq, Structural)]
pub struct Resolution {
    pub width: u32,
    pub height: u32,
}

impl Resolution {
    /// 4K UHD resolution.
    pub fn uhd_4k() -> (r: Self)
        ensures
            r == (Resolution { width: 3840, height: 2160 }),
    {
        Resolution { width: 3840, height: 2160 }
    }

    /// 1440p resolution.
    pub fn qhd() -> (r: Self)
        ensures
            r == (Resolution { width: 2560, height: 1440 }),
    {
        Resolution { width: 2560, height: 1440 }
    }

    /// 1080p resolution.
    pub fn fhd() -> (r: Self)
        ensures
            r == (Resolution { width: 1920, height: 1080 }),
    {
        Resolution { width: 1920, height: 1080 }
    }

    /// 720p resolution.
    pub fn hd() -> (r: Self)
        ensures
            r == (Resolution { width: 1280, height: 720 }),
    {
        Resolution { width: 1280, height: 720 }
    }

    /// A resolution of the given size.
    pub fn new(width: u32, height: u32) -> (r: Self)
        ensures
            r.width == width,
            r.height == height,
    {
        Resolution { width, height }
    }

    /// Number of pixels.
    pub fn pixels(&self) -> (n: u64)
        ensures
            n == self.width * self.height,
    {
        proof {
            lemma_u32_product(self.width, self.height);
        }
        self.width as u64 * self.height as u64
    }

    /// Writes the resolution as width and height around an `x`.
    pub fn label(&self) -> (s: String)
        ensures
            s@ == decimal(self.width as nat) + "x"@ + decimal(self.height as nat),
    {
        let mut s = format_u64(self.width as u64);
        s.append("x");
        let height = format_u64(self.height as u64);
        s.append(height.as_str());
        s
    }
}

/// The product of two 32-bit numbers fits 64 bits.
pub proof fn lemma_u32_product(a: u32, b: u32)
    ensures
        0 <= a * b <= 0xffff_fffe_0000_0001,
{
    assert(0 <= a * b <= 0xffff_fffe_0000_0001) by (nonlinear_arith)
        requires
            0 <= a <= 0xffff_ffff,
            0 <= b <= 0xffff_ffff,
    ;
}

/// Statistics for monitoring performance.
#[derive(Debug, Clone, Copy, PartialEq, Eq, Structural)]
pub struct StreamStats {
    /// Frames sent/received.
    pub frames: u64,
    /// Bytes sent/received.
    pub bytes: u64,
    /// Dropped frames.
    pub dropped_frames: u64,
    /// Average frame time in microseconds.
    pub avg_frame_time_us: u64,
    /// Current bitrate in bits per second.
    pub bitrate_bps: u64,
    /// Bits of the packet loss share, a single-precision number.
    pub packet_loss_bits: u32,
    /// Round-trip time in microseconds.
    pub rtt_us: u64,
}

impl Default for StreamStats {
    fn default() -> (s: Self)
        ensures
            s == (StreamStats {
                frames: 0,
                bytes: 0,
                dropped_frames: 0,
                avg_frame_time_us: 0,
                bitrate_bps: 0,
                packet_loss_bits: 0,
                rtt_us: 0,
            }),
    {
        StreamStats {
            frames: 0,
            bytes: 0,
            dropped_frames: 0,
            avg_frame_time_us: 0,
            bitrate_bps: 0,
            packet_loss_bits: 0,
            rtt_us: 0,
        }
    }
}

/// Buffer for video frames with metadata.
#[derive(Debug)]
pub struct FrameBuffer {
    /// Raw pixel data.
    pub data: Vec<u8>,
    /// Frame width.
    pub width: u32,
    /// Frame height.
    pub height: u32,
    /// Bytes per row (may include padding).
    pub bytes_per_row: u32,
    /// Pixel format.
    pub format: PixelFormat,
    /// Presentation timestamp in microseconds.
    pub pts_us: u64,
    /// Frame number.
    pub frame_number: u64,
}

/// Bytes in a row of the first plane.
pub open spec fn row_bytes(width: u32, format: PixelFormat) -> int {
    match format {
        PixelFormat::Bgra8 | PixelFormat::Rgba8 => width * 4,
        PixelFormat::Nv12 | PixelFormat::I420 => width as int,
    }
}

/// Bytes of a whole frame: four per pixel, or one with half as much again for
/// the chroma planes.
pub open spec fn frame_bytes(width: u32, height: u32, format: PixelFormat) -> int {
    match format {
        PixelFormat::Bgra8 | PixelFormat::Rgba8 => row_bytes(width, format) * height,
        PixelFormat::Nv12 | PixelFormat::I420 => width * height + (width * height) / 2,
    }
}

impl FrameBuffer {
    /// A black buffer for a frame.
    pub fn new(width: u32, height: u32, format: PixelFormat) -> (b: Self)
        requires
            row_bytes(width, format) <= u32::MAX,
            frame_bytes(width, height, format) <= u32::MAX,
        ensures
            b.data@ == Seq::new(frame_bytes(width, height, format) as nat, |i: int| 0u8),
            b.width == width,
            b.height == height,
            b.bytes_per_row == row_bytes(width, format),
            b.format == format,
            b.pts_us == 0,
            b.frame_number == 0,
    {
        proof {
            lemma_u32_product(width, height);
            assert(0 <= row_bytes(width, format) * height) by (nonlinear_arith)
                requires
                    0 <= row_bytes(width, format),
                    0 <= height,
            ;
        }
        let bytes_per_pixel: u32 = match format {
            PixelFormat::Bgra8 | PixelFormat::Rgba8 => 4,
            PixelFormat::Nv12 => 1,
            PixelFormat::I420 => 1,
        };
        let bytes_per_row: u32 = width * bytes_per_pixel;
        let data_size: usize = match format {
            PixelFormat::Bgra8 | PixelFormat::Rgba8 => (bytes_per_row * height) as usize,
            PixelFormat::Nv12 | PixelFormat::I420 => (width * height + width * height / 2) as usize,
        };
        let data: Vec<u8> = vec![0u8; data_size];
        assert(data@ =~= Seq::new(frame_bytes(width, height, format) as nat, |i: int| 0u8));
        FrameBuffer { data, width, height, bytes_per_row, format, pts_us: 0, frame_number: 0 }
    }
}

/// Sum of a sequence of numbers.
pub open spec fn sum(s: Seq<u64>) -> int
    decreases s.len(),
{
    if s.len() == 0 {
        0
    } else {
        sum(s.drop_last()) + s.last()
    }
}

/// The sum of two sequences, one behind the other.
pub proof fn lemma_sum_concat(a: Seq<u64>, b: Seq<u64>)
    ensures
        sum(a + b) == sum(a) + sum(b),
    decreases b.len(),
{
    if b.len() == 0 {
        assert(a + b =~= a);
    } else {
        lemma_sum_concat(a, b.drop_last());
        assert((a + b).drop_last() =~= a + b.drop_last());
    }
}

/// A prefix sums to no more than the whole.
pub proof fn lemma_sum_prefix(s: Seq<u64>, n: int)
    requires
        0 <= n <= s.len(),
    ensures
        0 <= sum(s.take(n)) <= sum(s),
    decreases s.len(),
{
    if n < s.len() {
        lemma_sum_prefix(s.drop_last(), n);
        assert(s.drop_last().take(n) =~= s.take(n));
    } else {
        assert(s.take(n) =~= s);
        if s.len() > 0 {
            lemma_sum_prefix(s.drop_last(), s.len() - 1);
            assert(s.drop_last().take(s.len() - 1) =~= s.drop_last());
        }
    }
}

/// Bounds on the elements bound the sum.
pub proof fn lemma_sum_bounds(s: Seq<u64>, low: u64, high: u64)
    requires
        forall|i: int| 0 <= i < s.len() ==> low <= #[trigger] s[i] <= high,
    ensures
        low * s.len() <= sum(s) <= high * s.len(),
    decreases s.len(),
{
    if s.len() > 0 {
        let t = s.drop_last();
        assert forall|i: int| 0 <= i < t.len() implies low <= #[trigger] t[i] <= high by {
            assert(t[i] == s[i]);
        }
        lemma_sum_bounds(t, low, high);
        assert(low * s.len() == low * t.len() + low) by (nonlinear_arith)
            requires
                s.len() == t.len() + 1,
        ;
        assert(high * s.len() == high * t.len() + high) by (nonlinear_arith)
            requires
                s.len() == t.len() + 1,
        ;
    }
}

/// Ring buffer for frame timing.
pub struct TimingRingBuffer {
    times: Vec<u64>,
    index: usize,
    count: usize,
}

/// The samples in a ring buffer of the given capacity after one more.
pub open spec fn ring_push(s: Seq<u64>, capacity: nat, t: u64) -> Seq<u64> {
    if s.len() < capacity {
        s.push(t)
    } else {
        s.skip(1).push(t)
    }
}

/// The samples in a ring buffer of the given capacity after all of `s`.
pub open spec fn ring_after(s: Seq<u64>, capacity: nat) -> Seq<u64>
    decreases s.len(),
{
    if s.len() == 0 {
        Seq::empty()
    } else {
        ring_push(ring_after(s.drop_last(), capacity), capacity, s.last())
    }
}

impl View for TimingRingBuffer {
    type V = Seq<u64>;

    /// The samples held, oldest first.
    closed spec fn view(&self) -> Seq<u64> {
        if self.count < self.times@.len() {
            self.times@.take(self.count as int)
        } else {
            self.times@.skip(self.index as int) + self.times@.take(self.index as int)
        }
    }
}

impl TimingRingBuffer {
    #[verifier::type_invariant]
    closed spec fn inv(self) -> bool {
        &&& self.count <= self.times@.len()
        &&& self.count < self.times@.len() ==> self.index == self.count
        &&& self.times@.len() > 0 ==> self.index < self.times@.len()
        &&& self.times@.len() == 0 ==> self.index == 0
    }

    /// The number of samples that the buffer can hold.
    pub closed spec fn capacity(self) -> nat {
        self.times@.len()
    }

    /// An empty buffer.
    pub fn new(capacity: usize) -> (r: Self)
        ensures
            r@ == Seq::<u64>::empty(),
            r.capacity() == capacity,
    {
        let r = TimingRingBuffer { times: vec![0u64; capacity], index: 0, count: 0 };
        assert(r@ =~= Seq::<u64>::empty());
        r
    }

    /// Records a sample; the oldest one leaves where the buffer is full.
    pub fn push(&mut self, time_us: u64)
        requires
            old(self).capacity() > 0,
        ensures
            final(self)@ == ring_push(old(self)@, old(self).capacity(), time_us),
            final(self).capacity() == old(self).capacity(),
    {
        proof {
            use_type_invariant(&*self);
        }
        let ghost before = *self;
        let index: usize = self.index;
        let count: usize = self.count;
        let mut ring = TimingRingBuffer { times: Vec::new(), index: 0, count: 0 };
        std::mem::swap(&mut ring, self);
        let mut times = ring.times;
        times.set(index, time_us);
        let n: usize = times.len();
        let next: usize = if index + 1 == n {
            0
        } else {
            index + 1
        };
        let held: usize = if count < n {
            count + 1
        } else {
            count
        };
        *self = TimingRingBuffer { times, index: next, count: held };
        assert(self@ =~= ring_push(before@, before.capacity(), time_us));
    }

    /// Mean of the samples, rounded down; 0 without any.
    pub fn average(&self) -> (a: u64)
        requires
            sum(self@) <= u64::MAX,
        ensures
            a == (if self@.len() == 0 {
                0
            } else {
                sum(self@) / (self@.len() as int)
            }),
    {
        proof {
            use_type_invariant(self);
            self.lemma_view_sum();
        }
        if self.count == 0 {
            return 0;
        }
        let ghost held = self.times@.take(self.count as int);
        let mut total: u64 = 0;
        let mut i: usize = 0;
        while i < self.count
            invariant
                i <= self.count <= self.times@.len(),
                held == self.times@.take(self.count as int),
                sum(held) <= u64::MAX,
                total == sum(held.take(i as int)),
            decreases self.count - i,
        {
            proof {
                lemma_sum_prefix(held, i + 1);
                assert(held.take(i + 1).drop_last() =~= held.take(i as int));
            }
            total = total + self.times[i];
            i += 1;
        }
        assert(held.take(i as int) =~= held);
        total / self.count as u64
    }

    /// Smallest sample; 0 without any.
    pub fn min(&self) -> (m: u64)
        ensures
            self@.len() == 0 ==> m == 0,
            self@.len() > 0 ==> self@.contains(m),
            forall|i: int| 0 <= i < self@.len() ==> m <= #[trigger] self@[i],
    {
        proof {
            use_type_invariant(self);
            self.lemma_view_elements();
        }
        if self.count == 0 {
            return 0;
        }
        let mut best: u64 = self.times[0];
        let mut at: usize = 0;
        let mut i: usize = 1;
        while i < self.count
            invariant
                1 <= i <= self.count <= self.times@.len(),
                at < self.count,
                best == self.times@[at as int],
                forall|k: int| 0 <= k < i ==> best <= #[trigger] self.times@[k],
            decreases self.count - i,
        {
            if self.times[i] < best {
                best = self.times[i];
                at = i;
            }
            i += 1;
        }
        best
    }

    /// Largest sample; 0 without any.
    pub fn max(&self) -> (m: u64)
        ensures
            self@.len() == 0 ==> m == 0,
            self@.len() > 0 ==> self@.contains(m),
            forall|i: int| 0 <= i < self@.len() ==> m >= #[trigger] self@[i],
    {
        proof {
            use_type_invariant(self);
            self.lemma_view_elements();
        }
        if self.count == 0 {
            return 0;
        }
        let mut best: u64 = self.times[0];
        let mut at: usize = 0;
        let mut i: usize = 1;
        while i < self.count
            invariant
                1 <= i <= self.count <= self.times@.len(),
                at < self.count,
                best == self.times@[at as int],
                forall|k: int| 0 <= k < i ==> best >= #[trigger] self.times@[k],
            decreases self.count - i,
        {
            if self.times[i] > best {
                best = self.times[i];
                at = i;
            }
            i += 1;
        }
        best
    }

    /// The samples held, whatever their order in memory, sum to the same.
    proof fn lemma_view_sum(&self)
        requires
            self.inv(),
        ensures
            sum(self@) == sum(self.times@.take(self.count as int)),
            self@.len() == self.count,
    {
        if self.count == self.times@.len() {
            let a = self.times@.take(self.index as int);
            let b = self.times@.skip(self.index as int);
            lemma_sum_concat(a, b);
            lemma_sum_concat(b, a);
            assert(a + b =~= self.times@);
            assert(self.times@.take(self.count as int) =~= self.times@);
        }
    }

    /// The samples held are those at the front of the memory.
    proof fn lemma_view_elements(&self)
        requires
            self.inv(),
        ensures
            self@.len() == self.count,
            forall|k: int| 0 <= k < self.count ==> self@.contains(#[trigger] self.times@[k]),
            forall|i: int|
                #![trigger self@[i]]
                0 <= i < self@.len() ==> 0 <= self.slot(i) < self.count && self.times@[self.slot(i)]
                    == self@[i],
    {
        let n = self.times@.len() as int;
        let v = self@;
        assert forall|k: int| 0 <= k < self.count implies v.contains(#[trigger] self.times@[k]) by {
            if self.count < n {
                assert(v[k] == self.times@[k]);
            } else if k >= self.index {
                assert(v[k - self.index] == self.times@[k]);
            } else {
                assert(v[n - self.index + k] == self.times@[k]);
            }
        }
    }

    /// Where the `i`th oldest sample lies in memory.
    closed spec fn slot(self, i: int) -> int {
        if self.count < self.times@.len() {
            i
        } else if i + self.index < self.times@.len() {
            i + self.index
        } else {
            i + self.index - self.times@.len()
        }
    }
}

/// A ring buffer holds the last samples of those that were recorded, as many as
/// it has room for, in their order.
pub proof fn law_ring_keeps_the_last(s: Seq<u64>, capacity: nat)
    requires
        capacity > 0,
    ensures
        ring_after(s, capacity) == s.skip(
            if s.len() <= capacity {
                0
            } else {
                s.len() - capacity
            },
        ),
    decreases s.len(),
{
    if s.len() > 0 {
        law_ring_keeps_the_last(s.drop_last(), capacity);
        let k = if s.len() <= capacity {
            0
        } else {
            s.len() - capacity
        };
        assert(ring_after(s, capacity) =~= s.skip(k));
    } else {
        assert(s.skip(0) =~= Seq::empty());
    }
}

/// The mean of samples lies between the smallest and the largest.
pub proof fn law_average_is_between(s: Seq<u64>, low: u64, high: u64)
    requires
        s.len() > 0,
        forall|i: int| 0 <= i < s.len() ==> low <= #[trigger] s[i] <= high,
    ensures
        low <= sum(s) / (s.len() as int) <= high,
{
    lemma_sum_bounds(s, low, high);
    let n = s.len() as int;
    let t = sum(s);
    assert(low <= t / n <= high) by (nonlinear_arith)
        requires
            n > 0,
            low * n <= t <= high * n,
    ;
}

/// Microseconds from the Unix epoch to `std::time::SystemTime::now`; nothing where
/// the clock stands before the epoch. Nothing is claimed of the clock.
#[verifier::external_body]
fn read_clock() -> Option<u128> {
    match std::time::SystemTime::now().duration_since(std::time::UNIX_EPOCH) {
        Ok(d) => Some(d.as_micros()),
        Err(_) => None,
    }
}

/// The timestamp for a reading of the clock in microseconds: its low 64 bits, and 0
/// where the clock stands before the epoch.
pub fn timestamp_of(reading: Option<u128>) -> (t: u64)
    ensures
        t == (match reading {
            Some(n) => n as int % 0x1_0000_0000_0000_0000,
            None => 0,
        }),
{
    match reading {
        Some(n) => {
            assert(n as u64 == n % 0x1_0000_0000_0000_0000u128) by (bit_vector);
            n as u64
        },
        None => 0,
    }
}

/// Current timestamp in microseconds since the Unix epoch.
pub fn now_us() -> u64 {
    timestamp_of(read_clock())
}

/// Microseconds from `start_us` to `now`; 0 where `start_us` lies in the future.
pub fn elapsed_between(start_us: u64, now: u64) -> (d: u64)
    ensures
        d == (if now >= start_us {
            now - start_us
        } else {
            0
        }),
{
    now.saturating_sub(start_us)
}

/// Calculate microseconds elapsed since a timestamp.
pub fn elapsed_us(start_us: u64) -> (d: u64)
    ensures
        d <= u64::MAX - start_us,
{
    elapsed_between(start_us, now_us())
}

/// A frame in four channels takes four bytes for each pixel, row by row; one with
/// chroma planes takes a byte for each pixel and half as much again, rounded down.
pub proof fn law_frames_take_their_bytes(width: u32, height: u32, format: PixelFormat)
    ensures
        ({
            let pixels = width * height;
            let n = frame_bytes(width, height, format);
            let row = row_bytes(width, format);
            if format == PixelFormat::Bgra8 || format == PixelFormat::Rgba8 {
                n == 4 * pixels && row == 4 * width && n == row * height
            } else {
                2 * n <= 3 * pixels < 2 * n + 2 && row == width
            }
        }),
{
    assert((width * 4) * height == 4 * (width * height)) by (nonlinear_arith);
}

/// Samples add up: one sample is its own sum, and two sequences add up to the sum of
/// both.
pub proof fn law_samples_add_up(a: Seq<u64>, b: Seq<u64>)
    ensures
        sum(a + b) == sum(a) + sum(b),
        a.len() == 1 ==> sum(a) == a[0],
        a.len() == 0 ==> sum(a) == 0,
{
    lemma_sum_concat(a, b);
    if a.len() == 1 {
        assert(a.drop_last() =~= Seq::empty());
        assert(sum(a.drop_last()) == 0);
    }
}

/// A sample that is recorded is the newest one; the oldest leaves only where there
/// is no room, and the others keep their order.
pub proof fn law_recording_keeps_the_newest(s: Seq<u64>, capacity: nat, t: u64)
    requires
        s.len() <= capacity,
        capacity > 0,
    ensures
        ring_push(s, capacity, t).last() == t,
        s.len() < capacity ==> ring_push(s, capacity, t).drop_last() == s,
        s.len() == capacity ==> ring_push(s, capacity, t).drop_last() == s.skip(1),
{
    assert(s.push(t).drop_last() =~= s);
    assert(s.skip(1).push(t).drop_last() =~= s.skip(1));
}

} // verus!
