//! A session of the client: what it asks the server for, what it makes of the
//! packets that come, what it reports, and when it tries again.
use crate::audio::capture::AudioPacket;
use crate::discovery::{choose_server, is_chosen_server, server_addresses};
use crate::error::WireError;
use crate::fragments::{covers, in_range};
use crate::headers::law_video_header_reads_back;
use crate::net::SocketAddress;
use crate::protocol::{
    ControlMessage, LatencyReport, PacketHeader, PacketType, PixelFormat, VideoCodec, VideoConfig,
    VideoFrameHeader,
};
use crate::reassembly::{
    adds_nothing, age_us, any_marked, holds, is_in_time, is_outcome, law_frame_is_reassembled,
    law_incomplete_frame_is_kept, law_newer_frames_are_always_taken,
    law_other_fragments_change_nothing, nth_header, FrameReassembler, PendingFrameView,
};
use crate::session::StreamedFrame;
use crate::text::{contains, has_part, law_found_part_is_there, law_part_is_found};
use crate::transport::TransportConfig;
use crate::types::{lemma_sum_prefix, now_us, ring_push, sum, ServerInfo};
use crate::udp::{chunk, chunk_count, chunks, law_chunks_rejoin};
use crate::video::capture::DisplayInfo;
use crate::video::codec::{DecodedFrame, EncodedFrame};
use vstd::prelude::*;
use vstd::slice::{slice_subrange, slice_to_vec};

verus! {

/// Socket buffers of the client over Thunderbolt: 64 MiB.
pub const CLIENT_THUNDERBOLT_BUFFER: usize = 67_108_864;

/// How often the client announces itself on a channel.
pub const PING_ATTEMPTS: u32 = 10;

/// Nanoseconds that pass at least between two requests for a keyframe: one
/// second.
pub const KEYFRAME_INTERVAL_NS: u64 = 1_000_000_000;

/// Nanoseconds that pass at least between two reports: two seconds.
pub const REPORT_INTERVAL_NS: u64 = 2_000_000_000;

/// Nanoseconds after which the search for a server ends: ten seconds.
pub const SEARCH_TIMEOUT_NS: u64 = 10_000_000_000;

/// Decoding times that the average is taken over.
pub const DECODE_SAMPLES: usize = 60;

/// Maximum number of reconnection attempts before giving up.
pub const MAX_RECONNECT_ATTEMPTS: u32 = 10;

/// Delay between reconnection attempts.
pub const RECONNECT_DELAY_MS: u64 = 2000;

/// The video that the client asks for: in the size of its display, at a high
/// bitrate over Thunderbolt.
pub fn requested_video(main: Option<DisplayInfo>, is_thunderbolt: bool) -> (c: VideoConfig)
    ensures
        c == (VideoConfig {
            width: match main {
                Some(d) => d.width,
                None => 1920,
            },
            height: match main {
                Some(d) => d.height,
                None => 1080,
            },
            fps: 60,
            codec: VideoCodec::H265,
            bitrate: if is_thunderbolt {
                500_000_000
            } else {
                60_000_000
            },
            pixel_format: PixelFormat::Bgra8,
        }),
{
    let (width, height): (u32, u32) = match main {
        Some(d) => (d.width, d.height),
        None => (1920, 1080),
    };
    VideoConfig {
        width,
        height,
        fps: 60,
        codec: VideoCodec::H265,
        bitrate: if is_thunderbolt {
            500_000_000
        } else {
            60_000_000
        },
        pixel_format: PixelFormat::Bgra8,
    }
}

/// The transport of the client: the usual one, with larger buffers over
/// Thunderbolt.
pub fn client_transport(is_thunderbolt: bool) -> (c: TransportConfig)
    ensures
        c == (if is_thunderbolt {
            TransportConfig {
                send_buffer_size: CLIENT_THUNDERBOLT_BUFFER,
                recv_buffer_size: CLIENT_THUNDERBOLT_BUFFER,
                ..TransportConfig::initial()
            }
        } else {
            TransportConfig::initial()
        }),
{
    let c = TransportConfig::default();
    if is_thunderbolt {
        TransportConfig {
            send_buffer_size: CLIENT_THUNDERBOLT_BUFFER,
            recv_buffer_size: CLIENT_THUNDERBOLT_BUFFER,
            ..c
        }
    } else {
        c
    }
}

/// Bytes of the contents of a video packet that are taken for the frame header.
pub open spec fn head_len(len: nat) -> nat {
    if len < VideoFrameHeader::ENCODED_SIZE {
        len
    } else {
        VideoFrameHeader::ENCODED_SIZE as nat
    }
}

/// The part of the contents of a video packet that the frame header is read from.
pub open spec fn frame_head(data: Seq<u8>) -> Seq<u8> {
    data.take(head_len(data.len()) as int)
}

/// The rest of the contents of a video packet: the fragment.
pub open spec fn frame_body(data: Seq<u8>) -> Seq<u8> {
    data.skip(head_len(data.len()) as int)
}

/// Frames that came and frames that did not.
#[derive(Debug, Clone, Copy, PartialEq, Eq, Structural)]
pub struct FrameCounts {
    /// Number that the next frame should have.
    pub expected: u64,
    pub received: u64,
    pub dropped: u64,
}

/// The counts after frame `n` came: the frames that it skips are dropped.
pub open spec fn counted(c: FrameCounts, n: u64) -> FrameCounts {
    FrameCounts {
        expected: (n + 1) as u64,
        received: (c.received + 1) as u64,
        dropped: if n > c.expected {
            (c.dropped + (n - c.expected)) as u64
        } else {
            c.dropped
        },
    }
}

/// Whether there is room to count frame `n`.
pub open spec fn can_count(c: FrameCounts, n: u64) -> bool {
    &&& n < u64::MAX
    &&& c.received < u64::MAX
    &&& c.dropped + n - c.expected <= u64::MAX
}

impl FrameCounts {
    /// Nothing came yet.
    pub fn new() -> (c: Self)
        ensures
            c == (FrameCounts { expected: 0, received: 0, dropped: 0 }),
    {
        FrameCounts { expected: 0, received: 0, dropped: 0 }
    }

    /// Counts a frame.
    pub fn count(&mut self, n: u64)
        requires
            can_count(*old(self), n),
        ensures
            *final(self) == counted(*old(self), n),
    {
        if n > self.expected {
            self.dropped += n - self.expected;
        }
        self.expected = n + 1;
        self.received += 1;
    }

    /// Starts a new interval.
    pub fn reset(&mut self)
        ensures
            *final(self) == (FrameCounts { received: 0, dropped: 0, ..*old(self) }),
    {
        self.received = 0;
        self.dropped = 0;
    }
}

/// Every frame number is counted once, as received or as dropped.
pub proof fn law_every_frame_is_counted(c: FrameCounts, n: u64)
    requires
        can_count(c, n),
        n >= c.expected,
    ensures
        counted(c, n).received + counted(c, n).dropped == c.received + c.dropped + (
        counted(c, n).expected - c.expected),
{
}

/// What a packet on the video channel comes to.
#[derive(Debug)]
pub enum PacketOutcome {
    /// It is no video packet.
    NotVideo,
    /// Its frame header cannot be read.
    Unreadable(WireError),
    /// It completes no frame.
    Held,
    /// It completes a frame.
    Frame(VideoFrameHeader, Vec<u8>),
}

/// The receiving end of the video stream.
pub struct VideoReceiver {
    pub reassembler: FrameReassembler,
    pub counts: FrameCounts,
}

impl VideoReceiver {
    /// Nothing came yet.
    pub fn new() -> (r: Self)
        ensures
            r.reassembler@ == Map::<u64, PendingFrameView>::empty(),
            r.reassembler.last_completed_frame == 0,
            r.reassembler.max_age_us == crate::reassembly::MAX_FRAME_AGE_US,
            r.counts == (FrameCounts { expected: 0, received: 0, dropped: 0 }),
    {
        VideoReceiver { reassembler: FrameReassembler::new(), counts: FrameCounts::new() }
    }

    /// Whether the frame that a packet belongs to can be counted.
    pub open spec fn has_room(self, header: PacketHeader, data: Seq<u8>) -> bool {
        header.packet_type == PacketType::Video && VideoFrameHeader::read_error(
            frame_head(data),
        ) is None ==> can_count(
            self.counts,
            VideoFrameHeader::decoded(frame_head(data)).frame_number,
        )
    }

    /// Tells whether the frame that a packet belongs to can be counted.
    pub fn can_accept(&self, header: &PacketHeader, data: &[u8]) -> (b: bool)
        ensures
            b == self.has_room(*header, data@),
    {
        if header.packet_type != PacketType::Video {
            return true;
        }
        let n: usize = if data.len() < VideoFrameHeader::ENCODED_SIZE {
            data.len()
        } else {
            VideoFrameHeader::ENCODED_SIZE
        };
        let head = slice_subrange(data, 0, n);
        assert(head@ =~= frame_head(data@));
        match VideoFrameHeader::from_bytes(head) {
            Ok(h) => {
                let c = &self.counts;
                h.frame_number < u64::MAX && c.received < u64::MAX && (h.frame_number <= c.expected
                    || h.frame_number - c.expected <= u64::MAX - c.dropped)
            },
            Err(_) => true,
        }
    }

    /// Whether a packet that comes in at `now` leads to an outcome.
    pub open spec fn leads_to(
        before: VideoReceiver,
        after: VideoReceiver,
        header: PacketHeader,
        data: Seq<u8>,
        now: u64,
        r: PacketOutcome,
    ) -> bool {
        let error = VideoFrameHeader::read_error(frame_head(data));
        let h = VideoFrameHeader::decoded(frame_head(data));
        if header.packet_type != PacketType::Video {
            r is NotVideo && after == before
        } else if error is Some {
            r == PacketOutcome::Unreadable(error->0) && after == before
        } else {
            match r {
                PacketOutcome::Held => {
                    &&& is_outcome(
                        before.reassembler,
                        after.reassembler,
                        h,
                        frame_body(data),
                        now,
                        None,
                    )
                    &&& after.counts == before.counts
                },
                PacketOutcome::Frame(fh, bytes) => {
                    &&& is_outcome(
                        before.reassembler,
                        after.reassembler,
                        h,
                        frame_body(data),
                        now,
                        Some((fh, bytes)),
                    )
                    &&& after.counts == counted(before.counts, h.frame_number)
                },
                _ => false,
            }
        }
    }

    /// Takes in a packet that came at the given time.
    pub fn accept_packet_at(&mut self, header: &PacketHeader, data: &[u8], now_us: u64) -> (r:
        PacketOutcome)
        requires
            old(self).has_room(*header, data@),
        ensures
            VideoReceiver::leads_to(*old(self), *final(self), *header, data@, now_us, r),
    {
        if header.packet_type != PacketType::Video {
            return PacketOutcome::NotVideo;
        }
        let n: usize = if data.len() < VideoFrameHeader::ENCODED_SIZE {
            data.len()
        } else {
            VideoFrameHeader::ENCODED_SIZE
        };
        let head = slice_subrange(data, 0, n);
        assert(head@ =~= frame_head(data@));
        let h = match VideoFrameHeader::from_bytes(head) {
            Ok(h) => h,
            Err(e) => {
                return PacketOutcome::Unreadable(e);
            },
        };
        let body = slice_subrange(data, n, data.len());
        assert(body@ =~= frame_body(data@));
        match self.reassembler.add_fragment_at(h, slice_to_vec(body), now_us) {
            Some((fh, bytes)) => {
                self.counts.count(h.frame_number);
                PacketOutcome::Frame(fh, bytes)
            },
            None => PacketOutcome::Held,
        }
    }

    /// Takes in a packet.
    pub fn accept_packet(&mut self, header: &PacketHeader, data: &[u8]) -> (r: PacketOutcome)
        requires
            old(self).has_room(*header, data@),
        ensures
            exists|now: u64| #[trigger]
                VideoReceiver::leads_to(*old(self), *final(self), *header, data@, now, r),
    {
        let now: u64 = now_us();
        self.accept_packet_at(header, data, now)
    }
}

/// Every packet of a frame that the server streams is understood by the client: it
/// reads the header that was sent, and takes the chunk for the fragment.
pub proof fn law_streamed_fragment_is_understood(
    frame: StreamedFrame,
    data: Seq<u8>,
    size: nat,
    i: int,
)
    requires
        size > 0,
        0 <= i < chunk_count(data.len(), size),
    ensures
        ({
            let p = frame.payload(data, size, i);
            &&& VideoFrameHeader::read_error(frame_head(p)) is None
            &&& VideoFrameHeader::decoded(frame_head(p)) == frame.header(data.len(), size, i)
            &&& frame_body(p) == chunk(data, size, i)
        }),
{
    broadcast use crate::bytes::lemma_le_bytes_len;

    let p = frame.payload(data, size, i);
    let h = frame.header(data.len(), size, i);
    assert(h.encoding().len() == 33);
    law_video_header_reads_back(h, Seq::empty());
    assert(frame_head(p) =~= h.encoding() + Seq::<u8>::empty());
    assert(frame_body(p) =~= chunk(data, size, i));
}

/// Whether the client still looks at a streamed frame, and holds exactly those of
/// its fragments whose indices are in `order`, the order in which they came, the
/// first of them at `first_us`.
pub open spec fn is_awaiting(
    c: VideoReceiver,
    frame: StreamedFrame,
    data: Seq<u8>,
    size: nat,
    order: Seq<int>,
    first_us: u64,
) -> bool {
    holds(
        c.reassembler,
        frame.header(data.len(), size, 0),
        frame.marks(),
        chunks(data, size),
        order,
        first_us,
    )
}

/// What a packet of video handed out.
spec fn handed_out(r: PacketOutcome) -> Option<(VideoFrameHeader, Vec<u8>)> {
    match r {
        PacketOutcome::Frame(fh, bytes) => Some((fh, bytes)),
        _ => None,
    }
}

/// While a packet of a streamed frame is missing, the client keeps what came of the
/// frame and shows nothing of it.
pub proof fn law_streamed_frame_is_awaited(
    before: VideoReceiver,
    after: VideoReceiver,
    header: PacketHeader,
    r: PacketOutcome,
    frame: StreamedFrame,
    data: Seq<u8>,
    size: nat,
    order: Seq<int>,
    i: int,
    missing: int,
    first_us: u64,
    now: u64,
)
    requires
        size > 0,
        chunk_count(data.len(), size) <= u16::MAX,
        is_awaiting(before, frame, data, size, order, first_us),
        is_in_time(order, first_us, now, before.reassembler.max_age_us),
        in_range(order, chunk_count(data.len(), size)),
        0 <= i < chunk_count(data.len(), size),
        0 <= missing < chunk_count(data.len(), size),
        !order.contains(missing),
        i != missing,
        header.packet_type == PacketType::Video,
        VideoReceiver::leads_to(before, after, header, frame.payload(data, size, i), now, r),
    ensures
        r is Held,
        is_awaiting(after, frame, data, size, order.push(i), first_us),
        after.reassembler.last_completed_frame == before.reassembler.last_completed_frame,
        after.reassembler.max_age_us == before.reassembler.max_age_us,
        after.counts == before.counts,
{
    law_streamed_fragment_is_understood(frame, data, size, i);
    let first = frame.header(data.len(), size, 0);
    assert(frame.header(data.len(), size, i) == nth_header(first, frame.marks(), i));
    assert(chunks(data, size)[i] == chunk(data, size, i));
    law_incomplete_frame_is_kept(
        before.reassembler,
        after.reassembler,
        handed_out(r),
        first,
        frame.marks(),
        chunks(data, size),
        order,
        i,
        missing,
        first_us,
        now,
    );
}

/// A frame that the server streams arrives whole: when the last of its packets
/// comes within the time limit, in whatever order and with whatever repetitions
/// the others came, the client gets the frame that was sent, byte for byte, and
/// knows a keyframe by its marks.
pub proof fn law_streamed_frame_arrives(
    before: VideoReceiver,
    after: VideoReceiver,
    header: PacketHeader,
    r: PacketOutcome,
    frame: StreamedFrame,
    data: Seq<u8>,
    size: nat,
    order: Seq<int>,
    i: int,
    first_us: u64,
    now: u64,
)
    requires
        size > 0,
        chunk_count(data.len(), size) <= u16::MAX,
        is_awaiting(before, frame, data, size, order, first_us),
        is_in_time(order, first_us, now, before.reassembler.max_age_us),
        in_range(order, chunk_count(data.len(), size)),
        0 <= i < chunk_count(data.len(), size),
        !order.contains(i),
        covers(order.push(i), chunk_count(data.len(), size)),
        header.packet_type == PacketType::Video,
        VideoReceiver::leads_to(before, after, header, frame.payload(data, size, i), now, r),
    ensures
        match r {
            PacketOutcome::Frame(fh, bytes) => {
                &&& bytes@ == data
                &&& fh.frame_number == frame.frame_number
                &&& fh.pts_us == frame.pts_us
                &&& fh.width == frame.width
                &&& fh.height == frame.height
                &&& fh.is_keyframe == (frame.is_raw || frame.is_keyframe)
            },
            _ => false,
        },
        !after.reassembler@.contains_key(frame.frame_number),
        after.counts == counted(before.counts, frame.frame_number),
{
    law_streamed_fragment_is_understood(frame, data, size, i);
    let first = frame.header(data.len(), size, 0);
    assert(frame.header(data.len(), size, i) == nth_header(first, frame.marks(), i));
    assert(chunks(data, size)[i] == chunk(data, size, i));
    law_frame_is_reassembled(
        before.reassembler,
        after.reassembler,
        handed_out(r),
        first,
        frame.marks(),
        chunks(data, size),
        order,
        i,
        first_us,
        now,
    );
    law_chunks_rejoin(data, size);
    assert(order.push(i).contains(0));
    lemma_first_marks(frame, order.push(i));
}

/// A packet that adds nothing to a streamed frame leaves what the client holds of it
/// as it is, as long as its time limit is kept: a packet of another kind, one that
/// cannot be read, a fragment of another frame, unless it completes one that makes
/// this one outdated, and a fragment with this frame's number whose index is out of
/// range or whose place is taken, whatever its contents.
pub proof fn law_other_packets_change_nothing(
    before: VideoReceiver,
    after: VideoReceiver,
    header: PacketHeader,
    p: Seq<u8>,
    r: PacketOutcome,
    frame: StreamedFrame,
    data: Seq<u8>,
    size: nat,
    order: Seq<int>,
    missing: int,
    first_us: u64,
    now: u64,
)
    requires
        is_awaiting(before, frame, data, size, order, first_us),
        order.len() > 0 ==> age_us(now, first_us) < before.reassembler.max_age_us,
        in_range(order, chunk_count(data.len(), size)),
        0 <= missing < chunk_count(data.len(), size),
        !order.contains(missing),
        VideoReceiver::leads_to(before, after, header, p, now, r),
        header.packet_type == PacketType::Video && VideoFrameHeader::read_error(
            frame_head(p),
        ) is None ==> {
            let h = VideoFrameHeader::decoded(frame_head(p));
            if h.frame_number == frame.frame_number {
                adds_nothing(h, chunk_count(data.len(), size), order)
            } else {
                after.reassembler.last_completed_frame <= frame.frame_number
            }
        },
    ensures
        is_awaiting(after, frame, data, size, order, first_us),
        order.len() > 0 ==> after.reassembler@[frame.frame_number]
            == before.reassembler@[frame.frame_number],
        after.reassembler.max_age_us == before.reassembler.max_age_us,
{
    if header.packet_type == PacketType::Video && VideoFrameHeader::read_error(
        frame_head(p),
    ) is None {
        law_other_fragments_change_nothing(
            before.reassembler,
            after.reassembler,
            handed_out(r),
            frame.header(data.len(), size, 0),
            frame.marks(),
            chunks(data, size),
            order,
            missing,
            first_us,
            VideoFrameHeader::decoded(frame_head(p)),
            frame_body(p),
            now,
        );
    }
}

/// A frame that has all its packets is marked exactly if it should be.
proof fn lemma_first_marks(frame: StreamedFrame, order: Seq<int>)
    ensures
        any_marked(frame.marks(), order) ==> frame.is_raw || frame.is_keyframe,
        order.contains(0) && (frame.is_raw || frame.is_keyframe) ==> any_marked(
            frame.marks(),
            order,
        ),
    decreases order.len(),
{
    if order.len() > 0 {
        lemma_first_marks(frame, order.drop_last());
        if order.contains(0) && order.last() != 0 {
            let k = choose|k: int| 0 <= k < order.len() && order[k] == 0;
            assert(order.drop_last()[k] == 0);
        }
    }
}

/// Whether a decoder has to be made for a frame: raw video needs none.
pub fn needs_decoder(codec: VideoCodec, has_decoder: bool) -> (b: bool)
    ensures
        b == (!has_decoder && codec != VideoCodec::Raw),
{
    !has_decoder && codec != VideoCodec::Raw
}

/// A frame as the decoder takes it.
pub fn encoded_frame(header: &VideoFrameHeader, data: Vec<u8>) -> (f: EncodedFrame)
    ensures
        f.data@ == data@,
        f.pts_us == header.pts_us,
        f.dts_us == header.pts_us,
        f.is_keyframe == header.is_keyframe,
        f.frame_number == header.frame_number,
{
    EncodedFrame {
        data,
        pts_us: header.pts_us,
        dts_us: header.pts_us,
        is_keyframe: header.is_keyframe,
        frame_number: header.frame_number,
    }
}

/// A frame of raw video as it is shown. Of several frames that came together only
/// the last one is.
pub fn raw_frame(header: &VideoFrameHeader, data: Vec<u8>, is_last: bool) -> (r: Option<
    DecodedFrame,
>)
    requires
        header.width * 4 <= u32::MAX,
    ensures
        match r {
            Some(f) => {
                &&& is_last
                &&& f.data@ == data@
                &&& f.width == header.width
                &&& f.height == header.height
                &&& f.bytes_per_row == header.width * 4
                &&& f.pts_us == header.pts_us
            },
            None => !is_last,
        },
{
    if is_last {
        Some(
            DecodedFrame {
                data,
                width: header.width,
                height: header.height,
                bytes_per_row: header.width * 4,
                pts_us: header.pts_us,
            },
        )
    } else {
        None
    }
}

/// Whether to ask for a keyframe: where one is wanted, and not too often.
pub fn should_request_keyframe(wanted: bool, elapsed_ns: u64) -> (b: bool)
    ensures
        b == (wanted && elapsed_ns > KEYFRAME_INTERVAL_NS),
{
    wanted && elapsed_ns > KEYFRAME_INTERVAL_NS
}

/// The last decoding times.
#[derive(Debug)]
pub struct DecodeTimes {
    /// In microseconds, oldest first.
    pub samples: Vec<u64>,
}

impl DecodeTimes {
    /// No more times than the average is taken over.
    pub open spec fn wf(self) -> bool {
        self.samples@.len() <= DECODE_SAMPLES
    }

    /// No times yet.
    pub fn new() -> (t: Self)
        ensures
            t.wf(),
            t.samples@.len() == 0,
    {
        DecodeTimes { samples: Vec::new() }
    }

    /// Records the time that a frame took which was shown.
    pub fn record(&mut self, time_us: u64)
        requires
            old(self).wf(),
        ensures
            final(self).wf(),
            final(self).samples@ == ring_push(
                old(self).samples@,
                DECODE_SAMPLES as nat,
                time_us,
            ),
    {
        let ghost before = self.samples@;
        self.samples.push(time_us);
        if self.samples.len() > DECODE_SAMPLES {
            self.samples.remove(0);
        }
        assert(self.samples@ =~= ring_push(before, DECODE_SAMPLES as nat, time_us));
    }

    /// Mean of the times, rounded down; 0 without any.
    pub fn average(&self) -> (a: u64)
        requires
            sum(self.samples@) <= u64::MAX,
        ensures
            a == (if self.samples@.len() == 0 {
                0
            } else {
                sum(self.samples@) / (self.samples@.len() as int)
            }),
    {
        let n: usize = self.samples.len();
        if n == 0 {
            return 0;
        }
        let ghost s = self.samples@;
        let mut total: u64 = 0;
        let mut i: usize = 0;
        while i < n
            invariant
                i <= n,
                n == s.len(),
                s == self.samples@,
                sum(s) <= u64::MAX,
                total == sum(s.take(i as int)),
            decreases n - i,
        {
            proof {
                lemma_sum_prefix(s, i + 1);
                assert(s.take(i + 1).drop_last() =~= s.take(i as int));
            }
            total = total + self.samples[i];
            i += 1;
        }
        assert(s.take(i as int) =~= s);
        total / n as u64
    }
}

/// Whether a report is due.
pub fn report_is_due(elapsed_ns: u64) -> (b: bool)
    ensures
        b == (elapsed_ns > REPORT_INTERVAL_NS),
{
    elapsed_ns > REPORT_INTERVAL_NS
}

/// The report on decoding and loss. The round trip cannot be measured without
/// synchronized clocks, and showing a frame takes about two milliseconds: both are
/// estimates. The loss is given by the bits of a single-precision number.
pub fn latency_report(decode_us: u64, jitter_us: u64, packet_loss_bits: u32) -> (r: LatencyReport)
    ensures
        r == (LatencyReport {
            rtt_us: 10_000,
            decode_latency_us: decode_us,
            display_latency_us: 2000,
            packet_loss_bits,
            jitter_us,
        }),
{
    LatencyReport {
        rtt_us: 10_000,
        decode_latency_us: decode_us,
        display_latency_us: 2000,
        packet_loss_bits,
        jitter_us,
    }
}

/// A sound packet, where a packet on the audio channel carries one. Samples are
/// counted in stereo pairs of four bytes each.
pub fn audio_packet(header: &PacketHeader, data: Vec<u8>) -> (r: Option<AudioPacket>)
    ensures
        match r {
            Some(p) => {
                &&& header.packet_type == PacketType::Audio
                &&& p.data@ == data@
                &&& p.pts_us == header.timestamp_us
                &&& p.sample_count == header.payload_len / 8
                &&& p.sequence == header.sequence
            },
            None => header.packet_type != PacketType::Audio,
        },
{
    if header.packet_type == PacketType::Audio {
        Some(
            AudioPacket {
                data,
                pts_us: header.timestamp_us,
                sample_count: header.payload_len / 8,
                sequence: header.sequence,
            },
        )
    } else {
        None
    }
}

/// How the client goes on after a word from the server.
#[derive(Debug, Clone, Copy, PartialEq, Eq, Structural)]
pub enum ClientStep {
    /// The session goes on.
    Continue,
    /// The session ends.
    End,
    /// The session failed: the control channel is lost.
    Lost,
}

/// How the client goes on after a message from the server, or after the control
/// channel was closed.
pub fn on_server_message(msg: Option<&ControlMessage>) -> (s: ClientStep)
    ensures
        s == (match msg {
            Some(ControlMessage::Disconnect) => ClientStep::End,
            Some(_) => ClientStep::Continue,
            None => ClientStep::Lost,
        }),
{
    match msg {
        Some(ControlMessage::Disconnect) => ClientStep::End,
        Some(_) => ClientStep::Continue,
        None => ClientStep::Lost,
    }
}

/// How the search for a server goes on.
#[derive(Debug, Clone, Copy, PartialEq, Eq, Structural)]
pub enum SearchStep {
    /// Connect to this address.
    Found(SocketAddress),
    /// Look again after a while.
    Wait,
    /// No server was found in time.
    TimedOut,
}

/// How the search for a server goes on, given the servers that were found so far.
pub fn search_step(servers: &Vec<ServerInfo>, elapsed_ns: u64) -> (s: SearchStep)
    ensures
        match s {
            SearchStep::Found(a) => {
                &&& elapsed_ns <= SEARCH_TIMEOUT_NS
                &&& exists|k: int|
                    #[trigger] is_chosen_server(server_addresses(servers@), k)
                        && server_addresses(servers@)[k] == a
            },
            SearchStep::Wait => elapsed_ns <= SEARCH_TIMEOUT_NS && servers@.len() == 0,
            SearchStep::TimedOut => elapsed_ns > SEARCH_TIMEOUT_NS,
        },
{
    if elapsed_ns > SEARCH_TIMEOUT_NS {
        return SearchStep::TimedOut;
    }
    match choose_server(servers) {
        Some(a) => SearchStep::Found(a),
        None => SearchStep::Wait,
    }
}

/// Whether an error is one of the transport, which may go away.
pub open spec fn is_transient(message: Seq<char>) -> bool {
    ||| contains(message, "channel failed"@)
    ||| contains(message, "channel lost"@)
    ||| contains(message, "connection"@)
    ||| contains(message, "Connection"@)
    ||| contains(message, "timeout"@)
    ||| contains(message, "Timeout"@)
    ||| contains(message, "reset"@)
    ||| contains(message, "broken pipe"@)
}

/// Tells whether an error is one of the transport, which may go away.
pub fn is_transient_error(message: &str) -> (b: bool)
    ensures
        b == is_transient(message@),
{
    has_part(message, "channel failed") || has_part(message, "channel lost") || has_part(
        message,
        "connection",
    ) || has_part(message, "Connection") || has_part(message, "timeout") || has_part(
        message,
        "Timeout",
    ) || has_part(message, "reset") || has_part(message, "broken pipe")
}

/// What the client does when a session is over.
#[derive(Debug, Clone, Copy, PartialEq, Eq, Structural)]
pub enum AfterSession {
    /// Exit: the session ended cleanly.
    Done,
    /// Exit with the error: trying again would not help.
    Fatal,
    /// Exit with the error: it was tried too often.
    GiveUp,
    /// Try again after a while.
    Retry,
}

/// What the client does when a session is over, after so many failed attempts.
pub open spec fn after_session(attempts: u32, error: Option<Seq<char>>) -> AfterSession {
    match error {
        None => AfterSession::Done,
        Some(e) => if !is_transient(e) {
            AfterSession::Fatal
        } else if attempts + 1 >= MAX_RECONNECT_ATTEMPTS {
            AfterSession::GiveUp
        } else {
            AfterSession::Retry
        },
    }
}

/// Counts the attempts to keep a session.
#[derive(Debug, Clone, Copy, PartialEq, Eq, Structural)]
pub struct Reconnector {
    /// Attempts that failed so far.
    pub attempts: u32,
}

impl Reconnector {
    /// No attempt failed yet.
    pub fn new() -> (r: Self)
        ensures
            r.attempts == 0,
    {
        Reconnector { attempts: 0 }
    }

    /// What to do when a session is over, with an error or without.
    pub fn on_session_end(&mut self, error: Option<&str>) -> (s: AfterSession)
        requires
            old(self).attempts < MAX_RECONNECT_ATTEMPTS,
        ensures
            s == after_session(
                old(self).attempts,
                match error {
                    Some(e) => Some(e@),
                    None => None,
                },
            ),
            final(self).attempts == (if s == AfterSession::Retry || s == AfterSession::GiveUp {
                (old(self).attempts + 1) as u32
            } else {
                old(self).attempts
            }),
            s == AfterSession::Retry ==> final(self).attempts < MAX_RECONNECT_ATTEMPTS,
    {
        match error {
            None => AfterSession::Done,
            Some(e) => {
                if !is_transient_error(e) {
                    return AfterSession::Fatal;
                }
                self.attempts += 1;
                if self.attempts >= MAX_RECONNECT_ATTEMPTS {
                    AfterSession::GiveUp
                } else {
                    AfterSession::Retry
                }
            },
        }
    }
}

/// A lost control channel and a failed video channel are worth another attempt.
pub proof fn law_lost_channels_are_retried(detail: Seq<char>)
    ensures
        is_transient("Control channel lost"@),
        is_transient("Video channel failed: "@ + detail),
{
    reveal_strlit("Control channel lost");
    reveal_strlit("channel lost");
    reveal_strlit("Video channel failed: ");
    reveal_strlit("channel failed");
    let a = "Control channel lost"@;
    assert(a.subrange(8, 20) =~= "channel lost"@);
    assert(crate::text::is_part_at(a, "channel lost"@, 8));
    let b = "Video channel failed: "@ + detail;
    assert(b.subrange(6, 20) =~= "channel failed"@);
    assert(crate::text::is_part_at(b, "channel failed"@, 6));
}

/// A frame that comes next leaves no gap; one that comes after a gap counts the
/// frames of the gap as dropped, and no others; one that comes late drops nothing.
/// The next frame is expected behind it.
pub proof fn law_gaps_are_counted_as_dropped(c: FrameCounts, n: u64)
    requires
        n < u64::MAX,
        c.received < u64::MAX,
        n >= c.expected ==> c.dropped + (n - c.expected) <= u64::MAX,
    ensures
        can_count(c, n),
        counted(c, n).expected == n + 1,
        counted(c, n).received == c.received + 1,
        n >= c.expected ==> counted(c, n).dropped == c.dropped + (n - c.expected),
        n < c.expected ==> counted(c, n).dropped == c.dropped,
{
}

/// A packet that is no video leaves the client as it is, and so does one whose frame
/// header cannot be read; any other is held or completes its frame.
pub proof fn law_packets_are_sorted_by_their_kind(
    before: VideoReceiver,
    after: VideoReceiver,
    header: PacketHeader,
    data: Seq<u8>,
    now: u64,
    r: PacketOutcome,
)
    requires
        VideoReceiver::leads_to(before, after, header, data, now, r),
    ensures
        r is NotVideo <==> header.packet_type != PacketType::Video,
        r is NotVideo || r is Unreadable ==> after == before,
        header.packet_type == PacketType::Video && data.len() < 33 ==> r is Unreadable,
        header.packet_type == PacketType::Video && data.len() >= 33 ==> (r is Unreadable <==> data[16]
            > 1),
        r is Held ==> after.counts == before.counts,
        r is Frame ==> after.counts.received == before.counts.received + 1
            || before.counts.received == u64::MAX,
{
}

/// A frame of one fragment that is not older than the last completed one is handed
/// out at once, whatever was lost before it.
pub proof fn law_single_packets_are_shown_at_once(
    before: VideoReceiver,
    after: VideoReceiver,
    header: PacketHeader,
    frame: StreamedFrame,
    data: Seq<u8>,
    size: nat,
    now: u64,
    r: PacketOutcome,
)
    requires
        size > 0,
        chunk_count(data.len(), size) == 1,
        header.packet_type == PacketType::Video,
        frame.frame_number >= before.reassembler.last_completed_frame,
        VideoReceiver::leads_to(before, after, header, frame.payload(data, size, 0), now, r),
    ensures
        r matches PacketOutcome::Frame(fh, bytes) && bytes@ == data && fh.frame_number
            == frame.frame_number && fh.pts_us == frame.pts_us && fh.width == frame.width
            && fh.height == frame.height && fh.is_keyframe == (frame.is_raw || frame.is_keyframe),
        after.reassembler.last_completed_frame == frame.frame_number,
{
    law_streamed_fragment_is_understood(frame, data, size, 0);
    law_newer_frames_are_always_taken(
        before.reassembler,
        after.reassembler,
        frame.header(data.len(), size, 0),
        chunk(data, size, 0),
        now,
        handed_out(r),
    );
    law_chunks_rejoin(data, size);
    let c = chunks(data, size);
    assert(c.drop_last() =~= Seq::<Seq<u8>>::empty());
    assert(crate::fragments::concat(c.drop_last()) =~= Seq::<u8>::empty());
    assert(crate::fragments::concat(c) =~= c[0]);
}

/// Whether a text has a part that it reads from some place on.
pub open spec fn reads(text: Seq<char>, part: Seq<char>) -> bool {
    exists|a: Seq<char>, b: Seq<char>| text == #[trigger] (a + part + b)
}

/// An error is worth another attempt if its message has one of these words in it,
/// whatever stands around it.
pub proof fn law_transport_errors_are_transient(before: Seq<char>, behind: Seq<char>)
    ensures
        is_transient(before + "channel failed"@ + behind),
        is_transient(before + "channel lost"@ + behind),
        is_transient(before + "connection"@ + behind),
        is_transient(before + "Connection"@ + behind),
        is_transient(before + "timeout"@ + behind),
        is_transient(before + "Timeout"@ + behind),
        is_transient(before + "reset"@ + behind),
        is_transient(before + "broken pipe"@ + behind),
{
    law_part_is_found(before, "channel failed"@, behind);
    law_part_is_found(before, "channel lost"@, behind);
    law_part_is_found(before, "connection"@, behind);
    law_part_is_found(before, "Connection"@, behind);
    law_part_is_found(before, "timeout"@, behind);
    law_part_is_found(before, "Timeout"@, behind);
    law_part_is_found(before, "reset"@, behind);
    law_part_is_found(before, "broken pipe"@, behind);
}

/// An error whose message has none of these words in it is none of the transport.
pub proof fn law_other_errors_are_fatal(message: Seq<char>, attempts: u32)
    requires
        !reads(message, "channel failed"@),
        !reads(message, "channel lost"@),
        !reads(message, "connection"@),
        !reads(message, "Connection"@),
        !reads(message, "timeout"@),
        !reads(message, "Timeout"@),
        !reads(message, "reset"@),
        !reads(message, "broken pipe"@),
    ensures
        after_session(attempts, Some(message)) == AfterSession::Fatal,
{
    assert forall|part: Seq<char>| #[trigger] contains(message, part) implies reads(
        message,
        part,
    ) by {
        let i = law_found_part_is_there(message, part);
        assert(message == message.take(i) + part + message.skip(i + part.len()));
    }
}

/// A session that ends without an error is over; after an error of the transport
/// another attempt is made, until the tenth has failed.
pub proof fn law_attempts_are_limited(attempts: u32, error: Option<Seq<char>>)
    ensures
        after_session(attempts, error) == AfterSession::Done <==> error is None,
        error is Some && is_transient(error->0) ==> (after_session(attempts, error)
            == AfterSession::Retry <==> attempts < 9) && (after_session(attempts, error)
            == AfterSession::GiveUp <==> attempts >= 9),
        error is Some && !is_transient(error->0) ==> after_session(attempts, error)
            == AfterSession::Fatal,
{
}

/// The limits of the client: buffers, attempts and times.
pub proof fn law_client_limits()
    ensures
        CLIENT_THUNDERBOLT_BUFFER == 64 * 1024 * 1024,
        PING_ATTEMPTS == 10,
        KEYFRAME_INTERVAL_NS == 1_000_000_000,
        REPORT_INTERVAL_NS == 2 * KEYFRAME_INTERVAL_NS,
        SEARCH_TIMEOUT_NS == 10 * KEYFRAME_INTERVAL_NS,
        DECODE_SAMPLES == 60,
        MAX_RECONNECT_ATTEMPTS == 10,
        RECONNECT_DELAY_MS == 2000,
{
}

/// There is room for every packet that is no video or cannot be read, and for one of
/// a frame whose number can be counted.
pub proof fn law_room_is_left_for_frames(c: VideoReceiver, header: PacketHeader, data: Seq<u8>)
    ensures
        header.packet_type != PacketType::Video ==> c.has_room(header, data),
        data.len() < 33 || data[16] > 1 ==> c.has_room(header, data),
        c.counts.received < u64::MAX && c.counts.dropped == 0 && VideoFrameHeader::decoded(
            frame_head(data),
        ).frame_number < u64::MAX ==> c.has_room(header, data),
{
}

} // verus!
