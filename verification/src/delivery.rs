//! What arrives of a video frame that was sent in fragments.
use crate::fragments::{
    after_arrivals, all_filled, covers, in_range, joined, law_all_arrivals_give_the_frame,
    law_arrivals_fill_their_slots, law_missing_fragment_keeps_frame_open, lemma_one_more_arrival,
};
use crate::headers::{law_video_header_reads_back, lemma_packet_header_fields};
use crate::protocol::{PacketType, VideoFrameHeader};
use crate::udp::{
    chunk, chunk_count, chunks, fragment_header, fragment_payload, header_for, is_video_packet,
    law_chunks_rejoin, law_packet_is_accepted, packet_bytes, pending_after, pending_with, receive,
    sorted, still_wanted, Arrival, PendingView, Reception,
};
use vstd::arithmetic::div_mod::lemma_fundamental_div_mod;
use vstd::prelude::*;

verus! {

/// A frame that a sender sent, in fragments of up to `size` bytes.
pub struct SentFrame {
    pub frame_number: u64,
    pub data: Seq<u8>,
    pub size: nat,
    pub pts_us: u64,
    pub is_keyframe: bool,
}

impl SentFrame {
    /// Whether the fragments can be numbered.
    pub open spec fn is_sendable(self) -> bool {
        self.size > 0 && self.count() <= u16::MAX
    }

    /// Number of fragments.
    pub open spec fn count(self) -> nat {
        chunk_count(self.data.len(), self.size)
    }

    /// The frame header of fragment `i`.
    pub open spec fn header(self, i: int) -> VideoFrameHeader {
        fragment_header(
            self.frame_number,
            self.data.len(),
            self.size,
            self.pts_us,
            self.is_keyframe,
            i,
        )
    }

    /// The contents of the packet that carries fragment `i`.
    pub open spec fn payload(self, i: int) -> Seq<u8> {
        fragment_payload(
            self.frame_number,
            self.data,
            self.size,
            self.pts_us,
            self.is_keyframe,
            i,
        )
    }

    /// The bytes of fragment `i`.
    pub open spec fn chunk(self, i: int) -> Seq<u8> {
        chunk(self.data, self.size, i)
    }

    /// What a receiver knows of the frame after fragments came in whose indices
    /// are `order`.
    pub open spec fn pending(self, order: Seq<int>) -> PendingView {
        PendingView {
            fragments: after_arrivals(chunks(self.data, self.size), order),
            total_size: (self.data.len() as u32) as nat,
            pts_us: self.pts_us,
            is_keyframe: self.is_keyframe && order[0] == 0,
        }
    }

    /// Whether a receiver with pending frames `m` holds exactly those fragments of
    /// the frame whose indices are in `order`, the order in which they came.
    pub open spec fn is_held(self, m: Map<u64, PendingView>, order: Seq<int>) -> bool {
        if order.len() == 0 {
            !m.contains_key(self.frame_number)
        } else {
            m.contains_key(self.frame_number) && m[self.frame_number] == self.pending(order)
        }
    }
}

/// Every fragment that is sent is understood by the receiver: it reads the header
/// that was sent and takes the chunk for the contents.
pub proof fn law_fragment_is_understood(f: SentFrame, i: int)
    requires
        f.is_sendable(),
        0 <= i < f.count(),
    ensures
        ({
            let p = f.payload(i);
            let head = p.take(VideoFrameHeader::ENCODED_SIZE as int);
            &&& p.len() >= VideoFrameHeader::ENCODED_SIZE
            &&& VideoFrameHeader::read_error(head) is None
            &&& VideoFrameHeader::decoded(head) == f.header(i)
            &&& p.skip(VideoFrameHeader::ENCODED_SIZE as int) == f.chunk(i)
        }),
{
    broadcast use crate::bytes::lemma_le_bytes_len;

    let p = f.payload(i);
    let h = f.header(i);
    assert(h.encoding().len() == 33);
    law_video_header_reads_back(h, Seq::empty());
    assert(p.take(33) =~= h.encoding() + Seq::<u8>::empty());
    assert(p.skip(33) =~= f.chunk(i));
}

/// The datagram that carries a fragment, whatever its sequence number and its time,
/// is taken for that fragment.
pub proof fn law_sent_datagram_is_a_fragment(f: SentFrame, i: int, d: Seq<u8>, sequence: u64)
    requires
        f.is_sendable(),
        0 <= i < f.count(),
        is_video_packet(d, sequence, f.payload(i)),
    ensures
        sorted(d) == Arrival::Fragment(f.header(i), f.chunk(i)),
{
    let t = choose|t: u64|
        d == #[trigger] packet_bytes(PacketType::Video, sequence, t, f.payload(i));
    let h = header_for(PacketType::Video, sequence, t, f.payload(i));
    law_packet_is_accepted(PacketType::Video, sequence, t, f.payload(i));
    lemma_packet_header_fields(h);
    law_fragment_is_understood(f, i);
}

/// A packet of another kind is passed over.
pub proof fn law_other_packets_are_passed_over(
    packet_type: PacketType,
    sequence: u64,
    timestamp_us: u64,
    data: Seq<u8>,
)
    requires
        packet_type != PacketType::Video,
    ensures
        sorted(packet_bytes(packet_type, sequence, timestamp_us, data)) == Arrival::Ignored,
{
    law_packet_is_accepted(packet_type, sequence, timestamp_us, data);
    lemma_packet_header_fields(header_for(packet_type, sequence, timestamp_us, data));
}

/// While a fragment of a frame is missing, the receiver holds each one that comes
/// with those that came before, and hands nothing out. The other pending frames
/// stay as they are.
pub proof fn law_incomplete_frame_is_held(
    m: Map<u64, PendingView>,
    f: SentFrame,
    order: Seq<int>,
    i: int,
    missing: int,
)
    requires
        f.is_sendable(),
        f.is_held(m, order),
        in_range(order, f.count()),
        0 <= i < f.count(),
        0 <= missing < f.count(),
        !order.contains(missing),
        i != missing,
    ensures
        !all_filled(pending_with(m, f.header(i), f.chunk(i)).fragments),
        f.is_held(pending_after(m, f.header(i), f.chunk(i)), order.push(i)),
        pending_after(m, f.header(i), f.chunk(i)) == m.insert(
            f.frame_number,
            f.pending(order.push(i)),
        ),
{
    let c = chunks(f.data, f.size);
    lemma_one_more_arrival(c, order, i);
    assert(!order.push(i).contains(missing));
    law_missing_fragment_keeps_frame_open(c, order.push(i), missing);
    assert(c[i] == f.chunk(i));
    let p = pending_with(m, f.header(i), f.chunk(i));
    assert(p.fragments =~= after_arrivals(c, order.push(i)));
    assert(p == f.pending(order.push(i)));
}

/// When the last missing fragment of a frame comes in, in whatever order and
/// with whatever repetitions the others came before, the receiver has all of
/// them, and joined in order they are the frame that was sent, byte for byte. The
/// frame counts as a keyframe exactly if it is one and its first fragment came
/// first.
pub proof fn law_complete_frame_is_handed_out(
    m: Map<u64, PendingView>,
    f: SentFrame,
    order: Seq<int>,
    i: int,
)
    requires
        f.is_sendable(),
        f.is_held(m, order),
        in_range(order, f.count()),
        0 <= i < f.count(),
        covers(order.push(i), f.count()),
    ensures
        ({
            let p = pending_with(m, f.header(i), f.chunk(i));
            &&& all_filled(p.fragments)
            &&& joined(p.fragments) == f.data
            &&& p.pts_us == f.pts_us
            &&& p.is_keyframe == (f.is_keyframe && order.push(i)[0] == 0)
        }),
{
    let c = chunks(f.data, f.size);
    lemma_one_more_arrival(c, order, i);
    law_all_arrivals_give_the_frame(c, order.push(i));
    law_chunks_rejoin(f.data, f.size);
    assert(c[i] == f.chunk(i));
    let p = pending_with(m, f.header(i), f.chunk(i));
    assert(p.fragments =~= after_arrivals(c, order.push(i)));
}

/// A fragment that adds nothing to a frame leaves what the receiver holds of it as
/// it is: a fragment of another frame, as long as it completes none that makes this
/// one outdated, and a fragment with this frame's number whose index is out of range
/// or whose place is taken, whatever its contents. The first contents of a place
/// stay.
pub proof fn law_other_fragments_change_nothing(
    m: Map<u64, PendingView>,
    f: SentFrame,
    order: Seq<int>,
    missing: int,
    h: VideoFrameHeader,
    data: Seq<u8>,
)
    requires
        f.is_sendable(),
        f.is_held(m, order),
        in_range(order, f.count()),
        0 <= missing < f.count(),
        !order.contains(missing),
        h.frame_number != f.frame_number ==> !all_filled(pending_with(m, h, data).fragments)
            || still_wanted(f.frame_number, h.frame_number),
        h.frame_number == f.frame_number ==> order.len() > 0 && (h.fragment_index >= f.count()
            || order.contains(h.fragment_index as int)),
    ensures
        f.is_held(pending_after(m, h, data), order),
        h.frame_number == f.frame_number ==> !all_filled(pending_with(m, h, data).fragments),
{
    let c = chunks(f.data, f.size);
    law_arrivals_fill_their_slots(c, order);
    if h.frame_number == f.frame_number {
        law_missing_fragment_keeps_frame_open(c, order, missing);
        let i = h.fragment_index as int;
        if i < c.len() {
            assert(after_arrivals(c, order)[i] is Some);
        }
        assert(pending_with(m, h, data) == f.pending(order));
    }
}

/// The indices of the fragments among what came in.
pub open spec fn indices(tags: Seq<Option<int>>) -> Seq<int>
    decreases tags.len(),
{
    if tags.len() == 0 {
        Seq::empty()
    } else {
        match tags[0] {
            Some(i) => seq![i] + indices(tags.skip(1)),
            None => indices(tags.skip(1)),
        }
    }
}

/// Whether the datagrams `ds` are fragments of a frame, with other packets in
/// between: a tag gives the index of a fragment, and is empty for a packet that the
/// receiver passes over. Sequence numbers and times do not matter.
pub open spec fn carry(ds: Seq<Seq<u8>>, f: SentFrame, tags: Seq<Option<int>>) -> bool {
    &&& ds.len() == tags.len()
    &&& forall|k: int|
        0 <= k < ds.len() ==> match #[trigger] tags[k] {
            Some(i) => 0 <= i < f.count() && exists|sequence: u64| #[trigger]
                is_video_packet(ds[k], sequence, f.payload(i)),
            None => sorted(ds[k]) == Arrival::Ignored,
        }
}

proof fn lemma_rest_is_received(
    m: Map<u64, PendingView>,
    f: SentFrame,
    ds: Seq<Seq<u8>>,
    tags: Seq<Option<int>>,
    order: Seq<int>,
)
    requires
        f.is_sendable(),
        f.is_held(m, order),
        in_range(order, f.count()),
        !covers(order, f.count()),
        carry(ds, f, tags),
        covers(order + indices(tags), f.count()),
    ensures
        receive(m, ds).result == (Reception::Frame {
            data: f.data,
            pts_us: f.pts_us,
            is_keyframe: f.is_keyframe && (order + indices(tags))[0] == 0,
        }),
    decreases ds.len(),
{
    if ds.len() == 0 {
        assert(order + indices(tags) =~= order);
    } else {
        let rest = ds.skip(1);
        let rest_tags = tags.skip(1);
        assert(carry(rest, f, rest_tags)) by {
            assert forall|k: int| 0 <= k < rest.len() implies match #[trigger] rest_tags[k] {
                Some(i) => 0 <= i < f.count() && exists|sequence: u64| #[trigger]
                    is_video_packet(rest[k], sequence, f.payload(i)),
                None => sorted(rest[k]) == Arrival::Ignored,
            } by {
                assert(rest_tags[k] == tags[k + 1]);
                assert(rest[k] == ds[k + 1]);
            }
        }
        match tags[0] {
            None => {
                lemma_rest_is_received(m, f, rest, rest_tags, order);
            },
            Some(i) => {
                let sequence = choose|sequence: u64| #[trigger]
                    is_video_packet(ds[0], sequence, f.payload(i));
                law_sent_datagram_is_a_fragment(f, i, ds[0], sequence);
                let next = order.push(i);
                assert(order + indices(tags) =~= next + indices(rest_tags));
                assert((order + indices(tags))[0] == next[0]);
                if covers(next, f.count()) {
                    law_complete_frame_is_handed_out(m, f, order, i);
                } else {
                    let missing = choose|j: int| 0 <= j < f.count() && !next.contains(j);
                    assert(!order.contains(missing)) by {
                        if order.contains(missing) {
                            let k = choose|k: int| 0 <= k < order.len() && order[k] == missing;
                            assert(next[k] == missing);
                        }
                    }
                    assert(next[order.len() as int] == i);
                    law_incomplete_frame_is_held(m, f, order, i, missing);
                    lemma_one_more_arrival(chunks(f.data, f.size), order, i);
                    lemma_rest_is_received(
                        pending_after(m, f.header(i), f.chunk(i)),
                        f,
                        rest,
                        rest_tags,
                        next,
                    );
                }
            },
        }
    }
}

/// A frame that is sent is received: where the datagrams that were read are those
/// of its fragments, in whatever order and with whatever repetitions, and packets of
/// other kinds in between, and nothing of the frame had come before, the receiver
/// gets the bytes that were sent and their presentation time. The frame counts as a
/// keyframe exactly if it is one and its first fragment came first.
pub proof fn law_sent_frame_is_received(
    m: Map<u64, PendingView>,
    f: SentFrame,
    ds: Seq<Seq<u8>>,
    tags: Seq<Option<int>>,
)
    requires
        f.is_sendable(),
        f.data.len() > 0,
        !m.contains_key(f.frame_number),
        carry(ds, f, tags),
        covers(indices(tags), f.count()),
    ensures
        receive(m, ds).result == (Reception::Frame {
            data: f.data,
            pts_us: f.pts_us,
            is_keyframe: f.is_keyframe && indices(tags)[0] == 0,
        }),
{
    lemma_fundamental_div_mod(f.data.len() as int, f.size as int);
    assert(f.size * 0 == 0);
    assert(f.count() > 0);
    assert(Seq::<int>::empty() + indices(tags) =~= indices(tags));
    assert(!Seq::<int>::empty().contains(0));
    lemma_rest_is_received(m, f, ds, tags, Seq::empty());
}

} // verus!
