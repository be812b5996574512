//! UDP channel for low-latency streaming: packets, and video frames in
//! fragments. Sockets are the caller's; this module says what goes into a
//! datagram and what a received one means.
use crate::error::{BridgeError, BridgeResult, WireError};
use crate::fragments::{all_filled, concat, joined, no_fragments, stored, FragmentSlots};
use crate::headers::{law_packet_header_reads_back, lemma_packet_header_fields};
use crate::net::SocketAddress;
use crate::protocol::{PacketHeader, PacketType, VideoFrameHeader, MAGIC, PROTOCOL_VERSION};
use crate::types::now_us;
use crate::wire::int_at;
use std::collections::HashMap;
use vstd::arithmetic::div_mod::lemma_fundamental_div_mod;
use vstd::prelude::*;
use vstd::slice::{slice_subrange, slice_to_vec};
use vstd::std_specs::iter::IteratorSpec;
use vstd::string::StringExecFns;

verus! {

broadcast use vstd::std_specs::hash::group_hash_axioms;

/// The header of a packet with the given contents.
pub open spec fn header_for(
    packet_type: PacketType,
    sequence: u64,
    timestamp_us: u64,
    data: Seq<u8>,
) -> PacketHeader {
    PacketHeader {
        magic: MAGIC,
        version: PROTOCOL_VERSION,
        packet_type,
        sequence,
        timestamp_us,
        payload_len: data.len() as u32,
    }
}

/// The bytes of a packet: its header, then its contents.
pub open spec fn packet_bytes(
    packet_type: PacketType,
    sequence: u64,
    timestamp_us: u64,
    data: Seq<u8>,
) -> Seq<u8> {
    header_for(packet_type, sequence, timestamp_us, data).encoding() + data
}

/// Whether `e` is a protocol error with the given detail.
pub open spec fn is_protocol_error(e: BridgeError, detail: Seq<char>) -> bool {
    e matches BridgeError::Protocol(m) && m@ == detail
}

/// Whether `e` reports the wire error `w`.
pub open spec fn is_wire_error(e: BridgeError, w: WireError) -> bool {
    e matches BridgeError::Serialization(m) && m@ == w.text()
}

/// State of a channel for low-latency data transfer.
#[derive(Debug, Clone, Copy, PartialEq, Eq, Structural)]
pub struct UdpChannel {
    /// Where packets go, once known.
    pub remote_addr: Option<SocketAddress>,
    /// Longest datagram that is received whole.
    pub max_packet_size: usize,
    /// Sequence number of the next packet.
    pub send_sequence: u64,
}

impl UdpChannel {
    /// A channel bound to a local port (server mode): the remote address is not
    /// known yet.
    pub fn bind(max_packet_size: usize) -> (c: Self)
        ensures
            c == (UdpChannel { remote_addr: None, max_packet_size, send_sequence: 0 }),
    {
        UdpChannel { remote_addr: None, max_packet_size, send_sequence: 0 }
    }

    /// A channel to a remote address (client mode).
    pub fn connect(remote_addr: SocketAddress, max_packet_size: usize) -> (c: Self)
        ensures
            c == (UdpChannel { remote_addr: Some(remote_addr), max_packet_size, send_sequence: 0 }),
    {
        UdpChannel { remote_addr: Some(remote_addr), max_packet_size, send_sequence: 0 }
    }

    /// Set the remote address (for server mode after receiving first packet).
    pub fn set_remote_addr(&mut self, addr: SocketAddress)
        ensures
            *final(self) == (UdpChannel { remote_addr: Some(addr), ..*old(self) }),
    {
        self.remote_addr = Some(addr);
    }

    /// Try to receive without blocking. Nothing is ever received this way.
    pub fn try_recv(&mut self) -> (r: BridgeResult<Option<(PacketHeader, Vec<u8>)>>)
        ensures
            r matches Ok(None),
            *final(self) == *old(self),
    {
        Ok(None)
    }

    /// The packet that carries `data`, stamped with the given time.
    pub fn packet_at(&mut self, packet_type: PacketType, data: &[u8], timestamp_us: u64) -> (r:
        BridgeResult<Vec<u8>>)
        requires
            old(self).send_sequence < u64::MAX,
        ensures
            r matches Ok(p) && p@ == packet_bytes(
                packet_type,
                old(self).send_sequence,
                timestamp_us,
                data@,
            ),
            *final(self) == (UdpChannel {
                send_sequence: (old(self).send_sequence + 1) as u64,
                ..*old(self)
            }),
    {
        let header = PacketHeader::at_time(
            packet_type,
            self.send_sequence,
            data.len() as u32,
            timestamp_us,
        );
        self.send_sequence += 1;
        match header.to_bytes() {
            Ok(bytes) => {
                let mut packet = bytes;
                packet.extend_from_slice(data);
                assert(packet@ =~= packet_bytes(
                    packet_type,
                    old(self).send_sequence,
                    timestamp_us,
                    data@,
                ));
                Ok(packet)
            },
            Err(e) => Err(e.into_bridge_error()),
        }
    }

    /// The packet that carries `data`, stamped with the current time.
    pub fn packet(&mut self, packet_type: PacketType, data: &[u8]) -> (r: BridgeResult<Vec<u8>>)
        requires
            old(self).send_sequence < u64::MAX,
        ensures
            r matches Ok(p) && exists|t: u64|
                p@ == #[trigger] packet_bytes(packet_type, old(self).send_sequence, t, data@),
            *final(self) == (UdpChannel {
                send_sequence: (old(self).send_sequence + 1) as u64,
                ..*old(self)
            }),
    {
        let t: u64 = now_us();
        self.packet_at(packet_type, data, t)
    }

    /// Takes in a datagram: checks its header and hands out header and contents.
    /// The first sender becomes the remote address where none is set.
    pub fn accept(&mut self, datagram: &[u8], from: SocketAddress) -> (r: BridgeResult<
        (PacketHeader, Vec<u8>),
    >)
        ensures
            *final(self) == (UdpChannel {
                remote_addr: Some(
                    match old(self).remote_addr {
                        Some(a) => a,
                        None => from,
                    },
                ),
                ..*old(self)
            }),
            ({
                let head = datagram@.take(PacketHeader::SIZE as int);
                match r {
                    Ok((h, d)) => datagram@.len() >= PacketHeader::SIZE && PacketHeader::read_error(
                        head,
                    ) is None && h.encoding() == head && h.is_current() && d@ == datagram@.skip(
                        PacketHeader::SIZE as int,
                    ),
                    Err(e) => {
                        ||| datagram@.len() < PacketHeader::SIZE && is_protocol_error(
                            e,
                            "Packet too small"@,
                        )
                        ||| datagram@.len() >= PacketHeader::SIZE && PacketHeader::read_error(
                            head,
                        ) is Some && is_wire_error(e, PacketHeader::read_error(head)->0)
                        ||| datagram@.len() >= PacketHeader::SIZE && PacketHeader::read_error(
                            head,
                        ) is None && !PacketHeader::current_at(head) && is_protocol_error(
                            e,
                            "Invalid packet header"@,
                        )
                    },
                }
            }),
    {
        if self.remote_addr.is_none() {
            self.remote_addr = Some(from);
        }
        if datagram.len() < PacketHeader::SIZE {
            return Err(BridgeError::Protocol(String::from_str("Packet too small")));
        }
        let head = slice_subrange(datagram, 0, PacketHeader::SIZE);
        assert(head@ =~= datagram@.take(PacketHeader::SIZE as int));
        let header = match PacketHeader::from_bytes(head) {
            Ok(h) => h,
            Err(e) => {
                return Err(e.into_bridge_error());
            },
        };
        assert(head@.take(PacketHeader::SIZE as int) =~= head@);
        if !header.is_valid() {
            proof {
                lemma_packet_header_fields(header);
            }
            return Err(BridgeError::Protocol(String::from_str("Invalid packet header")));
        }
        let body = slice_subrange(datagram, PacketHeader::SIZE, datagram.len());
        assert(body@ =~= datagram@.skip(PacketHeader::SIZE as int));
        Ok((header, slice_to_vec(body)))
    }
}

/// A packet that one channel makes is accepted by another, which gets its header
/// and its contents back, whatever the contents are.
pub proof fn law_packet_is_accepted(
    packet_type: PacketType,
    sequence: u64,
    timestamp_us: u64,
    data: Seq<u8>,
)
    ensures
        ({
            let d = packet_bytes(packet_type, sequence, timestamp_us, data);
            let h = header_for(packet_type, sequence, timestamp_us, data);
            &&& d.len() >= PacketHeader::SIZE
            &&& d.take(PacketHeader::SIZE as int) == h.encoding()
            &&& PacketHeader::read_error(d.take(PacketHeader::SIZE as int)) is None
            &&& h.is_current()
            &&& d.skip(PacketHeader::SIZE as int) == data
            &&& forall|g: PacketHeader| #[trigger]
                g.encoding() == d.take(PacketHeader::SIZE as int) ==> g.packet_type == packet_type
                    && g.sequence == sequence && g.timestamp_us == timestamp_us && g.payload_len
                    == h.payload_len
        }),
{
    let h = header_for(packet_type, sequence, timestamp_us, data);
    let d = packet_bytes(packet_type, sequence, timestamp_us, data);
    law_packet_header_reads_back(h, Seq::empty());
    assert(h.encoding() + Seq::<u8>::empty() =~= h.encoding());
    assert(h.encoding().len() == 32) by {
        broadcast use crate::bytes::lemma_le_bytes_len;

    }
    assert(d.take(32) =~= h.encoding());
    assert(d.skip(32) =~= data);
    assert forall|g: PacketHeader| #[trigger] g.encoding() == d.take(32) implies g.packet_type
        == packet_type && g.sequence == sequence && g.timestamp_us == timestamp_us && g.payload_len
        == h.payload_len by {
        crate::headers::law_packet_header_encoding_is_injective(g, h);
    }
}

/// Number of chunks of at most `size` bytes that `len` bytes take.
pub open spec fn chunk_count(len: nat, size: nat) -> nat {
    (len / size + if len % size == 0 {
        0nat
    } else {
        1nat
    }) as nat
}

/// The `i`th chunk of `size` bytes; the last may be shorter.
pub open spec fn chunk(data: Seq<u8>, size: nat, i: int) -> Seq<u8> {
    data.subrange(
        i * size,
        if (i + 1) * size < data.len() {
            (i + 1) * size
        } else {
            data.len() as int
        },
    )
}

/// All chunks of `size` bytes.
pub open spec fn chunks(data: Seq<u8>, size: nat) -> Seq<Seq<u8>> {
    Seq::new(chunk_count(data.len(), size), |i: int| chunk(data, size, i))
}

/// The chunk count is the length over the size, rounded up.
pub proof fn lemma_chunk_bounds(len: nat, size: nat, i: int)
    requires
        size > 0,
        0 <= i < chunk_count(len, size),
    ensures
        0 <= i * size < len,
        i * size < (i + 1) * size,
        (i + 1) * size <= i * size + size,
{
    lemma_fundamental_div_mod(len as int, size as int);
    let q = (len / size) as int;
    assert(i <= q);
    assert(i * size <= q * size) by (nonlinear_arith)
        requires
            0 <= i <= q,
            size > 0,
    ;
    assert(size * q == q * size) by (nonlinear_arith);
    assert((i + 1) * size == i * size + size) by (nonlinear_arith);
    assert(i * size >= 0) by (nonlinear_arith)
        requires
            i >= 0,
            size > 0,
    ;
    if len % size == 0 {
        assert(i < q);
        assert((i + 1) * size <= q * size) by (nonlinear_arith)
            requires
                i + 1 <= q,
                size > 0,
        ;
    }
}

/// The first `n` chunks make up the first `n * size` bytes.
proof fn lemma_chunks_prefix(data: Seq<u8>, size: nat, n: nat)
    requires
        size > 0,
        n <= chunk_count(data.len(), size),
    ensures
        concat(chunks(data, size).take(n as int)) == data.take(
            if n * size < data.len() {
                (n * size) as int
            } else {
                data.len() as int
            },
        ),
    decreases n,
{
    let c = chunks(data, size);
    if n == 0 {
        assert(c.take(0).len() == 0);
        assert(data.take(0) =~= Seq::empty());
        assert(0 * size == 0);
    } else {
        let m = (n - 1) as nat;
        lemma_chunks_prefix(data, size, m);
        lemma_chunk_bounds(data.len(), size, m as int);
        assert(c.take(n as int).drop_last() =~= c.take(m as int));
        assert(c.take(n as int).last() == chunk(data, size, m as int));
        let end = if n * size < data.len() {
            (n * size) as int
        } else {
            data.len() as int
        };
        assert(data.take((m * size) as int) + chunk(data, size, m as int) =~= data.take(end));
    }
}

/// The chunks of a frame, one after the other, are the frame.
pub proof fn law_chunks_rejoin(data: Seq<u8>, size: nat)
    requires
        size > 0,
    ensures
        concat(chunks(data, size)) == data,
        forall|i: int| 0 <= i < chunks(data, size).len() ==> 0 < (#[trigger] chunks(data, size)[i]).len() <= size,
{
    let n = chunk_count(data.len(), size);
    lemma_chunks_prefix(data, size, n);
    assert(chunks(data, size).take(n as int) =~= chunks(data, size));
    lemma_fundamental_div_mod(data.len() as int, size as int);
    let q = (data.len() / size) as int;
    assert(size * q == q * size) by (nonlinear_arith);
    assert((q + 1) * size == q * size + size) by (nonlinear_arith);
    assert(data.take(data.len() as int) =~= data);
    assert forall|i: int| 0 <= i < chunks(data, size).len() implies 0 < (#[trigger] chunks(
        data,
        size,
    )[i]).len() <= size by {
        lemma_chunk_bounds(data.len(), size, i);
    }
}

/// Number of chunks of at most `size` bytes that `len` bytes take.
pub fn count_chunks(len: usize, size: usize) -> (n: usize)
    requires
        size > 0,
    ensures
        n == chunk_count(len as nat, size as nat),
{
    let q: usize = len / size;
    if len % size == 0 {
        q
    } else {
        proof {
            lemma_fundamental_div_mod(len as int, size as int);
            assert(q < usize::MAX) by (nonlinear_arith)
                requires
                    len == size * q + len % size,
                    len % size > 0,
                    size >= 1,
                    len <= usize::MAX,
            ;
        }
        q + 1
    }
}

/// The `i`th chunk of `size` bytes.
pub fn nth_chunk(data: &[u8], size: usize, i: usize) -> (c: &[u8])
    requires
        size > 0,
        i < chunk_count(data@.len(), size as nat),
    ensures
        c@ == chunk(data@, size as nat, i as int),
{
    let len: usize = data.len();
    proof {
        lemma_chunk_bounds(data@.len(), size as nat, i as int);
        assert((i + 1) * size == i * size + size) by (nonlinear_arith);
    }
    let start: usize = i * size;
    let end: usize = if len - start > size {
        start + size
    } else {
        len
    };
    slice_subrange(data, start, end)
}

/// The frame header of fragment `i` of a frame of `len` bytes.
pub open spec fn fragment_header(
    frame_number: u64,
    len: nat,
    size: nat,
    pts_us: u64,
    is_keyframe: bool,
    i: int,
) -> VideoFrameHeader {
    VideoFrameHeader {
        frame_number,
        pts_us,
        is_keyframe: is_keyframe && i == 0,
        frame_size: len as u32,
        fragment_index: i as u16,
        fragment_count: chunk_count(len, size) as u16,
        width: 0,
        height: 0,
    }
}

/// The contents of the packet that carries fragment `i`: frame header and chunk.
pub open spec fn fragment_payload(
    frame_number: u64,
    data: Seq<u8>,
    size: nat,
    pts_us: u64,
    is_keyframe: bool,
    i: int,
) -> Seq<u8> {
    fragment_header(frame_number, data.len(), size, pts_us, is_keyframe, i).encoding() + chunk(
        data,
        size,
        i,
    )
}

/// Whether `p` is the video packet of the given number and contents, stamped
/// with some time.
pub open spec fn is_video_packet(p: Seq<u8>, sequence: u64, payload: Seq<u8>) -> bool {
    exists|t: u64| p == #[trigger] packet_bytes(PacketType::Video, sequence, t, payload)
}

/// Video frame sender that handles fragmentation.
#[derive(Debug, Clone, Copy, PartialEq, Eq, Structural)]
pub struct FrameSender {
    /// The channel that the packets go through.
    pub channel: UdpChannel,
    /// Number of the next frame.
    pub frame_number: u64,
    /// Longest chunk of a frame that goes into one packet.
    pub fragment_size: usize,
}

impl FrameSender {
    /// A sender on a channel. Chunks leave room for the headers in a packet.
    pub fn new(channel: UdpChannel) -> (s: Self)
        requires
            channel.max_packet_size >= PacketHeader::SIZE + 64,
        ensures
            s == (FrameSender {
                channel,
                frame_number: 0,
                fragment_size: (channel.max_packet_size - PacketHeader::SIZE - 64) as usize,
            }),
    {
        let fragment_size: usize = channel.max_packet_size - PacketHeader::SIZE - 64;
        FrameSender { channel, frame_number: 0, fragment_size }
    }

    /// Number of fragments of a frame of `len` bytes.
    pub fn fragment_count(&self, len: usize) -> (n: usize)
        requires
            self.fragment_size > 0,
        ensures
            n == chunk_count(len as nat, self.fragment_size as nat),
    {
        count_chunks(len, self.fragment_size)
    }

    /// The packet of fragment `i` of a frame.
    pub fn fragment(&mut self, data: &[u8], pts_us: u64, is_keyframe: bool, i: usize) -> (r:
        BridgeResult<Vec<u8>>)
        requires
            old(self).fragment_size > 0,
            old(self).channel.send_sequence < u64::MAX,
            i < chunk_count(data@.len(), old(self).fragment_size as nat),
        ensures
            *final(self) == (FrameSender {
                channel: UdpChannel {
                    send_sequence: (old(self).channel.send_sequence + 1) as u64,
                    ..old(self).channel
                },
                ..*old(self)
            }),
            r matches Ok(p) && is_video_packet(
                p@,
                old(self).channel.send_sequence,
                fragment_payload(
                    old(self).frame_number,
                    data@,
                    old(self).fragment_size as nat,
                    pts_us,
                    is_keyframe,
                    i as int,
                ),
            ),
    {
        let size: usize = self.fragment_size;
        let count: usize = self.fragment_count(data.len());
        let header = VideoFrameHeader {
            frame_number: self.frame_number,
            pts_us,
            is_keyframe: is_keyframe && i == 0,
            frame_size: data.len() as u32,
            fragment_index: i as u16,
            fragment_count: count as u16,
            width: 0,
            height: 0,
        };
        let mut payload = header.to_bytes();
        payload.extend_from_slice(nth_chunk(data, size, i));
        assert(payload@ =~= fragment_payload(
            old(self).frame_number,
            data@,
            size as nat,
            pts_us,
            is_keyframe,
            i as int,
        ));
        self.channel.packet(PacketType::Video, payload.as_slice())
    }

    /// Counts a frame whose fragments were all sent.
    pub fn finish_frame(&mut self)
        requires
            old(self).frame_number < u64::MAX,
        ensures
            *final(self) == (FrameSender {
                frame_number: (old(self).frame_number + 1) as u64,
                ..*old(self)
            }),
    {
        self.frame_number += 1;
    }

    /// All packets of a video frame, in the order in which they are sent.
    pub fn send_frame(&mut self, data: &[u8], pts_us: u64, is_keyframe: bool) -> (r: BridgeResult<
        Vec<Vec<u8>>,
    >)
        requires
            old(self).fragment_size > 0,
            old(self).frame_number < u64::MAX,
            old(self).channel.send_sequence + chunk_count(
                data@.len(),
                old(self).fragment_size as nat,
            ) <= u64::MAX,
        ensures
            ({
                let n = chunk_count(data@.len(), old(self).fragment_size as nat);
                &&& *final(self) == (FrameSender {
                    channel: UdpChannel {
                        send_sequence: (old(self).channel.send_sequence + n) as u64,
                        ..old(self).channel
                    },
                    frame_number: (old(self).frame_number + 1) as u64,
                    ..*old(self)
                })
                &&& r is Ok
                &&& r->Ok_0@.len() == n
                &&& forall|i: int|
                    0 <= i < n ==> is_video_packet(
                        (#[trigger] r->Ok_0@[i])@,
                        (old(self).channel.send_sequence + i) as u64,
                        fragment_payload(
                            old(self).frame_number,
                            data@,
                            old(self).fragment_size as nat,
                            pts_us,
                            is_keyframe,
                            i,
                        ),
                    )
            }),
    {
        let mut packets: Vec<Vec<u8>> = Vec::new();
        let count: usize = self.fragment_count(data.len());
        let mut i: usize = 0;
        while i < count
            invariant
                i <= count,
                old(self).fragment_size > 0,
                old(self).frame_number < u64::MAX,
                count == chunk_count(data@.len(), old(self).fragment_size as nat),
                old(self).channel.send_sequence + count <= u64::MAX,
                *self == (FrameSender {
                    channel: UdpChannel {
                        send_sequence: (old(self).channel.send_sequence + i) as u64,
                        ..old(self).channel
                    },
                    ..*old(self)
                }),
                packets@.len() == i,
                forall|k: int|
                    0 <= k < i ==> is_video_packet(
                        (#[trigger] packets@[k])@,
                        (old(self).channel.send_sequence + k) as u64,
                        fragment_payload(
                            old(self).frame_number,
                            data@,
                            old(self).fragment_size as nat,
                            pts_us,
                            is_keyframe,
                            k,
                        ),
                    ),
            decreases count - i,
        {
            match self.fragment(data, pts_us, is_keyframe, i) {
                Ok(p) => packets.push(p),
                Err(e) => {
                    return Err(e);
                },
            }
            i += 1;
        }
        self.finish_frame();
        Ok(packets)
    }
}

/// A frame of which some fragments have come.
pub struct PendingFrame {
    fragments: FragmentSlots,
    total_size: usize,
    pts_us: u64,
    is_keyframe: bool,
}

/// What is known of a frame of which some fragments have come.
pub struct PendingView {
    pub fragments: Seq<Option<Seq<u8>>>,
    pub total_size: nat,
    pub pts_us: u64,
    pub is_keyframe: bool,
}

impl View for PendingFrame {
    type V = PendingView;

    closed spec fn view(&self) -> PendingView {
        PendingView {
            fragments: self.fragments@,
            total_size: self.total_size as nat,
            pts_us: self.pts_us,
            is_keyframe: self.is_keyframe,
        }
    }
}

/// The state of a frame before the first fragment of header `h` is stored.
pub open spec fn pending_or_new(m: Map<u64, PendingView>, h: VideoFrameHeader) -> PendingView {
    if m.contains_key(h.frame_number) {
        m[h.frame_number]
    } else {
        PendingView {
            fragments: no_fragments(h.fragment_count as nat),
            total_size: h.frame_size as nat,
            pts_us: h.pts_us,
            is_keyframe: h.is_keyframe,
        }
    }
}

/// The state of a frame after a fragment with header `h` came in.
pub open spec fn pending_with(m: Map<u64, PendingView>, h: VideoFrameHeader, data: Seq<u8>) -> PendingView {
    let p = pending_or_new(m, h);
    PendingView { fragments: stored(p.fragments, h.fragment_index as int, data), ..p }
}

/// Whether a pending frame is kept once frame `done` is complete: it is one of
/// the nine before it, or later. Frame zero is never kept.
pub open spec fn still_wanted(n: u64, done: u64) -> bool {
    n > if done >= 10 {
        done - 10
    } else {
        0
    }
}

/// The pending frames after a fragment with header `h` came in.
pub open spec fn pending_after(m: Map<u64, PendingView>, h: VideoFrameHeader, data: Seq<u8>) -> Map<
    u64,
    PendingView,
> {
    let p = pending_with(m, h, data);
    if all_filled(p.fragments) {
        Map::new(
            |n: u64| m.contains_key(n) && n != h.frame_number && still_wanted(n, h.frame_number),
            |n: u64| m[n],
        )
    } else {
        m.insert(h.frame_number, p)
    }
}

/// The pending frames by number, as values of the model.
pub open spec fn pending_model(m: Map<u64, PendingFrame>) -> Map<u64, PendingView> {
    m.map_values(|p: PendingFrame| p@)
}

/// The keys of a map, in some order.
pub(crate) fn keys_of<V>(m: &HashMap<u64, V>) -> (keys: Vec<u64>)
    ensures
        keys@.to_set() == m@.dom(),
{
    let mut keys: Vec<u64> = Vec::new();
    let ghost all = vstd::std_specs::hash::spec_keys_iter(m).remaining();
    for k in it: m.keys()
        invariant
            it.seq() == all,
            keys@.len() == it.index(),
            forall|i: int| 0 <= i < it.index() ==> #[trigger] keys@[i] == *all[i],
    {
        keys.push(*k);
    }
    assert(keys@ =~= all.unref());
    keys
}

/// A complete frame: its bytes, its presentation time, and whether its first
/// fragment to arrive was marked as a keyframe.
pub struct ReceivedFrame {
    pub data: Vec<u8>,
    pub pts_us: u64,
    pub is_keyframe: bool,
}

/// A datagram that was read, and who sent it.
pub struct Datagram {
    pub bytes: Vec<u8>,
    pub from: SocketAddress,
}

/// The bytes of datagrams.
pub open spec fn contents(ds: Seq<Datagram>) -> Seq<Seq<u8>> {
    ds.map_values(|d: Datagram| d.bytes@)
}

/// Why a datagram is refused.
pub enum Refusal {
    /// It is shorter than a packet header.
    TooSmall,
    /// Its packet header cannot be read.
    BadHeader(WireError),
    /// It is not of this protocol and version.
    NotCurrent,
    /// Its frame header cannot be read.
    BadFrameHeader(WireError),
}

/// What a datagram is to a receiver of video frames.
pub enum Arrival {
    /// Nothing that can be used: an error.
    Refused(Refusal),
    /// No fragment of a video frame: passed over.
    Ignored,
    /// A fragment, with its frame header.
    Fragment(VideoFrameHeader, Seq<u8>),
}

/// What the datagram `d` is to a receiver of video frames.
pub open spec fn sorted(d: Seq<u8>) -> Arrival {
    let head = d.take(PacketHeader::SIZE as int);
    let body = d.skip(PacketHeader::SIZE as int);
    let frame_head = body.take(VideoFrameHeader::ENCODED_SIZE as int);
    if d.len() < PacketHeader::SIZE {
        Arrival::Refused(Refusal::TooSmall)
    } else if PacketHeader::read_error(head) is Some {
        Arrival::Refused(Refusal::BadHeader(PacketHeader::read_error(head)->0))
    } else if !PacketHeader::current_at(head) {
        Arrival::Refused(Refusal::NotCurrent)
    } else if int_at(head, 8, 4) != PacketType::Video.place() || body.len()
        < VideoFrameHeader::ENCODED_SIZE {
        Arrival::Ignored
    } else if VideoFrameHeader::read_error(frame_head) is Some {
        Arrival::Refused(Refusal::BadFrameHeader(VideoFrameHeader::read_error(frame_head)->0))
    } else {
        Arrival::Fragment(
            VideoFrameHeader::decoded(frame_head),
            body.skip(VideoFrameHeader::ENCODED_SIZE as int),
        )
    }
}

/// Whether `e` is the error for a datagram that is refused.
pub open spec fn is_refusal(e: BridgeError, x: Refusal) -> bool {
    match x {
        Refusal::TooSmall => is_protocol_error(e, "Packet too small"@),
        Refusal::BadHeader(w) => is_wire_error(e, w),
        Refusal::NotCurrent => is_protocol_error(e, "Invalid packet header"@),
        Refusal::BadFrameHeader(w) => is_wire_error(e, w),
    }
}

/// What comes of reading datagrams.
pub enum Reception {
    /// No frame is complete yet.
    Waiting,
    /// A datagram was refused.
    Failed(Refusal),
    /// A frame is complete.
    Frame { data: Seq<u8>, pts_us: u64, is_keyframe: bool },
}

/// A receiver's state after reading datagrams.
pub struct Received {
    /// The pending frames.
    pub pending: Map<u64, PendingView>,
    /// How many datagrams were read.
    pub used: nat,
    /// What came of it.
    pub result: Reception,
}

/// What a receiver with pending frames `m` makes of the datagrams `ds`: it reads
/// them in order, up to the first that is refused or completes a frame.
pub open spec fn receive(m: Map<u64, PendingView>, ds: Seq<Seq<u8>>) -> Received
    decreases ds.len(),
{
    if ds.len() == 0 {
        Received { pending: m, used: 0, result: Reception::Waiting }
    } else {
        match sorted(ds[0]) {
            Arrival::Refused(x) => {
                Received { pending: m, used: 1, result: Reception::Failed(x) }
            },
            Arrival::Ignored => {
                let rest = receive(m, ds.skip(1));
                Received { used: rest.used + 1, ..rest }
            },
            Arrival::Fragment(h, data) => {
                let p = pending_with(m, h, data);
                let next = pending_after(m, h, data);
                if all_filled(p.fragments) {
                    Received {
                        pending: next,
                        used: 1,
                        result: Reception::Frame {
                            data: joined(p.fragments),
                            pts_us: p.pts_us,
                            is_keyframe: p.is_keyframe,
                        },
                    }
                } else {
                    let rest = receive(next, ds.skip(1));
                    Received { used: rest.used + 1, ..rest }
                }
            },
        }
    }
}

/// Whether `r` reports what came of reading datagrams.
pub open spec fn is_reception(r: BridgeResult<Option<ReceivedFrame>>, x: Reception) -> bool {
    match x {
        Reception::Waiting => r == Ok::<Option<ReceivedFrame>, BridgeError>(None),
        Reception::Failed(refusal) => r is Err && is_refusal(r->Err_0, refusal),
        Reception::Frame { data, pts_us, is_keyframe } => {
            &&& r is Ok
            &&& r->Ok_0 is Some
            &&& (r->Ok_0)->0.data@ == data
            &&& (r->Ok_0)->0.pts_us == pts_us
            &&& (r->Ok_0)->0.is_keyframe == is_keyframe
        },
    }
}

/// A channel after `n` of the datagrams `ds` came through it: the first sender is
/// the remote address where none is set.
pub open spec fn channel_after(c: UdpChannel, ds: Seq<Datagram>, n: nat) -> UdpChannel {
    if n == 0 || c.remote_addr is Some {
        c
    } else {
        UdpChannel { remote_addr: Some(ds[0].from), ..c }
    }
}

/// Video frame receiver that handles reassembly.
pub struct FrameReceiver {
    /// The channel that the packets come through.
    pub channel: UdpChannel,
    /// The frames of which some fragments have come, by number.
    pub pending_frames: HashMap<u64, PendingFrame>,
}

impl View for FrameReceiver {
    type V = Map<u64, PendingView>;

    open spec fn view(&self) -> Map<u64, PendingView> {
        pending_model(self.pending_frames@)
    }
}

impl FrameReceiver {
    /// A receiver that has seen nothing yet.
    pub fn new(channel: UdpChannel) -> (r: Self)
        ensures
            r.channel == channel,
            r@ == Map::<u64, PendingView>::empty(),
    {
        let r = FrameReceiver { channel, pending_frames: HashMap::new() };
        assert(r@ =~= Map::<u64, PendingView>::empty());
        r
    }

    /// Drops the pending frames that are too old once frame `done` is complete.
    fn forget_before(&mut self, done: u64)
        ensures
            final(self).channel == old(self).channel,
            final(self)@ == Map::new(
                |n: u64| old(self)@.contains_key(n) && still_wanted(n, done),
                |n: u64| old(self)@[n],
            ),
    {
        let keys = keys_of(&self.pending_frames);
        let oldest: u64 = done.saturating_sub(10);
        let ghost m = self.pending_frames@;
        let mut i: usize = 0;
        while i < keys.len()
            invariant
                i <= keys@.len(),
                keys@.to_set() == m.dom(),
                m == old(self).pending_frames@,
                oldest == (if done >= 10 {
                    done - 10
                } else {
                    0
                }),
                self.channel == old(self).channel,
                forall|n: u64| #[trigger]
                    self.pending_frames@.contains_key(n) <==> m.contains_key(n) && (still_wanted(
                        n,
                        done,
                    ) || !keys@.take(i as int).contains(n)),
                forall|n: u64|
                    self.pending_frames@.contains_key(n) ==> #[trigger] self.pending_frames@[n]
                        == m[n],
            decreases keys@.len() - i,
        {
            let k: u64 = keys[i];
            let ghost before = self.pending_frames@;
            if k <= oldest {
                self.pending_frames.remove(&k);
            }
            proof {
                let seen = keys@.take(i as int);
                let next = keys@.take(i + 1);
                assert(next =~= seen.push(k));
                assert forall|n: u64| #[trigger]
                    self.pending_frames@.contains_key(n) <==> m.contains_key(n) && (still_wanted(
                        n,
                        done,
                    ) || !keys@.take(i + 1).contains(n)) by {
                    assert(before.contains_key(n) <==> m.contains_key(n) && (still_wanted(n, done)
                        || !keys@.take(i as int).contains(n)));
                    if seen.contains(n) {
                        let j = choose|j: int| 0 <= j < i && seen[j] == n;
                        assert(next[j] == n);
                    }
                    if n == k {
                        assert(next[i as int] == n);
                    }
                    if next.contains(n) && n != k {
                        let j = choose|j: int| 0 <= j < next.len() && next[j] == n;
                        assert(seen[j] == n);
                    }
                }
            }
            i += 1;
        }
        proof {
            let want = Map::new(
                |n: u64| old(self)@.contains_key(n) && still_wanted(n, done),
                |n: u64| old(self)@[n],
            );
            assert forall|n: u64| self@.contains_key(n) <==> want.contains_key(n) by {
                assert(keys@.take(i as int) =~= keys@);
                assert(self.pending_frames@.contains_key(n) <==> m.contains_key(n) && (still_wanted(
                    n,
                    done,
                ) || !keys@.contains(n)));
                if m.contains_key(n) {
                    assert(keys@.to_set().contains(n));
                }
            }
            assert(self@ =~= want);
        }
    }

    /// Takes in an accepted packet. A fragment of a video frame is stored; once
    /// all fragments of its frame have come, the frame is handed out.
    pub fn accept_packet(&mut self, header: &PacketHeader, data: &[u8]) -> (r: BridgeResult<
        Option<ReceivedFrame>,
    >)
        ensures
            final(self).channel == old(self).channel,
            ({
                let head = data@.take(VideoFrameHeader::ENCODED_SIZE as int);
                if header.packet_type != PacketType::Video || data@.len()
                    < VideoFrameHeader::ENCODED_SIZE {
                    final(self)@ == old(self)@ && r == Ok::<Option<ReceivedFrame>, BridgeError>(None)
                } else if VideoFrameHeader::read_error(head) is Some {
                    &&& final(self)@ == old(self)@
                    &&& r is Err
                    &&& is_wire_error(r->Err_0, VideoFrameHeader::read_error(head)->0)
                } else {
                    let h = VideoFrameHeader::decoded(head);
                    let body = data@.skip(VideoFrameHeader::ENCODED_SIZE as int);
                    let p = pending_with(old(self)@, h, body);
                    &&& final(self)@ == pending_after(old(self)@, h, body)
                    &&& r is Ok
                    &&& match r->Ok_0 {
                        Some(f) => all_filled(p.fragments) && f.data@ == joined(p.fragments)
                            && f.pts_us == p.pts_us && f.is_keyframe == p.is_keyframe,
                        None => !all_filled(p.fragments),
                    }
                }
            }),
    {
        match header.packet_type {
            PacketType::Video => {},
            _ => {
                return Ok(None);
            },
        }
        if data.len() < VideoFrameHeader::ENCODED_SIZE {
            return Ok(None);
        }
        let head = slice_subrange(data, 0, VideoFrameHeader::ENCODED_SIZE);
        assert(head@ =~= data@.take(VideoFrameHeader::ENCODED_SIZE as int));
        let h = match VideoFrameHeader::from_bytes(head) {
            Ok(h) => h,
            Err(e) => {
                return Err(e.into_bridge_error());
            },
        };
        let body = slice_subrange(data, VideoFrameHeader::ENCODED_SIZE, data.len());
        assert(body@ =~= data@.skip(VideoFrameHeader::ENCODED_SIZE as int));
        let ghost m = self.pending_frames@;
        let frame_number: u64 = h.frame_number;
        let pending = match self.pending_frames.remove(&frame_number) {
            Some(p) => p,
            None => PendingFrame {
                fragments: FragmentSlots::new(h.fragment_count as usize),
                total_size: h.frame_size as usize,
                pts_us: h.pts_us,
                is_keyframe: h.is_keyframe,
            },
        };
        assert(pending@ == pending_or_new(old(self)@, h));
        let fragments = pending.fragments.store(h.fragment_index as usize, slice_to_vec(body));
        let pending = PendingFrame { fragments, ..pending };
        assert(pending@ == pending_with(old(self)@, h, body@));
        if pending.fragments.is_complete() {
            self.forget_before(frame_number);
            assert(self@ =~= pending_after(old(self)@, h, body@));
            Ok(
                Some(
                    ReceivedFrame {
                        data: pending.fragments.join(),
                        pts_us: pending.pts_us,
                        is_keyframe: pending.is_keyframe,
                    },
                ),
            )
        } else {
            self.pending_frames.insert(frame_number, pending);
            assert(self@ =~= pending_after(old(self)@, h, body@));
            Ok(None)
        }
    }

    /// Receives a complete video frame from the datagrams that were read, and
    /// tells how many of them that took. Without a complete frame the receiver
    /// waits for more; a datagram that is refused ends the attempt.
    pub fn recv_frame(&mut self, datagrams: &[Datagram]) -> (r: (
        usize,
        BridgeResult<Option<ReceivedFrame>>,
    ))
        ensures
            ({
                let x = receive(old(self)@, contents(datagrams@));
                &&& final(self)@ == x.pending
                &&& r.0 == x.used
                &&& is_reception(r.1, x.result)
                &&& final(self).channel == channel_after(old(self).channel, datagrams@, x.used)
            }),
    {
        let ghost all = contents(datagrams@);
        let ghost whole = receive(self@, all);
        let mut i: usize = 0;
        assert(all.skip(0) =~= all);
        while i < datagrams.len()
            invariant
                i <= datagrams@.len(),
                all == contents(datagrams@),
                whole == receive(old(self)@, all),
                whole.pending == receive(self@, all.skip(i as int)).pending,
                whole.used == i + receive(self@, all.skip(i as int)).used,
                whole.result == receive(self@, all.skip(i as int)).result,
                self.channel == channel_after(old(self).channel, datagrams@, i as nat),
            decreases datagrams@.len() - i,
        {
            let d = &datagrams[i];
            let ghost rest = all.skip(i as int);
            assert(rest[0] == d.bytes@);
            assert(rest.skip(1) =~= all.skip(i + 1));
            i += 1;
            match self.channel.accept(d.bytes.as_slice(), d.from) {
                Ok((header, body)) => {
                    proof {
                        lemma_packet_header_fields(header);
                    }
                    match self.accept_packet(&header, body.as_slice()) {
                        Ok(Some(f)) => {
                            return (i, Ok(Some(f)));
                        },
                        Ok(None) => {},
                        Err(e) => {
                            return (i, Err(e));
                        },
                    }
                },
                Err(e) => {
                    return (i, Err(e));
                },
            }
        }
        (i, Ok(None))
    }
}

/// Data is cut into as few chunks as its length needs: all but the last have the full
/// size, the last has what is left, and none is empty.
pub proof fn law_chunks_are_full(data: Seq<u8>, size: nat, i: int)
    requires
        size > 0,
        0 <= i < chunk_count(data.len(), size),
    ensures
        chunks(data, size)[i] == chunk(data, size, i),
        i < chunk_count(data.len(), size) - 1 ==> chunk(data, size, i).len() == size,
        0 < chunk(data, size, i).len() <= size,
        forall|k: int|
            0 <= k < chunk(data, size, i).len() ==> #[trigger] chunk(data, size, i)[k] == data[i
                * size + k],
        (chunk_count(data.len(), size) - 1) * size < data.len() <= chunk_count(data.len(), size)
            * size,
{
    let n = chunk_count(data.len(), size) as int;
    let len = data.len() as int;
    lemma_fundamental_div_mod(len, size as int);
    let q = len / size as int;
    assert(size * q == q * size) by (nonlinear_arith);
    lemma_chunk_bounds(data.len(), size, i);
    lemma_chunk_bounds(data.len(), size, n - 1);
    assert(n * size == (n - 1) * size + size) by (nonlinear_arith);
    assert((q + 1) * size == q * size + size) by (nonlinear_arith);
    if i < n - 1 {
        assert((i + 1) * size <= (n - 1) * size) by (nonlinear_arith)
            requires
                i + 1 <= n - 1,
                size > 0,
        ;
        assert((i + 1) * size == i * size + size) by (nonlinear_arith);
    }
    assert(i * size <= (n - 1) * size) by (nonlinear_arith)
        requires
            i <= n - 1,
            size > 0,
    ;
    assert((i + 1) * size == i * size + size) by (nonlinear_arith);
}

/// A packet header says what it heads: the kind, number and time of the packet, and
/// the length of its contents.
pub proof fn law_packet_header_describes_the_packet(
    packet_type: PacketType,
    sequence: u64,
    timestamp_us: u64,
    data: Seq<u8>,
)
    ensures
        ({
            let h = header_for(packet_type, sequence, timestamp_us, data);
            &&& h.packet_type == packet_type
            &&& h.sequence == sequence
            &&& h.timestamp_us == timestamp_us
            &&& data.len() <= u32::MAX ==> h.payload_len == data.len()
            &&& h.version == 1
            &&& packet_bytes(packet_type, sequence, timestamp_us, data) == h.encoding() + data
        }),
{
}

/// The header of a fragment describes its frame: its number, time and size, and the
/// number and place of its fragments; only the first fragment carries the mark of a
/// keyframe.
pub proof fn law_fragment_headers_describe_the_frame(
    frame_number: u64,
    len: nat,
    size: nat,
    pts_us: u64,
    is_keyframe: bool,
    i: int,
)
    requires
        size > 0,
        len <= u32::MAX,
        chunk_count(len, size) <= u16::MAX,
        0 <= i < chunk_count(len, size),
    ensures
        ({
            let h = fragment_header(frame_number, len, size, pts_us, is_keyframe, i);
            &&& h.frame_number == frame_number
            &&& h.pts_us == pts_us
            &&& h.frame_size == len
            &&& h.fragment_index == i
            &&& h.fragment_count == chunk_count(len, size)
            &&& h.is_keyframe <==> is_keyframe && i == 0
        }),
{
}

/// Once a frame is complete, it is no longer pending; of the others those that come
/// ten or more before it are given up, frame zero with them, and every other one stays
/// as it is. While no frame is complete, all others stay.
pub proof fn law_recent_frames_stay_pending(
    m: Map<u64, PendingView>,
    h: VideoFrameHeader,
    data: Seq<u8>,
    n: u64,
)
    ensures
        ({
            let after = pending_after(m, h, data);
            let done = all_filled(pending_with(m, h, data).fragments);
            &&& after.contains_key(h.frame_number) <==> !done
            &&& n != h.frame_number ==> (after.contains_key(n) <==> m.contains_key(n) && (!done || (n
                > 0 && n + 10 > h.frame_number)))
            &&& n != h.frame_number && after.contains_key(n) ==> after[n] == m[n]
        }),
{
}

/// The first fragment of a frame of several opens as many places as the frame has
/// fragments and puts its contents into its own.
pub proof fn law_first_fragment_opens_its_frame(
    m: Map<u64, PendingView>,
    h: VideoFrameHeader,
    data: Seq<u8>,
)
    requires
        !m.contains_key(h.frame_number),
    ensures
        ({
            let p = pending_with(m, h, data);
            &&& p.pts_us == h.pts_us
            &&& p.is_keyframe == h.is_keyframe
            &&& p.total_size == h.frame_size
            &&& p.fragments.len() == h.fragment_count
            &&& forall|i: int|
                0 <= i < p.fragments.len() ==> #[trigger] p.fragments[i] == if i
                    == h.fragment_index {
                    Some(data)
                } else {
                    None
                }
        }),
{
}

/// The first sender becomes the peer where none is known; a peer that is known stays.
pub proof fn law_first_sender_becomes_the_peer(c: UdpChannel, ds: Seq<Datagram>, n: nat)
    ensures
        c.remote_addr is Some || n == 0 ==> channel_after(c, ds, n) == c,
        c.remote_addr is None && n > 0 ==> channel_after(c, ds, n).remote_addr == Some(ds[0].from),
        channel_after(c, ds, n).max_packet_size == c.max_packet_size,
        channel_after(c, ds, n).send_sequence == c.send_sequence,
{
}

/// A datagram is refused if it is shorter than a packet header, names no kind of
/// packets, is of another protocol or version, or carries a keyframe mark that is
/// neither 0 nor 1; it is passed over if it is no video packet or too short for a
/// frame header; any other is a fragment, behind 65 bytes of headers.
pub proof fn law_datagrams_are_sorted(d: Seq<u8>)
    ensures
        ({
            let current = d.len() >= 32 && int_at(d.take(32), 8, 4) < 6 && d.take(32).take(4)
                == seq![0x42u8, 0x52, 0x44, 0x47] && int_at(d.take(32), 4, 4) == 1;
            let video = current && int_at(d.take(32), 8, 4) == 1 && d.len() >= 65;
            &&& sorted(d) is Fragment <==> video && d[48] <= 1
            &&& sorted(d) is Ignored <==> current && !video
            &&& sorted(d) is Refused <==> !current || (video && d[48] > 1)
            &&& sorted(d) matches Arrival::Fragment(h, data) ==> data == d.skip(65) && h
                == VideoFrameHeader::decoded(d.subrange(32, 65))
        }),
{
    assert(MAGIC@ =~= seq![0x42u8, 0x52, 0x44, 0x47]);
    let head = d.take(32);
    let body = d.skip(32);
    if d.len() >= 65 {
        assert(body.take(33) =~= d.subrange(32, 65));
        assert(body.skip(33) =~= d.skip(65));
        assert(body.take(33)[16] == d[48]);
    }
}

/// The bytes of datagrams are listed in the order in which they came.
pub proof fn law_datagrams_are_read_in_order(ds: Seq<Datagram>, i: int)
    requires
        0 <= i < ds.len(),
    ensures
        contents(ds).len() == ds.len(),
        contents(ds)[i] == ds[i].bytes@,
{
}

/// There are enough chunks for all the data, and no more than that.
pub proof fn law_chunks_are_enough(len: nat, size: nat)
    requires
        size > 0,
    ensures
        len <= chunk_count(len, size) * size < len + size,
{
    lemma_fundamental_div_mod(len as int, size as int);
    let q = (len / size) as int;
    assert(size * q == q * size) by (nonlinear_arith);
    assert((q + 1) * size == q * size + size) by (nonlinear_arith);
}

/// Errors are told apart: a protocol error carries its detail, and a value that cannot
/// be read its own message.
pub proof fn law_errors_carry_their_detail(e: BridgeError, detail: Seq<char>, w: WireError)
    ensures
        is_protocol_error(e, detail) <==> e is Protocol && e->Protocol_0@ == detail,
        is_wire_error(e, w) <==> e is Serialization && e->Serialization_0@ == w.text(),
{
}

/// What came of reading datagrams is reported as it is: a complete frame with its
/// bytes, time and mark, a refusal as an error, and nothing while nothing is complete.
pub proof fn law_reception_is_reported(r: BridgeResult<Option<ReceivedFrame>>, x: Reception)
    requires
        is_reception(r, x),
    ensures
        x is Waiting <==> r is Ok && r->Ok_0 is None,
        x is Failed <==> r is Err,
        x matches Reception::Frame { data, pts_us, is_keyframe } ==> (r matches Ok(Some(f))
            && f.data@ == data && f.pts_us == pts_us && f.is_keyframe == is_keyframe),
        x == Reception::Failed(Refusal::TooSmall) ==> r->Err_0.text() == "Protocol error: "@
            + "Packet too small"@,
        x == Reception::Failed(Refusal::NotCurrent) ==> r->Err_0.text() == "Protocol error: "@
            + "Invalid packet header"@,
        x matches Reception::Failed(Refusal::BadHeader(w)) ==> r->Err_0.text()
            == "Serialization error: "@ + w.text(),
        x matches Reception::Failed(Refusal::BadFrameHeader(w)) ==> r->Err_0.text()
            == "Serialization error: "@ + w.text(),
{
}

/// Datagrams are read one after the other: one that is passed over changes nothing, a
/// fragment that completes no frame is kept, and reading ends at once with the first
/// that is refused or completes a frame.
pub proof fn law_datagrams_are_read_one_by_one(m: Map<u64, PendingView>, ds: Seq<Seq<u8>>)
    requires
        ds.len() > 0,
    ensures
        ({
            let x = receive(m, ds);
            &&& x.used <= ds.len()
            &&& sorted(ds[0]) is Refused ==> x.used == 1 && x.pending == m && x.result
                == Reception::Failed(sorted(ds[0])->Refused_0)
            &&& sorted(ds[0]) is Ignored ==> x.pending == receive(m, ds.skip(1)).pending && x.result
                == receive(m, ds.skip(1)).result && x.used == receive(m, ds.skip(1)).used + 1
            &&& sorted(ds[0]) matches Arrival::Fragment(h, data) ==> if all_filled(
                pending_with(m, h, data).fragments,
            ) {
                x.used == 1 && x.result is Frame && x.pending == pending_after(m, h, data)
            } else {
                let rest = receive(pending_after(m, h, data), ds.skip(1));
                x.result == rest.result && x.pending == rest.pending && x.used == rest.used + 1
            }
        }),
    decreases ds.len(),
{
    if ds.len() > 1 {
        law_datagrams_are_read_one_by_one(m, ds.skip(1));
        if let Arrival::Fragment(h, data) = sorted(ds[0]) {
            law_datagrams_are_read_one_by_one(pending_after(m, h, data), ds.skip(1));
        }
    }
}

} // verus!
