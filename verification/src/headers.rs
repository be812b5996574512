//! The packet, video and audio headers as bytes.
use crate::bytes::{
    le_bytes, lemma_le_bytes_len, lemma_le_round_trip, lemma_le_value_bytes, lemma_pow256_widths,
    pow256,
};
use crate::error::WireError;
use crate::protocol::{
    AudioPacketHeader, PacketHeader, PacketType, VideoFrameHeader, MAGIC, PROTOCOL_VERSION,
};
use crate::types::now_us;
use crate::wire::{
    bool_at, bool_byte, get_bool, get_u16, get_u32, get_u64, get_u8, int_at, put_bool, put_u16,
    put_u32, put_u64, put_u8,
};
use vstd::prelude::*;

verus! {

broadcast use lemma_le_bytes_len;

/// Where `n` bytes of `s` are the little-endian bytes of `x`, reading them gives
/// `x`.
pub proof fn lemma_int_read_back(s: Seq<u8>, pos: int, x: nat, n: nat)
    requires
        0 <= pos,
        pos + n <= s.len(),
        s.subrange(pos, pos + n) == le_bytes(x, n),
        x < pow256(n),
    ensures
        int_at(s, pos, n) == x,
{
    lemma_le_round_trip(x, n);
}

/// The bytes that a number was read from are its little-endian bytes.
pub proof fn lemma_int_was_written(s: Seq<u8>, pos: int, n: nat)
    requires
        0 <= pos,
        pos + n <= s.len(),
    ensures
        s.subrange(pos, pos + n) == le_bytes(int_at(s, pos, n), n),
        int_at(s, pos, n) < pow256(n),
{
    lemma_le_value_bytes(s.subrange(pos, pos + n));
}

impl PacketHeader {
    /// Length of an encoded packet header.
    pub const SIZE: usize = 32;

    /// The header in bytes.
    pub open spec fn encoding(self) -> Seq<u8> {
        self.magic@ + le_bytes(self.version as nat, 4) + le_bytes(
            self.packet_type.place() as nat,
            4,
        ) + le_bytes(self.sequence as nat, 8) + le_bytes(self.timestamp_us as nat, 8) + le_bytes(
            self.payload_len as nat,
            4,
        )
    }

    /// Whether the header at the start of `s` can be read, and what stops it.
    pub open spec fn read_error(s: Seq<u8>) -> Option<WireError> {
        if s.len() >= 12 && int_at(s, 8, 4) > 5 {
            Some(WireError::InvalidVariant(int_at(s, 8, 4) as u32, 6))
        } else if s.len() < 32 {
            Some(WireError::UnexpectedEnd)
        } else {
            None
        }
    }

    /// Whether the header at the start of `s` is one of this protocol and version.
    pub open spec fn current_at(s: Seq<u8>) -> bool {
        s.take(4) == MAGIC@ && int_at(s, 4, 4) == PROTOCOL_VERSION
    }

    /// A header with the given timestamp, of the current protocol.
    pub fn at_time(
        packet_type: PacketType,
        sequence: u64,
        payload_len: u32,
        timestamp_us: u64,
    ) -> (h: Self)
        ensures
            h.magic@ == MAGIC@,
            h.version == PROTOCOL_VERSION,
            h.packet_type == packet_type,
            h.sequence == sequence,
            h.timestamp_us == timestamp_us,
            h.payload_len == payload_len,
            h.is_current(),
    {
        PacketHeader {
            magic: MAGIC,
            version: PROTOCOL_VERSION,
            packet_type,
            sequence,
            timestamp_us,
            payload_len,
        }
    }

    /// A header stamped with the current time, of the current protocol.
    pub fn new(packet_type: PacketType, sequence: u64, payload_len: u32) -> (h: Self)
        ensures
            h.magic@ == MAGIC@,
            h.version == PROTOCOL_VERSION,
            h.packet_type == packet_type,
            h.sequence == sequence,
            h.payload_len == payload_len,
            h.is_current(),
    {
        PacketHeader::at_time(packet_type, sequence, payload_len, now_us())
    }

    /// Whether the header is one of this protocol and version.
    pub open spec fn is_current(self) -> bool {
        self.magic@ == MAGIC@ && self.version == PROTOCOL_VERSION
    }

    /// Tells whether the header is one of this protocol and version.
    pub fn is_valid(&self) -> (b: bool)
        ensures
            b == self.is_current(),
    {
        let b = self.magic[0] == MAGIC[0] && self.magic[1] == MAGIC[1] && self.magic[2] == MAGIC[2]
            && self.magic[3] == MAGIC[3] && self.version == PROTOCOL_VERSION;
        proof {
            if b {
                assert(self.magic@ =~= MAGIC@);
            }
        }
        b
    }

    /// Serialize header to bytes.
    pub fn to_bytes(&self) -> (r: Result<Vec<u8>, WireError>)
        ensures
            r matches Ok(v) && v@ == self.encoding() && v@.len() == PacketHeader::SIZE,
    {
        let mut out: Vec<u8> = Vec::new();
        put_u8(&mut out, self.magic[0]);
        put_u8(&mut out, self.magic[1]);
        put_u8(&mut out, self.magic[2]);
        put_u8(&mut out, self.magic[3]);
        assert(out@ =~= self.magic@);
        put_u32(&mut out, self.version);
        put_u32(&mut out, self.packet_type.index());
        put_u64(&mut out, self.sequence);
        put_u64(&mut out, self.timestamp_us);
        put_u32(&mut out, self.payload_len);
        Ok(out)
    }

    /// Deserialize header from bytes. Bytes behind the header are left alone.
    pub fn from_bytes(data: &[u8]) -> (r: Result<Self, WireError>)
        ensures
            match r {
                Ok(h) => PacketHeader::read_error(data@) is None && h.encoding() == data@.take(
                    PacketHeader::SIZE as int,
                ),
                Err(e) => PacketHeader::read_error(data@) == Some(e),
            },
    {
        let m0: u8 = get_u8(data, 0)?;
        let m1: u8 = get_u8(data, 1)?;
        let m2: u8 = get_u8(data, 2)?;
        let m3: u8 = get_u8(data, 3)?;
        let version: u32 = get_u32(data, 4)?;
        let index: u32 = get_u32(data, 8)?;
        let packet_type = match PacketType::from_index(index) {
            Some(t) => t,
            None => {
                return Err(WireError::InvalidVariant(index, 6));
            },
        };
        let sequence: u64 = get_u64(data, 12)?;
        let timestamp_us: u64 = get_u64(data, 20)?;
        let payload_len: u32 = get_u32(data, 28)?;
        let h = PacketHeader {
            magic: [m0, m1, m2, m3],
            version,
            packet_type,
            sequence,
            timestamp_us,
            payload_len,
        };
        proof {
            lemma_int_was_written(data@, 4, 4);
            lemma_int_was_written(data@, 8, 4);
            lemma_int_was_written(data@, 12, 8);
            lemma_int_was_written(data@, 20, 8);
            lemma_int_was_written(data@, 28, 4);
            let d = data@;
            assert(h.magic@ =~= d.subrange(0, 4));
            assert(d.take(32) =~= d.subrange(0, 4) + d.subrange(4, 8) + d.subrange(8, 12)
                + d.subrange(12, 20) + d.subrange(20, 28) + d.subrange(28, 32));
        }
        Ok(h)
    }
}

/// What the bytes of a packet header say of its protocol, version and kind.
pub proof fn lemma_packet_header_fields(h: PacketHeader)
    ensures
        h.encoding().len() == PacketHeader::SIZE,
        PacketHeader::current_at(h.encoding()) == h.is_current(),
        int_at(h.encoding(), 8, 4) == h.packet_type.place(),
{
    lemma_pow256_widths();
    let s = h.encoding();
    assert(s.take(4) =~= h.magic@);
    assert(s.subrange(4, 8) =~= le_bytes(h.version as nat, 4));
    lemma_int_read_back(s, 4, h.version as nat, 4);
    assert(s.subrange(8, 12) =~= le_bytes(h.packet_type.place() as nat, 4));
    lemma_int_read_back(s, 8, h.packet_type.place() as nat, 4);
}

impl VideoFrameHeader {
    /// Bytes that a sender sets aside for the header in front of a fragment.
    pub const SIZE: usize = 40;

    /// Bytes that the header takes when it is written.
    pub const ENCODED_SIZE: usize = 33;

    /// The header in bytes.
    pub open spec fn encoding(self) -> Seq<u8> {
        le_bytes(self.frame_number as nat, 8) + le_bytes(self.pts_us as nat, 8) + seq![
            bool_byte(self.is_keyframe),
        ] + le_bytes(self.frame_size as nat, 4) + le_bytes(self.fragment_index as nat, 2)
            + le_bytes(self.fragment_count as nat, 2) + le_bytes(self.width as nat, 4) + le_bytes(
            self.height as nat,
            4,
        )
    }

    /// Whether the header at the start of `s` can be read, and what stops it.
    pub open spec fn read_error(s: Seq<u8>) -> Option<WireError> {
        if s.len() > 16 && s[16] > 1 {
            Some(WireError::InvalidBool(s[16]))
        } else if s.len() < 33 {
            Some(WireError::UnexpectedEnd)
        } else {
            None
        }
    }

    /// The header that the first bytes of `s` encode.
    pub open spec fn decoded(s: Seq<u8>) -> VideoFrameHeader {
        VideoFrameHeader {
            frame_number: int_at(s, 0, 8) as u64,
            pts_us: int_at(s, 8, 8) as u64,
            is_keyframe: bool_at(s, 16),
            frame_size: int_at(s, 17, 4) as u32,
            fragment_index: int_at(s, 21, 2) as u16,
            fragment_count: int_at(s, 23, 2) as u16,
            width: int_at(s, 25, 4) as u32,
            height: int_at(s, 29, 4) as u32,
        }
    }

    /// Writes the header.
    pub fn to_bytes(&self) -> (v: Vec<u8>)
        ensures
            v@ == self.encoding(),
            v@.len() == VideoFrameHeader::ENCODED_SIZE,
    {
        let mut out: Vec<u8> = Vec::new();
        put_u64(&mut out, self.frame_number);
        assert(out@ =~= le_bytes(self.frame_number as nat, 8));
        put_u64(&mut out, self.pts_us);
        put_bool(&mut out, self.is_keyframe);
        put_u32(&mut out, self.frame_size);
        put_u16(&mut out, self.fragment_index);
        put_u16(&mut out, self.fragment_count);
        put_u32(&mut out, self.width);
        put_u32(&mut out, self.height);
        out
    }

    /// Reads a header. Bytes behind it are left alone.
    pub fn from_bytes(data: &[u8]) -> (r: Result<Self, WireError>)
        ensures
            match r {
                Ok(h) => VideoFrameHeader::read_error(data@) is None && h
                    == VideoFrameHeader::decoded(data@) && h.encoding() == data@.take(
                    VideoFrameHeader::ENCODED_SIZE as int,
                ),
                Err(e) => VideoFrameHeader::read_error(data@) == Some(e),
            },
    {
        let frame_number: u64 = get_u64(data, 0)?;
        let pts_us: u64 = get_u64(data, 8)?;
        let is_keyframe = get_bool(data, 16)?;
        let frame_size: u32 = get_u32(data, 17)?;
        let fragment_index: u16 = get_u16(data, 21)?;
        let fragment_count: u16 = get_u16(data, 23)?;
        let width: u32 = get_u32(data, 25)?;
        let height: u32 = get_u32(data, 29)?;
        let h = VideoFrameHeader {
            frame_number,
            pts_us,
            is_keyframe,
            frame_size,
            fragment_index,
            fragment_count,
            width,
            height,
        };
        proof {
            lemma_int_was_written(data@, 0, 8);
            lemma_int_was_written(data@, 8, 8);
            lemma_int_was_written(data@, 17, 4);
            lemma_int_was_written(data@, 21, 2);
            lemma_int_was_written(data@, 23, 2);
            lemma_int_was_written(data@, 25, 4);
            lemma_int_was_written(data@, 29, 4);
            let d = data@;
            assert(seq![bool_byte(is_keyframe)] =~= d.subrange(16, 17));
            assert(d.take(33) =~= d.subrange(0, 8) + d.subrange(8, 16) + d.subrange(16, 17)
                + d.subrange(17, 21) + d.subrange(21, 23) + d.subrange(23, 25) + d.subrange(25, 29)
                + d.subrange(29, 33));
        }
        Ok(h)
    }
}

impl AudioPacketHeader {
    /// Length of an encoded audio packet header.
    pub const SIZE: usize = 24;

    /// The header in bytes.
    pub open spec fn encoding(self) -> Seq<u8> {
        le_bytes(self.sequence as nat, 8) + le_bytes(self.pts_us as nat, 8) + le_bytes(
            self.sample_count as nat,
            4,
        ) + le_bytes(self.payload_size as nat, 4)
    }

    /// Writes the header.
    pub fn to_bytes(&self) -> (v: Vec<u8>)
        ensures
            v@ == self.encoding(),
            v@.len() == AudioPacketHeader::SIZE,
    {
        let mut out: Vec<u8> = Vec::new();
        put_u64(&mut out, self.sequence);
        assert(out@ =~= le_bytes(self.sequence as nat, 8));
        put_u64(&mut out, self.pts_us);
        put_u32(&mut out, self.sample_count);
        put_u32(&mut out, self.payload_size);
        out
    }

    /// Reads a header. Bytes behind it are left alone.
    pub fn from_bytes(data: &[u8]) -> (r: Result<Self, WireError>)
        ensures
            match r {
                Ok(h) => data@.len() >= AudioPacketHeader::SIZE && h.encoding() == data@.take(
                    AudioPacketHeader::SIZE as int,
                ),
                Err(e) => data@.len() < AudioPacketHeader::SIZE && e == WireError::UnexpectedEnd,
            },
    {
        let sequence: u64 = get_u64(data, 0)?;
        let pts_us: u64 = get_u64(data, 8)?;
        let sample_count: u32 = get_u32(data, 16)?;
        let payload_size: u32 = get_u32(data, 20)?;
        let h = AudioPacketHeader { sequence, pts_us, sample_count, payload_size };
        proof {
            lemma_int_was_written(data@, 0, 8);
            lemma_int_was_written(data@, 8, 8);
            lemma_int_was_written(data@, 16, 4);
            lemma_int_was_written(data@, 20, 4);
            let d = data@;
            assert(d.take(24) =~= d.subrange(0, 8) + d.subrange(8, 16) + d.subrange(16, 20)
                + d.subrange(20, 24));
        }
        Ok(h)
    }
}

/// A packet header is determined by its encoding: no two headers share one.
pub proof fn law_packet_header_encoding_is_injective(a: PacketHeader, b: PacketHeader)
    requires
        a.encoding() == b.encoding(),
    ensures
        a.magic@ == b.magic@,
        a.version == b.version,
        a.packet_type == b.packet_type,
        a.sequence == b.sequence,
        a.timestamp_us == b.timestamp_us,
        a.payload_len == b.payload_len,
{
    lemma_pow256_widths();
    let s = a.encoding();
    let t = b.encoding();
    assert(a.magic@ =~= s.subrange(0, 4));
    assert(b.magic@ =~= t.subrange(0, 4));
    assert(s.subrange(4, 8) =~= le_bytes(a.version as nat, 4));
    assert(t.subrange(4, 8) =~= le_bytes(b.version as nat, 4));
    assert(s.subrange(8, 12) =~= le_bytes(a.packet_type.place() as nat, 4));
    assert(t.subrange(8, 12) =~= le_bytes(b.packet_type.place() as nat, 4));
    assert(s.subrange(12, 20) =~= le_bytes(a.sequence as nat, 8));
    assert(t.subrange(12, 20) =~= le_bytes(b.sequence as nat, 8));
    assert(s.subrange(20, 28) =~= le_bytes(a.timestamp_us as nat, 8));
    assert(t.subrange(20, 28) =~= le_bytes(b.timestamp_us as nat, 8));
    assert(s.subrange(28, 32) =~= le_bytes(a.payload_len as nat, 4));
    assert(t.subrange(28, 32) =~= le_bytes(b.payload_len as nat, 4));
    lemma_le_round_trip(a.version as nat, 4);
    lemma_le_round_trip(b.version as nat, 4);
    lemma_le_round_trip(a.packet_type.place() as nat, 4);
    lemma_le_round_trip(b.packet_type.place() as nat, 4);
    lemma_le_round_trip(a.sequence as nat, 8);
    lemma_le_round_trip(b.sequence as nat, 8);
    lemma_le_round_trip(a.timestamp_us as nat, 8);
    lemma_le_round_trip(b.timestamp_us as nat, 8);
    lemma_le_round_trip(a.payload_len as nat, 4);
    lemma_le_round_trip(b.payload_len as nat, 4);
}

/// Reading a packet header back from its encoding, with anything behind it,
/// succeeds.
pub proof fn law_packet_header_reads_back(h: PacketHeader, rest: Seq<u8>)
    ensures
        PacketHeader::read_error(h.encoding() + rest) is None,
        (h.encoding() + rest).take(PacketHeader::SIZE as int) == h.encoding(),
{
    lemma_pow256_widths();
    let s = h.encoding() + rest;
    assert(s.subrange(8, 12) =~= le_bytes(h.packet_type.place() as nat, 4));
    lemma_int_read_back(s, 8, h.packet_type.place() as nat, 4);
    assert(s.take(32) =~= h.encoding());
}

/// A video header is determined by its encoding: no two headers share one.
pub proof fn law_video_header_encoding_is_injective(a: VideoFrameHeader, b: VideoFrameHeader)
    requires
        a.encoding() == b.encoding(),
    ensures
        a == b,
{
    law_video_header_reads_back(a, Seq::empty());
    law_video_header_reads_back(b, Seq::empty());
}

/// Reading a video header back from its encoding, with anything behind it,
/// succeeds.
pub proof fn law_video_header_reads_back(h: VideoFrameHeader, rest: Seq<u8>)
    ensures
        VideoFrameHeader::read_error(h.encoding() + rest) is None,
        VideoFrameHeader::decoded(h.encoding() + rest) == h,
{
    lemma_pow256_widths();
    let s = h.encoding() + rest;
    assert(s[16] == bool_byte(h.is_keyframe));
    assert(s.subrange(0, 8) =~= le_bytes(h.frame_number as nat, 8));
    assert(s.subrange(8, 16) =~= le_bytes(h.pts_us as nat, 8));
    assert(s.subrange(17, 21) =~= le_bytes(h.frame_size as nat, 4));
    assert(s.subrange(21, 23) =~= le_bytes(h.fragment_index as nat, 2));
    assert(s.subrange(23, 25) =~= le_bytes(h.fragment_count as nat, 2));
    assert(s.subrange(25, 29) =~= le_bytes(h.width as nat, 4));
    assert(s.subrange(29, 33) =~= le_bytes(h.height as nat, 4));
    lemma_int_read_back(s, 0, h.frame_number as nat, 8);
    lemma_int_read_back(s, 8, h.pts_us as nat, 8);
    lemma_int_read_back(s, 17, h.frame_size as nat, 4);
    lemma_int_read_back(s, 21, h.fragment_index as nat, 2);
    lemma_int_read_back(s, 23, h.fragment_count as nat, 2);
    lemma_int_read_back(s, 25, h.width as nat, 4);
    lemma_int_read_back(s, 29, h.height as nat, 4);
}

/// A packet header has its fields in these places, numbers least significant byte
/// first, behind the letters `BRDG`.
pub proof fn law_packet_header_layout(h: PacketHeader)
    ensures
        h.encoding().len() == 32,
        h.encoding().take(4) == h.magic@,
        int_at(h.encoding(), 4, 4) == h.version,
        int_at(h.encoding(), 8, 4) == h.packet_type.place(),
        int_at(h.encoding(), 12, 8) == h.sequence,
        int_at(h.encoding(), 20, 8) == h.timestamp_us,
        int_at(h.encoding(), 28, 4) == h.payload_len,
        h.is_current() <==> h.version == 1 && h.magic@ == seq![0x42u8, 0x52, 0x44, 0x47],
{
    lemma_pow256_widths();
    lemma_packet_header_fields(h);
    let s = h.encoding();
    assert(s.take(4) =~= h.magic@);
    assert(s.subrange(4, 8) =~= le_bytes(h.version as nat, 4));
    lemma_int_read_back(s, 4, h.version as nat, 4);
    assert(s.subrange(12, 20) =~= le_bytes(h.sequence as nat, 8));
    lemma_int_read_back(s, 12, h.sequence as nat, 8);
    assert(s.subrange(20, 28) =~= le_bytes(h.timestamp_us as nat, 8));
    lemma_int_read_back(s, 20, h.timestamp_us as nat, 8);
    assert(s.subrange(28, 32) =~= le_bytes(h.payload_len as nat, 4));
    lemma_int_read_back(s, 28, h.payload_len as nat, 4);
    assert(MAGIC@ =~= seq![0x42u8, 0x52, 0x44, 0x47]);
}

/// A packet header can be read exactly from 32 bytes or more that name one of the
/// six kinds of packets.
pub proof fn law_packet_header_can_be_read(s: Seq<u8>)
    ensures
        PacketHeader::read_error(s) is None <==> s.len() >= 32 && int_at(s, 8, 4) < 6,
        PacketHeader::current_at(s) <==> s.take(4) == seq![0x42u8, 0x52, 0x44, 0x47] && int_at(
            s,
            4,
            4,
        ) == 1,
{
    assert(MAGIC@ =~= seq![0x42u8, 0x52, 0x44, 0x47]);
}

/// A video frame header has its fields in these places, numbers least significant
/// byte first.
pub proof fn law_video_header_layout(h: VideoFrameHeader)
    ensures
        h.encoding().len() == 33,
        int_at(h.encoding(), 0, 8) == h.frame_number,
        int_at(h.encoding(), 8, 8) == h.pts_us,
        h.encoding()[16] == (if h.is_keyframe {
            1int
        } else {
            0
        }),
        int_at(h.encoding(), 17, 4) == h.frame_size,
        int_at(h.encoding(), 21, 2) == h.fragment_index,
        int_at(h.encoding(), 23, 2) == h.fragment_count,
        int_at(h.encoding(), 25, 4) == h.width,
        int_at(h.encoding(), 29, 4) == h.height,
{
    lemma_pow256_widths();
    let s = h.encoding();
    assert(s.subrange(0, 8) =~= le_bytes(h.frame_number as nat, 8));
    assert(s.subrange(8, 16) =~= le_bytes(h.pts_us as nat, 8));
    assert(s.subrange(17, 21) =~= le_bytes(h.frame_size as nat, 4));
    assert(s.subrange(21, 23) =~= le_bytes(h.fragment_index as nat, 2));
    assert(s.subrange(23, 25) =~= le_bytes(h.fragment_count as nat, 2));
    assert(s.subrange(25, 29) =~= le_bytes(h.width as nat, 4));
    assert(s.subrange(29, 33) =~= le_bytes(h.height as nat, 4));
    lemma_int_read_back(s, 0, h.frame_number as nat, 8);
    lemma_int_read_back(s, 8, h.pts_us as nat, 8);
    lemma_int_read_back(s, 17, h.frame_size as nat, 4);
    lemma_int_read_back(s, 21, h.fragment_index as nat, 2);
    lemma_int_read_back(s, 23, h.fragment_count as nat, 2);
    lemma_int_read_back(s, 25, h.width as nat, 4);
    lemma_int_read_back(s, 29, h.height as nat, 4);
}

/// A video frame header can be read exactly from 33 bytes or more whose keyframe mark
/// is 0 or 1.
pub proof fn law_video_header_can_be_read(s: Seq<u8>)
    ensures
        VideoFrameHeader::read_error(s) is None <==> s.len() >= 33 && s[16] <= 1,
{
}

/// An audio packet header has its fields in these places, numbers least significant
/// byte first.
pub proof fn law_audio_header_layout(h: AudioPacketHeader)
    ensures
        h.encoding().len() == 24,
        int_at(h.encoding(), 0, 8) == h.sequence,
        int_at(h.encoding(), 8, 8) == h.pts_us,
        int_at(h.encoding(), 16, 4) == h.sample_count,
        int_at(h.encoding(), 20, 4) == h.payload_size,
{
    lemma_pow256_widths();
    let s = h.encoding();
    assert(s.subrange(0, 8) =~= le_bytes(h.sequence as nat, 8));
    assert(s.subrange(8, 16) =~= le_bytes(h.pts_us as nat, 8));
    assert(s.subrange(16, 20) =~= le_bytes(h.sample_count as nat, 4));
    assert(s.subrange(20, 24) =~= le_bytes(h.payload_size as nat, 4));
    lemma_int_read_back(s, 0, h.sequence as nat, 8);
    lemma_int_read_back(s, 8, h.pts_us as nat, 8);
    lemma_int_read_back(s, 16, h.sample_count as nat, 4);
    lemma_int_read_back(s, 20, h.payload_size as nat, 4);
}

/// The sizes of the headers, and the room that is set aside for a frame header.
pub proof fn law_header_sizes()
    ensures
        PacketHeader::SIZE == 32,
        VideoFrameHeader::ENCODED_SIZE == 33,
        VideoFrameHeader::SIZE == 40,
        AudioPacketHeader::SIZE == 24,
{
}

} // verus!
