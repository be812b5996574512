//! Control messages as bytes.
use crate::bytes::{
    le_bytes, le_value, lemma_le_bytes_len, lemma_le_round_trip, lemma_le_value_bytes,
    lemma_pow256_widths,
};
use crate::error::WireError;
use crate::headers::{lemma_int_read_back, lemma_int_was_written};
use crate::protocol::{
    AudioCodec, AudioConfig, ControlMessage, HelloMessage, LatencyReport, PixelFormat, VideoCodec,
    VideoConfig, WelcomeMessage,
};
use crate::wire::{
    blob_of, get_string, get_u16, get_u32, get_u64, int_at, put_str, put_u16, put_u32, put_u64,
    string_bytes, string_error,
};
use vstd::prelude::*;
use vstd::slice::slice_subrange;
use vstd::utf8::{
    decode_utf8, decode_utf8_encode_utf8, encode_utf8, encode_utf8_decode_utf8,
    encode_utf8_valid_utf8,
};

verus! {

broadcast use lemma_le_bytes_len;

/// What a `Hello` message says.
pub struct HelloView {
    pub client_name: Seq<char>,
    pub protocol_version: u32,
    pub video_config: VideoConfig,
    pub audio_config: AudioConfig,
}

/// What a `Welcome` message says.
pub struct WelcomeView {
    pub server_name: Seq<char>,
    pub video_config: VideoConfig,
    pub audio_config: AudioConfig,
    pub video_port: u16,
    pub audio_port: u16,
}

/// What a control message says.
pub enum ControlView {
    Hello(HelloView),
    Welcome(WelcomeView),
    ConfigureVideo(VideoConfig),
    ConfigureAudio(AudioConfig),
    StartStream,
    StopStream,
    LatencyReport(LatencyReport),
    Disconnect,
    RequestKeyframe,
}

impl View for HelloMessage {
    type V = HelloView;

    open spec fn view(&self) -> HelloView {
        HelloView {
            client_name: self.client_name@,
            protocol_version: self.protocol_version,
            video_config: self.video_config,
            audio_config: self.audio_config,
        }
    }
}

impl View for WelcomeMessage {
    type V = WelcomeView;

    open spec fn view(&self) -> WelcomeView {
        WelcomeView {
            server_name: self.server_name@,
            video_config: self.video_config,
            audio_config: self.audio_config,
            video_port: self.video_port,
            audio_port: self.audio_port,
        }
    }
}

impl View for ControlMessage {
    type V = ControlView;

    open spec fn view(&self) -> ControlView {
        match self {
            ControlMessage::Hello(m) => ControlView::Hello(m@),
            ControlMessage::Welcome(m) => ControlView::Welcome(m@),
            ControlMessage::ConfigureVideo(c) => ControlView::ConfigureVideo(*c),
            ControlMessage::ConfigureAudio(c) => ControlView::ConfigureAudio(*c),
            ControlMessage::StartStream => ControlView::StartStream,
            ControlMessage::StopStream => ControlView::StopStream,
            ControlMessage::LatencyReport(r) => ControlView::LatencyReport(*r),
            ControlMessage::Disconnect => ControlView::Disconnect,
            ControlMessage::RequestKeyframe => ControlView::RequestKeyframe,
        }
    }
}

impl VideoConfig {
    /// Length of an encoded video configuration.
    pub const ENCODED_SIZE: usize = 24;

    /// The configuration in bytes.
    pub open spec fn encoding(self) -> Seq<u8> {
        le_bytes(self.width as nat, 4) + le_bytes(self.height as nat, 4) + le_bytes(
            self.fps as nat,
            4,
        ) + le_bytes(self.codec.place() as nat, 4) + le_bytes(self.bitrate as nat, 4) + le_bytes(
            self.pixel_format.place() as nat,
            4,
        )
    }

    /// Whether the configuration at the start of `s` can be read, and what stops it.
    pub open spec fn read_error(s: Seq<u8>) -> Option<WireError> {
        if s.len() >= 16 && int_at(s, 12, 4) > 2 {
            Some(WireError::InvalidVariant(int_at(s, 12, 4) as u32, 3))
        } else if s.len() < 24 {
            Some(WireError::UnexpectedEnd)
        } else if int_at(s, 20, 4) > 3 {
            Some(WireError::InvalidVariant(int_at(s, 20, 4) as u32, 4))
        } else {
            None
        }
    }

    /// Appends the encoding.
    pub fn put(&self, out: &mut Vec<u8>)
        ensures
            final(out)@ == old(out)@ + self.encoding(),
    {
        put_u32(out, self.width);
        put_u32(out, self.height);
        put_u32(out, self.fps);
        put_u32(out, self.codec.index());
        put_u32(out, self.bitrate);
        put_u32(out, self.pixel_format.index());
        assert(out@ =~= old(out)@ + self.encoding());
    }

    /// Reads the configuration at the start of `data`.
    pub fn get(data: &[u8]) -> (r: Result<VideoConfig, WireError>)
        ensures
            match r {
                Ok(c) => VideoConfig::read_error(data@) is None && c.encoding() == data@.take(
                    VideoConfig::ENCODED_SIZE as int,
                ),
                Err(e) => VideoConfig::read_error(data@) == Some(e),
            },
    {
        let width: u32 = get_u32(data, 0)?;
        let height: u32 = get_u32(data, 4)?;
        let fps: u32 = get_u32(data, 8)?;
        let codec_index: u32 = get_u32(data, 12)?;
        let codec = match VideoCodec::from_index(codec_index) {
            Some(c) => c,
            None => {
                return Err(WireError::InvalidVariant(codec_index, 3));
            },
        };
        let bitrate: u32 = get_u32(data, 16)?;
        let format_index: u32 = get_u32(data, 20)?;
        let pixel_format = match PixelFormat::from_index(format_index) {
            Some(f) => f,
            None => {
                return Err(WireError::InvalidVariant(format_index, 4));
            },
        };
        let c = VideoConfig { width, height, fps, codec, bitrate, pixel_format };
        proof {
            let d = data@;
            lemma_int_was_written(d, 0, 4);
            lemma_int_was_written(d, 4, 4);
            lemma_int_was_written(d, 8, 4);
            lemma_int_was_written(d, 12, 4);
            lemma_int_was_written(d, 16, 4);
            lemma_int_was_written(d, 20, 4);
            assert(d.take(24) =~= d.subrange(0, 4) + d.subrange(4, 8) + d.subrange(8, 12)
                + d.subrange(12, 16) + d.subrange(16, 20) + d.subrange(20, 24));
        }
        Ok(c)
    }
}

impl AudioConfig {
    /// Length of an encoded audio configuration.
    pub const ENCODED_SIZE: usize = 16;

    /// The configuration in bytes.
    pub open spec fn encoding(self) -> Seq<u8> {
        le_bytes(self.sample_rate as nat, 4) + le_bytes(self.channels as nat, 2) + le_bytes(
            self.codec.place() as nat,
            4,
        ) + le_bytes(self.bits_per_sample as nat, 2) + le_bytes(self.buffer_size as nat, 4)
    }

    /// Whether the configuration at the start of `s` can be read, and what stops it.
    pub open spec fn read_error(s: Seq<u8>) -> Option<WireError> {
        if s.len() >= 10 && int_at(s, 6, 4) > 1 {
            Some(WireError::InvalidVariant(int_at(s, 6, 4) as u32, 2))
        } else if s.len() < 16 {
            Some(WireError::UnexpectedEnd)
        } else {
            None
        }
    }

    /// Appends the encoding.
    pub fn put(&self, out: &mut Vec<u8>)
        ensures
            final(out)@ == old(out)@ + self.encoding(),
    {
        put_u32(out, self.sample_rate);
        put_u16(out, self.channels);
        put_u32(out, self.codec.index());
        put_u16(out, self.bits_per_sample);
        put_u32(out, self.buffer_size);
        assert(out@ =~= old(out)@ + self.encoding());
    }

    /// Reads the configuration at the start of `data`.
    pub fn get(data: &[u8]) -> (r: Result<AudioConfig, WireError>)
        ensures
            match r {
                Ok(c) => AudioConfig::read_error(data@) is None && c.encoding() == data@.take(
                    AudioConfig::ENCODED_SIZE as int,
                ),
                Err(e) => AudioConfig::read_error(data@) == Some(e),
            },
    {
        let sample_rate: u32 = get_u32(data, 0)?;
        let channels: u16 = get_u16(data, 4)?;
        let codec_index: u32 = get_u32(data, 6)?;
        let codec = match AudioCodec::from_index(codec_index) {
            Some(c) => c,
            None => {
                return Err(WireError::InvalidVariant(codec_index, 2));
            },
        };
        let bits_per_sample: u16 = get_u16(data, 10)?;
        let buffer_size: u32 = get_u32(data, 12)?;
        let c = AudioConfig { sample_rate, channels, codec, bits_per_sample, buffer_size };
        proof {
            let d = data@;
            lemma_int_was_written(d, 0, 4);
            lemma_int_was_written(d, 4, 2);
            lemma_int_was_written(d, 6, 4);
            lemma_int_was_written(d, 10, 2);
            lemma_int_was_written(d, 12, 4);
            assert(d.take(16) =~= d.subrange(0, 4) + d.subrange(4, 6) + d.subrange(6, 10)
                + d.subrange(10, 12) + d.subrange(12, 16));
        }
        Ok(c)
    }
}

impl LatencyReport {
    /// Length of an encoded report.
    pub const ENCODED_SIZE: usize = 36;

    /// The report in bytes.
    pub open spec fn encoding(self) -> Seq<u8> {
        le_bytes(self.rtt_us as nat, 8) + le_bytes(self.decode_latency_us as nat, 8) + le_bytes(
            self.display_latency_us as nat,
            8,
        ) + le_bytes(self.packet_loss_bits as nat, 4) + le_bytes(self.jitter_us as nat, 8)
    }

    /// Appends the encoding.
    pub fn put(&self, out: &mut Vec<u8>)
        ensures
            final(out)@ == old(out)@ + self.encoding(),
    {
        put_u64(out, self.rtt_us);
        put_u64(out, self.decode_latency_us);
        put_u64(out, self.display_latency_us);
        put_u32(out, self.packet_loss_bits);
        put_u64(out, self.jitter_us);
        assert(out@ =~= old(out)@ + self.encoding());
    }

    /// Reads the report at the start of `data`.
    pub fn get(data: &[u8]) -> (r: Result<LatencyReport, WireError>)
        ensures
            match r {
                Ok(c) => data@.len() >= LatencyReport::ENCODED_SIZE && c.encoding() == data@.take(
                    LatencyReport::ENCODED_SIZE as int,
                ),
                Err(e) => data@.len() < LatencyReport::ENCODED_SIZE && e
                    == WireError::UnexpectedEnd,
            },
    {
        let rtt_us: u64 = get_u64(data, 0)?;
        let decode_latency_us: u64 = get_u64(data, 8)?;
        let display_latency_us: u64 = get_u64(data, 16)?;
        let packet_loss_bits: u32 = get_u32(data, 24)?;
        let jitter_us: u64 = get_u64(data, 28)?;
        proof {
            let d = data@;
            lemma_int_was_written(d, 0, 8);
            lemma_int_was_written(d, 8, 8);
            lemma_int_was_written(d, 16, 8);
            lemma_int_was_written(d, 24, 4);
            lemma_int_was_written(d, 28, 8);
            assert(d.take(36) =~= d.subrange(0, 8) + d.subrange(8, 16) + d.subrange(16, 24)
                + d.subrange(24, 28) + d.subrange(28, 36));
        }
        Ok(
            LatencyReport {
                rtt_us,
                decode_latency_us,
                display_latency_us,
                packet_loss_bits,
                jitter_us,
            },
        )
    }
}

/// What stands behind the string at the start of `s`.
pub open spec fn behind_string(s: Seq<u8>) -> Seq<u8> {
    s.skip(8 + blob_of(s).len() as int)
}

impl HelloView {
    /// The message in bytes.
    pub open spec fn encoding(self) -> Seq<u8> {
        string_bytes(self.client_name) + le_bytes(self.protocol_version as nat, 4)
            + self.video_config.encoding() + self.audio_config.encoding()
    }

    /// Whether the message at the start of `s` can be read, and what stops it.
    pub open spec fn read_error(s: Seq<u8>) -> Option<WireError> {
        let t = behind_string(s);
        if string_error(s) is Some {
            string_error(s)
        } else if t.len() < 4 {
            Some(WireError::UnexpectedEnd)
        } else if VideoConfig::read_error(t.skip(4)) is Some {
            VideoConfig::read_error(t.skip(4))
        } else {
            AudioConfig::read_error(t.skip(28))
        }
    }
}

impl WelcomeView {
    /// The message in bytes.
    pub open spec fn encoding(self) -> Seq<u8> {
        string_bytes(self.server_name) + self.video_config.encoding()
            + self.audio_config.encoding() + le_bytes(self.video_port as nat, 2) + le_bytes(
            self.audio_port as nat,
            2,
        )
    }

    /// Whether the message at the start of `s` can be read, and what stops it.
    pub open spec fn read_error(s: Seq<u8>) -> Option<WireError> {
        let t = behind_string(s);
        if string_error(s) is Some {
            string_error(s)
        } else if VideoConfig::read_error(t) is Some {
            VideoConfig::read_error(t)
        } else if AudioConfig::read_error(t.skip(24)) is Some {
            AudioConfig::read_error(t.skip(24))
        } else if t.len() < 44 {
            Some(WireError::UnexpectedEnd)
        } else {
            None
        }
    }
}

impl ControlView {
    /// The variant's place in the enumeration, by which it travels.
    pub open spec fn place(self) -> nat {
        match self {
            ControlView::Hello(_) => 0,
            ControlView::Welcome(_) => 1,
            ControlView::ConfigureVideo(_) => 2,
            ControlView::ConfigureAudio(_) => 3,
            ControlView::StartStream => 4,
            ControlView::StopStream => 5,
            ControlView::LatencyReport(_) => 6,
            ControlView::Disconnect => 7,
            ControlView::RequestKeyframe => 8,
        }
    }

    /// The contents of the variant in bytes.
    pub open spec fn body(self) -> Seq<u8> {
        match self {
            ControlView::Hello(m) => m.encoding(),
            ControlView::Welcome(m) => m.encoding(),
            ControlView::ConfigureVideo(c) => c.encoding(),
            ControlView::ConfigureAudio(c) => c.encoding(),
            ControlView::LatencyReport(r) => r.encoding(),
            _ => Seq::empty(),
        }
    }

    /// The message in bytes.
    pub open spec fn encoding(self) -> Seq<u8> {
        le_bytes(self.place(), 4) + self.body()
    }

    /// Whether the message at the start of `s` can be read, and what stops it.
    pub open spec fn read_error(s: Seq<u8>) -> Option<WireError> {
        let place = int_at(s, 0, 4);
        let t = s.skip(4);
        if s.len() < 4 {
            Some(WireError::UnexpectedEnd)
        } else if place == 0 {
            HelloView::read_error(t)
        } else if place == 1 {
            WelcomeView::read_error(t)
        } else if place == 2 {
            VideoConfig::read_error(t)
        } else if place == 3 {
            AudioConfig::read_error(t)
        } else if place == 6 {
            if t.len() < LatencyReport::ENCODED_SIZE {
                Some(WireError::UnexpectedEnd)
            } else {
                None
            }
        } else if place > 8 {
            Some(WireError::InvalidVariant(place as u32, 9))
        } else {
            None
        }
    }

    /// Whether the strings in the message are short enough for their length to
    /// be written, as every string in memory is.
    pub open spec fn fits(self) -> bool {
        match self {
            ControlView::Hello(m) => encode_utf8(m.client_name).len() <= usize::MAX,
            ControlView::Welcome(m) => encode_utf8(m.server_name).len() <= usize::MAX,
            _ => true,
        }
    }
}

/// The bytes that a string was read from are its encoding.
proof fn lemma_string_was_written(s: Seq<u8>)
    requires
        string_error(s) is None,
    ensures
        string_bytes(decode_utf8(blob_of(s))) == s.take(8 + blob_of(s).len() as int),
{
    let b = blob_of(s);
    decode_utf8_encode_utf8(b);
    lemma_le_value_bytes(s.take(8));
    assert(b.len() == le_value(s.take(8)));
    assert(s.take(8 + b.len() as int) =~= s.take(8) + b);
}

/// A string's encoding, with anything behind it, reads back as the string.
proof fn lemma_string_reads_back(c: Seq<char>, rest: Seq<u8>)
    requires
        encode_utf8(c).len() <= usize::MAX,
    ensures
        ({
            let s = string_bytes(c) + rest;
            &&& string_error(s) is None
            &&& blob_of(s) == encode_utf8(c)
            &&& decode_utf8(blob_of(s)) == c
            &&& behind_string(s) == rest
        }),
{
    let s = string_bytes(c) + rest;
    let b = encode_utf8(c);
    lemma_pow256_widths();
    assert(s.take(8) =~= le_bytes(b.len(), 8));
    lemma_le_round_trip(b.len(), 8);
    assert(blob_of(s) =~= b);
    encode_utf8_valid_utf8(c);
    encode_utf8_decode_utf8(c);
    assert(behind_string(s) =~= rest);
}

impl HelloMessage {
    /// Reads the message at the start of `data`.
    #[verifier::rlimit(60)]
    fn get(data: &[u8]) -> (r: Result<HelloMessage, WireError>)
        ensures
            match r {
                Ok(m) => HelloView::read_error(data@) is None && m@.encoding().is_prefix_of(data@),
                Err(e) => HelloView::read_error(data@) == Some(e),
            },
    {
        let ghost d = data@;
        assert(d.skip(0) =~= d);
        let (client_name, end): (String, usize) = get_string(data, 0)?;
        let ghost t = behind_string(d);
        let rest = slice_subrange(data, end, data.len());
        assert(rest@ =~= t);
        let protocol_version: u32 = get_u32(rest, 0)?;
        let video = slice_subrange(rest, 4, rest.len());
        assert(video@ =~= t.skip(4));
        let video_config = VideoConfig::get(video)?;
        let audio = slice_subrange(rest, 28, rest.len());
        assert(audio@ =~= t.skip(28));
        let audio_config = AudioConfig::get(audio)?;
        let m = HelloMessage { client_name, protocol_version, video_config, audio_config };
        proof {
            lemma_string_was_written(d);
            lemma_int_was_written(t, 0, 4);
            let e = m@.encoding();
            assert(e =~= d.take(end as int) + t.subrange(0, 4) + t.skip(4).take(24) + t.skip(
                28,
            ).take(16));
            assert(e =~= d.subrange(0, e.len() as int));
        }
        Ok(m)
    }
}

impl WelcomeMessage {
    /// Reads the message at the start of `data`.
    #[verifier::rlimit(60)]
    fn get(data: &[u8]) -> (r: Result<WelcomeMessage, WireError>)
        ensures
            match r {
                Ok(m) => WelcomeView::read_error(data@) is None && m@.encoding().is_prefix_of(
                    data@,
                ),
                Err(e) => WelcomeView::read_error(data@) == Some(e),
            },
    {
        let ghost d = data@;
        assert(d.skip(0) =~= d);
        let (server_name, end): (String, usize) = get_string(data, 0)?;
        let ghost t = behind_string(d);
        let rest = slice_subrange(data, end, data.len());
        assert(rest@ =~= t);
        let video_config = VideoConfig::get(rest)?;
        let audio = slice_subrange(rest, 24, rest.len());
        assert(audio@ =~= t.skip(24));
        let audio_config = AudioConfig::get(audio)?;
        let video_port: u16 = get_u16(rest, 40)?;
        let audio_port: u16 = get_u16(rest, 42)?;
        let m = WelcomeMessage { server_name, video_config, audio_config, video_port, audio_port };
        proof {
            lemma_string_was_written(d);
            lemma_int_was_written(t, 40, 2);
            lemma_int_was_written(t, 42, 2);
            let e = m@.encoding();
            assert(e =~= d.take(end as int) + t.take(24) + t.skip(24).take(16) + t.subrange(40, 42)
                + t.subrange(42, 44));
            assert(e =~= d.subrange(0, e.len() as int));
        }
        Ok(m)
    }
}

impl ControlMessage {
    /// Serialize message to bytes.
    pub fn to_bytes(&self) -> (r: Result<Vec<u8>, WireError>)
        ensures
            r matches Ok(v) && v@ == self@.encoding(),
    {
        let mut out: Vec<u8> = Vec::new();
        match self {
            ControlMessage::Hello(m) => {
                put_u32(&mut out, 0);
                put_str(&mut out, m.client_name.as_str());
                put_u32(&mut out, m.protocol_version);
                m.video_config.put(&mut out);
                m.audio_config.put(&mut out);
            },
            ControlMessage::Welcome(m) => {
                put_u32(&mut out, 1);
                put_str(&mut out, m.server_name.as_str());
                m.video_config.put(&mut out);
                m.audio_config.put(&mut out);
                put_u16(&mut out, m.video_port);
                put_u16(&mut out, m.audio_port);
            },
            ControlMessage::ConfigureVideo(c) => {
                put_u32(&mut out, 2);
                c.put(&mut out);
            },
            ControlMessage::ConfigureAudio(c) => {
                put_u32(&mut out, 3);
                c.put(&mut out);
            },
            ControlMessage::StartStream => {
                put_u32(&mut out, 4);
            },
            ControlMessage::StopStream => {
                put_u32(&mut out, 5);
            },
            ControlMessage::LatencyReport(r) => {
                put_u32(&mut out, 6);
                r.put(&mut out);
            },
            ControlMessage::Disconnect => {
                put_u32(&mut out, 7);
            },
            ControlMessage::RequestKeyframe => {
                put_u32(&mut out, 8);
            },
        }
        assert(out@ =~= self@.encoding());
        Ok(out)
    }

    /// Deserialize message from bytes. Bytes behind the message are left alone.
    pub fn from_bytes(data: &[u8]) -> (r: Result<Self, WireError>)
        ensures
            match r {
                Ok(m) => ControlView::read_error(data@) is None && m@.encoding().is_prefix_of(
                    data@,
                ),
                Err(e) => ControlView::read_error(data@) == Some(e),
            },
    {
        let ghost d = data@;
        let place: u32 = get_u32(data, 0)?;
        let rest = slice_subrange(data, 4, data.len());
        assert(rest@ =~= d.skip(4));
        proof {
            lemma_int_was_written(d, 0, 4);
        }
        let m = match place {
            0 => ControlMessage::Hello(HelloMessage::get(rest)?),
            1 => ControlMessage::Welcome(WelcomeMessage::get(rest)?),
            2 => ControlMessage::ConfigureVideo(VideoConfig::get(rest)?),
            3 => ControlMessage::ConfigureAudio(AudioConfig::get(rest)?),
            4 => ControlMessage::StartStream,
            5 => ControlMessage::StopStream,
            6 => ControlMessage::LatencyReport(LatencyReport::get(rest)?),
            7 => ControlMessage::Disconnect,
            8 => ControlMessage::RequestKeyframe,
            _ => {
                return Err(WireError::InvalidVariant(place, 9));
            },
        };
        proof {
            let body = m@.body();
            assert(m@.place() == place);
            assert(body =~= d.skip(4).take(body.len() as int));
            assert(m@.encoding() =~= d.subrange(0, 4 + body.len() as int));
        }
        Ok(m)
    }
}

/// Where `s` starts with the encoding of a video configuration, it can be read.
proof fn lemma_video_config_reads_back(c: VideoConfig, rest: Seq<u8>)
    ensures
        VideoConfig::read_error(c.encoding() + rest) is None,
        c.encoding().len() == 24,
{
    lemma_pow256_widths();
    let s = c.encoding() + rest;
    assert(s.subrange(12, 16) =~= le_bytes(c.codec.place() as nat, 4));
    lemma_int_read_back(s, 12, c.codec.place() as nat, 4);
    assert(s.subrange(20, 24) =~= le_bytes(c.pixel_format.place() as nat, 4));
    lemma_int_read_back(s, 20, c.pixel_format.place() as nat, 4);
}

/// Where `s` starts with the encoding of an audio configuration, it can be read.
proof fn lemma_audio_config_reads_back(c: AudioConfig, rest: Seq<u8>)
    ensures
        AudioConfig::read_error(c.encoding() + rest) is None,
        c.encoding().len() == 16,
{
    lemma_pow256_widths();
    let s = c.encoding() + rest;
    assert(s.subrange(6, 10) =~= le_bytes(c.codec.place() as nat, 4));
    lemma_int_read_back(s, 6, c.codec.place() as nat, 4);
}

/// No two video configurations share an encoding.
pub proof fn law_video_config_encoding_is_injective(a: VideoConfig, b: VideoConfig)
    requires
        a.encoding() == b.encoding(),
    ensures
        a == b,
{
    lemma_pow256_widths();
    let s = a.encoding();
    let t = b.encoding();
    assert(s.subrange(0, 4) =~= le_bytes(a.width as nat, 4));
    assert(t.subrange(0, 4) =~= le_bytes(b.width as nat, 4));
    assert(s.subrange(4, 8) =~= le_bytes(a.height as nat, 4));
    assert(t.subrange(4, 8) =~= le_bytes(b.height as nat, 4));
    assert(s.subrange(8, 12) =~= le_bytes(a.fps as nat, 4));
    assert(t.subrange(8, 12) =~= le_bytes(b.fps as nat, 4));
    assert(s.subrange(12, 16) =~= le_bytes(a.codec.place() as nat, 4));
    assert(t.subrange(12, 16) =~= le_bytes(b.codec.place() as nat, 4));
    assert(s.subrange(16, 20) =~= le_bytes(a.bitrate as nat, 4));
    assert(t.subrange(16, 20) =~= le_bytes(b.bitrate as nat, 4));
    assert(s.subrange(20, 24) =~= le_bytes(a.pixel_format.place() as nat, 4));
    assert(t.subrange(20, 24) =~= le_bytes(b.pixel_format.place() as nat, 4));
    lemma_le_round_trip(a.width as nat, 4);
    lemma_le_round_trip(b.width as nat, 4);
    lemma_le_round_trip(a.height as nat, 4);
    lemma_le_round_trip(b.height as nat, 4);
    lemma_le_round_trip(a.fps as nat, 4);
    lemma_le_round_trip(b.fps as nat, 4);
    lemma_le_round_trip(a.codec.place() as nat, 4);
    lemma_le_round_trip(b.codec.place() as nat, 4);
    lemma_le_round_trip(a.bitrate as nat, 4);
    lemma_le_round_trip(b.bitrate as nat, 4);
    lemma_le_round_trip(a.pixel_format.place() as nat, 4);
    lemma_le_round_trip(b.pixel_format.place() as nat, 4);
}

/// No two audio configurations share an encoding.
pub proof fn law_audio_config_encoding_is_injective(a: AudioConfig, b: AudioConfig)
    requires
        a.encoding() == b.encoding(),
    ensures
        a == b,
{
    lemma_pow256_widths();
    let s = a.encoding();
    let t = b.encoding();
    assert(s.subrange(0, 4) =~= le_bytes(a.sample_rate as nat, 4));
    assert(t.subrange(0, 4) =~= le_bytes(b.sample_rate as nat, 4));
    assert(s.subrange(4, 6) =~= le_bytes(a.channels as nat, 2));
    assert(t.subrange(4, 6) =~= le_bytes(b.channels as nat, 2));
    assert(s.subrange(6, 10) =~= le_bytes(a.codec.place() as nat, 4));
    assert(t.subrange(6, 10) =~= le_bytes(b.codec.place() as nat, 4));
    assert(s.subrange(10, 12) =~= le_bytes(a.bits_per_sample as nat, 2));
    assert(t.subrange(10, 12) =~= le_bytes(b.bits_per_sample as nat, 2));
    assert(s.subrange(12, 16) =~= le_bytes(a.buffer_size as nat, 4));
    assert(t.subrange(12, 16) =~= le_bytes(b.buffer_size as nat, 4));
    lemma_le_round_trip(a.sample_rate as nat, 4);
    lemma_le_round_trip(b.sample_rate as nat, 4);
    lemma_le_round_trip(a.channels as nat, 2);
    lemma_le_round_trip(b.channels as nat, 2);
    lemma_le_round_trip(a.codec.place() as nat, 4);
    lemma_le_round_trip(b.codec.place() as nat, 4);
    lemma_le_round_trip(a.bits_per_sample as nat, 2);
    lemma_le_round_trip(b.bits_per_sample as nat, 2);
    lemma_le_round_trip(a.buffer_size as nat, 4);
    lemma_le_round_trip(b.buffer_size as nat, 4);
}

/// No two latency reports share an encoding.
pub proof fn law_latency_report_encoding_is_injective(a: LatencyReport, b: LatencyReport)
    requires
        a.encoding() == b.encoding(),
    ensures
        a == b,
{
    lemma_pow256_widths();
    let s = a.encoding();
    let t = b.encoding();
    assert(s.subrange(0, 8) =~= le_bytes(a.rtt_us as nat, 8));
    assert(t.subrange(0, 8) =~= le_bytes(b.rtt_us as nat, 8));
    assert(s.subrange(8, 16) =~= le_bytes(a.decode_latency_us as nat, 8));
    assert(t.subrange(8, 16) =~= le_bytes(b.decode_latency_us as nat, 8));
    assert(s.subrange(16, 24) =~= le_bytes(a.display_latency_us as nat, 8));
    assert(t.subrange(16, 24) =~= le_bytes(b.display_latency_us as nat, 8));
    assert(s.subrange(24, 28) =~= le_bytes(a.packet_loss_bits as nat, 4));
    assert(t.subrange(24, 28) =~= le_bytes(b.packet_loss_bits as nat, 4));
    assert(s.subrange(28, 36) =~= le_bytes(a.jitter_us as nat, 8));
    assert(t.subrange(28, 36) =~= le_bytes(b.jitter_us as nat, 8));
    lemma_le_round_trip(a.rtt_us as nat, 8);
    lemma_le_round_trip(b.rtt_us as nat, 8);
    lemma_le_round_trip(a.decode_latency_us as nat, 8);
    lemma_le_round_trip(b.decode_latency_us as nat, 8);
    lemma_le_round_trip(a.display_latency_us as nat, 8);
    lemma_le_round_trip(b.display_latency_us as nat, 8);
    lemma_le_round_trip(a.packet_loss_bits as nat, 4);
    lemma_le_round_trip(b.packet_loss_bits as nat, 4);
    lemma_le_round_trip(a.jitter_us as nat, 8);
    lemma_le_round_trip(b.jitter_us as nat, 8);
}

/// A `Hello` reads back from its encoding, with anything behind it.
proof fn lemma_hello_reads_back(h: HelloView, rest: Seq<u8>)
    requires
        encode_utf8(h.client_name).len() <= usize::MAX,
    ensures
        HelloView::read_error(h.encoding() + rest) is None,
{
    let version = le_bytes(h.protocol_version as nat, 4);
    let video = h.video_config.encoding();
    let audio = h.audio_config.encoding();
    let tail = version + (video + (audio + rest));
    assert(h.encoding() + rest =~= string_bytes(h.client_name) + tail);
    lemma_string_reads_back(h.client_name, tail);
    lemma_video_config_reads_back(h.video_config, audio + rest);
    lemma_audio_config_reads_back(h.audio_config, rest);
    assert(tail.skip(4) =~= video + (audio + rest));
    assert(tail.skip(28) =~= audio + rest);
}

/// A `Welcome` reads back from its encoding, with anything behind it.
proof fn lemma_welcome_reads_back(w: WelcomeView, rest: Seq<u8>)
    requires
        encode_utf8(w.server_name).len() <= usize::MAX,
    ensures
        WelcomeView::read_error(w.encoding() + rest) is None,
{
    let video = w.video_config.encoding();
    let audio = w.audio_config.encoding();
    let ports = le_bytes(w.video_port as nat, 2) + le_bytes(w.audio_port as nat, 2) + rest;
    let tail = video + (audio + ports);
    assert(w.encoding() + rest =~= string_bytes(w.server_name) + tail);
    lemma_string_reads_back(w.server_name, tail);
    lemma_video_config_reads_back(w.video_config, audio + ports);
    lemma_audio_config_reads_back(w.audio_config, ports);
    assert(tail.skip(24) =~= audio + ports);
}

/// Reading a control message back from its encoding, with anything behind it,
/// succeeds.
pub proof fn law_control_message_reads_back(m: ControlView, rest: Seq<u8>)
    requires
        m.fits(),
    ensures
        ControlView::read_error(m.encoding() + rest) is None,
{
    lemma_pow256_widths();
    let body = m.body();
    let s = le_bytes(m.place(), 4) + body + rest;
    assert(s.subrange(0, 4) =~= le_bytes(m.place(), 4));
    lemma_int_read_back(s, 0, m.place(), 4);
    assert(s.skip(4) =~= body + rest);
    match m {
        ControlView::Hello(h) => {
            lemma_hello_reads_back(h, rest);
        },
        ControlView::Welcome(w) => {
            lemma_welcome_reads_back(w, rest);
        },
        ControlView::ConfigureVideo(c) => {
            lemma_video_config_reads_back(c, rest);
        },
        ControlView::ConfigureAudio(c) => {
            lemma_audio_config_reads_back(c, rest);
        },
        _ => {},
    }
}

/// No byte sequence starts with the encodings of two control messages: what was
/// read is what was written.
#[verifier::rlimit(60)]
pub proof fn law_control_message_is_read_one_way(a: ControlView, b: ControlView, s: Seq<u8>)
    requires
        a.fits(),
        b.fits(),
        a.encoding().is_prefix_of(s),
        b.encoding().is_prefix_of(s),
    ensures
        a == b,
{
    lemma_pow256_widths();
    assert(s.subrange(0, 4) =~= a.encoding().subrange(0, 4));
    assert(s.subrange(0, 4) =~= b.encoding().subrange(0, 4));
    assert(a.encoding().subrange(0, 4) =~= le_bytes(a.place(), 4));
    assert(b.encoding().subrange(0, 4) =~= le_bytes(b.place(), 4));
    lemma_le_round_trip(a.place(), 4);
    lemma_le_round_trip(b.place(), 4);
    let t = s.skip(4);
    assert(a.body() =~= t.subrange(0, a.body().len() as int)) by {
        assert(a.encoding().skip(4) =~= a.body());
    }
    assert(b.body() =~= t.subrange(0, b.body().len() as int)) by {
        assert(b.encoding().skip(4) =~= b.body());
    }
    match (a, b) {
        (ControlView::Hello(x), ControlView::Hello(y)) => {
            lemma_hello_is_read_one_way(x, y, t);
        },
        (ControlView::Welcome(x), ControlView::Welcome(y)) => {
            lemma_welcome_is_read_one_way(x, y, t);
        },
        (ControlView::ConfigureVideo(x), ControlView::ConfigureVideo(y)) => {
            law_video_config_encoding_is_injective(x, y);
        },
        (ControlView::ConfigureAudio(x), ControlView::ConfigureAudio(y)) => {
            law_audio_config_encoding_is_injective(x, y);
        },
        (ControlView::LatencyReport(x), ControlView::LatencyReport(y)) => {
            law_latency_report_encoding_is_injective(x, y);
        },
        _ => {},
    }
}

/// A string at the start of a byte sequence is read one way.
proof fn lemma_string_is_read_one_way(a: Seq<char>, b: Seq<char>, s: Seq<u8>)
    requires
        encode_utf8(a).len() <= usize::MAX,
        encode_utf8(b).len() <= usize::MAX,
        string_bytes(a).is_prefix_of(s),
        string_bytes(b).is_prefix_of(s),
    ensures
        a == b,
{
    let x = s.skip(string_bytes(a).len() as int);
    let y = s.skip(string_bytes(b).len() as int);
    assert(s =~= string_bytes(a) + x);
    assert(s =~= string_bytes(b) + y);
    lemma_string_reads_back(a, x);
    lemma_string_reads_back(b, y);
}

proof fn lemma_hello_is_read_one_way(x: HelloView, y: HelloView, t: Seq<u8>)
    requires
        encode_utf8(x.client_name).len() <= usize::MAX,
        encode_utf8(y.client_name).len() <= usize::MAX,
        x.encoding().is_prefix_of(t),
        y.encoding().is_prefix_of(t),
    ensures
        x == y,
{
    lemma_pow256_widths();
    let n = string_bytes(x.client_name).len() as int;
    let m = string_bytes(y.client_name).len() as int;
    assert(string_bytes(x.client_name) =~= t.subrange(0, n)) by {
        assert(x.encoding().subrange(0, n) =~= string_bytes(x.client_name));
    }
    assert(string_bytes(y.client_name) =~= t.subrange(0, m)) by {
        assert(y.encoding().subrange(0, m) =~= string_bytes(y.client_name));
    }
    lemma_string_is_read_one_way(x.client_name, y.client_name, t);
    let e = x.encoding();
    assert(x.encoding() =~= y.encoding());
    assert(e.subrange(n, n + 4) =~= le_bytes(x.protocol_version as nat, 4));
    assert(e.subrange(n, n + 4) =~= le_bytes(y.protocol_version as nat, 4));
    lemma_le_round_trip(x.protocol_version as nat, 4);
    lemma_le_round_trip(y.protocol_version as nat, 4);
    assert(e.subrange(n + 4, n + 28) =~= x.video_config.encoding());
    assert(e.subrange(n + 4, n + 28) =~= y.video_config.encoding());
    law_video_config_encoding_is_injective(x.video_config, y.video_config);
    assert(e.subrange(n + 28, n + 44) =~= x.audio_config.encoding());
    assert(e.subrange(n + 28, n + 44) =~= y.audio_config.encoding());
    law_audio_config_encoding_is_injective(x.audio_config, y.audio_config);
}

proof fn lemma_welcome_is_read_one_way(x: WelcomeView, y: WelcomeView, t: Seq<u8>)
    requires
        encode_utf8(x.server_name).len() <= usize::MAX,
        encode_utf8(y.server_name).len() <= usize::MAX,
        x.encoding().is_prefix_of(t),
        y.encoding().is_prefix_of(t),
    ensures
        x == y,
{
    lemma_pow256_widths();
    let n = string_bytes(x.server_name).len() as int;
    let m = string_bytes(y.server_name).len() as int;
    assert(string_bytes(x.server_name) =~= t.subrange(0, n)) by {
        assert(x.encoding().subrange(0, n) =~= string_bytes(x.server_name));
    }
    assert(string_bytes(y.server_name) =~= t.subrange(0, m)) by {
        assert(y.encoding().subrange(0, m) =~= string_bytes(y.server_name));
    }
    lemma_string_is_read_one_way(x.server_name, y.server_name, t);
    let e = x.encoding();
    assert(x.encoding() =~= y.encoding());
    assert(e.subrange(n, n + 24) =~= x.video_config.encoding());
    assert(e.subrange(n, n + 24) =~= y.video_config.encoding());
    law_video_config_encoding_is_injective(x.video_config, y.video_config);
    assert(e.subrange(n + 24, n + 40) =~= x.audio_config.encoding());
    assert(e.subrange(n + 24, n + 40) =~= y.audio_config.encoding());
    law_audio_config_encoding_is_injective(x.audio_config, y.audio_config);
    assert(e.subrange(n + 40, n + 42) =~= le_bytes(x.video_port as nat, 2));
    assert(e.subrange(n + 40, n + 42) =~= le_bytes(y.video_port as nat, 2));
    lemma_le_round_trip(x.video_port as nat, 2);
    lemma_le_round_trip(y.video_port as nat, 2);
    assert(e.subrange(n + 42, n + 44) =~= le_bytes(x.audio_port as nat, 2));
    assert(e.subrange(n + 42, n + 44) =~= le_bytes(y.audio_port as nat, 2));
    lemma_le_round_trip(x.audio_port as nat, 2);
    lemma_le_round_trip(y.audio_port as nat, 2);
}

/// A video configuration has its fields in these places.
pub proof fn law_video_config_layout(c: VideoConfig)
    ensures
        c.encoding().len() == 24,
        int_at(c.encoding(), 0, 4) == c.width,
        int_at(c.encoding(), 4, 4) == c.height,
        int_at(c.encoding(), 8, 4) == c.fps,
        int_at(c.encoding(), 12, 4) == c.codec.place(),
        int_at(c.encoding(), 16, 4) == c.bitrate,
        int_at(c.encoding(), 20, 4) == c.pixel_format.place(),
{
    lemma_pow256_widths();
    let s = c.encoding();
    assert(s.subrange(0, 4) =~= le_bytes(c.width as nat, 4));
    lemma_int_read_back(s, 0, c.width as nat, 4);
    assert(s.subrange(4, 8) =~= le_bytes(c.height as nat, 4));
    lemma_int_read_back(s, 4, c.height as nat, 4);
    assert(s.subrange(8, 12) =~= le_bytes(c.fps as nat, 4));
    lemma_int_read_back(s, 8, c.fps as nat, 4);
    assert(s.subrange(12, 16) =~= le_bytes(c.codec.place() as nat, 4));
    lemma_int_read_back(s, 12, c.codec.place() as nat, 4);
    assert(s.subrange(16, 20) =~= le_bytes(c.bitrate as nat, 4));
    lemma_int_read_back(s, 16, c.bitrate as nat, 4);
    assert(s.subrange(20, 24) =~= le_bytes(c.pixel_format.place() as nat, 4));
    lemma_int_read_back(s, 20, c.pixel_format.place() as nat, 4);
}

/// An audio configuration has its fields in these places.
pub proof fn law_audio_config_layout(c: AudioConfig)
    ensures
        c.encoding().len() == 16,
        int_at(c.encoding(), 0, 4) == c.sample_rate,
        int_at(c.encoding(), 4, 2) == c.channels,
        int_at(c.encoding(), 6, 4) == c.codec.place(),
        int_at(c.encoding(), 10, 2) == c.bits_per_sample,
        int_at(c.encoding(), 12, 4) == c.buffer_size,
{
    lemma_pow256_widths();
    let s = c.encoding();
    assert(s.subrange(0, 4) =~= le_bytes(c.sample_rate as nat, 4));
    lemma_int_read_back(s, 0, c.sample_rate as nat, 4);
    assert(s.subrange(4, 6) =~= le_bytes(c.channels as nat, 2));
    lemma_int_read_back(s, 4, c.channels as nat, 2);
    assert(s.subrange(6, 10) =~= le_bytes(c.codec.place() as nat, 4));
    lemma_int_read_back(s, 6, c.codec.place() as nat, 4);
    assert(s.subrange(10, 12) =~= le_bytes(c.bits_per_sample as nat, 2));
    lemma_int_read_back(s, 10, c.bits_per_sample as nat, 2);
    assert(s.subrange(12, 16) =~= le_bytes(c.buffer_size as nat, 4));
    lemma_int_read_back(s, 12, c.buffer_size as nat, 4);
}

/// A report has its fields in these places.
pub proof fn law_latency_report_layout(c: LatencyReport)
    ensures
        c.encoding().len() == 36,
        int_at(c.encoding(), 0, 8) == c.rtt_us,
        int_at(c.encoding(), 8, 8) == c.decode_latency_us,
        int_at(c.encoding(), 16, 8) == c.display_latency_us,
        int_at(c.encoding(), 24, 4) == c.packet_loss_bits,
        int_at(c.encoding(), 28, 8) == c.jitter_us,
{
    lemma_pow256_widths();
    let s = c.encoding();
    assert(s.subrange(0, 8) =~= le_bytes(c.rtt_us as nat, 8));
    lemma_int_read_back(s, 0, c.rtt_us as nat, 8);
    assert(s.subrange(8, 16) =~= le_bytes(c.decode_latency_us as nat, 8));
    lemma_int_read_back(s, 8, c.decode_latency_us as nat, 8);
    assert(s.subrange(16, 24) =~= le_bytes(c.display_latency_us as nat, 8));
    lemma_int_read_back(s, 16, c.display_latency_us as nat, 8);
    assert(s.subrange(24, 28) =~= le_bytes(c.packet_loss_bits as nat, 4));
    lemma_int_read_back(s, 24, c.packet_loss_bits as nat, 4);
    assert(s.subrange(28, 36) =~= le_bytes(c.jitter_us as nat, 8));
    lemma_int_read_back(s, 28, c.jitter_us as nat, 8);
}

/// A control message travels behind the number of its kind; one without contents is
/// its number alone.
pub proof fn law_control_message_layout(m: ControlView)
    ensures
        int_at(m.encoding(), 0, 4) == (match m {
            ControlView::Hello(_) => 0int,
            ControlView::Welcome(_) => 1,
            ControlView::ConfigureVideo(_) => 2,
            ControlView::ConfigureAudio(_) => 3,
            ControlView::StartStream => 4,
            ControlView::StopStream => 5,
            ControlView::LatencyReport(_) => 6,
            ControlView::Disconnect => 7,
            ControlView::RequestKeyframe => 8,
        }),
        m.encoding().skip(4) == (match m {
            ControlView::Hello(h) => h.encoding(),
            ControlView::Welcome(w) => w.encoding(),
            ControlView::ConfigureVideo(c) => c.encoding(),
            ControlView::ConfigureAudio(c) => c.encoding(),
            ControlView::LatencyReport(r) => r.encoding(),
            _ => Seq::empty(),
        }),
{
    lemma_pow256_widths();
    let s = m.encoding();
    assert(s.subrange(0, 4) =~= le_bytes(m.place(), 4));
    lemma_int_read_back(s, 0, m.place(), 4);
    assert(s.skip(4) =~= m.body());
}

/// A `Hello` gives the client's name behind its length in bytes, then the version,
/// the video and the audio configuration.
pub proof fn law_hello_layout(h: HelloView)
    requires
        encode_utf8(h.client_name).len() <= usize::MAX,
    ensures
        ({
            let s = h.encoding();
            let n = encode_utf8(h.client_name).len();
            &&& s.len() == 52 + n
            &&& int_at(s, 0, 8) == n
            &&& s.subrange(8, 8 + n as int) == encode_utf8(h.client_name)
            &&& int_at(s, 8 + n as int, 4) == h.protocol_version
            &&& s.subrange(12 + n as int, 36 + n as int) == h.video_config.encoding()
            &&& s.skip(36 + n as int) == h.audio_config.encoding()
        }),
{
    lemma_pow256_widths();
    let s = h.encoding();
    let n = encode_utf8(h.client_name).len() as int;
    assert(s.subrange(0, 8) =~= le_bytes(n as nat, 8));
    lemma_int_read_back(s, 0, n as nat, 8);
    assert(s.subrange(8, 8 + n) =~= encode_utf8(h.client_name));
    assert(s.subrange(8 + n, 12 + n) =~= le_bytes(h.protocol_version as nat, 4));
    lemma_int_read_back(s, 8 + n, h.protocol_version as nat, 4);
    assert(s.subrange(12 + n, 36 + n) =~= h.video_config.encoding());
    assert(s.skip(36 + n) =~= h.audio_config.encoding());
}

/// A `Welcome` gives the server's name behind its length in bytes, then the video and
/// the audio configuration, and the ports of video and sound.
pub proof fn law_welcome_layout(w: WelcomeView)
    requires
        encode_utf8(w.server_name).len() <= usize::MAX,
    ensures
        ({
            let s = w.encoding();
            let n = encode_utf8(w.server_name).len();
            &&& s.len() == 52 + n
            &&& int_at(s, 0, 8) == n
            &&& s.subrange(8, 8 + n as int) == encode_utf8(w.server_name)
            &&& s.subrange(8 + n as int, 32 + n as int) == w.video_config.encoding()
            &&& s.subrange(32 + n as int, 48 + n as int) == w.audio_config.encoding()
            &&& int_at(s, 48 + n as int, 2) == w.video_port
            &&& int_at(s, 50 + n as int, 2) == w.audio_port
        }),
{
    lemma_pow256_widths();
    let s = w.encoding();
    let n = encode_utf8(w.server_name).len() as int;
    assert(s.subrange(0, 8) =~= le_bytes(n as nat, 8));
    lemma_int_read_back(s, 0, n as nat, 8);
    assert(s.subrange(8, 8 + n) =~= encode_utf8(w.server_name));
    assert(s.subrange(8 + n, 32 + n) =~= w.video_config.encoding());
    assert(s.subrange(32 + n, 48 + n) =~= w.audio_config.encoding());
    assert(s.subrange(48 + n, 50 + n) =~= le_bytes(w.video_port as nat, 2));
    lemma_int_read_back(s, 48 + n, w.video_port as nat, 2);
    assert(s.subrange(50 + n, 52 + n) =~= le_bytes(w.audio_port as nat, 2));
    lemma_int_read_back(s, 50 + n, w.audio_port as nat, 2);
}

/// The model of a control message says what the message says, field by field.
pub proof fn law_messages_say_what_they_hold(m: ControlMessage)
    ensures
        m matches ControlMessage::Hello(h) ==> (m@ matches ControlView::Hello(v) && v.client_name
            == h.client_name@ && v.protocol_version == h.protocol_version && v.video_config
            == h.video_config && v.audio_config == h.audio_config),
        m matches ControlMessage::Welcome(w) ==> (m@ matches ControlView::Welcome(v)
            && v.server_name == w.server_name@ && v.video_config == w.video_config && v.audio_config
            == w.audio_config && v.video_port == w.video_port && v.audio_port == w.audio_port),
        m matches ControlMessage::ConfigureVideo(c) ==> m@ == ControlView::ConfigureVideo(c),
        m matches ControlMessage::ConfigureAudio(c) ==> m@ == ControlView::ConfigureAudio(c),
        m matches ControlMessage::LatencyReport(r) ==> m@ == ControlView::LatencyReport(r),
        m is StartStream <==> m@ is StartStream,
        m is StopStream <==> m@ is StopStream,
        m is Disconnect <==> m@ is Disconnect,
        m is RequestKeyframe <==> m@ is RequestKeyframe,
{
}

} // verus!
