use bridge::bytes::{u16_le, u32_be, u32_from_be, u32_from_le, u32_le};
use bridge::error::{
    AudioError, BridgeError, InputError, TransportError, VideoError, WireError,
};
use bridge::framing::{
    control_frame, control_frame_len, is_allowed_peer, parse_control, tcp_frame_len, TcpVideoFrame,
};
use bridge::net::{IpAddress, SocketAddress};
use bridge::protocol::{
    AudioConfig, AudioPacketHeader, ControlMessage, HelloMessage, LatencyReport, PacketHeader,
    PacketType, PixelFormat, VideoCodec, VideoConfig, VideoFrameHeader, WelcomeMessage, MAGIC,
    MAX_FRAME_SIZE, PROTOCOL_VERSION,
};
use bridge::text::{format_i32, format_u64, has_part};

fn hello(name: &str) -> ControlMessage {
    ControlMessage::Hello(HelloMessage {
        client_name: name.to_string(),
        protocol_version: 1,
        video_config: VideoConfig::default(),
        audio_config: AudioConfig::default(),
    })
}

fn report() -> LatencyReport {
    LatencyReport {
        rtt_us: 1,
        decode_latency_us: 2,
        display_latency_us: 3,
        packet_loss_bits: 0.5f32.to_bits(),
        jitter_us: 4,
    }
}

fn messages() -> Vec<ControlMessage> {
    vec![
        hello("client \u{e9}\u{4e16}"),
        ControlMessage::Welcome(WelcomeMessage {
            server_name: String::new(),
            video_config: VideoConfig {
                codec: VideoCodec::Raw,
                pixel_format: PixelFormat::I420,
                ..VideoConfig::default()
            },
            audio_config: AudioConfig::default(),
            video_port: 9421,
            audio_port: 9422,
        }),
        ControlMessage::ConfigureVideo(VideoConfig::default()),
        ControlMessage::ConfigureAudio(AudioConfig::default()),
        ControlMessage::StartStream,
        ControlMessage::StopStream,
        ControlMessage::LatencyReport(report()),
        ControlMessage::Disconnect,
        ControlMessage::RequestKeyframe,
    ]
}

#[test]
fn packet_header_has_known_bytes() {
    let h = PacketHeader::at_time(PacketType::Input, 0x0102030405060708, 9, 0x11);
    let bytes = h.to_bytes().unwrap();
    assert_eq!(
        bytes,
        vec![
            0x42, 0x52, 0x44, 0x47, 1, 0, 0, 0, 3, 0, 0, 0, 8, 7, 6, 5, 4, 3, 2, 1, 0x11, 0, 0, 0,
            0, 0, 0, 0, 9, 0, 0, 0
        ]
    );
    assert_eq!(bytes.len(), PacketHeader::SIZE);
    assert_eq!(MAX_FRAME_SIZE, 16_777_216);
}

#[test]
fn packet_header_reads_back() {
    let h = PacketHeader::new(PacketType::Pong, 5, 6);
    assert!(h.is_valid());
    let mut bytes = h.to_bytes().unwrap();
    let r = PacketHeader::from_bytes(&bytes).unwrap();
    assert_eq!((r.magic, r.version), (MAGIC, PROTOCOL_VERSION));
    assert_eq!((r.packet_type, r.sequence, r.payload_len), (PacketType::Pong, 5, 6));
    assert_eq!(r.timestamp_us, h.timestamp_us);
    assert_eq!(PacketHeader::from_bytes(&bytes[..31]).err(), Some(WireError::UnexpectedEnd));
    bytes[8] = 6;
    assert_eq!(PacketHeader::from_bytes(&bytes).err(), Some(WireError::InvalidVariant(6, 6)));
    bytes[8] = 0;
    bytes[4] = 2;
    assert!(!PacketHeader::from_bytes(&bytes).unwrap().is_valid());
    bytes[4] = 1;
    bytes[0] = 0;
    assert!(!PacketHeader::from_bytes(&bytes).unwrap().is_valid());
}

#[test]
fn video_header_has_known_bytes() {
    let h = VideoFrameHeader {
        frame_number: 1,
        pts_us: 2,
        is_keyframe: true,
        frame_size: 3,
        fragment_index: 4,
        fragment_count: 5,
        width: 6,
        height: 7,
    };
    let bytes = h.to_bytes();
    assert_eq!(
        bytes,
        vec![
            1, 0, 0, 0, 0, 0, 0, 0, 2, 0, 0, 0, 0, 0, 0, 0, 1, 3, 0, 0, 0, 4, 0, 5, 0, 6, 0, 0, 0,
            7, 0, 0, 0
        ]
    );
    assert_eq!((VideoFrameHeader::SIZE, VideoFrameHeader::ENCODED_SIZE), (40, 33));
    assert_eq!(VideoFrameHeader::from_bytes(&bytes).unwrap(), h);
    let mut bad = bytes.clone();
    bad[16] = 2;
    assert_eq!(VideoFrameHeader::from_bytes(&bad).err(), Some(WireError::InvalidBool(2)));
    assert_eq!(VideoFrameHeader::from_bytes(&bytes[..32]).err(), Some(WireError::UnexpectedEnd));
}

#[test]
fn audio_header_reads_back() {
    let h = AudioPacketHeader { sequence: 1, pts_us: 2, sample_count: 3, payload_size: 4 };
    assert_eq!(AudioPacketHeader::from_bytes(&h.to_bytes()).unwrap(), h);
    assert_eq!(AudioPacketHeader::from_bytes(&[0; 23]).err(), Some(WireError::UnexpectedEnd));
}

#[test]
fn control_messages_survive_the_wire() {
    for m in messages() {
        let mut bytes = m.to_bytes().unwrap();
        let text = format!("{:?}", m);
        assert_eq!(format!("{:?}", ControlMessage::from_bytes(&bytes).unwrap()), text);
        bytes.push(1);
        assert_eq!(format!("{:?}", ControlMessage::from_bytes(&bytes).unwrap()), text);
        let cut = bytes.len() - 2;
        assert_eq!(
            ControlMessage::from_bytes(&bytes[..cut]).err(),
            Some(WireError::UnexpectedEnd)
        );
    }
}

#[test]
fn control_messages_have_known_bytes() {
    assert_eq!(ControlMessage::StartStream.to_bytes().unwrap(), vec![4, 0, 0, 0]);
    assert_eq!(ControlMessage::RequestKeyframe.to_bytes().unwrap(), vec![8, 0, 0, 0]);
    let bytes = hello("ab").to_bytes().unwrap();
    assert_eq!(
        bytes,
        vec![
            0, 0, 0, 0, // the variant
            2, 0, 0, 0, 0, 0, 0, 0, 0x61, 0x62, // the name
            1, 0, 0, 0, // the version
            0, 15, 0, 0, 0x70, 8, 0, 0, 60, 0, 0, 0, 2, 0, 0, 0, 0x80, 0xF0, 0xFA, 2, 0, 0, 0, 0,
            0x80, 0xBB, 0, 0, 2, 0, 0, 0, 0, 0, 32, 0, 0xE0, 1, 0, 0
        ]
    );
    assert_eq!(
        ControlMessage::from_bytes(&[9, 0, 0, 0]).err(),
        Some(WireError::InvalidVariant(9, 9))
    );
    let mut bad = bytes.clone();
    bad[12] = 0xFF;
    assert_eq!(
        ControlMessage::from_bytes(&bad).err(),
        Some(WireError::InvalidUtf8 { valid_up_to: 0, error_len: Some(1) })
    );
    bad[12] = 0x61;
    bad[13] = 0xC3;
    assert_eq!(
        ControlMessage::from_bytes(&bad).err(),
        Some(WireError::InvalidUtf8 { valid_up_to: 1, error_len: None })
    );
    assert_eq!(ControlMessage::from_bytes(&bytes[..13]).err(), Some(WireError::StringCutShort));
    assert_eq!(ControlMessage::from_bytes(&bytes[..11]).err(), Some(WireError::UnexpectedEnd));
}

#[test]
fn errors_in_strings_read_as_those_of_the_encoding() {
    let names: [&[u8]; 9] = [
        b"ab\xFF",
        b"ab\xC3",
        b"\xE2\x82",
        b"\xE2\x82x",
        b"\xF0\x9F\x98x",
        b"x\xED\xA0\x80",
        b"\xC0\x80",
        b"\x80",
        b"gr\xC3\xBC\xC3",
    ];
    for name in names {
        let mut string = (name.len() as u64).to_le_bytes().to_vec();
        string.extend_from_slice(name);
        let mut message = vec![0, 0, 0, 0];
        message.extend_from_slice(&string);
        let got = ControlMessage::from_bytes(&message).err().unwrap().message();
        assert_eq!(got, bincode::deserialize::<String>(&string).unwrap_err().to_string());
        assert!(got.starts_with("string is not valid utf8: i"));
        for cut in 0..string.len() {
            let got = ControlMessage::from_bytes(&message[..4 + cut]).err().unwrap().message();
            let want = bincode::deserialize::<String>(&string[..cut]).unwrap_err().to_string();
            assert_eq!(got, want);
            let end = if cut < 8 { "unexpected end of file" } else { "" };
            assert_eq!(got, format!("io error: {}", end));
        }
    }
}

#[test]
fn control_frames_survive_the_stream() {
    for m in messages() {
        let f = control_frame(&m).unwrap();
        let n = control_frame_len([f[0], f[1], f[2], f[3]]).unwrap();
        assert_eq!(n, f.len() - 4);
        assert_eq!(format!("{:?}", parse_control(&f[4..]).unwrap()), format!("{:?}", m));
    }
    assert_eq!(control_frame(&ControlMessage::Disconnect).unwrap(), vec![0, 0, 0, 4, 7, 0, 0, 0]);
    assert_eq!(control_frame_len([0, 0x10, 0, 0]).unwrap(), 1 << 20);
    assert_eq!(
        control_frame_len([0, 0x10, 0, 1]).err().unwrap().message(),
        "Protocol error: Message too large"
    );
    assert_eq!(
        parse_control(&[1, 2]).err().unwrap().message(),
        "Serialization error: io error: unexpected end of file"
    );
}

#[test]
fn tcp_frames_survive_the_stream() {
    let f = TcpVideoFrame { data: vec![5; 300] }.to_stream();
    assert_eq!(&f[..5], &[0x2C, 1, 0, 0, 5]);
    assert_eq!(tcp_frame_len([f[0], f[1], f[2], f[3]]), Some(300));
    assert_eq!(tcp_frame_len([0, 0, 0, 4]), Some(64 << 20));
    assert_eq!(tcp_frame_len([1, 0, 0, 4]), None);
}

#[test]
fn only_one_peer_is_allowed() {
    let ip = IpAddress::V4(10, 0, 0, 1);
    let peer = |ip| SocketAddress { ip, port: 1, flow_info: 0, scope_id: 0 };
    assert!(is_allowed_peer(&peer(ip), &ip));
    assert!(!is_allowed_peer(&peer(IpAddress::V4(10, 0, 0, 2)), &ip));
}

#[test]
fn enumerations_travel_by_index() {
    for i in 0..6 {
        assert_eq!(PacketType::from_index(i).unwrap().index(), i);
    }
    assert!(PacketType::from_index(6).is_none());
    assert_eq!(VideoCodec::from_index(2), Some(VideoCodec::H265));
    assert!(VideoCodec::from_index(3).is_none());
    assert_eq!(PixelFormat::from_index(3), Some(PixelFormat::I420));
    assert!(PixelFormat::from_index(4).is_none());
}

#[test]
fn numbers_are_written_both_ways() {
    assert_eq!(u32_be(0x01020304), vec![1, 2, 3, 4]);
    assert_eq!(u32_le(0x01020304), vec![4, 3, 2, 1]);
    assert_eq!(u16_le(0x0102), vec![2, 1]);
    assert_eq!(u32_from_be([1, 2, 3, 4]), 0x01020304);
    assert_eq!(u32_from_le([1, 2, 3, 4]), 0x04030201);
    assert_eq!(format_u64(0), "0");
    assert_eq!(format_u64(u64::MAX), "18446744073709551615");
    assert_eq!(format_i32(i32::MIN), "-2147483648");
    assert_eq!(format_i32(12), "12");
}

#[test]
fn parts_of_texts_are_found() {
    assert!(has_part("abcabd", "abd"));
    assert!(has_part("abc", ""));
    assert!(has_part("", ""));
    assert!(has_part("\u{e9}\u{4e16}x", "\u{4e16}"));
    assert!(!has_part("abc", "abcd"));
    assert!(!has_part("ababa", "abb"));
}

#[test]
fn errors_have_messages() {
    let m = |s: &str| s.to_string();
    assert_eq!(BridgeError::Connection(m("x")).message(), "Connection error: x");
    assert_eq!(BridgeError::Protocol(m("x")).message(), "Protocol error: x");
    assert_eq!(BridgeError::Video(m("x")).message(), "Video error: x");
    assert_eq!(BridgeError::Audio(m("x")).message(), "Audio error: x");
    assert_eq!(BridgeError::Input(m("x")).message(), "Input error: x");
    assert_eq!(BridgeError::Transport(m("x")).message(), "Transport error: x");
    assert_eq!(BridgeError::Config(m("x")).message(), "Configuration error: x");
    assert_eq!(BridgeError::Timeout.message(), "Timeout");
    assert_eq!(BridgeError::NotConnected.message(), "Not connected");
    assert_eq!(BridgeError::PermissionDenied(m("x")).message(), "Permission denied: x");
    assert_eq!(BridgeError::MacOS(m("x")).message(), "macOS error: x");
    assert_eq!(BridgeError::Io(m("x")).message(), "IO error: x");
    assert_eq!(BridgeError::Serialization(m("x")).message(), "Serialization error: x");
    assert_eq!(VideoError::VideoToolbox(-3).message(), "VideoToolbox error: code -3");
    assert_eq!(AudioError::CoreAudio(4).message(), "CoreAudio error: code 4");
    assert_eq!(InputError::IOKit(5).message(), "IOKit error: code 5");
    assert_eq!(TransportError::Timeout.message(), "Timeout");
    assert_eq!(
        WireError::InvalidBool(7).message(),
        "invalid u8 while decoding bool, expected 0 or 1, found 7"
    );
    assert_eq!(
        WireError::InvalidVariant(8, 3).message(),
        "invalid value: integer `8`, expected variant index 0 <= i < 3"
    );
    assert_eq!(
        WireError::InvalidUtf8 { valid_up_to: 12, error_len: Some(2) }.message(),
        "string is not valid utf8: invalid utf-8 sequence of 2 bytes from index 12"
    );
    assert_eq!(
        WireError::InvalidUtf8 { valid_up_to: 0, error_len: None }.message(),
        "string is not valid utf8: incomplete utf-8 byte sequence from index 0"
    );
    assert_eq!(WireError::UnexpectedEnd.message(), "io error: unexpected end of file");
    assert_eq!(WireError::StringCutShort.message(), "io error: ");
    assert_eq!(
        WireError::InvalidSize(7).message(),
        format!("Invalid size 7: sizes must fit in a usize (0 to {})", usize::MAX)
    );
}
