use bridge::connection::{negotiate_video, BridgeConnection};
use bridge::discovery::{
    choose_server, fallback_addresses, get_local_addresses, is_thunderbolt_interface, lookup_query,
    resolve_hostname, with_default_port, InterfaceAddress, ServiceAdvertiser, ServiceBrowser,
};
use bridge::fragments::FragmentSlots;
use bridge::net::{IpAddress, SocketAddress};
use bridge::protocol::{
    AudioConfig, ControlMessage, PacketHeader, PacketType, VideoCodec, VideoConfig,
    VideoFrameHeader,
};
use bridge::reassembly::FrameReassembler;
use bridge::tofu::{compute_fingerprint, KnownHosts, Verdict};
use bridge::transport::{
    get_thunderbolt_address, is_thunderbolt_connection, TransportConfig, DEFAULT_CONTROL_PORT,
    SERVICE_TYPE,
};
use bridge::types::{ConnectionState, Resolution, ServerInfo};
use bridge::udp::{count_chunks, nth_chunk, Datagram, FrameReceiver, FrameSender, UdpChannel};

fn v4(a: u8, b: u8, c: u8, d: u8) -> SocketAddress {
    SocketAddress { ip: IpAddress::V4(a, b, c, d), port: 9420, flow_info: 0, scope_id: 0 }
}

fn v6(first: u16, last: u16) -> SocketAddress {
    SocketAddress {
        ip: IpAddress::V6(first, 0, 0, 0, 0, 0, 0, last),
        port: 9420,
        flow_info: 0,
        scope_id: 0,
    }
}

fn interface(a: u8, b: u8, c: u8, d: u8) -> InterfaceAddress {
    InterfaceAddress {
        is_up: true,
        is_running: true,
        is_loopback: false,
        ip: IpAddress::V4(a, b, c, d),
    }
}

fn server(name: &str, address: SocketAddress) -> ServerInfo {
    ServerInfo {
        name: name.to_string(),
        address,
        hostname: name.to_string(),
        resolution: Resolution { width: 1, height: 1 },
        available: true,
    }
}

fn header(frame: u64, index: u16, count: u16, is_keyframe: bool) -> VideoFrameHeader {
    VideoFrameHeader {
        frame_number: frame,
        pts_us: 50,
        is_keyframe,
        frame_size: 6,
        fragment_index: index,
        fragment_count: count,
        width: 4,
        height: 3,
    }
}

#[test]
fn test_get_local_addresses() {
    let down = InterfaceAddress { is_up: false, ..interface(10, 0, 0, 9) };
    let idle = InterfaceAddress { is_running: false, ..interface(10, 0, 0, 8) };
    let own = InterfaceAddress { is_loopback: true, ..interface(10, 0, 0, 7) };
    let six = InterfaceAddress { ip: v6(0x2001, 1).ip, ..interface(0, 0, 0, 0) };
    let all = [
        interface(127, 0, 0, 1),
        interface(10, 0, 0, 2),
        down,
        interface(0, 0, 0, 0),
        idle,
        own,
        six,
        interface(10, 0, 0, 3),
        interface(10, 0, 0, 2),
    ];
    let addrs = get_local_addresses(&all);
    assert!(!addrs.is_empty());
    for addr in &addrs {
        assert!(*addr != IpAddress::V4(0, 0, 0, 0));
    }
    assert_eq!(addrs, vec![IpAddress::V4(10, 0, 0, 2), IpAddress::V4(10, 0, 0, 3)]);
    let none = get_local_addresses(&[]);
    assert_eq!(none, vec![IpAddress::V4(127, 0, 0, 1)]);
    assert_eq!(fallback_addresses(None), none);
    assert_eq!(
        fallback_addresses(Some(IpAddress::V4(10, 0, 0, 2))),
        vec![IpAddress::V4(10, 0, 0, 2), IpAddress::V4(127, 0, 0, 1)]
    );
}

#[test]
fn test_is_thunderbolt() {
    assert!(is_thunderbolt_interface(&IpAddress::V4(169, 254, 1, 1)));
    assert!(!is_thunderbolt_interface(&IpAddress::V4(192, 168, 1, 1)));
    assert!(!is_thunderbolt_interface(&v6(0xfe80, 1).ip));
    assert!(is_thunderbolt_connection(&v4(169, 254, 7, 7)));
    assert!(!is_thunderbolt_connection(&v4(169, 253, 7, 7)));
    assert!(get_thunderbolt_address().is_none());
}

#[test]
fn hostnames_resolve_to_the_best_address() {
    let global6 = v6(0x2001, 5);
    let local6 = v6(0xfe80, 5);
    let r = |addrs: &[SocketAddress]| resolve_hostname("host", addrs).unwrap();
    assert_eq!(r(&[local6, global6, v4(10, 0, 0, 1), v4(169, 254, 0, 1)]), v4(169, 254, 0, 1).ip);
    assert_eq!(r(&[local6, global6, v4(10, 0, 0, 1)]), v4(10, 0, 0, 1).ip);
    assert_eq!(r(&[local6, global6]), global6.ip);
    assert_eq!(r(&[local6, v6(0, 1)]), local6.ip);
    assert!(resolve_hostname("host", &[]).is_err());
    assert_eq!(lookup_query("host"), "host:0");
    assert_eq!(with_default_port("host"), "host:9420");
}

#[test]
fn servers_over_thunderbolt_come_first() {
    let a = server("a", v4(10, 0, 0, 1));
    let b = server("b", v4(169, 254, 0, 1));
    assert_eq!(choose_server(&vec![a, b]), Some(v4(169, 254, 0, 1)));
    assert_eq!(choose_server(&vec![server("a", v4(10, 0, 0, 1))]), Some(v4(10, 0, 0, 1)));
    assert_eq!(choose_server(&vec![]), None);
    assert!(ServiceAdvertiser::new("x", 1).is_ok());
    assert!(ServiceBrowser::new().unwrap().discover().unwrap().is_empty());
    assert_eq!(SERVICE_TYPE, "_bridge._tcp");
}

#[test]
fn packets_are_accepted() {
    let mut client = UdpChannel::connect(v4(10, 0, 0, 1), 1400);
    let mut host = UdpChannel::bind(1400);
    for i in 0..3u64 {
        let p = client.packet(PacketType::Audio, &[1, 2, 3]).unwrap();
        assert_eq!(p.len(), 35);
        let (h, d) = host.accept(&p, v4(10, 0, 0, i as u8)).unwrap();
        assert_eq!((h.packet_type, h.sequence, h.payload_len), (PacketType::Audio, i, 3));
        assert_eq!(d, vec![1, 2, 3]);
    }
    assert_eq!(host.remote_addr, Some(v4(10, 0, 0, 0)));
    host.set_remote_addr(v4(1, 2, 3, 4));
    assert_eq!(host.remote_addr, Some(v4(1, 2, 3, 4)));
    let fixed = client.packet_at(PacketType::Ping, &[], 77).unwrap();
    let (h, d) = host.accept(&fixed, v4(9, 9, 9, 9)).unwrap();
    assert_eq!((h.timestamp_us, d.len()), (77, 0));
}

#[test]
fn broken_packets_are_refused() {
    let mut host = UdpChannel::bind(1400);
    let from = v4(10, 0, 0, 1);
    assert_eq!(
        host.accept(&[0; 31], from).err().unwrap().message(),
        "Protocol error: Packet too small"
    );
    assert_eq!(
        host.accept(&[0; 32], from).err().unwrap().message(),
        "Protocol error: Invalid packet header"
    );
    let mut p = UdpChannel::bind(1400).packet(PacketType::Ping, &[]).unwrap();
    p[8] = 99;
    assert_eq!(
        host.accept(&p, from).err().unwrap().message(),
        "Serialization error: invalid value: integer `99`, expected variant index 0 <= i < 6"
    );
}

#[test]
fn frames_are_cut_and_rejoined() {
    let data: Vec<u8> = (0..100).collect();
    assert_eq!(count_chunks(100, 33), 4);
    assert_eq!(count_chunks(99, 33), 3);
    assert_eq!(count_chunks(0, 33), 0);
    let mut all = Vec::new();
    for i in 0..4 {
        all.extend_from_slice(nth_chunk(&data, 33, i));
    }
    assert_eq!(all, data);
}

#[test]
fn a_frame_crosses_the_channel() {
    let mut sender = FrameSender::new(UdpChannel::bind(150));
    assert_eq!(sender.fragment_size, 54);
    let mut receiver = FrameReceiver::new(UdpChannel::bind(150));
    let data: Vec<u8> = (0..120).collect();
    let packets = sender.send_frame(&data, 5, true).unwrap();
    assert_eq!(packets.len(), 3);
    assert_eq!((sender.frame_number, sender.channel.send_sequence), (1, 3));
    let mut host = UdpChannel::bind(150);
    let mut got = None;
    for p in &packets {
        let (h, d) = host.accept(p, v4(1, 1, 1, 1)).unwrap();
        assert!(got.is_none());
        got = receiver.accept_packet(&h, &d).unwrap();
    }
    let f = got.unwrap();
    assert_eq!(f.data, data);
    assert_eq!((f.pts_us, f.is_keyframe), (5, true));
    let video = PacketHeader::new(PacketType::Video, 0, 32);
    assert!(receiver.accept_packet(&video, &[0; 32]).unwrap().is_none());
}

#[test]
fn fragments_may_come_in_any_order() {
    let mut sender = FrameSender::new(UdpChannel::bind(150));
    let data: Vec<u8> = (0..120).collect();
    let packets = sender.send_frame(&data, 5, true).unwrap();
    let mut receiver = FrameReceiver::new(UdpChannel::bind(150));
    let mut host = UdpChannel::bind(150);
    let mut got = None;
    for i in [2usize, 2, 0, 1] {
        let (h, d) = host.accept(&packets[i], v4(1, 1, 1, 1)).unwrap();
        got = receiver.accept_packet(&h, &d).unwrap();
    }
    let f = got.unwrap();
    assert_eq!(f.data, data);
    assert!(!f.is_keyframe);
}

#[test]
fn short_frames_arrive_whole() {
    for len in [1usize, 3, 7, 8, 54, 55, 61] {
        let mut sender = FrameSender::new(UdpChannel::bind(150));
        let data: Vec<u8> = (0..len as u8).collect();
        let packets = sender.send_frame(&data, 9, true).unwrap();
        let ping = sender.channel.packet(PacketType::Ping, &[1; 60]).unwrap();
        let mut receiver = FrameReceiver::new(UdpChannel::bind(150));
        let mut host = UdpChannel::bind(150);
        let mut got = None;
        for p in &packets {
            assert!(got.is_none());
            let (h, d) = host.accept(&ping, v4(1, 1, 1, 1)).unwrap();
            assert!(receiver.accept_packet(&h, &d).unwrap().is_none());
            let (h, d) = host.accept(p, v4(1, 1, 1, 1)).unwrap();
            got = receiver.accept_packet(&h, &d).unwrap();
        }
        let f = got.unwrap();
        assert_eq!((f.data, f.pts_us, f.is_keyframe), (data, 9, true));
        assert!(receiver.pending_frames.is_empty());
    }
}

fn datagram(bytes: &[u8]) -> Datagram {
    Datagram { bytes: bytes.to_vec(), from: v4(1, 1, 1, 1) }
}

#[test]
fn a_sent_frame_is_received() {
    let mut sender = FrameSender::new(UdpChannel::bind(150));
    let data: Vec<u8> = (0..200).collect();
    let p = sender.send_frame(&data, 5, true).unwrap();
    let ping = sender.channel.packet(PacketType::Ping, &[1; 60]).unwrap();
    let short = sender.channel.packet(PacketType::Video, &[1; 32]).unwrap();
    assert_eq!(p.len(), 4);
    for (order, key) in [([0usize, 3, 3, 1, 0, 2], true), ([3, 0, 2, 0, 2, 1], false)] {
        let mut receiver = FrameReceiver::new(UdpChannel::bind(150));
        let mut read = vec![datagram(&ping)];
        for i in order {
            read.push(datagram(&p[i]));
            read.push(datagram(if i == 0 { &short } else { &ping }));
        }
        let (used, r) = receiver.recv_frame(&read);
        assert_eq!(used, 12);
        let f = r.unwrap().unwrap();
        assert_eq!((f.data, f.pts_us, f.is_keyframe), (data.clone(), 5, key));
        assert!(receiver.pending_frames.is_empty());
        assert_eq!(receiver.channel.remote_addr, Some(v4(1, 1, 1, 1)));
    }
}

#[test]
fn a_receiver_waits_and_refuses() {
    let mut sender = FrameSender::new(UdpChannel::bind(150));
    let p = sender.send_frame(&[7; 100], 5, false).unwrap();
    let mut receiver = FrameReceiver::new(UdpChannel::bind(150));
    let (used, r) = receiver.recv_frame(&[]);
    assert!(used == 0 && r.unwrap().is_none() && receiver.channel.remote_addr.is_none());
    let (used, r) = receiver.recv_frame(&[datagram(&p[0])]);
    assert!(used == 1 && r.unwrap().is_none());
    let mut foreign = p[1].clone();
    foreign[0] ^= 1;
    let mut unknown = p[1].clone();
    unknown[8] = 6;
    let mut unsure = p[1].clone();
    unsure[48] = 2;
    for (bad, text) in [
        (vec![0; 31], "Protocol error: Packet too small"),
        (foreign, "Protocol error: Invalid packet header"),
        (
            unknown,
            "Serialization error: invalid value: integer `6`, expected variant index 0 <= i < 6",
        ),
        (
            unsure,
            "Serialization error: invalid u8 while decoding bool, expected 0 or 1, found 2",
        ),
    ] {
        let (used, r) = receiver.recv_frame(&[datagram(&p[0]), datagram(&bad), datagram(&p[1])]);
        assert_eq!(used, 2);
        assert_eq!(r.err().unwrap().message(), text);
    }
    let (used, r) = receiver.recv_frame(&[datagram(&p[1]), datagram(&p[1])]);
    assert_eq!(used, 1);
    assert_eq!(r.unwrap().unwrap().data, vec![7; 100]);
}

#[test]
fn frames_may_come_mixed() {
    let mut sender = FrameSender::new(UdpChannel::bind(150));
    let first = sender.send_frame(&[1; 100], 5, true).unwrap();
    let second = sender.send_frame(&[2; 100], 6, false).unwrap();
    let third = sender.send_frame(&[3; 100], 7, false).unwrap();
    let mut stray = second[0].clone();
    stray[53] = 9;
    let mut receiver = FrameReceiver::new(UdpChannel::bind(150));
    let read: Vec<Datagram> =
        [&first[0], &second[0], &third[1], &stray, &third[0]].iter().map(|p| datagram(p)).collect();
    let (used, r) = receiver.recv_frame(&read);
    assert_eq!(used, 5);
    assert_eq!(r.unwrap().unwrap().data, vec![3; 100]);
    assert_eq!(receiver.pending_frames.len(), 1);
    let (_, r) = receiver.recv_frame(&[datagram(&second[1])]);
    assert_eq!(r.unwrap().unwrap().data, vec![2; 100]);
    let (_, r) = receiver.recv_frame(&[datagram(&first[1])]);
    assert!(r.unwrap().is_none());
}

#[test]
fn frames_are_reassembled_in_time() {
    let mut r = FrameReassembler::new();
    assert!(r.add_fragment_at(header(3, 1, 2, false), vec![4, 5, 6], 1000).is_none());
    assert!(r.add_fragment_at(header(3, 1, 2, false), vec![9, 9, 9], 1001).is_none());
    assert!(r.add_fragment_at(header(3, 7, 2, true), vec![9], 1001).is_none());
    assert_eq!(r.pending_count(), 1);
    let (h, d) = r.add_fragment_at(header(3, 0, 2, true), vec![1, 2, 3], 200_999).unwrap();
    assert_eq!(d, vec![1, 2, 3, 4, 5, 6]);
    assert!(h.is_keyframe);
    assert_eq!(r.pending_count(), 0);
    assert!(r.add_fragment_at(header(2, 0, 1, false), vec![1], 201_000).is_none());
    assert!(r.add_fragment_at(header(3, 0, 1, false), vec![1], 201_000).is_some());
}

#[test]
fn late_fragments_start_anew() {
    let mut r = FrameReassembler::new();
    assert!(r.add_fragment_at(header(3, 0, 2, false), vec![1], 1000).is_none());
    assert!(r.add_fragment_at(header(3, 1, 2, false), vec![2], 201_000).is_none());
    assert_eq!(r.pending_count(), 1);
    r.cleanup_old_frames(500_000);
    assert_eq!(r.pending_count(), 0);
    assert!(r.add_fragment(header(4, 0, 1, false), vec![7]).is_some());
}

#[test]
fn slots_fill_once() {
    let mut s = FragmentSlots::new(2);
    assert!(s.accepts(1) && !s.accepts(2));
    s = s.store(1, vec![3, 4]);
    assert!(!s.accepts(1) && !s.is_complete());
    s = s.store(0, vec![1, 2]);
    assert!(s.is_complete());
    assert_eq!(s.join(), vec![1, 2, 3, 4]);
}

#[test]
fn a_handshake_connects_both_ends() {
    let config = TransportConfig::default();
    assert_eq!(config.control_port, DEFAULT_CONTROL_PORT);
    let mut client = BridgeConnection::new(v4(10, 0, 0, 1), config);
    assert_eq!(client.state(), ConnectionState::Disconnected);
    assert!(client.video_config().is_none() && client.audio_config().is_none());
    assert!(client.control().is_err());
    client.connect_control();
    let wanted = VideoConfig { width: 800, ..VideoConfig::default() };
    let hello = client.hello_with_config("me", wanted, AudioConfig::default());
    let hello = BridgeConnection::expect_hello(hello).unwrap();
    assert_eq!(hello.client_name, "me");
    let granted = negotiate_video(&hello, true);
    assert_eq!((granted.codec, granted.width), (VideoCodec::Raw, 800));
    assert_eq!(negotiate_video(&hello, false), wanted);
    let (host, welcome) = BridgeConnection::accept_with_negotiation(
        v4(10, 0, 0, 2),
        config,
        "host",
        &hello,
        granted,
    );
    assert_eq!(host.state(), ConnectionState::Connected);
    assert_eq!(host.video_config(), Some(granted));
    assert_eq!(host.audio_config(), Some(AudioConfig::default()));
    let welcome = BridgeConnection::expect_welcome(welcome).unwrap();
    client.establish(&welcome);
    assert_eq!(client.state, ConnectionState::Connected);
    assert_eq!(client.video_config, host.video_config);
    assert!(client.control().is_ok());
    assert_eq!(client.video_channel.unwrap().remote_addr.unwrap().port, 9421);
    assert!(matches!(client.disconnect(), Some(ControlMessage::Disconnect)));
    assert!(client.disconnect().is_none());
    assert_eq!(client.state, ConnectionState::Disconnected);
}

#[test]
fn unexpected_messages_end_a_handshake() {
    assert_eq!(
        BridgeConnection::expect_hello(ControlMessage::StartStream).err().unwrap().message(),
        "Protocol error: Expected Hello message"
    );
    assert_eq!(
        BridgeConnection::expect_welcome(ControlMessage::StartStream).err().unwrap().message(),
        "Protocol error: Expected Welcome message"
    );
}

#[test]
fn fingerprints_are_digests_in_hexadecimal() {
    assert_eq!(
        compute_fingerprint(b"abc"),
        "ba7816bf8f01cfea414140de5dae2223b00361a396177a9cb410ff61f20015ad"
    );
    assert_eq!(
        compute_fingerprint(b""),
        "e3b0c44298fc1c149afbf4c8996fb92427ae41e4649b934ca495991b7852b855"
    );
}

#[test]
fn first_use_decides_on_trust() {
    let mut hosts = KnownHosts::new();
    assert_eq!(hosts.verify("a", "11"), Verdict::FirstUse);
    assert_eq!(hosts.verify("a", "11"), Verdict::Verified);
    assert_eq!(hosts.verify("a", "22"), Verdict::Mismatch);
    assert_eq!(hosts.verify("a", "11"), Verdict::Verified);
    assert_eq!(hosts.verify_certificate("b", b"abc"), Verdict::FirstUse);
    assert_eq!(hosts.verify("b", &compute_fingerprint(b"abc")), Verdict::Verified);
    assert_eq!(hosts.verify_certificate("b", b"abd"), Verdict::Mismatch);
}

#[test]
fn known_hosts_survive_storage() {
    let mut hosts = KnownHosts::new();
    hosts.verify("a", "11");
    hosts.verify("b", "22");
    let text = hosts.to_text();
    assert_eq!(text, "a 11\nb 22");
    let mut again = KnownHosts::from_text(&text);
    assert_eq!(again.verify("a", "11"), Verdict::Verified);
    assert_eq!(again.verify("b", "23"), Verdict::Mismatch);
    let mut odd = KnownHosts::from_text("  a \t 33  more\n\nb\n a 44\nc 55");
    assert_eq!(odd.verify("a", "44"), Verdict::Verified);
    assert_eq!(odd.verify("c", "55"), Verdict::Verified);
    assert_eq!(odd.verify("b", "66"), Verdict::FirstUse);
    assert_eq!(KnownHosts::new().to_text(), "");
}

#[test]
fn packet_header_carries_its_size() {
    assert_eq!(PacketHeader::SIZE, 32);
}

#[test]
fn nothing_is_received_without_waiting() {
    let mut channel = UdpChannel::bind(1400);
    assert!(channel.try_recv().unwrap().is_none());
    assert_eq!(channel, UdpChannel::bind(1400));
}
