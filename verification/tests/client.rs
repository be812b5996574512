use bridge::client::{
    audio_packet, client_transport, encoded_frame, is_transient_error, latency_report,
    needs_decoder, on_server_message, raw_frame, report_is_due, requested_video, search_step,
    should_request_keyframe, AfterSession, ClientStep, DecodeTimes, FrameCounts, PacketOutcome,
    Reconnector, SearchStep, VideoReceiver,
};
use bridge::diag::{
    average_size, judge_resolution, status, test_capture_config, test_encoder_config, DiagResults,
    DiagStatus, ResolutionVerdict, Tip,
};
use bridge::error::WireError;
use bridge::net::{IpAddress, SocketAddress};
use bridge::protocol::{
    ControlMessage, PacketHeader, PacketType, VideoCodec, VideoConfig, VideoFrameHeader,
};
use bridge::session::{CaptureTarget, ServerSession};
use bridge::transport::TransportConfig;
use bridge::types::{Resolution, ServerInfo};
use bridge::video::capture::DisplayInfo;

fn packet(packet_type: PacketType) -> PacketHeader {
    PacketHeader::at_time(packet_type, 3, 80, 55)
}

fn header() -> VideoFrameHeader {
    VideoFrameHeader {
        frame_number: 8,
        pts_us: 9,
        is_keyframe: true,
        frame_size: 4,
        fragment_index: 0,
        fragment_count: 1,
        width: 10,
        height: 20,
    }
}

fn display(id: u32) -> DisplayInfo {
    DisplayInfo { id, width: 1280, height: 720, is_main: true }
}

fn session(codec: VideoCodec) -> ServerSession {
    let video = VideoConfig { codec, ..VideoConfig::default() };
    let target = CaptureTarget { width: 6, height: 5, display_id: None };
    ServerSession::new(&video, target, 186, false)
}

#[test]
fn video_is_requested_in_the_size_of_the_display() {
    let c = requested_video(Some(display(1)), false);
    assert_eq!((c.width, c.height, c.fps), (1280, 720, 60));
    assert_eq!((c.codec, c.bitrate), (VideoCodec::H265, 60_000_000));
    let c = requested_video(None, true);
    assert_eq!((c.width, c.height, c.bitrate), (1920, 1080, 500_000_000));
    assert_eq!(client_transport(false), TransportConfig::default());
    let t = client_transport(true);
    assert_eq!((t.send_buffer_size, t.recv_buffer_size), (67_108_864, 67_108_864));
    assert_eq!(t.max_packet_size, TransportConfig::default().max_packet_size);
}

#[test]
fn a_streamed_frame_arrives() {
    let data: Vec<u8> = (0..120).collect();
    let payloads = session(VideoCodec::H264).stream_frame(&data, 77, true);
    let mut r = VideoReceiver::new();
    let h = packet(PacketType::Video);
    assert!(matches!(r.accept_packet_at(&h, &payloads[2], 1000), PacketOutcome::Held));
    assert!(matches!(r.accept_packet_at(&h, &payloads[2], 1001), PacketOutcome::Held));
    assert!(matches!(r.accept_packet_at(&h, &payloads[0], 1002), PacketOutcome::Held));
    match r.accept_packet_at(&h, &payloads[1], 1003) {
        PacketOutcome::Frame(fh, bytes) => {
            assert_eq!(bytes, data);
            assert!(fh.is_keyframe);
            assert_eq!((fh.frame_number, fh.pts_us, fh.width, fh.height), (0, 77, 6, 5));
        }
        other => panic!("{:?}", other),
    }
    assert_eq!(r.counts, FrameCounts { expected: 1, received: 1, dropped: 0 });
}

#[test]
fn other_packets_leave_a_streamed_frame() {
    let mut s = session(VideoCodec::H264);
    let other: Vec<u8> = (50..150).collect();
    let early = s.stream_frame(&other, 70, false);
    let data: Vec<u8> = (0..120).collect();
    let p = s.stream_frame(&data, 77, true);
    let mut r = VideoReceiver::new();
    let h = packet(PacketType::Video);
    let mut out_of_range = p[1].clone();
    out_of_range[21] = 200;
    let mut changed = p[0].clone();
    changed[40] ^= 0xFF;
    assert!(matches!(r.accept_packet_at(&h, &p[0], 1000), PacketOutcome::Held));
    assert!(matches!(r.accept_packet_at(&h, &early[0], 1001), PacketOutcome::Held));
    assert!(matches!(r.accept_packet_at(&h, &out_of_range, 1002), PacketOutcome::Held));
    assert!(matches!(r.accept_packet_at(&h, &changed, 1003), PacketOutcome::Held));
    assert!(matches!(r.accept_packet_at(&h, b"ping", 1004), PacketOutcome::Unreadable(_)));
    let ping = packet(PacketType::Ping);
    assert!(matches!(r.accept_packet_at(&ping, &p[2], 1005), PacketOutcome::NotVideo));
    assert!(matches!(r.accept_packet_at(&h, &early[1], 1006), PacketOutcome::Frame(_, _)));
    assert!(matches!(r.accept_packet_at(&h, &p[2], 1007), PacketOutcome::Held));
    match r.accept_packet_at(&h, &p[1], 1008) {
        PacketOutcome::Frame(fh, bytes) => {
            assert_eq!(bytes, data);
            assert!(fh.is_keyframe);
        }
        other => panic!("{:?}", other),
    }
    assert_eq!(r.counts, FrameCounts { expected: 2, received: 2, dropped: 0 });
}

#[test]
fn short_fragments_arrive_whole() {
    let data: Vec<u8> = (0..53).collect();
    let payloads = session(VideoCodec::Raw).stream_frame(&data, 77, true);
    let mut r = VideoReceiver::new();
    let h = packet(PacketType::Video);
    assert!(matches!(r.accept_packet(&h, &payloads[0]), PacketOutcome::Held));
    match r.accept_packet(&h, &payloads[1]) {
        PacketOutcome::Frame(_, bytes) => assert_eq!(bytes, data),
        other => panic!("{:?}", other),
    }
}

#[test]
fn other_packets_are_passed_over() {
    let mut r = VideoReceiver::new();
    assert!(matches!(
        r.accept_packet(&packet(PacketType::Audio), &[1, 2, 3]),
        PacketOutcome::NotVideo
    ));
    assert!(matches!(
        r.accept_packet(&packet(PacketType::Video), b"ping"),
        PacketOutcome::Unreadable(WireError::UnexpectedEnd)
    ));
    let mut last = header();
    last.frame_number = u64::MAX;
    assert!(!r.can_accept(&packet(PacketType::Video), &last.to_bytes()));
    assert!(r.can_accept(&packet(PacketType::Audio), &last.to_bytes()));
    assert!(r.can_accept(&packet(PacketType::Video), &header().to_bytes()));
}

#[test]
fn every_frame_is_counted() {
    let mut c = FrameCounts::new();
    for n in [0, 1, 4, 5, 5, 9] {
        c.count(n);
    }
    assert_eq!(c, FrameCounts { expected: 10, received: 6, dropped: 5 });
    c.reset();
    assert_eq!(c, FrameCounts { expected: 10, received: 0, dropped: 0 });
}

#[test]
fn frames_are_prepared_for_showing() {
    assert!(needs_decoder(VideoCodec::H265, false));
    assert!(!needs_decoder(VideoCodec::H265, true));
    assert!(!needs_decoder(VideoCodec::Raw, false));
    let e = encoded_frame(&header(), vec![1]);
    assert_eq!((e.pts_us, e.dts_us, e.is_keyframe, e.frame_number), (9, 9, true, 8));
    let d = raw_frame(&header(), vec![1, 2], true).unwrap();
    assert_eq!((d.width, d.height, d.bytes_per_row, d.pts_us), (10, 20, 40, 9));
    assert_eq!(d.data, vec![1, 2]);
    assert!(raw_frame(&header(), vec![1, 2], false).is_none());
    assert!(should_request_keyframe(true, 1_000_000_001));
    assert!(!should_request_keyframe(true, 1_000_000_000));
    assert!(!should_request_keyframe(false, 2_000_000_000));
}

#[test]
fn the_last_decoding_times_are_reported() {
    let mut t = DecodeTimes::new();
    assert_eq!(t.average(), 0);
    for i in 1..=61u64 {
        t.record(i * 10);
    }
    assert_eq!((t.samples.len(), t.samples[0], t.samples[59]), (60, 20, 610));
    assert_eq!(t.average(), 315);
    let r = latency_report(1, 2, 0.5f32.to_bits());
    assert_eq!((r.rtt_us, r.decode_latency_us, r.display_latency_us), (10_000, 1, 2000));
    assert_eq!((r.jitter_us, f32::from_bits(r.packet_loss_bits)), (2, 0.5));
    assert!(!report_is_due(2_000_000_000) && report_is_due(2_000_000_001));
}

#[test]
fn sound_comes_in_audio_packets() {
    let p = audio_packet(&packet(PacketType::Audio), vec![1]).unwrap();
    assert_eq!((p.pts_us, p.sample_count, p.sequence), (55, 10, 3));
    assert!(audio_packet(&packet(PacketType::Video), vec![1]).is_none());
}

#[test]
fn the_server_ends_a_session() {
    assert_eq!(on_server_message(Some(&ControlMessage::Disconnect)), ClientStep::End);
    assert_eq!(on_server_message(Some(&ControlMessage::StartStream)), ClientStep::Continue);
    assert_eq!(on_server_message(None), ClientStep::Lost);
}

#[test]
fn the_search_for_a_server_ends() {
    let address =
        SocketAddress { ip: IpAddress::V4(10, 0, 0, 1), port: 1, flow_info: 0, scope_id: 0 };
    let servers = vec![ServerInfo {
        name: "a".to_string(),
        address,
        hostname: "h".to_string(),
        resolution: Resolution { width: 1, height: 1 },
        available: true,
    }];
    assert_eq!(search_step(&servers, 10_000_000_000), SearchStep::Found(address));
    assert_eq!(search_step(&servers, 10_000_000_001), SearchStep::TimedOut);
    assert_eq!(search_step(&vec![], 0), SearchStep::Wait);
}

#[test]
fn only_transport_errors_are_retried() {
    for m in [
        "Video channel failed: x",
        "Control channel lost",
        "no connection",
        "Connection error",
        "a timeout",
        "Timeout",
        "was reset",
        "broken pipe",
    ] {
        assert!(is_transient_error(m), "{}", m);
    }
    assert!(!is_transient_error("Broken Pipe"));
    assert!(!is_transient_error(""));
    let mut r = Reconnector::new();
    assert_eq!(r.on_session_end(Some("bad argument")), AfterSession::Fatal);
    assert_eq!(r.on_session_end(None), AfterSession::Done);
    for _ in 0..9 {
        assert_eq!(r.on_session_end(Some("reset")), AfterSession::Retry);
    }
    assert_eq!(r.on_session_end(Some("reset")), AfterSession::GiveUp);
}

#[test]
fn a_diagnosis_is_summed_up() {
    let mut r = DiagResults::new();
    assert!(!r.all_pass());
    assert_eq!(r.tips(), vec![Tip::GrantPermission]);
    r.permission = true;
    r.displays_found = true;
    assert!(r.all_pass());
    assert!(r.tips().is_empty());
    assert!(!r.tries_encode());
    r.note_capture(3);
    assert!(r.tries_encode() && r.capture_frames == 3);
    r.note_encode(0);
    assert!(!r.all_pass());
    assert!(r.tips().is_empty());
    r.virtual_display = Some(false);
    r.note_capture(0);
    assert_eq!(r.tips(), vec![Tip::RunLocally, Tip::ConnectDisplay]);
    assert_eq!(status(Some(true)), DiagStatus::Passed);
    assert_eq!(status(Some(false)), DiagStatus::Failed);
    assert_eq!(status(None), DiagStatus::Skipped);
}

#[test]
fn a_diagnosis_is_configured() {
    let c = test_capture_config(&display(7), Some(7));
    assert_eq!((c.width, c.height, c.display_id), (3840, 2160, Some(7)));
    let c = test_capture_config(&display(7), Some(8));
    assert_eq!((c.width, c.height, c.fps), (0, 0, 60));
    let e = test_encoder_config(&display(7));
    assert_eq!((e.width, e.height, e.bitrate), (1280, 720, 100_000_000));
    assert_eq!(judge_resolution(1920, 3840, 1920), ResolutionVerdict::Scaled(2));
    assert_eq!(judge_resolution(1920, 1920, 1920), ResolutionVerdict::Native);
    assert_eq!(judge_resolution(1920, 1920, 3840), ResolutionVerdict::Mismatch);
    assert_eq!(average_size(&vec![1, 2, 4]), 2);
}
