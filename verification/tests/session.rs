use bridge::protocol::{
    ControlMessage, InputEvent, LatencyReport, MouseButtonEvent, PacketHeader, PacketType,
    VideoCodec, VideoConfig, VideoFrameHeader,
};
use bridge::session::{
    capture_target, fragment_size, input_event, keep_waiting_for_ping, plan_display,
    server_video_config, session_capture_config, session_encoder_config, session_transport,
    CaptureTarget, DisplayPlan, PingWait, RateChange, RateControl, ServerOptions, ServerReaction,
    ServerSession,
};
use bridge::transport::TransportConfig;
use bridge::types::Resolution;
use bridge::video::capture::{CapturedFrame, DisplayInfo};
use bridge::video::codec::EncoderConfig;
use bridge::video::encoder::VideoEncoder;
use bridge::video::virtual_display::VirtualDisplay;

fn display(width: u32, height: u32) -> DisplayInfo {
    DisplayInfo { id: 1, width, height, is_main: true }
}

fn video(width: u32, height: u32, codec: VideoCodec) -> VideoConfig {
    VideoConfig { width, height, codec, ..VideoConfig::default() }
}

fn loss(share: f32) -> LatencyReport {
    LatencyReport {
        rtt_us: 0,
        decode_latency_us: 0,
        display_latency_us: 0,
        packet_loss_bits: share.to_bits(),
        jitter_us: 0,
    }
}

fn target() -> CaptureTarget {
    CaptureTarget { width: 640, height: 480, display_id: None }
}

fn session(codec: VideoCodec) -> ServerSession {
    ServerSession::new(&video(640, 480, codec), target(), 186, false)
}

fn captured(data: Vec<u8>, width: u32, height: u32) -> CapturedFrame {
    CapturedFrame {
        data,
        width,
        height,
        bytes_per_row: width * 4,
        pts_us: 77,
        frame_number: 0,
        dma_buf_fd: None,
    }
}

#[test]
fn thunderbolt_gets_large_packets() {
    let c = TransportConfig::default();
    assert_eq!(session_transport(c, false), c);
    let t = session_transport(c, true);
    assert_eq!(t.max_packet_size, 65507);
    assert_eq!((t.send_buffer_size, t.recv_buffer_size), (33_554_432, 33_554_432));
    assert_eq!(t.video_port, c.video_port);
    assert_eq!(fragment_size(t.max_packet_size), 65507 - 136);
}

#[test]
fn options_make_a_configuration() {
    let o =
        ServerOptions { width: 0, height: 0, fps: 60, bitrate_mbps: 50, raw_video: false };
    let c = server_video_config(&o);
    assert_eq!((c.width, c.height, c.fps), (3840, 2160, 60));
    assert_eq!((c.codec, c.bitrate), (VideoCodec::H265, 50_000_000));
    let c = server_video_config(&ServerOptions { width: 800, height: 600, raw_video: true, ..o });
    assert_eq!((c.width, c.height, c.codec), (800, 600, VideoCodec::Raw));
}

#[test]
fn displays_are_planned() {
    let v = video(1920, 1080, VideoCodec::H265);
    assert_eq!(
        plan_display(Some(display(1920, 1080)), &v, true).unwrap(),
        DisplayPlan::Native { width: 1920, height: 1080 }
    );
    assert_eq!(
        plan_display(Some(display(1280, 2000)), &v, false).unwrap(),
        DisplayPlan::Native { width: 1280, height: 2000 }
    );
    let fallback = Some(Resolution { width: 1280, height: 2000 });
    assert_eq!(
        plan_display(Some(display(1280, 2000)), &v, true).unwrap(),
        DisplayPlan::Virtual { width: 1920, height: 1080, fps: 60, fallback }
    );
    assert_eq!(
        plan_display(None, &video(0, 600, VideoCodec::H265), true).unwrap(),
        DisplayPlan::Virtual { width: 3840, height: 600, fps: 60, fallback: None }
    );
    assert_eq!(
        plan_display(None, &v, false).err().unwrap(),
        "No display available: headless and virtual display not supported"
    );
}

#[test]
fn failed_virtual_displays_fall_back() {
    let native = DisplayPlan::Native { width: 5, height: 6 };
    let failed = || Err("no server".to_string());
    assert_eq!(
        capture_target(native, failed()).unwrap(),
        CaptureTarget { width: 5, height: 6, display_id: None }
    );
    let fallback = Some(Resolution { width: 7, height: 8 });
    let tried = DisplayPlan::Virtual { width: 1920, height: 1080, fps: 60, fallback };
    assert_eq!(
        capture_target(tried, failed()).unwrap(),
        CaptureTarget { width: 7, height: 8, display_id: None }
    );
    assert_eq!(
        capture_target(tried, Ok(VirtualDisplay::new(1920, 1080, 60))).unwrap(),
        CaptureTarget { width: 1920, height: 1080, display_id: Some(99) }
    );
    let needed = DisplayPlan::Virtual { width: 1920, height: 1080, fps: 60, fallback: None };
    assert_eq!(
        capture_target(needed, failed()).err().unwrap(),
        "No display available: headless and virtual display failed: no server"
    );
}

#[test]
fn components_are_configured() {
    let c = session_capture_config(&target(), 30);
    assert_eq!((c.width, c.height, c.fps, c.show_cursor), (640, 480, 30, true));
    assert!(session_encoder_config(&video(1, 1, VideoCodec::Raw), &target()).is_none());
    let e = session_encoder_config(&video(1, 1, VideoCodec::H264), &target()).unwrap();
    assert_eq!((e.width, e.height, e.codec), (640, 480, VideoCodec::H264));
    assert_eq!((e.bitrate, e.keyframe_interval), (50_000_000, 60));
}

#[test]
fn loss_decides_on_the_bitrate() {
    let change = |share: f32| RateControl::change(&loss(share));
    assert_eq!(change(0.0), RateChange::Raise);
    assert_eq!(change(0.009), RateChange::Raise);
    assert_eq!(change(-0.5), RateChange::Raise);
    assert_eq!(change(0.01), RateChange::Keep);
    assert_eq!(change(0.03), RateChange::Keep);
    assert_eq!(change(0.031), RateChange::LowerByTenth);
    assert_eq!(change(0.10), RateChange::LowerByTenth);
    assert_eq!(change(0.11), RateChange::LowerByFifth);
    assert_eq!(change(f32::INFINITY), RateChange::LowerByFifth);
    assert_eq!(change(f32::NAN), RateChange::Keep);
    assert!(!RateControl::is_due(2_000_000_000));
    assert!(RateControl::is_due(2_000_000_001));
}

#[test]
fn bitrate_stays_within_bounds() {
    let mut encoder = VideoEncoder::new(EncoderConfig::default(), Some(3)).unwrap();
    let mut rate = RateControl::new(60_000_000, false);
    assert_eq!(rate.current, 60_000_000);
    rate.adjust(1, &mut encoder);
    assert_eq!((rate.current, encoder.config.bitrate), (15_000_000, 15_000_000));
    rate.adjust(90_000_000, &mut encoder);
    assert_eq!((rate.current, encoder.config.bitrate), (80_000_000, 80_000_000));
    rate.adjust(70_000_000, &mut encoder);
    assert_eq!(encoder.config.bitrate, 70_000_000);
    let fast = RateControl::new(60_000_000, true);
    assert_eq!((fast.current, fast.max), (200_000_000, 4_000_000_000));
    assert_eq!(RateControl::new(500_000_000, true).current, 500_000_000);
}

#[test]
fn control_messages_move_the_session() {
    let mut s = session(VideoCodec::H265);
    assert_eq!(s.on_control(&ControlMessage::StartStream), ServerReaction::StartCapture);
    assert!(s.is_streaming);
    let report = loss(0.5);
    assert_eq!(
        s.on_control(&ControlMessage::LatencyReport(report)),
        ServerReaction::Adapt(report)
    );
    assert_eq!(s.on_control(&ControlMessage::RequestKeyframe), ServerReaction::Keyframe);
    assert_eq!(
        s.on_control(&ControlMessage::ConfigureVideo(VideoConfig::default())),
        ServerReaction::Nothing
    );
    assert!(s.is_streaming);
    assert_eq!(s.on_control(&ControlMessage::StopStream), ServerReaction::StopCapture);
    assert!(!s.is_streaming);
    assert_eq!(s.on_control(&ControlMessage::Disconnect), ServerReaction::End);
    let mut raw = session(VideoCodec::Raw);
    assert_eq!(raw.on_control(&ControlMessage::LatencyReport(report)), ServerReaction::Nothing);
    assert_eq!(raw.on_control(&ControlMessage::RequestKeyframe), ServerReaction::Nothing);
}

#[test]
fn raw_frames_mark_every_fragment() {
    let mut s = session(VideoCodec::Raw);
    assert_eq!(s.fragment_size, 50);
    let payloads = s.process_frame(&captured((0..120).collect(), 6, 5), &mut None);
    assert_eq!(payloads.len(), 3);
    for (i, p) in payloads.iter().enumerate() {
        let h = VideoFrameHeader::from_bytes(p).unwrap();
        assert_eq!((h.frame_number, h.pts_us, h.frame_size), (0, 77, 120));
        assert_eq!((h.fragment_index, h.fragment_count), (i as u16, 3));
        assert_eq!((h.width, h.height), (640, 480));
        assert!(h.is_keyframe);
        assert_eq!(p[33], (50 * i) as u8);
    }
    assert_eq!(payloads[2].len(), 33 + 20);
    assert_eq!(s.video_frame_number, 1);
}

#[test]
fn encoded_frames_mark_the_first_fragment() {
    let mut s = session(VideoCodec::H264);
    let payloads = s.stream_frame(&[7; 101], 5, true);
    let marks: Vec<bool> =
        payloads.iter().map(|p| VideoFrameHeader::from_bytes(p).unwrap().is_keyframe).collect();
    assert_eq!(marks, vec![true, false, false]);
    let payloads = s.stream_frame(&[7; 50], 5, false);
    let h = VideoFrameHeader::from_bytes(&payloads[0]).unwrap();
    assert_eq!((h.frame_number, h.is_keyframe, h.fragment_count), (1, false, 1));
}

#[test]
fn captured_frames_go_through_the_encoder() {
    let mut s = session(VideoCodec::H264);
    let config = EncoderConfig { codec: VideoCodec::H264, ..EncoderConfig::default() };
    let mut encoder = Some(VideoEncoder::new(config, Some(3)).unwrap());
    let payloads = s.process_frame(&captured(vec![9; 16], 2, 2), &mut encoder);
    assert!(payloads.is_empty());
    assert_eq!(s.video_frame_number, 1);
    let mut encoder = encoder.unwrap();
    assert_eq!(encoder.frame_count(), 1);
    assert!(encoder.recv_frame().is_none());
    assert!(s.process_frame(&captured(vec![9; 16], 2, 2), &mut None).is_empty());
    assert_eq!(s.video_frame_number, 1);
}

#[test]
fn only_input_packets_carry_events() {
    let event = InputEvent::MouseButton(MouseButtonEvent {
        button: 1,
        is_pressed: true,
        click_count: 1,
        timestamp_us: 3,
    });
    let data = event.to_bytes().unwrap();
    let h = PacketHeader::at_time(PacketType::Input, 0, data.len() as u32, 0);
    assert!(matches!(input_event(&h, &data), Some(InputEvent::MouseButton(_))));
    assert!(input_event(&h, b"ping").is_none());
    let h = PacketHeader::at_time(PacketType::Video, 0, data.len() as u32, 0);
    assert!(input_event(&h, &data).is_none());
}

#[test]
fn pings_are_awaited_until_the_deadline() {
    assert!(keep_waiting_for_ping(PingWait::Nothing, false));
    assert!(!keep_waiting_for_ping(PingWait::Nothing, true));
    assert!(!keep_waiting_for_ping(PingWait::Received, false));
    assert!(!keep_waiting_for_ping(PingWait::Failed, false));
}
