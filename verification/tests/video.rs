use bridge::error::BridgeError;
use bridge::protocol::{PixelFormat, VideoCodec, VideoConfig};
use bridge::queue::{BoundedQueue, Offer, QueueItem};
use bridge::video::capture::{
    get_displays, make_opaque, on_sample, require_frame, CaptureConfig, CapturedFrame, DisplayInfo,
    FrameAction, FrameStatus, ScreenCapturer,
};
use bridge::video::codec::{EncodedFrame, EncoderConfig, VideoDecoder};
use bridge::video::color_convert::bgra_to_nv12;
use bridge::video::display::{
    find_display, main_display, target_display, test_display, DisplayStats,
};
use bridge::video::encoder::{device_candidates, VideoEncoder};
use bridge::video::media::CMTimeStruct;
use bridge::video::rates::{
    bytes_per_frame, is_hw_encoding_available, raw_bitrate, recommended_bitrate,
};
use bridge::video::virtual_display::{
    best_mode, check_display, describe_display, keep_waiting, DisplayDescriptor, VirtualDisplay,
};

fn frame(data: Vec<u8>, width: u32, height: u32, pts_us: u64, number: u64) -> CapturedFrame {
    CapturedFrame {
        data,
        width,
        height,
        bytes_per_row: width * 4,
        pts_us,
        frame_number: number,
        dma_buf_fd: None,
    }
}

fn encoded(number: u64) -> QueueItem {
    QueueItem::Encoded(EncodedFrame {
        data: vec![number as u8],
        pts_us: 0,
        dts_us: 0,
        is_keyframe: false,
        frame_number: number,
    })
}

fn number_of(item: Option<QueueItem>) -> Option<u64> {
    match item {
        Some(QueueItem::Encoded(f)) => Some(f.frame_number),
        _ => None,
    }
}

fn display(id: u32, width: u32, height: u32, is_main: bool) -> DisplayInfo {
    DisplayInfo { id, width, height, is_main }
}

#[test]
fn test_nv12_output_size() {
    let bgra = vec![0u8; 8 * 8 * 4];
    let mut nv12 = Vec::new();
    bgra_to_nv12(&bgra, 8, 8, &mut nv12);
    assert_eq!(nv12.len(), 8 * 8 * 3 / 2);
}

#[test]
fn test_black_pixel_y_value() {
    let bgra = vec![0, 0, 0, 255, 0, 0, 0, 255, 0, 0, 0, 255, 0, 0, 0, 255];
    let mut nv12 = Vec::new();
    bgra_to_nv12(&bgra, 2, 2, &mut nv12);
    assert_eq!(nv12[0], 16);
}

#[test]
fn test_white_pixel_y_value() {
    let bgra = vec![
        255, 255, 255, 255, 255, 255, 255, 255, 255, 255, 255, 255, 255, 255, 255, 255,
    ];
    let mut nv12 = Vec::new();
    bgra_to_nv12(&bgra, 2, 2, &mut nv12);
    assert_eq!(nv12[0], 235);
}

#[test]
fn colors_are_converted_plane_by_plane() {
    // Blue, green, red and white; then black, and the rest gray.
    let bgra = vec![
        255, 0, 0, 255, 0, 255, 0, 255, 0, 0, 255, 255, 255, 255, 255, 255, //
        0, 0, 0, 255, 128, 128, 128, 255, 128, 128, 128, 255, 128, 128, 128, 255,
    ];
    let mut nv12 = vec![9u8; 100];
    bgra_to_nv12(&bgra, 4, 2, &mut nv12);
    assert_eq!(nv12, vec![41, 144, 82, 235, 16, 126, 126, 126, 240, 110, 90, 240]);
}

#[test]
fn no_pixels_give_no_bytes() {
    let mut nv12 = vec![1u8, 2, 3];
    bgra_to_nv12(&[], 0, 7, &mut nv12);
    assert!(nv12.is_empty());
}

#[test]
fn gray_has_no_color() {
    for c in [0u8, 1, 77, 128, 255] {
        let bgra = vec![c; 16];
        let mut nv12 = Vec::new();
        bgra_to_nv12(&bgra, 2, 2, &mut nv12);
        assert_eq!(&nv12[4..], &[128, 128]);
        assert!(nv12[0] >= 16 && nv12[0] <= 235);
    }
}

#[test]
fn test_encoder_new_fails_gracefully_without_device() {
    let config = EncoderConfig::default();
    let result = VideoEncoder::new(config, None);
    match result {
        Err(BridgeError::Video(msg)) => {
            assert!(
                msg.contains("No V4L2") || msg.contains("device"),
                "Unexpected error message: {}",
                msg
            );
        }
        Ok(_) => panic!("there is no device"),
        Err(e) => panic!("Unexpected error type: {:?}", e),
    }
    assert_eq!(device_candidates(), vec!["/dev/nvhost-msenc", "/dev/video0", "/dev/video1"]);
}

#[test]
fn test_capture_config_default() {
    let config = CaptureConfig::default();
    assert_eq!(config.width, 0);
    assert_eq!(config.height, 0);
    assert_eq!(config.fps, 60);
    assert!(config.show_cursor && !config.capture_audio && config.display_id.is_none());
}

#[test]
fn test_capture_config_from_video_config() {
    let vc = VideoConfig {
        width: 1920,
        height: 1080,
        fps: 30,
        codec: VideoCodec::H265,
        bitrate: 20_000_000,
        pixel_format: PixelFormat::Bgra8,
    };
    let cc = CaptureConfig::from(&vc);
    assert_eq!(cc.width, 1920);
    assert_eq!(cc.height, 1080);
    assert_eq!(cc.fps, 30);
}

#[test]
fn test_capturer_creation() {
    let config = CaptureConfig::default();
    let result = ScreenCapturer::new(config);
    assert!(result.is_ok(), "Failed to create ScreenCapturer: {:?}", result.err());
}

#[test]
fn test_capturer_stats_initial() {
    let config = CaptureConfig::default();
    let capturer = ScreenCapturer::new(config).expect("capturer creation");
    let stats = capturer.stats();
    assert_eq!(stats.frames_captured, 0);
    assert!(!stats.is_running);
}

#[test]
fn test_permission_always_true() {
    assert!(ScreenCapturer::has_permission());
    assert!(ScreenCapturer::request_permission());
}

#[test]
fn test_get_displays_does_not_panic() {
    let displays = get_displays(&[]);
    assert!(displays.is_empty());
    let displays = get_displays(&[(1920, 1080), (1280, 720)]);
    for d in &displays {
        assert!(d.width > 0);
        assert!(d.height > 0);
    }
}

#[test]
fn test_display_enumeration() {
    let displays = get_displays(&[(1920, 1080), (1280, 720)]);
    assert!(!displays.is_empty(), "No displays found");
    assert_eq!(displays, vec![display(0, 1920, 1080, true), display(1, 1280, 720, false)]);
}

#[test]
fn test_encode_synthetic_frame_h264() {
    let config = EncoderConfig {
        width: 256,
        height: 256,
        fps: 30,
        codec: VideoCodec::H264,
        bitrate: 1_000_000,
        keyframe_interval: 30,
        ..Default::default()
    };
    let mut encoder = VideoEncoder::new(config, Some(3)).expect("Failed to create encoder");
    let mut data = vec![0u8; 256 * 256 * 4];
    for y in 0..256 {
        for x in 0..256 {
            let idx = (y * 256 + x) * 4;
            data[idx] = x as u8;
            data[idx + 1] = y as u8;
            data[idx + 2] = 128;
            data[idx + 3] = 255;
        }
    }
    encoder.encode(&frame(data, 256, 256, 0, 0)).expect("Encode failed");
    encoder.flush().expect("Flush failed");
    let mut frame_count = 0;
    while let Some(_) = encoder.recv_frame() {
        frame_count += 1;
    }
    assert!(frame_count > 0 || encoder.frame_count() > 0, "No frames encoded");
    assert_eq!(encoder.nv12_buf.len(), 256 * 256 * 3 / 2);
}

#[test]
fn test_encode_synthetic_frame_h265() {
    let config = EncoderConfig {
        width: 256,
        height: 256,
        fps: 30,
        codec: VideoCodec::H265,
        bitrate: 1_000_000,
        keyframe_interval: 30,
        ..Default::default()
    };
    let mut encoder = VideoEncoder::new(config, Some(3)).expect("Failed to create encoder");
    let data = vec![100u8; 256 * 256 * 4];
    encoder.encode(&frame(data, 256, 256, 0, 0)).expect("Encode failed");
    encoder.flush().expect("Flush failed");
    let mut frame_count = 0;
    while let Some(_) = encoder.recv_frame() {
        frame_count += 1;
    }
    assert!(frame_count > 0 || encoder.frame_count() > 0, "No H.265 frames encoded");
}

#[test]
fn test_encode_multiple_frames_temporal() {
    let config = EncoderConfig {
        width: 128,
        height: 128,
        fps: 30,
        codec: VideoCodec::H264,
        bitrate: 500_000,
        keyframe_interval: 30,
        ..Default::default()
    };
    let mut encoder = VideoEncoder::new(config, Some(3)).expect("Failed to create encoder");
    for i in 0u64..10 {
        let mut data = vec![0u8; 128 * 128 * 4];
        let block_x = ((i as usize) * 10) % 128;
        for y in 0..128 {
            for x in 0..128 {
                let idx = (y * 128 + x) * 4;
                let c = if x >= block_x && x < block_x + 20 && y >= 50 && y < 70 { 255 } else { 50 };
                data[idx] = c;
                data[idx + 1] = c;
                data[idx + 2] = c;
                data[idx + 3] = 255;
            }
        }
        encoder.encode(&frame(data, 128, 128, i * 33333, i)).expect("Encode failed");
    }
    encoder.flush().expect("Flush failed");
    let mut sizes = Vec::new();
    while let Some(encoded) = encoder.recv_frame() {
        sizes.push(encoded.data.len());
    }
    assert!(!sizes.is_empty() || encoder.frame_count() > 0, "No frames encoded");
    assert_eq!(sizes.len(), 8);
    assert_eq!(encoder.frame_count(), 10);
}

#[test]
fn test_decoder_creation() {
    let decoder = VideoDecoder::new(1920, 1080, VideoCodec::H264);
    assert!(decoder.is_ok(), "Failed to create H.264 decoder: {:?}", decoder.err());

    let decoder = VideoDecoder::new(1920, 1080, VideoCodec::H265);
    assert!(decoder.is_ok(), "Failed to create H.265 decoder: {:?}", decoder.err());
}

#[test]
fn test_decoder_not_initialized_initially() {
    let decoder =
        VideoDecoder::new(1920, 1080, VideoCodec::H264).expect("Failed to create decoder");
    assert!(!decoder.is_initialized(), "Decoder should not be initialized without params");
}

#[test]
fn test_encoder_config_conversion() {
    let video_config = VideoConfig {
        width: 3840,
        height: 2160,
        fps: 60,
        codec: VideoCodec::H265,
        bitrate: 50_000_000,
        pixel_format: PixelFormat::Bgra8,
    };

    let encoder_config = EncoderConfig::from(&video_config);

    assert_eq!(encoder_config.width, 3840);
    assert_eq!(encoder_config.height, 2160);
    assert_eq!(encoder_config.fps, 60);
    assert_eq!(encoder_config.codec, VideoCodec::H265);
    assert_eq!(encoder_config.bitrate, 50_000_000);
}

#[test]
fn test_capture_config_conversion() {
    let video_config = VideoConfig {
        width: 1920,
        height: 1080,
        fps: 30,
        codec: VideoCodec::H264,
        bitrate: 10_000_000,
        pixel_format: PixelFormat::Bgra8,
    };

    let capture_config = CaptureConfig::from(&video_config);

    assert_eq!(capture_config.width, 1920);
    assert_eq!(capture_config.height, 1080);
    assert_eq!(capture_config.fps, 30);
}

#[test]
fn test_capture_lifecycle() {
    let config = CaptureConfig {
        width: 320,
        height: 240,
        fps: 15,
        show_cursor: false,
        ..Default::default()
    };
    let mut capturer = ScreenCapturer::new(config).expect("Failed to create capturer");
    let stats = capturer.stats();
    assert!(!stats.is_running);
    assert_eq!(stats.frames_captured, 0);
    assert!(capturer.start());
    assert!(!capturer.start());
    assert!(capturer.stats().is_running);
    assert!(capturer.stop());
    assert!(!capturer.stop());
    assert!(!capturer.stats().is_running);
}

#[test]
fn test_capture_to_encode_pipeline() {
    let capture_config = CaptureConfig { width: 320, height: 240, fps: 30, ..Default::default() };
    let mut capturer = ScreenCapturer::new(capture_config).expect("Failed to create capturer");
    let encoder_config = EncoderConfig {
        width: 320,
        height: 240,
        fps: 30,
        codec: VideoCodec::H264,
        bitrate: 1_000_000,
        ..Default::default()
    };
    let mut encoder = VideoEncoder::new(encoder_config, Some(3)).expect("Failed to create encoder");
    capturer.start();
    let mut captured_count = 0;
    let mut encoded_count = 0;
    for i in 0u64..10 {
        assert_eq!(capturer.accept_image(vec![7; 320 * 240 * 4], 800, 600, i), Offer::Sent);
        while let Some(frame) = capturer.recv_frame() {
            captured_count += 1;
            encoder.encode(&frame).expect("Encode error");
        }
        while encoder.recv_frame().is_some() {
            encoded_count += 1;
        }
    }
    encoder.flush().expect("Flush failed");
    capturer.stop();
    assert_eq!((captured_count, encoded_count), (10, 10));
    assert!(encoded_count > 0 || encoder.frame_count() > 0, "No frames encoded");
}

#[test]
fn test_encoder_various_resolutions() {
    let resolutions = [(320, 240), (640, 480), (1280, 720), (1920, 1080)];
    for (width, height) in resolutions {
        let config = EncoderConfig {
            width,
            height,
            fps: 30,
            codec: VideoCodec::H264,
            ..Default::default()
        };
        let result = VideoEncoder::new(config, Some(3));
        assert!(
            result.is_ok(),
            "Failed to create encoder for {}x{}: {:?}",
            width,
            height,
            result.err()
        );
    }
}

#[test]
fn test_encoder_rejects_raw_codec() {
    let config = EncoderConfig { codec: VideoCodec::Raw, ..Default::default() };
    let result = VideoEncoder::new(config, Some(3));
    assert!(result.is_err(), "Encoder should reject Raw codec");
    assert!(VideoEncoder::new(config, None).is_err());
}

#[test]
fn test_decoder_rejects_raw_codec() {
    let result = VideoDecoder::new(1920, 1080, VideoCodec::Raw);
    assert!(result.is_err(), "Decoder should reject Raw codec");
}

#[test]
fn test_encoder_frame_counting() {
    let config = EncoderConfig {
        width: 128,
        height: 128,
        fps: 30,
        codec: VideoCodec::H264,
        ..Default::default()
    };
    let mut encoder = VideoEncoder::new(config, Some(3)).expect("Failed to create encoder");
    assert_eq!(encoder.frame_count(), 0, "Initial frame count should be 0");
    for i in 0..3 {
        encoder
            .encode(&frame(vec![0u8; 128 * 128 * 4], 128, 128, i * 33333, i))
            .expect("Encode failed");
    }
    encoder.flush().expect("Flush failed");
    while encoder.recv_frame().is_some() {}
    let final_count = encoder.frame_count();
    assert!(final_count > 0, "Frame count should be > 0 after encoding");
    assert_eq!(final_count, 3);
}

#[test]
fn keyframe_is_made_once_on_request() {
    let mut encoder = VideoEncoder::new(EncoderConfig::default(), Some(3)).unwrap();
    let f = frame(vec![0; 16], 2, 2, 40, 0);
    encoder.encode(&f).unwrap();
    encoder.request_keyframe();
    encoder.encode(&f).unwrap();
    encoder.encode(&f).unwrap();
    let marks: Vec<bool> = (0..3).map(|_| encoder.recv_frame().unwrap().is_keyframe).collect();
    assert_eq!(marks, vec![false, true, false]);
    assert!(encoder.recv_frame().is_none());
}

#[test]
fn full_encoder_drops_the_newest() {
    let mut encoder = VideoEncoder::new(EncoderConfig::default(), Some(3)).unwrap();
    for i in 0..10 {
        encoder.encode(&frame(vec![0; 16], 2, 2, i, i)).unwrap();
    }
    let first = encoder.recv_frame().unwrap();
    assert_eq!((first.frame_number, first.pts_us, first.dts_us), (0, 0, 0));
    let mut last = 0;
    while let Some(e) = encoder.recv_frame() {
        last = e.frame_number;
    }
    assert_eq!(last, 7);
}

#[test]
fn bitrate_can_be_set() {
    let mut encoder = VideoEncoder::new(EncoderConfig::default(), Some(3)).unwrap();
    assert_eq!(encoder.config.bitrate, 60_000_000);
    encoder.set_bitrate(1_000_000).unwrap();
    assert_eq!(encoder.config.bitrate, 1_000_000);
}

#[test]
fn queue_is_first_in_first_out_and_bounded() {
    let mut q = BoundedQueue::new(2);
    assert!(q.take().is_none());
    assert_eq!(q.offer(encoded(1)), Offer::Sent);
    assert_eq!(q.offer(encoded(2)), Offer::Sent);
    assert_eq!(q.offer(encoded(3)), Offer::Full);
    assert_eq!(number_of(q.take()), Some(1));
    assert_eq!(q.offer(encoded(4)), Offer::Sent);
    assert_eq!(number_of(q.take()), Some(2));
    assert_eq!(number_of(q.take()), Some(4));
    assert!(q.take().is_none());
}

#[test]
fn capturer_numbers_and_drops_frames() {
    let mut c = ScreenCapturer::new(CaptureConfig::default()).unwrap();
    for i in 0..6 {
        let expected = if i < 4 { Offer::Sent } else { Offer::Full };
        assert_eq!(c.accept_image(vec![1, 2, 3, 0, 4, 5, 6, 0, 9], 2, 1, 100 + i), expected);
    }
    let f = c.recv_frame().unwrap();
    assert_eq!(f.data, vec![1, 2, 3, 255, 4, 5, 6, 255, 9]);
    assert_eq!((f.width, f.height, f.bytes_per_row), (2, 1, 8));
    assert_eq!((f.frame_number, f.pts_us, f.dma_buf_fd), (0, 100, None));
    assert_eq!(f.read_pixel_data(), f.data);
    assert_eq!(c.stats().frames_captured, 6);
}

#[test]
fn surfaces_keep_their_rows() {
    let mut c = ScreenCapturer::new(CaptureConfig::default()).unwrap();
    for i in 0..5 {
        let expected = if i < 4 { Offer::Sent } else { Offer::Full };
        assert_eq!(c.accept_surface(vec![1, 2, 3, 0, 9, 9], 1, 1, 6, 7), expected);
    }
    c.recv_frame();
    let f = c.recv_frame().unwrap();
    assert_eq!(f.data, vec![1, 2, 3, 0, 9, 9]);
    assert_eq!((f.width, f.height, f.bytes_per_row), (1, 1, 6));
    assert_eq!((f.frame_number, f.pts_us, f.dma_buf_fd), (1, 7, None));
}

#[test]
fn restart_drops_old_frames() {
    let mut c = ScreenCapturer::new(CaptureConfig::default()).unwrap();
    c.start();
    c.accept_image(vec![0; 4], 1, 1, 1);
    c.note_stopped();
    assert!(c.is_stopped() && c.stats().is_running);
    c.note_lost();
    assert!(c.is_stopped() && !c.stats().is_running);
    c.restart(Some(7));
    assert!(!c.is_stopped() && c.stats().is_running);
    assert!(c.recv_frame().is_none());
    assert_eq!(c.config.display_id, Some(7));
    c.restart(None);
    assert_eq!(c.config.display_id, Some(7));
}

#[test]
fn alpha_is_filled_in_whole_pixels_only() {
    let mut data = vec![1, 2, 3, 4, 5, 6, 7];
    make_opaque(&mut data);
    assert_eq!(data, vec![1, 2, 3, 255, 5, 6, 7]);
}

#[test]
fn stream_samples_are_sorted_out() {
    assert_eq!(on_sample(false, None), FrameAction::Ignore);
    assert_eq!(on_sample(true, None), FrameAction::Process);
    assert_eq!(on_sample(true, Some(FrameStatus::Complete)), FrameAction::Process);
    assert_eq!(on_sample(true, Some(FrameStatus::Stopped)), FrameAction::MarkStopped);
    assert_eq!(on_sample(true, Some(FrameStatus::Idle)), FrameAction::Ignore);
    assert_eq!(on_sample(true, Some(FrameStatus::Blank)), FrameAction::Ignore);
    assert_eq!(on_sample(true, Some(FrameStatus::Other)), FrameAction::Ignore);
}

#[test]
fn a_closed_capture_gives_no_frame() {
    assert_eq!(
        require_frame(None).err().unwrap().message(),
        "Video error: Capture channel closed"
    );
    assert_eq!(require_frame(Some(frame(vec![], 0, 0, 5, 6))).unwrap().pts_us, 5);
}

#[test]
fn displays_are_chosen() {
    let a = display(3, 100, 100, false);
    let b = display(4, 200, 100, true);
    assert_eq!(main_display(&[]), None);
    assert_eq!(main_display(&[a]), Some(a));
    assert_eq!(main_display(&[a, b]), Some(b));
    assert_eq!(find_display(&[a, b], 4), Some(b));
    assert_eq!(find_display(&[a, b], 5), None);
    assert_eq!(test_display(&[a, b], Some(3)), Some(a));
    assert_eq!(test_display(&[a, b], Some(9)), Some(b));
    assert_eq!(test_display(&[a, b], None), Some(b));
    assert_eq!(target_display(&[a, b], None).unwrap(), a);
    assert_eq!(target_display(&[a, b], Some(4)).unwrap(), b);
    assert_eq!(
        target_display(&[], Some(4)).err().unwrap().message(),
        "Video error: No displays found via ScreenCaptureKit"
    );
    assert_eq!(
        target_display(&[a], Some(42)).err().unwrap().message(),
        "Video error: Display 42 not found in SCK"
    );
    assert_eq!(DisplayStats::default().frames_rendered, 0);
}

#[test]
fn rates_follow_the_configuration() {
    let mut c = VideoConfig::default();
    assert!(is_hw_encoding_available());
    assert_eq!(bytes_per_frame(&c), 3840 * 2160 * 4);
    assert_eq!(raw_bitrate(&c), 3840 * 2160 * 4 * 60 * 8);
    assert_eq!(recommended_bitrate(&c), 4_976_640);
    c.codec = VideoCodec::H264;
    assert_eq!(recommended_bitrate(&c), 9_953_280);
    c.codec = VideoCodec::Raw;
    assert_eq!(recommended_bitrate(&c), 200_000_000);
    c.pixel_format = PixelFormat::Nv12;
    c.width = 3;
    c.height = 3;
    assert_eq!(bytes_per_frame(&c), 13);
    assert_eq!(recommended_bitrate(&c), 9 * 60 * 32);
}

#[test]
fn virtual_display_is_described() {
    let d = VirtualDisplay::new(1920, 1080, 60);
    assert_eq!(d.display_name(), ":99");
    assert_eq!(d.server_arguments(), vec![":99", "-screen", "0", "1920x1080x24", "-ac"]);
    assert_eq!((d.display_id(), d.width(), d.height()), (99, 1920, 1080));
    let mut serial = 1;
    let first = describe_display(3840, 2160, 60, &mut serial);
    assert_eq!(
        first,
        DisplayDescriptor {
            max_pixels_wide: 3840,
            max_pixels_high: 2160,
            vendor_id: 505,
            product_id: 0,
            serial: 1,
            hi_dpi: false,
            mode_width: 3840,
            mode_height: 2160,
            refresh_rate: 60,
        }
    );
    assert_eq!(serial, 2);
    serial = u32::MAX;
    describe_display(1, 1, 1, &mut serial);
    assert_eq!(serial, 0);
}

#[test]
fn created_displays_are_checked() {
    assert_eq!(check_display(Some(5)).unwrap(), 5);
    assert_eq!(
        check_display(Some(0)).err().unwrap().message(),
        "Video error: CGVirtualDisplay returned displayID=0 (invalid)"
    );
    assert!(check_display(None).err().unwrap().message().contains("returned nil"));
    assert!(keep_waiting(1, 0, 5));
    assert!(!keep_waiting(1, 3, 5));
    assert!(!keep_waiting(20, 0, 0));
    assert_eq!(best_mode(&[100, 300, 300, 200], 200), Some(1));
    assert_eq!(best_mode(&[100, 300], 300), None);
    assert_eq!(best_mode(&[], 0), None);
}

#[test]
fn media_times_are_made() {
    let t = CMTimeStruct::new(5, 30);
    assert_eq!((t.value, t.timescale, t.flags, t.epoch), (5, 30, 1, 0));
    assert_eq!(CMTimeStruct::invalid().flags, 0);
}
