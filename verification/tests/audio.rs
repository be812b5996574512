use bridge::audio::capture::{
    encode_samples, AudioCaptureConfig, AudioCapturer, AudioPacket, VirtualAudioCapture,
};
use bridge::audio::playback::{decode_samples, AudioPlayer, PlaybackConfig, PlaybackStats};
use bridge::audio::sizes::{buffer_size_bytes, bytes_per_sample};
use bridge::audio::stream::StreamOpening;
use bridge::audio::sync::AudioSync;
use bridge::protocol::{AudioConfig, PixelFormat};
use bridge::queue::Offer;
use bridge::types::{
    elapsed_between, elapsed_us, now_us, timestamp_of, FrameBuffer, Resolution, StreamStats,
    TimingRingBuffer,
};

fn packet(data: Vec<u8>) -> AudioPacket {
    AudioPacket { data, pts_us: 0, sample_count: 0, sequence: 0 }
}

#[test]
fn samples_survive_packets() {
    let s = vec![1.5f32.to_bits(), (-0.25f32).to_bits(), 0x01020304];
    let bytes = encode_samples(&s);
    assert_eq!(&bytes[8..], &[4, 3, 2, 1]);
    assert_eq!(decode_samples(&bytes), s);
    assert_eq!(decode_samples(&bytes[..11]), &s[..2]);
}

#[test]
fn sizes_follow_the_configuration() {
    let mut c = AudioConfig::default();
    assert_eq!(bytes_per_sample(&c), 8);
    assert_eq!(buffer_size_bytes(&c), 3840);
    c.bits_per_sample = 15;
    assert_eq!(bytes_per_sample(&c), 2);
    let capture = AudioCaptureConfig::from(&c);
    assert_eq!((capture.sample_rate, capture.channels, capture.buffer_size), (48000, 2, 480));
    assert!(!capture.capture_input);
    assert_eq!(PlaybackConfig::from(&c).buffer_count, 4);
    assert_eq!(PlaybackConfig::default().buffer_size, 960);
}

#[test]
fn capturing_starts_with_a_stream() {
    let mut c = AudioCapturer::new(AudioCaptureConfig::default()).unwrap();
    assert!(!c.is_running());
    assert_eq!(
        c.start(StreamOpening::NoDevice).err().unwrap().message(),
        "Audio error: No input device available"
    );
    assert_eq!(
        c.start(StreamOpening::NotBuilt("x".to_string())).err().unwrap().message(),
        "Audio error: Failed to build stream: x"
    );
    assert_eq!(
        c.start(StreamOpening::NotStarted("y".to_string())).err().unwrap().message(),
        "Audio error: Failed to start stream: y"
    );
    assert!(!c.is_running());
    c.start(StreamOpening::Playing).unwrap();
    assert!(c.is_running());
    c.start(StreamOpening::NoDevice).unwrap();
    assert!(c.stop());
    assert!(!c.stop());
}

#[test]
fn packets_are_numbered_and_queued() {
    let mut c = AudioCapturer::new(AudioCaptureConfig::default()).unwrap();
    for i in 0..34u64 {
        let expected = if i < 32 { Offer::Sent } else { Offer::Full };
        assert_eq!(c.accept_samples(&[1, 2, 3, 4, 5], 10 + i), expected);
    }
    let p = c.recv_packet().unwrap();
    assert_eq!((p.sequence, p.pts_us, p.sample_count, p.data.len()), (0, 10, 2, 20));
    assert_eq!(c.recv_packet().unwrap().sequence, 1);
    assert_eq!(c.accept_samples(&[], 0), Offer::Sent);
    let mut last = 0;
    while let Some(p) = c.recv_packet() {
        last = p.sequence;
    }
    assert_eq!(last, 34);
    assert!(VirtualAudioCapture::new().is_err());
}

#[test]
fn playback_needs_to_run() {
    let mut p = AudioPlayer::new(PlaybackConfig::default()).unwrap();
    assert_eq!(p.queue_capacity(), 8);
    assert_eq!(
        p.play(&packet(vec![])).err().unwrap().message(),
        "Audio error: Playback not started"
    );
    assert_eq!(
        p.start(StreamOpening::NoDevice).err().unwrap().message(),
        "Audio error: No output device available"
    );
    p.start(StreamOpening::Playing).unwrap();
    assert!(p.is_running());
    assert_eq!(p.play(&packet(vec![1, 0, 0, 0])).unwrap(), vec![1]);
    p.note_queued(true).unwrap();
    assert!(p.note_queued(false).is_err());
    assert_eq!(p.stats().packets_played, 1);
    assert!(p.stop());
    assert!(p.require_running().is_err());
}

#[test]
fn silence_is_served_where_samples_run_out() {
    let mut p = AudioPlayer::new(PlaybackConfig::default()).unwrap();
    p.start(StreamOpening::Playing).unwrap();
    p.enqueue(&vec![1, 2, 3]);
    assert_eq!(p.fill(2), vec![1, 2]);
    assert_eq!(p.stats().buffer_level, 1);
    p.enqueue(&vec![4]);
    assert_eq!(p.fill(4), vec![3, 4, 0, 0]);
    assert_eq!(p.stats(), PlaybackStats { packets_played: 0, underruns: 2, buffer_level: 0 });
    p.enqueue(&vec![5]);
    p.stop();
    p.start(StreamOpening::Playing).unwrap();
    assert_eq!(p.fill(1), vec![0]);
}

#[test]
fn drift_is_made_up_for_in_steps() {
    let mut s = AudioSync::new(500);
    assert!(s.is_synced());
    s.update_audio(10_000);
    assert_eq!(s.adjustment_us(), 1000);
    assert!(!s.is_synced());
    s.update_video(10_000);
    assert_eq!(s.adjustment_us(), 900);
    s.update_video(20_000);
    assert_eq!(s.adjustment_us(), -190);
    assert!(s.is_synced());
}

#[test]
fn ring_keeps_the_last() {
    let mut r = TimingRingBuffer::new(3);
    assert_eq!((r.average(), r.min(), r.max()), (0, 0, 0));
    for t in [100, 1, 2, 9] {
        r.push(t);
    }
    assert_eq!((r.average(), r.min(), r.max()), (4, 1, 9));
}

#[test]
fn types_have_their_values() {
    assert_eq!(Resolution::uhd_4k().pixels(), 8_294_400);
    assert_eq!(Resolution::qhd().label(), "2560x1440");
    assert_eq!(Resolution::fhd(), Resolution::new(1920, 1080));
    assert_eq!(Resolution::hd().pixels(), 921_600);
    let b = FrameBuffer::new(4, 2, PixelFormat::Bgra8);
    assert_eq!((b.data.len(), b.bytes_per_row), (32, 16));
    let b = FrameBuffer::new(4, 2, PixelFormat::Nv12);
    assert_eq!((b.data.len(), b.bytes_per_row), (12, 4));
    assert_eq!(StreamStats::default().frames, 0);
    assert_eq!(elapsed_between(5, 9), 4);
    assert_eq!(elapsed_between(9, 5), 0);
    let start = now_us();
    assert!(start > 1_600_000_000_000_000);
    assert!(elapsed_us(start) < 60_000_000);
    assert_eq!(elapsed_us(u64::MAX), 0);
    assert!(start > 1_600_000_000_000_000);
    assert_eq!(timestamp_of(Some(77)), 77);
    assert_eq!(timestamp_of(Some((1 << 64) + 5)), 5);
    assert_eq!(timestamp_of(None), 0);
}
