use zerocast::audio::{
    channels, check_channels, check_frame_len, check_opus_payload, decoded_sample_count, interleaved_frame_bytes,
    is_ogg_opus, next_audio_ts, opus_from_datagram, sample_rate, take_pcm_frame, AudioError, AudioRtpSender, PcmFrame,
    RecvAvOpts, FRAME_SAMPLES,
};
use zerocast::av_sync::{media_wall_ns, AvSyncState, SkewReport};
use zerocast::capture::{capture_frame, scale_bgra_to_rgb24, CaptureError, PrimaryDisplay, ScreenCapture, StubCapturer};
use zerocast::ffmpeg::{decoder_args_for, live_encoder_args_for, oneshot_encoder_args_for};
use zerocast::encoder::OneshotMode;
use zerocast::playout::{frame_duration_ms, AudioPlayoutBuffer};
use zerocast::receive::{Receiver, SsrcStream};
use zerocast::recv_qos::RecvQoSWindow;
use zerocast::rtcp::RtcpSrAnchor;
use zerocast::rtp_packet::{parse_rtp, rtp_packet};
use zerocast::sender::{
    advance_synthetic_ts, frame_duration_ns, frame_payload_bytes, profile_changes_stream, stats_window_due,
    stream_finished, synthetic_initial_ts, NextFrame, QosStep, SendSession, Sender, StreamStats,
};
use zerocast::qos::{QosAction, StreamMetricsSample};
use zerocast::profile::StreamProfile;
use zerocast::test_pattern::{cycle_palette, decoded_cycle_from_rgb, frame_mean_rgb, test_cycle_frame, CYCLE_COUNT};

fn datagram(seq: u16, ts: u32, marker: bool, payload: &[u8]) -> Vec<u8> {
    rtp_packet(marker, 96, seq, ts, 0x1111, payload)
}

#[test]
fn receiver_delivers_in_order_after_gap() {
    // a new stream starts at the lowest sequence number it has
    let mut first = Receiver::new();
    assert_eq!(first.on_datagram(&datagram(11, 3000, true, &[0x41, 2, 2]), 1_000).len(), 1);
    let mut r = Receiver::new();
    assert!(r.on_datagram(&datagram(10, 3000, false, &[0x67, 1, 1]), 0).is_empty());
    let frames = r.on_datagram(&datagram(11, 3000, true, &[0x41, 2, 2]), 1_000);
    assert_eq!(frames.len(), 1);
    assert_eq!(frames[0].ssrc, 0x1111);
    assert_eq!(frames[0].rtp_ts, 3000);
    assert_eq!(frames[0].access_unit, vec![0, 0, 0, 1, 0x67, 1, 1, 0, 0, 0, 1, 0x41, 2, 2]);
}

#[test]
fn receiver_waits_for_missing_packet() {
    let mut r = Receiver::new();
    assert_eq!(r.on_datagram(&datagram(1, 90, true, &[0x65, 1, 1]), 0).len(), 1);
    // packet 3 arrives before 2: nothing is delivered until 2 is there
    assert!(r.on_datagram(&datagram(3, 270, true, &[0x65, 3, 3]), 10).is_empty());
    let frames = r.on_datagram(&datagram(2, 180, true, &[0x65, 2, 2]), 20);
    assert_eq!(frames.len(), 2);
    assert_eq!(frames[0].rtp_ts, 180);
    assert_eq!(frames[1].rtp_ts, 270);
}

#[test]
fn receiver_drops_packets_older_than_the_jitter_window() {
    let mut r = Receiver::new();
    assert_eq!(r.on_datagram(&datagram(1, 90, true, &[0x65, 1, 1]), 0).len(), 1);
    // packet 3 waits for 2, then ages out of the 200 ms window
    assert!(r.on_datagram(&datagram(3, 270, true, &[0x65, 3, 3]), 0).is_empty());
    assert!(r.on_datagram(&datagram(5, 450, true, &[0x65, 5, 5]), 300_000_000).is_empty());
    let frames = r.on_datagram(&datagram(2, 180, true, &[0x65, 2, 2]), 300_000_001);
    assert_eq!(frames.len(), 1);
    assert_eq!(frames[0].rtp_ts, 180);
}

#[test]
fn receiver_ignores_short_and_foreign_datagrams() {
    let mut r = Receiver::new();
    assert!(r.on_datagram(&[0x80, 96, 0, 1], 0).is_empty());
    let mut s = SsrcStream::new();
    let out = s.on_packet(5, 100, 9000, true, vec![0x65, 7, 7], 0);
    assert_eq!(out.len(), 1);
    assert_eq!(out[0].access_unit, vec![0, 0, 0, 1, 0x65, 7, 7]);
}

#[test]
fn sender_sequences_and_marks_last_packet() {
    let mut s = Sender::new(0xabcd);
    assert_eq!(s.ssrc(), 0xabcd);
    let mut big = vec![0u8, 0, 0, 1, 0x65];
    big.extend(std::iter::repeat(1u8).take(2500));
    let dgrams = s.rtp_datagrams_for_nalus(&[vec![0x67, 0x42, 0x1f], big], 777);
    assert!(dgrams.len() >= 3);
    let parsed: Vec<_> = dgrams.iter().map(|d| parse_rtp(d).unwrap()).collect();
    for (i, p) in parsed.iter().enumerate() {
        assert_eq!(p.sequence_number as usize, i + 1);
        assert_eq!(p.timestamp, 777);
        assert_eq!(p.ssrc, 0xabcd);
        assert_eq!(p.payload_type, 96);
        assert_eq!(p.marker, i + 1 == parsed.len());
        assert!(p.payload.len() <= 1200);
    }
    assert!(s.rtp_datagrams_for_nalus(&[], 5).is_empty());
    let next = s.synthetic_datagram(42);
    let p = parse_rtp(&next).unwrap();
    assert_eq!(p.sequence_number as usize, parsed.len() + 1);
    assert_eq!(p.payload, vec![0, 1, 2, 3]);
    let sr = s.rtcp_sr_datagram(777, 2_000_000_000);
    assert_eq!(sr[1], 200);
    assert_eq!(&sr[4..8], &0xabcdu32.to_be_bytes());
}

#[test]
fn sender_and_receiver_agree() {
    let mut s = Sender::new(7);
    let mut r = Receiver::new();
    let au = vec![vec![0u8, 0, 0, 1, 0x65, 9, 9, 9]];
    let mut got = Vec::new();
    for (i, d) in s.rtp_datagrams_for_nalus(&au, 900).iter().enumerate() {
        got.extend(r.on_datagram(d, i as u128));
    }
    assert_eq!(got.len(), 1);
    assert_eq!(got[0].access_unit, au[0]);
}

#[test]
fn rtp_timestamps_and_pacing() {
    assert_eq!(Sender::pts_ns_to_rtp(1_000_000_000), 90_000);
    assert_eq!(Sender::pts_ns_to_rtp(0), 0);
    assert_eq!(Sender::pts_ns_to_rtp(u128::MAX), ((u128::MAX / 1_000_000_000) as u64) as u32);
    assert_eq!(advance_synthetic_ts(10, 0), 3010);
    assert_eq!(advance_synthetic_ts(u32::MAX, 1_000_000_000), 89_999);
    assert_eq!(synthetic_initial_ts(1000), 90_000);
    assert!(stream_finished(5, 5));
    assert!(!stream_finished(0, 1_000_000));
    assert!(stats_window_due(30));
    assert!(!stats_window_due(31));
    assert_eq!(frame_duration_ns(0), 1_000_000_000);
    assert_eq!(frame_duration_ns(30), 33_333_333);
    let p = StreamProfile { name: "x", width: 640, height: 360, fps: 30 };
    assert!(!profile_changes_stream(p, 640, 360, 30));
    assert!(profile_changes_stream(p, 640, 360, 15));
    assert_eq!(frame_payload_bytes(&[vec![1, 2], vec![3]]), 3);
}

#[test]
fn stats_window_sample() {
    let mut st = StreamStats::new();
    for _ in 0..30 {
        st.record_frame(4_000, 10_000);
    }
    let s = st.sample(2_000_000, 30);
    assert_eq!(s.actual_mfps, 15_000);
    assert_eq!(s.target_mfps, 30_000);
    assert_eq!(s.avg_encode_us, 4_000);
    assert_eq!(s.kbps, 1_200);
    let empty = StreamStats::new().sample(0, 0);
    assert_eq!((empty.actual_mfps, empty.avg_encode_us, empty.kbps), (0, 0, 0));
}

fn anchor(ssrc: u32) -> RtcpSrAnchor {
    RtcpSrAnchor { ssrc, rtp_ts: 0, wall_ns: 1_000_000_000 }
}

#[test]
fn rtcp_skew_near_zero_when_both_advance_equally() {
    let mut sync = AvSyncState::new(15);
    sync.on_video_rtcp_sr(anchor(1));
    sync.on_audio_rtcp_sr(anchor(2));
    let now = 5_000_000_000u128;
    sync.on_video_rtp_ts(90_000, now);
    sync.on_audio_rtp_ts(48_000, now);
    let skew_ns = sync.rtcp_skew_ns(now).unwrap();
    let skew = skew_ns as f64 / 1_000_000.0;
    assert!(skew.abs() < 1.0, "same media advance => ~0 skew, got {skew}");
}

#[test]
fn rtcp_skew_none_when_audio_stale() {
    let mut sync = AvSyncState::new(15);
    sync.on_video_rtcp_sr(anchor(1));
    sync.on_audio_rtcp_sr(anchor(2));
    let t0 = 10_000_000_000u128;
    sync.on_audio_rtp_ts(48_000, t0);
    let now = t0 + 2_000_000_000;
    sync.on_video_rtp_ts(900_000, now);
    assert!(sync.rtcp_skew_ns(now).is_none());
}

#[test]
fn rtcp_skew_none_when_extrapolation_too_far() {
    let mut sync = AvSyncState::new(15);
    sync.on_video_rtcp_sr(anchor(1));
    sync.on_audio_rtcp_sr(anchor(2));
    let now = 1_000u128;
    sync.on_audio_rtp_ts(48_000, now);
    sync.on_video_rtp_ts(90_000_000, now);
    assert!(sync.rtcp_skew_ns(now).is_none());
}

#[test]
fn av_sync_reports() {
    assert_eq!(media_wall_ns(5, 10, 100, 90_000), Some(5 + 1_000_000));
    assert_eq!(media_wall_ns(5, 10, 5, 90_000), None);
    let mut sync = AvSyncState::new(0);
    let mut last = None;
    for _ in 0..30 {
        last = sync.on_video_frame(0);
    }
    assert_eq!(last, Some(SkewReport::AudioEnded { video_frames: 30, audio_rtp_ts: 0, skew_ns: 30_000_000_000 }));
    let mut live = AvSyncState::new(15);
    let mut report = None;
    for i in 0..15u32 {
        report = live.on_audio_rtp_ts(960 * (i + 1), 0);
    }
    assert_eq!(
        report,
        Some(SkewReport::Unavailable { from_video: false, video_frames: 0, video_rtp_ts: 0, audio_rtp_ts: 960 * 15 })
    );
}

#[test]
fn playout_releases_in_order_after_delay() {
    let mut buf = AudioPlayoutBuffer::new(40);
    buf.push(0, vec![1], 0);
    buf.push(960, vec![2], 0);
    assert!(buf.pop_ready(0).is_none());
    assert_eq!(buf.pop_ready(45_000_000), Some(vec![1]));
}

#[test]
fn playout_orders_replaces_and_drops() {
    let mut buf = AudioPlayoutBuffer::new(0);
    buf.push(0, vec![1], 0);
    buf.push(1920, vec![3], 0);
    buf.push(960, vec![2], 0);
    buf.push(960, vec![22], 0);
    assert_eq!(buf.len(), 3);
    buf.set_skew_correction_ns(-5);
    assert_eq!(buf.pop_ready(0), Some(vec![1]));
    assert_eq!(buf.pop_ready(19_999_999), None);
    assert_eq!(buf.pop_ready(20_000_000), Some(vec![22]));
    buf.push(2880, vec![4], 0);
    buf.drop_late(1);
    assert_eq!(buf.len(), 1);
    assert_eq!(buf.pop_ready(1_000_000_000), Some(vec![4]));
    assert_eq!(frame_duration_ms(), 20);
}

#[test]
fn fraction_lost_window() {
    let mut w = RecvQoSWindow::new(0);
    w.record_loss(2);
    assert!(((w.fraction_lost() as f64 / 255.0) - 2.0 / 3.0).abs() < 0.01);
}

#[test]
fn decode_lag_includes_queue() {
    let mut w = RecvQoSWindow::new(15);
    w.record_decode_us(10_000);
    w.set_pending_decode(2);
    let lag = w.estimated_decode_lag_us();
    assert!(lag > 10_000);
}

#[test]
fn feedback_snapshot_resets_counters() {
    let mut w = RecvQoSWindow::new(30);
    w.record_packet();
    w.record_loss(1);
    w.record_jitter_us(10_000);
    w.record_jitter_us(20_000);
    w.record_drop();
    let fb = w.snapshot_feedback();
    assert_eq!(fb.loss_fraction, 85);
    assert_eq!(fb.jitter_ms, 13);
    assert_eq!(fb.dropped_frames, 1);
    assert_eq!((w.packets_expected, w.packets_lost, w.dropped_frames), (0, 0, 0));
    assert_eq!(w.jitter_us, 13_000);
}

#[test]
fn test_cycle_frames_are_recognised() {
    for cycle in 0..CYCLE_COUNT {
        let frame = test_cycle_frame(64, 48, cycle);
        assert_eq!(frame.len(), 64 * 48 * 3);
        assert_eq!(decoded_cycle_from_rgb(&frame, 64, 48), cycle);
    }
    let f = test_cycle_frame(50, 2, 9);
    assert_eq!(&f[0..3], &[(9 * 23 + 40) as u8, (9 * 37 + 40) as u8, (9 * 53 + 40u32) as u8]);
    assert_eq!(&f[(50 + 1) * 3..(50 + 2) * 3], &[180, 180, 180]);
    assert_eq!(cycle_palette(12), cycle_palette(2));
    assert_eq!(frame_mean_rgb(&[10, 20, 30, 30, 40, 50, 9]), (20, 30, 40));
    assert_eq!(frame_mean_rgb(&[]), (0, 0, 0));
}

#[test]
fn synthetic_capture() {
    let f = capture_frame(2, 2, 0x0001_0203).unwrap();
    assert_eq!(f.len(), 12);
    assert_eq!(&f[0..3], &[9, 14, 11]);
    let mut stub = StubCapturer::new(1, 1);
    assert_eq!(stub.capture_frame(), Ok(vec![0, 0, 0]));
    assert_eq!(stub.capture_frame(), Ok(vec![3, 0, 0]));
    stub.set_output_size(2, 1);
    assert_eq!(stub.capture_frame(), Ok(vec![6, 0, 0, 6, 0, 0]));
    let mut cap = ScreenCapture::open_stub(2, 2);
    assert_eq!(cap.capture_stub_frame().map(|f| f.len()), Some(12));
    assert_eq!(cap.reconfigure(0, 5), Err(CaptureError::ZeroSize));
    assert_eq!(cap.reconfigure(1, 1), Ok(()));
    assert_eq!((cap.width(), cap.height()), (1, 1));
    assert!(ScreenCapture::open_native(2, 2, 0, 10).is_err());
    let native = ScreenCapture::open_native(1, 1, 2, 1).ok().unwrap();
    assert_eq!(native.native(), Some((2, 1)));
    assert_eq!(native.frame_from_bgra(&[1, 2, 3, 4, 5, 6, 7, 8]), vec![3, 2, 1]);
    assert_eq!(PrimaryDisplay::stub(), PrimaryDisplay { width: 1920, height: 1080, refresh_hz: 60 });
    assert_eq!(PrimaryDisplay::from_size(0, 1), Err(CaptureError::InvalidDisplaySize));
    assert_eq!(scale_bgra_to_rgb24(&[1, 2, 3, 4], 1, 1, 4, 1, 1), vec![3, 2, 1]);
    assert_eq!(scale_bgra_to_rgb24(&[1, 2, 3], 1, 1, 4, 1, 1), vec![0, 0, 0]);
}

#[test]
fn ffmpeg_command_lines() {
    let live = live_encoder_args_for(640, 360, 30, false);
    assert_eq!(live[10], "-s");
    assert_eq!(live[11], "640x360");
    assert_eq!(live[13], "30");
    let g = live.iter().position(|a| a == "-g").unwrap();
    assert_eq!(live[g + 1], "30");
    assert_eq!(live.last().unwrap(), "-");
    let win = live_encoder_args_for(640, 360, 0, true);
    let g = win.iter().position(|a| a == "-g").unwrap();
    assert_eq!(win[g + 1], "1");
    assert!(win.iter().any(|a| a.starts_with("repeat-headers=0")));
    let one = oneshot_encoder_args_for(426, 240, 0, OneshotMode::WithHeaders);
    let g = one.iter().position(|a| a == "-g").unwrap();
    assert_eq!(one[g + 1], "1");
    assert!(one.iter().any(|a| a == "-frames:v"));
    let dec = decoder_args_for(426, 240);
    assert!(dec.iter().any(|a| a == "scale=426:240:force_original_aspect_ratio=disable:flags=fast_bilinear"));
}

#[test]
fn audio_frames_and_checks() {
    assert_eq!(FRAME_SAMPLES, 960);
    assert_eq!(interleaved_frame_bytes(2), 3840);
    assert_eq!(sample_rate(), 48_000);
    assert_eq!(channels(), 2);
    let f = PcmFrame::stereo(vec![1, 2]);
    assert_eq!((f.samples.len(), f.channels), (2, 2));
    assert_eq!(check_channels(3), Err(AudioError::UnsupportedChannels { channels: 3 }));
    assert_eq!(check_channels(1), Ok(1));
    assert_eq!(check_frame_len(1920, 2), Ok(()));
    assert_eq!(check_frame_len(10, 2), Err(AudioError::FrameLength { got: 10, expected: 1920 }));
    assert_eq!(check_opus_payload(&[]), Err(AudioError::EmptyPayload));
    assert_eq!(decoded_sample_count(960, 2), Ok(1920));
    assert_eq!(decoded_sample_count(961, 2), Err(AudioError::UnexpectedSampleCount { samples: 961 }));
    assert!(is_ogg_opus(b"OggS\0"));
    assert!(!is_ogg_opus(b"Ogg"));
    assert_eq!(next_audio_ts(u32::MAX), 959);
    let mut pending: Vec<i16> = (0..2000).map(|i| i as i16).collect();
    let frame = take_pcm_frame(&mut pending, 2).unwrap();
    assert_eq!(frame.samples.len(), 1920);
    assert_eq!(frame.samples[0], 0);
    assert_eq!(pending.len(), 80);
    assert_eq!(pending[0], 1920);
    assert!(take_pcm_frame(&mut pending, 2).is_none());
    assert_eq!(RecvAvOpts::log_only(true, 15), RecvAvOpts { with_audio: true, playback: false, video_fps: 15 });
}

#[test]
fn opus_over_rtp() {
    let mut s = AudioRtpSender::new(0xA000_0001);
    let d = s.opus_datagram(&[5, 6], 960);
    let p = parse_rtp(&d).unwrap();
    assert_eq!((p.payload_type, p.sequence_number, p.timestamp, p.marker), (111, 1, 960, false));
    assert_eq!(opus_from_datagram(&d), Some((960, vec![5, 6])));
    let video = rtp_packet(false, 96, 1, 1, 1, &[1]);
    assert_eq!(opus_from_datagram(&video), None);
    assert_eq!(opus_from_datagram(&d[..8]), None);
    let sr = s.rtcp_sr_datagram(960, 0);
    assert_eq!(&sr[16..20], &960u32.to_be_bytes());
}

#[test]
fn send_session_frames_and_limit() {
    let mut s = SendSession::new(64, 48, 30, 2, true);
    assert_eq!(s.next_frame(), NextFrame::TestPattern { cycle: 0 });
    assert_eq!(s.frame_sent(1000, 500, 33_000), None);
    assert_eq!(s.next_frame(), NextFrame::TestPattern { cycle: 1 });
    assert_eq!(s.frame_sent(1000, 500, 66_000), None);
    assert_eq!(s.next_frame(), NextFrame::Done);
    assert_eq!(s.frame_index(), 2);
    let live = SendSession::new(64, 48, 30, 0, false);
    assert_eq!(live.next_frame(), NextFrame::Capture);
    assert_eq!(live.frame_period_ns(), 33_333_333);
}

#[test]
fn send_session_closes_window_every_30_frames() {
    let mut s = SendSession::new(640, 360, 30, 0, false);
    for _ in 0..29 {
        assert_eq!(s.frame_sent(2000, 1000, 500_000), None);
    }
    assert_eq!(s.window_frames(), 29);
    let sample = s.frame_sent(2000, 1000, 1_000_000);
    assert_eq!(
        sample,
        Some(StreamMetricsSample { actual_mfps: 30_000, target_mfps: 30_000, avg_encode_us: 2000, kbps: 240 })
    );
    assert_eq!(s.window_frames(), 0);
    assert_eq!(s.frame_index(), 30);
}

#[test]
fn send_session_qos_steps() {
    let low = StreamProfile::low();
    let mut s = SendSession::new(1280, 720, 30, 0, false);
    assert_eq!(s.qos_step(QosAction::Hold), QosStep::Hold);
    assert_eq!(s.qos_step(QosAction::RecommendDowngrade(low)), QosStep::Apply(low));
    assert!(s.apply_profile(low));
    assert_eq!((s.width(), s.height(), s.fps()), (426, 240, 15));
    assert!(!s.apply_profile(low));
    let cycle = SendSession::new(1280, 720, 30, 0, true);
    assert_eq!(cycle.qos_step(QosAction::RecommendUpgrade(low)), QosStep::Ignore(low));
}

#[test]
fn every_test_frame_decodes_to_its_cycle() {
    for &(w, h) in &[(1u32, 2u32), (7, 3), (64, 48), (426, 240)] {
        for c in 0..23u32 {
            let f = test_cycle_frame(w, h, c);
            assert_eq!(decoded_cycle_from_rgb(&f, w, h), c % CYCLE_COUNT, "{w}x{h} cycle {c}");
        }
    }
}
