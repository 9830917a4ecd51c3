use zerocast::decode::{infer_rgb24_dimensions, scale_rgb24_nearest, finish_decoded_frame, DecodeError, blit_rgb24, frame_has_expected_size, check_access_unit};
use zerocast::encoder::{synthetic_nalus, EncoderCore, VideoEncoder, pts_ns, use_live_pipe_encoder, EncoderBackend, backend_after_spawn, SpawnOutcome, EncoderError, oneshot_output_nalus, prime_from_output, require_vcl};
use zerocast::h264_rtp::{nalus_to_annex_b, packetize_annex_b, FrameAssembler, AssemblyError, MAX_RTP_PAYLOAD};
use zerocast::nal::{coalesce_adjacent_vcl_nalus, nalu_type_of, split_annex_b_nalus, strip_annex_b_start_code};
use zerocast::rtcp::{build_recv_feedback, build_rtcp_sr, parse_recv_feedback, parse_rtcp_sr, wall_to_ntp, ntp_to_wall_ns, RecvFeedback, RtcpSrAnchor};
use zerocast::rtp_packet::{parse_rtp, rtp_packet};

#[test]
fn annex_b_split_roundtrip() {
    let data = [0u8, 0, 0, 1, 0x67, 0x42, 0, 0, 0, 1, 0x65, 0x88];
    let nalus = split_annex_b_nalus(&data);
    assert_eq!(nalus.len(), 2);
    assert_eq!(&nalus[0][..5], &[0, 0, 0, 1, 0x67]);
}

#[test]
fn annex_b_split_ignores_false_start_in_rbsp() {
    let mut idr = vec![0u8, 0, 0, 1, 0x65, 0x88];
    idr.extend(std::iter::repeat(0u8).take(32_760));
    idr.extend_from_slice(&[0, 0, 0, 1, 0x41, 0xaa]);
    let nalus = split_annex_b_nalus(&idr);
    assert_eq!(nalus.len(), 1, "false type-1 start inside IDR must not split NAL");
}

#[test]
fn coalesce_adjacent_idr_parts() {
    let a = vec![0u8, 0, 0, 1, 0x65, 1, 2, 3];
    let b = vec![0u8, 0, 0, 1, 0x65, 4, 5, 6];
    let merged = coalesce_adjacent_vcl_nalus(vec![a, b]);
    assert_eq!(merged.len(), 1);
    assert_eq!(&merged[0][5..], &[1, 2, 3, 4, 5, 6]);
}

#[test]
fn annex_b_split_mixed_start_code_lengths() {
    let mut data = vec![0u8, 0, 0, 1, 0x67, 0x42];
    data.extend_from_slice(&[0, 0, 1, 0x68, 0xee, 0xde]);
    data.extend_from_slice(&[0, 0, 1, 0x65, 0x88, 0x99]);
    let nalus = split_annex_b_nalus(&data);
    assert_eq!(nalus.len(), 3);
    assert_eq!(nalu_type_of(&nalus[0]), Some(7));
    assert_eq!(nalu_type_of(&nalus[1]), Some(8));
    assert_eq!(nalu_type_of(&nalus[2]), Some(5));
    assert!(nalus[1].len() < 32, "PPS should be tiny, not merged with IDR");
}

#[test]
fn strip_start_codes() {
    assert_eq!(strip_annex_b_start_code(&[0, 0, 0, 1, 0x65]), &[0x65]);
    assert_eq!(strip_annex_b_start_code(&[0, 0, 1, 0x41]), &[0x41]);
    assert_eq!(strip_annex_b_start_code(&[0x65, 1]), &[0x65, 1]);
}

#[test]
fn infer_1080p_rgb24() {
    let (w, h) = infer_rgb24_dimensions(1920 * 1080 * 3).unwrap();
    assert_eq!((w, h), (1920, 1080));
}

#[test]
fn infer_dimensions_other_sizes() {
    assert_eq!(infer_rgb24_dimensions(640 * 360 * 3), Some((1920, 360 * 640 / 1920)));
    assert_eq!(infer_rgb24_dimensions(426 * 7 * 3), Some((426, 7)));
    assert_eq!(infer_rgb24_dimensions(10), None);
    assert_eq!(infer_rgb24_dimensions(0), None);
}

#[test]
fn fragmentation_timestamp_consistency() {
    let mut raw: Vec<u8> = Vec::new();
    raw.push(0x65);
    raw.extend(std::iter::repeat(0xAAu8).take(MAX_RTP_PAYLOAD * 3));
    let now_ms = std::time::SystemTime::now().duration_since(std::time::UNIX_EPOCH).unwrap().as_millis();
    let rtptimestamp = ((now_ms * 90_000u128) / 1000u128) as u32;
    let nal_header = raw[0];
    let nri_f = nal_header & 0xE0;
    let nal_payload = &raw[1..];
    let frag_size = MAX_RTP_PAYLOAD.saturating_sub(2);
    let mut offset = 0usize;
    let mut first = true;
    let mut pkts: Vec<Vec<u8>> = Vec::new();
    let mut seq: u16 = 0;
    while offset < nal_payload.len() {
        let end = usize::min(offset + frag_size, nal_payload.len());
        let slice = &nal_payload[offset..end];
        let mut payload_vec: Vec<u8> = Vec::with_capacity(slice.len() + 2);
        let fu_indicator = nri_f | 28u8;
        let mut fu_header = raw[0] & 0x1F;
        if first {
            fu_header |= 0x80;
        }
        if end == nal_payload.len() {
            fu_header |= 0x40;
        }
        payload_vec.push(fu_indicator);
        payload_vec.push(fu_header);
        payload_vec.extend_from_slice(slice);
        seq = seq.wrapping_add(1);
        pkts.push(rtp_packet(false, 96, seq, rtptimestamp, 0xdeadbeef, &payload_vec));
        first = false;
        offset = end;
    }
    assert!(!pkts.is_empty());
    let parsed: Vec<_> = pkts.iter().map(|p| parse_rtp(p).unwrap()).collect();
    let first_ts = parsed[0].timestamp;
    assert!(parsed.iter().all(|p| p.timestamp == first_ts));
}

#[test]
fn rtp_packet_roundtrip() {
    let bytes = rtp_packet(true, 96, 0x1234, 0xdead_beef, 0x0102_0304, &[9, 8, 7]);
    assert_eq!(bytes, vec![0x80, 0xE0, 0x12, 0x34, 0xde, 0xad, 0xbe, 0xef, 1, 2, 3, 4, 9, 8, 7]);
    let p = parse_rtp(&bytes).unwrap();
    assert_eq!((p.version, p.marker, p.payload_type, p.sequence_number, p.timestamp, p.ssrc), (2, true, 96, 0x1234, 0xdead_beef, 0x0102_0304));
    assert_eq!(p.payload, vec![9, 8, 7]);
    assert!(parse_rtp(&bytes[..11]).is_none());
}

#[test]
fn rtcp_sr_roundtrip() {
    let sr = build_rtcp_sr(0xA000_0001, 48_000, 3_900_000_000, 0);
    let anchor = parse_rtcp_sr(&sr).expect("parse SR");
    assert_eq!(anchor.ssrc, 0xA000_0001);
    assert_eq!(anchor.rtp_ts, 48_000);
}

#[test]
fn parse_rtcp_sr_rejects_bad_version() {
    let mut sr = build_rtcp_sr(1, 0, 0, 0);
    sr[0] = 0x40;
    assert!(parse_rtcp_sr(&sr).is_none());
}

#[test]
fn parse_rtcp_sr_rejects_short_length_field() {
    let mut sr = build_rtcp_sr(1, 0, 0, 0);
    sr[2] = 0;
    sr[3] = 0;
    assert!(parse_rtcp_sr(&sr).is_none());
}

#[test]
fn parse_rtcp_sr_rejects_truncated_buffer() {
    let sr = build_rtcp_sr(1, 0, 0, 0);
    assert!(parse_rtcp_sr(&sr[..20]).is_none());
}

#[test]
fn ntp_wall_clock_conversions() {
    let (secs, frac) = wall_to_ntp(1_000_000_000 * 1_700_000_000 + 500_000_000);
    assert_eq!(secs, (1_700_000_000u64 + 2_208_988_800) as u32);
    assert_eq!(frac, 1u32 << 31);
    assert_eq!(ntp_to_wall_ns(2_208_988_800 + 2, 1u32 << 31), 2_500_000_000);
    assert_eq!(ntp_to_wall_ns(5, 0), 0);
    let anchor = parse_rtcp_sr(&build_rtcp_sr(7, 90, 2_208_988_801, 0)).unwrap();
    assert_eq!(anchor, RtcpSrAnchor { ssrc: 7, rtp_ts: 90, wall_ns: 1_000_000_000 });
}

#[test]
fn recv_feedback_roundtrip() {
    let fb = RecvFeedback { loss_fraction: 31, jitter_ms: 8, decode_lag_ms: 120, dropped_frames: 3 };
    let pkt = build_recv_feedback(0xB000_0001, fb);
    let parsed = parse_recv_feedback(&pkt).expect("parse feedback");
    assert!(((parsed.loss_fraction as f64 / 255.0) - 0.12).abs() < 0.02);
    assert_eq!(parsed.jitter_ms, fb.jitter_ms);
    assert_eq!(parsed.decode_lag_ms, fb.decode_lag_ms);
    assert_eq!(parsed.dropped_frames, fb.dropped_frames);
    assert!(parse_recv_feedback(&pkt[..19]).is_none());
}

#[test]
fn annex_b_stream_from_units() {
    let out = nalus_to_annex_b(&[vec![0x67, 1], vec![0, 0, 1, 0x68], vec![0, 0, 0, 1, 0x65, 2]]);
    assert_eq!(out, vec![0, 0, 0, 1, 0x67, 1, 0, 0, 1, 0x68, 0, 0, 0, 1, 0x65, 2]);
    assert!(nalus_to_annex_b(&[]).is_empty());
}

#[test]
fn packetize_small_and_large_units() {
    let mut au = vec![0u8, 0, 0, 1, 0x41, 1, 2, 3];
    let small = packetize_annex_b(&au, MAX_RTP_PAYLOAD);
    assert_eq!(small, vec![vec![0x41, 1, 2, 3]]);
    au = vec![0u8, 0, 0, 1, 0x65];
    au.extend(std::iter::repeat(7u8).take(3000));
    let frags = packetize_annex_b(&au, MAX_RTP_PAYLOAD);
    assert!(frags.len() > 2);
    assert!(frags.iter().all(|f| f.len() <= MAX_RTP_PAYLOAD));
    assert!(packetize_annex_b(&[], MAX_RTP_PAYLOAD).is_empty());
}

#[test]
fn frame_assembler_single_units() {
    let mut fa = FrameAssembler::new();
    assert_eq!(fa.push_rtp_payload(&[]), Ok(()));
    assert_eq!(fa.push_rtp_payload(&[0x67, 0x42, 0x00]), Ok(()));
    assert_eq!(fa.push_rtp_payload(&[0x65, 0x88, 0x99]), Ok(()));
    assert_eq!(fa.push_rtp_payload(&[0x65]), Err(AssemblyError::Depacketize));
    assert_eq!(fa.finish(), vec![0, 0, 0, 1, 0x67, 0x42, 0x00, 0, 0, 0, 1, 0x65, 0x88, 0x99]);
    assert!(fa.finish().is_empty());
    fa.push_chunk(&[1, 2]);
    assert!(fa.finish().is_empty());
    fa.push_chunk(&[0, 0, 0, 1, 5]);
    fa.push_chunk(&[6]);
    fa.reset();
    assert!(fa.finish().is_empty());
}

#[test]
fn decode_output_sizes() {
    assert_eq!(check_access_unit(&[]), Err(DecodeError::EmptyAccessUnit));
    assert!(check_access_unit(&[0, 0, 0, 1]).is_ok());
    assert_eq!(finish_decoded_frame(vec![0; 5], 2, 2), Err(DecodeError::ShortRead { got: 5, expected: 12 }));
    let (rgb, w, h) = finish_decoded_frame(vec![1; 12], 2, 2).unwrap();
    assert_eq!((rgb.len(), w, h), (12, 2, 2));
    assert_eq!(finish_decoded_frame(vec![0; 14], 2, 2), Err(DecodeError::SizeMismatch { got: 14, expected: 12 }));
    let big: Vec<u8> = (0..(320 * 2 * 3)).map(|i| (i % 251) as u8).collect();
    let (scaled, w2, h2) = finish_decoded_frame(big.clone(), 2, 1).unwrap();
    assert_eq!((w2, h2), (2, 1));
    assert_eq!(scaled, scale_rgb24_nearest(&big, 640, 1, 2, 1));
    assert!(frame_has_expected_size(12, 2, 2));
    assert!(!frame_has_expected_size(11, 2, 2));
}

#[test]
fn nearest_neighbour_scaling() {
    let src: Vec<u8> = vec![1, 2, 3, 4, 5, 6, 7, 8, 9, 10, 11, 12];
    assert_eq!(scale_rgb24_nearest(&src, 2, 2, 1, 1), vec![1, 2, 3]);
    assert_eq!(scale_rgb24_nearest(&src, 2, 2, 2, 2), src);
    assert_eq!(scale_rgb24_nearest(&src[..3], 2, 2, 2, 1), vec![1, 2, 3, 0, 0, 0]);
}

#[test]
fn blit_into_window() {
    let mut dst = vec![7u32; 6];
    blit_rgb24(&mut dst, 3, 2, &[1, 2, 3, 4, 5, 6], 2, 1);
    assert_eq!(dst, vec![0x010203, 0x040506, 0, 0, 0, 0]);
    let mut untouched = vec![7u32; 4];
    blit_rgb24(&mut untouched, 2, 2, &[1, 2, 3], 2, 1);
    assert_eq!(untouched, vec![7; 4]);
}

#[test]
fn synthetic_encoder_produces_vcl() {
    let enc = EncoderCore::open_synthetic(64, 48, 30);
    let frame = vec![0u8; 64 * 48 * 3];
    let (nalus, pts) = enc.encode_synthetic(&frame, 0).unwrap();
    assert!(!nalus.is_empty());
    assert_eq!(pts, 0);
}

#[test]
fn encoder_core_decisions() {
    let enc = EncoderCore::open_synthetic(64, 48, 30);
    assert_eq!(enc.encode_synthetic(&[0u8; 5], 0).err(), Some(EncoderError::FrameSize { got: 5, expected: 64 * 48 * 3 }));
    assert_eq!(enc.frame_pts(30), 1_000_000_000);
    assert_eq!(pts_ns(3, 0), 3_000_000_000);
    assert!(use_live_pipe_encoder(640, 360));
    assert!(!use_live_pipe_encoder(1280, 720));
    assert_eq!(backend_after_spawn(SpawnOutcome::Started), EncoderBackend::Pipe);
    assert_eq!(backend_after_spawn(SpawnOutcome::NotInstalled), EncoderBackend::Synthetic);
    assert_eq!(backend_after_spawn(SpawnOutcome::Failed), EncoderBackend::Oneshot);
    let sps = vec![0u8, 0, 0, 1, 0x67, 1];
    let pps = vec![0u8, 0, 0, 1, 0x68, 2];
    let idr = vec![0u8, 0, 0, 1, 0x65, 3];
    let mut core = EncoderCore::opened(64, 48, 30, EncoderBackend::Oneshot, vec![sps.clone(), pps.clone()]);
    assert_eq!(core.attach_params(vec![idr.clone()]).unwrap(), vec![sps.clone(), pps.clone(), idr.clone()]);
    assert_eq!(core.attach_params(vec![sps.clone()]).err(), Some(EncoderError::NoVcl));
    assert!(!core.refresh_param_nals(&vec![pps.clone(), idr.clone()]));
    assert_eq!(core.attach_params(vec![idr.clone()]).unwrap(), vec![pps.clone(), idr.clone()]);
    core.set_param_nals(vec![]);
    assert!(core.refresh_param_nals(&vec![idr.clone()]));
    core.switch_to_oneshot();
    assert_eq!(core.backend(), EncoderBackend::Oneshot);
    assert_eq!(prime_from_output(&vec![idr.clone()]).err(), Some(EncoderError::NoParamSets));
    assert_eq!(prime_from_output(&vec![sps.clone(), idr.clone()]).unwrap(), vec![sps.clone()]);
    assert_eq!(oneshot_output_nalus(&[1, 2, 3]).err(), Some(EncoderError::NoNalus));
    let out = oneshot_output_nalus(&[0, 0, 0, 1, 0x09, 0xf0, 0, 0, 0, 1, 0x65, 0x88]).unwrap();
    assert_eq!(out, vec![vec![0, 0, 0, 1, 0x65, 0x88]]);
    assert_eq!(require_vcl(vec![sps.clone()]).err(), Some(EncoderError::NoVcl));
    let syn = synthetic_nalus(64, 48, 258);
    assert_eq!(syn[0], vec![0, 0, 0, 1, 0x67, 0x42, 0x00, 0x1f]);
    assert_eq!(syn[1].len(), 5 + 1400);
    assert!(syn[1][5..].iter().all(|b| *b == 2));
}

fn plain_idr(len: usize) -> Vec<u8> {
    let mut nal = vec![0x65u8];
    nal.extend((1..len).map(|i| (i % 200) as u8 + 1));
    nal
}

fn reassemble(payloads: &[Vec<u8>]) -> Vec<u8> {
    let mut fa = FrameAssembler::new();
    for p in payloads {
        assert_eq!(fa.push_rtp_payload(p), Ok(()));
    }
    let au = fa.finish();
    assert!(fa.finish().is_empty());
    au
}

#[test]
fn single_nal_payload_roundtrip() {
    let mut au = vec![0, 0, 0, 1];
    au.extend(plain_idr(500));
    let payloads = packetize_annex_b(&au, MAX_RTP_PAYLOAD);
    assert_eq!(payloads.len(), 1);
    assert_eq!(reassemble(&payloads), au);
}

#[test]
fn fu_a_payloads_roundtrip() {
    let mut au = vec![0, 0, 0, 1];
    au.extend(plain_idr(3000));
    let payloads = packetize_annex_b(&au, MAX_RTP_PAYLOAD);
    assert_eq!(payloads.len(), 3);
    assert!(payloads.iter().all(|p| p[0] & 0x1f == 28));
    assert_eq!(reassemble(&payloads), au);
}

#[test]
fn stap_a_overrun_is_refused() {
    let mut fa = FrameAssembler::new();
    assert_eq!(fa.push_rtp_payload(&[0x18, 0x00, 0x00, 0x00]), Err(AssemblyError::Depacketize));
    assert_eq!(fa.push_rtp_payload(&[0x18, 0x00, 0x00]), Ok(()));
    assert_eq!(fa.finish(), vec![0, 0, 0, 1]);
}

fn with_one_byte_extension(element: u8) -> Vec<u8> {
    let mut d = vec![0x90, 96, 0, 1, 0, 0, 0, 2, 0, 0, 0, 3];
    d.extend([0xBE, 0xDE, 0x00, 0x01, element, 0xAA, 0x00, 0x00]);
    d
}

#[test]
fn overrunning_header_extension_is_refused() {
    assert!(zerocast::rtp_packet::parse_rtp(&with_one_byte_extension(0x1F)).is_none());
    let ok = zerocast::rtp_packet::parse_rtp(&with_one_byte_extension(0x10)).expect("valid extension");
    assert_eq!((ok.sequence_number, ok.timestamp, ok.ssrc), (1, 2, 3));
}

#[test]
fn core_encode_frame_refuses_wrong_size() {
    let mut enc = EncoderCore::open_synthetic(64, 48, 30);
    assert_eq!(enc.encode_frame(&[0u8; 10], 0), Err(EncoderError::FrameSize { got: 10, expected: 9216 }));
    let (units, pts) = enc.encode_frame(&vec![0u8; 64 * 48 * 3], 3).unwrap();
    assert_eq!(units, synthetic_nalus(64, 48, 3));
    assert_eq!(pts, pts_ns(3, 30));
    let mut piped = EncoderCore::opened(64, 48, 30, EncoderBackend::Pipe, Vec::new());
    assert_eq!(piped.encode_frame(&vec![0u8; 64 * 48 * 3], 0), Err(EncoderError::ProcessBackend));
}

#[test]
fn split_units_cover_the_stream_from_its_first_start_code() {
    let stream: Vec<u8> = vec![
        0xAA, 0xBB, 0, 0, 0, 1, 0x67, 1, 2, 0, 0, 1, 0x68, 3, 0, 0, 0, 1, 0x65, 9, 9, 9,
    ];
    let units = split_annex_b_nalus(&stream);
    assert_eq!(units.len(), 3);
    assert_eq!(units.concat(), stream[2..].to_vec());
    for u in &units {
        assert!(u.starts_with(&[0, 0, 1]) || u.starts_with(&[0, 0, 0, 1]));
    }
}
