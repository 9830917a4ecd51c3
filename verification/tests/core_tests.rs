use zerocast::cli::{name_and_version, version};
use zerocast::pipeline::{CopyTier, ReceiverOutput, SenderCapture};
use zerocast::profile::{
    fit_within, negotiate_for_receiver, receiver_capability_for_profile, ProfileKind,
    ReceiverCapability, StreamProfile,
};
use zerocast::qos::{DeviceClass, QosAction, QosConfig, QosController, StreamMetricsSample};

#[test]
fn version_matches_workspace() {
    assert_eq!(version(), "0.2.0");
}

#[test]
fn name_and_version_names_the_library() {
    assert_eq!(name_and_version(), "zerocast 0.2.0");
}

#[test]
fn drm_prefers_hw_accel() {
    assert_eq!(ReceiverOutput::DrmKms.preferred_copy_tier(), CopyTier::HwAccel);
}

#[test]
fn copy_tiers_of_outputs_and_captures() {
    assert_eq!(ReceiverOutput::CpuWindow.preferred_copy_tier(), CopyTier::FullCpu);
    assert_eq!(ReceiverOutput::GpuTexture.preferred_copy_tier(), CopyTier::HwAccel);
    assert_eq!(SenderCapture::GpuTexture.preferred_copy_tier(), CopyTier::ZeroCopy);
    assert_eq!(SenderCapture::CpuRgb24.preferred_copy_tier(), CopyTier::FullCpu);
    assert_eq!(ReceiverOutput::for_embedded_pi_zero_w(), ReceiverOutput::DrmKms);
    assert!(CopyTier::FullCpu < CopyTier::HwAccel);
}

#[test]
fn ladder_order() {
    let ladder = StreamProfile::qos_ladder(1920, 1080, 60);
    assert!(ladder[0].width >= ladder[1].width);
    assert!(ladder[1].width >= ladder[2].width);
    assert_eq!(ladder[2], StreamProfile::low());
}

#[test]
fn fit_4k_to_1080p() {
    let (w, h) = fit_within(3840, 2160, 1920, 1080);
    assert!(w <= 1920);
    assert!(h <= 1080);
}

#[test]
fn fit_within_exact_values() {
    assert_eq!(fit_within(3840, 2160, 1920, 1080), (1920, 1080));
    assert_eq!(fit_within(1920, 1080, 640, 480), (640, 360));
    assert_eq!(fit_within(1280, 720, 1920, 1080), (1280, 720));
    assert_eq!(fit_within(0, 0, 640, 480), (640, 480));
    assert_eq!(fit_within(0, 0, 3840, 2160), (1920, 1080));
}

#[test]
fn negotiate_with_embedded_recv() {
    let sender = StreamProfile::auto_for_display(1920, 1080, 60);
    let recv = ReceiverCapability::embedded_pi_zero_w();
    let out = sender.capped_for_receiver(recv);
    assert_eq!(out.width, 426);
    assert_eq!(out.height, 240);
    assert_eq!(out.fps, 15);
}

#[test]
fn capped_for_receiver_preserves_aspect_ratio() {
    let sender = StreamProfile { name: "test", width: 1920, height: 1080, fps: 60 };
    let recv = ReceiverCapability { max_width: 640, max_height: 480, max_fps: 30 };
    let out = sender.capped_for_receiver(recv);
    assert!(out.width <= 640);
    assert!(out.height <= 480);
    assert_eq!(out.width % 2, 0);
    assert_eq!(out.height % 2, 0);
    assert_eq!(out.width, 640);
    assert_eq!(out.height, 360);
}

#[test]
fn capping_twice_changes_nothing() {
    let recv = ReceiverCapability { max_width: 640, max_height: 480, max_fps: 30 };
    let once = StreamProfile { name: "s", width: 1920, height: 1080, fps: 60 }.capped_for_receiver(recv);
    let twice = once.capped_for_receiver(recv);
    assert_eq!((once.width, once.height, once.fps), (twice.width, twice.height, twice.fps));
}

#[test]
fn parse_profile_kind() {
    assert_eq!(ProfileKind::parse("auto"), Some(ProfileKind::Auto));
    assert_eq!(ProfileKind::parse("medium"), Some(ProfileKind::Med));
}

#[test]
fn parse_profile_kind_other_names() {
    assert_eq!(ProfileKind::parse("LOW"), Some(ProfileKind::Low));
    assert_eq!(ProfileKind::parse("med"), Some(ProfileKind::Med));
    assert_eq!(ProfileKind::parse("High"), Some(ProfileKind::High));
    assert_eq!(ProfileKind::parse("ultra"), None);
}

#[test]
fn negotiation_matrix_stream_x_recv_profiles() {
    const DW: u32 = 1920;
    const DH: u32 = 1080;
    const HZ: u32 = 60;
    let cases: [(ProfileKind, ProfileKind, u32, u32, u32); 16] = [
        (ProfileKind::Low, ProfileKind::Low, 426, 240, 15),
        (ProfileKind::Med, ProfileKind::Low, 426, 240, 15),
        (ProfileKind::High, ProfileKind::Low, 426, 240, 15),
        (ProfileKind::Auto, ProfileKind::Low, 426, 240, 15),
        (ProfileKind::Low, ProfileKind::Med, 426, 240, 15),
        (ProfileKind::Med, ProfileKind::Med, 1280, 720, 30),
        (ProfileKind::High, ProfileKind::Med, 1280, 720, 30),
        (ProfileKind::Auto, ProfileKind::Med, 1280, 720, 30),
        (ProfileKind::Low, ProfileKind::High, 426, 240, 15),
        (ProfileKind::Med, ProfileKind::High, 1280, 720, 30),
        (ProfileKind::High, ProfileKind::High, 1920, 1080, 60),
        (ProfileKind::Auto, ProfileKind::High, 1920, 1080, 60),
        (ProfileKind::Low, ProfileKind::Auto, 426, 240, 15),
        (ProfileKind::Med, ProfileKind::Auto, 1280, 720, 30),
        (ProfileKind::High, ProfileKind::Auto, 1920, 1080, 60),
        (ProfileKind::Auto, ProfileKind::Auto, 1920, 1080, 60),
    ];
    for (stream, recv_kind, ew, eh, ef) in cases {
        let recv = receiver_capability_for_profile(recv_kind, DW, DH, HZ);
        let out = negotiate_for_receiver(stream, recv, DW, DH, HZ);
        assert_eq!((out.width, out.height, out.fps), (ew, eh, ef), "stream {stream:?} × recv {recv_kind:?}");
    }
}

#[test]
fn high_profile_follows_small_display() {
    let p = StreamProfile::high_for_display(1280, 800, 50);
    assert_eq!((p.width, p.height, p.fps), (1280, 800, 50));
    let slow = StreamProfile::high_for_display(1280, 720, 10);
    assert_eq!((slow.width, slow.height, slow.fps), (1280, 720, 10));
    let q = StreamProfile::high_for_display(3840, 2160, 144);
    assert_eq!((q.width, q.height, q.fps), (1920, 1080, 60));
}

fn sample(actual_fps: u64, target_fps: u64, encode_us: u64, kbps: u64) -> StreamMetricsSample {
    StreamMetricsSample {
        actual_mfps: actual_fps * 1000,
        target_mfps: target_fps * 1000,
        avg_encode_us: encode_us,
        kbps,
    }
}

#[test]
fn downgrade_on_slow_fps() {
    let mut qos = QosController::new(
        StreamProfile::high_for_display(1920, 1080, 60),
        1920,
        1080,
        60,
        None,
        DeviceClass::Desktop,
    );
    let bad = sample(8, 60, 5000, 2000);
    for _ in 0..3 {
        let _ = qos.observe_window(bad);
    }
    assert_eq!(qos.observe_window(bad), QosAction::Hold);
    assert!(matches!(qos.observe_window(bad), QosAction::RecommendDowngrade(_)));
}

#[test]
fn no_downgrade_below_negotiated_med_session() {
    let recv = ReceiverCapability { max_width: 1280, max_height: 720, max_fps: 30 };
    let session = StreamProfile::med().capped_for_receiver(recv);
    let mut qos = QosController::new(session, 1920, 1080, 60, Some(recv), DeviceClass::Desktop);
    let bad = sample(20, 30, 8000, 5000);
    for _ in 0..10 {
        assert_eq!(qos.observe_window(bad), QosAction::Hold);
    }
}

#[test]
fn embedded_downgrades_faster() {
    let mut qos = QosController::new(
        StreamProfile::high_for_display(1920, 1080, 60),
        1920,
        1080,
        60,
        None,
        DeviceClass::Embedded,
    );
    let bad = sample(10, 60, 5000, 1500);
    for _ in 0..3 {
        let _ = qos.observe_window(bad);
    }
    assert!(matches!(qos.observe_window(bad), QosAction::RecommendDowngrade(_)));
}

#[test]
fn good_windows_recommend_upgrade_after_downgrade() {
    let mut qos = QosController::new(
        StreamProfile::high_for_display(1920, 1080, 60),
        1920,
        1080,
        60,
        None,
        DeviceClass::Desktop,
    );
    let bad = sample(8, 60, 5000, 2000);
    let mut action = QosAction::Hold;
    for _ in 0..5 {
        action = qos.observe_window(bad);
    }
    let down = match action {
        QosAction::RecommendDowngrade(p) => p,
        other => panic!("expected a downgrade, got {other:?}"),
    };
    assert_eq!((down.width, down.height, down.fps), (1280, 720, 30));
    qos.on_profile_applied(down);
    let good = sample(30, 30, 1000, 2000);
    let mut upgraded = false;
    for _ in 0..5 {
        if let QosAction::RecommendUpgrade(p) = qos.observe_window(good) {
            assert_eq!((p.width, p.height, p.fps), (1920, 1080, 60));
            upgraded = true;
        }
    }
    assert!(upgraded);
}

#[test]
fn qos_config_thresholds() {
    let desktop = QosConfig::for_target_fps(60, false);
    assert_eq!(desktop.encode_budget_pct, 75);
    assert_eq!(desktop.bad_windows_for_downgrade, 2);
    let embedded = QosConfig::for_target_fps(0, true);
    assert_eq!(embedded.budget_fps, 1);
    assert_eq!(embedded.min_fps_ratio_pct, 88);
    assert_eq!(embedded.good_windows_for_upgrade, 6);
}

#[test]
fn device_class_from_txt() {
    assert_eq!(DeviceClass::parse_txt("embedded"), Some(DeviceClass::Embedded));
    assert_eq!(DeviceClass::parse_txt("desktop"), Some(DeviceClass::Desktop));
    assert_eq!(DeviceClass::parse_txt("toaster"), None);
}

#[test]
fn profiles_carry_their_names() {
    assert_eq!(StreamProfile::from_kind(ProfileKind::Low, 1920, 1080, 60).name, "low");
    assert_eq!(StreamProfile::from_kind(ProfileKind::Med, 1920, 1080, 60).name, "med");
    assert_eq!(StreamProfile::from_kind(ProfileKind::High, 1920, 1080, 60).name, "high");
    assert_eq!(StreamProfile::from_kind(ProfileKind::Auto, 1920, 1080, 60).name, "high");
    let ladder = StreamProfile::qos_ladder(1920, 1080, 60);
    assert_eq!((ladder[0].name, ladder[1].name, ladder[2].name), ("high", "med", "low"));
}
