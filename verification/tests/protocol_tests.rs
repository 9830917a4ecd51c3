use zerocast::cli::{audio_bind_port, audio_target_port, join_host_port};
use zerocast::protocol::{audio_port_from_video, rtcp_port, PROTOCOL_VERSION};

#[test]
fn port_derivation() {
    assert_eq!(rtcp_port(5000), Some(5001));
    assert_eq!(audio_port_from_video(5000), Some(5002));
    assert_eq!(rtcp_port(5002), Some(5003));
}

#[test]
fn port_derivation_overflows_to_none() {
    assert_eq!(rtcp_port(65535), None);
    assert_eq!(audio_port_from_video(65534), None);
    assert_eq!(PROTOCOL_VERSION, 1);
}

#[test]
fn audio_bind_ephemeral_video() {
    assert_eq!(join_host_port("0.0.0.0", audio_bind_port(0, None)), "0.0.0.0:0");
}

#[test]
fn audio_target_derivation() {
    assert_eq!(join_host_port("192.168.1.10", audio_target_port(5000, None)), "192.168.1.10:5002");
    assert_eq!(join_host_port("127.0.0.1", audio_target_port(5000, Some(6000))), "127.0.0.1:6000");
}

#[test]
fn audio_port_falls_back_to_default_on_overflow() {
    assert_eq!(audio_target_port(65535, None), 5002);
    assert_eq!(audio_bind_port(65535, None), 5002);
    assert_eq!(audio_bind_port(5000, None), 5002);
    assert_eq!(audio_bind_port(0, Some(7000)), 7000);
}
