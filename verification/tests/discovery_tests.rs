use zerocast::directory::{
    deadline_after_found, instance_name_from_fullname, local_instance_name, name_order, pick_receiver, resolved_advertisement, resolved_host, NameOrder,
    StreamDirectory,
};
use zerocast::discovery::{
    advertisement_from_register, advertisement_from_txt, parse_txt_properties, txt_properties_for,
    DiscoveredStream, DiscoveryError, StreamAdvertisement, TxtStreamProps,
};
use zerocast::netaddr::{is_usable_v4, is_usable_v6, local_ip_addrs, primary_ipv4, IpValue};
use zerocast::registry::{entry_file_name, entry_is_fresh, is_entry_file_name, parse_entry, render_entry};

fn ad(name: &str, host: &str, port: u16, w: u32, h: u32, fps: u32, mw: u32, mh: u32, mf: u32) -> StreamAdvertisement {
    StreamAdvertisement {
        instance_name: name.into(),
        host: host.into(),
        port,
        width: w,
        height: h,
        fps,
        max_width: mw,
        max_height: mh,
        max_fps: mf,
    }
}

#[test]
fn local_registry_roundtrip() {
    let ad = ad("test-instance", "192.168.1.50", 5000, 426, 240, 15, 426, 240, 15);
    let text = render_entry(&ad);
    let found: Vec<StreamAdvertisement> = parse_entry(&text, "test-instance", "127.0.0.1").into_iter().collect();
    assert!(found.iter().any(|r| r.instance_name == "test-instance" && r.port == 5000));
}

#[test]
fn registry_entry_text_and_caps() {
    let a = ad("living room", "10.0.0.2", 5000, 1280, 720, 0, 0, 0, 0);
    let text = render_entry(&a);
    assert_eq!(
        text,
        "instance=living room\nhost=10.0.0.2\nport=5000\nw=1280\nh=720\nfps=0\nmax_w=1280\nmax_h=720\nmax_fps=15\n"
    );
    let back = parse_entry(&text, "x", "y").unwrap();
    assert_eq!(back.instance_name, "living room");
    assert_eq!((back.max_width, back.max_height, back.max_fps), (1280, 720, 15));
}

#[test]
fn registry_parse_defaults_and_junk() {
    let r = parse_entry("port = 6000\r\nw=abc\nbogus\nh= 240 \n", "stem", "10.1.1.1").unwrap();
    assert_eq!(r.instance_name, "stem");
    assert_eq!(r.host, "10.1.1.1");
    assert_eq!(r.port, 6000);
    assert_eq!(r.width, 0);
    assert_eq!(r.height, 240);
    assert!(parse_entry("w=426\nh=240\n", "a", "b").is_none());
    assert!(parse_entry("port=0\n", "a", "b").is_none());
    assert!(parse_entry("port=70000\n", "a", "b").is_none());
}

#[test]
fn registry_file_names() {
    assert_eq!(entry_file_name("my pc/1"), "my_pc_1.txt");
    assert_eq!(entry_file_name("recv-01_a"), "recv-01_a.txt");
    assert!(is_entry_file_name("a.txt"));
    assert!(!is_entry_file_name("a.txt.bak"));
    assert!(entry_is_fresh(29));
    assert!(!entry_is_fresh(30));
}

#[test]
fn parse_txt_dimensions() {
    let props = vec![
        ("w".into(), "426".into()),
        ("h".into(), "240".into()),
        ("fps".into(), "15".into()),
        ("v".into(), "1".into()),
    ];
    let txt = parse_txt_properties(&props);
    assert_eq!(txt.width, 426);
    assert_eq!(txt.height, 240);
    assert_eq!(txt.fps, 15);
    assert_eq!(txt.max_width, 0);
}

#[test]
fn parse_txt_max_caps() {
    let props = vec![
        ("w".into(), "1920".into()),
        ("h".into(), "1080".into()),
        ("fps".into(), "60".into()),
        ("max_w".into(), "426".into()),
        ("max_h".into(), "240".into()),
        ("max_fps".into(), "15".into()),
    ];
    let txt = parse_txt_properties(&props);
    assert_eq!(txt.max_width, 426);
    assert_eq!(txt.max_height, 240);
    assert_eq!(txt.max_fps, 15);
}

#[test]
fn parse_txt_bad_numbers_are_zero() {
    let props = vec![("w".into(), "-5".into()), ("h".into(), "+240".into()), ("fps".into(), "99999999999".into())];
    let txt = parse_txt_properties(&props);
    assert_eq!((txt.width, txt.height, txt.fps), (0, 240, 0));
    assert_eq!(TxtStreamProps::default(), TxtStreamProps { width: 0, height: 0, fps: 0, max_width: 0, max_height: 0, max_fps: 0 });
}

#[test]
fn published_txt_reads_back() {
    let props = txt_properties_for(5000, 426, 240, 15, None, false);
    let txt = parse_txt_properties(&props);
    assert_eq!((txt.width, txt.height, txt.fps), (426, 240, 15));
    assert_eq!((txt.max_width, txt.max_height, txt.max_fps), (426, 240, 15));
    let with_audio = txt_properties_for(5000, 426, 240, 15, Some("embedded"), true);
    assert!(with_audio.iter().any(|(k, v)| k == "a_port" && v == "5002"));
    assert!(with_audio.iter().any(|(k, v)| k == "class" && v == "embedded"));
}

#[test]
fn effective_max_falls_back_to_session() {
    let ad = ad("r", "127.0.0.1", 5000, 426, 240, 15, 0, 0, 0);
    assert_eq!(ad.effective_max_width(), 426);
    assert_eq!(ad.effective_max_fps(ad.session_fps_or(30)), 15);
}

#[test]
fn advertisement_helpers() {
    let a = advertisement_from_register("r", "10.0.0.5", 5000, 640, 360, 30);
    assert_eq!(a.target_addr(), "10.0.0.5:5000");
    assert!(!a.explicit_caps_differ_from_session());
    assert!(a.validate_dimensions().is_ok());
    let b = ad("z", "h", 1, 0, 240, 0, 0, 0, 0);
    assert_eq!(
        b.validate_dimensions(),
        Err(DiscoveryError::MissingDimensions { instance_name: "z".into(), width: 0, height: 240 })
    );
    assert_eq!(b.effective_fps(15), 15);
    let c = advertisement_from_txt("c".into(), "h".into(), 9, TxtStreamProps { width: 1, height: 2, fps: 3, max_width: 4, max_height: 0, max_fps: 0 });
    assert!(c.explicit_caps_differ_from_session());
}

#[test]
fn resolved_service_fields() {
    assert_eq!(instance_name_from_fullname("kitchen._zerocast._udp.local."), "kitchen");
    assert_eq!(instance_name_from_fullname(""), "");
    assert_eq!(resolved_host(None, None, "box.local..."), "box.local");
    assert_eq!(resolved_host(None, Some("fe80::1".into()), "box.local."), "fe80::1");
    assert_eq!(resolved_host(Some("10.0.0.3".into()), Some("fe80::1".into()), "box.local."), "10.0.0.3");
    let props = vec![("w".into(), "426".into()), ("h".into(), "240".into())];
    let a = resolved_advertisement("tv._zerocast._udp.local.", Some("10.0.0.9".into()), None, "tv.local.", 5000, &props);
    assert_eq!(a.instance_name, "tv");
    assert_eq!(a.target_addr(), "10.0.0.9:5000");
    assert_eq!((a.width, a.height), (426, 240));
}

#[test]
fn directory_keeps_one_entry_per_name_in_order() {
    let mut dir = StreamDirectory::new();
    dir.insert_resolved(ad("b", "1", 1, 10, 10, 0, 0, 0, 0));
    dir.insert_resolved(ad("a", "2", 2, 10, 10, 0, 0, 0, 0));
    dir.insert_resolved(ad("b", "3", 3, 10, 10, 0, 0, 0, 0));
    dir.merge_local(ad("a", "4", 4, 10, 10, 0, 0, 0, 0));
    dir.merge_local(ad("c", "5", 5, 0, 10, 0, 0, 0, 0));
    dir.merge_local(ad("ab", "6", 6, 10, 10, 0, 0, 0, 0));
    assert_eq!(dir.len(), 3);
    let streams = dir.into_streams();
    let names: Vec<&str> = streams.iter().map(|s| s.advertisement.instance_name.as_str()).collect();
    assert_eq!(names, vec!["a", "ab", "b"]);
    assert_eq!(streams[0].advertisement.port, 2);
    assert_eq!(streams[2].advertisement.port, 3);
}

#[test]
fn name_order_is_lexicographic() {
    let a: Vec<char> = "abc".chars().collect();
    let b: Vec<char> = "abd".chars().collect();
    let c: Vec<char> = "ab".chars().collect();
    assert_eq!(name_order(&a, &b), NameOrder::Before);
    assert_eq!(name_order(&b, &a), NameOrder::After);
    assert_eq!(name_order(&c, &a), NameOrder::Before);
    assert_eq!(name_order(&a, &a), NameOrder::Same);
}

fn found(names: &[&str]) -> Vec<DiscoveredStream> {
    names.iter().map(|n| DiscoveredStream { advertisement: ad(n, "h", 5000, 1, 1, 0, 0, 0, 0) }).collect()
}

#[test]
fn pick_receiver_cases() {
    assert_eq!(pick_receiver(found(&[]), None), Err(DiscoveryError::NoReceivers));
    assert_eq!(pick_receiver(found(&["only"]), Some("7")).unwrap().instance_name, "only");
    assert_eq!(pick_receiver(found(&["a", "b"]), None), Err(DiscoveryError::Ambiguous { count: 2 }));
    assert_eq!(pick_receiver(found(&["a", "b"]), Some("1")).unwrap().instance_name, "b");
    assert_eq!(pick_receiver(found(&["a", "b"]), Some("x1")), Err(DiscoveryError::InvalidPick { pick: "x1".into() }));
    assert_eq!(pick_receiver(found(&["a", "b"]), Some("2")), Err(DiscoveryError::PickOutOfRange { index: 2, count: 2 }));
}

#[test]
fn usable_addresses() {
    assert!(is_usable_v4(192, 168, 1, 10));
    assert!(!is_usable_v4(127, 0, 0, 1));
    assert!(!is_usable_v4(0, 0, 0, 0));
    assert!(!is_usable_v4(169, 254, 3, 4));
    assert!(!is_usable_v4(172, 17, 176, 1));
    assert!(is_usable_v4(172, 32, 0, 1));
    assert!(!is_usable_v6(0, 0, 0, 0, 0, 0, 0, 1));
    assert!(!is_usable_v6(0xfe80, 0, 0, 0, 0, 0, 0, 1));
    assert!(is_usable_v6(0x2001, 0xdb8, 0, 0, 0, 0, 0, 1));
    let ifaces = vec![
        (true, IpValue::V4(127, 0, 0, 1)),
        (false, IpValue::V4(172, 17, 0, 1)),
        (false, IpValue::V6(0x2001, 0xdb8, 0, 0, 0, 0, 0, 1)),
        (false, IpValue::V4(192, 168, 1, 7)),
    ];
    let addrs = local_ip_addrs(&ifaces);
    assert_eq!(
        addrs,
        vec![IpValue::V6(0x2001, 0xdb8, 0, 0, 0, 0, 0, 1), IpValue::V4(192, 168, 1, 7), IpValue::V4(127, 0, 0, 1)]
    );
    assert_eq!(primary_ipv4(&addrs), IpValue::V4(192, 168, 1, 7));
    assert_eq!(primary_ipv4(&vec![]), IpValue::V4(127, 0, 0, 1));
}

#[test]
fn local_instance_name_uses_host_name_or_default() {
    assert_eq!(local_instance_name(Some("studio-pc".to_string())), "studio-pc");
    assert_eq!(local_instance_name(None), "zerocast");
}

#[test]
fn found_service_extends_browse_deadline() {
    assert_eq!(deadline_after_found(5000, 1000), 5000);
    assert_eq!(deadline_after_found(5000, 4000), 7000);
    assert_eq!(deadline_after_found(0, u64::MAX), u64::MAX);
}
