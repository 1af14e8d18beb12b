use adbr_server::forward::{parse_forward_pair, forward_type_to_string, ForwardType};
use adbr_server::forward_info::{AdbPortForwardInfo, AdbPortReverseInfo};

#[test]
fn parse_tcp_endpoint() {
    let info = AdbPortForwardInfo::from_string("tcp:1234;tcp:8080").expect("valid pair");
    assert_eq!(*info.local(), ForwardType::Tcp(1234));
    assert_eq!(*info.remote(), ForwardType::Tcp(8080));
}

#[test]
fn parse_named_endpoints() {
    let info = AdbPortForwardInfo::from_string("localabstract:chrome_devtools_remote;tcp:9222")
        .expect("valid pair");
    assert_eq!(
        *info.local(),
        ForwardType::LocalAbstract("chrome_devtools_remote".to_string())
    );
    let (l, r) = parse_forward_pair("localreserved:a;localfilesystem:/tmp/sock").expect("valid");
    assert_eq!(l, ForwardType::LocalReserved("a".to_string()));
    assert_eq!(r, ForwardType::LocalFilesystem("/tmp/sock".to_string()));
    let (l2, r2) = parse_forward_pair("dev:ttyS0;jdwp:4242").expect("valid");
    assert_eq!(l2, ForwardType::Dev("ttyS0".to_string()));
    assert_eq!(r2, ForwardType::Jdwp(4242));
}

#[test]
fn round_trip_every_variant() {
    let variants = vec![
        ForwardType::Tcp(0),
        ForwardType::Tcp(65535),
        ForwardType::LocalAbstract("name".to_string()),
        ForwardType::LocalReserved("res".to_string()),
        ForwardType::LocalFilesystem("/path/with:colon".to_string()),
        ForwardType::Dev("bus".to_string()),
        ForwardType::Jdwp(4294967295),
    ];
    for left in &variants {
        for right in &variants {
            let info = AdbPortForwardInfo::new(left.clone(), right.clone());
            let text = info.to_string();
            let parsed = AdbPortForwardInfo::from_string(text.as_str()).expect("round trip");
            assert_eq!(parsed.local(), left);
            assert_eq!(parsed.remote(), right);
        }
    }
}

#[test]
fn invalid_tag_is_rejected() {
    assert!(AdbPortForwardInfo::from_string("bogus:1;tcp:1").is_err());
    assert!(AdbPortForwardInfo::from_string("tcp1;tcp:1").is_err());
}

#[test]
fn out_of_range_port_is_rejected() {
    assert!(AdbPortForwardInfo::from_string("tcp:65536;tcp:1").is_err());
    assert!(AdbPortForwardInfo::from_string("tcp:-1;tcp:1").is_err());
    assert!(AdbPortForwardInfo::from_string("tcp:;tcp:1").is_err());
    assert!(AdbPortForwardInfo::from_string("tcp:12a;tcp:1").is_err());
    assert!(AdbPortForwardInfo::from_string("jdwp:4294967296;tcp:1").is_err());
}

#[test]
fn pair_needs_exactly_one_semicolon() {
    assert!(AdbPortForwardInfo::from_string("tcp:1").is_err());
    assert!(AdbPortForwardInfo::from_string("tcp:1;tcp:2;tcp:3").is_err());
}

#[test]
fn printing_serializes_tag_and_value() {
    assert_eq!(forward_type_to_string(&ForwardType::Tcp(6000)), "tcp:6000");
    assert_eq!(
        forward_type_to_string(&ForwardType::LocalAbstract("x".to_string())),
        "localabstract:x"
    );
    assert_eq!(forward_type_to_string(&ForwardType::Jdwp(17)), "jdwp:17");
}

#[test]
fn with_type_accessors_serialize_endpoints() {
    let info = AdbPortForwardInfo::new(ForwardType::Tcp(6000), ForwardType::Tcp(5555));
    assert_eq!(info.local_with_type(), "tcp:6000");
    assert_eq!(info.remote_with_type(), "tcp:5555");
    assert_eq!(info.to_string(), "tcp:6000;tcp:5555");
}

#[test]
fn get_value_strips_the_tag() {
    assert_eq!(ForwardType::Tcp(8080).get_value(), "8080");
    assert_eq!(ForwardType::Dev("ttyUSB0".to_string()).get_value(), "ttyUSB0");
    assert_eq!(ForwardType::Jdwp(99).get_value_ref(), "99");
    assert_eq!(
        ForwardType::LocalFilesystem("/a/b".to_string()).get_value_ref(),
        "/a/b"
    );
}

#[test]
fn reverse_info_round_trips_too() {
    let info = AdbPortReverseInfo::from_string("tcp:9000;localabstract:svc").expect("valid");
    assert_eq!(info.device_with_type(), "tcp:9000");
    assert_eq!(info.host_with_type(), "localabstract:svc");
    assert_eq!(info.to_string(), "tcp:9000;localabstract:svc");
    let again = AdbPortReverseInfo::from_string(info.to_string().as_str()).expect("round trip");
    assert_eq!(again.device(), info.device());
    assert_eq!(again.host(), info.host());
}

#[test]
fn forward_info_setters_replace_endpoints() {
    let mut info = AdbPortForwardInfo::new(ForwardType::Tcp(1), ForwardType::Tcp(2));
    info.set_local(ForwardType::Tcp(10));
    info.set_remote(ForwardType::Dev("d".to_string()));
    assert_eq!(info.to_string(), "tcp:10;dev:d");
}

#[test]
fn reverse_info_constructor_keeps_endpoints() {
    let info = AdbPortReverseInfo::new(
        ForwardType::Tcp(9000),
        ForwardType::LocalReserved("r".to_string()),
    );
    assert_eq!(info.device(), &ForwardType::Tcp(9000));
    assert_eq!(info.host(), &ForwardType::LocalReserved("r".to_string()));
}
