use adbr_server::actions::{Action, ActionConfig, DeviceActions, GlobalActions,
    collect_event_commands, substitute_serial};
use adbr_server::dispatch::{HostRequest, build_version_response, parse_hex, parse_request};
use adbr_server::errors::{AdbConnectionError, AdbIoError, TransportError, map_io_error,
    map_transport_error};
use adbr_server::responses::{build_fail_response, build_ok_response, ensure_null_terminated,
    fail, format_response_with_size, okay};
use adbr_server::transport::{UsbErrorKind, classify_usb_read_error, classify_usb_write_error};

#[test]
fn empty_response_is_not_framed() {
    assert_eq!(format_response_with_size(String::new()), "");
}

#[test]
fn response_is_framed_with_its_hex_length() {
    assert_eq!(format_response_with_size("abc".to_string()), "0003abc");
    assert_eq!(format_response_with_size("0123456789abcdef".to_string()), "00100123456789abcdef");
}

#[test]
fn status_words() {
    assert_eq!(okay(), "OKAY");
    assert_eq!(fail(), "FAIL");
}

#[test]
fn full_responses_carry_the_framed_payload() {
    assert_eq!(build_ok_response(None), "OKAY");
    assert_eq!(build_ok_response(Some("hi".to_string())), "OKAY0002hi");
    assert_eq!(build_fail_response(None), "FAIL");
    assert_eq!(
        build_fail_response(Some("No available devices".to_string())),
        "FAIL0014No available devices"
    );
}

#[test]
fn null_terminator_is_added_once() {
    assert_eq!(ensure_null_terminated("shell:ls".to_string()), "shell:ls\0");
    assert_eq!(ensure_null_terminated("shell:ls\0".to_string()), "shell:ls\0");
    assert_eq!(ensure_null_terminated(String::new()), "\0");
}

#[test]
fn version_response_is_okay_plus_eight_hex_digits() {
    assert_eq!(build_version_response(), "OKAY01000000");
}

#[test]
fn request_length_prefix_parses_as_hex() {
    assert_eq!(parse_hex("0004", 0xFFFF), Some(4));
    assert_eq!(parse_hex("00ff", 0xFFFF), Some(255));
    assert_eq!(parse_hex("00FF", 0xFFFF), Some(255));
    assert_eq!(parse_hex("", 0xFFFF), None);
    assert_eq!(parse_hex("00g1", 0xFFFF), None);
    assert_eq!(parse_hex("10000", 0xFFFF), None);
}

#[test]
fn requests_dispatch_by_prefix() {
    assert!(matches!(parse_request("host:version"), HostRequest::Version));
    assert!(matches!(parse_request("host:devices"), HostRequest::Devices));
    assert!(matches!(parse_request("host:transport-any"), HostRequest::TransportAny));
    assert!(matches!(parse_request("host:transport-usb"), HostRequest::TransportUsb));
    assert!(matches!(parse_request("host:transport-local"), HostRequest::TransportLocal));
    match parse_request("host:transport:XYZ123") {
        HostRequest::TransportSerial(serial) => assert_eq!(serial, "XYZ123"),
        _ => panic!("expected a serial transport selection"),
    }
    match parse_request("host:forward:norebind:tcp:1;tcp:2") {
        HostRequest::Forward(params) => assert_eq!(params, "norebind:tcp:1;tcp:2"),
        _ => panic!("expected a forward request"),
    }
    match parse_request("host:killforward:tcp:1") {
        HostRequest::KillForward(params) => assert_eq!(params, "tcp:1"),
        _ => panic!("expected a killforward request"),
    }
    assert!(matches!(parse_request("host:killforward-all"), HostRequest::KillForwardAll));
    assert!(matches!(parse_request("host:list-forward"), HostRequest::ListForward));
    match parse_request("reverse:forward:tcp:1;tcp:2") {
        HostRequest::ReverseForward(params) => assert_eq!(params, "tcp:1;tcp:2"),
        _ => panic!("expected a reverse forward request"),
    }
    assert!(matches!(parse_request("reverse:killforward-all"), HostRequest::ReverseKillForwardAll));
    assert!(matches!(parse_request("reverse:list-forward"), HostRequest::ReverseListForward));
    match parse_request("shell:echo hi") {
        HostRequest::Shell(cmd) => assert_eq!(cmd, "shell:echo hi"),
        _ => panic!("expected a shell request"),
    }
    match parse_request("reboot:bootloader") {
        HostRequest::Reboot(cmd) => assert_eq!(cmd, "reboot:bootloader"),
        _ => panic!("expected a reboot request"),
    }
    assert!(matches!(parse_request("sync:"), HostRequest::Sync));
    assert!(matches!(parse_request("host:get-state"), HostRequest::GetState));
    assert!(matches!(parse_request("host:get-serialno"), HostRequest::SerialNo));
    assert!(matches!(parse_request("host:get-devpath"), HostRequest::DevPath));
    assert!(matches!(parse_request("enable-verity:"), HostRequest::EnableVerity));
    assert!(matches!(parse_request("disable-verity:"), HostRequest::DisableVerity));
    assert!(matches!(parse_request("enable-verity:x"), HostRequest::Unknown));
    assert!(matches!(parse_request("remount:"), HostRequest::Remount));
    assert!(matches!(parse_request("root:"), HostRequest::Root));
    assert!(matches!(parse_request("unroot:"), HostRequest::Unroot));
    assert!(matches!(parse_request("STAT0005/data"), HostRequest::InvalidSync));
    assert!(matches!(parse_request("DATA123"), HostRequest::InvalidSync));
    assert!(matches!(parse_request("gibberish"), HostRequest::Unknown));
}

#[test]
fn transport_errors_map_into_io_errors() {
    assert!(matches!(map_transport_error(TransportError::Timeout), AdbIoError::TimeoutError));
    match map_transport_error(TransportError::DeviceNotFound) {
        AdbIoError::DeviceConnectionError(m) => assert_eq!(m, "Device not found"),
        _ => panic!("wrong mapping"),
    }
    match map_transport_error(TransportError::ConnectionError("gone".to_string())) {
        AdbIoError::ConnectionClosed(m) => assert_eq!(m, "gone"),
        _ => panic!("wrong mapping"),
    }
    match map_transport_error(TransportError::Unauthorized("no".to_string())) {
        AdbIoError::DeviceConnectionError(m) => assert_eq!(m, "no"),
        _ => panic!("wrong mapping"),
    }
}

#[test]
fn io_errors_map_into_connection_errors() {
    assert!(matches!(map_io_error(AdbIoError::TimeoutError), AdbConnectionError::Timeout));
    match map_io_error(AdbIoError::DeviceConnectionError("lost".to_string())) {
        AdbConnectionError::DeviceNotAvailable(m) => assert_eq!(m, "lost"),
        _ => panic!("wrong mapping"),
    }
    match map_io_error(AdbIoError::ParseError("bad".to_string())) {
        AdbConnectionError::UnexpectedError(m) => assert_eq!(m, "bad"),
        _ => panic!("wrong mapping"),
    }
    match map_io_error(AdbIoError::ConnectionClosed("eof".to_string())) {
        AdbConnectionError::ConnectionCloseError(m) => assert_eq!(m, "eof"),
        _ => panic!("wrong mapping"),
    }
}

#[test]
fn usb_errors_classify_per_operation() {
    assert!(matches!(
        classify_usb_read_error(&UsbErrorKind::Timeout, String::new()),
        TransportError::Timeout
    ));
    assert!(matches!(
        classify_usb_read_error(&UsbErrorKind::NoDevice, String::new()),
        TransportError::DeviceNotFound
    ));
    match classify_usb_read_error(&UsbErrorKind::Access, String::new()) {
        TransportError::Unauthorized(m) => assert_eq!(m, "No permission to access USB device"),
        _ => panic!("wrong classification"),
    }
    match classify_usb_read_error(&UsbErrorKind::NotFound, "entity".to_string()) {
        TransportError::CommunicationError(m) => assert_eq!(m, "Unexpected error: entity"),
        _ => panic!("wrong classification"),
    }
    match classify_usb_write_error(&UsbErrorKind::Busy, String::new()) {
        TransportError::CommunicationError(m) => assert_eq!(m, "USB device is busy"),
        _ => panic!("wrong classification"),
    }
    match classify_usb_write_error(&UsbErrorKind::Pipe, String::new()) {
        TransportError::ConnectionError(m) => assert_eq!(m, "USB pipe error: device disconnected"),
        _ => panic!("wrong classification"),
    }
}

#[test]
fn error_messages_follow_the_taxonomy() {
    let e = AdbConnectionError::DeviceNotAvailable("usb gone".to_string());
    assert_eq!(e.message(), "Device not available: usb gone");
    assert_eq!(AdbConnectionError::Timeout.message(), "Operation timed out");
    let s = adbr_server::errors::AdbServerError::DeviceNotFound("XYZ".to_string());
    assert_eq!(s.message(), "device 'XYZ' not found");
    assert_eq!(
        adbr_server::errors::AdbServerError::NoTransportSelected.message(),
        "No transport selected"
    );
}

#[test]
fn serial_placeholder_is_substituted_everywhere() {
    assert_eq!(substitute_serial("echo {serial}", "ABC"), "echo ABC");
    assert_eq!(substitute_serial("{serial}-{serial}", "x"), "x-x");
    assert_eq!(substitute_serial("no placeholder", "x"), "no placeholder");
    assert_eq!(substitute_serial("", "x"), "");
    assert_eq!(substitute_serial("{serial", "x"), "{serial");
}

#[test]
fn hook_commands_are_collected_in_order() {
    let config = ActionConfig {
        global: GlobalActions {
            connect: vec![Action { id: "g1".to_string(), cmd: "notify {serial}".to_string() }],
            disconnect: vec![Action { id: "g2".to_string(), cmd: "bye".to_string() }],
        },
        devices: vec![(
            "SER1".to_string(),
            DeviceActions {
                connect: Some(vec![Action {
                    id: "d1".to_string(),
                    cmd: "mount {serial}".to_string(),
                }]),
                disconnect: None,
            },
        )],
    };
    let connect = collect_event_commands(&config, "SER1", "connect").expect("known event");
    assert_eq!(connect, vec!["notify SER1".to_string(), "mount SER1".to_string()]);
    let disconnect = collect_event_commands(&config, "SER1", "disconnect").expect("known event");
    assert_eq!(disconnect, vec!["bye".to_string()]);
    let other = collect_event_commands(&config, "OTHER", "connect").expect("known event");
    assert_eq!(other, vec!["notify OTHER".to_string()]);
    assert!(collect_event_commands(&config, "SER1", "explode").is_err());
}
