use adbr_server::device::{AdbDevice, ForwardSetPlan, plan_forward_set};
use adbr_server::enums::{AdbDeviceStatus, AdbDeviceTransport, AdbDeviceType, InterfaceType};
use adbr_server::errors::{AdbConnectionError, AdbServerError};
use adbr_server::forward::ForwardType;
use adbr_server::forward_info::AdbPortForwardInfo;
use adbr_server::registry::{ConnectDisposition, DeviceRegistry, MonitorAction,
    connect_disposition, monitor_decision};

fn device(serial: &str, status: AdbDeviceStatus, kind: AdbDeviceType) -> AdbDevice {
    AdbDevice::new(serial.to_string(), status, kind, 2, 1000)
}

#[test]
fn forward_rebinds_unless_norebind_is_given() {
    let mut dev = device("S1", AdbDeviceStatus::Available, AdbDeviceType::Usb);
    let key = "tcp:1234".to_string();
    assert!(matches!(plan_forward_set(&dev, &key, false), ForwardSetPlan::Fresh));
    let first = AdbPortForwardInfo::new(ForwardType::Tcp(1234), ForwardType::Tcp(8080));
    dev.insert_port_forward(key.clone(), first);
    assert!(matches!(plan_forward_set(&dev, &key, false), ForwardSetPlan::Rebind));
    assert!(matches!(plan_forward_set(&dev, &key, true), ForwardSetPlan::RejectNoRebind));
    let second = AdbPortForwardInfo::new(ForwardType::Tcp(1234), ForwardType::Tcp(9090));
    dev.insert_port_forward(key.clone(), second);
    assert_eq!(dev.port_forwards_count(), 1);
    let bound = dev.get_port_forward(&key).expect("still bound");
    assert_eq!(bound.remote_with_type(), "tcp:9090");
}

#[test]
fn forwards_are_removable_by_key() {
    let mut dev = device("S1", AdbDeviceStatus::Available, AdbDeviceType::Usb);
    let key = "tcp:1".to_string();
    dev.insert_port_forward(
        key.clone(),
        AdbPortForwardInfo::new(ForwardType::Tcp(1), ForwardType::Tcp(2)),
    );
    assert!(dev.has_port_forward(&key));
    dev.remove_port_forward(&key);
    assert!(!dev.has_port_forward(&key));
    assert_eq!(dev.port_forwards_count(), 0);
}

#[test]
fn monitoring_interval_gates_the_tick() {
    let mut dev = device("S1", AdbDeviceStatus::Available, AdbDeviceType::Usb);
    assert!(!dev.is_monitoring_interval_passed(1001));
    assert!(dev.is_monitoring_interval_passed(1002));
    dev.update_last_monitored(1002);
    assert!(!dev.is_monitoring_interval_passed(1003));
}

#[test]
fn monitor_keeps_verified_devices_and_removes_failed_ones() {
    assert!(matches!(
        monitor_decision(&AdbDeviceStatus::Available, true),
        MonitorAction::Keep
    ));
    assert!(matches!(
        monitor_decision(&AdbDeviceStatus::Available, false),
        MonitorAction::RemoveAfterDisconnect
    ));
    assert!(matches!(
        monitor_decision(&AdbDeviceStatus::Unauthorized, true),
        MonitorAction::RemoveForRetry
    ));
    assert!(matches!(
        monitor_decision(&AdbDeviceStatus::Offline("gone".to_string()), true),
        MonitorAction::RemoveForRetry
    ));
}

#[test]
fn failed_verification_removes_the_device_exactly_once() {
    let mut registry = DeviceRegistry::new();
    let serial = "S1".to_string();
    // Discovery claims the slot, then a successful connect registers it
    // available, dispatching the connect hooks once.
    registry.insert(serial.clone(), None);
    let disposition = connect_disposition(Ok(()));
    match disposition {
        ConnectDisposition::Register { status, monitoring_interval, run_connect_hook } => {
            assert!(matches!(status, AdbDeviceStatus::Available));
            assert_eq!(monitoring_interval, 2);
            assert!(run_connect_hook);
            registry.insert(serial.clone(), Some(device("S1", status, AdbDeviceType::Usb)));
        },
        ConnectDisposition::CloseAndRetry => panic!("a successful connect registers"),
    }
    assert_eq!(registry.len(), 1);
    // A tick whose verification succeeds keeps the device.
    assert!(matches!(
        monitor_decision(&AdbDeviceStatus::Available, true),
        MonitorAction::Keep
    ));
    // The first failing tick removes it, with the disconnect hooks owed.
    assert!(matches!(
        monitor_decision(&AdbDeviceStatus::Available, false),
        MonitorAction::RemoveAfterDisconnect
    ));
    registry.remove(&serial);
    assert_eq!(registry.len(), 0);
    assert!(registry.is_new_device(&serial));
}

#[test]
fn connect_failures_register_with_their_interval() {
    match connect_disposition(Err(AdbConnectionError::Unauthorized("denied".to_string()))) {
        ConnectDisposition::Register { status, monitoring_interval, run_connect_hook } => {
            assert!(matches!(status, AdbDeviceStatus::Unauthorized));
            assert_eq!(monitoring_interval, 5);
            assert!(!run_connect_hook);
        },
        _ => panic!("unauthorized devices register"),
    }
    match connect_disposition(Err(AdbConnectionError::DeviceNotAvailable("usb".to_string()))) {
        ConnectDisposition::Register { status, monitoring_interval, .. } => {
            match status {
                AdbDeviceStatus::Offline(reason) => assert_eq!(reason, "usb"),
                _ => panic!("lost devices go offline"),
            }
            assert_eq!(monitoring_interval, 20);
        },
        _ => panic!("lost devices register"),
    }
    assert!(matches!(
        connect_disposition(Err(AdbConnectionError::Timeout)),
        ConnectDisposition::CloseAndRetry
    ));
}

#[test]
fn transport_selection_picks_the_single_available_device() {
    let mut registry = DeviceRegistry::new();
    registry.insert(
        "USB1".to_string(),
        Some(device("USB1", AdbDeviceStatus::Available, AdbDeviceType::Usb)),
    );
    registry.insert(
        "EMU1".to_string(),
        Some(device("EMU1", AdbDeviceStatus::Available, AdbDeviceType::Emulator)),
    );
    registry.insert(
        "OFF1".to_string(),
        Some(device("OFF1", AdbDeviceStatus::Unauthorized, AdbDeviceType::Usb)),
    );
    let usb = registry.choose_device(&AdbDeviceTransport::UsbAny).expect("one USB device");
    assert_eq!(usb, "USB1");
    let emu = registry.choose_device(&AdbDeviceTransport::EmulatorAny).expect("one emulator");
    assert_eq!(emu, "EMU1");
    assert!(matches!(
        registry.choose_device(&AdbDeviceTransport::Any),
        Err(AdbServerError::MultipleDeviceDetected)
    ));
    let by_serial = registry.choose_device(&AdbDeviceTransport::usb("USB1")).expect("by serial");
    assert_eq!(by_serial, "USB1");
    assert!(matches!(
        registry.choose_device(&AdbDeviceTransport::usb("NOPE")),
        Err(AdbServerError::DeviceNotFound(_))
    ));
    assert!(matches!(
        registry.choose_device(&AdbDeviceTransport::usb("OFF1")),
        Err(AdbServerError::DeviceNotFound(_))
    ));
}

#[test]
fn empty_registry_reports_no_available_devices() {
    let registry = DeviceRegistry::new();
    assert!(matches!(
        registry.choose_device(&AdbDeviceTransport::Any),
        Err(AdbServerError::NoAvailableDevices)
    ));
    assert_eq!(registry.get_active_devices(), "No devices found");
}

#[test]
fn device_listing_shows_serial_and_status() {
    let mut registry = DeviceRegistry::new();
    registry.insert(
        "A1".to_string(),
        Some(device("A1", AdbDeviceStatus::Available, AdbDeviceType::Usb)),
    );
    registry.insert("B2".to_string(), None);
    registry.insert(
        "C3".to_string(),
        Some(device("C3", AdbDeviceStatus::Offline("usb gone".to_string()), AdbDeviceType::Usb)),
    );
    assert_eq!(registry.get_active_devices(), "A1 device\nC3 offline usb gone\n");
}

#[test]
fn statuses_compare_by_variant() {
    assert!(AdbDeviceStatus::Available == AdbDeviceStatus::Available);
    assert!(
        AdbDeviceStatus::Offline("a".to_string()) == AdbDeviceStatus::Offline("b".to_string())
    );
    assert!(AdbDeviceStatus::Available != AdbDeviceStatus::Unauthorized);
    assert_eq!(AdbDeviceStatus::Available.label(), "device");
    assert_eq!(AdbDeviceStatus::Unauthorized.label(), "unauthorized");
    assert_eq!(AdbDeviceStatus::Offline("x".to_string()).label(), "offline x");
}

#[test]
fn interface_triple_is_the_adb_one() {
    let t = InterfaceType::android_usb();
    assert!(InterfaceType::is_android_usb_device(t));
    assert!(!InterfaceType::is_android_tcp_device(t));
    match t {
        InterfaceType::AndroidUsb(class, subclass, protocol) => {
            assert_eq!((class, subclass, protocol), (0xFF, 0x42, 0x01));
        },
        _ => panic!("the ADB interface is USB"),
    }
}

#[test]
fn transport_serial_accessors() {
    assert_eq!(AdbDeviceTransport::Any.get_serial(), None);
    let t = AdbDeviceTransport::usb("Z9");
    assert_eq!(t.get_serial().map(|s| s.as_str()), Some("Z9"));
    let e = AdbDeviceTransport::emulator("E1");
    assert_eq!(e.get_serial().map(|s| s.as_str()), Some("E1"));
}

#[test]
fn device_kind_predicates() {
    let d = device("S", AdbDeviceStatus::Available, AdbDeviceType::Usb);
    assert!(d.is_usb_device());
    assert!(!d.is_emulator_device());
    assert!(AdbDeviceType::Emulator.is_emulator());
    assert!(!AdbDeviceType::Emulator.is_usb());
    assert_eq!(d.device_serial_number(), "S");
}

#[test]
fn shell_mode_and_timeouts() {
    assert!(adbr_server::ops::is_interactive_shell("shell:"));
    assert!(adbr_server::ops::is_interactive_shell("shell:\0"));
    assert!(!adbr_server::ops::is_interactive_shell("shell:ls"));
    assert_eq!(
        adbr_server::ops::get_command_timeout("shell:ls"),
        adbr_server::ops::SHELL_COMMAND_TIMEOUT_MS
    );
    assert_eq!(
        adbr_server::ops::get_command_timeout("shell:bugreportz -p"),
        adbr_server::ops::BUGREPORT_TIMEOUT_MS
    );
}

#[test]
fn sync_helpers_frame_requests_and_parse_replies() {
    let stat = adbr_server::sync::create_stat_command("/data");
    assert_eq!(&stat[0..4], b"STAT");
    assert_eq!(&stat[4..8], &5u32.to_le_bytes());
    assert_eq!(&stat[8..], b"/data");
    let quit = adbr_server::sync::create_quit_command();
    assert_eq!(quit, b"QUIT\0\0\0\0".to_vec());

    let (path, mode) = adbr_server::sync::parse_send_payload("/sdcard/f.txt,33188").expect("valid");
    assert_eq!(path, "/sdcard/f.txt");
    assert_eq!(mode, 33188);
    assert!(adbr_server::sync::parse_send_payload("nocomma").is_err());
    assert!(adbr_server::sync::parse_send_payload("a,b,c").is_err());
    assert!(adbr_server::sync::parse_send_payload("p,notanumber").is_err());

    let mut buffer = b"DENT".to_vec();
    buffer.extend_from_slice(&[0u8; 12]);
    buffer.extend_from_slice(&2u32.to_le_bytes());
    buffer.extend_from_slice(b"ab");
    assert_eq!(adbr_server::sync::dent_size_at(&buffer, 0), Some(22));
    let partial = buffer[0..21].to_vec();
    assert_eq!(adbr_server::sync::dent_size_at(&partial, 0), None);

    assert!(adbr_server::sync::handle_sync_wrte_response(
        &b"STATxxxx".to_vec(),
        0x53,
        0x54,
        0x41,
        0x54
    )
        .is_ok());
    assert!(adbr_server::sync::handle_sync_wrte_response(
        &b"FAILnope".to_vec(),
        0x53,
        0x54,
        0x41,
        0x54
    )
        .is_err());
}

#[test]
fn registry_checkout_and_checkin_keep_the_slot() {
    let mut registry = DeviceRegistry::new();
    registry.insert(
        "S9".to_string(),
        Some(device("S9", AdbDeviceStatus::Available, AdbDeviceType::Usb)),
    );
    assert_eq!(registry.serials(), vec!["S9".to_string()]);
    let taken = registry.take_device(&"S9".to_string()).expect("registered");
    assert_eq!(taken.device_serial_number(), "S9");
    // The slot stays claimed while the device is checked out.
    assert!(!registry.is_new_device(&"S9".to_string()));
    assert!(registry.take_device(&"S9".to_string()).is_none());
    registry.put_device("S9".to_string(), taken);
    assert!(registry.take_device(&"S9".to_string()).is_some());
}
