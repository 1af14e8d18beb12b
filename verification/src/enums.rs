use vstd::prelude::*;
use vstd::string::StringExecFns;

verus! {

/// The lifecycle status of an attached device.
#[derive(Debug, Clone)]
pub enum AdbDeviceStatus {
    Available,
    Offline(String),
    Unauthorized,
}

impl AdbDeviceStatus {
    /// Statuses compare by variant alone: two offline devices are equally
    /// offline whatever their reasons say.
    pub open spec fn same_variant(&self, other: &Self) -> bool {
        match (self, other) {
            (AdbDeviceStatus::Available, AdbDeviceStatus::Available) => true,
            (AdbDeviceStatus::Offline(_), AdbDeviceStatus::Offline(_)) => true,
            (AdbDeviceStatus::Unauthorized, AdbDeviceStatus::Unauthorized) => true,
            _ => false,
        }
    }

    /// The status word shown in device listings.
    pub open spec fn spec_label(&self) -> Seq<char> {
        match self {
            AdbDeviceStatus::Available => "device"@,
            AdbDeviceStatus::Offline(msg) => "offline "@ + msg@,
            AdbDeviceStatus::Unauthorized => "unauthorized"@,
        }
    }

    /// The status word shown in device listings: `device`, `offline
    /// <reason>` or `unauthorized`.
    pub fn label(&self) -> (r: String)
        ensures
            r@ == self.spec_label(),
    {
        match self {
            AdbDeviceStatus::Available => "device".to_owned(),
            AdbDeviceStatus::Offline(msg) => {
                let mut r = "offline ".to_owned();
                r.append(msg.as_str());
                r
            },
            AdbDeviceStatus::Unauthorized => "unauthorized".to_owned(),
        }
    }
}

impl PartialEq for AdbDeviceStatus {
    fn eq(&self, other: &Self) -> (r: bool) {
        match (self, other) {
            (AdbDeviceStatus::Available, AdbDeviceStatus::Available) => true,
            (AdbDeviceStatus::Offline(_), AdbDeviceStatus::Offline(_)) => true,
            (AdbDeviceStatus::Unauthorized, AdbDeviceStatus::Unauthorized) => true,
            _ => false,
        }
    }
}

impl vstd::std_specs::cmp::PartialEqSpecImpl for AdbDeviceStatus {
    open spec fn obeys_eq_spec() -> bool {
        true
    }

    open spec fn eq_spec(&self, other: &Self) -> bool {
        self.same_variant(other)
    }
}

/// Whether a device is attached over USB or is an emulator.
#[derive(Clone, Copy)]
pub enum AdbDeviceType {
    Usb,
    Emulator,
}

impl AdbDeviceType {
    pub fn is_usb(&self) -> (r: bool)
        ensures
            r == (*self is Usb),
    {
        matches!(self, AdbDeviceType::Usb)
    }

    pub fn is_emulator(&self) -> (r: bool)
        ensures
            r == (*self is Emulator),
    {
        matches!(self, AdbDeviceType::Emulator)
    }
}

/// A client's device selection: any device, any of one kind, or one
/// device by serial.
#[derive(Clone, Debug)]
pub enum AdbDeviceTransport {
    Any,
    EmulatorAny,
    Emulator(String),
    UsbAny,
    Usb(String),
}

impl AdbDeviceTransport {
    pub fn usb(serial: &str) -> (r: Self)
        ensures
            r matches AdbDeviceTransport::Usb(s) && s@ == serial@,
    {
        AdbDeviceTransport::Usb(serial.to_owned())
    }

    /// Selects an emulator device by serial.
    pub fn emulator(serial: &str) -> (r: Self)
        ensures
            r matches AdbDeviceTransport::Emulator(s) && s@ == serial@,
    {
        AdbDeviceTransport::Emulator(serial.to_owned())
    }

    pub fn get_serial(&self) -> (r: Option<&String>)
        ensures
            match self {
                AdbDeviceTransport::Usb(serial) => (r matches Some(s) && s@ == serial@),
                AdbDeviceTransport::Emulator(serial) => (r matches Some(s) && s@ == serial@),
                _ => r is None,
            },
    {
        match self {
            AdbDeviceTransport::Usb(serial) => Some(serial),
            AdbDeviceTransport::Emulator(serial) => Some(serial),
            _ => None,
        }
    }
}

/// The USB interface triple `(class, subclass, protocol)` a transport
/// looks for when claiming a device.
#[derive(Clone, Copy)]
pub enum InterfaceType {
    AndroidUsb(u8, u8, u8),
    AndroidTcp(u8, u8, u8),
}

impl InterfaceType {
    /// The ADB interface triple: class 0xFF, subclass 0x42, protocol 0x01.
    pub fn android_usb() -> (r: Self)
        ensures
            r == InterfaceType::AndroidUsb(0xFFu8, 0x42u8, 0x01u8),
    {
        InterfaceType::AndroidUsb(0xFF, 0x42, 0x01)
    }

    pub fn is_android_usb_device(interface_type: InterfaceType) -> (r: bool)
        ensures
            r == (interface_type is AndroidUsb),
    {
        match interface_type {
            InterfaceType::AndroidUsb(_, _, _) => true,
            _ => false,
        }
    }

    pub fn is_android_tcp_device(interface_type: InterfaceType) -> (r: bool)
        ensures
            r == (interface_type is AndroidTcp),
    {
        match interface_type {
            InterfaceType::AndroidTcp(_, _, _) => true,
            _ => false,
        }
    }
}

/// One parsed command of the file-sync sub-protocol, as a client sends it.
#[derive(Debug)]
pub enum SyncCommand {
    Send { mode: u32, size: u32, path: String },
    Data { size: u32 },
    Done { mtime: u32 },
    Stat { path: String },
    Recv { path: String },
    List { path: String },
    Dent { mode: u32, size: u32, mtime: u32, name: String },
    Quit,
}

} // verus!
