use vstd::prelude::*;
use crate::enums::InterfaceType;
use crate::errors::TransportError;
use vstd::string::StringExecFns;

verus! {

/// A USB-level failure, as the USB library reports it, stripped to its
/// kind.  The runtime converts the library's error to this, one variant
/// per variant, and the verified classification below maps it into the
/// transport error taxonomy.
pub enum UsbErrorKind {
    Io,
    InvalidParam,
    Access,
    NoDevice,
    NotFound,
    Busy,
    Timeout,
    Overflow,
    Pipe,
    Interrupted,
    NoMem,
    NotSupported,
    BadDescriptor,
    Other,
}

/// Classifies a USB failure during a bulk read: timeouts and lost
/// devices keep their kind, access failures are authorization problems,
/// pipe-level troubles close the connection, and anything else is a
/// communication error carrying the library's own words.
pub fn classify_usb_read_error(kind: &UsbErrorKind, detail: String) -> (r: TransportError)
    ensures
        match kind {
            UsbErrorKind::Timeout => r is Timeout,
            UsbErrorKind::NoDevice => r is DeviceNotFound,
            UsbErrorKind::Pipe => (r matches TransportError::ConnectionError(m) && m@
                == "USB pipe error"@),
            UsbErrorKind::Access => (r matches TransportError::Unauthorized(m) && m@
                == "No permission to access USB device"@),
            UsbErrorKind::Overflow => (r matches TransportError::ConnectionError(m) && m@
                == "USB buffer overflow"@),
            UsbErrorKind::Io => (r matches TransportError::ConnectionError(m) && m@
                == "USB I/O error"@),
            UsbErrorKind::InvalidParam => (r matches TransportError::ConnectionError(m) && m@
                == "Invalid USB parameters"@),
            UsbErrorKind::Busy => (r matches TransportError::ConnectionError(m) && m@
                == "USB device/endpoint busy"@),
            UsbErrorKind::Other => (r matches TransportError::ConnectionError(m) && m@
                == "Platform-specific USB error"@),
            _ => (r matches TransportError::CommunicationError(m) && m@ == "Unexpected error: "@
                + detail@),
        },
{
    match kind {
        UsbErrorKind::Timeout => TransportError::Timeout,
        UsbErrorKind::NoDevice => TransportError::DeviceNotFound,
        UsbErrorKind::Pipe => TransportError::ConnectionError("USB pipe error".to_owned()),
        UsbErrorKind::Access => TransportError::Unauthorized(
            "No permission to access USB device".to_owned(),
        ),
        UsbErrorKind::Overflow => TransportError::ConnectionError(
            "USB buffer overflow".to_owned(),
        ),
        UsbErrorKind::Io => TransportError::ConnectionError("USB I/O error".to_owned()),
        UsbErrorKind::InvalidParam => TransportError::ConnectionError(
            "Invalid USB parameters".to_owned(),
        ),
        UsbErrorKind::Busy => TransportError::ConnectionError(
            "USB device/endpoint busy".to_owned(),
        ),
        UsbErrorKind::Other => TransportError::ConnectionError(
            "Platform-specific USB error".to_owned(),
        ),
        _ => {
            let mut m = "Unexpected error: ".to_owned();
            m.append(detail.as_str());
            TransportError::CommunicationError(m)
        },
    }
}

/// Classifies a USB failure during a bulk write.
pub fn classify_usb_write_error(kind: &UsbErrorKind, detail: String) -> (r: TransportError)
    ensures
        match kind {
            UsbErrorKind::Timeout => r is Timeout,
            UsbErrorKind::NoDevice => r is DeviceNotFound,
            UsbErrorKind::Pipe => (r matches TransportError::ConnectionError(m) && m@
                == "USB pipe error: device disconnected"@),
            UsbErrorKind::Busy => (r matches TransportError::CommunicationError(m) && m@
                == "USB device is busy"@),
            UsbErrorKind::Access => (r matches TransportError::Unauthorized(m) && m@
                == "No permission to access USB device"@),
            UsbErrorKind::InvalidParam => (r matches TransportError::UnexpectedError(m) && m@
                == "Invalid USB parameter"@),
            _ => (r matches TransportError::CommunicationError(m) && m@ == "USB error: "@
                + detail@),
        },
{
    match kind {
        UsbErrorKind::Timeout => TransportError::Timeout,
        UsbErrorKind::NoDevice => TransportError::DeviceNotFound,
        UsbErrorKind::Pipe => TransportError::ConnectionError(
            "USB pipe error: device disconnected".to_owned(),
        ),
        UsbErrorKind::Busy => TransportError::CommunicationError(
            "USB device is busy".to_owned(),
        ),
        UsbErrorKind::Access => TransportError::Unauthorized(
            "No permission to access USB device".to_owned(),
        ),
        UsbErrorKind::InvalidParam => TransportError::UnexpectedError(
            "Invalid USB parameter".to_owned(),
        ),
        _ => {
            let mut m = "USB error: ".to_owned();
            m.append(detail.as_str());
            TransportError::CommunicationError(m)
        },
    }
}

/// The capability set a device transport offers: claim and release the
/// device, move bytes over the bulk endpoints, and check that the
/// connection is still standing.  The USB transport of the runtime
/// implements it over the real bus; tests substitute a scripted
/// in-memory transport.  Timeouts are in milliseconds; a `bulk_write`
/// timeout of `None` means the writing default.
pub trait Transport {
    fn acquire_device(&mut self, device_type: InterfaceType) -> Result<(), TransportError>;

    fn release_device(&mut self) -> Result<(), TransportError>;

    /// Reads exactly `length` bytes, or fails; a successful read is never
    /// short.
    fn bulk_read(&mut self, length: usize, transport_timeout_ms: u64) -> (r: Result<
        Vec<u8>,
        TransportError,
    >)
        ensures
            r matches Ok(data) ==> data@.len() == length,
    ;

    fn bulk_write(&mut self, data: &[u8], transport_timeout_ms: Option<u64>) -> Result<
        usize,
        TransportError,
    >;

    fn verify_connection_status(&mut self) -> Result<(), TransportError>;
}

/// An in-memory transport: reads are served from a scripted byte
/// sequence, writes are recorded, and the connection verifies as long as
/// the script says so.
pub struct ScriptedTransport {
    input: Vec<u8>,
    position: usize,
    writes: Vec<Vec<u8>>,
    verify_ok: bool,
    acquired: bool,
}

impl ScriptedTransport {
    pub closed spec fn spec_input(&self) -> Seq<u8> {
        self.input@
    }

    pub closed spec fn spec_position(&self) -> int {
        self.position as int
    }

    pub closed spec fn spec_writes(&self) -> Seq<Seq<u8>> {
        self.writes@.map_values(|w: Vec<u8>| w@)
    }

    pub fn new(input: Vec<u8>, verify_ok: bool) -> (r: Self)
        ensures
            r.spec_input() == input@,
            r.spec_position() == 0,
            r.spec_writes() == Seq::<Seq<u8>>::empty(),
    {
        let r = ScriptedTransport { input, position: 0, writes: Vec::new(), verify_ok, acquired: false };
        proof {
            assert(r.spec_writes() =~= Seq::<Seq<u8>>::empty());
        }
        r
    }

    /// Everything the engine wrote, in order, one entry per bulk write.
    pub fn written(&self) -> (r: &Vec<Vec<u8>>)
        ensures
            r@.map_values(|w: Vec<u8>| w@) == self.spec_writes(),
    {
        &self.writes
    }

    /// How much of the scripted input has been consumed.
    pub fn consumed(&self) -> (r: usize)
        ensures
            r == self.spec_position(),
    {
        self.position
    }
}

impl Transport for ScriptedTransport {
    fn acquire_device(&mut self, device_type: InterfaceType) -> Result<(), TransportError> {
        self.acquired = true;
        Ok(())
    }

    fn release_device(&mut self) -> Result<(), TransportError> {
        self.acquired = false;
        Ok(())
    }

    fn bulk_read(&mut self, length: usize, transport_timeout_ms: u64) -> (r: Result<
        Vec<u8>,
        TransportError,
    >) {
        if length > self.input.len() || self.position > self.input.len() - length {
            return Err(TransportError::Timeout);
        }
        let total = self.input.len();
        let mut data: Vec<u8> = Vec::new();
        let mut i: usize = 0;
        while i < length
            invariant
                0 <= i <= length,
                self.position == old(self).position,
                self.input == old(self).input,
                self.input@.len() == total,
                self.position + length <= total,
                data@.len() == i,
            decreases length - i,
        {
            data.push(self.input[self.position + i]);
            i = i + 1;
        }
        self.position = self.position + length;
        Ok(data)
    }

    fn bulk_write(&mut self, data: &[u8], transport_timeout_ms: Option<u64>) -> Result<
        usize,
        TransportError,
    > {
        let owned = vstd::slice::slice_to_vec(data);
        let n = owned.len();
        self.writes.push(owned);
        Ok(n)
    }

    fn verify_connection_status(&mut self) -> Result<(), TransportError> {
        if self.verify_ok {
            Ok(())
        } else {
            Err(TransportError::ConnectionError("Device handle is no longer active".to_owned()))
        }
    }
}

} // verus!
