use vstd::prelude::*;
use vstd::string::StringExecFns;

verus! {

/// Errors reported by a transport implementation (USB or in-memory).
#[derive(Debug)]
pub enum TransportError {
    Timeout,
    Disconnected,
    Unauthorized(String),
    DeviceNotFound,
    ConnectionError(String),
    CommunicationError(String),
    UnexpectedError(String),
}

/// Errors at the device I/O layer, one step above the transport.
#[derive(Debug)]
pub enum AdbIoError {
    DeviceConnectionError(String),
    SocketError(String),
    CommunicationError(String),
    TimeoutError,
    ConnectionClosed(String),
    ParseError(String),
    UnexpectedError(String),
}

/// Errors at the connection layer, what protocol operations return.
#[derive(Debug)]
pub enum AdbConnectionError {
    Timeout,
    DeviceNotAvailable(String),
    Unauthorized(String),
    ConnectionCloseError(String),
    CommunicationError(String),
    PortForwardSetupFailed(String),
    PortReverseSetupFailed(String),
    SyncError(String),
    UnexpectedError(String),
}

/// Errors at the client-request layer.
#[derive(Debug)]
pub enum AdbServerError {
    IOError(AdbIoError),
    NoAvailableDevices,
    DeviceNotFound(String),
    MultipleDeviceDetected,
    NoTransportSelected,
    SyncError(String),
    RequestError(String),
    UnexpectedError(String),
}

impl TransportError {
    /// The human-readable text of this error, used when it is wrapped
    /// into a higher-layer error.
    pub fn message(&self) -> (r: String)
        ensures
            match self {
                TransportError::Timeout => r@ == Seq::<char>::empty(),
                TransportError::Disconnected => r@ == Seq::<char>::empty(),
                TransportError::DeviceNotFound => r@ == Seq::<char>::empty(),
                TransportError::Unauthorized(m) => r@ == m@,
                TransportError::ConnectionError(m) => r@ == m@,
                TransportError::CommunicationError(m) => r@ == m@,
                TransportError::UnexpectedError(m) => r@ == m@,
            },
    {
        match self {
            TransportError::Timeout => String::new(),
            TransportError::Disconnected => String::new(),
            TransportError::DeviceNotFound => String::new(),
            TransportError::Unauthorized(m) => m.clone(),
            TransportError::ConnectionError(m) => m.clone(),
            TransportError::CommunicationError(m) => m.clone(),
            TransportError::UnexpectedError(m) => m.clone(),
        }
    }
}

/// Maps a transport failure to the I/O layer error taxonomy, one mapping
/// per variant, so higher layers see domain-meaningful kinds.
pub fn map_transport_error(err: TransportError) -> (r: AdbIoError)
    ensures
        match err {
            TransportError::Timeout => r is TimeoutError,
            TransportError::DeviceNotFound => (r matches AdbIoError::DeviceConnectionError(m)
                && m@ == "Device not found"@),
            TransportError::ConnectionError(msg) => (r matches AdbIoError::ConnectionClosed(m)
                && m@ == msg@),
            TransportError::Unauthorized(msg) => (r matches AdbIoError::DeviceConnectionError(m)
                && m@ == msg@),
            TransportError::CommunicationError(msg) => (r matches AdbIoError::CommunicationError(m)
                && m@ == msg@),
            TransportError::Disconnected => (r matches AdbIoError::UnexpectedError(m)
                && m@ == Seq::<char>::empty()),
            TransportError::UnexpectedError(msg) => (r matches AdbIoError::UnexpectedError(m)
                && m@ == msg@),
        },
{
    match err {
        TransportError::Timeout => AdbIoError::TimeoutError,
        TransportError::DeviceNotFound => AdbIoError::DeviceConnectionError("Device not found".to_owned()),
        TransportError::ConnectionError(msg) => AdbIoError::ConnectionClosed(msg),
        TransportError::Unauthorized(msg) => AdbIoError::DeviceConnectionError(msg),
        TransportError::CommunicationError(msg) => AdbIoError::CommunicationError(msg),
        TransportError::Disconnected => AdbIoError::UnexpectedError(String::new()),
        TransportError::UnexpectedError(msg) => AdbIoError::UnexpectedError(msg),
    }
}

/// Maps an I/O layer failure to the connection layer error taxonomy.
pub fn map_io_error(error: AdbIoError) -> (r: AdbConnectionError)
    ensures
        match error {
            AdbIoError::TimeoutError => r is Timeout,
            AdbIoError::DeviceConnectionError(msg) => (r matches AdbConnectionError::DeviceNotAvailable(m)
                && m@ == msg@),
            AdbIoError::SocketError(msg) => (r matches AdbConnectionError::ConnectionCloseError(m)
                && m@ == msg@),
            AdbIoError::ConnectionClosed(msg) => (r matches AdbConnectionError::ConnectionCloseError(m)
                && m@ == msg@),
            AdbIoError::CommunicationError(msg) => (r matches AdbConnectionError::CommunicationError(m)
                && m@ == msg@),
            AdbIoError::ParseError(msg) => (r matches AdbConnectionError::UnexpectedError(m)
                && m@ == msg@),
            AdbIoError::UnexpectedError(msg) => (r matches AdbConnectionError::UnexpectedError(m)
                && m@ == msg@),
        },
{
    match error {
        AdbIoError::TimeoutError => AdbConnectionError::Timeout,
        AdbIoError::DeviceConnectionError(msg) => AdbConnectionError::DeviceNotAvailable(msg),
        AdbIoError::SocketError(msg) => AdbConnectionError::ConnectionCloseError(msg),
        AdbIoError::ConnectionClosed(msg) => AdbConnectionError::ConnectionCloseError(msg),
        AdbIoError::CommunicationError(msg) => AdbConnectionError::CommunicationError(msg),
        AdbIoError::ParseError(msg) => AdbConnectionError::UnexpectedError(msg),
        AdbIoError::UnexpectedError(msg) => AdbConnectionError::UnexpectedError(msg),
    }
}


impl AdbIoError {
    /// The human-readable text of this error: the carried message, empty
    /// for a timeout.
    pub fn message(&self) -> (r: String)
        ensures
            match self {
                AdbIoError::TimeoutError => r@ == Seq::<char>::empty(),
                AdbIoError::DeviceConnectionError(m) => r@ == m@,
                AdbIoError::SocketError(m) => r@ == m@,
                AdbIoError::CommunicationError(m) => r@ == m@,
                AdbIoError::ConnectionClosed(m) => r@ == m@,
                AdbIoError::ParseError(m) => r@ == m@,
                AdbIoError::UnexpectedError(m) => r@ == m@,
            },
    {
        match self {
            AdbIoError::TimeoutError => String::new(),
            AdbIoError::DeviceConnectionError(m) => m.clone(),
            AdbIoError::SocketError(m) => m.clone(),
            AdbIoError::CommunicationError(m) => m.clone(),
            AdbIoError::ConnectionClosed(m) => m.clone(),
            AdbIoError::ParseError(m) => m.clone(),
            AdbIoError::UnexpectedError(m) => m.clone(),
        }
    }
}

impl AdbConnectionError {
    /// The description of each connection error variant.
    pub open spec fn spec_message(&self) -> Seq<char> {
        match self {
            AdbConnectionError::Timeout => "Operation timed out"@,
            AdbConnectionError::DeviceNotAvailable(m) => "Device not available: "@ + m@,
            AdbConnectionError::Unauthorized(m) => "Authorization failed: "@ + m@,
            AdbConnectionError::ConnectionCloseError(m) => "Connection terminated: "@ + m@,
            AdbConnectionError::CommunicationError(m) => "Communication error: "@ + m@,
            AdbConnectionError::PortForwardSetupFailed(m) => "Port forward setup failed: "@
                + m@,
            AdbConnectionError::PortReverseSetupFailed(m) => "Port reverse setup failed: "@
                + m@,
            AdbConnectionError::SyncError(m) => "Sync operation failed: "@ + m@,
            AdbConnectionError::UnexpectedError(m) => "An unexpected error occurred: "@ + m@,
        }
    }

    /// The human-readable description of this error.
    pub fn message(&self) -> (r: String)
        ensures
            r@ == self.spec_message(),
    {
        match self {
            AdbConnectionError::Timeout => "Operation timed out".to_owned(),
            AdbConnectionError::DeviceNotAvailable(m) => {
                let mut r = "Device not available: ".to_owned();
                r.append(m.as_str());
                r
            },
            AdbConnectionError::Unauthorized(m) => {
                let mut r = "Authorization failed: ".to_owned();
                r.append(m.as_str());
                r
            },
            AdbConnectionError::ConnectionCloseError(m) => {
                let mut r = "Connection terminated: ".to_owned();
                r.append(m.as_str());
                r
            },
            AdbConnectionError::CommunicationError(m) => {
                let mut r = "Communication error: ".to_owned();
                r.append(m.as_str());
                r
            },
            AdbConnectionError::PortForwardSetupFailed(m) => {
                let mut r = "Port forward setup failed: ".to_owned();
                r.append(m.as_str());
                r
            },
            AdbConnectionError::PortReverseSetupFailed(m) => {
                let mut r = "Port reverse setup failed: ".to_owned();
                r.append(m.as_str());
                r
            },
            AdbConnectionError::SyncError(m) => {
                let mut r = "Sync operation failed: ".to_owned();
                r.append(m.as_str());
                r
            },
            AdbConnectionError::UnexpectedError(m) => {
                let mut r = "An unexpected error occurred: ".to_owned();
                r.append(m.as_str());
                r
            },
        }
    }
}

impl AdbServerError {
    /// The description of each server error variant.
    pub open spec fn spec_message(&self) -> Seq<char> {
        match self {
            AdbServerError::IOError(err) => "Communication failed: "@,
            AdbServerError::NoAvailableDevices => "No available devices"@,
            AdbServerError::DeviceNotFound(m) => "device '"@ + m@ + "' not found"@,
            AdbServerError::MultipleDeviceDetected => "Multiple devices detected"@,
            AdbServerError::NoTransportSelected => "No transport selected"@,
            AdbServerError::SyncError(m) => "Sync operation failed: "@ + m@,
            AdbServerError::RequestError(m) => "Invalid client request: "@ + m@,
            AdbServerError::UnexpectedError(m) => "Unexpected error: "@ + m@,
        }
    }

    /// The human-readable description of this error; for a wrapped I/O
    /// error the wrapped message follows the prefix.
    pub fn message(&self) -> (r: String)
        ensures
            self is IOError ==> ({
                &&& r@.len() >= self.spec_message().len()
                &&& r@.subrange(0, self.spec_message().len() as int) == self.spec_message()
            }),
            !(self is IOError) ==> r@ == self.spec_message(),
    {
        match self {
            AdbServerError::IOError(err) => {
                let mut r = "Communication failed: ".to_owned();
                r.append(err.message().as_str());
                proof {
                    assert(r@.subrange(0, self.spec_message().len() as int)
                        =~= self.spec_message());
                }
                r
            },
            AdbServerError::NoAvailableDevices => "No available devices".to_owned(),
            AdbServerError::DeviceNotFound(m) => {
                let mut r = "device '".to_owned();
                r.append(m.as_str());
                r.append("' not found");
                r
            },
            AdbServerError::MultipleDeviceDetected => "Multiple devices detected".to_owned(),
            AdbServerError::NoTransportSelected => "No transport selected".to_owned(),
            AdbServerError::SyncError(m) => {
                let mut r = "Sync operation failed: ".to_owned();
                r.append(m.as_str());
                r
            },
            AdbServerError::RequestError(m) => {
                let mut r = "Invalid client request: ".to_owned();
                r.append(m.as_str());
                r
            },
            AdbServerError::UnexpectedError(m) => {
                let mut r = "Unexpected error: ".to_owned();
                r.append(m.as_str());
                r
            },
        }
    }
}

} // verus!
