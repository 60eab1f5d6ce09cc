use vstd::prelude::*;

verus! {

/// What made the MBAP framer give up on a stream.
#[derive(Clone, Copy, Debug, PartialEq, Eq, Structural)]
pub enum FrameParseError {
    /// The protocol id of a header was not zero.
    UnknownProtocolId(u16),
    /// The length field of a header was outside 1..=254.
    FrameLengthInvalid(u16),
    /// A byte appeared where the framing forbids it.
    UnexpectedByte(u8),
}

/// Why a PDU could not be decoded.
#[derive(Clone, Copy, Debug, PartialEq, Eq, Structural)]
pub enum ProtocolError {
    /// The function code is not one that this library knows.
    UnknownFunction(u8),
    /// A reply carried another function code than the request.
    UnexpectedFunction(u8),
    /// The PDU is shorter or longer than its function code calls for.
    BadLength,
    /// The byte count field disagrees with the quantity.
    BadByteCount,
    /// A single coil value other than 0xFF00 or 0x0000.
    BadCoilValue(u16),
    /// A quantity of zero, above the function's limit, or past address 65535.
    BadRange,
    /// A write reply that does not echo the request.
    EchoMismatch,
}

/// A Modbus exception code.
#[derive(Clone, Copy, Debug, PartialEq, Eq, Structural)]
pub enum Exception {
    IllegalFunction,
    IllegalDataAddress,
    IllegalDataValue,
    ServerDeviceFailure,
    Acknowledge,
    ServerDeviceBusy,
    MemoryParityError,
    GatewayPathUnavailable,
    GatewayTargetFailedToRespond,
    /// A code outside the list above, kept as it came.
    Unknown(u8),
}

/// The exception that a code on the wire stands for.
pub open spec fn exception_of(code: u8) -> Exception {
    if code == 1 {
        Exception::IllegalFunction
    } else if code == 2 {
        Exception::IllegalDataAddress
    } else if code == 3 {
        Exception::IllegalDataValue
    } else if code == 4 {
        Exception::ServerDeviceFailure
    } else if code == 5 {
        Exception::Acknowledge
    } else if code == 6 {
        Exception::ServerDeviceBusy
    } else if code == 8 {
        Exception::MemoryParityError
    } else if code == 10 {
        Exception::GatewayPathUnavailable
    } else if code == 11 {
        Exception::GatewayTargetFailedToRespond
    } else {
        Exception::Unknown(code)
    }
}

/// The code on the wire of an exception.
pub open spec fn exception_code(e: Exception) -> u8 {
    match e {
        Exception::IllegalFunction => 1,
        Exception::IllegalDataAddress => 2,
        Exception::IllegalDataValue => 3,
        Exception::ServerDeviceFailure => 4,
        Exception::Acknowledge => 5,
        Exception::ServerDeviceBusy => 6,
        Exception::MemoryParityError => 8,
        Exception::GatewayPathUnavailable => 10,
        Exception::GatewayTargetFailedToRespond => 11,
        Exception::Unknown(c) => c,
    }
}

impl Exception {
    pub fn from_u8(code: u8) -> (r: Exception)
        ensures
            r == exception_of(code),
    {
        match code {
            1 => Exception::IllegalFunction,
            2 => Exception::IllegalDataAddress,
            3 => Exception::IllegalDataValue,
            4 => Exception::ServerDeviceFailure,
            5 => Exception::Acknowledge,
            6 => Exception::ServerDeviceBusy,
            8 => Exception::MemoryParityError,
            10 => Exception::GatewayPathUnavailable,
            11 => Exception::GatewayTargetFailedToRespond,
            _ => Exception::Unknown(code),
        }
    }

    pub fn code(&self) -> (r: u8)
        ensures
            r == exception_code(*self),
    {
        match self {
            Exception::IllegalFunction => 1,
            Exception::IllegalDataAddress => 2,
            Exception::IllegalDataValue => 3,
            Exception::ServerDeviceFailure => 4,
            Exception::Acknowledge => 5,
            Exception::ServerDeviceBusy => 6,
            Exception::MemoryParityError => 8,
            Exception::GatewayPathUnavailable => 10,
            Exception::GatewayTargetFailedToRespond => 11,
            Exception::Unknown(c) => *c,
        }
    }
}

/// Every failure that a request or a session can meet.
#[derive(Clone, Copy, Debug, PartialEq, Eq, Structural)]
pub enum Error {
    /// The transport failed to read or write.
    Io,
    /// The byte stream could not be framed.
    BadFrame(FrameParseError),
    /// No matching reply came before the request's deadline.
    ResponseTimeout,
    /// The server answered with an exception.
    ExceptionResponse(Exception),
    /// The reply could not be decoded.
    ProtocolError(ProtocolError),
    /// The request was drained after its session had died.
    NoConnection,
    /// The request queue was closed.
    Shutdown,
}

/// Why a client session ended.
#[derive(Clone, Copy, Debug, PartialEq, Eq, Structural)]
pub enum SessionError {
    /// The transport failed.
    IoError,
    /// The byte stream could not be framed.
    BadFrame,
    /// The request queue was closed by its producers.
    Shutdown,
}

/// The errors that end a session, and the session error each one ends it with.
pub open spec fn fatal_kind(e: Error) -> Option<SessionError> {
    match e {
        Error::Io => Some(SessionError::IoError),
        Error::BadFrame(_) => Some(SessionError::BadFrame),
        _ => None,
    }
}

impl SessionError {
    /// The session error that `err` ends a session with, if it is fatal.
    pub fn from(err: &Error) -> (r: Option<SessionError>)
        ensures
            r == fatal_kind(*err),
    {
        match err {
            Error::Io => Some(SessionError::IoError),
            Error::BadFrame(_) => Some(SessionError::BadFrame),
            _ => None,
        }
    }
}

} // verus!
