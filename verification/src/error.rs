//! What can go wrong while talking to a server.

use vstd::prelude::*;

verus! {

/// The class of an input/output failure.
#[derive(Clone, Copy, Debug, PartialEq, Eq, Structural)]
pub enum IoErrorKind {
    InvalidData,
    InvalidInput,
    TimedOut,
    UnexpectedEof,
    Unsupported,
    Other,
}

/// How a timeout was noticed.
#[derive(Clone, Debug, PartialEq, Eq)]
pub enum TimeoutErrorType {
    String(String),
    Elapsed,
}

/// An error of the client.
#[derive(Clone, Debug, PartialEq, Eq)]
pub enum Error {
    ConnectionClosed(String),
    ImplementationError(String),
    Io(IoErrorKind, String),
    OperationCancelledError(String),
    ProtocolError(String),
    Redirection { host: String, port: u16 },
    SqlServerError {
        message: String,
        state: u8,
        class: i32,
        number: u32,
        server_name: Option<String>,
        proc_name: Option<String>,
        line_number: Option<i32>,
    },
    TimeoutError(TimeoutErrorType),
    TypeConversionError(String),
    UnimplementedFeature { feature: String, context: String },
    UsageError(String),
}

/// The class of an error, without its message. Contracts speak of it: a message is for people.
#[derive(Clone, Copy, Debug, PartialEq, Eq, Structural)]
pub enum ErrorKind {
    ConnectionClosed,
    ImplementationError,
    Io(IoErrorKind),
    OperationCancelled,
    Protocol,
    Redirection,
    SqlServer,
    Timeout,
    TypeConversion,
    UnimplementedFeature,
    Usage,
}

/// The result of an operation of the client.
pub type TdsResult<T> = Result<T, Error>;

impl Error {
    /// The class of this error.
    pub open spec fn spec_kind(&self) -> ErrorKind {
        match self {
            Error::ConnectionClosed(_) => ErrorKind::ConnectionClosed,
            Error::ImplementationError(_) => ErrorKind::ImplementationError,
            Error::Io(k, _) => ErrorKind::Io(*k),
            Error::OperationCancelledError(_) => ErrorKind::OperationCancelled,
            Error::ProtocolError(_) => ErrorKind::Protocol,
            Error::Redirection { .. } => ErrorKind::Redirection,
            Error::SqlServerError { .. } => ErrorKind::SqlServer,
            Error::TimeoutError(_) => ErrorKind::Timeout,
            Error::TypeConversionError(_) => ErrorKind::TypeConversion,
            Error::UnimplementedFeature { .. } => ErrorKind::UnimplementedFeature,
            Error::UsageError(_) => ErrorKind::Usage,
        }
    }

    /// The class of this error.
    #[verifier::when_used_as_spec(spec_kind)]
    pub fn kind(&self) -> (k: ErrorKind)
        ensures
            k == self.spec_kind(),
    {
        match self {
            Error::ConnectionClosed(_) => ErrorKind::ConnectionClosed,
            Error::ImplementationError(_) => ErrorKind::ImplementationError,
            Error::Io(k, _) => ErrorKind::Io(*k),
            Error::OperationCancelledError(_) => ErrorKind::OperationCancelled,
            Error::ProtocolError(_) => ErrorKind::Protocol,
            Error::Redirection { .. } => ErrorKind::Redirection,
            Error::SqlServerError { .. } => ErrorKind::SqlServer,
            Error::TimeoutError(_) => ErrorKind::Timeout,
            Error::TypeConversionError(_) => ErrorKind::TypeConversion,
            Error::UnimplementedFeature { .. } => ErrorKind::UnimplementedFeature,
            Error::UsageError(_) => ErrorKind::Usage,
        }
    }

    /// What people are told of this error.
    pub open spec fn text(&self) -> Seq<char> {
        match self {
            Error::ConnectionClosed(m) => m@,
            Error::ImplementationError(m) => m@,
            Error::Io(_, m) => m@,
            Error::OperationCancelledError(m) => m@,
            Error::ProtocolError(m) => m@,
            Error::Redirection { host, .. } => host@,
            Error::SqlServerError { message, .. } => message@,
            Error::TimeoutError(TimeoutErrorType::String(m)) => m@,
            Error::TimeoutError(TimeoutErrorType::Elapsed) => "deadline has elapsed"@,
            Error::TypeConversionError(m) => m@,
            Error::UnimplementedFeature { feature, .. } => feature@,
            Error::UsageError(m) => m@,
        }
    }

    /// What people are told of this error.
    pub fn message(&self) -> (m: &str)
        ensures
            m@ == self.text(),
    {
        match self {
            Error::ConnectionClosed(m) => m.as_str(),
            Error::ImplementationError(m) => m.as_str(),
            Error::Io(_, m) => m.as_str(),
            Error::OperationCancelledError(m) => m.as_str(),
            Error::ProtocolError(m) => m.as_str(),
            Error::Redirection { host, .. } => host.as_str(),
            Error::SqlServerError { message, .. } => message.as_str(),
            Error::TimeoutError(t) => match t {
                TimeoutErrorType::String(m) => m.as_str(),
                TimeoutErrorType::Elapsed => "deadline has elapsed",
            },
            Error::TypeConversionError(m) => m.as_str(),
            Error::UnimplementedFeature { feature, .. } => feature.as_str(),
            Error::UsageError(m) => m.as_str(),
        }
    }
}

/// What class an error is of: its message and what comes with it do not matter.
pub proof fn law_kinds(e: Error, text: String, kind: IoErrorKind)
    ensures
        Error::ConnectionClosed(text).kind() == ErrorKind::ConnectionClosed,
        Error::ImplementationError(text).kind() == ErrorKind::ImplementationError,
        Error::Io(kind, text).kind() == ErrorKind::Io(kind),
        Error::OperationCancelledError(text).kind() == ErrorKind::OperationCancelled,
        Error::ProtocolError(text).kind() == ErrorKind::Protocol,
        Error::TypeConversionError(text).kind() == ErrorKind::TypeConversion,
        Error::UsageError(text).kind() == ErrorKind::Usage,
        (e.kind() == ErrorKind::Redirection) == (e is Redirection),
        (e.kind() == ErrorKind::SqlServer) == (e is SqlServerError),
        (e.kind() == ErrorKind::Timeout) == (e is TimeoutError),
        (e.kind() == ErrorKind::UnimplementedFeature) == (e is UnimplementedFeature),
{
}

} // verus!
