use vstd::prelude::*;

verus! {

/// Every failure the voice connection can report. Failures that come from
/// outside crates (TLS, websocket, JSON, codec, container) carry their
/// message as text.
#[derive(Debug, Clone, PartialEq, Eq)]
pub enum DiscordError {
    BuilderMissingRequiredField(String),
    TlsConnectorCreationFailed(String),
    IoError(String),
    InvalidDnsName(String),
    WebsocketHandshakeFailed(String),
    TungsteniteError(String),
    SerdeError(String),
    InvalidOpCode(u8),
    AddrParseFailed(String),
    ConnectionClosed(u16),
    EncryptionError,
    OpusError(String),
    WavFileError(String),
}

/// The observable error names a caller sees.
#[derive(Debug, Clone, Copy, PartialEq, Eq, Structural)]
pub enum ErrorClass {
    MissingField,
    Internal,
    InternalIO,
    Tls,
    Gateway,
    TryReconnect,
    EncryptionFailed,
}

/// Close codes after which the connection must not be retried:
/// normal closure, voice server crashed, voice server changed.
pub open spec fn is_terminal_close_spec(code: u16) -> bool {
    code == 1000 || code == 4014 || code == 4015
}

/// Whether a close code ends the connection for good.
pub fn is_terminal_close(code: u16) -> (r: bool)
    ensures
        r == is_terminal_close_spec(code),
{
    code == 1000 || code == 4014 || code == 4015
}

/// The observable name of each error.
pub open spec fn class_of(e: DiscordError) -> ErrorClass {
    match e {
        DiscordError::BuilderMissingRequiredField(_) => ErrorClass::MissingField,
        DiscordError::TlsConnectorCreationFailed(_) => ErrorClass::Internal,
        DiscordError::IoError(_) => ErrorClass::InternalIO,
        DiscordError::InvalidDnsName(_) => ErrorClass::Internal,
        DiscordError::WebsocketHandshakeFailed(_) => ErrorClass::Tls,
        DiscordError::TungsteniteError(_) => ErrorClass::Gateway,
        DiscordError::SerdeError(_) => ErrorClass::Internal,
        DiscordError::InvalidOpCode(_) => ErrorClass::Gateway,
        DiscordError::AddrParseFailed(_) => ErrorClass::Gateway,
        DiscordError::ConnectionClosed(c) => if is_terminal_close_spec(c) {
            ErrorClass::Gateway
        } else {
            ErrorClass::TryReconnect
        },
        DiscordError::EncryptionError => ErrorClass::EncryptionFailed,
        DiscordError::OpusError(_) => ErrorClass::Internal,
        DiscordError::WavFileError(_) => ErrorClass::InternalIO,
    }
}

impl DiscordError {
    /// The observable name of this error; a close that may be retried is
    /// reported as `TryReconnect`.
    pub fn class(&self) -> (r: ErrorClass)
        ensures
            r == class_of(*self),
    {
        match self {
            DiscordError::BuilderMissingRequiredField(_) => ErrorClass::MissingField,
            DiscordError::TlsConnectorCreationFailed(_) => ErrorClass::Internal,
            DiscordError::IoError(_) => ErrorClass::InternalIO,
            DiscordError::InvalidDnsName(_) => ErrorClass::Internal,
            DiscordError::WebsocketHandshakeFailed(_) => ErrorClass::Tls,
            DiscordError::TungsteniteError(_) => ErrorClass::Gateway,
            DiscordError::SerdeError(_) => ErrorClass::Internal,
            DiscordError::InvalidOpCode(_) => ErrorClass::Gateway,
            DiscordError::AddrParseFailed(_) => ErrorClass::Gateway,
            DiscordError::ConnectionClosed(c) => if is_terminal_close(*c) {
                ErrorClass::Gateway
            } else {
                ErrorClass::TryReconnect
            },
            DiscordError::EncryptionError => ErrorClass::EncryptionFailed,
            DiscordError::OpusError(_) => ErrorClass::Internal,
            DiscordError::WavFileError(_) => ErrorClass::InternalIO,
        }
    }
}

/// The outcome of the control loop once a poll has failed with `e`: a close
/// with a terminal code ends it with success, anything else is reported.
pub open spec fn run_outcome_spec(e: DiscordError) -> Result<(), DiscordError> {
    match e {
        DiscordError::ConnectionClosed(c) if is_terminal_close_spec(c) => Ok(()),
        _ => Err(e),
    }
}

/// Ends the control loop after the poll error `e`.
pub fn run_outcome(e: DiscordError) -> (r: Result<(), DiscordError>)
    ensures
        r == run_outcome_spec(e),
{
    match e {
        DiscordError::ConnectionClosed(c) => {
            if is_terminal_close(c) {
                Ok(())
            } else {
                Err(DiscordError::ConnectionClosed(c))
            }
        },
        _ => Err(e),
    }
}

} // verus!
