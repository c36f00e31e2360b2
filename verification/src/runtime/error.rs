//! Errors of the runtime
use no_std_net::SocketAddr;
use vstd::prelude::*;

use crate::msg::parse_error::MessageParseError;
use crate::msg::{Id, Token};
use crate::to_bytes::MessageToBytesError;

verus! {

/// When an error happened
#[derive(Debug, Clone)]
pub enum When {
    /// While polling for a message
    Polling,
    /// While sending a message
    SendingMessage(Option<SocketAddr>, Id, Token),
    /// At no particular step
    Unknown,
}

/// What went wrong
#[derive(Debug)]
pub enum What<SockError> {
    /// The socket failed
    SockError(SockError),
    /// A received datagram was not a CoAP message
    FromBytes(MessageParseError),
    /// A message could not be written as bytes
    ToBytes(MessageToBytesError),
    /// A Uri-Host option was not valid UTF-8
    HostInvalidUtf8(core::str::Utf8Error),
    /// A Uri-Host option was not an IP address
    HostInvalidIpAddress,
    /// A confirmable message was never acknowledged
    MessageNeverAcked,
    /// The clock failed
    ClockError,
    /// An operation timed out
    Timeout,
}

/// An error of the runtime: what went wrong, and when
#[derive(Debug)]
pub struct Error<SockError> {
    /// What went wrong
    pub what: What<SockError>,
    /// When it happened
    pub when: When,
}

impl When {
    /// This moment, with what went wrong
    pub fn what<S>(self, what: What<S>) -> (r: Error<S>)
        ensures
            r == (Error { what, when: self }),
    {
        Error { what, when: self }
    }
}

impl<S> Error<S> {
    /// The parse error, if the error was a datagram that was not a message
    pub fn message_parse_error(&self) -> (r: Option<&MessageParseError>)
        ensures
            r == match self.what {
                What::FromBytes(e) => Some(&e),
                _ => None::<&MessageParseError>,
            },
    {
        match &self.what {
            What::FromBytes(e) => Some(e),
            _ => None,
        }
    }
}

} // verus!
