//! Why a configuration text is refused.

use vstd::prelude::*;
use vstd::string::*;
use crate::number::NumberError;

verus! {

/// Why a proxy or a tunnel cannot be read from its text.
#[derive(Clone, Copy, Debug, PartialEq, Eq, Structural)]
pub enum Error {
    /// A proxy is not written as `host:port`, or a proxy URL has no host.
    InvalidProxy,
    /// A tunnel is not written as `local_port:remote_host:remote_port`.
    InvalidTunnel,
    /// A port is not a decimal number of 16 bits.
    InvalidPort(NumberError),
}

impl Error {
    /// The words of each error.
    pub open spec fn message_text(self) -> Seq<char> {
        match self {
            Error::InvalidProxy => "Invalid proxy specification"@,
            Error::InvalidTunnel => "Invalid tunnel specification"@,
            Error::InvalidPort(_) => "Invalid port number"@,
        }
    }

    /// The error in words.
    pub fn message(&self) -> (text: String)
        ensures
            text@ == self.message_text(),
    {
        match self {
            Error::InvalidProxy => String::from_str("Invalid proxy specification"),
            Error::InvalidTunnel => String::from_str("Invalid tunnel specification"),
            Error::InvalidPort(_) => String::from_str("Invalid port number"),
        }
    }
}

} // verus!
