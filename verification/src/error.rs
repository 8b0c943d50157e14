//! The failures that the runtime reports.

use vstd::prelude::*;
use vstd::string::StringExecFns;

verus! {

/// A failure of a call, of a message or of an assertion.
#[derive(Debug, Clone, PartialEq, Eq)]
pub enum Error {
    /// The pipe to the driver ended; every pending call fails with this.
    TransportClosed,
    /// A frame or a message that does not have the agreed shape.
    ProtocolError(String),
    /// The driver answered a call with a failure of its own.
    RpcError(String),
    /// A call named an object that is no longer in the registry.
    Disposed(String),
    /// An assertion was not satisfied before its deadline.
    AssertionTimeout(String),
    /// An argument was refused before anything was sent.
    InvalidArgument(String),
}

impl Error {
    /// The text that the failure carries.
    pub open spec fn detail(self) -> Seq<char> {
        match self {
            Error::TransportClosed => "connection closed"@,
            Error::ProtocolError(m) => m@,
            Error::RpcError(m) => m@,
            Error::Disposed(m) => m@,
            Error::AssertionTimeout(m) => m@,
            Error::InvalidArgument(m) => m@,
        }
    }

    /// The text that the failure carries: the message it was made with, or
    /// `connection closed` for a closed transport.
    pub fn message(&self) -> (text: String)
        ensures
            text@ == self.detail(),
    {
        match self {
            Error::TransportClosed => String::from_str("connection closed"),
            Error::ProtocolError(m) => m.clone(),
            Error::RpcError(m) => m.clone(),
            Error::Disposed(m) => m.clone(),
            Error::AssertionTimeout(m) => m.clone(),
            Error::InvalidArgument(m) => m.clone(),
        }
    }
}

} // verus!
