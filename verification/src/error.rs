//! The error kinds of the receiver control library.

use vstd::prelude::*;

verus! {

/// Mathematical model of an error.
pub ghost enum GError {
    Connection,
    Decode,
    Protocol { message: Seq<char> },
    NotFound,
}

/// Everything that can go wrong while driving the receiver.
#[derive(Debug, PartialEq, Eq)]
pub enum HeosError {
    /// A TCP connection could not be established or an I/O call failed.
    /// Produced by the I/O layer that owns the sockets, never by this crate.
    Connection,
    /// The reply was not a well-formed response envelope.
    Decode,
    /// A well-formed envelope whose result discriminator was `fail`; carries
    /// the device's message.
    Protocol { message: String },
    /// A player id was required but the device returned no players.
    NotFound,
}

impl View for HeosError {
    type V = GError;

    open spec fn view(&self) -> GError {
        match self {
            HeosError::Connection => GError::Connection,
            HeosError::Decode => GError::Decode,
            HeosError::Protocol { message } => GError::Protocol { message: message@ },
            HeosError::NotFound => GError::NotFound,
        }
    }
}

impl HeosError {
    /// A short human-readable account of the error, for the front end to print.
    pub fn describe(&self) -> (r: String)
        ensures
            match self {
                HeosError::Connection => r@ == "could not connect to the receiver"@,
                HeosError::Decode => r@ == "could not decode the response"@,
                HeosError::Protocol { message } => r@ == "command failed: "@ + message@,
                HeosError::NotFound => r@ == "no players were returned from heos"@,
            },
    {
        match self {
            HeosError::Connection => String::from_str("could not connect to the receiver"),
            HeosError::Decode => String::from_str("could not decode the response"),
            HeosError::Protocol { message } => {
                String::from_str("command failed: ").concat(message.as_str())
            },
            HeosError::NotFound => String::from_str("no players were returned from heos"),
        }
    }
}

} // verus!
