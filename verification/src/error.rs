//! Error taxonomy of the engine. Every failure the core can observe is
//! representable as data handed back to the caller; nothing here aborts the
//! process.

use vstd::prelude::*;

verus! {

use vstd::string::StringExecFns;

/// One failure category per probe concern, each carrying a human-readable
/// detail string.
#[derive(Clone, Debug, PartialEq, Eq)]
pub enum NetworkError {
    /// An I/O operation failed outside any more specific category.
    Io(String),
    /// Name resolution produced no usable address or failed outright.
    Dns(String),
    /// Every echo attempt of a ping run was lost.
    Ping(String),
    /// Every connection attempt of a TCP run failed.
    Tcp(String),
    /// The HTTP prober could not even be set up.
    Http(String),
    /// The hop-discovery walk failed as a whole.
    Traceroute(String),
    /// An attempt hit its deadline.
    Timeout(String),
    /// Malformed configuration, rejected before any network activity.
    InvalidInput(String),
    /// Anything that fits no other category.
    Other(String),
}

/// The rendered message of an error: a fixed category prefix followed by
/// the detail string.
pub open spec fn spec_message(e: NetworkError) -> Seq<char> {
    match e {
        NetworkError::Io(d) => "IO error: "@ + d@,
        NetworkError::Dns(d) => "DNS resolution failed: "@ + d@,
        NetworkError::Ping(d) => "Ping failed: "@ + d@,
        NetworkError::Tcp(d) => "TCP connection failed: "@ + d@,
        NetworkError::Http(d) => "HTTP request failed: "@ + d@,
        NetworkError::Traceroute(d) => "Traceroute failed: "@ + d@,
        NetworkError::Timeout(d) => "Timeout: "@ + d@,
        NetworkError::InvalidInput(d) => "Invalid input: "@ + d@,
        NetworkError::Other(d) => "Other error: "@ + d@,
    }
}

impl NetworkError {
    /// Render the error as its message line.
    pub fn message(&self) -> (r: String)
        ensures
            r@ == spec_message(*self),
    {
        match self {
            NetworkError::Io(d) => String::from_str("IO error: ").concat(d.as_str()),
            NetworkError::Dns(d) => String::from_str("DNS resolution failed: ").concat(d.as_str()),
            NetworkError::Ping(d) => String::from_str("Ping failed: ").concat(d.as_str()),
            NetworkError::Tcp(d) => String::from_str("TCP connection failed: ").concat(d.as_str()),
            NetworkError::Http(d) => String::from_str("HTTP request failed: ").concat(d.as_str()),
            NetworkError::Traceroute(d) => String::from_str("Traceroute failed: ").concat(
                d.as_str(),
            ),
            NetworkError::Timeout(d) => String::from_str("Timeout: ").concat(d.as_str()),
            NetworkError::InvalidInput(d) => String::from_str("Invalid input: ").concat(d.as_str()),
            NetworkError::Other(d) => String::from_str("Other error: ").concat(d.as_str()),
        }
    }
}

} // verus!
