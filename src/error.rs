use vstd::prelude::*;

verus! {

/// The ways in which serving one request can fail.
#[derive(Clone, Copy, Debug, PartialEq, Eq, Structural)]
pub enum ProxyError {
    /// The CONNECT target is missing or is not `host:port`.
    InvalidTarget,
    /// The connection could not be switched to a raw byte stream.
    UpgradeError,
    /// The upstream TCP connect failed.
    DialError,
    /// Reading or writing a tunnel stream failed.
    IoError,
    /// The upstream HTTP request failed.
    UpstreamError,
}

} // verus!
