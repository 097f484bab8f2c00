//! Decisions of a forward HTTP proxy with CONNECT tunnelling: which way a request
//! goes, what a tunnel target is, what the client is answered, and how a tunnel
//! relays bytes and is torn down.

pub mod connection;
pub mod error;
pub mod splice;
pub mod target;

pub use connection::{
    bad_target_response, dial_failed_response, is_connect, tunnel_established_response, upstream_failed_response,
    Action, Connection, Phase, ProxyResponse, STATUS_BAD_GATEWAY, STATUS_BAD_REQUEST, STATUS_OK,
};
pub use error::ProxyError;
pub use splice::{opposite, Side, Splice, SpliceAction};
pub use target::{resolve_target, TargetAddress};
