//! How a service reaches another service: client-side load balancing of gRPC over a
//! headless Service.
//!
//! gRPC holds one long-lived connection, and an ordinary Service balances when a
//! connection is made, so all requests of a client reach one pod. A headless
//! Service has a DNS name that resolves to every pod, and the client balances
//! across them itself. This library decides what such a client does: what it dials
//! at the start ([`connect`]), what it gives its balancer as the answers of the
//! resolver change ([`diff`], [`resolve`]), how a connection is encrypted and its
//! peer verified ([`tls`]), and what an operator is told ([`error`],
//! [`UPSTREAM_NEVER_RESOLVED`]).
//!
//! The library reads no file, asks no resolver and sends nothing. Where a dial
//! needs that, it says so in its state, and goes on with what came of it.
//!
//! - Nothing fails because an upstream is not there yet. Until an address resolves
//!   the balancer holds the name, and once addresses are in, the name goes.
//! - An answer without addresses removes nothing, and neither does one of which no
//!   address can be dialled.
//! - A mistake in the configuration is an error before a channel exists, and never
//!   a connection in cleartext.
//! - The peer's certificate is verified against the host that was asked for, not
//!   against the address that is dialled.

use std::time::Duration;

use vstd::prelude::*;

pub mod address;
pub mod connect;
pub mod diff;
pub mod endpoint;
pub mod error;
pub mod laws;
pub mod messages;
pub mod pki;
pub mod resolve;
pub mod system;
pub mod text;
pub mod tls;
pub mod transport;

pub use address::{AddressSet, SocketAddr};
pub use connect::{
    connect, connect_tls, connect_tls_with_request_timeout, connect_with,
    connect_with_request_timeout, Boot, Connecting, Launch, Preparing,
};
pub use diff::{diff, Change};
pub use endpoint::{authority, endpoint, Peer};
pub use error::BalanceError;
pub use resolve::{
    bounded_lookup, lookup_target, refresh, resolve_timeout, still_absent, Absence, Asleep,
    Building, Dial, Level, Lookup, Next, Resolving, Sending, Step, Target,
};
pub use tls::{Preparation, Reading, TlsOptions};

use crate::system::{lasts, seconds};

verus! {

/// The gauge that says of an upstream that this process dials it and has never had
/// an address for it.
///
/// It is 1 while the dial is alive and the balancer has been given no address, and
/// 0 otherwise. It does not say that the upstream cannot be reached now: once an
/// address was given, the balancer is never left without one, and the gauge stays 0.
/// It is written on the healthy paths too, since a series that does not exist cannot
/// be compared with zero.
///
/// Dashboards and alerts name it, so its spelling is fixed.
pub const UPSTREAM_NEVER_RESOLVED: &'static str = "yadgar_dial_upstream_never_resolved";

/// The label that says which upstream a series of [`UPSTREAM_NEVER_RESOLVED`] is
/// about.
pub const UPSTREAM_LABEL: &'static str = "upstream";

/// How often the endpoint set is resolved again, in seconds.
pub const RERESOLVE_SECS: u64 = 5;

/// How long one phase of establishing a connection may take, in seconds.
pub const CONNECT_TIMEOUT_SECS: u64 = 2;

/// How long one request may take, in seconds, unless the caller says otherwise.
pub const REQUEST_TIMEOUT_SECS: u64 = 30;

/// How long one resolution may take, in seconds, before it is given up.
pub const RESOLVE_TIMEOUT_SECS: u64 = 5;

/// The interval at which endpoints are resolved again.
pub fn reresolve_interval() -> (res: Duration)
    ensures
        res == seconds(RERESOLVE_SECS),
        lasts(res, RERESOLVE_SECS),
{
    Duration::from_secs(RERESOLVE_SECS)
}

/// The bound on a request where the caller names none.
pub fn default_request_timeout() -> (res: Duration)
    ensures
        res == seconds(REQUEST_TIMEOUT_SECS),
        lasts(res, REQUEST_TIMEOUT_SECS),
{
    Duration::from_secs(REQUEST_TIMEOUT_SECS)
}

} // verus!
