//! Request-routing and failover-policy core of a reverse proxy.
//!
//! Given an inbound request's metadata, the library matches it to a
//! configured routing rule, selects an upstream peer through that rule's
//! load balancer, decides how the outbound Host header is rewritten, and
//! decides whether a failed connection attempt may be retried within the
//! rule's attempt and wall-clock budgets.

use vstd::prelude::*;

pub mod lb;
pub mod router;
pub mod pingora;
pub mod proxy;
pub mod retry;

verus! {

/// Terminal failure classes of the routing core.
#[derive(Clone, Copy, Debug, PartialEq, Eq, Structural)]
pub enum ProxyError {
    /// No configured rule matched the request; surfaced as an HTTP 404.
    NotFound,
    /// The matched rule's upstream candidate set is empty; surfaced as a 5xx.
    NoHealthyUpstream,
    /// A selected peer could not be connected to; the only class that the
    /// retry decision may convert into another attempt.
    UpstreamConnectFailure,
    /// Peer selection or rewrite ran without a prior successful match: a
    /// sequencing violation in the calling engine, reported, not a crash.
    RoutingUnavailable,
    /// The outbound header map refused the Host entry: it already stands
    /// at the HTTP library's hard size cap.  Surfaced as an error so the
    /// request never leaves with a missing Host header.
    HostRewriteFailed,
}

} // verus!
