//! Proxy orchestrator: the per-request context and the lifecycle hooks the
//! connection-handling engine drives.
//!
//! Each hook is a plain function of the request's metadata and the
//! request's own context: the engine extracts host and path from the
//! inbound request, hands the outbound header and its error values in, and
//! enforces the returned decisions (a 404 for no matching rule, another
//! attempt for a retryable connect failure).

use vstd::prelude::*;

use crate::lb::{spec_host_port, HostRewrite, LoadBalancer, UpstreamAddress};
use crate::pingora::{
    mark_retryable, spec_error_body, spec_host_header, spec_request_line, spec_retry_flag,
    valid_header_value,
};
use crate::retry::{spec_retry_decision, RetryDecision};
use crate::router::{
    param_views, spec_params, spec_path_segments, spec_rule_matches, MatchEntry, ProxyRouter,
};
use crate::ProxyError;

verus! {

/// Per-request mutable state, created once per request and owned by it.
pub struct ProxyContext {
    /// Index of the matched rule in the service's rule table; `None` until
    /// a rule matched, and a request that stays `None` fails as not found.
    pub router: Option<usize>,
    /// Path parameters captured by the matched rule, in pattern order; a
    /// name occurring in several parameter segments keeps one pair per
    /// occurrence, the rightmost being the binding under a last-entry-wins
    /// reading.
    pub router_params: Vec<(String, String)>,
    /// The peer chosen by the latest selection, re-set on every attempt.
    pub selected_peer: Option<UpstreamAddress>,
    /// Retry attempt counter; starts at 0 and only ever grows by one per
    /// retry decision.
    pub tries: usize,
    /// Wall-clock milliseconds at context creation, captured exactly once.
    pub created_at: u64,
}

impl ProxyContext {
    /// The state of a context no hook has touched: nothing matched,
    /// nothing captured, nothing selected, no retry spent.
    pub open spec fn fresh(self) -> bool {
        &&& self.router is None
        &&& self.router_params@.len() == 0
        &&& self.selected_peer is None
        &&& self.tries == 0
    }

    /// Any peer recorded in the context can be written into a Host header;
    /// selection establishes this from the balancer's own invariant.
    pub open spec fn wf(self) -> bool {
        match self.selected_peer {
            Option::Some(p) => valid_header_value(p.host@),
            Option::None => true,
        }
    }

    /// A fresh context with the given creation timestamp.
    pub fn with_created_at(now_ms: u64) -> (ctx: ProxyContext)
        ensures
            ctx.fresh(),
            ctx.wf(),
            ctx.created_at == now_ms,
    {
        ProxyContext {
            router: None,
            router_params: Vec::new(),
            selected_peer: None,
            tries: 0,
            created_at: now_ms,
        }
    }
}

impl Default for ProxyContext {
    /// A fresh context stamped with the current wall clock.
    fn default() -> (ctx: Self)
        ensures
            ctx.fresh(),
            ctx.wf(),
    {
        ProxyContext::with_created_at(now())
    }
}

/// Relies on `std::time::SystemTime::now`: the system clock, read as
/// whole milliseconds since the Unix epoch, or `None` when the clock
/// reads before the epoch.  The result depends on the wall clock, so
/// nothing is stated of it.
#[verifier::external_body]
fn system_clock_ms() -> (r: Option<u64>) {
    std::time::SystemTime::now()
        .duration_since(std::time::UNIX_EPOCH)
        .ok()
        .map(|d| d.as_millis() as u64)
}

/// Milliseconds of wall clock since the Unix epoch; a clock that reads
/// before the epoch counts as the epoch itself.
pub fn now() -> (ms: u64) {
    match system_clock_ms() {
        Some(ms) => ms,
        None => 0,
    }
}

/// The routing service: the rule table and the hooks around it.
pub struct ProxyService {
    /// The ordered rule table requests are matched against.
    pub matcher: MatchEntry,
}

impl Default for ProxyService {
    /// A service with an empty rule table.
    fn default() -> (s: Self)
        ensures
            s.matcher.routers@.len() == 0,
            s.wf(),
    {
        ProxyService::new()
    }
}

impl ProxyService {
    /// Every rule's load balancer is well formed.
    pub open spec fn wf(&self) -> bool {
        self.matcher.wf()
    }

    /// A service with an empty rule table.
    pub fn new() -> (s: ProxyService)
        ensures
            s.matcher.routers@.len() == 0,
            s.wf(),
    {
        ProxyService { matcher: MatchEntry::new() }
    }

    /// Creates the context for a new request, stamped with the current
    /// wall clock.
    pub fn new_ctx(&self) -> (ctx: ProxyContext)
        ensures
            ctx.fresh(),
            ctx.wf(),
    {
        ProxyContext::with_created_at(now())
    }

    /// Matches the request against the rule table.  On the first matching
    /// rule the context records the rule and its captured parameters and
    /// processing continues; when no rule matches, the request fails as
    /// `NotFound` before any upstream work, and the context is untouched.
    pub fn request_filter(&self, host: &str, path: &str, ctx: &mut ProxyContext) -> (r: Result<
        bool,
        ProxyError,
    >)
        ensures
            r is Err <==> (forall|i: int|
                0 <= i < self.matcher.routers@.len() ==> !spec_rule_matches(
                    #[trigger] self.matcher.routers@[i],
                    host@,
                    path@,
                )),
            r matches Err(e) ==> e == ProxyError::NotFound && *final(ctx) == *old(ctx),
            r matches Ok(b) ==> {
                &&& b == false
                &&& final(ctx).router matches Some(idx)
                &&& 0 <= final(ctx).router->0 < self.matcher.routers@.len()
                &&& spec_rule_matches(
                    self.matcher.routers@[final(ctx).router->0 as int],
                    host@,
                    path@,
                )
                &&& forall|j: int|
                    0 <= j < final(ctx).router->0 ==> !spec_rule_matches(
                        #[trigger] self.matcher.routers@[j],
                        host@,
                        path@,
                    )
                &&& param_views(final(ctx).router_params@) == spec_params(
                    self.matcher.routers@[final(ctx).router->0 as int].pattern@,
                    spec_path_segments(path@),
                )
            },
            final(ctx).tries == old(ctx).tries,
            final(ctx).created_at == old(ctx).created_at,
            final(ctx).selected_peer == old(ctx).selected_peer,
            final(ctx).wf() == old(ctx).wf(),
    {
        match self.matcher.match_request(host, path) {
            Some((params, idx)) => {
                ctx.router_params = params;
                ctx.router = Some(idx);
                Ok(false)
            },
            None => Err(ProxyError::NotFound),
        }
    }

    /// Selects an upstream peer for the next attempt through the matched
    /// rule's load balancer, recording it in the context; defensively
    /// fails with `RoutingUnavailable` when no rule was matched.
    pub fn upstream_peer(&mut self, ctx: &mut ProxyContext) -> (r: Result<
        UpstreamAddress,
        ProxyError,
    >)
        requires
            old(self).wf(),
            old(ctx).wf(),
        ensures
            final(self).wf(),
            final(ctx).wf(),
            final(ctx).router == old(ctx).router,
            final(ctx).router_params == old(ctx).router_params,
            final(ctx).tries == old(ctx).tries,
            final(ctx).created_at == old(ctx).created_at,
            r is Err ==> *final(self) == *old(self) && *final(ctx) == *old(ctx),
            match old(ctx).router {
                Option::None => r matches Err(e) && e == ProxyError::RoutingUnavailable,
                Option::Some(idx) => {
                    if idx >= old(self).matcher.routers@.len() {
                        r matches Err(e) && e == ProxyError::RoutingUnavailable
                    } else {
                        let lb0 = old(self).matcher.routers@[idx as int].lb;
                        if lb0.upstreams@.len() == 0 {
                            r matches Err(e) && e == ProxyError::NoHealthyUpstream
                        } else {
                            r matches Ok(u) && {
                                &&& u@ == lb0.upstream_views()[lb0.cursor as int % lb0.upstreams@.len() as int]
                                &&& exists|k: int|
                                    0 <= k < lb0.upstreams@.len() && u@ == lb0.upstream_views()[k]
                                &&& final(self).matcher.routers@ == old(self).matcher.routers@.update(
                                    idx as int,
                                    ProxyRouter {
                                        lb: LoadBalancer {
                                            cursor: ((lb0.cursor as int + 1) % (
                                            lb0.upstreams@.len() as int)) as usize,
                                            ..lb0
                                        },
                                        ..old(self).matcher.routers@[idx as int]
                                    },
                                )
                                &&& final(ctx).selected_peer matches Some(p) && p@ == u@
                            }
                        }
                    }
                },
            },
    {
        let idx = match ctx.router {
            Some(i) => i,
            None => {
                return Err(ProxyError::RoutingUnavailable);
            },
        };
        if idx >= self.matcher.routers.len() {
            return Err(ProxyError::RoutingUnavailable);
        }
        if self.matcher.routers[idx].lb.upstreams.len() == 0 {
            return Err(ProxyError::NoHealthyUpstream);
        }
        let rtr = &mut self.matcher.routers[idx];
        let picked = rtr.lb.select_peer();
        match picked {
            Ok(u) => {
                proof {
                    let lb0 = old(self).matcher.routers@[idx as int].lb;
                    assert(final(rtr).lb.upstreams == lb0.upstreams);
                    assert forall|i: int|
                        0 <= i < self.matcher.routers@.len() implies (
                    #[trigger] self.matcher.routers@[i].lb).wf() by {
                        if i != idx {
                            assert(self.matcher.routers@[i] == old(self).matcher.routers@[i]);
                        }
                    }
                    let k = choose|k: int|
                        0 <= k < lb0.upstreams@.len() && u@ == lb0.upstream_views()[k];
                    assert(u.host@ == lb0.upstreams@[k].host@);
                }
                let recorded = u.clone();
                ctx.selected_peer = Some(recorded);
                Ok(u)
            },
            Err(_) => {
                proof {
                    assert(false);
                }
                Err(ProxyError::NoHealthyUpstream)
            },
        }
    }

    /// The retry decision this request is owed at a connect failure: the
    /// matched rule's budgets run against the context's attempt counter
    /// and age; a request without a matched rule has no retry policy.
    pub open spec fn spec_ctx_decision(self, ctx: ProxyContext, now_ms: u64) -> RetryDecision {
        match ctx.router {
            Option::None => RetryDecision::NoRetryPolicy,
            Option::Some(idx) => if idx >= self.matcher.routers@.len() {
                RetryDecision::NoRetryPolicy
            } else {
                let lb = self.matcher.routers@[idx as int].lb;
                spec_retry_decision(
                    lb.max_retries,
                    lb.retry_timeout_seconds,
                    ctx.tries,
                    ctx.created_at,
                    now_ms,
                )
            },
        }
    }

    /// Runs the retry decision once for a failed connect attempt: exactly
    /// on a `Retry` decision the attempt counter grows by one; on every
    /// terminal decision the context is left untouched.
    pub fn connect_failure_decision(&self, ctx: &mut ProxyContext, now_ms: u64) -> (d:
        RetryDecision)
        ensures
            d == self.spec_ctx_decision(*old(ctx), now_ms),
            d is Retry ==> final(ctx).tries == old(ctx).tries + 1,
            !(d is Retry) ==> *final(ctx) == *old(ctx),
            final(ctx).router == old(ctx).router,
            final(ctx).router_params == old(ctx).router_params,
            final(ctx).selected_peer == old(ctx).selected_peer,
            final(ctx).created_at == old(ctx).created_at,
            final(ctx).wf() == old(ctx).wf(),
    {
        let idx = match ctx.router {
            Some(i) => i,
            None => {
                return RetryDecision::NoRetryPolicy;
            },
        };
        if idx >= self.matcher.routers.len() {
            return RetryDecision::NoRetryPolicy;
        }
        let lb = &self.matcher.routers[idx].lb;
        let d = crate::retry::decide_retry(
            lb.max_retries,
            lb.retry_timeout_seconds,
            ctx.tries,
            ctx.created_at,
            now_ms,
        );
        match d {
            RetryDecision::Retry => {
                ctx.tries = ctx.tries + 1;
            },
            _ => {},
        }
        d
    }

    /// The engine-facing connect-failure hook: hands back the engine's own
    /// error value, marked retryable exactly when the retry decision
    /// permits another attempt and altered in nothing but that mark; a
    /// terminal decision returns the error unchanged and leaves the
    /// context untouched.  No failure is dropped or replaced.
    pub fn fail_to_connect(
        &self,
        ctx: &mut ProxyContext,
        now_ms: u64,
        e: Box<pingora_error::Error>,
    ) -> (r: Box<pingora_error::Error>)
        ensures
            self.spec_ctx_decision(*old(ctx), now_ms) is Retry ==> {
                &&& spec_retry_flag(*r)
                &&& spec_error_body(*r) == spec_error_body(*e)
                &&& final(ctx).tries == old(ctx).tries + 1
            },
            !(self.spec_ctx_decision(*old(ctx), now_ms) is Retry) ==> r == e && *final(ctx)
                == *old(ctx),
            final(ctx).router == old(ctx).router,
            final(ctx).router_params == old(ctx).router_params,
            final(ctx).selected_peer == old(ctx).selected_peer,
            final(ctx).created_at == old(ctx).created_at,
            final(ctx).wf() == old(ctx).wf(),
    {
        let d = self.connect_failure_decision(ctx, now_ms);
        let mut out = e;
        match d {
            RetryDecision::Retry => {
                mark_retryable(&mut out);
            },
            _ => {},
        }
        out
    }

    /// Rewrites the outbound request's Host header per the matched rule's
    /// mode, once per attempt: pass-through leaves it alone,
    /// static-override writes the configured value, and peer-derived
    /// writes `host:port` of the peer selected for this attempt; for the
    /// writing modes the Host entry is present exactly on `Ok`, a header
    /// map at the HTTP library's size cap being surfaced as
    /// `HostRewriteFailed`.  Defensively fails with `RoutingUnavailable`
    /// when no rule was matched, or when peer-derived rewrite runs before
    /// a selection.  Only the header maps are touched: the request's
    /// method, target and version come through unchanged.
    pub fn upstream_request_filter(
        &self,
        upstream_request: &mut pingora_http::RequestHeader,
        ctx: &ProxyContext,
    ) -> (r: Result<(), ProxyError>)
        requires
            self.wf(),
            ctx.wf(),
        ensures
            match ctx.router {
                Option::None => r matches Err(e) && e == ProxyError::RoutingUnavailable
                    && spec_host_header(*final(upstream_request)) == spec_host_header(
                    *old(upstream_request),
                ),
                Option::Some(idx) => {
                    if idx >= self.matcher.routers@.len() {
                        r matches Err(e) && e == ProxyError::RoutingUnavailable
                            && spec_host_header(*final(upstream_request)) == spec_host_header(
                            *old(upstream_request),
                        )
                    } else {
                        match self.matcher.routers@[idx as int].lb.host_rewrite {
                            HostRewrite::PassThrough => r is Ok && spec_host_header(
                                *final(upstream_request),
                            ) == spec_host_header(*old(upstream_request)),
                            HostRewrite::StaticOverride(h) => {
                                &&& (r is Ok <==> spec_host_header(*final(upstream_request))
                                    == Some(h@))
                                &&& (r matches Err(e) ==> e == ProxyError::HostRewriteFailed
                                    && spec_host_header(*final(upstream_request)) is None)
                            },
                            HostRewrite::PeerDerived => match ctx.selected_peer {
                                Option::Some(p) => {
                                    &&& (r is Ok <==> spec_host_header(*final(upstream_request))
                                        == Some(spec_host_port(p@)))
                                    &&& (r matches Err(e) ==> e == ProxyError::HostRewriteFailed
                                        && spec_host_header(*final(upstream_request)) is None)
                                },
                                Option::None => r matches Err(e) && e
                                    == ProxyError::RoutingUnavailable && spec_host_header(
                                    *final(upstream_request),
                                ) == spec_host_header(*old(upstream_request)),
                            },
                        }
                    }
                },
            },
            spec_request_line(*final(upstream_request)) == spec_request_line(
                *old(upstream_request),
            ),
    {
        let idx = match ctx.router {
            Some(i) => i,
            None => {
                return Err(ProxyError::RoutingUnavailable);
            },
        };
        if idx >= self.matcher.routers.len() {
            return Err(ProxyError::RoutingUnavailable);
        }
        self.matcher.routers[idx].lb.upstream_host_rewrite(
            upstream_request,
            ctx.selected_peer.as_ref(),
        )
    }
}

} // verus!
