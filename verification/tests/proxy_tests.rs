use pingora_error::{Error, ErrorType};
use pingora_http::RequestHeader;
use proxy_router::lb::{HostRewrite, LoadBalancer, UpstreamAddress};
use proxy_router::lb::{host_port_string, u16_to_dec};
use proxy_router::proxy::{now, ProxyContext, ProxyService};
use proxy_router::router::{PatSeg, ProxyRouter};
use proxy_router::retry::RetryDecision;
use proxy_router::ProxyError;

fn upstream(host: &str, port: u16) -> UpstreamAddress {
    UpstreamAddress {
        host: host.to_string(),
        port,
    }
}

fn service_with(
    pattern: Vec<PatSeg>,
    hosts: &[(&str, u16)],
    max_retries: Option<usize>,
    retry_timeout_seconds: Option<u64>,
    host_rewrite: HostRewrite,
) -> ProxyService {
    let ups = hosts.iter().map(|(h, p)| upstream(h, *p)).collect();
    let lb = LoadBalancer::new(ups, max_retries, retry_timeout_seconds, host_rewrite).unwrap();
    let mut s = ProxyService::new();
    s.matcher.add_router(ProxyRouter {
        host: None,
        pattern,
        lb,
    });
    s
}

fn matched_ctx(s: &ProxyService, host: &str, path: &str) -> ProxyContext {
    let mut ctx = s.new_ctx();
    assert_eq!(s.request_filter(host, path, &mut ctx), Ok(false));
    ctx
}

#[test]
fn fresh_context_has_nothing_matched() {
    let s = ProxyService::new();
    let ctx = s.new_ctx();
    assert!(ctx.router.is_none());
    assert!(ctx.router_params.is_empty());
    assert!(ctx.selected_peer.is_none());
    assert_eq!(ctx.tries, 0);
    let d = ProxyContext::default();
    assert!(d.router.is_none());
    assert_eq!(d.tries, 0);
}

#[test]
fn clock_reads_a_positive_time() {
    assert!(now() > 0);
}

#[test]
fn unmatched_request_fails_not_found_before_any_selection() {
    let s = service_with(
        vec![PatSeg::Lit("api".to_string())],
        &[("b", 80)],
        None,
        None,
        HostRewrite::PassThrough,
    );
    let mut ctx = s.new_ctx();
    assert_eq!(
        s.request_filter("h", "/nope", &mut ctx),
        Err(ProxyError::NotFound)
    );
    assert!(ctx.router.is_none());
    assert!(ctx.selected_peer.is_none());
}

#[test]
fn matched_request_records_rule_and_params() {
    let s = service_with(
        vec![
            PatSeg::Lit("users".to_string()),
            PatSeg::Param("id".to_string()),
        ],
        &[("b", 80)],
        None,
        None,
        HostRewrite::PassThrough,
    );
    let ctx = matched_ctx(&s, "h", "/users/7");
    assert_eq!(ctx.router, Some(0));
    assert_eq!(ctx.router_params, vec![("id".to_string(), "7".to_string())]);
}

#[test]
fn peer_selection_needs_a_matched_rule() {
    let mut s = service_with(
        vec![PatSeg::Lit("x".to_string())],
        &[("b", 80)],
        None,
        None,
        HostRewrite::PassThrough,
    );
    let mut ctx = s.new_ctx();
    assert_eq!(
        s.upstream_peer(&mut ctx).unwrap_err(),
        ProxyError::RoutingUnavailable
    );
}

#[test]
fn peer_selection_round_robins_the_matched_rule() {
    let mut s = service_with(
        vec![PatSeg::Lit("x".to_string())],
        &[("b1", 81), ("b2", 82)],
        None,
        None,
        HostRewrite::PassThrough,
    );
    let mut ctx = matched_ctx(&s, "h", "/x");
    let u = s.upstream_peer(&mut ctx).unwrap();
    assert_eq!((u.host.as_str(), u.port), ("b1", 81));
    assert_eq!(ctx.selected_peer.as_ref().unwrap().host, "b1");
    let u = s.upstream_peer(&mut ctx).unwrap();
    assert_eq!((u.host.as_str(), u.port), ("b2", 82));
    let u = s.upstream_peer(&mut ctx).unwrap();
    assert_eq!((u.host.as_str(), u.port), ("b1", 81));
}

#[test]
fn empty_upstream_set_is_a_selection_failure() {
    let mut s = service_with(
        vec![PatSeg::Lit("x".to_string())],
        &[],
        None,
        None,
        HostRewrite::PassThrough,
    );
    let mut ctx = matched_ctx(&s, "h", "/x");
    assert_eq!(
        s.upstream_peer(&mut ctx).unwrap_err(),
        ProxyError::NoHealthyUpstream
    );
}

#[test]
fn connect_failure_with_budget_marks_error_retryable() {
    let s = service_with(
        vec![PatSeg::Lit("x".to_string())],
        &[("b", 80)],
        Some(2),
        None,
        HostRewrite::PassThrough,
    );
    let mut ctx = matched_ctx(&s, "h", "/x");
    let created = ctx.created_at;
    let e = Error::new(ErrorType::ConnectError);
    assert!(!e.retry());
    let e = s.fail_to_connect(&mut ctx, created, e);
    assert!(e.retry());
    assert_eq!(ctx.tries, 1);
    // The caller's own error came back: only the retry mark changed.
    assert!(matches!(e.etype, ErrorType::ConnectError));
    let e = s.fail_to_connect(&mut ctx, created, e);
    assert!(e.retry());
    assert_eq!(ctx.tries, 2);
    // Third failure: both retries spent, the error comes back terminal.
    let e = Error::new(ErrorType::ConnectError);
    let e = s.fail_to_connect(&mut ctx, created, e);
    assert!(!e.retry());
    assert_eq!(ctx.tries, 2);
}

#[test]
fn connect_failure_without_policy_is_terminal() {
    let s = service_with(
        vec![PatSeg::Lit("x".to_string())],
        &[("b", 80)],
        None,
        None,
        HostRewrite::PassThrough,
    );
    let mut ctx = matched_ctx(&s, "h", "/x");
    let created = ctx.created_at;
    let e = Error::new(ErrorType::ConnectError);
    let e = s.fail_to_connect(&mut ctx, created, e);
    assert!(!e.retry());
    assert_eq!(ctx.tries, 0);
}

#[test]
fn connect_failure_past_time_budget_is_terminal() {
    let s = service_with(
        vec![PatSeg::Lit("x".to_string())],
        &[("b", 80)],
        Some(5),
        Some(5),
        HostRewrite::PassThrough,
    );
    let mut ctx = matched_ctx(&s, "h", "/x");
    let created = ctx.created_at;
    let d = s.connect_failure_decision(&mut ctx, created + 5_001);
    assert_eq!(d, RetryDecision::ExhaustedTime);
    assert_eq!(ctx.tries, 0);
    let d = s.connect_failure_decision(&mut ctx, created + 5_000);
    assert_eq!(d, RetryDecision::Retry);
    assert_eq!(ctx.tries, 1);
}

#[test]
fn static_override_replaces_client_host_on_every_attempt() {
    let s = service_with(
        vec![PatSeg::Lit("x".to_string())],
        &[("b", 80)],
        Some(1),
        None,
        HostRewrite::StaticOverride("override.example".to_string()),
    );
    let mut ctx = matched_ctx(&s, "h", "/x");
    let mut req = RequestHeader::build("GET", b"/x", None).unwrap();
    req.insert_header("Host", "client.example").unwrap();
    assert_eq!(s.upstream_request_filter(&mut req, &ctx), Ok(()));
    assert_eq!(req.headers.get("host").unwrap(), "override.example");
    // Only the header map was touched.
    assert_eq!(req.method, http::Method::GET);
    assert_eq!(req.uri.path(), "/x");
    // A retried attempt rewrites again, to the same configured value.
    req.insert_header("Host", "client-again.example").unwrap();
    let created = ctx.created_at;
    let _ = s.connect_failure_decision(&mut ctx, created);
    assert_eq!(s.upstream_request_filter(&mut req, &ctx), Ok(()));
    assert_eq!(req.headers.get("host").unwrap(), "override.example");
}

#[test]
fn pass_through_leaves_client_host_alone() {
    let s = service_with(
        vec![PatSeg::Lit("x".to_string())],
        &[("b", 80)],
        None,
        None,
        HostRewrite::PassThrough,
    );
    let ctx = matched_ctx(&s, "h", "/x");
    let mut req = RequestHeader::build("GET", b"/x", None).unwrap();
    req.insert_header("Host", "client.example").unwrap();
    assert_eq!(s.upstream_request_filter(&mut req, &ctx), Ok(()));
    assert_eq!(req.headers.get("host").unwrap(), "client.example");
}

#[test]
fn peer_derived_host_is_the_selected_address() {
    let mut s = service_with(
        vec![PatSeg::Lit("x".to_string())],
        &[("backend1", 8080)],
        None,
        None,
        HostRewrite::PeerDerived,
    );
    let mut ctx = matched_ctx(&s, "h", "/x");
    let mut req = RequestHeader::build("GET", b"/x", None).unwrap();
    // Rewrite before any selection is a sequencing violation.
    assert_eq!(
        s.upstream_request_filter(&mut req, &ctx),
        Err(ProxyError::RoutingUnavailable)
    );
    s.upstream_peer(&mut ctx).unwrap();
    assert_eq!(s.upstream_request_filter(&mut req, &ctx), Ok(()));
    assert_eq!(req.headers.get("host").unwrap(), "backend1:8080");
}

#[test]
fn override_collapses_repeated_host_headers_to_one() {
    let s = service_with(
        vec![PatSeg::Lit("x".to_string())],
        &[("b", 80)],
        None,
        None,
        HostRewrite::StaticOverride("only.example".to_string()),
    );
    let ctx = matched_ctx(&s, "h", "/x");
    let mut req = RequestHeader::build("GET", b"/x", None).unwrap();
    req.append_header("Host", "first.example").unwrap();
    req.append_header("Host", "second.example").unwrap();
    assert_eq!(s.upstream_request_filter(&mut req, &ctx), Ok(()));
    let values: Vec<_> = req.headers.get_all("host").iter().collect();
    assert_eq!(values.len(), 1);
    assert_eq!(values[0], "only.example");
}

#[test]
fn rewrite_reports_a_header_map_at_its_cap() {
    let s = service_with(
        vec![PatSeg::Lit("x".to_string())],
        &[("b", 80)],
        None,
        None,
        HostRewrite::StaticOverride("only.example".to_string()),
    );
    let ctx = matched_ctx(&s, "h", "/x");
    let mut req = RequestHeader::build("GET", b"/x", None).unwrap();
    // Fill the header map with distinct non-host names until it refuses
    // to grow past the http crate's hard size cap.
    for i in 0..40_000u32 {
        let name = format!("x-fill-{}", i);
        if req.append_header(name, "v").is_err() {
            break;
        }
    }
    // The rewrite cannot place a Host entry; that comes back as an error,
    // never as a silently missing header.
    assert_eq!(
        s.upstream_request_filter(&mut req, &ctx),
        Err(ProxyError::HostRewriteFailed)
    );
}

#[test]
fn rewrite_needs_a_matched_rule() {
    let s = ProxyService::new();
    let ctx = s.new_ctx();
    let mut req = RequestHeader::build("GET", b"/", None).unwrap();
    assert_eq!(
        s.upstream_request_filter(&mut req, &ctx),
        Err(ProxyError::RoutingUnavailable)
    );
}

#[test]
fn ports_format_in_decimal() {
    assert_eq!(u16_to_dec(0), "0");
    assert_eq!(u16_to_dec(7), "7");
    assert_eq!(u16_to_dec(8080), "8080");
    assert_eq!(u16_to_dec(65535), "65535");
    assert_eq!(host_port_string(&upstream("h.example", 443)), "h.example:443");
}
