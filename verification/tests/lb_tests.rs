use proxy_router::lb::{HostRewrite, LoadBalancer, UpstreamAddress};
use proxy_router::ProxyError;

fn upstream(host: &str, port: u16) -> UpstreamAddress {
    UpstreamAddress {
        host: host.to_string(),
        port,
    }
}

fn lb_of(hosts: &[&str]) -> LoadBalancer {
    let ups = hosts.iter().map(|h| upstream(h, 80)).collect();
    LoadBalancer::new(ups, None, None, HostRewrite::PassThrough).unwrap()
}

#[test]
fn round_robin_cycles_without_repeats() {
    let mut lb = lb_of(&["a", "b", "c"]);
    let mut seen = Vec::new();
    for _ in 0..7 {
        seen.push(lb.select_peer().unwrap().host);
    }
    assert_eq!(seen, vec!["a", "b", "c", "a", "b", "c", "a"]);
}

#[test]
fn round_robin_counts_are_near_uniform() {
    // 7 selections over 3 upstreams: each host is picked 7/3 = 2 times,
    // or 3 for the first 7 % 3 = 1 of them.
    let mut lb = lb_of(&["a", "b", "c"]);
    let mut counts = [0usize; 3];
    for _ in 0..7 {
        let host = lb.select_peer().unwrap().host;
        let idx = ["a", "b", "c"].iter().position(|h| *h == host).unwrap();
        counts[idx] += 1;
    }
    assert_eq!(counts, [3, 2, 2]);
}

#[test]
fn single_upstream_is_always_selected() {
    let mut lb = lb_of(&["only"]);
    for _ in 0..5 {
        assert_eq!(lb.select_peer().unwrap().host, "only");
    }
}

#[test]
fn empty_set_reports_no_healthy_upstream() {
    let mut lb = lb_of(&[]);
    assert_eq!(lb.select_peer().unwrap_err(), ProxyError::NoHealthyUpstream);
}

#[test]
fn selection_stays_in_own_set() {
    let hosts = ["x", "y"];
    let mut lb = lb_of(&hosts);
    for _ in 0..6 {
        let got = lb.select_peer().unwrap().host;
        assert!(hosts.iter().any(|h| *h == got));
    }
}

#[test]
fn update_swaps_the_whole_set() {
    let mut lb = lb_of(&["old1", "old2"]);
    assert_eq!(lb.select_peer().unwrap().host, "old1");
    assert!(lb.update_upstreams(vec![upstream("new1", 81)]));
    for _ in 0..3 {
        let u = lb.select_peer().unwrap();
        assert_eq!(u.host, "new1");
        assert_eq!(u.port, 81);
    }
}

#[test]
fn update_rejects_a_host_no_header_can_carry() {
    let mut lb = lb_of(&["good"]);
    assert!(!lb.update_upstreams(vec![upstream("bad\nhost", 80)]));
    // The balancer still serves the old set.
    assert_eq!(lb.select_peer().unwrap().host, "good");
}

#[test]
fn construction_rejects_invalid_static_override() {
    let r = LoadBalancer::new(
        vec![upstream("b", 80)],
        None,
        None,
        HostRewrite::StaticOverride("bad\u{7f}value".to_string()),
    );
    assert!(r.is_none());
}

#[test]
fn getters_expose_the_budgets() {
    let lb = LoadBalancer::new(
        vec![upstream("b", 80)],
        Some(2),
        Some(5),
        HostRewrite::PassThrough,
    )
    .unwrap();
    assert_eq!(lb.get_retries(), Some(2));
    assert_eq!(lb.get_retry_timeout(), Some(5));
}
