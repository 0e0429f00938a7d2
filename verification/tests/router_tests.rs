use proxy_router::lb::{HostRewrite, LoadBalancer, UpstreamAddress};
use proxy_router::router::{split_segments, str_eq, MatchEntry, PatSeg, ProxyRouter};

fn upstream(host: &str, port: u16) -> UpstreamAddress {
    UpstreamAddress {
        host: host.to_string(),
        port,
    }
}

fn plain_lb(hosts: &[&str]) -> LoadBalancer {
    let ups = hosts.iter().map(|h| upstream(h, 80)).collect();
    LoadBalancer::new(ups, None, None, HostRewrite::PassThrough).unwrap()
}

fn rule(host: Option<&str>, pattern: Vec<PatSeg>, hosts: &[&str]) -> ProxyRouter {
    ProxyRouter {
        host: host.map(|h| h.to_string()),
        pattern,
        lb: plain_lb(hosts),
    }
}

#[test]
fn split_handles_leading_slash_and_empty_runs() {
    let segs = split_segments("/users/42");
    assert_eq!(segs, vec!["users".to_string(), "42".to_string()]);
    let segs = split_segments("a/b");
    assert_eq!(segs, vec!["a".to_string(), "b".to_string()]);
    let segs = split_segments("/a//b/");
    assert_eq!(
        segs,
        vec![
            "a".to_string(),
            "".to_string(),
            "b".to_string(),
            "".to_string()
        ]
    );
    assert_eq!(split_segments(""), vec!["".to_string()]);
    assert_eq!(split_segments("/"), vec!["".to_string()]);
}

#[test]
fn str_eq_compares_contents() {
    assert!(str_eq("abc", "abc"));
    assert!(!str_eq("abc", "abd"));
    assert!(!str_eq("abc", "ab"));
    assert!(str_eq("", ""));
}

#[test]
fn literal_rule_matches_and_captures_nothing() {
    let mut m = MatchEntry::new();
    m.add_router(rule(
        None,
        vec![
            PatSeg::Lit("api".to_string()),
            PatSeg::Lit("health".to_string()),
        ],
        &["backend"],
    ));
    let (params, idx) = m.match_request("any.example", "/api/health").unwrap();
    assert_eq!(idx, 0);
    assert!(params.is_empty());
}

#[test]
fn parameter_segments_are_captured_in_order() {
    let mut m = MatchEntry::new();
    m.add_router(rule(
        None,
        vec![
            PatSeg::Lit("users".to_string()),
            PatSeg::Param("id".to_string()),
            PatSeg::Param("field".to_string()),
        ],
        &["backend"],
    ));
    let (params, idx) = m.match_request("h", "/users/42/name").unwrap();
    assert_eq!(idx, 0);
    assert_eq!(
        params,
        vec![
            ("id".to_string(), "42".to_string()),
            ("field".to_string(), "name".to_string())
        ]
    );
}

#[test]
fn no_rule_matches_yields_none() {
    let mut m = MatchEntry::new();
    m.add_router(rule(
        None,
        vec![PatSeg::Lit("api".to_string())],
        &["backend"],
    ));
    assert!(m.match_request("h", "/other").is_none());
    // Differing segment counts never match.
    assert!(m.match_request("h", "/api/extra").is_none());
}

#[test]
fn first_matching_rule_wins() {
    let mut m = MatchEntry::new();
    m.add_router(rule(
        Some("a.example"),
        vec![PatSeg::Lit("x".to_string())],
        &["first"],
    ));
    m.add_router(rule(None, vec![PatSeg::Lit("x".to_string())], &["second"]));
    // Host predicate of rule 0 rejects, so rule 1 matches.
    let (_, idx) = m.match_request("b.example", "/x").unwrap();
    assert_eq!(idx, 1);
    // Both rules accept; the earlier registration wins.
    let (_, idx) = m.match_request("a.example", "/x").unwrap();
    assert_eq!(idx, 0);
}

#[test]
fn host_predicate_requires_exact_host() {
    let mut m = MatchEntry::new();
    m.add_router(rule(
        Some("only.example"),
        vec![PatSeg::Lit("p".to_string())],
        &["b"],
    ));
    assert!(m.match_request("other.example", "/p").is_none());
    assert!(m.match_request("only.example", "/p").is_some());
}
