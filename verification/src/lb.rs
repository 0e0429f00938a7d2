//! Per-rule load balancer: the candidate upstream set, the round-robin
//! selection cursor, the retry budgets and the Host-rewrite mode.
//!
//! The upstream set holds the currently healthy candidates as supplied by
//! service discovery; `update_upstreams` replaces the whole set at once so
//! a selection sees either the old set or the new one, never a mix.
//!
//! Selection takes `&mut self`: one call is one atomic step of the cursor,
//! and the adapter that shares a balancer across concurrent requests
//! serializes those steps (behind a lock or an atomic cursor).  The
//! round-robin laws at the bottom of this module are stated over the
//! resulting sequence of steps, so they hold for any interleaving the
//! adapter serializes.

use vstd::prelude::*;

use crate::pingora::{set_host_header, spec_host_header, spec_request_line, valid_header_value};
use crate::ProxyError;

verus! {

/// One backend address the proxy may forward requests to.
#[derive(Debug)]
pub struct UpstreamAddress {
    pub host: String,
    pub port: u16,
}

impl View for UpstreamAddress {
    type V = (Seq<char>, u16);

    open spec fn view(&self) -> (Seq<char>, u16) {
        (self.host@, self.port)
    }
}

impl Clone for UpstreamAddress {
    fn clone(&self) -> (res: Self)
        ensures
            res@ == self@,
    {
        UpstreamAddress { host: self.host.clone(), port: self.port }
    }
}

/// How the outbound Host header is rewritten before each connection attempt.
pub enum HostRewrite {
    /// Leave the client-supplied Host header untouched.
    PassThrough,
    /// Replace the Host header with a fixed configured value.
    StaticOverride(String),
    /// Set the Host header to the address of the peer selected for this attempt.
    PeerDerived,
}

/// The load balancer bound to one routing rule.
pub struct LoadBalancer {
    /// Currently healthy upstream candidates, in selection order.
    pub upstreams: Vec<UpstreamAddress>,
    /// Round-robin cursor; the next selection picks `upstreams[cursor % len]`.
    pub cursor: usize,
    /// `None`: no retry policy configured, never retry.  `Some(0)`: explicitly
    /// zero retries.  The two must not collapse.
    pub max_retries: Option<usize>,
    /// Wall-clock retry budget in seconds, counted from context creation.
    pub retry_timeout_seconds: Option<u64>,
    /// Host-rewrite mode applied to every outbound attempt.
    pub host_rewrite: HostRewrite,
}

impl LoadBalancer {
    /// The addresses of the current upstream set, as plain values.
    pub open spec fn upstream_views(&self) -> Seq<(Seq<char>, u16)> {
        self.upstreams@.map_values(|u: UpstreamAddress| u@)
    }

    /// Every upstream host and any static override value lies in the ASCII
    /// range this library writes into a Host header.  This is stricter than
    /// the header rules demand (`http` also accepts non-ASCII bytes); the
    /// restriction keeps a written entry's bytes equal to its characters.
    pub open spec fn wf(&self) -> bool {
        &&& forall|i: int|
            0 <= i < self.upstreams@.len() ==> valid_header_value(#[trigger] self.upstreams@[i].host@)
        &&& match self.host_rewrite {
            HostRewrite::StaticOverride(h) => valid_header_value(h@),
            _ => true,
        }
    }

    /// Builds a load balancer after checking that every configured value
    /// lies in the ASCII range this library writes into a Host header;
    /// rejects the configuration otherwise.
    pub fn new(
        upstreams: Vec<UpstreamAddress>,
        max_retries: Option<usize>,
        retry_timeout_seconds: Option<u64>,
        host_rewrite: HostRewrite,
    ) -> (r: Option<LoadBalancer>)
        ensures
            r matches Some(lb) ==> {
                &&& lb.wf()
                &&& lb.upstreams == upstreams
                &&& lb.cursor == 0
                &&& lb.max_retries == max_retries
                &&& lb.retry_timeout_seconds == retry_timeout_seconds
                &&& lb.host_rewrite == host_rewrite
            },
            r is None ==> !(LoadBalancer {
                upstreams,
                cursor: 0,
                max_retries,
                retry_timeout_seconds,
                host_rewrite,
            }).wf(),
    {
        let mut i: usize = 0;
        while i < upstreams.len()
            invariant
                0 <= i <= upstreams@.len(),
                forall|j: int| 0 <= j < i ==> valid_header_value(#[trigger] upstreams@[j].host@),
            decreases upstreams@.len() - i,
        {
            if !crate::pingora::is_valid_header_value(upstreams[i].host.as_str()) {
                proof {
                    let bad = (LoadBalancer {
                        upstreams,
                        cursor: 0,
                        max_retries,
                        retry_timeout_seconds,
                        host_rewrite,
                    });
                    assert(bad.upstreams@[i as int].host@ == upstreams@[i as int].host@);
                    assert(!bad.wf());
                }
                return None;
            }
            i += 1;
        }
        match &host_rewrite {
            HostRewrite::StaticOverride(h) => {
                if !crate::pingora::is_valid_header_value(h.as_str()) {
                    return None;
                }
            },
            _ => {},
        }
        Some(LoadBalancer { upstreams, cursor: 0, max_retries, retry_timeout_seconds, host_rewrite })
    }

    /// Round-robin peer selection: picks `upstreams[cursor % len]` and then
    /// advances the cursor by one (wrapping at the set size), so `len`
    /// consecutive selections visit `len` distinct upstreams.  Fails exactly
    /// when the candidate set is empty; the selected address always comes
    /// from this balancer's own current upstream set.
    pub fn select_peer(&mut self) -> (r: Result<UpstreamAddress, ProxyError>)
        ensures
            r is Ok <==> old(self).upstreams@.len() > 0,
            r matches Err(e) ==> e == ProxyError::NoHealthyUpstream && *final(self) == *old(self),
            r matches Ok(u) ==> {
                &&& u@ == old(self).upstream_views()[old(self).cursor as int % old(self).upstreams@.len() as int]
                &&& exists|i: int|
                    0 <= i < old(self).upstreams@.len() && u@ == old(self).upstream_views()[i]
                &&& final(self).cursor == (old(self).cursor as int + 1) % (old(self).upstreams@.len() as int)
            },
            final(self).upstreams == old(self).upstreams,
            final(self).max_retries == old(self).max_retries,
            final(self).retry_timeout_seconds == old(self).retry_timeout_seconds,
            final(self).host_rewrite == old(self).host_rewrite,
    {
        let len = self.upstreams.len();
        if len == 0 {
            return Err(ProxyError::NoHealthyUpstream);
        }
        let idx = self.cursor % len;
        let chosen = self.upstreams[idx].clone();
        self.cursor = (self.cursor % len) + 1;
        if self.cursor == len {
            self.cursor = 0;
        }
        proof {
            let c = old(self).cursor as int;
            let m = len as int;
            assert(0 <= c % m < m) by {
                vstd::arithmetic::div_mod::lemma_mod_bound(c, m);
            }
            assert(chosen@ == old(self).upstream_views()[c % m]);
            if c % m + 1 < m {
                assert((c + 1) % m == c % m + 1) by {
                    vstd::arithmetic::div_mod::lemma_mod_add_multiples_vanish(c, m);
                    vstd::arithmetic::div_mod::lemma_small_mod((c % m + 1) as nat, m as nat);
                    vstd::arithmetic::div_mod::lemma_add_mod_noop(c, 1, m);
                    vstd::arithmetic::div_mod::lemma_small_mod(1nat, m as nat);
                }
            } else {
                assert(c % m + 1 == m);
                assert((c + 1) % m == 0) by {
                    vstd::arithmetic::div_mod::lemma_add_mod_noop(c, 1, m);
                    if m > 1 {
                        vstd::arithmetic::div_mod::lemma_small_mod(1nat, m as nat);
                    } else {
                        vstd::arithmetic::div_mod::lemma_mod_self_0(m);
                    }
                    vstd::arithmetic::div_mod::lemma_mod_self_0(m);
                }
            }
        }
        Ok(chosen)
    }

    /// Atomically replaces the upstream candidate set, as invoked by service
    /// discovery; rejects a set holding a host that cannot appear in a Host
    /// header, leaving the balancer unchanged.
    pub fn update_upstreams(&mut self, new_upstreams: Vec<UpstreamAddress>) -> (ok: bool)
        requires
            old(self).wf(),
        ensures
            final(self).wf(),
            ok ==> *final(self) == (LoadBalancer { upstreams: new_upstreams, ..*old(self) }),
            !ok ==> *final(self) == *old(self),
            ok <==> forall|i: int|
                0 <= i < new_upstreams@.len() ==> valid_header_value(
                    #[trigger] new_upstreams@[i].host@,
                ),
    {
        let mut i: usize = 0;
        while i < new_upstreams.len()
            invariant
                0 <= i <= new_upstreams@.len(),
                old(self).wf(),
                *self == *old(self),
                forall|j: int| 0 <= j < i ==> valid_header_value(#[trigger] new_upstreams@[j].host@),
            decreases new_upstreams@.len() - i,
        {
            if !crate::pingora::is_valid_header_value(new_upstreams[i].host.as_str()) {
                return false;
            }
            i += 1;
        }
        self.upstreams = new_upstreams;
        true
    }

    /// How many of the first `n` round-robin selections pick index `i`,
    /// starting from cursor `c0` over `m` unchanging upstreams.  One
    /// selection step is exactly what `select_peer` ensures: the k-th call
    /// picks `rr_pick(c0, k, m)` and leaves the cursor at
    /// `rr_cursor(c0, k + 1, m)`.
    pub open spec fn rr_count(c0: int, n: nat, m: int, i: int) -> int
        decreases n,
    {
        if n == 0 {
            0
        } else {
            Self::rr_count(c0, (n - 1) as nat, m, i) + if Self::rr_pick(
                c0,
                (n - 1) as nat,
                m,
            ) == i {
                1int
            } else {
                0int
            }
        }
    }

    /// The cursor after `k` selections from initial cursor `c0` over `m`
    /// upstreams, advancing as `select_peer` ensures.
    pub open spec fn rr_cursor(c0: int, k: nat, m: int) -> int
        decreases k,
    {
        if k == 0 {
            c0
        } else {
            (Self::rr_cursor(c0, (k - 1) as nat, m) + 1) % m
        }
    }

    /// The upstream index the k-th selection picks (counting from 0).
    pub open spec fn rr_pick(c0: int, k: nat, m: int) -> int {
        Self::rr_cursor(c0, k, m) % m
    }

    /// Rewrites the outbound request's Host header per this balancer's
    /// mode: pass-through leaves it alone, static-override writes the
    /// configured value, and peer-derived writes `host:port` of the peer
    /// selected for this attempt, failing defensively when no peer has
    /// been selected yet.  For the two writing modes the Host entry is
    /// present exactly when the call returns `Ok`: a header map already
    /// standing at the HTTP library's hard size cap refuses the entry,
    /// which comes back as `HostRewriteFailed` rather than a silently
    /// missing header.  Only the header maps are touched: the request's
    /// method, target and version come through unchanged.
    pub fn upstream_host_rewrite(
        &self,
        upstream_request: &mut pingora_http::RequestHeader,
        selected: Option<&UpstreamAddress>,
    ) -> (r: Result<(), ProxyError>)
        requires
            self.wf(),
            match selected {
                Option::Some(p) => valid_header_value(p.host@),
                Option::None => true,
            },
        ensures
            match self.host_rewrite {
                HostRewrite::PassThrough => r is Ok && spec_host_header(*final(upstream_request))
                    == spec_host_header(*old(upstream_request)),
                HostRewrite::StaticOverride(h) => {
                    &&& (r is Ok <==> spec_host_header(*final(upstream_request)) == Some(h@))
                    &&& (r matches Err(e) ==> e == ProxyError::HostRewriteFailed
                        && spec_host_header(*final(upstream_request)) is None)
                },
                HostRewrite::PeerDerived => match selected {
                    Option::Some(p) => {
                        &&& (r is Ok <==> spec_host_header(*final(upstream_request)) == Some(
                            spec_host_port(p@),
                        ))
                        &&& (r matches Err(e) ==> e == ProxyError::HostRewriteFailed
                            && spec_host_header(*final(upstream_request)) is None)
                    },
                    Option::None => r matches Err(e) && e == ProxyError::RoutingUnavailable
                        && spec_host_header(*final(upstream_request)) == spec_host_header(
                        *old(upstream_request),
                    ),
                },
            },
            spec_request_line(*final(upstream_request)) == spec_request_line(
                *old(upstream_request),
            ),
    {
        match &self.host_rewrite {
            HostRewrite::PassThrough => Ok(()),
            HostRewrite::StaticOverride(h) => {
                if set_host_header(upstream_request, h.as_str()) {
                    Ok(())
                } else {
                    Err(ProxyError::HostRewriteFailed)
                }
            },
            HostRewrite::PeerDerived => {
                match selected {
                    Some(p) => {
                        let hp = host_port_string(p);
                        if set_host_header(upstream_request, hp.as_str()) {
                            Ok(())
                        } else {
                            Err(ProxyError::HostRewriteFailed)
                        }
                    },
                    None => Err(ProxyError::RoutingUnavailable),
                }
            },
        }
    }

    /// The configured maximum number of retries, if a retry policy exists.
    pub fn get_retries(&self) -> (r: Option<usize>)
        ensures
            r == self.max_retries,
    {
        self.max_retries
    }

    /// The configured wall-clock retry budget in seconds, if any.
    pub fn get_retry_timeout(&self) -> (r: Option<u64>)
        ensures
            r == self.retry_timeout_seconds,
    {
        self.retry_timeout_seconds
    }
}

/// After the first selection the cursor stays in `[0, m)`, and from then
/// on the k-th selection picks residue `(c0 + k) % m`.
pub proof fn lemma_rr_cursor_closed(c0: int, k: nat, m: int)
    requires
        m > 0,
        c0 >= 0,
    ensures
        LoadBalancer::rr_cursor(c0, k, m) == if k == 0 {
            c0
        } else {
            (c0 + k) % m
        },
    decreases k,
{
    if k > 0 {
        lemma_rr_cursor_closed(c0, (k - 1) as nat, m);
        if k == 1 {
        } else {
            let prev = c0 + k - 1;
            vstd::arithmetic::div_mod::lemma_mod_bound(prev, m);
            vstd::arithmetic::div_mod::lemma_add_mod_noop(prev, 1, m);
            if m > 1 {
                vstd::arithmetic::div_mod::lemma_small_mod(1nat, m as nat);
            } else {
                vstd::arithmetic::div_mod::lemma_mod_bound(prev % m + 1, m);
                vstd::arithmetic::div_mod::lemma_mod_bound(c0 + k, m);
            }
        }
    }
}

/// Closed form of the selection sequence: the k-th selection picks
/// `(c0 + k) % m`.
pub proof fn lemma_rr_pick_closed(c0: int, k: nat, m: int)
    requires
        m > 0,
        c0 >= 0,
    ensures
        LoadBalancer::rr_pick(c0, k, m) == (c0 + k) % m,
{
    lemma_rr_cursor_closed(c0, k, m);
    if k > 0 {
        vstd::arithmetic::div_mod::lemma_mod_bound(c0 + k, m);
        vstd::arithmetic::div_mod::lemma_small_mod(((c0 + k) % m) as nat, m as nat);
    }
}

/// A selection picks index `i` exactly when its position agrees with
/// `i - c0` modulo the set size.
pub proof fn lemma_rr_pick_residue(c0: int, k: int, m: int, i: int)
    requires
        m > 0,
        c0 >= 0,
        k >= 0,
        0 <= i < m,
    ensures
        ((c0 + k) % m == i) <==> (k % m == (i - c0) % m),
{
    vstd::arithmetic::div_mod::lemma_small_mod(i as nat, m as nat);
    vstd::arithmetic::div_mod::lemma_mod_equivalence(c0 + k, i, m);
    vstd::arithmetic::div_mod::lemma_mod_equivalence(k, i - c0, m);
    assert(c0 + k - i == k - (i - c0));
}

/// Round-robin never repeats an upstream within a window of `m`
/// consecutive selections: any two distinct selections fewer than `m`
/// apart pick distinct indices.
pub proof fn lemma_rr_no_repeat(c0: int, m: int, k1: nat, k2: nat)
    requires
        m > 0,
        c0 >= 0,
        k1 < k2,
        k2 - k1 < m,
    ensures
        LoadBalancer::rr_pick(c0, k1, m) != LoadBalancer::rr_pick(c0, k2, m),
{
    lemma_rr_pick_closed(c0, k1, m);
    lemma_rr_pick_closed(c0, k2, m);
    if (c0 + k1) % m == (c0 + k2) % m {
        vstd::arithmetic::div_mod::lemma_mod_equivalence(c0 + k2, c0 + k1, m);
        vstd::arithmetic::div_mod::lemma_small_mod((k2 - k1) as nat, m as nat);
        assert((c0 + k2) - (c0 + k1) == k2 - k1);
        assert(false);
    }
}

/// Exactly how often `n` selections pick index `i`: `n / m` times, plus
/// one more when `i` falls among the first `n % m` indices of the cycle
/// the cursor is walking.
pub proof fn lemma_rr_count_exact(c0: int, n: nat, m: int, i: int)
    requires
        m > 0,
        c0 >= 0,
        0 <= i < m,
    ensures
        LoadBalancer::rr_count(c0, n, m, i) == (n as int) / m + if (i - c0) % m < (n as int)
            % m {
            1int
        } else {
            0int
        },
    decreases n,
{
    let dd = (i - c0) % m;
    vstd::arithmetic::div_mod::lemma_mod_bound(i - c0, m);
    if n == 0 {
        vstd::arithmetic::div_mod::lemma_basic_div(0, m);
        vstd::arithmetic::div_mod::lemma_small_mod(0nat, m as nat);
    } else {
        let prev = (n - 1) as nat;
        lemma_rr_count_exact(c0, prev, m, i);
        let q = (prev as int) / m;
        let r = (prev as int) % m;
        vstd::arithmetic::div_mod::lemma_mod_bound(prev as int, m);
        vstd::arithmetic::div_mod::lemma_fundamental_div_mod(prev as int, m);
        lemma_rr_pick_closed(c0, prev, m);
        lemma_rr_pick_residue(c0, prev as int, m, i);
        vstd::arithmetic::div_mod::lemma_small_mod(r as nat, m as nat);
        assert(prev as int == m * q + r);
        if r + 1 < m {
            assert(q * m == m * q) by (nonlinear_arith);
            assert(n as int == q * m + (r + 1));
            vstd::arithmetic::div_mod::lemma_fundamental_div_mod_converse(n as int, m, q, r + 1);
        } else {
            assert((q + 1) * m + 0 == m * q + m) by (nonlinear_arith);
            assert(n as int == (q + 1) * m + 0);
            vstd::arithmetic::div_mod::lemma_fundamental_div_mod_converse(n as int, m, q + 1, 0);
        }
    }
}

/// Near-uniform distribution of round-robin: over `n` selections from
/// `m >= 1` unchanging upstreams, each index is picked either
/// `n / m` (rounded down) or one more time, and exactly `n / m` times
/// when `m` divides `n`.
pub proof fn lemma_rr_balanced(c0: int, n: nat, m: int, i: int)
    requires
        m > 0,
        c0 >= 0,
        0 <= i < m,
    ensures
        (n as int) / m <= LoadBalancer::rr_count(c0, n, m, i) <= (n as int) / m + 1,
        (n as int) % m == 0 ==> LoadBalancer::rr_count(c0, n, m, i) == (n as int) / m,
{
    lemma_rr_count_exact(c0, n, m, i);
    vstd::arithmetic::div_mod::lemma_mod_bound(i - c0, m);
}


/// The decimal digit characters of a non-negative number, most significant
/// first.
pub open spec fn spec_udec(n: int) -> Seq<char>
    decreases n,
{
    if n < 10 {
        seq![spec_digit(n)]
    } else {
        spec_udec(n / 10).push(spec_digit(n % 10))
    }
}

/// The character of one decimal digit.
pub open spec fn spec_digit(d: int) -> char {
    if d == 0 {
        '0'
    } else if d == 1 {
        '1'
    } else if d == 2 {
        '2'
    } else if d == 3 {
        '3'
    } else if d == 4 {
        '4'
    } else if d == 5 {
        '5'
    } else if d == 6 {
        '6'
    } else if d == 7 {
        '7'
    } else if d == 8 {
        '8'
    } else {
        '9'
    }
}

/// `host:port` of a peer address, the form written into a derived Host
/// header.
pub open spec fn spec_host_port(a: (Seq<char>, u16)) -> Seq<char> {
    a.0 + seq![':'] + spec_udec(a.1 as int)
}

/// The string of one decimal digit.
fn digit_str(d: u16) -> (s: &'static str)
    requires
        d < 10,
    ensures
        s@ == seq![spec_digit(d as int)],
{
    proof {
        reveal_strlit("0");
        reveal_strlit("1");
        reveal_strlit("2");
        reveal_strlit("3");
        reveal_strlit("4");
        reveal_strlit("5");
        reveal_strlit("6");
        reveal_strlit("7");
        reveal_strlit("8");
        reveal_strlit("9");
    }
    let s = match d {
        0 => "0",
        1 => "1",
        2 => "2",
        3 => "3",
        4 => "4",
        5 => "5",
        6 => "6",
        7 => "7",
        8 => "8",
        _ => "9",
    };
    proof {
        assert(s@ =~= seq![spec_digit(d as int)]);
    }
    s
}

/// Formats a port number in decimal.
pub fn u16_to_dec(n: u16) -> (s: String)
    ensures
        s@ == spec_udec(n as int),
    decreases n,
{
    if n < 10 {
        String::from_str(digit_str(n))
    } else {
        let mut s = u16_to_dec(n / 10);
        s.append(digit_str(n % 10));
        proof {
            assert(s@ =~= spec_udec(n as int));
        }
        s
    }
}

/// Formats a peer address as `host:port`.
pub fn host_port_string(p: &UpstreamAddress) -> (s: String)
    ensures
        s@ == spec_host_port(p@),
{
    let mut s = p.host.clone();
    proof {
        reveal_strlit(":");
        assert(":"@ =~= seq![':']);
    }
    s.append(":");
    let dgts = u16_to_dec(p.port);
    s.append(dgts.as_str());
    proof {
        assert(s@ =~= spec_host_port(p@));
    }
    s
}

} // verus!
