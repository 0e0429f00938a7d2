//! Rule matcher: an ordered table of routing rules, each binding a host and
//! path predicate to one load balancer.
//!
//! A path pattern is a sequence of segments, each either a literal that the
//! request's segment must equal, or a named parameter that captures the
//! request's segment.  A request path is split on `/`, a single leading `/`
//! being ignored, and matches a rule when the rule's host accepts the
//! request host and the segments correspond one for one.  Matching scans
//! the table in registration order and returns the first rule that accepts.

use vstd::prelude::*;

use crate::lb::LoadBalancer;

verus! {

/// One segment of a configured path pattern.
pub enum PatSeg {
    /// The request segment must equal this literal.
    Lit(String),
    /// Any request segment matches and is captured under this name.
    Param(String),
}

/// Whether one pattern segment accepts one request segment.
pub open spec fn seg_matches(p: PatSeg, s: Seq<char>) -> bool {
    match p {
        PatSeg::Lit(l) => l@ == s,
        PatSeg::Param(_) => true,
    }
}

/// Splits a character sequence on `/`: one entry per run between
/// separators, with empty entries at the ends and between adjacent
/// separators; the empty sequence yields one empty entry.
pub open spec fn spec_split(s: Seq<char>) -> Seq<Seq<char>>
    decreases s.len(),
{
    if s.len() == 0 {
        seq![Seq::<char>::empty()]
    } else if s[0] == '/' {
        seq![Seq::<char>::empty()] + spec_split(s.subrange(1, s.len() as int))
    } else {
        prepend_first(seq![s[0]], spec_split(s.subrange(1, s.len() as int)))
    }
}

/// Extends the first entry of a non-empty split result to the left.
pub open spec fn prepend_first(x: Seq<char>, r: Seq<Seq<char>>) -> Seq<Seq<char>> {
    r.update(0, x + r[0])
}

pub proof fn lemma_split_nonempty(s: Seq<char>)
    ensures
        spec_split(s).len() >= 1,
    decreases s.len(),
{
    if s.len() != 0 {
        lemma_split_nonempty(s.subrange(1, s.len() as int));
    }
}

/// The segments a request path is matched by: the path split on `/`, with
/// the entry before a single leading `/` dropped.
pub open spec fn spec_path_segments(p: Seq<char>) -> Seq<Seq<char>> {
    if p.len() > 0 && p[0] == '/' {
        spec_split(p.subrange(1, p.len() as int))
    } else {
        spec_split(p)
    }
}

/// The views of a vector of owned segments.
pub open spec fn seg_views(v: Seq<String>) -> Seq<Seq<char>> {
    v.map_values(|s: String| s@)
}

/// The views of a vector of captured (name, value) pairs.
pub open spec fn param_views(v: Seq<(String, String)>) -> Seq<(Seq<char>, Seq<char>)> {
    v.map_values(|p: (String, String)| (p.0@, p.1@))
}

/// Whether a whole pattern accepts a whole segment sequence: same length,
/// and segment-wise acceptance.
pub open spec fn spec_segs_match(pat: Seq<PatSeg>, segs: Seq<Seq<char>>) -> bool {
    pat.len() == segs.len() && (forall|i: int|
        0 <= i < pat.len() ==> seg_matches(#[trigger] pat[i], segs[i]))
}

/// The (name, value) pairs captured by the pattern's parameters, in
/// pattern order; meaningful when the lengths agree.  A name that occurs
/// in several parameter segments contributes one pair per occurrence, so
/// a last-entry-wins lookup reads the rightmost capture as the name's
/// binding.
pub open spec fn spec_params(pat: Seq<PatSeg>, segs: Seq<Seq<char>>) -> Seq<(Seq<char>, Seq<char>)>
    decreases pat.len(),
{
    if pat.len() == 0 || segs.len() == 0 {
        Seq::empty()
    } else {
        let rest = spec_params(pat.drop_last(), segs.drop_last());
        match pat.last() {
            PatSeg::Param(n) => rest.push((n@, segs.last())),
            PatSeg::Lit(_) => rest,
        }
    }
}

/// Character-wise string equality.
pub fn str_eq(a: &str, b: &str) -> (r: bool)
    ensures
        r == (a@ == b@),
{
    let n = a.unicode_len();
    let m = b.unicode_len();
    if n != m {
        return false;
    }
    let mut i: usize = 0;
    while i < n
        invariant
            0 <= i <= n,
            n == a@.len(),
            n == b@.len(),
            forall|j: int| 0 <= j < i ==> a@[j] == b@[j],
        decreases n - i,
    {
        if a.get_char(i) != b.get_char(i) {
            return false;
        }
        i += 1;
    }
    proof {
        assert(a@ =~= b@);
    }
    true
}

/// Splits a request path into the segments it is matched by: the path is
/// cut at every `/`, a single leading `/` contributing no empty first
/// segment.
pub fn split_segments(path: &str) -> (segs: Vec<String>)
    ensures
        seg_views(segs@) == spec_path_segments(path@),
{
    let n = path.unicode_len();
    let mut base: usize = 0;
    if n > 0 && path.get_char(0) == '/' {
        base = 1;
    }
    let ghost target = spec_path_segments(path@);
    proof {
        if base == 1 {
            assert(target == spec_split(path@.subrange(1, n as int)));
        } else {
            assert(path@.subrange(0, n as int) =~= path@);
            assert(target == spec_split(path@.subrange(0, n as int)));
        }
    }
    let mut segs: Vec<String> = Vec::new();
    let mut start: usize = base;
    let mut i: usize = base;
    proof {
        lemma_split_nonempty(path@.subrange(base as int, n as int));
        let sp = spec_split(path@.subrange(base as int, n as int));
        assert(path@.subrange(base as int, base as int) =~= Seq::<char>::empty());
        assert(prepend_first(Seq::<char>::empty(), sp) =~~= sp);
        assert(seg_views(segs@) =~~= Seq::<Seq<char>>::empty());
    }
    while i < n
        invariant
            base <= start <= i <= n,
            n == path@.len(),
            target == spec_path_segments(path@),
            target =~~= seg_views(segs@) + prepend_first(
                path@.subrange(start as int, i as int),
                spec_split(path@.subrange(i as int, n as int)),
            ),
        decreases n - i,
    {
        let c = path.get_char(i);
        proof {
            let suf = path@.subrange(i as int, n as int);
            let suf1 = path@.subrange(i as int + 1, n as int);
            assert(suf.len() > 0);
            assert(suf[0] == path@[i as int]);
            assert(suf.subrange(1, suf.len() as int) =~= suf1);
            lemma_split_nonempty(suf1);
        }
        if c == '/' {
            let piece = String::from_str(path.substring_char(start, i));
            proof {
                let cur = path@.subrange(start as int, i as int);
                let suf = path@.subrange(i as int, n as int);
                let suf1 = path@.subrange(i as int + 1, n as int);
                let x = spec_split(suf1);
                // Splitting at a separator: the current piece closes and an
                // empty piece opens.
                assert(spec_split(suf) == seq![Seq::<char>::empty()] + x);
                assert(prepend_first(cur, seq![Seq::<char>::empty()] + x) =~~= seq![cur] + x);
                assert(seg_views(segs@.push(piece)) =~~= seg_views(segs@).push(cur));
                assert(path@.subrange(i as int + 1, i as int + 1) =~= Seq::<char>::empty());
                assert(prepend_first(Seq::<char>::empty(), x) =~~= x);
                assert(seg_views(segs@).push(cur) + x =~~= seg_views(segs@) + (seq![cur] + x));
            }
            segs.push(piece);
            start = i + 1;
        } else {
            proof {
                let cur = path@.subrange(start as int, i as int);
                let cur1 = path@.subrange(start as int, i as int + 1);
                let suf = path@.subrange(i as int, n as int);
                let suf1 = path@.subrange(i as int + 1, n as int);
                let x = spec_split(suf1);
                // A plain character only grows the current piece.
                assert(spec_split(suf) == prepend_first(seq![path@[i as int]], x));
                assert(cur + (seq![path@[i as int]] + x[0]) =~= cur1 + x[0]);
                assert(prepend_first(cur, prepend_first(seq![path@[i as int]], x)) =~~= prepend_first(
                    cur1,
                    x,
                ));
            }
        }
        i += 1;
    }
    let piece = String::from_str(path.substring_char(start, n));
    proof {
        let cur = path@.subrange(start as int, n as int);
        assert(path@.subrange(n as int, n as int) =~= Seq::<char>::empty());
        assert(spec_split(path@.subrange(n as int, n as int)) == seq![Seq::<char>::empty()]);
        assert(prepend_first(cur, seq![Seq::<char>::empty()]) =~~= seq![cur]);
        assert(seg_views(segs@.push(piece)) =~~= seg_views(segs@).push(cur));
        assert(seg_views(segs@).push(cur) =~~= seg_views(segs@) + seq![cur]);
    }
    segs.push(piece);
    segs
}

/// Matches one pattern against pre-split request segments, capturing the
/// parameter segments under their configured names.
pub fn match_segments(pat: &Vec<PatSeg>, segs: &Vec<String>) -> (r: Option<Vec<(String, String)>>)
    ensures
        r is Some <==> spec_segs_match(pat@, seg_views(segs@)),
        r matches Some(ps) ==> param_views(ps@) == spec_params(pat@, seg_views(segs@)),
{
    if pat.len() != segs.len() {
        return None;
    }
    let ghost sv = seg_views(segs@);
    let mut params: Vec<(String, String)> = Vec::new();
    let mut i: usize = 0;
    while i < pat.len()
        invariant
            0 <= i <= pat@.len(),
            pat@.len() == segs@.len(),
            sv == seg_views(segs@),
            forall|j: int| 0 <= j < i ==> seg_matches(#[trigger] pat@[j], sv[j]),
            param_views(params@) =~~= spec_params(pat@.subrange(0, i as int), sv.subrange(0, i as int)),
        decreases pat@.len() - i,
    {
        proof {
            assert(pat@.subrange(0, i as int + 1).drop_last() =~= pat@.subrange(0, i as int));
            assert(sv.subrange(0, i as int + 1).drop_last() =~= sv.subrange(0, i as int));
            assert(pat@.subrange(0, i as int + 1).last() == pat@[i as int]);
            assert(sv.subrange(0, i as int + 1).last() == sv[i as int]);
        }
        match &pat[i] {
            PatSeg::Lit(l) => {
                if !str_eq(l.as_str(), segs[i].as_str()) {
                    proof {
                        assert(!seg_matches(pat@[i as int], sv[i as int]));
                    }
                    return None;
                }
            },
            PatSeg::Param(name) => {
                let pair = (name.clone(), segs[i].clone());
                proof {
                    assert(param_views(params@.push(pair)) =~~= param_views(params@).push(
                        (name@, sv[i as int]),
                    ));
                }
                params.push(pair);
            },
        }
        i += 1;
    }
    proof {
        assert(pat@.subrange(0, pat@.len() as int) =~= pat@);
        assert(sv.subrange(0, sv.len() as int) =~= sv);
    }
    Some(params)
}

/// One routing rule: a host predicate, a path pattern and the rule's own
/// load balancer.
pub struct ProxyRouter {
    /// `None` accepts any request host; `Some(h)` requires the host to equal `h`.
    pub host: Option<String>,
    /// The path pattern, one entry per path segment.
    pub pattern: Vec<PatSeg>,
    /// The load balancer this rule forwards to.
    pub lb: LoadBalancer,
}

/// Whether a rule's host predicate accepts a request host.
pub open spec fn spec_host_matches(hp: Option<String>, host: Seq<char>) -> bool {
    match hp {
        Option::None => true,
        Option::Some(h) => h@ == host,
    }
}

/// Whether a rule accepts a request, by host and by path segments.
pub open spec fn spec_rule_matches(r: ProxyRouter, host: Seq<char>, path: Seq<char>) -> bool {
    spec_host_matches(r.host, host) && spec_segs_match(r.pattern@, spec_path_segments(path))
}

/// The ordered rule table.
pub struct MatchEntry {
    /// Rules in registration order; earlier rules take priority.
    pub routers: Vec<ProxyRouter>,
}

impl MatchEntry {
    /// Every rule's load balancer is well formed.
    pub open spec fn wf(&self) -> bool {
        forall|i: int| 0 <= i < self.routers@.len() ==> (#[trigger] self.routers@[i].lb).wf()
    }

    /// An empty rule table.
    pub fn new() -> (r: MatchEntry)
        ensures
            r.routers@.len() == 0,
            r.wf(),
    {
        MatchEntry { routers: Vec::new() }
    }

    /// Registers a rule behind the existing ones.
    pub fn add_router(&mut self, r: ProxyRouter)
        requires
            old(self).wf(),
            r.lb.wf(),
        ensures
            final(self).wf(),
            final(self).routers@ == old(self).routers@.push(r),
    {
        self.routers.push(r);
    }

    /// Finds the first rule, in registration order, that accepts the
    /// request, returning its captured parameters and its index; `None`
    /// exactly when no configured rule accepts the request.
    pub fn match_request(&self, host: &str, path: &str) -> (r: Option<(Vec<(String, String)>, usize)>)
        ensures
            r is None <==> (forall|i: int|
                0 <= i < self.routers@.len() ==> !spec_rule_matches(#[trigger] self.routers@[i], host@, path@)),
            r matches Some((params, idx)) ==> {
                &&& 0 <= idx < self.routers@.len()
                &&& spec_rule_matches(self.routers@[idx as int], host@, path@)
                &&& forall|j: int|
                    0 <= j < idx ==> !spec_rule_matches(#[trigger] self.routers@[j], host@, path@)
                &&& param_views(params@) == spec_params(
                    self.routers@[idx as int].pattern@,
                    spec_path_segments(path@),
                )
            },
    {
        let segs = split_segments(path);
        let mut i: usize = 0;
        while i < self.routers.len()
            invariant
                0 <= i <= self.routers@.len(),
                seg_views(segs@) == spec_path_segments(path@),
                forall|j: int|
                    0 <= j < i ==> !spec_rule_matches(#[trigger] self.routers@[j], host@, path@),
            decreases self.routers@.len() - i,
        {
            let rule = &self.routers[i];
            let host_ok = match &rule.host {
                None => true,
                Some(h) => str_eq(h.as_str(), host),
            };
            if host_ok {
                match match_segments(&rule.pattern, &segs) {
                    Some(params) => {
                        return Some((params, i));
                    },
                    None => {
                        proof {
                            assert(!spec_rule_matches(self.routers@[i as int], host@, path@));
                        }
                    },
                }
            } else {
                proof {
                    assert(!spec_rule_matches(self.routers@[i as int], host@, path@));
                }
            }
            i += 1;
        }
        None
    }
}

} // verus!
