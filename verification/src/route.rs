use vstd::prelude::*;
use vstd::string::StringSliceAdditionalSpecFns;
use crate::error::RailscaleError;

verus! {

/// `needle` occurs in `haystack` starting at `i`.
pub open spec fn occurs_at(haystack: Seq<u8>, needle: Seq<u8>, i: int) -> bool {
    0 <= i && i + needle.len() <= haystack.len() && haystack.subrange(i, i + needle.len()) == needle
}

/// `memchr::memmem::find`: the position of the first occurrence of `needle` in
/// `haystack` (an empty needle occurs at 0), or `None` when it does not occur.
#[verifier::external_body]
fn memmem_find(haystack: &[u8], needle: &[u8]) -> (r: Option<usize>)
    ensures
        match r {
            Some(i) => occurs_at(haystack@, needle@, i as int) && forall|j: int|
                0 <= j < i ==> !occurs_at(haystack@, needle@, j),
            None => forall|j: int| !occurs_at(haystack@, needle@, j),
        },
{
    memchr::memmem::find(haystack, needle)
}

/// A byte with ASCII upper-case letters mapped to lower case.
pub open spec fn ascii_lower(b: u8) -> u8 {
    if 65 <= b && b <= 90 {
        (b + 32) as u8
    } else {
        b
    }
}

/// The text with its ASCII letters in lower case (`make_ascii_lowercase`).
pub open spec fn ascii_lowercase(s: Seq<u8>) -> Seq<u8> {
    s.map_values(|b: u8| ascii_lower(b))
}

/// How a domain is matched against a pattern. Patterns are kept in ASCII lower
/// case; the domain is compared as given.
pub enum MatchStrategy {
    Exact(Vec<u8>),
    Suffix(Vec<u8>),
    Prefix(Vec<u8>),
    Contains(Vec<u8>),
}

/// The model of a `MatchStrategy`.
pub enum StrategyModel {
    Exact(Seq<u8>),
    Suffix(Seq<u8>),
    Prefix(Seq<u8>),
    Contains(Seq<u8>),
}

impl View for MatchStrategy {
    type V = StrategyModel;

    open spec fn view(&self) -> StrategyModel {
        match self {
            MatchStrategy::Exact(p) => StrategyModel::Exact(p@),
            MatchStrategy::Suffix(p) => StrategyModel::Suffix(p@),
            MatchStrategy::Prefix(p) => StrategyModel::Prefix(p@),
            MatchStrategy::Contains(p) => StrategyModel::Contains(p@),
        }
    }
}

/// `needle` occurs somewhere in `haystack`.
pub open spec fn occurs_somewhere(haystack: Seq<u8>, needle: Seq<u8>) -> bool {
    exists|i: int| #[trigger] occurs_at(haystack, needle, i)
}

/// Whether a strategy accepts a domain.
pub open spec fn strategy_matches(s: StrategyModel, domain: Seq<u8>) -> bool {
    match s {
        StrategyModel::Exact(p) => domain == p,
        StrategyModel::Suffix(p) => domain.len() >= p.len() && domain.subrange(
            domain.len() - p.len(),
            domain.len() as int,
        ) == p,
        StrategyModel::Prefix(p) => domain.len() >= p.len() && domain.subrange(0, p.len() as int)
            == p,
        StrategyModel::Contains(p) => occurs_somewhere(domain, p),
    }
}

fn lowercase_of(s: &str) -> (v: Vec<u8>)
    ensures
        v@ == ascii_lowercase(s.spec_bytes()),
{
    let b = s.as_bytes();
    let mut v: Vec<u8> = Vec::new();
    let mut i: usize = 0;
    while i < b.len()
        invariant
            i <= b@.len(),
            b@ == s.spec_bytes(),
            v@ == ascii_lowercase(b@.take(i as int)),
        decreases b@.len() - i,
    {
        let c = b[i];
        let l = if 65u8 <= c && c <= 90u8 {
            c + 32
        } else {
            c
        };
        v.push(l);
        assert(ascii_lowercase(b@.take(i as int + 1)) == ascii_lowercase(b@.take(i as int)).push(l));
        i = i + 1;
    }
    assert(b@.take(b@.len() as int) == b@);
    v
}

/// `a[a_from..a_from + n] == b[b_from..b_from + n]`.
fn same_bytes(a: &[u8], a_from: usize, b: &[u8], b_from: usize, n: usize) -> (r: bool)
    requires
        a_from + n <= a@.len(),
        b_from + n <= b@.len(),
    ensures
        r == (a@.subrange(a_from as int, a_from + n) == b@.subrange(b_from as int, b_from + n)),
{
    let mut i: usize = 0;
    while i < n
        invariant
            i <= n,
            a_from + n <= a.len(),
            b_from + n <= b.len(),
            forall|k: int|
                0 <= k < i ==> #[trigger] a@.subrange(a_from as int, a_from + n)[k] == b@.subrange(
                    b_from as int,
                    b_from + n,
                )[k],
        decreases n - i,
    {
        if a[a_from + i] != b[b_from + i] {
            assert(a@.subrange(a_from as int, a_from + n)[i as int] != b@.subrange(
                b_from as int,
                b_from + n,
            )[i as int]);
            return false;
        }
        i = i + 1;
    }
    assert(a@.subrange(a_from as int, a_from + n) =~= b@.subrange(b_from as int, b_from + n));
    true
}

impl MatchStrategy {
    /// Matches the domain itself, case-insensitively in the pattern.
    pub fn exact(domain: &str) -> (s: Self)
        ensures
            s@ == StrategyModel::Exact(ascii_lowercase(domain.spec_bytes())),
    {
        MatchStrategy::Exact(lowercase_of(domain))
    }

    /// Matches domains that end with the pattern.
    pub fn suffix(domain: &str) -> (s: Self)
        ensures
            s@ == StrategyModel::Suffix(ascii_lowercase(domain.spec_bytes())),
    {
        MatchStrategy::Suffix(lowercase_of(domain))
    }

    /// Matches domains that begin with the pattern.
    pub fn prefix(domain: &str) -> (s: Self)
        ensures
            s@ == StrategyModel::Prefix(ascii_lowercase(domain.spec_bytes())),
    {
        MatchStrategy::Prefix(lowercase_of(domain))
    }

    /// Matches domains that hold the pattern anywhere.
    pub fn contains(needle: &str) -> (s: Self)
        ensures
            s@ == StrategyModel::Contains(ascii_lowercase(needle.spec_bytes())),
    {
        MatchStrategy::Contains(lowercase_of(needle))
    }

    /// Whether the domain matches.
    pub fn is_match(&self, domain: &[u8]) -> (r: bool)
        ensures
            r == strategy_matches(self@, domain@),
    {
        match self {
            MatchStrategy::Exact(pat) => {
                assert(strategy_matches(self@, domain@) == (domain@ == pat@));
                if domain.len() != pat.len() {
                    return false;
                }
                let found = memmem_find(domain, pat.as_slice());
                proof {
                    if found is Some {
                        let i = found->0 as int;
                        assert(i == 0);
                        assert(domain@.subrange(0, domain@.len() as int) == domain@);
                        assert(domain@ == pat@);
                    } else {
                        assert(domain@.subrange(0, domain@.len() as int) == domain@);
                        if domain@ == pat@ {
                            assert(occurs_at(domain@, pat@, 0));
                        }
                        assert(domain@ != pat@);
                    }
                }
                let r = found.is_some();
                assert(r == strategy_matches(self@, domain@));
                r
            },
            MatchStrategy::Suffix(pat) => {
                assert(pat@.subrange(0, pat@.len() as int) == pat@);
                if domain.len() < pat.len() {
                    return false;
                }
                let r = same_bytes(domain, domain.len() - pat.len(), pat.as_slice(), 0, pat.len());
                assert(r == strategy_matches(self@, domain@));
                r
            },
            MatchStrategy::Prefix(pat) => {
                assert(pat@.subrange(0, pat@.len() as int) == pat@);
                if domain.len() < pat.len() {
                    return false;
                }
                let r = same_bytes(domain, 0, pat.as_slice(), 0, pat.len());
                assert(r == strategy_matches(self@, domain@));
                r
            },
            MatchStrategy::Contains(pat) => {
                let found = memmem_find(domain, pat.as_slice());
                proof {
                    if found is Some {
                        assert(self@ == StrategyModel::Contains(pat@));
                        assert(occurs_at(domain@, pat@, found->0 as int));
                        assert(exists|i: int| #[trigger] occurs_at(domain@, pat@, i));
                        assert(strategy_matches(StrategyModel::Contains(pat@), domain@));
                        assert(strategy_matches(self@, domain@));
                    } else {
                        assert(!strategy_matches(self@, domain@));
                    }
                }
                found.is_some()
            },
        }
    }
}

/// Routes by the first strategy that matches the routing key, each route carrying
/// what builds its destination.
pub struct MatchingRouter<F> {
    matchers: Vec<(MatchStrategy, F)>,
}

/// The position of the first route whose strategy matches the key, or the number
/// of routes when none does.
pub open spec fn first_matching<F>(routes: Seq<(MatchStrategy, F)>, key: Seq<u8>, from: int) -> int
    decreases routes.len() - from,
{
    if from >= routes.len() {
        routes.len() as int
    } else if strategy_matches(routes[from].0@, key) {
        from
    } else {
        first_matching(routes, key, from + 1)
    }
}

impl<F> MatchingRouter<F> {
    /// A router without routes.
    pub fn new() -> (r: Self)
        ensures
            r.routes().len() == 0,
    {
        Self { matchers: Vec::new() }
    }

    pub closed spec fn routes(&self) -> Seq<(MatchStrategy, F)> {
        self.matchers@
    }

    /// The router with one more route, tried after the existing ones.
    pub fn add_route(self, strategy: MatchStrategy, factory: F) -> (r: Self)
        ensures
            r.routes() == self.routes().push((strategy, factory)),
    {
        let mut matchers = self.matchers;
        matchers.push((strategy, factory));
        Self { matchers }
    }

    /// The factory of the first route that matches the key; a `RoutingFailed` error
    /// when none does.
    pub fn select(&self, routing_key: &[u8]) -> (r: Result<&F, RailscaleError>)
        ensures
            match r {
                Ok(f) => {
                    let i = first_matching(self.routes(), routing_key@, 0);
                    i < self.routes().len() && *f == self.routes()[i].1
                },
                Err(e) => first_matching(self.routes(), routing_key@, 0) == self.routes().len()
                    && (e matches RailscaleError::RoutingFailed(m) && m@ == "no matching route"@),
            },
    {
        let mut i: usize = 0;
        while i < self.matchers.len()
            invariant
                i <= self.matchers@.len(),
                first_matching(self.matchers@, routing_key@, 0) == first_matching(
                    self.matchers@,
                    routing_key@,
                    i as int,
                ),
            decreases self.matchers@.len() - i,
        {
            if self.matchers[i].0.is_match(routing_key) {
                return Ok(&self.matchers[i].1);
            }
            i = i + 1;
        }
        Err(RailscaleError::RoutingFailed(String::from_str("no matching route")))
    }
}

} // verus!
