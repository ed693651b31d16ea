use railscale::route::MatchStrategy;
use railscale::route::MatchingRouter;
use railscale::error::RailscaleError;

#[test]
fn exact_match() {
    let s = MatchStrategy::exact("example.com");
    assert!(s.is_match(b"example.com"));
    assert!(!s.is_match(b"sub.example.com"));
    assert!(!s.is_match(b"example.com.evil"));
}

#[test]
fn exact_case_insensitive() {
    let s = MatchStrategy::exact("Example.COM");
    assert!(s.is_match(b"example.com"));
    assert!(!s.is_match(b"Example.COM"));
}

#[test]
fn suffix_match() {
    let s = MatchStrategy::suffix(".example.com");
    assert!(s.is_match(b"api.example.com"));
    assert!(s.is_match(b"deep.sub.example.com"));
    assert!(!s.is_match(b"example.com"));
    assert!(!s.is_match(b"notexample.com"));
}

#[test]
fn prefix_match() {
    let s = MatchStrategy::prefix("api.");
    assert!(s.is_match(b"api.example.com"));
    assert!(s.is_match(b"api.other.io"));
    assert!(!s.is_match(b"web.example.com"));
}

#[test]
fn contains_match() {
    let s = MatchStrategy::contains("example");
    assert!(s.is_match(b"sub.example.com"));
    assert!(s.is_match(b"example.org"));
    assert!(!s.is_match(b"exmple.com"));
}

#[test]
fn empty_domain_no_panic() {
    let exact = MatchStrategy::exact("a.com");
    let suffix = MatchStrategy::suffix(".com");
    let prefix = MatchStrategy::prefix("a.");
    let contains = MatchStrategy::contains("a");
    assert!(!exact.is_match(b""));
    assert!(!suffix.is_match(b""));
    assert!(!prefix.is_match(b""));
    assert!(!contains.is_match(b""));
}

#[test]
fn contains_lowercases_the_needle() {
    let s = MatchStrategy::contains("EXAMPLE");
    assert!(s.is_match(b"sub.example.com"));
    assert!(!s.is_match(b"sub.EXAMPLE.com"));
}

#[test]
fn empty_pattern_matches_everything() {
    assert!(MatchStrategy::contains("").is_match(b""));
    assert!(MatchStrategy::prefix("").is_match(b"x"));
    assert!(MatchStrategy::suffix("").is_match(b"x"));
    assert!(MatchStrategy::exact("").is_match(b""));
    assert!(!MatchStrategy::exact("").is_match(b"x"));
}

#[test]
fn router_picks_the_first_matching_route() {
    let router = MatchingRouter::new()
        .add_route(MatchStrategy::suffix(".example.com"), 1u32)
        .add_route(MatchStrategy::prefix("api."), 2u32)
        .add_route(MatchStrategy::contains("api"), 3u32);
    assert_eq!(*router.select(b"api.example.com").ok().unwrap(), 1);
    assert_eq!(*router.select(b"api.other.io").ok().unwrap(), 2);
    assert_eq!(*router.select(b"myapi.io").ok().unwrap(), 3);
}

#[test]
fn router_without_match_fails_routing() {
    let router = MatchingRouter::new().add_route(MatchStrategy::exact("a.com"), 1u32);
    match router.select(b"b.com") {
        Err(RailscaleError::RoutingFailed(m)) => assert_eq!(m, "no matching route"),
        _ => panic!("expected a routing failure"),
    }
    let empty: MatchingRouter<u32> = MatchingRouter::new();
    assert!(empty.select(b"a.com").is_err());
}

#[test]
fn exact_matches_are_also_prefix_suffix_and_contained() {
    for domain in [&b"api.example.com"[..], b"x", b""] {
        let text = std::str::from_utf8(domain).unwrap();
        assert!(MatchStrategy::exact(text).is_match(domain));
        assert!(MatchStrategy::prefix(text).is_match(domain));
        assert!(MatchStrategy::suffix(text).is_match(domain));
        assert!(MatchStrategy::contains(text).is_match(domain));
    }
}
