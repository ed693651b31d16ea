use bytes::Bytes;
use railscale::derive::{DerivationFormula, DeriverSession, MatchAtom};

#[derive(Clone, PartialEq, Eq, Hash, Debug)]
enum HeaderName {
    ContentLength,
    TransferEncoding,
    Version,
}

impl MatchAtom for HeaderName {
    type Phase = u8;

    fn phase(&self) -> u8 {
        match self {
            HeaderName::Version => 0,
            _ => 1,
        }
    }

    // Model functions for the verifier; nothing calls them at run time.
    fn spec_phase(&self) -> u8 {
        unreachable!()
    }

    fn spec_match(&self, _: vstd::seq::Seq<u8>) -> Option<vstd::seq::Seq<u8>> {
        unreachable!()
    }

    fn try_match(&self, data: &[u8]) -> Option<Bytes> {
        let prefix: &[u8] = match self {
            HeaderName::ContentLength => b"content-length:",
            HeaderName::TransferEncoding => b"transfer-encoding:",
            HeaderName::Version => b"HTTP/",
        };
        if data.starts_with(prefix) {
            Some(Bytes::copy_from_slice(&data[prefix.len()..]))
        } else {
            None
        }
    }
}

struct Framing;

impl DerivationFormula for Framing {
    type Matcher = HeaderName;
    type Effect = bool;
    const MATCHERS: &'static [HeaderName] = &[HeaderName::ContentLength, HeaderName::TransferEncoding];

    fn resolve(matched: &[Option<Bytes>]) -> bool {
        matched.iter().all(|m| m.is_some())
    }
}

struct VersionOnly;

impl DerivationFormula for VersionOnly {
    type Matcher = HeaderName;
    type Effect = ();
    const MATCHERS: &'static [HeaderName] = &[HeaderName::Version];

    fn resolve(_: &[Option<Bytes>]) {}
}

#[test]
fn duplicate_matchers_are_kept_once() {
    let s = DeriverSession::new(vec![
        HeaderName::ContentLength,
        HeaderName::Version,
        HeaderName::ContentLength,
        HeaderName::TransferEncoding,
        HeaderName::Version,
    ]);
    assert_eq!(s.matcher_count(), 3);
}

#[test]
fn first_match_sticks_and_a_different_one_conflicts() {
    let mut s = DeriverSession::new(vec![HeaderName::ContentLength, HeaderName::TransferEncoding]);
    s.feed(&1, b"content-length:42");
    s.feed(&1, b"content-length:42");
    assert!(!s.has_conflicts_for::<Framing>());
    s.feed(&1, b"content-length:7");
    let r = s.results_for::<Framing>();
    assert_eq!(r, vec![Some(Bytes::from_static(b"42")), None]);
    assert!(s.has_conflicts_for::<Framing>());
}

#[test]
fn other_phases_are_not_looked_at() {
    let mut s = DeriverSession::new(vec![HeaderName::ContentLength, HeaderName::Version]);
    s.feed(&0, b"content-length:1");
    s.feed(&1, b"HTTP/1.1");
    assert_eq!(s.results_for::<Framing>(), vec![None, None]);
    assert_eq!(s.results_for::<VersionOnly>(), vec![None]);
    s.feed(&0, b"HTTP/1.1");
    assert_eq!(s.results_for::<VersionOnly>(), vec![Some(Bytes::from_static(b"1.1"))]);
    assert!(!s.has_conflicts_for::<VersionOnly>());
}

#[test]
fn formula_matchers_the_session_lacks_find_nothing() {
    let mut s = DeriverSession::new(vec![HeaderName::TransferEncoding]);
    s.feed(&1, b"transfer-encoding:chunked");
    assert_eq!(s.results_for::<Framing>(), vec![None, Some(Bytes::from_static(b"chunked"))]);
    assert!(Framing::resolve(&s.results_for::<Framing>()) == false);
}
