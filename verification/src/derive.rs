use vstd::prelude::*;
use vstd::std_specs::cmp::PartialEqSpec;
use bytes::Bytes;
use crate::buffers::{bytes_clone, bytes_eq, opt_contents};

verus! {

/// One thing to look for in the frames of a connection, in one phase.
pub trait MatchAtom: std::hash::Hash + Eq + Clone + Send + Sync + 'static {
    type Phase: Eq + Copy + Send + Sync + 'static;

    /// The phase whose frames the matcher looks at.
    spec fn spec_phase(&self) -> Self::Phase;

    /// What the matcher extracts from a frame's bytes, if it matches.
    spec fn spec_match(&self, data: Seq<u8>) -> Option<Seq<u8>>;

    fn phase(&self) -> (p: Self::Phase)
        ensures
            p == self.spec_phase(),
    ;

    fn try_match(&self, data: &[u8]) -> (r: Option<Bytes>)
        ensures
            opt_contents(r) == self.spec_match(data@),
    ;
}

/// Something that takes effects derived from inspected frames.
pub trait DerivedEffect<E> {
    fn apply_effect(&mut self, effect: E);
}

/// A rule that turns what its matchers found into an effect.
pub trait DerivationFormula: Send + Sync + 'static {
    type Matcher: MatchAtom;
    type Effect: Send + 'static;

    const MATCHERS: &'static [Self::Matcher];

    fn resolve(matched: &[Option<Bytes>]) -> Self::Effect;
}

/// Some element of `ms` is equal to `m`, as the type's `==` says.
pub open spec fn holds_equal<M: PartialEq>(ms: Seq<M>, m: M) -> bool {
    exists|k: int| 0 <= k < ms.len() && #[trigger] ms[k].eq_spec(&m)
}

/// The matchers with later duplicates (by the type's `==`) left out, in first-seen
/// order.
pub open spec fn first_occurrences<M: PartialEq>(ms: Seq<M>) -> Seq<M>
    decreases ms.len(),
{
    if ms.len() == 0 {
        Seq::empty()
    } else {
        let before = first_occurrences(ms.drop_last());
        if holds_equal(before, ms.last()) {
            before
        } else {
            before.push(ms.last())
        }
    }
}

/// What a session has found so far: for each distinct matcher, its first match
/// and whether a later, different match conflicted with it.
pub struct DeriverSession<M: MatchAtom> {
    matchers: Vec<M>,
    results: Vec<Option<Bytes>>,
    conflicts: Vec<bool>,
}

/// The model of a session.
pub struct SessionModel<M> {
    pub matchers: Seq<M>,
    pub results: Seq<Option<Seq<u8>>>,
    pub conflicts: Seq<bool>,
}

/// The session after one frame of `phase` with bytes `data`: each matcher of that
/// phase without a result takes whatever it matches; one with a result records a
/// conflict when it now matches something different.
pub open spec fn fed<M: MatchAtom>(s: SessionModel<M>, phase: M::Phase, data: Seq<u8>) -> SessionModel<M> {
    SessionModel {
        matchers: s.matchers,
        results: Seq::new(
            s.results.len(),
            |i: int|
                if s.matchers[i].spec_phase().eq_spec(&phase) && s.results[i] is None {
                    s.matchers[i].spec_match(data)
                } else {
                    s.results[i]
                },
        ),
        conflicts: Seq::new(
            s.conflicts.len(),
            |i: int|
                s.conflicts[i] || (s.matchers[i].spec_phase().eq_spec(&phase) && s.results[i] is Some
                    && s.matchers[i].spec_match(data) is Some && s.matchers[i].spec_match(data)
                    != s.results[i]),
        ),
    }
}

/// Every matcher of a session is different from the others.
pub open spec fn distinct<M: PartialEq>(ms: Seq<M>) -> bool {
    forall|i: int, j: int| #![trigger ms[i], ms[j]] 0 <= i < j < ms.len() ==> !ms[i].eq_spec(&ms[j])
}

impl<M: MatchAtom> DeriverSession<M> {
    pub closed spec fn view(&self) -> SessionModel<M> {
        SessionModel {
            matchers: self.matchers@,
            results: self.results@.map_values(|r: Option<Bytes>| opt_contents(r)),
            conflicts: self.conflicts@,
        }
    }

    pub closed spec fn well_formed(&self) -> bool {
        &&& self.results@.len() == self.matchers@.len()
        &&& self.conflicts@.len() == self.matchers@.len()
        &&& distinct(self.matchers@)
    }

    /// A session over the distinct matchers, in first-seen order, with nothing
    /// found yet.
    pub fn new(matchers: Vec<M>) -> (s: Self)
        requires
            M::obeys_eq_spec(),
        ensures
            s.well_formed(),
            s@.matchers == first_occurrences(matchers@),
            s@.results == Seq::new(s@.matchers.len(), |i: int| None::<Seq<u8>>),
            s@.conflicts == Seq::new(s@.matchers.len(), |i: int| false),
    {
        let mut deduped: Vec<M> = Vec::new();
        let mut input = matchers;
        let ghost all = input@;
        let ghost mut k: int = 0;
        while input.len() > 0
            invariant
                M::obeys_eq_spec(),
                0 <= k <= all.len(),
                input@ == all.skip(k),
                deduped@ == first_occurrences(all.take(k)),
                distinct(deduped@),
            decreases input@.len(),
        {
            let m = input.remove(0);
            let mut seen = false;
            let mut j: usize = 0;
            while j < deduped.len()
                invariant
                    M::obeys_eq_spec(),
                    j <= deduped@.len(),
                    seen == (exists|x: int| 0 <= x < j && (#[trigger] deduped@[x]).eq_spec(&m)),
                decreases deduped@.len() - j,
            {
                let same = deduped[j] == m;
                assert(same == deduped@[j as int].eq_spec(&m));
                if same {
                    seen = true;
                }
                j = j + 1;
            }
            proof {
                assert(all.take(k + 1) == all.take(k).push(m));
                assert(all.take(k + 1).drop_last() == all.take(k));
                assert(seen == holds_equal(deduped@, m));
                k = k + 1;
                assert(input@ == all.skip(k));
            }
            if !seen {
                deduped.push(m);
            }
        }
        proof {
            assert(all.take(all.len() as int) == all);
        }
        let len = deduped.len();
        let mut results: Vec<Option<Bytes>> = Vec::new();
        let mut conflicts: Vec<bool> = Vec::new();
        let mut i: usize = 0;
        while i < len
            invariant
                i <= len,
                results@.len() == i,
                conflicts@.len() == i,
                forall|x: int| 0 <= x < i ==> results@[x] is None,
                forall|x: int| 0 <= x < i ==> !conflicts@[x],
            decreases len - i,
        {
            results.push(None);
            conflicts.push(false);
            i = i + 1;
        }
        let s = DeriverSession { matchers: deduped, results, conflicts };
        assert(s@.results =~= Seq::new(s@.matchers.len(), |i: int| None::<Seq<u8>>));
        assert(s@.conflicts =~= Seq::new(s@.matchers.len(), |i: int| false));
        s
    }

    /// Looks at one frame of `phase` with bytes `data`; see `fed`.
    pub fn feed(&mut self, phase: &M::Phase, data: &[u8])
        requires
            old(self).well_formed(),
            <M::Phase>::obeys_eq_spec(),
        ensures
            final(self).well_formed(),
            final(self)@ == fed(old(self)@, *phase, data@),
            final(self)@.results.len() == final(self)@.matchers.len(),
            final(self)@.conflicts.len() == final(self)@.matchers.len(),
    {
        let ghost start = self@;
        let n = self.matchers.len();
        let mut i: usize = 0;
        while i < n
            invariant
                <M::Phase>::obeys_eq_spec(),
                self.well_formed(),
                n == self.matchers@.len(),
                i <= n,
                self@.matchers == start.matchers,
                self@.results.len() == start.results.len(),
                self@.conflicts.len() == start.conflicts.len(),
                forall|x: int|
                    0 <= x < i ==> self@.results[x] == #[trigger] fed(start, *phase, data@).results[x],
                forall|x: int|
                    0 <= x < i ==> self@.conflicts[x] == #[trigger] fed(start, *phase, data@).conflicts[x],
                forall|x: int| i <= x < n ==> self@.results[x] == #[trigger] start.results[x],
                forall|x: int| i <= x < n ==> self@.conflicts[x] == #[trigger] start.conflicts[x],
            decreases n - i,
        {
            let same_phase = self.matchers[i].phase() == *phase;
            if same_phase {
                match &self.results[i] {
                    None => {
                        let result = self.matchers[i].try_match(data);
                        self.results.set(i, result);
                    },
                    Some(existing) => {
                        let fresh = self.matchers[i].try_match(data);
                        let conflicting = match &fresh {
                            Some(new_val) => !bytes_eq(existing, new_val),
                            None => false,
                        };
                        if conflicting {
                            self.conflicts.set(i, true);
                        }
                    },
                }
            }
            i = i + 1;
        }
        assert(self@.results =~= fed(start, *phase, data@).results);
        assert(self@.conflicts =~= fed(start, *phase, data@).conflicts);
    }

    /// The number of distinct matchers.
    pub fn matcher_count(&self) -> (n: usize)
        ensures
            n == self@.matchers.len(),
    {
        self.matchers.len()
    }

    /// Where matcher `m` stands in the session, if it is there.
    fn position(&self, m: &M) -> (p: Option<usize>)
        requires
            self.well_formed(),
            M::obeys_eq_spec(),
        ensures
            match p {
                Some(x) => position_of(self@.matchers, *m) == Some(x as int) && x < self@.matchers.len(),
                None => position_of(self@.matchers, *m) is None,
            },
    {
        let mut i: usize = 0;
        while i < self.matchers.len()
            invariant
                M::obeys_eq_spec(),
                i <= self.matchers@.len(),
                position_of(self.matchers@, *m) == position_from(self.matchers@, *m, i as int),
            decreases self.matchers@.len() - i,
        {
            if self.matchers[i] == *m {
                return Some(i);
            }
            i = i + 1;
        }
        None
    }

    /// What the session found for each matcher of formula `F`, in the formula's
    /// order (`None` for one it did not match, or does not hold).
    pub fn results_for<F: DerivationFormula<Matcher = M>>(&self) -> (r: Vec<Option<Bytes>>)
        requires
            self.well_formed(),
            M::obeys_eq_spec(),
        ensures
            r@.map_values(|b: Option<Bytes>| opt_contents(b)) == formula_results(self@, F::MATCHERS@),
    {
        let wanted = F::MATCHERS;
        let mut out: Vec<Option<Bytes>> = Vec::new();
        let mut i: usize = 0;
        while i < wanted.len()
            invariant
                self.well_formed(),
                M::obeys_eq_spec(),
                wanted@ == F::MATCHERS@,
                i <= wanted@.len(),
                out@.map_values(|b: Option<Bytes>| opt_contents(b)) == formula_results(
                    self@,
                    wanted@.take(i as int),
                ),
            decreases wanted@.len() - i,
        {
            let pos = self.position(&wanted[i]);
            let found = match pos {
                Some(idx) => match &self.results[idx] {
                    Some(b) => Some(bytes_clone(b)),
                    None => None,
                },
                None => None,
            };
            assert(opt_contents(found) == result_of(self@, wanted@[i as int]));
            let ghost before = out@;
            out.push(found);
            assert(out@.map_values(|b: Option<Bytes>| opt_contents(b)) =~= before.map_values(
                |b: Option<Bytes>| opt_contents(b),
            ).push(opt_contents(found)));
            assert(wanted@.take(i as int + 1) == wanted@.take(i as int).push(wanted@[i as int]));
            assert(out@.map_values(|b: Option<Bytes>| opt_contents(b)) =~= formula_results(
                self@,
                wanted@.take(i as int + 1),
            ));
            i = i + 1;
        }
        assert(wanted@.take(wanted@.len() as int) == wanted@);
        out
    }

    /// Whether any matcher of formula `F` that the session holds met a conflicting
    /// duplicate.
    pub fn has_conflicts_for<F: DerivationFormula<Matcher = M>>(&self) -> (b: bool)
        requires
            self.well_formed(),
            M::obeys_eq_spec(),
        ensures
            b == formula_conflicts(self@, F::MATCHERS@),
    {
        let wanted = F::MATCHERS;
        let mut i: usize = 0;
        while i < wanted.len()
            invariant
                self.well_formed(),
                M::obeys_eq_spec(),
                wanted@ == F::MATCHERS@,
                i <= wanted@.len(),
                !formula_conflicts(self@, wanted@.take(i as int)),
            decreases wanted@.len() - i,
        {
            let conflicted = match self.position(&wanted[i]) {
                Some(idx) => self.conflicts[idx],
                None => false,
            };
            assert(wanted@.take(i as int + 1) == wanted@.take(i as int).push(wanted@[i as int]));
            if conflicted {
                assert(conflicted_in(self@, wanted@[i as int]));
                return true;
            }
            i = i + 1;
        }
        assert(wanted@.take(wanted@.len() as int) == wanted@);
        false
    }
}

/// The first position, from `from` on, of an element of `ms` equal to `m` (by the
/// type's `==`), if there is one.
pub open spec fn position_from<M: PartialEq>(ms: Seq<M>, m: M, from: int) -> Option<int>
    decreases ms.len() - from,
{
    if from >= ms.len() {
        None
    } else if ms[from].eq_spec(&m) {
        Some(from)
    } else {
        position_from(ms, m, from + 1)
    }
}

/// The first position of an element of `ms` equal to `m`, if there is one.
pub open spec fn position_of<M: PartialEq>(ms: Seq<M>, m: M) -> Option<int> {
    position_from(ms, m, 0)
}

/// A position found lies in the sequence, at an element equal to `m`.
pub proof fn lemma_position_from_bounds<M: PartialEq>(ms: Seq<M>, m: M, from: int)
    requires
        0 <= from,
    ensures
        position_from(ms, m, from) matches Some(i) ==> from <= i < ms.len() && ms[i].eq_spec(&m),
    decreases ms.len() - from,
{
    if from < ms.len() && !ms[from].eq_spec(&m) {
        lemma_position_from_bounds(ms, m, from + 1);
    }
}

/// What a session found for one matcher.
pub open spec fn result_of<M: PartialEq>(s: SessionModel<M>, m: M) -> Option<Seq<u8>> {
    match position_of(s.matchers, m) {
        Some(i) => s.results[i],
        None => None,
    }
}

/// Whether a matcher the session holds met a conflicting duplicate.
pub open spec fn conflicted_in<M: PartialEq>(s: SessionModel<M>, m: M) -> bool {
    match position_of(s.matchers, m) {
        Some(i) => s.conflicts[i],
        None => false,
    }
}

/// The session's findings for a formula's matchers.
pub open spec fn formula_results<M: PartialEq>(s: SessionModel<M>, wanted: Seq<M>) -> Seq<Option<Seq<u8>>> {
    wanted.map_values(|m: M| result_of(s, m))
}

/// Whether any of a formula's matchers met a conflict.
pub open spec fn formula_conflicts<M: PartialEq>(s: SessionModel<M>, wanted: Seq<M>) -> bool {
    exists|i: int| 0 <= i < wanted.len() && #[trigger] conflicted_in(s, wanted[i])
}

} // verus!
