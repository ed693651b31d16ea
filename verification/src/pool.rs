use vstd::prelude::*;
use std::collections::VecDeque;
use crate::stabling::{
    acquire_from, acquired, always_askable, judged, kept, release_into, released, retain_fresh,
    StablingConfig,
};

verus! {

/// The model of the pool's entries: each routing key with its queue of parked
/// connections, oldest first.
pub open spec fn entries_model<C>(v: Seq<(Vec<u8>, VecDeque<C>)>) -> Seq<(Seq<u8>, Seq<C>)> {
    v.map_values(|e: (Vec<u8>, VecDeque<C>)| (e.0@, e.1@))
}

/// No routing key has two entries.
pub open spec fn keys_distinct<C>(es: Seq<(Seq<u8>, Seq<C>)>) -> bool {
    forall|i: int, j: int| #![trigger es[i], es[j]] 0 <= i < j < es.len() ==> es[i].0 != es[j].0
}

/// Some entry is for `key`.
pub open spec fn holds_key<C>(es: Seq<(Seq<u8>, Seq<C>)>, key: Seq<u8>) -> bool {
    exists|i: int| 0 <= i < es.len() && (#[trigger] es[i]).0 == key
}

/// The queue parked under `key` (empty when there is none).
pub open spec fn queue_in<C>(es: Seq<(Seq<u8>, Seq<C>)>, key: Seq<u8>) -> Seq<C> {
    if holds_key(es, key) {
        es[choose|i: int| 0 <= i < es.len() && (#[trigger] es[i]).0 == key].1
    } else {
        Seq::empty()
    }
}

/// How many connections are parked in all.
pub open spec fn idle_total<C>(es: Seq<(Seq<u8>, Seq<C>)>) -> nat
    decreases es.len(),
{
    if es.len() == 0 {
        0
    } else {
        idle_total(es.drop_last()) + es.last().1.len()
    }
}

proof fn lemma_queue_at<C>(es: Seq<(Seq<u8>, Seq<C>)>, i: int)
    requires
        keys_distinct(es),
        0 <= i < es.len(),
    ensures
        holds_key(es, es[i].0),
        queue_in(es, es[i].0) == es[i].1,
{
    let key = es[i].0;
    assert(es[i].0 == key);
    let j = choose|j: int| 0 <= j < es.len() && (#[trigger] es[j]).0 == key;
    if j < i {
        assert(es[j].0 != es[i].0);
    } else if j > i {
        assert(es[i].0 != es[j].0);
    }
}

/// The queue under a key after the entry at `i` is replaced by `x`, with the same key.
proof fn lemma_queue_update<C>(es: Seq<(Seq<u8>, Seq<C>)>, i: int, x: (Seq<u8>, Seq<C>))
    requires
        keys_distinct(es),
        0 <= i < es.len(),
        x.0 == es[i].0,
    ensures
        keys_distinct(es.update(i, x)),
        forall|k: Seq<u8>|
            #[trigger] queue_in(es.update(i, x), k) == if k == x.0 {
                x.1
            } else {
                queue_in(es, k)
            },
{
    let es2 = es.update(i, x);
    assert(keys_distinct(es2)) by {
        assert forall|a: int, b: int| 0 <= a < b < es2.len() implies es2[a].0 != es2[b].0 by {
            assert(es[a].0 != es[b].0);
        }
    }
    assert forall|k: Seq<u8>| #[trigger] queue_in(es2, k) == if k == x.0 {
        x.1
    } else {
        queue_in(es, k)
    } by {
        if k == x.0 {
            lemma_queue_at(es2, i);
        } else if holds_key(es, k) {
            let j = choose|j: int| 0 <= j < es.len() && (#[trigger] es[j]).0 == k;
            lemma_queue_at(es, j);
            lemma_queue_at(es2, j);
        } else {
            assert(!holds_key(es2, k)) by {
                if holds_key(es2, k) {
                    let j = choose|j: int| 0 <= j < es2.len() && (#[trigger] es2[j]).0 == k;
                    assert(es[j].0 == k);
                }
            }
        }
    }
}

/// The queue under a key after an entry for a new key is added.
proof fn lemma_queue_push<C>(es: Seq<(Seq<u8>, Seq<C>)>, x: (Seq<u8>, Seq<C>))
    requires
        keys_distinct(es),
        !holds_key(es, x.0),
    ensures
        keys_distinct(es.push(x)),
        forall|k: Seq<u8>|
            #[trigger] queue_in(es.push(x), k) == if k == x.0 {
                x.1
            } else {
                queue_in(es, k)
            },
{
    let es2 = es.push(x);
    assert(keys_distinct(es2)) by {
        assert forall|a: int, b: int| 0 <= a < b < es2.len() implies es2[a].0 != es2[b].0 by {
            if b == es.len() {
                assert(es[a].0 == es2[a].0);
            } else {
                assert(es[a].0 != es[b].0);
            }
        }
    }
    assert forall|k: Seq<u8>| #[trigger] queue_in(es2, k) == if k == x.0 {
        x.1
    } else {
        queue_in(es, k)
    } by {
        if k == x.0 {
            lemma_queue_at(es2, es.len() as int);
        } else if holds_key(es, k) {
            let j = choose|j: int| 0 <= j < es.len() && (#[trigger] es[j]).0 == k;
            lemma_queue_at(es, j);
            lemma_queue_at(es2, j);
        } else {
            assert(!holds_key(es2, k)) by {
                if holds_key(es2, k) {
                    let j = choose|j: int| 0 <= j < es2.len() && (#[trigger] es2[j]).0 == k;
                    assert(es[j].0 == k);
                }
            }
        }
    }
}

/// The queue under a key after the entry at `i` is taken out.
proof fn lemma_queue_remove<C>(es: Seq<(Seq<u8>, Seq<C>)>, i: int)
    requires
        keys_distinct(es),
        0 <= i < es.len(),
    ensures
        keys_distinct(es.remove(i)),
        forall|k: Seq<u8>|
            #[trigger] queue_in(es.remove(i), k) == if k == es[i].0 {
                Seq::<C>::empty()
            } else {
                queue_in(es, k)
            },
{
    let es2 = es.remove(i);
    assert(keys_distinct(es2)) by {
        assert forall|a: int, b: int| 0 <= a < b < es2.len() implies es2[a].0 != es2[b].0 by {
            let a0 = if a < i { a } else { a + 1 };
            let b0 = if b < i { b } else { b + 1 };
            assert(es2[a] == es[a0]);
            assert(es2[b] == es[b0]);
            assert(es[a0].0 != es[b0].0);
        }
    }
    assert forall|k: Seq<u8>| #[trigger] queue_in(es2, k) == if k == es[i].0 {
        Seq::<C>::empty()
    } else {
        queue_in(es, k)
    } by {
        if holds_key(es2, k) {
            let j = choose|j: int| 0 <= j < es2.len() && (#[trigger] es2[j]).0 == k;
            let j0 = if j < i { j } else { j + 1 };
            assert(es2[j] == es[j0]);
            lemma_queue_at(es2, j);
            lemma_queue_at(es, j0);
            if k == es[i].0 {
                assert(j0 != i);
                if j0 < i {
                    assert(es[j0].0 != es[i].0);
                } else {
                    assert(es[i].0 != es[j0].0);
                }
            }
        } else if holds_key(es, k) && k != es[i].0 {
            let j = choose|j: int| 0 <= j < es.len() && (#[trigger] es[j]).0 == k;
            assert(j != i);
            let j2 = if j < i { j } else { j - 1 };
            assert(es2[j2] == es[j]);
            assert(holds_key(es2, k));
        }
    }
}

proof fn lemma_total_update<C>(es: Seq<(Seq<u8>, Seq<C>)>, i: int, x: (Seq<u8>, Seq<C>))
    requires
        0 <= i < es.len(),
    ensures
        idle_total(es.update(i, x)) + es[i].1.len() == idle_total(es) + x.1.len(),
    decreases es.len(),
{
    if i < es.len() - 1 {
        assert(es.update(i, x).drop_last() == es.drop_last().update(i, x));
        lemma_total_update(es.drop_last(), i, x);
    } else {
        assert(es.update(i, x).drop_last() == es.drop_last());
    }
}

proof fn lemma_total_remove<C>(es: Seq<(Seq<u8>, Seq<C>)>, i: int)
    requires
        0 <= i < es.len(),
    ensures
        idle_total(es.remove(i)) + es[i].1.len() == idle_total(es),
    decreases es.len(),
{
    if i < es.len() - 1 {
        assert(es.remove(i).drop_last() == es.drop_last().remove(i));
        lemma_total_remove(es.drop_last(), i);
    } else {
        assert(es.remove(i) == es.drop_last());
    }
}

/// A prefix of the entries holds no more connections than all of them.
proof fn lemma_total_prefix<C>(es: Seq<(Seq<u8>, Seq<C>)>, n: int)
    requires
        0 <= n <= es.len(),
    ensures
        idle_total(es.take(n)) <= idle_total(es),
    decreases es.len(),
{
    if n < es.len() {
        assert(es.drop_last().take(n) == es.take(n));
        lemma_total_prefix(es.drop_last(), n);
    } else {
        assert(es.take(n) == es);
    }
}

/// Keeping some of a queue's connections never makes it longer.
proof fn lemma_kept_len<C>(s: Seq<C>, keep: Seq<bool>)
    requires
        keep.len() == s.len(),
    ensures
        kept(s, keep).len() <= s.len(),
    decreases s.len(),
{
    if s.len() > 0 {
        lemma_kept_len(s.drop_last(), keep.drop_last());
    }
}

/// Whether two byte strings are the same.
fn same_bytes(a: &[u8], b: &[u8]) -> (r: bool)
    ensures
        r == (a@ == b@),
{
    if a.len() != b.len() {
        return false;
    }
    let mut i: usize = 0;
    while i < a.len()
        invariant
            a@.len() == b@.len(),
            i <= a@.len(),
            forall|k: int| 0 <= k < i ==> a@[k] == b@[k],
        decreases a@.len() - i,
    {
        if a[i] != b[i] {
            return false;
        }
        i = i + 1;
    }
    assert(a@ =~= b@);
    true
}

/// An owned copy of a byte string.
fn owned_bytes(a: &[u8]) -> (v: Vec<u8>)
    ensures
        v@ == a@,
{
    let mut v: Vec<u8> = Vec::new();
    let mut i: usize = 0;
    while i < a.len()
        invariant
            i <= a@.len(),
            v@ == a@.take(i as int),
        decreases a@.len() - i,
    {
        v.push(a[i]);
        assert(a@.take(i as int + 1) == a@.take(i as int).push(a@[i as int]));
        i = i + 1;
    }
    assert(a@.take(a@.len() as int) == a@);
    v
}

/// What reaping can leave of a queue: the connections the freshness test
/// accepted, in their order.
pub open spec fn reaped<C, P: Fn(&C) -> bool>(before: Seq<C>, after: Seq<C>, fresh: P) -> bool {
    exists|keep: Seq<bool>|
        #![trigger kept(before, keep)]
        keep.len() == before.len() && (forall|i: int|
            0 <= i < keep.len() ==> judged(fresh, before[i], #[trigger] keep[i])) && after == kept(
            before,
            keep,
        )
}

/// The idle upstream connections, parked per routing key.
pub struct Stabling<C> {
    config: StablingConfig,
    idle: Vec<(Vec<u8>, VecDeque<C>)>,
    total: usize,
}

impl<C> Stabling<C> {
    /// The keys with their queues, in the pool's order.
    pub closed spec fn entries(&self) -> Seq<(Seq<u8>, Seq<C>)> {
        entries_model(self.idle@)
    }

    pub closed spec fn well_formed(&self) -> bool {
        &&& keys_distinct(self.entries())
        &&& self.total == idle_total(self.entries())
    }

    /// How the pool was configured.
    pub closed spec fn config(&self) -> StablingConfig {
        self.config
    }

    /// The connections parked under `key`, oldest first.
    pub open spec fn queue(&self, key: Seq<u8>) -> Seq<C> {
        queue_in(self.entries(), key)
    }

    /// How many connections are parked in all.
    pub open spec fn idle(&self) -> nat {
        idle_total(self.entries())
    }

    /// An empty pool.
    pub fn new(config: StablingConfig) -> (s: Self)
        ensures
            s.well_formed(),
            s.config() == config,
            forall|k: Seq<u8>| #[trigger] s.queue(k) == Seq::<C>::empty(),
            s.idle() == 0,
    {
        let s = Stabling { config, idle: Vec::new(), total: 0 };
        assert(s.entries() =~= Seq::<(Seq<u8>, Seq<C>)>::empty());
        s
    }

    /// The position of the entry for `key`, if there is one.
    fn find(&self, key: &[u8]) -> (p: Option<usize>)
        requires
            self.well_formed(),
        ensures
            match p {
                Some(i) => i < self.entries().len() && self.entries()[i as int].0 == key@,
                None => !holds_key(self.entries(), key@),
            },
    {
        let mut i: usize = 0;
        while i < self.idle.len()
            invariant
                i <= self.idle@.len(),
                self.entries() == entries_model(self.idle@),
                forall|j: int| 0 <= j < i ==> (#[trigger] self.entries()[j]).0 != key@,
            decreases self.idle@.len() - i,
        {
            if same_bytes(self.idle[i].0.as_slice(), key) {
                return Some(i);
            }
            i = i + 1;
        }
        None
    }

    /// Takes the most recently parked connection under `key` that `fresh` accepts,
    /// dropping the stale ones met on the way; a key whose queue empties is
    /// forgotten. A disabled pool hands out nothing and changes nothing.
    pub fn acquire<P: Fn(&C) -> bool>(&mut self, key: &[u8], fresh: &P) -> (r: Option<C>)
        requires
            old(self).well_formed(),
            always_askable::<C, P>(*fresh),
        ensures
            final(self).well_formed(),
            final(self).config() == old(self).config(),
            !old(self).config().enabled ==> r is None && forall|k: Seq<u8>|
                #[trigger] final(self).queue(k) == old(self).queue(k),
            old(self).config().enabled ==> acquired(
                old(self).queue(key@),
                final(self).queue(key@),
                r,
                *fresh,
            ),
            forall|k: Seq<u8>| k != key@ ==> #[trigger] final(self).queue(k) == old(self).queue(k),
            final(self).idle() + old(self).queue(key@).len()
                == old(self).idle() + final(self).queue(key@).len(),
    {
        if !self.config.enabled {
            return None;
        }
        let ghost es = self.entries();
        match self.find(key) {
            None => {
                proof {
                    assert(self.queue(key@) == Seq::<C>::empty());
                }
                None
            },
            Some(i) => {
                proof {
                    lemma_queue_at(es, i as int);
                    lemma_total_remove(es, i as int);
                }
                let (k, mut q) = self.idle.remove(i);
                let ghost q0 = q@;
                assert(q0 == es[i as int].1 && k@ == key@);
                let old_len = q.len();
                let r = acquire_from(&mut q, fresh);
                let new_len = q.len();
                proof {
                    lemma_kept_or_taken_len::<C, P>(q0, q@, r, *fresh);
                }
                self.total = self.total - (old_len - new_len);
                if new_len > 0 {
                    self.idle.insert(i, (k, q));
                    proof {
                        assert(self.entries() =~= es.update(i as int, (key@, q@)));
                        lemma_queue_update(es, i as int, (key@, q@));
                        lemma_total_update(es, i as int, (key@, q@));
                        assert(self.queue(key@) == q@);
                    }
                } else {
                    proof {
                        assert(self.entries() =~= es.remove(i as int));
                        lemma_queue_remove(es, i as int);
                        lemma_total_remove(es, i as int);
                        assert(q@ =~= Seq::<C>::empty());
                        assert(self.queue(key@) == q@);
                    }
                }
                assert(old(self).queue(key@) == q0);
                r
            },
        }
    }

    /// Parks a connection under `key`, at the back of its queue; the oldest one is
    /// dropped first when the queue already holds `max_idle_per_host` or more. A
    /// disabled pool changes nothing.
    pub fn release(&mut self, key: &[u8], conn: C)
        requires
            old(self).well_formed(),
            old(self).idle() < usize::MAX,
        ensures
            final(self).well_formed(),
            final(self).config() == old(self).config(),
            !old(self).config().enabled ==> forall|k: Seq<u8>|
                #[trigger] final(self).queue(k) == old(self).queue(k),
            old(self).config().enabled ==> final(self).queue(key@) == released(
                old(self).queue(key@),
                conn,
                old(self).config().max_idle_per_host,
            ),
            forall|k: Seq<u8>| k != key@ ==> #[trigger] final(self).queue(k) == old(self).queue(k),
            final(self).idle() + old(self).queue(key@).len()
                == old(self).idle() + final(self).queue(key@).len(),
    {
        if !self.config.enabled {
            return;
        }
        let ghost es = self.entries();
        let max = self.config.max_idle_per_host;
        match self.find(key) {
            None => {
                let mut q: VecDeque<C> = VecDeque::new();
                release_into(&mut q, conn, max);
                let k = owned_bytes(key);
                self.idle.push((k, q));
                self.total = self.total + 1;
                proof {
                    assert(q@.len() == 1);
                    assert(self.entries() =~= es.push((key@, q@)));
                    lemma_queue_push(es, (key@, q@));
                    assert(es.push((key@, q@)).drop_last() == es);
                }
            },
            Some(i) => {
                proof {
                    lemma_queue_at(es, i as int);
                    lemma_total_remove(es, i as int);
                }
                let (k, mut q) = self.idle.remove(i);
                assert(q@ == es[i as int].1 && k@ == key@);
                let old_len = q.len();
                release_into(&mut q, conn, max);
                let new_len = q.len();
                self.total = self.total - old_len + new_len;
                self.idle.insert(i, (k, q));
                proof {
                    assert(self.entries() =~= es.update(i as int, (key@, q@)));
                    lemma_queue_update(es, i as int, (key@, q@));
                    lemma_total_update(es, i as int, (key@, q@));
                }
            },
        }
    }

    /// Keeps only the connections `fresh` still accepts, in their order, and
    /// forgets the keys left with none.
    pub fn reap_expired<P: Fn(&C) -> bool>(&mut self, fresh: &P)
        requires
            old(self).well_formed(),
            always_askable::<C, P>(*fresh),
        ensures
            final(self).well_formed(),
            final(self).config() == old(self).config(),
            forall|k: Seq<u8>| #[trigger] reaped(old(self).queue(k), final(self).queue(k), *fresh),
    {
        let ghost es = self.entries();
        let mut rest: Vec<(Vec<u8>, VecDeque<C>)> = Vec::new();
        std::mem::swap(&mut rest, &mut self.idle);
        let mut total: usize = 0;
        let ghost cfg = self.config();
        let ghost mut n: int = 0;
        assert(entries_model(rest@) == es);
        let ghost mut keeps: Seq<Seq<bool>> = Seq::empty();
        proof {
            lemma_total_prefix(es, 0);
            assert(entries_model(self.idle@) =~= Seq::<(Seq<u8>, Seq<C>)>::empty());
        }
        while rest.len() > 0
            invariant
                always_askable::<C, P>(*fresh),
                self.config() == cfg,
                cfg == old(self).config(),
                keys_distinct(es),
                idle_total(es) <= usize::MAX,
                0 <= n <= es.len(),
                entries_model(rest@) == es.skip(n),
                keeps.len() == n,
                keys_distinct(entries_model(self.idle@)),
                total == idle_total(entries_model(self.idle@)),
                total <= idle_total(es.take(n)),
                idle_total(es.take(n)) <= idle_total(es),
                forall|j: int|
                    0 <= j < n ==> (#[trigger] keeps[j]).len() == es[j].1.len() && (forall|i: int|
                        0 <= i < keeps[j].len() ==> judged(*fresh, es[j].1[i], #[trigger] keeps[j][i]))
                        && queue_in(entries_model(self.idle@), es[j].0) == kept(es[j].1, keeps[j]),
                forall|k: Seq<u8>|
                    !holds_key(es.take(n), k) ==> !holds_key(#[trigger] entries_model(self.idle@), k),
            decreases rest@.len(),
        {
            let ghost before = entries_model(self.idle@);
            let ghost rest0 = rest@;
            assert(entries_model(rest0).len() == rest0.len());
            let (k, mut q) = rest.remove(0);
            proof {
                assert(n < es.len());
                assert(entries_model(rest0)[0] == es[n]);
                assert(k@ == es[n].0 && q@ == es[n].1);
                assert(rest@ =~= rest0.subrange(1, rest0.len() as int));
                assert forall|i: int| 0 <= i < rest@.len() implies #[trigger] entries_model(rest@)[i] == es.skip(n + 1)[i] by {
                    assert(rest@[i] == rest0[i + 1]);
                    assert(entries_model(rest0)[i + 1] == es.skip(n)[i + 1]);
                }
                assert(entries_model(rest@) =~= es.skip(n + 1));
                lemma_total_prefix(es, n + 1);
                assert(es.take(n + 1).drop_last() =~= es.take(n));
            }
            retain_fresh(&mut q, fresh);
            let ghost keep = choose|keep: Seq<bool>|
                #![trigger kept(es[n].1, keep)]
                keep.len() == es[n].1.len() && (forall|i: int|
                    0 <= i < keep.len() ==> judged(*fresh, es[n].1[i], #[trigger] keep[i]))
                    && q@ == kept(es[n].1, keep);
            proof {
                lemma_kept_len(es[n].1, keep);
                assert(!holds_key(before, k@)) by {
                    if holds_key(es.take(n), k@) {
                        let j = choose|j: int| 0 <= j < es.take(n).len() && (#[trigger] es.take(n)[j]).0 == k@;
                        assert(es[j].0 != es[n].0);
                    }
                }
            }
            if q.len() > 0 {
                total = total + q.len();
                self.idle.push((k, q));
                proof {
                    assert(entries_model(self.idle@) =~= before.push((k@, q@)));
                    lemma_queue_push(before, (k@, q@));
                    assert(before.push((k@, q@)).drop_last() == before);
                }
            } else {
                proof {
                    assert(q@ =~= Seq::<C>::empty());
                }
            }
            proof {
                let after = entries_model(self.idle@);
                assert forall|j: int| 0 <= j < n implies queue_in(after, es[j].0) == queue_in(before, es[j].0) by {
                    assert(es[j].0 != es[n].0);
                }
                assert(queue_in(after, es[n].0) == kept(es[n].1, keep));
                assert forall|kk: Seq<u8>| !holds_key(es.take(n + 1), kk) implies !holds_key(
                    #[trigger] entries_model(self.idle@),
                    kk,
                ) by {
                    if holds_key(es.take(n), kk) {
                        let j = choose|j: int| 0 <= j < es.take(n).len() && (#[trigger] es.take(n)[j]).0 == kk;
                        assert(es.take(n + 1)[j].0 == kk);
                    }
                    if kk == k@ {
                        assert(es.take(n + 1)[n].0 == kk);
                    }
                }
                keeps = keeps.push(keep);
                n = n + 1;
            }
        }
        proof {
            assert(es.skip(n).len() == 0);
            assert(es.take(n) =~= es);
        }
        self.total = total;
        proof {
            assert(es == old(self).entries());
            let fin = self.entries();
            assert forall|kk: Seq<u8>| #![trigger queue_in(fin, kk)] exists|keep: Seq<bool>|
                #![trigger kept(queue_in(es, kk), keep)]
                keep.len() == queue_in(es, kk).len() && (forall|i: int|
                    0 <= i < keep.len() ==> judged(*fresh, queue_in(es, kk)[i], #[trigger] keep[i]))
                    && queue_in(fin, kk) == kept(queue_in(es, kk), keep) by {
                if holds_key(es, kk) {
                    let j = choose|j: int| 0 <= j < es.len() && (#[trigger] es[j]).0 == kk;
                    lemma_queue_at(es, j);
                    assert(keeps[j].len() == es[j].1.len());
                    assert(kept(queue_in(es, kk), keeps[j]) == queue_in(fin, kk));
                } else {
                    assert(!holds_key(fin, kk));
                    assert(kept(queue_in(es, kk), Seq::<bool>::empty()) == Seq::<C>::empty());
                }
            }
            assert forall|k: Seq<u8>| #[trigger] reaped(old(self).queue(k), self.queue(k), *fresh) by {
                assert(queue_in(fin, k) == self.queue(k));
                assert(old(self).queue(k) == queue_in(es, k));
            }
        }
    }

    /// How many connections are parked in all.
    pub fn idle_count(&self) -> (n: usize)
        requires
            self.well_formed(),
        ensures
            n == self.idle(),
    {
        self.total
    }
}

/// After taking a connection off a queue, the queue is no longer than before, and
/// one shorter when a connection was handed out.
proof fn lemma_kept_or_taken_len<C, P: Fn(&C) -> bool>(
    before: Seq<C>,
    after: Seq<C>,
    r: Option<C>,
    fresh: P,
)
    requires
        acquired(before, after, r, fresh),
    ensures
        after.len() <= before.len(),
{
}

} // verus!
