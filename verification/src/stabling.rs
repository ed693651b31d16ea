use vstd::prelude::*;
use std::collections::VecDeque;
use std::time::Duration;
use crate::flow::{duration_from_secs, seconds};

verus! {

/// How idle upstream connections are kept for reuse.
pub struct StablingConfig {
    pub max_idle_per_host: usize,
    pub max_total_idle: usize,
    pub idle_timeout: Duration,
    pub enabled: bool,
}

impl Default for StablingConfig {
    /// Eight idle connections per host, sixty-four in all, kept for ninety seconds.
    fn default() -> (c: Self)
        ensures
            c.max_idle_per_host == 8,
            c.max_total_idle == 64,
            c.idle_timeout == seconds(90),
            c.enabled,
    {
        StablingConfig {
            max_idle_per_host: 8,
            max_total_idle: 64,
            idle_timeout: duration_from_secs(90),
            enabled: true,
        }
    }
}

/// The answer the freshness test gives for a parked connection.
pub open spec fn judged<C, P: Fn(&C) -> bool>(fresh: P, c: C, answer: bool) -> bool {
    call_ensures(fresh, (&c,), answer)
}

/// The freshness test may be asked about any connection.
pub open spec fn always_askable<C, P: Fn(&C) -> bool>(fresh: P) -> bool {
    forall|c: &C| #[trigger] call_requires(fresh, (c,))
}

/// The entries of `s` whose `keep` flag is set, in order.
pub open spec fn kept<C>(s: Seq<C>, keep: Seq<bool>) -> Seq<C>
    decreases s.len(),
{
    if s.len() == 0 {
        Seq::empty()
    } else {
        let rest = kept(s.drop_last(), keep.drop_last());
        if keep.last() {
            rest.push(s.last())
        } else {
            rest
        }
    }
}

/// What taking a connection off a queue can do: hand out the most recently parked
/// connection the test found fresh, dropping the stale ones behind it; or, when all
/// were found stale, empty the queue.
pub open spec fn acquired<C, P: Fn(&C) -> bool>(
    before: Seq<C>,
    after: Seq<C>,
    r: Option<C>,
    fresh: P,
) -> bool {
    match r {
        Some(c) => exists|k: int|
            0 <= k < before.len() && #[trigger] before[k] == c && after == before.take(k) && judged(
                fresh,
                c,
                true,
            ) && forall|j: int| k < j < before.len() ==> judged(fresh, #[trigger] before[j], false),
        None => after.len() == 0 && forall|j: int|
            0 <= j < before.len() ==> judged(fresh, #[trigger] before[j], false),
    }
}

/// A queue after parking `conn`: at the back, the oldest dropped first when the
/// queue is full.
pub open spec fn released<C>(before: Seq<C>, conn: C, max_idle_per_host: usize) -> Seq<C> {
    if before.len() >= max_idle_per_host && before.len() > 0 {
        before.drop_first().push(conn)
    } else {
        before.push(conn)
    }
}

/// Takes the most recently parked connection that is still fresh off the back of a
/// host's queue; the stale ones met on the way are dropped. `None` (with the queue
/// emptied) when every parked connection was stale.
pub fn acquire_from<C, P: Fn(&C) -> bool>(queue: &mut VecDeque<C>, fresh: &P) -> (r: Option<C>)
    requires
        always_askable::<C, P>(*fresh),
    ensures
        acquired(old(queue)@, final(queue)@, r, *fresh),
{
    let ghost start = queue@;
    while queue.len() > 0
        invariant
            always_askable::<C, P>(*fresh),
            start == old(queue)@,
            queue@.len() <= start.len(),
            queue@ == start.take(queue@.len() as int),
            forall|j: int| queue@.len() <= j < start.len() ==> judged(*fresh, #[trigger] start[j], false),
        decreases queue@.len(),
    {
        let conn = queue.pop_back().unwrap();
        let k = queue.len();
        assert(start[k as int] == conn);
        if fresh(&conn) {
            assert(queue@ == start.take(k as int));
            return Some(conn);
        }
        assert(start.take(k as int + 1).take(k as int) == start.take(k as int));
    }
    None
}

/// Parks a connection at the back of a host's queue, dropping the oldest one first
/// when the queue already holds `max_idle_per_host` or more.
pub fn release_into<C>(queue: &mut VecDeque<C>, conn: C, max_idle_per_host: usize)
    ensures
        final(queue)@ == released(old(queue)@, conn, max_idle_per_host),
{
    if queue.len() >= max_idle_per_host {
        let _ = queue.pop_front();
    }
    queue.push_back(conn);
}

/// Keeps only the connections the freshness test still accepts, in their order.
pub fn retain_fresh<C, P: Fn(&C) -> bool>(queue: &mut VecDeque<C>, fresh: &P)
    requires
        always_askable::<C, P>(*fresh),
    ensures
        exists|keep: Seq<bool>|
            #![trigger kept(old(queue)@, keep)]
            keep.len() == old(queue)@.len() && (forall|i: int|
                0 <= i < keep.len() ==> judged(*fresh, old(queue)@[i], #[trigger] keep[i]))
                && final(queue)@ == kept(old(queue)@, keep),
{
    let ghost start = queue@;
    let n = queue.len();
    let mut i: usize = 0;
    let ghost mut keep: Seq<bool> = Seq::empty();
    while i < n
        invariant
            always_askable::<C, P>(*fresh),
            n == start.len(),
            i <= n,
            keep.len() == i,
            forall|x: int| 0 <= x < i ==> judged(*fresh, start[x], #[trigger] keep[x]),
            queue@ == start.skip(i as int) + kept(start.take(i as int), keep),
        decreases n - i,
    {
        let ghost before = queue@;
        let ghost old_keep = keep;
        assert(before == start.skip(i as int) + kept(start.take(i as int), old_keep));
        let conn = queue.pop_front().unwrap();
        assert(conn == start[i as int]);
        assert(queue@ == start.skip(i as int + 1) + kept(start.take(i as int), old_keep));
        let ok = fresh(&conn);
        proof {
            keep = keep.push(ok);
            assert(start.take(i as int + 1).drop_last() == start.take(i as int));
            assert(start.take(i as int + 1).last() == conn);
            assert(keep.drop_last() == old_keep);
            assert(keep.last() == ok);
        }
        if ok {
            queue.push_back(conn);
        }
        assert(start.skip(i as int + 1) == start.skip(i as int).drop_first());
        assert(queue@ == start.skip(i as int + 1) + kept(start.take(i as int + 1), keep));
        i = i + 1;
    }
    assert(start.take(n as int) == start);
    assert(start.skip(n as int) == Seq::<C>::empty());
    assert(queue@ == kept(start, keep));
}

} // verus!
