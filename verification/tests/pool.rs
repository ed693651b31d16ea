use std::collections::VecDeque;
use railscale::stabling::{acquire_from, release_into, retain_fresh};

#[test]
fn newest_fresh_connection_is_taken_first() {
    let mut q: VecDeque<u32> = VecDeque::new();
    release_into(&mut q, 1, 8);
    release_into(&mut q, 2, 8);
    release_into(&mut q, 3, 8);
    assert_eq!(acquire_from(&mut q, &|c: &u32| *c != 3), Some(2));
    assert_eq!(q, VecDeque::from(vec![1]));
    assert_eq!(acquire_from(&mut q, &|_: &u32| false), None);
    assert!(q.is_empty());
}

#[test]
fn full_queue_drops_its_oldest() {
    let mut q: VecDeque<u32> = VecDeque::new();
    for c in 1..=3 {
        release_into(&mut q, c, 2);
    }
    assert_eq!(q, VecDeque::from(vec![2, 3]));
    let mut zero: VecDeque<u32> = VecDeque::new();
    release_into(&mut zero, 1, 0);
    release_into(&mut zero, 2, 0);
    assert_eq!(zero, VecDeque::from(vec![2]));
}

#[test]
fn reaping_keeps_fresh_ones_in_order() {
    let mut q: VecDeque<u32> = VecDeque::from(vec![5, 1, 6, 2, 7]);
    retain_fresh(&mut q, &|c: &u32| *c > 4);
    assert_eq!(q, VecDeque::from(vec![5, 6, 7]));
}

#[test]
fn parked_connection_is_taken_next() {
    let mut q: VecDeque<u32> = VecDeque::from(vec![1, 2]);
    release_into(&mut q, 9, 2);
    assert_eq!(acquire_from(&mut q, &|_: &u32| true), Some(9));
    assert_eq!(q, VecDeque::from(vec![2]));
}

fn config(max_idle_per_host: usize, enabled: bool) -> railscale::stabling::StablingConfig {
    railscale::stabling::StablingConfig {
        max_idle_per_host,
        max_total_idle: 64,
        idle_timeout: std::time::Duration::from_secs(90),
        enabled,
    }
}

#[test]
fn keyed_pool_hands_back_what_was_parked_under_the_key() {
    let mut p = railscale::pool::Stabling::new(config(8, true));
    p.release(b"a.example", 1u32);
    p.release(b"b.example", 2u32);
    p.release(b"a.example", 3u32);
    assert_eq!(p.idle_count(), 3);
    assert_eq!(p.acquire(b"a.example", &|_: &u32| true), Some(3));
    assert_eq!(p.idle_count(), 2);
    assert_eq!(p.acquire(b"a.example", &|_: &u32| true), Some(1));
    assert_eq!(p.acquire(b"a.example", &|_: &u32| true), None);
    assert_eq!(p.acquire(b"c.example", &|_: &u32| true), None);
    assert_eq!(p.idle_count(), 1);
}

#[test]
fn keyed_pool_drops_stale_connections() {
    let mut p = railscale::pool::Stabling::new(config(8, true));
    for c in [5u32, 1, 6, 2] {
        p.release(b"k", c);
    }
    p.release(b"j", 1);
    p.reap_expired(&|c: &u32| *c > 4);
    assert_eq!(p.idle_count(), 2);
    assert_eq!(p.acquire(b"k", &|_: &u32| true), Some(6));
    assert_eq!(p.acquire(b"j", &|_: &u32| true), None);
    assert_eq!(p.acquire(b"k", &|c: &u32| *c != 5), None);
    assert_eq!(p.idle_count(), 0);
}

#[test]
fn disabled_pool_keeps_nothing() {
    let mut p = railscale::pool::Stabling::new(config(8, false));
    p.release(b"k", 1u32);
    assert_eq!(p.idle_count(), 0);
    assert_eq!(p.acquire(b"k", &|_: &u32| true), None);
}

#[test]
fn keyed_pool_bounds_each_host() {
    let mut p = railscale::pool::Stabling::new(config(2, true));
    for c in [1u32, 2, 3] {
        p.release(b"k", c);
    }
    assert_eq!(p.idle_count(), 2);
    assert_eq!(p.acquire(b"k", &|_: &u32| true), Some(3));
    assert_eq!(p.acquire(b"k", &|_: &u32| true), Some(2));
    assert_eq!(p.acquire(b"k", &|_: &u32| true), None);
}
