use rtic::time::{instant_le, instant_reached, Duration, Instant, HALF_RANGE};
use rtic::timer_queue::{TimerQueue, TimeoutError, WakeEntry};

fn at(ticks: u64) -> Instant {
    Instant::from_ticks(ticks)
}

#[test]
fn wraparound_half_range_orders_forward() {
    // an instant just under half the counter range ahead still compares
    // as after now, even across the wrap
    let now = at(u64::MAX - 5);
    let ahead = now.plus(Duration::from_ticks(HALF_RANGE - 1));
    assert!(instant_le(now, ahead));
    assert!(!instant_le(ahead, now));
    assert!(!instant_reached(now, ahead));
    assert!(instant_reached(ahead, now));
}

#[test]
fn wraparound_small_delay_crosses_wrap() {
    let now = at(u64::MAX - 5);
    let wake = now.plus(Duration::from_ticks(10));
    assert_eq!(wake.ticks, 4);
    assert!(!instant_reached(now, wake));
    let later = at(6);
    assert!(instant_reached(later, wake));
}

#[test]
fn comparison_is_reflexive_and_antisymmetric() {
    let a = at(1234);
    assert!(instant_le(a, a));
    let b = at(1235);
    assert!(instant_le(a, b));
    assert!(!instant_le(b, a));
}

#[test]
fn insert_keeps_ascending_order_any_insertion_order() {
    // t1 < t2 < t3 inserted as t3, t1, t2
    let mut q = TimerQueue::new();
    assert!(q.insert(WakeEntry { waiter: 3, instant: at(30) }));
    assert!(q.insert(WakeEntry { waiter: 1, instant: at(10) }));
    assert!(!q.insert(WakeEntry { waiter: 2, instant: at(20) }));
    let woken = q.pop_expired(at(35));
    let ids: Vec<u32> = woken.iter().map(|e| e.waiter).collect();
    assert_eq!(ids, vec![1, 2, 3]);
    assert!(q.is_empty());
}

#[test]
fn insert_other_orders_fire_identically() {
    let orders: [[u64; 3]; 3] = [[10, 20, 30], [20, 30, 10], [30, 20, 10]];
    for order in orders.iter() {
        let mut q = TimerQueue::new();
        for &t in order.iter() {
            q.insert(WakeEntry {
                waiter: t as u32,
                instant: at(t),
            });
        }
        let woken = q.pop_expired(at(100));
        let ts: Vec<u64> = woken.iter().map(|e| e.instant.ticks).collect();
        assert_eq!(ts, vec![10, 20, 30]);
    }
}

#[test]
fn equal_instants_keep_insertion_order() {
    let mut q = TimerQueue::new();
    q.insert(WakeEntry { waiter: 7, instant: at(10) });
    q.insert(WakeEntry { waiter: 8, instant: at(10) });
    let woken = q.pop_expired(at(10));
    let ids: Vec<u32> = woken.iter().map(|e| e.waiter).collect();
    assert_eq!(ids, vec![7, 8]);
}

#[test]
fn queue_orders_across_the_counter_wrap() {
    // a wake just before the wrap, then one just after it: the later
    // (wrapped) instant must not displace the earlier head
    let mut q = TimerQueue::new();
    assert!(q.insert(WakeEntry { waiter: 1, instant: at(u64::MAX - 100) }));
    let new_head = q.insert(WakeEntry { waiter: 2, instant: at(5) });
    assert!(!new_head);
    assert_eq!(q.next_wake(), Some(at(u64::MAX - 100)));
    // the pre-wrap entry is due first and alone
    let woken = q.pop_expired(at(u64::MAX - 50));
    let ids: Vec<u32> = woken.iter().map(|e| e.waiter).collect();
    assert_eq!(ids, vec![1]);
    assert_eq!(q.next_wake(), Some(at(5)));
    // after the wrap the second entry fires
    let woken2 = q.pop_expired(at(10));
    assert_eq!(woken2.len(), 1);
    assert_eq!(woken2[0].waiter, 2);
    assert!(q.is_empty());
}

#[test]
fn wake_before_the_head_becomes_the_new_head_across_wrap() {
    let mut q = TimerQueue::new();
    q.insert(WakeEntry { waiter: 1, instant: at(7) });
    // an earlier instant on the far side of the wrap takes the head
    let new_head = q.insert(WakeEntry { waiter: 2, instant: at(u64::MAX - 3) });
    assert!(new_head);
    assert_eq!(q.next_wake(), Some(at(u64::MAX - 3)));
}

#[test]
fn pop_expired_takes_only_the_due_prefix() {
    let mut q = TimerQueue::new();
    q.insert(WakeEntry { waiter: 1, instant: at(10) });
    q.insert(WakeEntry { waiter: 2, instant: at(20) });
    q.insert(WakeEntry { waiter: 3, instant: at(30) });
    let woken = q.pop_expired(at(25));
    let ids: Vec<u32> = woken.iter().map(|e| e.waiter).collect();
    assert_eq!(ids, vec![1, 2]);
    assert_eq!(q.len(), 1);
    assert_eq!(q.next_wake(), Some(at(30)));
}

#[test]
fn pop_expired_on_empty_queue_is_empty() {
    let mut q = TimerQueue::new();
    assert!(q.pop_expired(at(1000)).is_empty());
    assert_eq!(q.next_wake(), None);
}

#[test]
fn insert_reports_new_head_for_reprogramming() {
    let mut q = TimerQueue::new();
    // first entry always needs the compare register programmed
    assert!(q.delay_until(at(50), 1));
    // a later wake leaves the head alone
    assert!(!q.delay_until(at(80), 2));
    // an earlier wake becomes the new head
    assert!(q.delay_until(at(20), 3));
    assert_eq!(q.next_wake(), Some(at(20)));
}

#[test]
fn delay_is_delay_until_now_plus_duration() {
    let mut q = TimerQueue::new();
    q.delay(at(100), Duration::from_ticks(25), 1);
    assert_eq!(q.next_wake(), Some(at(125)));
}

#[test]
fn cancel_removes_without_firing() {
    let mut q = TimerQueue::new();
    q.insert(WakeEntry { waiter: 1, instant: at(10) });
    q.insert(WakeEntry { waiter: 2, instant: at(20) });
    assert!(q.cancel(1));
    assert!(!q.cancel(1));
    let woken = q.pop_expired(at(100));
    let ids: Vec<u32> = woken.iter().map(|e| e.waiter).collect();
    assert_eq!(ids, vec![2]);
}

#[test]
fn timeout_race_inner_wins_before_deadline() {
    // the inner operation completes at a time before the deadline: its
    // result comes through and no wake entry stays behind
    let mut q = TimerQueue::new();
    let mut t = q.timeout_after(at(0), Duration::from_ticks(50), 9);
    assert_eq!(t.deadline, at(50));
    let r = q.poll_timeout(&mut t, at(30), true);
    assert_eq!(r, Some(Ok(())));
    assert!(t.done);
    assert!(q.is_empty());
}

#[test]
fn timeout_race_deadline_wins() {
    // the deadline passes first: the caller gets the timeout error and
    // the inner operation is abandoned
    let mut q = TimerQueue::new();
    let mut t = q.timeout_at(at(50), 9);
    let r = q.poll_timeout(&mut t, at(60), false);
    assert_eq!(r, Some(Err(TimeoutError)));
    assert!(t.done);
    assert!(q.is_empty());
}

#[test]
fn timeout_race_still_open() {
    let mut q = TimerQueue::new();
    let mut t = q.timeout_at(at(50), 9);
    let r = q.poll_timeout(&mut t, at(10), false);
    assert_eq!(r, None);
    assert!(!t.done);
    assert_eq!(q.len(), 1);
}

#[test]
fn timeout_inner_wins_exactly_at_deadline() {
    // the inner result is preferred when both happen in the same poll
    let mut q = TimerQueue::new();
    let mut t = q.timeout_at(at(50), 9);
    let r = q.poll_timeout(&mut t, at(50), true);
    assert_eq!(r, Some(Ok(())));
}

#[test]
fn entry_at_walks_the_queue_in_order() {
    let mut q = TimerQueue::new();
    q.insert(WakeEntry { waiter: 2, instant: at(20) });
    q.insert(WakeEntry { waiter: 1, instant: at(10) });
    assert_eq!(q.len(), 2);
    assert_eq!(q.entry_at(0).waiter, 1);
    assert_eq!(q.entry_at(1).waiter, 2);
}
