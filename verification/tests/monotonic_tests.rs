use rtic::monotonics::{Systick, Systimer};
use rtic::time::{Duration, Instant};
use rtic::timer_queue::TimeoutError;

fn at(ticks: u64) -> Instant {
    Instant::from_ticks(ticks)
}

#[test]
fn systick_start_computes_rounded_reload() {
    // 16 MHz divided to 100 Hz, rounded to nearest, minus one for the
    // inclusive counter range
    let s = Systick::start(16_000_000);
    assert_eq!(s.reload, 159_999);
    assert_eq!(s.queue.len(), 0);
}

#[test]
fn systick_start_rounds_to_nearest() {
    let s = Systick::start(1_050);
    // (1050 + 50) / 100 - 1 == 10
    assert_eq!(s.reload, 10);
}

#[test]
fn systick_raw_counter_conversion() {
    // the 16 MHz hardware count divides down to 100 Hz ticks
    assert_eq!(Systick::instant_from_raw(320_000).ticks, 2);
    assert_eq!(Systick::instant_from_raw(159_999).ticks, 0);
}

#[test]
fn systick_delay_queues_wakeup() {
    let mut s = Systick::start(16_000_000);
    let reprogram = s.delay(at(100), Duration::from_ticks(50), 1);
    assert!(reprogram);
    assert_eq!(s.__tq().next_wake(), Some(at(150)));
}

#[test]
fn systick_timeout_round() {
    let mut s = Systick::start(16_000_000);
    let mut t = s.timeout_after(at(0), Duration::from_ticks(40), 7);
    assert_eq!(t.deadline, at(40));
    let r = s.queue.poll_timeout(&mut t, at(50), false);
    assert_eq!(r, Some(Err(TimeoutError)));
    assert_eq!(s.queue.len(), 0);
}

#[test]
fn systimer_counter_words_compose() {
    let i = Systimer::instant_from_parts(0x89AB_CDEF, 0x0123_4567);
    assert_eq!(i.ticks, 0x0123_4567_89AB_CDEF);
}

#[test]
fn systimer_compare_words_round_trip() {
    let (lo, hi) = Systimer::compare_parts(at(0x0123_4567_89AB_CDEF));
    assert_eq!(lo, 0x89AB_CDEF);
    assert_eq!(hi, 0x0123_4567);
    let back = Systimer::instant_from_parts(lo, hi);
    assert_eq!(back.ticks, 0x0123_4567_89AB_CDEF);
}

#[test]
fn systimer_delay_until_orders_queue() {
    let mut s = Systimer::start();
    s.delay_until(at(300), 3);
    s.delay_until(at(100), 1);
    s.delay_until(at(200), 2);
    let woken = s.queue.pop_expired(at(1_000));
    let ids: Vec<u32> = woken.iter().map(|e| e.waiter).collect();
    assert_eq!(ids, vec![1, 2, 3]);
}

#[test]
fn systimer_timeout_inner_wins() {
    let mut s = Systimer::start();
    let mut t = s.timeout_at(at(500), 9);
    let r = s.queue.poll_timeout(&mut t, at(100), true);
    assert_eq!(r, Some(Ok(())));
    assert_eq!(s.queue.len(), 0);
}
