use netsim::timers::{expire_time_of, Timer, TimerManager};

fn timer(id: u32, expire_time: u64) -> Timer {
    Timer { id, cb_opaque: 100 + id as usize, expire_time }
}

#[test]
fn test_new_timer_keys_count_up_from_one() {
    let mut m = TimerManager::new();
    assert_eq!(m.new_timer(7, 70), 1);
    assert_eq!(m.new_timer(8, 80), 2);
    assert_eq!(m.next_timer(), 3);
    // New timers are not armed.
    assert_eq!(m.min_duration_at(0), u64::MAX - 0);
    assert!(m.collect_expired_at(u64::MAX).is_empty());
}

#[test]
fn test_collect_expired_disarms_once() {
    let mut m = TimerManager::new();
    m.insert(1, timer(1, 10));
    m.insert(2, timer(2, 30));
    m.insert(3, timer(3, 5));
    let mut expired = m.collect_expired_at(20);
    // The timers come back in the map's order; compare them by id.
    expired.sort_by_key(|t| t.id);
    assert_eq!(expired, vec![timer(1, u64::MAX), timer(3, u64::MAX)]);
    // Collected timers are disarmed: collecting again finds nothing new.
    assert!(m.collect_expired_at(20).is_empty());
    let later = m.collect_expired_at(31);
    assert_eq!(later, vec![timer(2, u64::MAX)]);
}

#[test]
fn test_expire_time_is_strictly_before_now() {
    let mut m = TimerManager::new();
    m.insert(1, timer(1, 10));
    assert!(m.collect_expired_at(10).is_empty());
    assert_eq!(m.collect_expired_at(11).len(), 1);
}

#[test]
fn test_min_duration_at() {
    let mut m = TimerManager::new();
    assert_eq!(m.min_duration_at(5), u64::MAX);
    m.insert(1, timer(1, 50));
    m.insert(2, timer(2, 20));
    assert_eq!(m.min_duration_at(5), 15);
    // The earliest expiry has passed: no wait.
    assert_eq!(m.min_duration_at(25), 0);
}

#[test]
fn test_timer_mod_and_remove() {
    let mut m = TimerManager::new();
    m.insert(4, timer(9, u64::MAX));
    m.timer_mod(4, 12);
    // An unknown key changes nothing.
    m.timer_mod(5, 1);
    assert_eq!(m.min_duration_at(2), 10);
    assert_eq!(m.remove(4), Some(timer(9, 12)));
    assert_eq!(m.remove(4), None);
    assert_eq!(m.min_duration_at(2), u64::MAX);
}

#[test]
fn test_insert_replaces_same_key() {
    let mut m = TimerManager::new();
    m.insert(1, timer(1, 40));
    m.insert(1, timer(2, 30));
    assert_eq!(m.remove(1), Some(timer(2, 30)));
    assert_eq!(m.remove(1), None);
}

#[test]
fn test_expire_time_of_clamps_negative() {
    assert_eq!(expire_time_of(-5), 0);
    assert_eq!(expire_time_of(0), 0);
    assert_eq!(expire_time_of(1234), 1234);
}

#[test]
fn test_clock_reads() {
    let mut m = TimerManager::new();
    m.insert(1, timer(1, u64::MAX - 1));
    assert!(m.collect_expired().is_empty());
    assert!(m.min_duration() > 0);
}
