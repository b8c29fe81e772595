use stomata::refresh::{RefreshClock, DEFAULT_INTERVAL_MS};

#[test]
fn two_refreshes_in_1200_ms_at_500_ms() {
    let mut clock = RefreshClock::new(500, 0);
    let mut now: u64 = 0;
    let mut ticks = Vec::new();
    loop {
        let wait = clock.timeout_ms(now);
        if now + wait > 1200 {
            break;
        }
        // No key arrives: the wait runs to its end.
        now += wait;
        if clock.tick_due(now) {
            ticks.push(now);
        }
    }
    assert_eq!(ticks, vec![500, 1000]);
}

#[test]
fn timeout_counts_down_and_saturates() {
    let clock = RefreshClock::new(DEFAULT_INTERVAL_MS, 100);
    assert_eq!(clock.timeout_ms(100), 1000);
    assert_eq!(clock.timeout_ms(400), 700);
    assert_eq!(clock.timeout_ms(1100), 0);
    assert_eq!(clock.timeout_ms(5000), 0);
    assert_eq!(clock.timeout_ms(50), 1000);
}

#[test]
fn key_before_deadline_does_not_refresh() {
    let mut clock = RefreshClock::new(500, 0);
    assert!(!clock.tick_due(200));
    assert_eq!(clock.last_tick_ms, 0);
    assert_eq!(clock.timeout_ms(200), 300);
    assert!(clock.tick_due(500));
    assert_eq!(clock.last_tick_ms, 500);
    assert_eq!(clock.timeout_ms(500), 500);
}
