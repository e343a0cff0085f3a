use newsletter::limiter::{RateLimiter, ATTEMPTS, WINDOW};

#[test]
fn five_attempts_an_hour() {
    let mut l = RateLimiter::new();
    for i in 0..5 {
        assert!(l.rate_ok("1.2.3.4", 1000 + i));
    }
    assert!(!l.rate_ok("1.2.3.4", 1005));
    // Refused attempts do not count, and each one counts for exactly an hour.
    assert!(!l.rate_ok("1.2.3.4", 1000 + WINDOW - 1));
    assert!(l.rate_ok("1.2.3.4", 1000 + WINDOW));
    assert!(!l.rate_ok("1.2.3.4", 1000 + WINDOW));
    assert!(l.rate_ok("1.2.3.4", 1001 + WINDOW));
}

#[test]
fn addresses_are_counted_apart() {
    let mut l = RateLimiter::new();
    for _ in 0..ATTEMPTS {
        assert!(l.rate_ok("a", 0));
    }
    assert!(!l.rate_ok("a", 0));
    assert!(l.rate_ok("b", 0));
    assert!(!l.rate_ok("a", 0));
}

#[test]
fn no_more_than_five_in_any_hour() {
    let mut l = RateLimiter::new();
    let mut through: Vec<i64> = Vec::new();
    for i in 0..200 {
        let t = i * 137;
        if l.rate_ok("x", t) {
            through.push(t);
        }
    }
    assert!(through.len() > ATTEMPTS);
    for i in 0..through.len() - ATTEMPTS {
        assert!(through[i + ATTEMPTS] - through[i] >= WINDOW);
    }
}
