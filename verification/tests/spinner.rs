use capsulator::spinner::{Spinner, SPINNER_POSITIONS};

#[test]
fn spinner_starts_at_zero() {
    let s = Spinner::new();
    assert_eq!(s.index, 0);
    assert_eq!(s.percent(), 0);
}

#[test]
fn spinner_walks_in_steps_of_five_and_wraps() {
    let mut s = Spinner::new();
    let mut seen = Vec::new();
    for _ in 0..SPINNER_POSITIONS {
        seen.push(s.advance());
    }
    let expected: Vec<u32> = (1..=20).map(|i| 5 * i).chain(std::iter::once(0)).collect();
    assert_eq!(seen, expected);
    assert_eq!(s.index, 0);
}

#[test]
fn spinner_period_is_twenty_one() {
    let mut s = Spinner::new();
    s.advance();
    s.advance();
    let start = s.index;
    for k in 1..=SPINNER_POSITIONS {
        s.advance();
        assert_eq!(s.index == start, k == SPINNER_POSITIONS);
    }
}

#[test]
fn spinner_after_hundred_shows_zero() {
    let mut s = Spinner { index: 20 };
    assert_eq!(s.percent(), 100);
    assert_eq!(s.advance(), 0);
}
