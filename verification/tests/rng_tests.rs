use rfuzz::rng::Rng;

#[test]
fn rng_determinism() {
    // Same seed, same stream, across repeated runs.
    let mut a = Rng::new(42);
    let mut b = Rng::new(42);
    for _ in 0..100 {
        assert_eq!(a.next(), b.next());
    }
}

#[test]
fn rng_known_stream() {
    // The first draw is the seed itself; the rest follow the xorshift
    // recurrence.
    let mut r = Rng::new(42);
    assert_eq!(r.next(), 42);
    assert_eq!(r.next(), 3026770793314205736);
    assert_eq!(r.next(), 189152283995411496);
    assert_eq!(r.next(), 3029604509833040234);
    assert_eq!(r.next(), 4614641509988304190);
}

#[test]
fn rand_within_range() {
    let mut r = Rng::new(42);
    assert_eq!(r.rand(5, 10), 5);
    let mut r2 = Rng::new(123456789);
    for _ in 0..200 {
        let v = r2.rand(17, 93);
        assert!((17..=93).contains(&v));
    }
}

#[test]
fn rand_degenerate_consumes_nothing() {
    // min == max returns that value and leaves the stream untouched: the
    // draws afterwards match a generator that never made the call.
    let mut with_call = Rng::new(7777);
    let mut without_call = Rng::new(7777);
    assert_eq!(with_call.rand(7, 7), 7);
    for _ in 0..50 {
        assert_eq!(with_call.next(), without_call.next());
    }
}

#[test]
fn rand_full_range_returns_raw_draw() {
    let mut r = Rng::new(99);
    assert_eq!(r.rand(0, usize::MAX), 99);
}

#[test]
fn rand_consumes_one_draw() {
    // A non-degenerate range advances the state by exactly one draw.
    let mut a = Rng::new(31337);
    let mut b = Rng::new(31337);
    let _ = a.rand(0, 9);
    let _ = b.next();
    assert_eq!(a.next(), b.next());
}
