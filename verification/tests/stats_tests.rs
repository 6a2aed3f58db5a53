use rfuzz::stats::Statistics;

#[test]
fn counters_start_at_zero() {
    let s = Statistics::new();
    assert_eq!(s.fuzz_cases, 0);
    assert_eq!(s.num_crashes, 0);
}

#[test]
fn counters_sum_contributions() {
    // Absent overflow each counter is the exact sum of the contributions
    // folded into it, in any order.
    let mut s = Statistics::new();
    s.add_cases(100);
    s.add_cases(100);
    s.add_cases(300);
    assert_eq!(s.fuzz_cases, 500);
    s.add_crash();
    s.add_crash();
    assert_eq!(s.num_crashes, 2);
    assert_eq!(s.fuzz_cases, 500);
}

#[test]
fn counters_are_monotonic() {
    let mut s = Statistics::new();
    let mut last = 0u64;
    for n in [0u64, 7, 0, 1000, 3] {
        s.add_cases(n);
        assert!(s.fuzz_cases >= last);
        last = s.fuzz_cases;
    }
}

#[test]
fn counters_saturate_instead_of_wrapping() {
    let mut s = Statistics::new();
    s.add_cases(u64::MAX - 1);
    s.add_cases(100);
    assert_eq!(s.fuzz_cases, u64::MAX);
    s.add_cases(1);
    assert_eq!(s.fuzz_cases, u64::MAX);
}
