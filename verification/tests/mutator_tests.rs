use rfuzz::mutator::{magic_entry, Mutator};

#[test]
fn new_copies_input_and_seed() {
    let m = Mutator::new(vec![1, 2, 3], 555);
    assert_eq!(m.input, vec![1, 2, 3]);
    assert_eq!(m.seed_state(), 555);
}

#[test]
fn magic_table_entries() {
    let expected: Vec<(usize, u8)> = vec![
        (1, 255),
        (1, 255),
        (1, 127),
        (1, 0),
        (2, 255),
        (2, 0),
        (4, 255),
        (4, 0),
        (4, 128),
        (4, 64),
        (4, 127),
    ];
    for (i, e) in expected.iter().enumerate() {
        assert_eq!(magic_entry(i), *e);
    }
}

#[test]
fn bitflip_zero_rate_changes_nothing() {
    let mut m = Mutator::new(vec![9; 64], 42);
    m.bitflip(0, 1);
    assert_eq!(m.input, vec![9; 64]);
    assert_eq!(m.seed_state(), 42);
}

#[test]
fn bitflip_preserves_length() {
    // The mutated input always has the seed input's length, for every rate
    // in [0, 1].
    for len in [0usize, 1, 2, 11, 100, 301] {
        for (num, den) in [(0u64, 1u64), (1, 100), (1, 2), (99, 100), (1, 1)] {
            let mut m = Mutator::new(vec![0xAB; len], 987654321);
            m.bitflip(num, den);
            assert_eq!(m.input.len(), len);
        }
    }
}

#[test]
fn bitflip_empty_input() {
    let mut m = Mutator::new(Vec::new(), 5);
    m.bitflip(1, 1);
    assert_eq!(m.input, Vec::<u8>::new());
}

#[test]
fn bitflip_deterministic() {
    // Same seed value, same input, same rate: identical corruption.
    let base: Vec<u8> = (0u8..=255).collect();
    let mut a = Mutator::new(base.clone(), 0xDEADBEEF);
    let mut b = Mutator::new(base, 0xDEADBEEF);
    a.bitflip(1, 10);
    b.bitflip(1, 10);
    assert_eq!(a.input, b.input);
    assert_eq!(a.seed_state(), b.seed_state());
}

#[test]
fn scenario_full_rate_on_zero_seed_input() {
    // A 12-byte zero buffer at full rate draws exactly 12 offsets; with this
    // fixed seed value the result differs from the all-zero seed input.
    let mut m = Mutator::new(vec![0; 12], 1);
    m.bitflip(1, 1);
    assert_eq!(m.input, vec![0, 255, 0, 255, 0, 255, 0, 255, 0, 127, 0, 0]);
    assert!(m.input.iter().any(|&b| b != 0));
    assert_eq!(m.input.len(), 12);
    // Exactly 24 draws were consumed: 12 offsets and 12 table picks, none
    // degenerate, so the generator advanced 24 xorshift steps.
    let mut r = rfuzz::rng::Rng::new(1);
    for _ in 0..24 {
        r.next();
    }
    assert_eq!(m.seed_state(), r.seed_value());
    assert_eq!(m.seed_state(), 1880041807997650642);
}

#[test]
fn bitflip_stuck_generator_stamps_first_entry() {
    // A zero seed value leaves the generator stuck at zero: every offset
    // draw is zero and every pick lands on the first table entry.
    let mut m = Mutator::new(vec![7; 8], 0);
    m.bitflip(1, 1);
    assert_eq!(m.input, vec![255, 7, 7, 7, 7, 7, 7, 7]);
}

#[test]
fn bitflip_low_rate_flips_floor_fraction() {
    // 300 bytes at rate 1/100: exactly three offsets are drawn; with this
    // seed the stamped regions are these.
    let mut base: Vec<u8> = (0u8..=255).collect();
    base.extend(std::iter::repeat(0u8).take(44));
    let mut m = Mutator::new(base.clone(), 7);
    m.bitflip(1, 100);
    let mut expected = base;
    expected[7] = 255;
    expected[8] = 0;
    expected[9] = 0;
    expected[10] = 0;
    expected[159] = 255;
    expected[163] = 255;
    expected[164] = 0;
    assert_eq!(m.input, expected);
}
