use tapproxy::connid::encode_base62;
use tapproxy::connid::to_base62;
use tapproxy::connid::ConnIdGenerator;

#[test]
fn test_encode_base62() {
    assert_eq!(encode_base62(0), "00000");
    assert_eq!(encode_base62(1), "00001");
    assert_eq!(encode_base62(61), "0000z");
    assert_eq!(encode_base62(62), "00010");
}

#[test]
fn to_base62_matches_encode_base62() {
    for v in [0u64, 1, 61, 62, 3843, 3844, 916132831, 916132832, u64::MAX] {
        assert_eq!(to_base62(v), encode_base62(v));
    }
}

#[test]
fn token_truncates_high_digits() {
    // 62^5 wraps back to the all-zero token: only local uniqueness is kept
    assert_eq!(encode_base62(916132832), "00000");
    assert_eq!(encode_base62(916132833), "00001");
    assert_eq!(encode_base62(u64::MAX), to_base62(u64::MAX % 916132832));
}

#[test]
fn generator_counts_up_and_tokens_differ() {
    let mut generator = ConnIdGenerator::with_seed(0);
    let mut seen: Vec<String> = Vec::new();
    for _ in 0..500 {
        seen.push(generator.next());
    }
    assert_eq!(seen[0], "00000");
    assert_eq!(seen[1], "00001");
    assert_eq!(seen[61], "0000z");
    assert_eq!(seen[62], "00010");
    for i in 0..seen.len() {
        for j in (i + 1)..seen.len() {
            assert_ne!(seen[i], seen[j]);
        }
    }
}

#[test]
fn generator_tokens_are_five_symbols() {
    let mut generator = ConnIdGenerator::new();
    for _ in 0..10 {
        let id = generator.next();
        assert_eq!(id.len(), 5);
        assert!(id.chars().all(|c| c.is_ascii_alphanumeric()));
    }
}

#[test]
fn generator_wraps_at_counter_limit() {
    let mut generator = ConnIdGenerator::with_seed(u64::MAX);
    let last = generator.next();
    let wrapped = generator.next();
    assert_eq!(last, to_base62(u64::MAX));
    assert_eq!(wrapped, "00000");
}
