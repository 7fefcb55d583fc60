use witness_tools::category::{classify, classify_fixture};

#[test]
fn fixture_boundaries() {
    assert_eq!(classify_fixture(99_999, 20, 2), "lightweight");
    assert_eq!(classify_fixture(0, 0, 0), "lightweight");
    assert_eq!(classify_fixture(100_000, 20, 2), "moderate");
    assert_eq!(classify_fixture(99_999, 21, 2), "moderate");
    assert_eq!(classify_fixture(99_999, 20, 3), "moderate");
    assert_eq!(classify_fixture(1 << 30, 200, 50), "moderate");
    assert_eq!(classify_fixture(1, 201, 50), "heavy");
    assert_eq!(classify_fixture(1, 20, 51), "heavy");
    assert_eq!(classify_fixture(1, 2000, 1_000_000), "heavy");
    assert_eq!(classify_fixture(1, 2001, 0), "worst_case");
}

#[test]
fn block_boundaries() {
    assert_eq!(classify(0), "light");
    assert_eq!(classify(7_999), "light");
    assert_eq!(classify(8_000), "moderate");
    assert_eq!(classify(11_999), "moderate");
    assert_eq!(classify(12_000), "heavy");
    assert_eq!(classify(17_999), "heavy");
    assert_eq!(classify(18_000), "extreme");
    assert_eq!(classify(usize::MAX), "extreme");
}

#[test]
fn a_heavier_block_stands_no_lower() {
    let scale = ["light", "moderate", "heavy", "extreme"];
    let rank = |n: usize| scale.iter().position(|s| *s == classify(n)).unwrap();
    for n in 0..20_000 {
        assert!(rank(n) <= rank(n + 1));
    }
}

#[test]
fn a_larger_fixture_stands_no_lower() {
    let scale = ["lightweight", "moderate", "heavy", "worst_case"];
    let rank = |size: usize, state: usize, txs: usize| {
        let category = classify_fixture(size, state, txs);
        scale.iter().position(|s| *s == category).unwrap()
    };
    for size in [0, 99_999, 100_000] {
        for state in [0, 20, 21, 200, 201, 2000, 2001] {
            for txs in [0, 2, 3, 50, 51] {
                assert!(rank(size, state, txs) <= rank(size + 1, state, txs));
                assert!(rank(size, state, txs) <= rank(size, state + 1, txs));
                assert!(rank(size, state, txs) <= rank(size, state, txs + 1));
            }
        }
    }
}
