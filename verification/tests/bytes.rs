use witness_tools::bytes::{count_unique, same_bytes};

#[test]
fn byte_strings_are_compared_whole() {
    let a = [5u8; 32];
    for i in 0..32 {
        let mut b = a;
        b[i] = 6;
        assert!(!same_bytes(&a, &b));
    }
    assert!(same_bytes(&a, &[5u8; 32]));
    assert!(!same_bytes(&a, &a[..31]));
    assert!(!same_bytes(&[], &a));
    assert!(same_bytes(&[], &[]));
}

#[test]
fn what_is_repeated_counts_once() {
    assert_eq!(count_unique(&vec![]), 0);
    assert_eq!(count_unique(&vec![vec![1], vec![1]]), 1);
    assert_eq!(count_unique(&vec![vec![], vec![0], vec![], vec![0, 0], vec![0]]), 3);
    let many: Vec<Vec<u8>> = (0..600u32).map(|i| (i % 200).to_le_bytes().to_vec()).collect();
    assert_eq!(count_unique(&many), 200);
}
