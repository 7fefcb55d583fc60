use witness_tools::blocks::{blocks_to_process, fixture_file, fixture_name, ZeroBlocks};

#[test]
fn last_blocks_descend() {
    assert_eq!(blocks_to_process(100, Some(1), None), Ok(vec![100]));
    assert_eq!(blocks_to_process(100, Some(4), None), Ok(vec![100, 99, 98, 97]));
    assert_eq!(blocks_to_process(u64::MAX, Some(2), None), Ok(vec![u64::MAX, u64::MAX - 1]));
}

#[test]
fn a_short_chain_is_taken_whole() {
    assert_eq!(blocks_to_process(2, Some(3), None), Ok(vec![2, 1, 0]));
    assert_eq!(blocks_to_process(2, Some(4), None), Ok(vec![2, 1, 0]));
    assert_eq!(blocks_to_process(2, Some(usize::MAX), None), Ok(vec![2, 1, 0]));
    assert_eq!(blocks_to_process(0, Some(7), None), Ok(vec![0]));
}

#[test]
fn one_block() {
    assert_eq!(blocks_to_process(100, None, Some(7)), Ok(vec![7]));
    assert_eq!(blocks_to_process(100, None, Some(700)), Ok(vec![700]));
    assert_eq!(blocks_to_process(100, None, None), Ok(vec![100]));
    assert_eq!(blocks_to_process(100, Some(2), Some(7)), Ok(vec![100, 99]));
}

#[test]
fn zero_blocks_are_refused() {
    assert_eq!(blocks_to_process(100, Some(0), None), Err(ZeroBlocks));
    assert_eq!(ZeroBlocks.message(), "--last-n-blocks must be greater than 0");
}

#[test]
fn names_of_fixtures() {
    assert_eq!(fixture_name(23_000_000), "rpc_block_23000000");
    assert_eq!(fixture_file(23_000_000), "rpc_block_23000000.json");
    assert_eq!(fixture_file(0), "rpc_block_0.json");
    assert_ne!(fixture_file(1), fixture_file(11));
}
