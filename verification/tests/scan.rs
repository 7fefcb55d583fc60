use alloy_consensus::Header;
use alloy_primitives::{keccak256, B256};
use witness_tools::scan::{
    check_fixture, scan_against_root, scan_header, CheckError, FixtureScan, ScanReport,
    ScanRun,
};

fn header_with_root(root: B256) -> Vec<u8> {
    let mut header = Header::default();
    header.state_root = root;
    header.number = 41;
    alloy_rlp::encode(&header)
}

#[test]
fn the_root_node_is_found() {
    let root_node = vec![1, 2, 3];
    let root = keccak256(&root_node);
    let headers = vec![header_with_root(root), vec![0xff]];
    let scan = check_fixture(&headers, &vec![vec![], vec![9], root_node], 42).unwrap();
    let expected =
        FixtureScan { block_number: 42, has_root: true, state_nodes: 3, parent_state_root: root.0 };
    assert_eq!(scan, expected);
}

#[test]
fn a_missing_root_node_is_noticed() {
    let root = keccak256([1, 2, 3]);
    let headers = vec![header_with_root(root)];
    for state in [vec![], vec![vec![1, 2]], vec![root.to_vec()]] {
        let scan = check_fixture(&headers, &state, 42).unwrap();
        assert!(!scan.has_root);
        assert_eq!(scan.state_nodes, state.len());
        assert_eq!(scan.parent_state_root, root.0);
    }
}

#[test]
fn only_the_root_node_mends_a_fixture() {
    let root = keccak256([7]).0;
    assert!(!scan_against_root(root, &vec![vec![1]], 1).has_root);
    assert!(!scan_against_root(root, &vec![vec![1], vec![2]], 1).has_root);
    assert!(scan_against_root(root, &vec![vec![1], vec![7]], 1).has_root);
}

#[test]
fn the_digest_of_nothing() {
    let empty: [u8; 32] = [
        0xc5, 0xd2, 0x46, 0x01, 0x86, 0xf7, 0x23, 0x3c, 0x92, 0x7e, 0x7d, 0xb2, 0xdc, 0xc7, 0x03,
        0xc0, 0xe5, 0x00, 0xb6, 0x53, 0xca, 0x82, 0x27, 0x3b, 0x7b, 0xfa, 0xd8, 0x04, 0x5d, 0x85,
        0xa4, 0x70,
    ];
    assert!(scan_against_root(empty, &vec![vec![]], 1).has_root);
    assert!(!scan_against_root(empty, &vec![vec![0]], 1).has_root);
}

#[test]
fn no_ancestor_header() {
    let error = check_fixture(&vec![], &vec![vec![1]], 42).unwrap_err();
    assert!(matches!(error, CheckError::NoAncestorHeaders));
    assert_eq!(error.context(), "no ancestor headers");
}

#[test]
fn an_ancestor_header_that_is_none() {
    let good = header_with_root(B256::ZERO);
    let cut = good[..good.len() - 1].to_vec();
    for bytes in [vec![], vec![0xc0], vec![0x80], cut] {
        let error = check_fixture(&vec![bytes, good.clone()], &vec![], 42).unwrap_err();
        assert!(matches!(error, CheckError::DecodeHeader(_)));
        assert_eq!(error.context(), "decode header");
    }
    match check_fixture(&vec![vec![0xf8]], &vec![], 42) {
        Err(CheckError::DecodeHeader(error)) => assert_eq!(error.to_string(), "input too short"),
        _ => panic!(),
    }
}

#[test]
fn rows_of_the_scan() {
    assert_eq!(scan_header(), "filename,block_number,has_root,state_nodes,parent_state_root");
    let root = keccak256([7]);
    let mut scan = scan_against_root(root.0, &vec![vec![7]], 42);
    assert_eq!(scan.row("a.json"), format!("a.json,42,true,1,{root:?}"));
    scan.has_root = false;
    assert_eq!(scan.row("a.json"), format!("a.json,42,false,1,{root:?}"));
    assert_eq!(scan.row("a.json").split(',').count(), scan_header().split(',').count());
}

#[test]
fn a_scan_counts_its_files() {
    let mut scan = ScanRun::new(4);
    assert_eq!(scan.record(Some(true)), None);
    assert_eq!(scan.record(Some(false)), None);
    assert_eq!(scan.record(None), None);
    let end = ScanReport { position: 4, total: 4, ok: 2, missing: 1, errors: 1 };
    assert_eq!(scan.record(Some(true)), Some(end));
    assert_eq!(scan.report(), end);
}

#[test]
fn a_scan_reports_after_a_hundred_files() {
    let mut scan = ScanRun::new(250);
    let due: Vec<usize> =
        (0..250).filter_map(|_| scan.record(Some(true))).map(|r| r.position).collect();
    assert_eq!(due, vec![100, 200, 250]);
}

#[test]
fn rows_differ_where_scans_do() {
    let scan = scan_against_root([1; 32], &vec![], 42);
    let mut other = scan;
    other.parent_state_root[31] = 2;
    assert_ne!(scan.row("a"), other.row("a"));
    assert_ne!(scan.row("a"), scan.row("b"));
    let fields: Vec<String> = scan.row("a").split(',').map(|f| f.to_string()).collect();
    assert_eq!(fields[..4], ["a", "42", "false", "0"]);
}
