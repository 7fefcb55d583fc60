use witness_tools::metrics::{
    block_output, metrics_header, needs_metrics_header, BlockMetrics, BlockWrite,
};
use witness_tools::ratio::Ratio;

fn sample() -> BlockMetrics {
    BlockMetrics {
        block_number: 23_000_000,
        timestamp: 1_750_000_000,
        txn_count: 150,
        gas_used: 18_000_000,
        gas_limit: 36_000_000,
        gas_pct: "50.00".to_string(),
        witness_time: "1.2346".to_string(),
        fixture_size: 12_345_678,
        n_state: 9_001,
        n_codes: 321,
        n_keys: 0,
        n_headers: 1,
    }
}

#[test]
fn header_line() {
    assert_eq!(
        metrics_header(),
        "block_number,timestamp,txn_count,gas_used,gas_limit,gas_utilization_pct,\
         witness_time_sec,fixture_size_bytes,witness_state_nodes,witness_codes_count,\
         witness_keys_count,witness_headers_count,category,fixture_file"
    );
}

#[test]
fn row_of_a_block() {
    assert_eq!(
        sample().row(),
        "23000000,1750000000,150,18000000,36000000,50.00,1.2346,12345678,9001,321,0,1,moderate,\
         rpc_block_23000000.json"
    );
}

#[test]
fn rows_have_the_columns_of_the_header() {
    assert_eq!(metrics_header().split(',').count(), 14);
    assert_eq!(sample().row().split(',').count(), 14);
}

#[test]
fn what_is_written() {
    let both = block_output(&sample(), false, true);
    assert_eq!(both.file.as_deref(), Some("rpc_block_23000000.json"));
    assert_eq!(both.row, Some(sample().row()));
    let row_only = block_output(&sample(), true, true);
    assert_eq!(row_only.file, None);
    assert_eq!(row_only.row, Some(sample().row()));
    let file_only = block_output(&sample(), false, false);
    assert_eq!(file_only.file.as_deref(), Some("rpc_block_23000000.json"));
    assert_eq!(file_only.row, None);
}

#[test]
fn header_only_for_a_new_file() {
    assert!(needs_metrics_header(None));
    assert!(needs_metrics_header(Some(0)));
    assert!(!needs_metrics_header(Some(1)));
}

#[test]
fn ratios() {
    assert_eq!(Ratio::of(18, 36), Ratio { numerator: 18, denominator: 36 });
    assert_eq!(Ratio::of(18, 0), Ratio { numerator: 0, denominator: 1 });
    let ratio = Ratio::of(18_000_000, 36_000_000);
    assert_eq!(ratio.numerator as f64 / ratio.denominator as f64 * 100.0, 50.0);
}

#[test]
fn a_row_splits_back_into_its_fields() {
    let metrics = sample();
    let row = metrics.row();
    let fields: Vec<&str> = row.split(',').collect();
    assert_eq!(fields[0].parse(), Ok(metrics.block_number));
    assert_eq!(fields[5], metrics.gas_pct);
    assert_eq!(fields[6], metrics.witness_time);
    assert_eq!(fields[11].parse(), Ok(metrics.n_headers));
    let mut other = sample();
    other.n_keys = 1;
    assert_ne!(other.row(), row);
}

#[test]
fn the_header_is_written_once() {
    let mut file = String::new();
    for _ in 0..3 {
        if needs_metrics_header(Some(file.len() as u64)) {
            file.push_str(&metrics_header());
            file.push('\n');
        }
        file.push_str(&sample().row());
        file.push('\n');
    }
    assert_eq!(file.lines().count(), 4);
    assert_eq!(file.lines().next(), Some(metrics_header().as_str()));
    assert_eq!(file.matches("block_number").count(), 1);
}

#[test]
fn the_fixture_is_written_before_the_row() {
    let mut both = block_output(&sample(), false, true);
    let row = sample().row();
    let first = both.next_write();
    assert!(matches!(first, Some(BlockWrite::Fixture(f)) if f == "rpc_block_23000000.json"));
    assert!(matches!(both.next_write(), Some(BlockWrite::Row(r)) if r == row));
    assert!(both.next_write().is_none());
    let mut row_only = block_output(&sample(), true, true);
    assert!(matches!(row_only.next_write(), Some(BlockWrite::Row(r)) if r == row));
    assert!(row_only.next_write().is_none());
    let mut file_only = block_output(&sample(), false, false);
    assert!(matches!(file_only.next_write(), Some(BlockWrite::Fixture(_))));
    assert!(file_only.next_write().is_none());
    assert!(block_output(&sample(), true, false).next_write().is_none());
}
