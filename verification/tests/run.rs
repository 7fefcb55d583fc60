use std::collections::BTreeMap;

use witness_tools::metrics::{
    block_output, metrics_header, needs_metrics_header, BlockMetrics, BlockWrite,
};
use witness_tools::progress::progress_due;
use witness_tools::run::{AfterCheck, RpcRun, RunAction, RunReport, SkipReport};

/// What runs read and write: the output folder, and the metrics file if there is one.
#[derive(Clone, Debug, Default, PartialEq)]
struct Disk {
    files: BTreeMap<String, String>,
    metrics: Option<String>,
}

fn metrics(block_number: u64) -> BlockMetrics {
    BlockMetrics {
        block_number,
        timestamp: 1,
        txn_count: 2,
        gas_used: 3,
        gas_limit: 4,
        gas_pct: "75.00".to_string(),
        witness_time: "0.5000".to_string(),
        fixture_size: 3,
        n_state: 6,
        n_codes: 7,
        n_keys: 8,
        n_headers: 9,
    }
}

fn disk_with(files: &[&str]) -> Disk {
    let files = files.iter().map(|file| (file.to_string(), "old".to_string())).collect();
    Disk { files, metrics: None }
}

/// Works through a run over `blocks`; the blocks in `failing` fail.
fn work(
    blocks: &[u64],
    no_save: bool,
    disk: &mut Disk,
    failing: &[u64],
) -> (RunReport, Vec<SkipReport>, Vec<RunReport>) {
    if let Some(text) = &mut disk.metrics {
        if needs_metrics_header(Some(text.len() as u64)) {
            text.push_str(&metrics_header());
            text.push('\n');
        }
    }
    let mut run = RpcRun::new(blocks.to_vec());
    let mut skips = Vec::new();
    let mut reports = Vec::new();
    while let RunAction::CheckFile { block, file } = run.next_action() {
        let next = match run.checked(disk.files.contains_key(&file)) {
            AfterCheck::Skip(report) => {
                skips.extend(report);
                continue;
            }
            AfterCheck::Process { block } => block,
        };
        assert_eq!(next, block);
        let success = !failing.contains(&block);
        if success {
            let mut output = block_output(&metrics(block), no_save, disk.metrics.is_some());
            while let Some(write) = output.next_write() {
                match write {
                    BlockWrite::Fixture(file) => {
                        disk.files.insert(file, "new".to_string());
                    }
                    BlockWrite::Row(row) => {
                        let text = disk.metrics.as_mut().unwrap();
                        text.push_str(&row);
                        text.push('\n');
                    }
                }
            }
        }
        reports.extend(run.finish(success));
    }
    (run.report(), skips, reports)
}

#[test]
fn a_run_counts_its_blocks() {
    let mut disk = disk_with(&["rpc_block_7.json"]);
    let (end, skips, reports) = work(&[9, 8, 7, 6], false, &mut disk, &[8]);
    let expected = RunReport {
        position: 4,
        total: 4,
        ok: 2,
        errors: 1,
        skipped: 1,
        processed: 3,
        remaining: 0,
    };
    assert_eq!(end, expected);
    assert_eq!(skips, vec![SkipReport { block: 7, position: 3, total: 4 }]);
    assert_eq!(reports, vec![expected]);
    assert_eq!(disk.files.len(), 3);
    assert_eq!(disk.files["rpc_block_7.json"], "old");
}

#[test]
fn a_later_run_skips_what_was_saved() {
    let mut disk = Disk::default();
    work(&[9, 8, 7, 6], false, &mut disk, &[8, 6]);
    let (end, _, _) = work(&[9, 8, 7, 6], false, &mut disk, &[]);
    assert_eq!((end.ok, end.errors, end.skipped), (2, 0, 2));
    let (end, _, _) = work(&[9, 8, 7, 6], false, &mut disk, &[9, 8, 7, 6]);
    assert_eq!((end.ok, end.errors, end.skipped), (0, 0, 4));
}

#[test]
fn the_file_of_another_block_skips_nothing() {
    let mut disk = disk_with(&["rpc_block_1.json"]);
    let (end, _, _) = work(&[12, 11, 10], false, &mut disk, &[]);
    assert_eq!((end.ok, end.skipped), (3, 0));
}

#[test]
fn a_completed_run_is_not_repeated() {
    let mut disk = disk_with(&["rpc_block_8.json"]);
    disk.metrics = Some(String::new());
    let (end, _, _) = work(&[9, 8, 7], false, &mut disk, &[]);
    assert_eq!((end.ok, end.errors, end.skipped), (2, 0, 1));
    let left = disk.clone();
    assert_eq!(left.metrics.as_ref().unwrap().lines().count(), 3);
    for no_save in [false, true] {
        let (end, skips, reports) = work(&[9, 8, 7], no_save, &mut disk, &[]);
        assert_eq!((end.ok, end.errors, end.skipped), (0, 0, 3));
        assert_eq!((skips.len(), reports.len()), (3, 0));
        assert_eq!(disk, left);
    }
}

#[test]
fn a_row_gives_the_size_of_the_file() {
    let mut disk = disk_with(&[]);
    disk.metrics = Some(String::new());
    work(&[9, 8], false, &mut disk, &[8]);
    let text = disk.metrics.unwrap();
    let lines: Vec<Vec<&str>> = text.lines().map(|line| line.split(',').collect()).collect();
    assert_eq!(lines.len(), 2);
    assert_eq!((lines[0][7], lines[0][13]), ("fixture_size_bytes", "fixture_file"));
    let file = &disk.files[lines[1][13]];
    assert_eq!(lines[1][7], file.len().to_string());
}

#[test]
fn a_failed_block_changes_nothing() {
    let mut disk = disk_with(&["rpc_block_9.json"]);
    disk.metrics = Some(metrics_header());
    let before = disk.clone();
    let (end, _, _) = work(&[9, 8], false, &mut disk, &[8]);
    assert_eq!((end.ok, end.errors, end.skipped), (0, 1, 1));
    assert_eq!(disk, before);
}

#[test]
fn a_run_that_saves_nothing_skips_what_is_there() {
    let mut disk = disk_with(&["rpc_block_9.json"]);
    disk.metrics = Some(String::new());
    let files = disk.files.clone();
    let (end, skips, _) = work(&[9, 8], true, &mut disk, &[]);
    assert_eq!((end.ok, end.errors, end.skipped), (1, 0, 1));
    assert_eq!(skips, vec![SkipReport { block: 9, position: 1, total: 2 }]);
    assert_eq!(disk.files, files);
    let text = disk.metrics.clone().unwrap();
    assert_eq!(text, format!("{}\n{}\n", metrics_header(), metrics(8).row()));
    let (end, _, _) = work(&[9, 8], true, &mut disk, &[]);
    assert_eq!((end.ok, end.skipped), (1, 1));
    assert!(disk.metrics.unwrap().starts_with(&text));
}

#[test]
fn reports_after_ten_blocks_and_at_the_end() {
    let blocks: Vec<u64> = (0..23).rev().collect();
    let (_, _, reports) = work(&blocks, true, &mut Disk::default(), &[]);
    let positions: Vec<usize> = reports.iter().map(|r| r.position).collect();
    assert_eq!(positions, vec![10, 20, 23]);
    assert_eq!(reports[0].remaining, 13);
    assert!(progress_due(10, 23, 10) && !progress_due(11, 23, 10) && progress_due(23, 23, 10));
}

#[test]
fn skips_are_reported_sparsely() {
    let blocks: Vec<u64> = (0..120).collect();
    let files: Vec<String> = (0..120).map(|b| format!("rpc_block_{b}.json")).collect();
    let files: Vec<&str> = files.iter().map(|file| file.as_str()).collect();
    let mut disk = disk_with(&files);
    let (end, skips, reports) = work(&blocks, false, &mut disk, &[]);
    let positions: Vec<usize> = skips.iter().map(|s| s.position).collect();
    assert_eq!(positions, vec![1, 2, 3, 4, 5, 50, 100]);
    assert_eq!(reports, vec![]);
    assert_eq!(end.skipped, 120);
}

#[test]
fn a_run_without_blocks_is_done() {
    let run = RpcRun::new(vec![]);
    assert!(matches!(run.next_action(), RunAction::Done));
}
