use witness_tools::blocks::ZeroBlocks;
use witness_tools::chain::{ChainError, ConfigChoice, Network};
use witness_tools::headers::HeaderError;
use witness_tools::start::{RunRequest, RunStart, StartAction, StartError, StartEvent};

fn request() -> RunRequest {
    RunRequest {
        headers: None,
        genesis: false,
        last_n_blocks: Some(2),
        block: None,
        no_save: false,
        keep_metrics: true,
    }
}

/// Starts a run at an endpoint of this chain, whose latest block is 9; also gives the actions.
fn begin(
    request: RunRequest,
    chain_id: u64,
    genesis: &str,
) -> (Vec<StartAction>, Result<(ConfigChoice, Vec<u64>), StartError>) {
    let (mut start, _) = RunStart::new(request).ok().unwrap();
    let mut actions = Vec::new();
    loop {
        let action = start.action();
        let event = match action {
            StartAction::Connect => StartEvent::Connected,
            StartAction::AskChainId => StartEvent::ChainId(chain_id),
            StartAction::ReadGenesis => StartEvent::Genesis(genesis.to_string()),
            StartAction::AskLatestBlock => StartEvent::LatestBlock(9),
            StartAction::MakeFolder => StartEvent::FolderMade,
            StartAction::OpenMetrics => StartEvent::MetricsOpened,
            StartAction::Go => return (actions, Ok(start.finish())),
        };
        actions.push(action);
        start = match start.advance(event) {
            Ok(next) => next,
            Err(error) => return (actions, Err(error)),
        };
    }
}

fn writes(actions: &[StartAction]) -> bool {
    actions.contains(&StartAction::MakeFolder) || actions.contains(&StartAction::OpenMetrics)
}

#[test]
fn all_actions_in_order() {
    let genesis = r#"{"config": {"chainId": 1337}}"#;
    let (actions, run) = begin(RunRequest { genesis: true, ..request() }, 1337, genesis);
    assert_eq!(
        actions,
        vec![
            StartAction::Connect,
            StartAction::AskChainId,
            StartAction::ReadGenesis,
            StartAction::AskLatestBlock,
            StartAction::MakeFolder,
            StartAction::OpenMetrics,
        ]
    );
    let (config, blocks) = run.unwrap();
    assert!(matches!(config, ConfigChoice::Genesis(config) if config.chain_id == 1337));
    assert_eq!(blocks, vec![9, 8]);
}

#[test]
fn what_is_not_asked_for_is_not_done() {
    let quiet = RunRequest { no_save: true, keep_metrics: false, ..request() };
    let (actions, run) = begin(quiet, 1, "");
    let asked = vec![StartAction::Connect, StartAction::AskChainId, StartAction::AskLatestBlock];
    assert_eq!(actions, asked);
    assert!(matches!(run, Ok((ConfigChoice::BuiltIn(Network::Mainnet), blocks)) if blocks == [9, 8]));
    let (actions, _) = begin(RunRequest { no_save: true, ..request() }, 1, "");
    assert_eq!(actions.last(), Some(&StartAction::OpenMetrics));
    assert!(!actions.contains(&StartAction::MakeFolder));
    let (actions, _) = begin(RunRequest { keep_metrics: false, ..request() }, 1, "");
    assert_eq!(actions.last(), Some(&StartAction::MakeFolder));
}

#[test]
fn a_bad_header_line_stops_all() {
    let lines = Some(vec!["a:1".to_string(), "bad".to_string()]);
    match RunStart::new(RunRequest { headers: lines, ..request() }) {
        Err(HeaderError::MissingColon(line)) => assert_eq!(line, "bad"),
        _ => panic!(),
    }
    let lines = Some(vec!["A:1".to_string()]);
    let (start, headers) = RunStart::new(RunRequest { headers: lines, ..request() }).ok().unwrap();
    assert_eq!(start.action(), StartAction::Connect);
    assert_eq!((headers.len(), headers.get("a").unwrap().as_bytes()), (1, &b"1"[..]));
    let (_, headers) = RunStart::new(request()).ok().unwrap();
    assert!(headers.is_empty());
}

#[test]
fn a_foreign_chain_is_refused_before_anything_is_written() {
    let (actions, run) = begin(request(), 1337, "");
    assert!(matches!(run, Err(StartError::Chain(ChainError::Unsupported(1337)))));
    assert!(!writes(&actions));
    let genesis = r#"{"config": {"chainId": 5}}"#;
    let (actions, run) = begin(RunRequest { genesis: true, ..request() }, 1, genesis);
    assert!(matches!(
        run,
        Err(StartError::Chain(ChainError::GenesisMismatch { genesis: 5, rpc: 1 }))
    ));
    assert!(!writes(&actions));
    let (actions, run) = begin(RunRequest { genesis: true, ..request() }, 1, "{");
    assert!(matches!(run, Err(StartError::Chain(ChainError::NoGenesis(_)))));
    assert_eq!(actions.last(), Some(&StartAction::ReadGenesis));
}

#[test]
fn no_blocks_are_refused_before_anything_is_written() {
    let (actions, run) = begin(RunRequest { last_n_blocks: Some(0), ..request() }, 1, "");
    assert!(matches!(run, Err(StartError::Blocks(ZeroBlocks))));
    assert_eq!(actions.last(), Some(&StartAction::AskLatestBlock));
    assert!(!writes(&actions));
}
