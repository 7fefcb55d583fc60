use witness_tools::blocks::blocks_to_process;
use witness_tools::source::{
    plan_generator, select_blocks, zero_blocks_message, BlockSelection, Course, GeneratorPlan,
    SourceCommand, TestSource, MAX_RESPONSE_BYTES, REQUEST_TIMEOUT_SECS,
};

fn rpc(follow: bool) -> SourceCommand<String> {
    SourceCommand::Rpc {
        last_n_blocks: Some(3),
        block: None,
        follow,
        rpc_url: "http://localhost:8545".to_string(),
        rpc_header: Some(vec!["a:b".to_string()]),
        genesis: Some("g.json".to_string()),
    }
}

fn tests(tag: Option<&str>, folder: Option<&str>) -> SourceCommand<String> {
    SourceCommand::Tests {
        tag: tag.map(|t| t.to_string()),
        includes: Some(vec!["x".to_string()]),
        excludes: None,
        eest_fixtures_path: folder.map(|f| f.to_string()),
    }
}

fn test_source(command: SourceCommand<String>) -> TestSource<String> {
    match plan_generator(command) {
        GeneratorPlan::Tests { source, includes, excludes } => {
            assert_eq!(includes, Some(vec!["x".to_string()]));
            assert_eq!(excludes, None);
            source
        }
        _ => panic!(),
    }
}

#[test]
fn only_an_endpoint_that_is_not_followed_runs_timed() {
    let raw_input = SourceCommand::RawInput { input_folder: String::new() };
    for no_save in [false, true] {
        let other = if no_save { Course::SetUpOnly } else { Course::Generate };
        assert_eq!(rpc(false).course(no_save), Course::Timed);
        assert_eq!(rpc(true).course(no_save), other);
        assert_eq!(tests(None, None).course(no_save), other);
        assert_eq!(raw_input.course(no_save), other);
    }
}

#[test]
fn source_of_the_tests() {
    assert!(matches!(test_source(tests(Some("v1"), None)), TestSource::Tag(t) if t == "v1"));
    assert!(matches!(test_source(tests(Some("v1"), Some("f"))), TestSource::Tag(t) if t == "v1"));
    assert!(matches!(test_source(tests(None, Some("f"))), TestSource::Folder(f) if f == "f"));
    assert!(matches!(test_source(tests(None, None)), TestSource::Latest));
    assert!(matches!(test_source(tests(Some(""), None)), TestSource::Latest));
}

#[test]
fn settings_of_a_raw_input() {
    match plan_generator(SourceCommand::RawInput { input_folder: "in".to_string() }) {
        GeneratorPlan::RawInput { input_folder } => assert_eq!(input_folder, "in"),
        _ => panic!(),
    }
}

#[test]
fn settings_of_an_endpoint() {
    match plan_generator(rpc(true)) {
        GeneratorPlan::Rpc { rpc_url, headers, genesis, blocks } => {
            assert_eq!(rpc_url, "http://localhost:8545");
            assert_eq!(headers, Some(vec!["a:b".to_string()]));
            assert_eq!(genesis.as_deref(), Some("g.json"));
            assert_eq!(blocks, BlockSelection::Listen);
        }
        _ => panic!(),
    }
}

#[test]
fn selections_of_blocks() {
    assert_eq!(select_blocks(true, Some(1), Some(0)), BlockSelection::Listen);
    assert_eq!(select_blocks(false, Some(1), Some(0)), BlockSelection::Block(1));
    assert_eq!(select_blocks(false, None, Some(7)), BlockSelection::Last(7));
    assert_eq!(select_blocks(false, None, None), BlockSelection::Last(1));
    assert_eq!(select_blocks(false, None, Some(0)), BlockSelection::Zero);
    assert_eq!(zero_blocks_message(), "Number of blocks must be greater than 0");
}

#[test]
fn run_and_generator_agree() {
    for (last, block) in [(None, None), (None, Some(4)), (Some(1), None), (Some(5), None)] {
        let blocks = blocks_to_process(100, last, block).unwrap();
        match select_blocks(false, block, last) {
            BlockSelection::Block(b) => assert_eq!(blocks, vec![b]),
            BlockSelection::Last(n) => {
                assert_eq!((blocks.len(), blocks[0]), (n, 100));
            }
            _ => panic!(),
        }
    }
    assert!(blocks_to_process(100, Some(0), None).is_err());
}

#[test]
fn limits_of_the_client() {
    assert_eq!(MAX_RESPONSE_BYTES, 1 << 30);
    assert_eq!(REQUEST_TIMEOUT_SECS, 600);
}
