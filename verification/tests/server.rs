use witness_tools::fixtures::{FixtureFacts, FixtureLoader};
use witness_tools::info::{fixture_info, sum_sizes};
use witness_tools::ratio::Ratio;
use witness_tools::response::{
    health, loaded_response, select_fixture, witness_response, Elapsed, Status, ValidationResponse,
    WitnessOutcome,
};

fn facts(name: &str, n_state_nodes: usize, n_txs: usize) -> FixtureFacts {
    let codes = vec![vec![1], vec![2], vec![1, 2], vec![1], vec![2]];
    FixtureFacts { name: name.to_string(), gas_used: 21_000, n_state_nodes, codes, n_txs }
}

fn loader() -> FixtureLoader<u8> {
    let mut loader = FixtureLoader::new(0);
    loader.add(10, facts("a", 5, 1), 1_000);
    loader.add(11, facts("b", 500, 1), 3_000);
    loader.add(12, facts("c", 20, 2), 2_001);
    loader.add(13, facts("d", 5_000, 1), 7);
    loader
}

fn at(secs: u64, nanos: u32) -> Elapsed {
    Elapsed { secs, nanos }
}

#[test]
fn sizes_within_the_limit() {
    let mut loader: FixtureLoader<()> = FixtureLoader::new(100);
    assert!(loader.offer(0));
    assert!(loader.offer(100));
    assert!(!loader.offer(101));
    assert!(!loader.offer(usize::MAX));
    assert_eq!(loader.skipped, 2);
    let mut unlimited: FixtureLoader<()> = FixtureLoader::new(0);
    assert!(unlimited.offer(usize::MAX));
    assert_eq!(unlimited.skipped, 0);
}

/// Loads fixtures from files with these sizes, of which those with an odd size cannot be read.
fn load(sizes: &[usize], max_bytes: usize) -> FixtureLoader<usize> {
    let mut loader = FixtureLoader::new(max_bytes);
    for (i, size) in sizes.iter().enumerate() {
        if loader.offer(*size) && size % 2 == 0 {
            loader.add(i, facts("f", 1, 1), *size);
        }
    }
    loader
}

#[test]
fn a_stricter_limit_loads_a_part() {
    let sizes = [30, 10, 21, 40, 20, 0, 22];
    let loaded = |max_bytes: usize| -> Vec<(usize, usize)> {
        load(&sizes, max_bytes).fixtures.iter().map(|f| (f.fixture, f.raw_size)).collect()
    };
    assert_eq!(loaded(0), vec![(0, 30), (1, 10), (3, 40), (4, 20), (5, 0), (6, 22)]);
    assert_eq!(loaded(22), vec![(1, 10), (4, 20), (5, 0), (6, 22)]);
    assert_eq!(loaded(20), vec![(1, 10), (4, 20), (5, 0)]);
    for (strict, loose) in [(20, 22), (22, 0), (1, 40), (40, 40)] {
        let mut part = loaded(loose);
        part.retain(|f| f.1 <= strict);
        assert_eq!(loaded(strict), part);
    }
    assert_eq!(load(&sizes, 20).skipped, 4);
}

#[test]
fn codes_are_counted_once() {
    let mut loader = FixtureLoader::new(0);
    for codes in [vec![], vec![vec![]], vec![vec![6, 7]; 2], vec![vec![6], vec![6, 7], vec![7]]] {
        loader.add((), FixtureFacts { codes, ..facts("c", 1, 1) }, 1);
    }
    let counts: Vec<usize> = loader.fixtures.iter().map(|f| f.n_codes).collect();
    assert_eq!(counts, vec![0, 1, 1, 3]);
}

#[test]
fn loaded_fixtures_are_classified() {
    let loader = loader();
    let categories: Vec<&str> = loader.fixtures.iter().map(|f| f.category).collect();
    assert_eq!(categories, vec!["lightweight", "heavy", "lightweight", "worst_case"]);
    let second = &loader.fixtures[1];
    assert_eq!((second.fixture, second.name.as_str(), second.gas_used), (11, "b", 21_000));
    assert_eq!((second.raw_size, second.n_state_nodes), (3_000, 500));
    assert_eq!((second.n_codes, second.n_txs), (3, 1));
}

#[test]
fn default_response_is_an_error() {
    let response = ValidationResponse::default();
    assert_eq!(response.status, "error");
    assert_eq!((response.fixture_name, response.fixture_idx), (None, None));
    assert_eq!((response.witness_size_bytes, response.block_gas_used), (None, None));
    assert_eq!((response.n_state_nodes, response.n_txs, response.category), (None, None, None));
    assert_eq!((response.deser, response.input_prep, response.validation), (None, None, None));
    assert_eq!((response.total_server, response.error), (None, None));
}

#[test]
fn accepted_witness() {
    let outcome = WitnessOutcome {
        name: "x".to_string(),
        gas_used: 5,
        deser: at(0, 1),
        input_prep: at(0, 2),
        validation: at(3, 4),
    };
    let (status, response) = witness_response(77, Ok(outcome), at(9, 0));
    assert_eq!((status, status.code()), (Status::Success, 200));
    assert_eq!(response.status, "accepted");
    assert_eq!(response.fixture_name.as_deref(), Some("x"));
    assert_eq!((response.fixture_idx, response.category), (None, None));
    assert_eq!((response.witness_size_bytes, response.block_gas_used), (Some(77), Some(5)));
    assert_eq!((response.deser, response.input_prep), (Some(at(0, 1)), Some(at(0, 2))));
    assert_eq!((response.validation, response.total_server), (Some(at(3, 4)), Some(at(9, 0))));
    assert_eq!(response.error, None);
}

#[test]
fn rejected_witness() {
    let (status, response) = witness_response(77, Err("no".to_string()), at(9, 0));
    assert_eq!((status, status.code()), (Status::BadRequest, 400));
    assert_eq!(response.status, "rejected");
    assert_eq!(response.error.as_deref(), Some("no"));
    assert_eq!((response.witness_size_bytes, response.block_gas_used), (Some(77), None));
    assert_eq!((response.fixture_name, response.deser, response.validation), (None, None, None));
    assert_eq!(response.total_server, Some(at(9, 0)));
}

#[test]
fn fixture_out_of_range() {
    let fixtures = loader().fixtures;
    assert_eq!(select_fixture(&fixtures, 3).ok().unwrap().name, "d");
    let (status, response) = select_fixture(&fixtures, 4).err().unwrap();
    assert_eq!((status, status.code()), (Status::NotFound, 404));
    assert_eq!(response.status, "error");
    assert_eq!(response.error.as_deref(), Some("fixture index 4 out of range (have 4)"));
    assert_eq!(response.total_server, None);
}

#[test]
fn accepted_fixture() {
    let fixtures = loader().fixtures;
    let (status, response) = loaded_response(1, &fixtures[1], Ok((at(0, 2), at(3, 4))), at(9, 0));
    assert_eq!(status, Status::Success);
    assert_eq!(response.status, "accepted");
    assert_eq!(response.fixture_name.as_deref(), Some("b"));
    assert_eq!((response.fixture_idx, response.witness_size_bytes), (Some(1), Some(3_000)));
    assert_eq!(response.block_gas_used, Some(21_000));
    assert_eq!((response.n_state_nodes, response.n_txs), (Some(500), Some(1)));
    assert_eq!(response.category.as_deref(), Some("heavy"));
    assert_eq!((response.deser, response.input_prep), (None, Some(at(0, 2))));
    assert_eq!((response.validation, response.total_server), (Some(at(3, 4)), Some(at(9, 0))));
    assert_eq!(response.error, None);
}

#[test]
fn rejected_fixture() {
    let fixtures = loader().fixtures;
    let (status, response) = loaded_response(1, &fixtures[1], Err("no".to_string()), at(9, 0));
    assert_eq!(status, Status::BadRequest);
    assert_eq!(response.status, "rejected");
    assert_eq!(response.fixture_name.as_deref(), Some("b"));
    assert_eq!((response.fixture_idx, response.witness_size_bytes), (Some(1), None));
    assert_eq!((response.n_state_nodes, response.n_txs, response.category), (None, None, None));
    assert_eq!(response.error.as_deref(), Some("no"));
    assert_eq!(response.total_server, Some(at(9, 0)));
}

#[test]
fn statistics() {
    let fixtures = loader().fixtures;
    let info = fixture_info(&fixtures);
    assert_eq!(info.fixture_count, 4);
    assert_eq!(info.total_size, 6_008);
    assert_eq!(sum_sizes(&fixtures), 6_008);
    assert_eq!(info.avg_size, Ratio { numerator: 6_008, denominator: 4 });
    let names: Vec<&str> = info.categories.iter().map(|c| c.category.as_str()).collect();
    assert_eq!(names, vec!["lightweight", "heavy", "worst_case"]);
    assert_eq!(info.categories[0].count, 2);
    assert_eq!(info.categories[0].indices, vec![0, 2]);
    assert_eq!(info.categories[0].avg_size, Ratio { numerator: 3_001, denominator: 2 });
    assert_eq!(info.categories[1].indices, vec![1]);
    assert_eq!(info.categories[2].avg_size, Ratio { numerator: 7, denominator: 1 });
}

#[test]
fn categories_make_up_the_whole() {
    let info = fixture_info(&loader().fixtures);
    assert_eq!(info.categories.iter().map(|c| c.count).sum::<usize>(), info.fixture_count);
    let mut indices: Vec<usize> =
        info.categories.iter().flat_map(|c| c.indices.iter().copied()).collect();
    indices.sort();
    assert_eq!(indices, vec![0, 1, 2, 3]);
    assert_eq!(info.categories.iter().map(|c| c.avg_size.numerator).sum::<u128>(), info.total_size);
}

#[test]
fn statistics_of_nothing() {
    let info = fixture_info::<u8>(&vec![]);
    assert_eq!((info.fixture_count, info.total_size), (0, 0));
    assert_eq!(info.avg_size, Ratio { numerator: 0, denominator: 1 });
    assert!(info.categories.is_empty());
}

#[test]
fn sizes_beyond_the_machine_word() {
    let mut loader: FixtureLoader<()> = FixtureLoader::new(0);
    loader.add((), facts("a", 1, 1), usize::MAX);
    loader.add((), facts("b", 1, 1), usize::MAX);
    assert_eq!(sum_sizes(&loader.fixtures), 2 * (usize::MAX as u128));
}

#[test]
fn liveness() {
    assert_eq!(health(), "ok");
}

#[test]
fn answers_are_consistent() {
    let fixtures = loader().fixtures;
    let answers = [
        witness_response(1, Err("e".to_string()), at(0, 0)),
        select_fixture(&fixtures, 9).err().unwrap(),
        loaded_response(0, &fixtures[0], Err("e".to_string()), at(0, 0)),
        loaded_response(0, &fixtures[0], Ok((at(0, 1), at(0, 2))), at(0, 3)),
    ];
    for (status, response) in answers {
        assert_eq!(response.deser, None);
        let success = status.code() == 200;
        assert_eq!(success, response.status == "accepted");
        assert_eq!(success, response.error.is_none());
        assert_eq!(success, response.validation.is_some());
    }
}
