//! The answers of the validation server.

use vstd::prelude::*;

use crate::fixtures::LoadedFixture;
use crate::text::{decimal, push_decimal};

verus! {

/// The HTTP status of an answer.
#[derive(Clone, Copy, Debug, PartialEq, Eq, Structural)]
pub enum Status {
    Success,
    BadRequest,
    NotFound,
}

impl Status {
    /// The number of the status.
    pub open spec fn number(self) -> u16 {
        match self {
            Status::Success => 200,
            Status::BadRequest => 400,
            Status::NotFound => 404,
        }
    }

    /// The number of the status.
    pub fn code(self) -> (code: u16)
        ensures
            code == self.number(),
    {
        match self {
            Status::Success => 200,
            Status::BadRequest => 400,
            Status::NotFound => 404,
        }
    }
}

/// A length of time.
#[derive(Clone, Copy, Debug, PartialEq, Eq, Structural)]
pub struct Elapsed {
    pub secs: u64,
    /// The nanoseconds beyond the whole seconds.
    pub nanos: u32,
}

/// The answer to a request for validation. What is absent is left out of it.
pub struct ValidationResponse {
    /// `accepted`, `rejected` or `error`.
    pub status: String,
    pub fixture_name: Option<String>,
    pub fixture_idx: Option<usize>,
    pub witness_size_bytes: Option<usize>,
    pub block_gas_used: Option<u64>,
    pub n_state_nodes: Option<usize>,
    pub n_txs: Option<usize>,
    pub category: Option<String>,
    /// How long it took to read the fixture from JSON. Only a posted witness is.
    pub deser: Option<Elapsed>,
    /// How long it took to prepare the validator's input.
    pub input_prep: Option<Elapsed>,
    /// How long the validation itself took.
    pub validation: Option<Elapsed>,
    /// How long the server took altogether.
    pub total_server: Option<Elapsed>,
    pub error: Option<String>,
}

/// What an answer says.
#[verifier::ext_equal]
pub struct ResponseView {
    pub status: Seq<char>,
    pub fixture_name: Option<Seq<char>>,
    pub fixture_idx: Option<usize>,
    pub witness_size_bytes: Option<usize>,
    pub block_gas_used: Option<u64>,
    pub n_state_nodes: Option<usize>,
    pub n_txs: Option<usize>,
    pub category: Option<Seq<char>>,
    pub deser: Option<Elapsed>,
    pub input_prep: Option<Elapsed>,
    pub validation: Option<Elapsed>,
    pub total_server: Option<Elapsed>,
    pub error: Option<Seq<char>>,
}

/// The text of a string that may be absent.
pub open spec fn text_of(s: Option<String>) -> Option<Seq<char>> {
    match s {
        Some(s) => Some(s@),
        None => None,
    }
}

impl View for ValidationResponse {
    type V = ResponseView;

    open spec fn view(&self) -> ResponseView {
        ResponseView {
            status: self.status@,
            fixture_name: text_of(self.fixture_name),
            fixture_idx: self.fixture_idx,
            witness_size_bytes: self.witness_size_bytes,
            block_gas_used: self.block_gas_used,
            n_state_nodes: self.n_state_nodes,
            n_txs: self.n_txs,
            category: text_of(self.category),
            deser: self.deser,
            input_prep: self.input_prep,
            validation: self.validation,
            total_server: self.total_server,
            error: text_of(self.error),
        }
    }
}

impl ResponseView {
    /// An error of which nothing else is said.
    pub open spec fn blank() -> ResponseView {
        ResponseView {
            status: "error"@,
            fixture_name: None,
            fixture_idx: None,
            witness_size_bytes: None,
            block_gas_used: None,
            n_state_nodes: None,
            n_txs: None,
            category: None,
            deser: None,
            input_prep: None,
            validation: None,
            total_server: None,
            error: None,
        }
    }
}

impl Default for ValidationResponse {
    fn default() -> (response: Self)
        ensures
            response@ == ResponseView::blank(),
    {
        ValidationResponse {
            status: "error".to_owned(),
            fixture_name: None,
            fixture_idx: None,
            witness_size_bytes: None,
            block_gas_used: None,
            n_state_nodes: None,
            n_txs: None,
            category: None,
            deser: None,
            input_prep: None,
            validation: None,
            total_server: None,
            error: None,
        }
    }
}

/// What is known of a posted witness that was read and validated.
pub struct WitnessOutcome {
    pub name: String,
    pub gas_used: u64,
    pub deser: Elapsed,
    pub input_prep: Elapsed,
    pub validation: Elapsed,
}

/// The answer to a posted witness of `body_len` bytes.
pub open spec fn witness_answer(
    body_len: usize,
    outcome: Result<WitnessOutcome, String>,
    total: Elapsed,
) -> (Status, ResponseView) {
    match outcome {
        Ok(done) => (
            Status::Success,
            ResponseView {
                status: "accepted"@,
                fixture_name: Some(done.name@),
                witness_size_bytes: Some(body_len),
                block_gas_used: Some(done.gas_used),
                deser: Some(done.deser),
                input_prep: Some(done.input_prep),
                validation: Some(done.validation),
                total_server: Some(total),
                ..ResponseView::blank()
            },
        ),
        Err(error) => (
            Status::BadRequest,
            ResponseView {
                status: "rejected"@,
                error: Some(error@),
                witness_size_bytes: Some(body_len),
                total_server: Some(total),
                ..ResponseView::blank()
            },
        ),
    }
}

/// Answers a posted witness of `body_len` bytes: with its timings, or with the error that stopped
/// it.
pub fn witness_response(
    body_len: usize,
    outcome: Result<WitnessOutcome, String>,
    total: Elapsed,
) -> (answer: (Status, ValidationResponse))
    ensures
        (answer.0, answer.1@) == witness_answer(body_len, outcome, total),
{
    match outcome {
        Ok(done) => {
            let mut response = ValidationResponse::default();
            response.status = "accepted".to_owned();
            response.fixture_name = Some(done.name);
            response.witness_size_bytes = Some(body_len);
            response.block_gas_used = Some(done.gas_used);
            response.deser = Some(done.deser);
            response.input_prep = Some(done.input_prep);
            response.validation = Some(done.validation);
            response.total_server = Some(total);
            (Status::Success, response)
        },
        Err(error) => {
            let mut response = ValidationResponse::default();
            response.status = "rejected".to_owned();
            response.error = Some(error);
            response.witness_size_bytes = Some(body_len);
            response.total_server = Some(total);
            (Status::BadRequest, response)
        },
    }
}

/// The answer to a request for a fixture that is not among the `count` loaded ones.
pub open spec fn out_of_range_answer(idx: usize, count: nat) -> (Status, ResponseView) {
    (
        Status::NotFound,
        ResponseView {
            error: Some(
                "fixture index "@ + decimal(idx as nat) + " out of range (have "@ + decimal(count)
                    + ")"@,
            ),
            ..ResponseView::blank()
        },
    )
}

/// The loaded fixture with the index `idx`, or the answer where there is none.
pub fn select_fixture<F>(fixtures: &Vec<LoadedFixture<F>>, idx: usize) -> (result: Result<
    &LoadedFixture<F>,
    (Status, ValidationResponse),
>)
    ensures
        match result {
            Ok(loaded) => idx < fixtures@.len() && *loaded == fixtures@[idx as int],
            Err(answer) => idx >= fixtures@.len() && (answer.0, answer.1@) == out_of_range_answer(
                idx,
                fixtures@.len(),
            ),
        },
{
    if idx < fixtures.len() {
        return Ok(&fixtures[idx]);
    }
    let mut message = "fixture index ".to_owned();
    push_decimal(&mut message, idx as u64);
    message.append(" out of range (have ");
    push_decimal(&mut message, fixtures.len() as u64);
    message.append(")");
    let mut response = ValidationResponse::default();
    response.error = Some(message);
    Err((Status::NotFound, response))
}

/// The answer to a request for a loaded fixture, given how long the preparation and the validation
/// took, or the error that stopped them.
pub open spec fn loaded_answer<F>(
    idx: usize,
    loaded: LoadedFixture<F>,
    outcome: Result<(Elapsed, Elapsed), String>,
    total: Elapsed,
) -> (Status, ResponseView) {
    match outcome {
        Ok(times) => (
            Status::Success,
            ResponseView {
                status: "accepted"@,
                fixture_name: Some(loaded.name@),
                fixture_idx: Some(idx),
                witness_size_bytes: Some(loaded.raw_size),
                block_gas_used: Some(loaded.gas_used),
                n_state_nodes: Some(loaded.n_state_nodes),
                n_txs: Some(loaded.n_txs),
                category: Some(loaded.category@),
                input_prep: Some(times.0),
                validation: Some(times.1),
                total_server: Some(total),
                ..ResponseView::blank()
            },
        ),
        Err(error) => (
            Status::BadRequest,
            ResponseView {
                status: "rejected"@,
                fixture_name: Some(loaded.name@),
                fixture_idx: Some(idx),
                error: Some(error@),
                total_server: Some(total),
                ..ResponseView::blank()
            },
        ),
    }
}

/// Answers a request for a loaded fixture. Nothing was read from JSON for it, so no time is given
/// for that.
pub fn loaded_response<F>(
    idx: usize,
    loaded: &LoadedFixture<F>,
    outcome: Result<(Elapsed, Elapsed), String>,
    total: Elapsed,
) -> (answer: (Status, ValidationResponse))
    ensures
        (answer.0, answer.1@) == loaded_answer(idx, *loaded, outcome, total),
{
    match outcome {
        Ok((input_prep, validation)) => {
            let mut response = ValidationResponse::default();
            response.status = "accepted".to_owned();
            response.fixture_name = Some(loaded.name.clone());
            response.fixture_idx = Some(idx);
            response.witness_size_bytes = Some(loaded.raw_size);
            response.block_gas_used = Some(loaded.gas_used);
            response.n_state_nodes = Some(loaded.n_state_nodes);
            response.n_txs = Some(loaded.n_txs);
            response.category = Some(loaded.category.to_owned());
            response.input_prep = Some(input_prep);
            response.validation = Some(validation);
            response.total_server = Some(total);
            (Status::Success, response)
        },
        Err(error) => {
            let mut response = ValidationResponse::default();
            response.status = "rejected".to_owned();
            response.fixture_name = Some(loaded.name.clone());
            response.fixture_idx = Some(idx);
            response.error = Some(error);
            response.total_server = Some(total);
            (Status::BadRequest, response)
        },
    }
}

/// The answer to the liveness probe.
pub fn health() -> (answer: &'static str)
    ensures
        answer@ == "ok"@,
{
    "ok"
}

/// Whether the parts of an answer agree: it is `accepted` with the status 200, no error and the
/// timings of the validation, or it is refused with another status, an error and without the timing
/// of any stage.
pub open spec fn consistent(answer: (Status, ResponseView)) -> bool {
    let (status, response) = answer;
    if status is Success {
        &&& status.number() == 200
        &&& response.status == "accepted"@
        &&& response.error is None
        &&& response.fixture_name is Some
        &&& response.input_prep is Some && response.validation is Some
        &&& response.total_server is Some
    } else {
        &&& 400 <= status.number() < 500
        &&& response.status == "rejected"@ || response.status == "error"@
        &&& response.error is Some
        &&& response.deser is None && response.input_prep is None && response.validation is None
    }
}

/// Every answer of the server is consistent, and it is a success exactly if the validation was. How
/// long reading from JSON took is told of every accepted witness that was posted, and never of a
/// loaded fixture.
pub proof fn answers_are_consistent<F>(
    body_len: usize,
    witness: Result<WitnessOutcome, String>,
    idx: usize,
    count: nat,
    loaded: LoadedFixture<F>,
    outcome: Result<(Elapsed, Elapsed), String>,
    total: Elapsed,
)
    ensures
        consistent(witness_answer(body_len, witness, total)),
        witness_answer(body_len, witness, total).0 is Success <==> witness is Ok,
        witness_answer(body_len, witness, total).1.deser is Some <==> witness is Ok,
        consistent(out_of_range_answer(idx, count)),
        out_of_range_answer(idx, count).0 !is Success,
        consistent(loaded_answer(idx, loaded, outcome, total)),
        loaded_answer(idx, loaded, outcome, total).0 is Success <==> outcome is Ok,
        loaded_answer(idx, loaded, outcome, total).1.deser is None,
{
}

/// The three statuses have the numbers 200, 400 and 404.
pub proof fn statuses_have_their_numbers(status: Status, code: u16)
    requires
        call_ensures(Status::code, (status,), code),
    ensures
        status is Success <==> code == 200,
        status is BadRequest <==> code == 400,
        status is NotFound <==> code == 404,
{
}

/// Of an answer that nothing is said in, the status is `error` and all else is absent.
pub proof fn answers_begin_blank(response: ValidationResponse)
    requires
        call_ensures(<ValidationResponse as Default>::default, (), response),
    ensures
        response.status@ == "error"@,
        response.fixture_name is None && response.fixture_idx is None,
        response.witness_size_bytes is None && response.block_gas_used is None,
        response.n_state_nodes is None && response.n_txs is None && response.category is None,
        response.deser is None && response.input_prep is None && response.validation is None,
        response.total_server is None && response.error is None,
{
}

/// A witness that was validated is answered with 200 and its own name, gas and timings, each in its
/// place, and one that was not with 400 and the error; both with the size of what was posted and the
/// time it all took, and with nothing else.
pub proof fn witnesses_are_answered(
    body_len: usize,
    outcome: Result<WitnessOutcome, String>,
    total: Elapsed,
    answer: (Status, ValidationResponse),
)
    requires
        call_ensures(witness_response, (body_len, outcome, total), answer),
    ensures
        ({
            let (status, response) = answer;
            &&& response.witness_size_bytes == Some(body_len)
            &&& response.total_server == Some(total)
            &&& response.fixture_idx is None && response.n_state_nodes is None
            &&& response.n_txs is None && response.category is None
            &&& match outcome {
                Ok(done) => {
                    &&& status is Success && response.status@ == "accepted"@
                    &&& response.fixture_name matches Some(name) && name@ == done.name@
                    &&& response.block_gas_used == Some(done.gas_used)
                    &&& response.deser == Some(done.deser)
                    &&& response.input_prep == Some(done.input_prep)
                    &&& response.validation == Some(done.validation)
                    &&& response.error is None
                },
                Err(error) => {
                    &&& status is BadRequest && response.status@ == "rejected"@
                    &&& response.error matches Some(text) && text@ == error@
                    &&& response.fixture_name is None && response.block_gas_used is None
                    &&& response.deser is None && response.input_prep is None
                    &&& response.validation is None
                },
            }
        }),
{
    let response = answer.1@;
    assert(response.error == text_of(answer.1.error));
    assert(response.fixture_name == text_of(answer.1.fixture_name));
    assert(response.category == text_of(answer.1.category));
}

/// The fixture at an index is the one that is selected, and an index beyond the last is answered with
/// 404 and a message that gives the index and how many there are.
pub proof fn fixtures_are_selected_by_index<F>(
    fixtures: &Vec<LoadedFixture<F>>,
    idx: usize,
    result: Result<&LoadedFixture<F>, (Status, ValidationResponse)>,
)
    requires
        call_ensures(select_fixture::<F>, (fixtures, idx), result),
    ensures
        idx < fixtures@.len() ==> (result matches Ok(loaded) && *loaded == fixtures@[idx as int]),
        idx >= fixtures@.len() ==> (result matches Err(answer) && answer.0 is NotFound
            && answer.1.status@ == "error"@ && (answer.1.error matches Some(text) && text@
            == "fixture index "@ + decimal(idx as nat) + " out of range (have "@ + decimal(
            fixtures@.len(),
        ) + ")"@) && answer.1.fixture_name is None && answer.1.fixture_idx is None
            && answer.1.witness_size_bytes is None && answer.1.block_gas_used is None
            && answer.1.n_state_nodes is None && answer.1.n_txs is None && answer.1.category is None
            && answer.1.deser is None && answer.1.input_prep is None && answer.1.validation is None
            && answer.1.total_server is None),
{
    if let Err(answer) = result {
        assert(answer.1@.error == text_of(answer.1.error));
        assert(answer.1@.fixture_name == text_of(answer.1.fixture_name));
        assert(answer.1@.category == text_of(answer.1.category));
    }
}

/// A loaded fixture that was validated is answered with 200, all that is kept of it and the timings,
/// each in its place, and one that was not with 400 and the error; both with its name and index and
/// the time it all took, and with nothing else.
pub proof fn loaded_fixtures_are_answered<F>(
    idx: usize,
    loaded: LoadedFixture<F>,
    outcome: Result<(Elapsed, Elapsed), String>,
    total: Elapsed,
    answer: (Status, ValidationResponse),
)
    requires
        call_ensures(loaded_response::<F>, (idx, &loaded, outcome, total), answer),
    ensures
        ({
            let (status, response) = answer;
            &&& response.fixture_name matches Some(name) && name@ == loaded.name@
            &&& response.fixture_idx == Some(idx)
            &&& response.total_server == Some(total)
            &&& response.deser is None
            &&& match outcome {
                Ok(times) => {
                    &&& status is Success && response.status@ == "accepted"@
                    &&& response.witness_size_bytes == Some(loaded.raw_size)
                    &&& response.block_gas_used == Some(loaded.gas_used)
                    &&& response.n_state_nodes == Some(loaded.n_state_nodes)
                    &&& response.n_txs == Some(loaded.n_txs)
                    &&& response.category matches Some(category) && category@ == loaded.category@
                    &&& response.input_prep == Some(times.0)
                    &&& response.validation == Some(times.1)
                    &&& response.error is None
                },
                Err(error) => {
                    &&& status is BadRequest && response.status@ == "rejected"@
                    &&& response.error matches Some(text) && text@ == error@
                    &&& response.witness_size_bytes is None && response.block_gas_used is None
                    &&& response.n_state_nodes is None && response.n_txs is None
                    &&& response.category is None
                    &&& response.input_prep is None && response.validation is None
                },
            }
        }),
{
    let response = answer.1@;
    assert(response.error == text_of(answer.1.error));
    assert(response.fixture_name == text_of(answer.1.fixture_name));
    assert(response.category == text_of(answer.1.category));
}

/// The liveness probe is answered `ok`.
pub proof fn the_probe_is_answered(answer: &'static str)
    requires
        call_ensures(health, (), answer),
    ensures
        answer@ == "ok"@,
{
}

} // verus!
