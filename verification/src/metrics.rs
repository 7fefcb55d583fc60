//! The metrics of fetched blocks, one comma-separated row each, and what a block leaves behind.

use vstd::prelude::*;

use crate::blocks::{fixture_file, fixture_file_text};
use crate::category::{block_category, blocks_are_classified_by_state_nodes, classify};
use crate::text::{comma_count, decimal, joined, texts};
use crate::text::{
    commas_separate_fields, decimal_has_no_comma, decimal_is_injective, decimal_text, join,
    joined_is_injective,
};

verus! {

/// The names of the columns.
pub open spec fn metrics_columns() -> Seq<Seq<char>> {
    seq![
        "block_number"@,
        "timestamp"@,
        "txn_count"@,
        "gas_used"@,
        "gas_limit"@,
        "gas_utilization_pct"@,
        "witness_time_sec"@,
        "fixture_size_bytes"@,
        "witness_state_nodes"@,
        "witness_codes_count"@,
        "witness_keys_count"@,
        "witness_headers_count"@,
        "category"@,
        "fixture_file"@,
    ]
}

/// The line that heads the metrics file.
pub fn metrics_header() -> (line: String)
    ensures
        line@ == joined(metrics_columns()),
{
    let mut fields: Vec<String> = Vec::new();
    fields.push("block_number".to_owned());
    fields.push("timestamp".to_owned());
    fields.push("txn_count".to_owned());
    fields.push("gas_used".to_owned());
    fields.push("gas_limit".to_owned());
    fields.push("gas_utilization_pct".to_owned());
    fields.push("witness_time_sec".to_owned());
    fields.push("fixture_size_bytes".to_owned());
    fields.push("witness_state_nodes".to_owned());
    fields.push("witness_codes_count".to_owned());
    fields.push("witness_keys_count".to_owned());
    fields.push("witness_headers_count".to_owned());
    fields.push("category".to_owned());
    fields.push("fixture_file".to_owned());
    assert(texts(fields@) =~= metrics_columns());
    join(&fields)
}

/// Whether a metrics file, of which `len` is the length if it exists and can be examined, still needs
/// its heading line.
pub open spec fn header_is_needed(len: Option<nat>) -> bool {
    !(len matches Some(len) && len > 0)
}

/// What a metrics file holds once it is opened for rows to be appended.
pub open spec fn opened(contents: Seq<char>) -> Seq<char> {
    if header_is_needed(Some(contents.len())) {
        contents + joined(metrics_columns()) + "\n"@
    } else {
        contents
    }
}

/// Whether a metrics file, of which `len` is the length if it exists and can be examined, still needs
/// its heading line.
pub fn needs_metrics_header(len: Option<u64>) -> (needs: bool)
    ensures
        needs == header_is_needed(
            match len {
                Some(len) => Some(len as nat),
                None => None,
            },
        ),
{
    match len {
        Some(len) => len == 0,
        None => true,
    }
}

/// What was measured of a block.
pub struct BlockMetrics {
    pub block_number: u64,
    pub timestamp: u64,
    pub txn_count: usize,
    pub gas_used: u64,
    pub gas_limit: u64,
    /// The part of the gas limit that was used, in percent, as a numeral.
    pub gas_pct: String,
    /// The seconds that the witness took, as a numeral.
    pub witness_time: String,
    pub fixture_size: usize,
    pub n_state: usize,
    pub n_codes: usize,
    pub n_keys: usize,
    pub n_headers: usize,
}

impl BlockMetrics {
    /// The fields of the block's row.
    pub open spec fn fields(self) -> Seq<Seq<char>> {
        seq![
            decimal(self.block_number as nat),
            decimal(self.timestamp as nat),
            decimal(self.txn_count as nat),
            decimal(self.gas_used as nat),
            decimal(self.gas_limit as nat),
            self.gas_pct@,
            self.witness_time@,
            decimal(self.fixture_size as nat),
            decimal(self.n_state as nat),
            decimal(self.n_codes as nat),
            decimal(self.n_keys as nat),
            decimal(self.n_headers as nat),
            block_category(self.n_state as nat),
            fixture_file_text(self.block_number),
        ]
    }

    /// The block's row.
    pub fn row(&self) -> (row: String)
        ensures
            row@ == joined(self.fields()),
    {
        let mut fields: Vec<String> = Vec::new();
        fields.push(decimal_text(self.block_number));
        fields.push(decimal_text(self.timestamp));
        fields.push(decimal_text(self.txn_count as u64));
        fields.push(decimal_text(self.gas_used));
        fields.push(decimal_text(self.gas_limit));
        fields.push(self.gas_pct.clone());
        fields.push(self.witness_time.clone());
        fields.push(decimal_text(self.fixture_size as u64));
        fields.push(decimal_text(self.n_state as u64));
        fields.push(decimal_text(self.n_codes as u64));
        fields.push(decimal_text(self.n_keys as u64));
        fields.push(decimal_text(self.n_headers as u64));
        fields.push(classify(self.n_state).to_owned());
        fields.push(fixture_file(self.block_number));
        assert(texts(fields@) =~= self.fields());
        join(&fields)
    }
}

/// What is written for a processed block.
pub struct BlockOutput {
    /// The file that the fixture is written to, if it is saved.
    pub file: Option<String>,
    /// The row that is appended to the metrics file, if there is one.
    pub row: Option<String>,
}

/// What is written for a processed block, by the texts.
#[verifier::ext_equal]
pub struct OutputView {
    pub file: Option<Seq<char>>,
    pub row: Option<Seq<char>>,
}

impl View for BlockOutput {
    type V = OutputView;

    open spec fn view(&self) -> OutputView {
        OutputView {
            file: match self.file {
                Some(file) => Some(file@),
                None => None,
            },
            row: match self.row {
                Some(row) => Some(row@),
                None => None,
            },
        }
    }
}

/// What is written for a block of which this was measured: its fixture, unless fixtures are not
/// saved, and its row, if metrics are kept.
pub open spec fn output_for(metrics: BlockMetrics, no_save: bool, keep_metrics: bool) -> OutputView {
    OutputView {
        file: if no_save {
            None
        } else {
            Some(fixture_file_text(metrics.block_number))
        },
        row: if keep_metrics {
            Some(joined(metrics.fields()))
        } else {
            None
        },
    }
}

/// What is written for a processed block: first its fixture, unless fixtures are not saved, then
/// its row, if metrics are kept.
pub fn block_output(metrics: &BlockMetrics, no_save: bool, keep_metrics: bool) -> (output:
    BlockOutput)
    ensures
        output@ == output_for(*metrics, no_save, keep_metrics),
{
    BlockOutput {
        file: if no_save {
            None
        } else {
            Some(fixture_file(metrics.block_number))
        },
        row: if keep_metrics {
            Some(metrics.row())
        } else {
            None
        },
    }
}

/// One thing that is written for a block.
#[derive(Debug)]
pub enum BlockWrite {
    /// The fixture, to this file.
    Fixture(String),
    /// This row, to the metrics file.
    Row(String),
}

impl OutputView {
    /// What is left to write once the next thing is written: the fixture comes before the row.
    pub open spec fn rest(self) -> OutputView {
        if self.file is Some {
            OutputView { file: None, ..self }
        } else {
            OutputView { row: None, ..self }
        }
    }
}

impl BlockOutput {
    /// Hands out the next thing to write, the fixture before the row. What follows is to be written
    /// only once this is.
    pub fn next_write(&mut self) -> (write: Option<BlockWrite>)
        ensures
            final(self)@ == old(self)@.rest(),
            match write {
                Some(BlockWrite::Fixture(file)) => old(self)@.file == Some(file@),
                Some(BlockWrite::Row(row)) => old(self)@.file is None && old(self)@.row == Some(
                    row@,
                ),
                None => old(self)@.file is None && old(self)@.row is None,
            },
    {
        match self.file.take() {
            Some(file) => Some(BlockWrite::Fixture(file)),
            None => match self.row.take() {
                Some(row) => Some(BlockWrite::Row(row)),
                None => None,
            },
        }
    }
}

/// The heading line and the row of every block have the same number of fields, and as a text each
/// holds one comma between every two of them: the only fields that are not the library's own are
/// the two numerals.
pub proof fn rows_fit_the_header(metrics: BlockMetrics)
    requires
        !metrics.gas_pct@.contains(','),
        !metrics.witness_time@.contains(','),
    ensures
        metrics.fields().len() == metrics_columns().len(),
        comma_count(joined(metrics.fields())) == comma_count(joined(metrics_columns())),
        comma_count(joined(metrics_columns())) == metrics_columns().len() - 1,
{
    let fields = metrics.fields();
    fields_have_no_comma(metrics);
    commas_separate_fields(fields);
    columns_have_no_comma();
    commas_separate_fields(metrics_columns());
}

/// Rows can be read back: two blocks have the same row only if they have the same number and the same
/// was measured of both.
pub proof fn rows_can_be_read_back(a: BlockMetrics, b: BlockMetrics)
    requires
        !a.gas_pct@.contains(','),
        !a.witness_time@.contains(','),
        !b.gas_pct@.contains(','),
        !b.witness_time@.contains(','),
        joined(a.fields()) == joined(b.fields()),
    ensures
        a.block_number == b.block_number,
        a.timestamp == b.timestamp,
        a.txn_count == b.txn_count,
        a.gas_used == b.gas_used,
        a.gas_limit == b.gas_limit,
        a.gas_pct@ == b.gas_pct@,
        a.witness_time@ == b.witness_time@,
        a.fixture_size == b.fixture_size,
        a.n_state == b.n_state,
        a.n_codes == b.n_codes,
        a.n_keys == b.n_keys,
        a.n_headers == b.n_headers,
{
    let x = a.fields();
    let y = b.fields();
    fields_have_no_comma(a);
    fields_have_no_comma(b);
    joined_is_injective(x, y);
    assert(x[5] == a.gas_pct@ && y[5] == b.gas_pct@);
    assert(x[6] == a.witness_time@ && y[6] == b.witness_time@);
    assert(x[0] == y[0] && x[1] == y[1] && x[2] == y[2] && x[3] == y[3] && x[4] == y[4]);
    assert(x[7] == y[7] && x[8] == y[8] && x[9] == y[9] && x[10] == y[10] && x[11] == y[11]);
    decimal_is_injective(a.block_number as nat, b.block_number as nat);
    decimal_is_injective(a.timestamp as nat, b.timestamp as nat);
    decimal_is_injective(a.txn_count as nat, b.txn_count as nat);
    decimal_is_injective(a.gas_used as nat, b.gas_used as nat);
    decimal_is_injective(a.gas_limit as nat, b.gas_limit as nat);
    decimal_is_injective(a.fixture_size as nat, b.fixture_size as nat);
    decimal_is_injective(a.n_state as nat, b.n_state as nat);
    decimal_is_injective(a.n_codes as nat, b.n_codes as nat);
    decimal_is_injective(a.n_keys as nat, b.n_keys as nat);
    decimal_is_injective(a.n_headers as nat, b.n_headers as nat);
}

proof fn fields_have_no_comma(metrics: BlockMetrics)
    requires
        !metrics.gas_pct@.contains(','),
        !metrics.witness_time@.contains(','),
    ensures
        forall|i: int|
            0 <= i < metrics.fields().len() ==> !(#[trigger] metrics.fields()[i]).contains(','),
{
    let fields = metrics.fields();
    decimal_has_no_comma(metrics.block_number as nat);
    decimal_has_no_comma(metrics.timestamp as nat);
    decimal_has_no_comma(metrics.txn_count as nat);
    decimal_has_no_comma(metrics.gas_used as nat);
    decimal_has_no_comma(metrics.gas_limit as nat);
    decimal_has_no_comma(metrics.fixture_size as nat);
    decimal_has_no_comma(metrics.n_state as nat);
    decimal_has_no_comma(metrics.n_codes as nat);
    decimal_has_no_comma(metrics.n_keys as nat);
    decimal_has_no_comma(metrics.n_headers as nat);
    category_has_no_comma(metrics.n_state as nat);
    file_has_no_comma(metrics.block_number);
    assert forall|i: int| 0 <= i < fields.len() implies !(#[trigger] fields[i]).contains(',') by {}
}

/// The heading line is written once: a file that rows were appended to, none of them or many, is
/// left as it is when it is opened again.
pub proof fn header_is_written_once(contents: Seq<char>, rows: Seq<char>)
    ensures
        opened(opened(contents) + rows) == opened(contents) + rows,
{
    reveal_strlit("\n");
    assert("\n"@.len() == 1);
}

proof fn category_has_no_comma(n_state: nat)
    ensures
        !block_category(n_state).contains(','),
{
    reveal_strlit("light");
    reveal_strlit("moderate");
    reveal_strlit("heavy");
    reveal_strlit("extreme");
}

proof fn file_has_no_comma(block: u64)
    ensures
        !fixture_file_text(block).contains(','),
{
    reveal_strlit("rpc_block_");
    reveal_strlit(".json");
    decimal_has_no_comma(block as nat);
    let numeral = decimal(block as nat);
    assert forall|i: int| 0 <= i < fixture_file_text(block).len() implies fixture_file_text(
        block,
    )[i] != ',' by {
        if 10 <= i < 10 + numeral.len() {
            assert(fixture_file_text(block)[i] == numeral[i - 10]);
        }
    }
}

proof fn columns_have_no_comma()
    ensures
        forall|i: int|
            0 <= i < metrics_columns().len() ==> !(#[trigger] metrics_columns()[i]).contains(','),
{
    reveal_strlit("block_number");
    reveal_strlit("timestamp");
    reveal_strlit("txn_count");
    reveal_strlit("gas_used");
    reveal_strlit("gas_limit");
    reveal_strlit("gas_utilization_pct");
    reveal_strlit("witness_time_sec");
    reveal_strlit("fixture_size_bytes");
    reveal_strlit("witness_state_nodes");
    reveal_strlit("witness_codes_count");
    reveal_strlit("witness_keys_count");
    reveal_strlit("witness_headers_count");
    reveal_strlit("category");
    reveal_strlit("fixture_file");
}

/// The category that stands in a row: light below 8000 state nodes, moderate from there to below
/// 12000, heavy from there to below 18000, and extreme from there on, whatever else was measured.
pub proof fn category_of_a_row_goes_by_state_nodes(metrics: BlockMetrics)
    ensures
        metrics_columns()[12] == "category"@,
        metrics.fields()[12] == "light"@ <==> metrics.n_state < 8_000,
        metrics.fields()[12] == "moderate"@ <==> 8_000 <= metrics.n_state < 12_000,
        metrics.fields()[12] == "heavy"@ <==> 12_000 <= metrics.n_state < 18_000,
        metrics.fields()[12] == "extreme"@ <==> 18_000 <= metrics.n_state,
{
    blocks_are_classified_by_state_nodes(metrics.n_state as nat);
}

/// Under each column of a row stands what the column is named for: the numeral of what was measured,
/// the category that the number of state nodes gives, and the name of the fixture file.
pub proof fn rows_hold_what_was_measured(metrics: BlockMetrics, row: String)
    requires
        call_ensures(BlockMetrics::row, (&metrics,), row),
    ensures
        row@ == joined(
            seq![
                decimal(metrics.block_number as nat),
                decimal(metrics.timestamp as nat),
                decimal(metrics.txn_count as nat),
                decimal(metrics.gas_used as nat),
                decimal(metrics.gas_limit as nat),
                metrics.gas_pct@,
                metrics.witness_time@,
                decimal(metrics.fixture_size as nat),
                decimal(metrics.n_state as nat),
                decimal(metrics.n_codes as nat),
                decimal(metrics.n_keys as nat),
                decimal(metrics.n_headers as nat),
                if metrics.n_state < 8_000 {
                    "light"@
                } else if metrics.n_state < 12_000 {
                    "moderate"@
                } else if metrics.n_state < 18_000 {
                    "heavy"@
                } else {
                    "extreme"@
                },
                "rpc_block_"@ + decimal(metrics.block_number as nat) + ".json"@,
            ],
        ),
{
    blocks_are_classified_by_state_nodes(metrics.n_state as nat);
}

/// The columns are headed by these names, in the order of the fields of a row.
pub proof fn columns_are_named(header: String)
    requires
        call_ensures(metrics_header, (), header),
    ensures
        header@ == joined(metrics_columns()),
        metrics_columns().len() == 14,
        metrics_columns()[0] == "block_number"@ && metrics_columns()[1] == "timestamp"@,
        metrics_columns()[2] == "txn_count"@ && metrics_columns()[3] == "gas_used"@,
        metrics_columns()[4] == "gas_limit"@ && metrics_columns()[5] == "gas_utilization_pct"@,
        metrics_columns()[6] == "witness_time_sec"@ && metrics_columns()[7]
            == "fixture_size_bytes"@,
        metrics_columns()[8] == "witness_state_nodes"@ && metrics_columns()[9]
            == "witness_codes_count"@,
        metrics_columns()[10] == "witness_keys_count"@ && metrics_columns()[11]
            == "witness_headers_count"@,
        metrics_columns()[12] == "category"@ && metrics_columns()[13] == "fixture_file"@,
{
}

/// A metrics file needs its heading line exactly if it cannot be examined or is empty. Opening an
/// empty one writes that line and its end, and opening any other changes nothing.
pub proof fn only_an_empty_file_is_headed(len: Option<u64>, needs: bool, contents: Seq<char>)
    requires
        call_ensures(needs_metrics_header, (len,), needs),
    ensures
        needs <==> len is None || len == Some(0u64),
        contents.len() == 0 ==> opened(contents) == joined(metrics_columns()) + "\n"@,
        contents.len() > 0 ==> opened(contents) == contents,
{
    if contents.len() == 0 {
        assert(contents + joined(metrics_columns()) =~= joined(metrics_columns()));
    }
}

/// A fixture is written exactly if fixtures are saved, to the file named after its block, and a row
/// exactly if metrics are kept: the row of what was measured.
pub proof fn output_is_what_is_to_be_kept(
    metrics: BlockMetrics,
    no_save: bool,
    keep_metrics: bool,
    output: BlockOutput,
    row: String,
)
    requires
        call_ensures(block_output, (&metrics, no_save, keep_metrics), output),
        call_ensures(BlockMetrics::row, (&metrics,), row),
    ensures
        output.file is Some <==> !no_save,
        output.file matches Some(file) ==> file@ == "rpc_block_"@ + decimal(
            metrics.block_number as nat,
        ) + ".json"@,
        output.row is Some <==> keep_metrics,
        output.row matches Some(text) ==> text@ == row@,
{
}

/// What is to be written is handed out once each: first the fixture, if there is one, with the row
/// still to come, then the row, and then nothing.
pub proof fn writes_come_in_order(output: &mut BlockOutput, write: Option<BlockWrite>)
    requires
        call_ensures(BlockOutput::next_write, (output,), write),
    ensures
        match old(output).file {
            Some(file) => {
                &&& write matches Some(BlockWrite::Fixture(f)) && f@ == file@
                &&& final(output).file is None
                &&& final(output).row is Some <==> old(output).row is Some
                &&& old(output).row matches Some(row) ==> final(output).row->Some_0@ == row@
            },
            None => match old(output).row {
                Some(row) => {
                    &&& write matches Some(BlockWrite::Row(r)) && r@ == row@
                    &&& final(output).file is None && final(output).row is None
                },
                None => write is None && final(output).file is None && final(output).row is None,
            },
        },
{
}

} // verus!
