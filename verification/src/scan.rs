//! The scan for fixtures whose witness lacks the root node of the state trie.

use vstd::prelude::*;

use crate::bytes::{byte_strings, same_bytes};
use crate::outside::{decode_state_root, keccak256};
use crate::outside::{header_state_root, keccak256_digest};
use crate::progress::{progress_due, reports_after};
use crate::text::{comma_count, decimal, hex, joined, texts};
use crate::text::{
    commas_separate_fields, decimal_has_no_comma, decimal_is_injective, decimal_text,
    hex_has_no_comma, hex_is_injective, hex_text, join, joined_is_injective,
};

verus! {

/// What the scan finds out about a fixture.
#[derive(Clone, Copy, Debug, PartialEq, Eq)]
pub struct FixtureScan {
    pub block_number: u64,
    /// Whether one of the witness's state nodes is the root of the parent's state trie.
    pub has_root: bool,
    pub state_nodes: usize,
    pub parent_state_root: [u8; 32],
}

/// Why a fixture cannot be scanned.
#[derive(Clone, Copy, Debug)]
pub enum CheckError {
    /// Its witness holds no ancestor header.
    NoAncestorHeaders,
    /// Its first ancestor header cannot be decoded.
    DecodeHeader(alloy_rlp::Error),
}

/// Whether one of some trie nodes is the node with the hash `root`.
pub open spec fn has_root_node(nodes: Seq<Seq<u8>>, root: Seq<u8>) -> bool {
    exists|i: int| 0 <= i < nodes.len() && keccak256_digest(#[trigger] nodes[i]) == root
}

/// What the scan finds out about a fixture whose parent has the state root `root`.
pub fn scan_against_root(root: [u8; 32], state: &Vec<Vec<u8>>, block_number: u64) -> (scan:
    FixtureScan)
    ensures
        scan.block_number == block_number,
        scan.has_root == has_root_node(byte_strings(state@), root@),
        scan.state_nodes == state@.len(),
        scan.parent_state_root@ == root@,
{
    let ghost nodes = byte_strings(state@);
    let mut has_root: bool = false;
    let mut i: usize = 0;
    while i < state.len() && !has_root
        invariant
            i <= state.len(),
            nodes == byte_strings(state@),
            has_root == has_root_node(nodes.take(i as int), root@),
        decreases state.len() - i,
    {
        let digest = keccak256(state[i].as_slice());
        has_root = same_bytes(digest.as_slice(), root.as_slice());
        proof {
            assert(nodes.take(i + 1)[i as int] == state@[i as int]@);
            assert forall|j: int| 0 <= j < i implies nodes.take(i + 1)[j] == nodes.take(
                i as int,
            )[j] by {}
        }
        i = i + 1;
    }
    proof {
        if has_root {
            let j = choose|j: int|
                0 <= j < i && keccak256_digest(#[trigger] nodes.take(i as int)[j]) == root@;
            assert(keccak256_digest(nodes[j]) == root@);
        } else {
            assert(nodes.take(i as int) =~= nodes);
        }
    }
    FixtureScan { block_number, has_root, state_nodes: state.len(), parent_state_root: root }
}

/// Scans a fixture, given the ancestor headers and the state nodes of its witness and the number of
/// its block: decodes the first ancestor header, the parent's, and looks for the node with the hash
/// that is the state root there.
pub fn check_fixture(headers: &Vec<Vec<u8>>, state: &Vec<Vec<u8>>, block_number: u64) -> (result:
    Result<FixtureScan, CheckError>)
    ensures
        result matches Err(CheckError::NoAncestorHeaders) <==> headers@.len() == 0,
        result matches Err(CheckError::DecodeHeader(_)) <==> headers@.len() > 0
            && header_state_root(headers@[0]@) is None,
        result matches Ok(scan) ==> {
            let root = header_state_root(headers@[0]@)->Some_0;
            &&& scan.block_number == block_number
            &&& scan.has_root == has_root_node(byte_strings(state@), root)
            &&& scan.state_nodes == state@.len()
            &&& scan.parent_state_root@ == root
        },
{
    if headers.len() == 0 {
        return Err(CheckError::NoAncestorHeaders);
    }
    match decode_state_root(headers[0].as_slice()) {
        Ok(root) => Ok(scan_against_root(root, state, block_number)),
        Err(error) => Err(CheckError::DecodeHeader(error)),
    }
}

impl CheckError {
    /// What failed.
    pub fn context(&self) -> (context: &'static str)
        ensures
            context@ == match *self {
                CheckError::NoAncestorHeaders => "no ancestor headers"@,
                CheckError::DecodeHeader(_) => "decode header"@,
            },
    {
        match self {
            CheckError::NoAncestorHeaders => "no ancestor headers",
            CheckError::DecodeHeader(_) => "decode header",
        }
    }
}

/// The names of the columns.
pub open spec fn scan_columns() -> Seq<Seq<char>> {
    seq![
        "filename"@,
        "block_number"@,
        "has_root"@,
        "state_nodes"@,
        "parent_state_root"@,
    ]
}

/// The line that heads the scan's file.
pub fn scan_header() -> (line: String)
    ensures
        line@ == joined(scan_columns()),
{
    let mut fields: Vec<String> = Vec::new();
    fields.push("filename".to_owned());
    fields.push("block_number".to_owned());
    fields.push("has_root".to_owned());
    fields.push("state_nodes".to_owned());
    fields.push("parent_state_root".to_owned());
    assert(texts(fields@) =~= scan_columns());
    join(&fields)
}

impl FixtureScan {
    /// The fields of the row of a fixture file.
    pub open spec fn fields(self, file_name: Seq<char>) -> Seq<Seq<char>> {
        seq![
            file_name,
            decimal(self.block_number as nat),
            if self.has_root {
                "true"@
            } else {
                "false"@
            },
            decimal(self.state_nodes as nat),
            hex(self.parent_state_root@),
        ]
    }

    /// The row of a fixture file.
    pub fn row(&self, file_name: &str) -> (row: String)
        ensures
            row@ == joined(self.fields(file_name@)),
    {
        let mut fields: Vec<String> = Vec::new();
        fields.push(file_name.to_owned());
        fields.push(decimal_text(self.block_number));
        fields.push(
            (if self.has_root {
                "true"
            } else {
                "false"
            }).to_owned(),
        );
        fields.push(decimal_text(self.state_nodes as u64));
        fields.push(hex_text(self.parent_state_root.as_slice()));
        assert(texts(fields@) =~= self.fields(file_name@));
        join(&fields)
    }
}

/// How far a scan has come, and what it found.
#[verifier::ext_equal]
pub struct ScanView {
    /// How many files there are.
    pub total: nat,
    /// How many of them are done.
    pub position: nat,
    /// How many fixtures hold the root node.
    pub ok: nat,
    /// How many lack it.
    pub missing: nat,
    /// How many could not be scanned.
    pub errors: nat,
}

impl ScanView {
    /// Every file that is done is counted once.
    pub open spec fn wf(self) -> bool {
        &&& self.position <= self.total <= usize::MAX
        &&& self.ok + self.missing + self.errors == self.position
    }

    /// The scan after one more file, given whether its fixture holds the root node, or nothing
    /// where it could not be scanned.
    pub open spec fn step(self, has_root: Option<bool>) -> ScanView {
        match has_root {
            Some(true) => ScanView { position: self.position + 1, ok: self.ok + 1, ..self },
            Some(false) => ScanView {
                position: self.position + 1,
                missing: self.missing + 1,
                ..self
            },
            None => ScanView { position: self.position + 1, errors: self.errors + 1, ..self },
        }
    }

    /// The scan after some more files.
    pub open spec fn after(self, found: Seq<Option<bool>>) -> ScanView
        decreases found.len(),
    {
        if found.len() == 0 {
            self
        } else {
            self.after(found.drop_last()).step(found.last())
        }
    }

    /// A scan that has done no file yet.
    pub open spec fn start(total: nat) -> ScanView {
        ScanView { total, position: 0, ok: 0, missing: 0, errors: 0 }
    }
}

/// The report of how far a scan has come.
#[derive(Clone, Copy, Debug, PartialEq, Eq, Structural)]
pub struct ScanReport {
    pub position: usize,
    pub total: usize,
    pub ok: usize,
    pub missing: usize,
    pub errors: usize,
}

impl ScanReport {
    /// Whether this is the report of a scan.
    pub open spec fn shows(self, scan: ScanView) -> bool {
        &&& self.position == scan.position
        &&& self.total == scan.total
        &&& self.ok == scan.ok
        &&& self.missing == scan.missing
        &&& self.errors == scan.errors
    }
}

/// A scan over a number of files.
pub struct ScanRun {
    total: usize,
    position: usize,
    ok: usize,
    missing: usize,
    errors: usize,
}

impl View for ScanRun {
    type V = ScanView;

    closed spec fn view(&self) -> ScanView {
        ScanView {
            total: self.total as nat,
            position: self.position as nat,
            ok: self.ok as nat,
            missing: self.missing as nat,
            errors: self.errors as nat,
        }
    }
}

impl ScanRun {
    /// A scan over `total` files that has done none of them yet.
    pub fn new(total: usize) -> (scan: ScanRun)
        ensures
            scan@ == ScanView::start(total as nat),
            scan@.wf(),
    {
        ScanRun { total, position: 0, ok: 0, missing: 0, errors: 0 }
    }

    /// Records the next file: whether its fixture holds the root node, or nothing where it could not
    /// be scanned. A report is due after every hundred files and at the end.
    pub fn record(&mut self, has_root: Option<bool>) -> (report: Option<ScanReport>)
        requires
            old(self)@.wf(),
            old(self)@.position < old(self)@.total,
        ensures
            final(self)@.wf(),
            final(self)@ == old(self)@.step(has_root),
            report is Some <==> reports_after(final(self)@.position, final(self)@.total, 100),
            report matches Some(report) ==> report.shows(final(self)@),
    {
        self.position = self.position + 1;
        match has_root {
            Some(found) => if found {
                self.ok = self.ok + 1;
            } else {
                self.missing = self.missing + 1;
            },
            None => {
                self.errors = self.errors + 1;
            },
        }
        if progress_due(self.position, self.total, 100) {
            Some(self.report())
        } else {
            None
        }
    }

    /// How far the scan has come.
    pub fn report(&self) -> (report: ScanReport)
        ensures
            report.shows(self@),
    {
        ScanReport {
            position: self.position,
            total: self.total,
            ok: self.ok,
            missing: self.missing,
            errors: self.errors,
        }
    }
}

/// How many of some findings are `finding`.
pub open spec fn finding_count(found: Seq<Option<bool>>, finding: Option<bool>) -> nat
    decreases found.len(),
{
    if found.len() == 0 {
        0
    } else {
        finding_count(found.drop_last(), finding) + if found.last() == finding {
            1nat
        } else {
            0nat
        }
    }
}

/// The counts of a scan are those of its findings, whatever they were, and add up to the number of
/// files that are done.
pub proof fn counts_are_of_the_findings(total: nat, found: Seq<Option<bool>>)
    ensures
        ({
            let scan = ScanView::start(total).after(found);
            &&& scan.total == total
            &&& scan.position == found.len()
            &&& scan.ok == finding_count(found, Some(true))
            &&& scan.missing == finding_count(found, Some(false))
            &&& scan.errors == finding_count(found, None)
            &&& scan.ok + scan.missing + scan.errors == found.len()
        }),
    decreases found.len(),
{
    if found.len() > 0 {
        counts_are_of_the_findings(total, found.drop_last());
    }
}

/// A witness with one node more holds the root node exactly if it did so before or that node's hash
/// is the state root: to add the missing root mends a fixture, to add anything else changes nothing.
pub proof fn only_the_root_node_mends(nodes: Seq<Seq<u8>>, node: Seq<u8>, root: Seq<u8>)
    ensures
        has_root_node(nodes.push(node), root) <==> has_root_node(nodes, root)
            || keccak256_digest(node) == root,
{
    let more = nodes.push(node);
    if has_root_node(nodes, root) {
        let i = choose|i: int|
            0 <= i < nodes.len() && keccak256_digest(#[trigger] nodes[i]) == root;
        assert(more[i] == nodes[i]);
    }
    assert(more[nodes.len() as int] == node);
    if has_root_node(more, root) && keccak256_digest(node) != root {
        let i = choose|i: int| 0 <= i < more.len() && keccak256_digest(#[trigger] more[i]) == root;
        assert(nodes[i] == more[i]);
    }
}

/// Rows can be read back: two fixture files, whose names hold no comma, have the same row only if
/// they have the same name and the scan found the same in both.
pub proof fn scan_rows_can_be_read_back(
    a: FixtureScan,
    a_name: Seq<char>,
    b: FixtureScan,
    b_name: Seq<char>,
)
    requires
        !a_name.contains(','),
        !b_name.contains(','),
        joined(a.fields(a_name)) == joined(b.fields(b_name)),
    ensures
        a_name == b_name,
        a.block_number == b.block_number,
        a.has_root == b.has_root,
        a.state_nodes == b.state_nodes,
        a.parent_state_root@ == b.parent_state_root@,
{
    let x = a.fields(a_name);
    let y = b.fields(b_name);
    scan_fields_have_no_comma(a, a_name);
    scan_fields_have_no_comma(b, b_name);
    joined_is_injective(x, y);
    assert(x[0] == a_name && y[0] == b_name);
    decimal_is_injective(a.block_number as nat, b.block_number as nat);
    reveal_strlit("true");
    reveal_strlit("false");
    assert(x[2] == y[2]);
    decimal_is_injective(a.state_nodes as nat, b.state_nodes as nat);
    hex_is_injective(a.parent_state_root@, b.parent_state_root@);
}

proof fn scan_fields_have_no_comma(scan: FixtureScan, file_name: Seq<char>)
    requires
        !file_name.contains(','),
    ensures
        forall|i: int|
            0 <= i < scan.fields(file_name).len() ==> !(#[trigger] scan.fields(
                file_name,
            )[i]).contains(','),
{
    reveal_strlit("true");
    reveal_strlit("false");
    decimal_has_no_comma(scan.block_number as nat);
    decimal_has_no_comma(scan.state_nodes as nat);
    hex_has_no_comma(scan.parent_state_root@);
}

/// The heading line and the row of every fixture file have the same number of fields, and as a text
/// each holds one comma between every two of them, provided that the file's name holds none.
pub proof fn scan_rows_fit_the_header(scan: FixtureScan, file_name: Seq<char>)
    requires
        !file_name.contains(','),
    ensures
        scan.fields(file_name).len() == scan_columns().len(),
        comma_count(joined(scan.fields(file_name))) == comma_count(joined(scan_columns())),
        comma_count(joined(scan_columns())) == scan_columns().len() - 1,
{
    let fields = scan.fields(file_name);
    scan_fields_have_no_comma(scan, file_name);
    commas_separate_fields(fields);
    reveal_strlit("filename");
    reveal_strlit("block_number");
    reveal_strlit("has_root");
    reveal_strlit("state_nodes");
    reveal_strlit("parent_state_root");
    let columns = scan_columns();
    assert forall|i: int| 0 <= i < columns.len() implies !(#[trigger] columns[i]).contains(',') by {}
    commas_separate_fields(columns);
}

/// No node is the root node where there are no nodes.
pub proof fn nothing_holds_no_root(root: Seq<u8>)
    ensures
        !has_root_node(Seq::empty(), root),
{
}

/// A fixture is found to hold the root node exactly if the hash of one of its state nodes is the
/// state root, whatever the others are.
pub proof fn the_root_is_found_where_it_is(
    root: [u8; 32],
    state: &Vec<Vec<u8>>,
    block_number: u64,
    scan: FixtureScan,
)
    requires
        call_ensures(scan_against_root, (root, state, block_number), scan),
    ensures
        scan.block_number == block_number,
        scan.state_nodes == state@.len(),
        scan.parent_state_root@ == root@,
        scan.has_root <==> exists|i: int|
            0 <= i < state@.len() && keccak256_digest((#[trigger] state@[i])@) == root@,
{
    let nodes = byte_strings(state@);
    if scan.has_root {
        let i = choose|i: int|
            0 <= i < nodes.len() && keccak256_digest(#[trigger] nodes[i]) == root@;
        assert(nodes[i] == state@[i]@);
    }
    if exists|i: int| 0 <= i < state@.len() && keccak256_digest((#[trigger] state@[i])@) == root@ {
        let i = choose|i: int|
            0 <= i < state@.len() && keccak256_digest((#[trigger] state@[i])@) == root@;
        assert(nodes[i] == state@[i]@);
    }
}

/// A fixture is scanned exactly if its witness has an ancestor header and the first one can be
/// decoded, and then against the state root in that header: the root node is found exactly if the
/// hash of one of the state nodes is that root.
pub proof fn fixtures_are_scanned_against_the_parent(
    headers: &Vec<Vec<u8>>,
    state: &Vec<Vec<u8>>,
    block_number: u64,
    result: Result<FixtureScan, CheckError>,
)
    requires
        call_ensures(check_fixture, (headers, state, block_number), result),
    ensures
        if headers@.len() == 0 {
            result matches Err(CheckError::NoAncestorHeaders)
        } else {
            match header_state_root(headers@[0]@) {
                None => result matches Err(CheckError::DecodeHeader(_)),
                Some(root) => result matches Ok(scan) && scan.block_number == block_number
                    && scan.state_nodes == state@.len() && scan.parent_state_root@ == root && (
                scan.has_root <==> exists|i: int|
                    0 <= i < state@.len() && keccak256_digest((#[trigger] state@[i])@) == root),
            }
        },
{
    let nodes = byte_strings(state@);
    if let Ok(scan) = result {
        let root = header_state_root(headers@[0]@)->Some_0;
        if scan.has_root {
            let i = choose|i: int|
                0 <= i < nodes.len() && keccak256_digest(#[trigger] nodes[i]) == root;
            assert(nodes[i] == state@[i]@);
        }
        if exists|i: int| 0 <= i < state@.len() && keccak256_digest((#[trigger] state@[i])@) == root {
            let i = choose|i: int|
                0 <= i < state@.len() && keccak256_digest((#[trigger] state@[i])@) == root;
            assert(nodes[i] == state@[i]@);
        }
    }
}

/// The finding that stands in a row under `has_root` is `true` if the root node was found and `false`
/// if it was not, whatever else the row says.
pub proof fn rows_tell_the_finding(scan: FixtureScan, file_name: Seq<char>)
    ensures
        scan_columns()[2] == "has_root"@,
        scan.fields(file_name)[2] == "true"@ <==> scan.has_root,
        scan.fields(file_name)[2] == "false"@ <==> !scan.has_root,
{
    reveal_strlit("true");
    reveal_strlit("false");
    assert("true"@.len() == 4 && "false"@.len() == 5);
}

/// Under each column of a row stands what the column is named for: the file's name, the block's
/// number, whether the root node was found, how many state nodes there are, and the state root.
pub proof fn rows_hold_what_was_found(scan: FixtureScan, file_name: &str, row: String)
    requires
        call_ensures(FixtureScan::row, (&scan, file_name), row),
    ensures
        row@ == joined(
            seq![
                file_name@,
                decimal(scan.block_number as nat),
                if scan.has_root {
                    "true"@
                } else {
                    "false"@
                },
                decimal(scan.state_nodes as nat),
                hex(scan.parent_state_root@),
            ],
        ),
{
}

/// The columns are headed by these names, in the order of the fields of a row.
pub proof fn scan_columns_are_named(header: String)
    requires
        call_ensures(scan_header, (), header),
    ensures
        header@ == joined(scan_columns()),
        scan_columns().len() == 5,
        scan_columns()[0] == "filename"@ && scan_columns()[1] == "block_number"@,
        scan_columns()[2] == "has_root"@ && scan_columns()[3] == "state_nodes"@,
        scan_columns()[4] == "parent_state_root"@,
{
}

/// A new scan has done nothing. Each file that is recorded is counted once: as valid if the root node
/// was found, as missing it if it was not, as an error if it could not be scanned. A report comes
/// after every hundred files and at the end, and it gives the counts.
pub proof fn findings_are_counted_as_they_are(
    total: usize,
    new: ScanRun,
    scan: &mut ScanRun,
    found: Option<bool>,
    report: Option<ScanReport>,
)
    requires
        call_ensures(ScanRun::new, (total,), new),
        call_ensures(ScanRun::record, (scan, found), report),
    ensures
        new@.total == total && new@.position == 0,
        new@.ok == 0 && new@.missing == 0 && new@.errors == 0,
        ({
            let before = old(scan)@;
            let after = final(scan)@;
            &&& after.total == before.total
            &&& after.position == before.position + 1
            &&& after.ok == before.ok + if found == Some(true) {
                1int
            } else {
                0int
            }
            &&& after.missing == before.missing + if found == Some(false) {
                1int
            } else {
                0int
            }
            &&& after.errors == before.errors + if found is None {
                1int
            } else {
                0int
            }
            &&& report is Some <==> after.position % 100 == 0 || after.position == after.total
            &&& report matches Some(r) ==> r.position == after.position && r.total == after.total
                && r.ok == after.ok && r.missing == after.missing && r.errors == after.errors
        }),
{
}

/// The report of a scan gives its counts.
pub proof fn scans_report_their_counts(scan: ScanRun, report: ScanReport)
    requires
        call_ensures(ScanRun::report, (&scan,), report),
    ensures
        report.position == scan@.position && report.total == scan@.total,
        report.ok == scan@.ok && report.missing == scan@.missing && report.errors == scan@.errors,
{
}

/// What failed is said in words.
pub proof fn check_errors_are_said_in_words(error: CheckError, context: &'static str)
    requires
        call_ensures(CheckError::context, (&error,), context),
    ensures
        error is NoAncestorHeaders ==> context@ == "no ancestor headers"@,
        error is DecodeHeader ==> context@ == "decode header"@,
{
}

} // verus!
