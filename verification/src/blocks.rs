//! Which blocks a run works through, and the names of their fixtures.

use vstd::prelude::*;

use crate::text::{decimal, push_decimal};

verus! {

/// The name of the fixture of a block.
pub open spec fn fixture_name_text(block: u64) -> Seq<char> {
    "rpc_block_"@ + decimal(block as nat)
}

/// The name of the file that holds the fixture of a block.
pub open spec fn fixture_file_text(block: u64) -> Seq<char> {
    fixture_name_text(block) + ".json"@
}

/// The name of the fixture of a block.
pub fn fixture_name(block: u64) -> (name: String)
    ensures
        name@ == fixture_name_text(block),
{
    let mut name = "rpc_block_".to_owned();
    push_decimal(&mut name, block);
    name
}

/// The name of the file that holds the fixture of a block.
pub fn fixture_file(block: u64) -> (file: String)
    ensures
        file@ == fixture_file_text(block),
{
    let mut file = fixture_name(block);
    file.append(".json");
    file
}

/// A number of blocks was asked for, and it was 0.
#[derive(Clone, Copy, Debug, PartialEq, Eq, Structural)]
pub struct ZeroBlocks;

/// The `count` blocks up to `latest`, from the latest down; all blocks there are, if `count` is
/// more.
pub open spec fn latest_blocks(latest: u64, count: nat) -> Seq<u64> {
    Seq::new(
        if count <= latest {
            count
        } else {
            (latest + 1) as nat
        },
        |i: int| (latest - i) as u64,
    )
}

/// The blocks of a run: the last `last_n_blocks`, or the one asked for, or the latest.
pub open spec fn blocks_asked_for(
    latest: u64,
    last_n_blocks: Option<usize>,
    block: Option<u64>,
) -> Result<Seq<u64>, ZeroBlocks> {
    match (last_n_blocks, block) {
        (Some(n), _) => if n == 0 {
            Err(ZeroBlocks)
        } else {
            Ok(latest_blocks(latest, n as nat))
        },
        (None, Some(b)) => Ok(seq![b]),
        (None, None) => Ok(seq![latest]),
    }
}

/// The blocks to process, in order, when the chain's latest block is `latest`.
pub fn blocks_to_process(latest: u64, last_n_blocks: Option<usize>, block: Option<u64>) -> (result:
    Result<Vec<u64>, ZeroBlocks>)
    ensures
        match blocks_asked_for(latest, last_n_blocks, block) {
            Ok(blocks) => result matches Ok(found) && found@ == blocks,
            Err(error) => result == Err::<Vec<u64>, ZeroBlocks>(error),
        },
{
    if let Some(n) = last_n_blocks {
        if n == 0 {
            return Err(ZeroBlocks);
        }
        let more: u64 = n as u64 - 1;
        let start: u64 = latest.saturating_sub(more);
        let mut blocks: Vec<u64> = Vec::new();
        let mut next: u64 = latest;
        blocks.push(next);
        while next > start
            invariant
                start <= next <= latest,
                start == (if latest >= more {
                    latest - more
                } else {
                    0
                }),
                more == n - 1,
                blocks@.len() == latest - next + 1,
                forall|i: int| 0 <= i < blocks@.len() ==> blocks@[i] == latest - i,
            decreases next,
        {
            next = next - 1;
            blocks.push(next);
        }
        assert(blocks@ =~= latest_blocks(latest, n as nat));
        Ok(blocks)
    } else if let Some(b) = block {
        let mut blocks: Vec<u64> = Vec::new();
        blocks.push(b);
        Ok(blocks)
    } else {
        let mut blocks: Vec<u64> = Vec::new();
        blocks.push(latest);
        Ok(blocks)
    }
}

impl ZeroBlocks {
    /// The message that refuses `--last-n-blocks 0`.
    pub fn message(self) -> (message: &'static str)
        ensures
            message@ == "--last-n-blocks must be greater than 0"@,
    {
        "--last-n-blocks must be greater than 0"
    }
}

/// The blocks of a run are never none, follow one another downwards, each one below the one before,
/// and unless one block was asked for they begin with the latest.
pub proof fn blocks_descend(
    latest: u64,
    last_n_blocks: Option<usize>,
    block: Option<u64>,
    blocks: Seq<u64>,
)
    requires
        blocks_asked_for(latest, last_n_blocks, block) == Ok::<Seq<u64>, ZeroBlocks>(blocks),
    ensures
        blocks.len() > 0,
        forall|i: int, j: int|
            0 <= i < blocks.len() && 0 <= j < blocks.len() ==> #[trigger] blocks[i] + i
                == #[trigger] blocks[j] + j,
        last_n_blocks is Some || block is None ==> blocks[0] == latest,
{
}

/// Two blocks never have the same fixture file.
pub proof fn fixture_files_are_distinct(a: u64, b: u64)
    requires
        fixture_file_text(a) == fixture_file_text(b),
    ensures
        a == b,
{
    let x = decimal(a as nat);
    let y = decimal(b as nat);
    let p = "rpc_block_"@;
    let s = ".json"@;
    assert(fixture_file_text(a).len() == p.len() + x.len() + s.len());
    assert(fixture_file_text(b).len() == p.len() + y.len() + s.len());
    assert forall|i: int| 0 <= i < x.len() implies x[i] == y[i] by {
        assert(x[i] == fixture_file_text(a)[p.len() + i]);
        assert(y[i] == fixture_file_text(b)[p.len() + i]);
    }
    assert(x =~= y);
    crate::text::decimal_is_injective(a as nat, b as nat);
}

/// The blocks of a run over a number of blocks, which is not 0, are exactly those that are not above
/// the latest and less than that number below it, each once and from the latest down; so there are as
/// many as were asked for, or as many as there are. A run over none is refused.
pub proof fn last_blocks_are_those_near_the_latest(
    latest: u64,
    n: usize,
    block: Option<u64>,
    result: Result<Vec<u64>, ZeroBlocks>,
)
    requires
        call_ensures(blocks_to_process, (latest, Some(n), block), result),
    ensures
        n == 0 <==> result is Err,
        result matches Ok(blocks) ==> {
            &&& blocks@.len() == if n <= latest {
                n as int
            } else {
                latest + 1
            }
            &&& forall|b: u64| #[trigger]
                blocks@.contains(b) <==> b <= latest && latest - b < n
            &&& forall|i: int| 0 <= i < blocks@.len() ==> #[trigger] blocks@[i] == latest - i
        },
{
    if let Ok(blocks) = result {
        assert forall|b: u64| #[trigger] blocks@.contains(b) <==> b <= latest && latest - b < n by {
            if b <= latest && latest - b < n {
                assert(blocks@[latest - b] == b);
            }
        }
    }
}

/// Where no number of blocks is given, a run is over the one block that is asked for, or else over the
/// latest.
pub proof fn one_block_is_the_one_asked_for(
    latest: u64,
    block: Option<u64>,
    result: Result<Vec<u64>, ZeroBlocks>,
)
    requires
        call_ensures(blocks_to_process, (latest, None::<usize>, block), result),
    ensures
        result is Ok,
        result->Ok_0@.len() == 1,
        block matches Some(b) ==> result->Ok_0@[0] == b,
        block is None ==> result->Ok_0@[0] == latest,
{
}

/// What is asked for is what the runs are over.
pub proof fn runs_are_over_what_is_asked_for(
    latest: u64,
    last_n_blocks: Option<usize>,
    block: Option<u64>,
)
    ensures
        match blocks_asked_for(latest, last_n_blocks, block) {
            Err(_) => last_n_blocks == Some(0usize),
            Ok(blocks) => match last_n_blocks {
                Some(n) => n > 0 && forall|b: u64| #[trigger]
                    blocks.contains(b) <==> b <= latest && latest - b < n,
                None => blocks.len() == 1 && blocks[0] == (match block {
                    Some(b) => b,
                    None => latest,
                }),
            },
        },
{
    if let (Some(n), Ok(blocks)) = (last_n_blocks, blocks_asked_for(latest, last_n_blocks, block)) {
        assert forall|b: u64| #[trigger] blocks.contains(b) <==> b <= latest && latest - b < n by {
            if b <= latest && latest - b < n {
                assert(blocks[latest - b] == b);
            }
        }
    }
}

/// The fixture of a block is named `rpc_block_` and the block's number, and its file is named so with
/// `.json` behind it.
pub proof fn fixtures_are_named_after_their_blocks(block: u64, name: String, file: String)
    requires
        call_ensures(fixture_name, (block,), name),
        call_ensures(fixture_file, (block,), file),
    ensures
        name@ == "rpc_block_"@ + decimal(block as nat),
        file@ == "rpc_block_"@ + decimal(block as nat) + ".json"@,
        fixture_file_text(block) == "rpc_block_"@ + decimal(block as nat) + ".json"@,
{
}

/// A run over no blocks is refused with a message that says what must be given.
pub proof fn no_blocks_are_refused_in_words(error: ZeroBlocks, message: &'static str)
    requires
        call_ensures(ZeroBlocks::message, (error,), message),
    ensures
        message@ == "--last-n-blocks must be greater than 0"@,
{
}

} // verus!
