//! The two complexity scales: one for loaded fixtures, one for blocks fetched over RPC.

use vstd::prelude::*;

verus! {

/// The step of a fixture on the fixture scale, from 0, the lightest, to 3.
pub open spec fn fixture_rank(raw_size: nat, n_state: nat, n_txs: nat) -> nat {
    if n_state <= 20 && n_txs <= 2 && raw_size < 100_000 {
        0
    } else if n_state <= 200 && n_txs <= 50 {
        1
    } else if n_state <= 2000 {
        2
    } else {
        3
    }
}

/// The name of a step of the fixture scale.
pub open spec fn fixture_rank_name(rank: nat) -> Seq<char> {
    if rank == 0 {
        "lightweight"@
    } else if rank == 1 {
        "moderate"@
    } else if rank == 2 {
        "heavy"@
    } else {
        "worst_case"@
    }
}

/// The category of a fixture.
pub open spec fn fixture_category(raw_size: nat, n_state: nat, n_txs: nat) -> Seq<char> {
    fixture_rank_name(fixture_rank(raw_size, n_state, n_txs))
}

/// The step of a block on the block scale, from 0, the lightest, to 3.
pub open spec fn block_rank(n_state: nat) -> nat {
    if n_state < 8_000 {
        0
    } else if n_state < 12_000 {
        1
    } else if n_state < 18_000 {
        2
    } else {
        3
    }
}

/// The name of a step of the block scale.
pub open spec fn block_rank_name(rank: nat) -> Seq<char> {
    if rank == 0 {
        "light"@
    } else if rank == 1 {
        "moderate"@
    } else if rank == 2 {
        "heavy"@
    } else {
        "extreme"@
    }
}

/// The category of a block.
pub open spec fn block_category(n_state: nat) -> Seq<char> {
    block_rank_name(block_rank(n_state))
}

/// Classifies a fixture as lightweight, moderate, heavy or worst-case, by the size of its file, the
/// number of state trie nodes in its witness and the number of its block's transactions.
pub fn classify_fixture(raw_size: usize, n_state: usize, n_txs: usize) -> (category: &'static str)
    ensures
        category@ == fixture_category(raw_size as nat, n_state as nat, n_txs as nat),
{
    if n_state <= 20 && n_txs <= 2 && raw_size < 100_000 {
        "lightweight"
    } else if n_state <= 200 && n_txs <= 50 {
        "moderate"
    } else if n_state <= 2000 {
        "heavy"
    } else {
        "worst_case"
    }
}

/// Classifies a block by the number of state trie nodes in its witness. The boundaries are derived
/// from observed mainnet percentiles and are useful for grouping benchmarks downstream.
pub fn classify(n_state: usize) -> (category: &'static str)
    ensures
        category@ == block_category(n_state as nat),
{
    if n_state < 8_000 {
        "light"
    } else if n_state < 12_000 {
        "moderate"
    } else if n_state < 18_000 {
        "heavy"
    } else {
        "extreme"
    }
}

/// The fixture scale is monotone: a fixture that exceeds another in no measure stands no higher.
pub proof fn fixture_scale_is_monotone(
    raw_size: nat,
    n_state: nat,
    n_txs: nat,
    larger_raw_size: nat,
    larger_n_state: nat,
    larger_n_txs: nat,
)
    requires
        raw_size <= larger_raw_size,
        n_state <= larger_n_state,
        n_txs <= larger_n_txs,
    ensures
        fixture_rank(raw_size, n_state, n_txs) <= fixture_rank(
            larger_raw_size,
            larger_n_state,
            larger_n_txs,
        ),
{
}

/// The block scale is monotone: a block with no more state nodes than another stands no higher.
pub proof fn block_scale_is_monotone(n_state: nat, larger_n_state: nat)
    requires
        n_state <= larger_n_state,
    ensures
        block_rank(n_state) <= block_rank(larger_n_state),
{
}

/// On each scale, two steps have the same name only if they are the same step.
pub proof fn category_names_are_distinct(a: nat, b: nat)
    requires
        a <= 3,
        b <= 3,
    ensures
        fixture_rank_name(a) == fixture_rank_name(b) <==> a == b,
        block_rank_name(a) == block_rank_name(b) <==> a == b,
{
    reveal_strlit("lightweight");
    reveal_strlit("moderate");
    reveal_strlit("heavy");
    reveal_strlit("worst_case");
    reveal_strlit("light");
    reveal_strlit("extreme");
    assert("lightweight"@[0] == 'l' && "moderate"@[0] == 'm' && "heavy"@[0] == 'h');
    assert("worst_case"@[0] == 'w' && "light"@[0] == 'l' && "extreme"@[0] == 'e');
}

proof fn block_names_differ()
    ensures
        "light"@ != "moderate"@ && "light"@ != "heavy"@ && "light"@ != "extreme"@,
        "moderate"@ != "heavy"@ && "moderate"@ != "extreme"@ && "heavy"@ != "extreme"@,
{
    category_names_are_distinct(0, 1);
    category_names_are_distinct(0, 2);
    category_names_are_distinct(0, 3);
    category_names_are_distinct(1, 2);
    category_names_are_distinct(1, 3);
    category_names_are_distinct(2, 3);
}

/// A block is light exactly below 8000 state nodes, moderate from there to below 12000, heavy from
/// there to below 18000, and extreme from there on.
pub proof fn blocks_are_classified_by_state_nodes(n_state: nat)
    ensures
        block_category(n_state) == "light"@ <==> n_state < 8_000,
        block_category(n_state) == "moderate"@ <==> 8_000 <= n_state < 12_000,
        block_category(n_state) == "heavy"@ <==> 12_000 <= n_state < 18_000,
        block_category(n_state) == "extreme"@ <==> 18_000 <= n_state,
{
    block_names_differ();
}

/// The category that is given for a block is light exactly below 8000 state nodes, moderate from
/// there to below 12000, heavy from there to below 18000, and extreme from there on.
pub proof fn given_block_categories(n_state: usize, category: &'static str)
    requires
        call_ensures(classify, (n_state,), category),
    ensures
        category@ == "light"@ <==> n_state < 8_000,
        category@ == "moderate"@ <==> 8_000 <= n_state < 12_000,
        category@ == "heavy"@ <==> 12_000 <= n_state < 18_000,
        category@ == "extreme"@ <==> 18_000 <= n_state,
{
    block_names_differ();
}

proof fn fixture_names_differ()
    ensures
        "lightweight"@ != "moderate"@ && "lightweight"@ != "heavy"@ && "lightweight"@
            != "worst_case"@,
        "moderate"@ != "heavy"@ && "moderate"@ != "worst_case"@ && "heavy"@ != "worst_case"@,
{
    category_names_are_distinct(0, 1);
    category_names_are_distinct(0, 2);
    category_names_are_distinct(0, 3);
    category_names_are_distinct(1, 2);
    category_names_are_distinct(1, 3);
    category_names_are_distinct(2, 3);
}

/// A fixture is lightweight exactly if it has at most 20 state nodes, at most 2 transactions and less
/// than 100000 bytes. It is a worst case exactly if it has more than 2000 state nodes. Any other is
/// moderate if it has at most 200 state nodes and at most 50 transactions, and else heavy.
pub proof fn fixtures_are_classified_by_their_measures(raw_size: nat, n_state: nat, n_txs: nat)
    ensures
        ({
            let category = fixture_category(raw_size, n_state, n_txs);
            let light = n_state <= 20 && n_txs <= 2 && raw_size < 100_000;
            let small = n_state <= 200 && n_txs <= 50;
            &&& category == "lightweight"@ <==> light
            &&& category == "worst_case"@ <==> n_state > 2_000
            &&& category == "moderate"@ <==> small && !light
            &&& category == "heavy"@ <==> n_state <= 2_000 && !small
        }),
{
    fixture_names_differ();
}

/// The category that is given for a fixture is lightweight exactly if it has at most 20 state nodes,
/// at most 2 transactions and less than 100000 bytes, and worst_case exactly if it has more than 2000
/// state nodes. Any other is moderate if it has at most 200 state nodes and at most 50 transactions,
/// and else heavy.
pub proof fn given_fixture_categories(
    raw_size: usize,
    n_state: usize,
    n_txs: usize,
    category: &'static str,
)
    requires
        call_ensures(classify_fixture, (raw_size, n_state, n_txs), category),
    ensures
        ({
            let light = n_state <= 20 && n_txs <= 2 && raw_size < 100_000;
            let small = n_state <= 200 && n_txs <= 50;
            &&& category@ == "lightweight"@ <==> light
            &&& category@ == "worst_case"@ <==> n_state > 2_000
            &&& category@ == "moderate"@ <==> small && !light
            &&& category@ == "heavy"@ <==> n_state <= 2_000 && !small
        }),
{
    fixture_names_differ();
}

} // verus!
