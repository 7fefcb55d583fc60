//! When a loop over items reports how far it has come.

use vstd::prelude::*;

verus! {

/// Whether the loop reports after `done` of `total` items: after every `every` items, and at the
/// end.
pub open spec fn reports_after(done: nat, total: nat, every: nat) -> bool {
    done % every == 0 || done == total
}

/// Whether the loop reports after `done` of `total` items.
pub fn progress_due(done: usize, total: usize, every: usize) -> (due: bool)
    requires
        every > 0,
    ensures
        due == reports_after(done as nat, total as nat, every as nat),
{
    done % every == 0 || done == total
}

/// A loop reports after each multiple of `every` items, and at the end, and nowhere between two
/// multiples before the end.
pub proof fn reports_come_at_multiples(k: nat, done: nat, total: nat, every: nat)
    requires
        every > 0,
    ensures
        reports_after(k * every, total, every),
        reports_after(total, total, every),
        k * every < done < (k + 1) * every && done != total ==> !reports_after(done, total, every),
{
    vstd::arithmetic::div_mod::lemma_mod_multiples_basic(k as int, every as int);
    if k * every < done < (k + 1) * every {
        let rest = done - k * every;
        assert((k + 1) * every == k * every + every) by (nonlinear_arith);
        vstd::arithmetic::div_mod::lemma_fundamental_div_mod_converse(
            done as int,
            every as int,
            k as int,
            rest,
        );
    }
}

/// Whether a report is due after `done` items, `rest` beyond a multiple of `every`: exactly if there
/// is no rest or the end is reached.
pub proof fn reports_are_due_at_multiples(
    k: nat,
    rest: nat,
    done: usize,
    total: usize,
    every: usize,
    due: bool,
)
    requires
        every > 0,
        rest < every,
        done == k * every + rest,
        call_ensures(progress_due, (done, total, every), due),
    ensures
        due <==> rest == 0 || done == total,
{
    assert(k * every == every * k) by (nonlinear_arith);
    vstd::arithmetic::div_mod::lemma_fundamental_div_mod_converse(
        done as int,
        every as int,
        k as int,
        rest as int,
    );
}

} // verus!
