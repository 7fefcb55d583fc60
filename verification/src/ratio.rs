//! Ratios whose value stays defined where there is nothing to divide by.

use vstd::prelude::*;

verus! {

/// A ratio with a denominator other than 0.
#[derive(Clone, Copy, Debug, PartialEq, Eq, Structural)]
pub struct Ratio {
    pub numerator: u128,
    pub denominator: u128,
}

impl Ratio {
    /// The ratio of two numbers, and 0 to 1 where the second is 0.
    pub open spec fn of_parts(part: nat, whole: nat) -> (nat, nat) {
        if whole == 0 {
            (0, 1)
        } else {
            (part, whole)
        }
    }

    /// The ratio of `part` to `whole`, and 0 where `whole` is 0.
    pub fn of(part: u128, whole: u128) -> (ratio: Ratio)
        ensures
            (ratio.numerator as nat, ratio.denominator as nat) == Self::of_parts(
                part as nat,
                whole as nat,
            ),
            ratio.denominator > 0,
    {
        if whole == 0 {
            Ratio { numerator: 0, denominator: 1 }
        } else {
            Ratio { numerator: part, denominator: whole }
        }
    }
}

/// The ratio of two numbers has them as its parts, unless the second is 0: then it is 0 to 1.
pub proof fn ratios_have_their_parts(part: u128, whole: u128, ratio: Ratio)
    requires
        call_ensures(Ratio::of, (part, whole), ratio),
    ensures
        whole > 0 ==> ratio.numerator == part && ratio.denominator == whole,
        whole == 0 ==> ratio.numerator == 0 && ratio.denominator == 1,
{
}

} // verus!
