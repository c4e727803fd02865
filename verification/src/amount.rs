//! Amounts of money in zatoshis, the smallest unit of the currency.

use vstd::prelude::*;

verus! {

/// The most money that can exist, in zatoshis.
pub const MAX_MONEY: u64 = 2_100_000_000_000_000;

/// An amount of at most [`MAX_MONEY`] zatoshis.
#[derive(Clone, Copy, Debug, PartialEq, Eq, Structural)]
pub struct Zatoshis {
    zats: u64,
}

impl View for Zatoshis {
    type V = nat;

    closed spec fn view(&self) -> nat {
        self.zats as nat
    }
}

impl Zatoshis {
    #[verifier::type_invariant]
    pub(crate) closed spec fn in_range(self) -> bool {
        self.zats <= MAX_MONEY
    }

    pub(crate) proof fn lemma_in_range(self)
        requires
            self.in_range(),
        ensures
            self@ <= MAX_MONEY,
    {
    }

    /// No money.
    pub fn zero() -> (amount: Zatoshis)
        ensures
            amount@ == 0,
    {
        Zatoshis { zats: 0 }
    }

    /// The amount of `zats` zatoshis, if there can be that much.
    pub fn from_u64(zats: u64) -> (amount: Option<Zatoshis>)
        ensures
            amount is Some <==> zats <= MAX_MONEY,
            amount matches Some(a) ==> a@ == zats,
    {
        if zats <= MAX_MONEY {
            Some(Zatoshis { zats })
        } else {
            None
        }
    }

    /// The number of zatoshis.
    pub fn into_u64(self) -> (zats: u64)
        ensures
            zats == self@,
            zats <= MAX_MONEY,
    {
        proof {
            use_type_invariant(&self);
        }
        self.zats
    }

    /// The sum of two amounts, if it is one.
    pub fn plus(self, other: Zatoshis) -> (sum: Option<Zatoshis>)
        ensures
            sum is Some <==> self@ + other@ <= MAX_MONEY,
            sum matches Some(s) ==> s@ == self@ + other@,
    {
        proof {
            use_type_invariant(&self);
            use_type_invariant(&other);
        }
        Zatoshis::from_u64(self.zats + other.zats)
    }

    /// What is left of this amount when `other` is taken away, if that can be
    /// done.
    pub fn minus(self, other: Zatoshis) -> (difference: Option<Zatoshis>)
        ensures
            difference is Some <==> other@ <= self@,
            difference matches Some(d) ==> d@ == self@ - other@,
    {
        proof {
            use_type_invariant(&self);
        }
        if other.zats <= self.zats {
            Some(Zatoshis { zats: self.zats - other.zats })
        } else {
            None
        }
    }
}

/// The sum of a list of amounts.
pub open spec fn total(amounts: Seq<Zatoshis>) -> nat
    decreases amounts.len(),
{
    if amounts.len() == 0 {
        0
    } else {
        total(amounts.drop_last()) + amounts.last()@
    }
}

/// A list of one amount holds that amount.
pub proof fn law_total_one(amount: Zatoshis)
    ensures
        total(seq![amount]) == amount@,
{
    reveal_with_fuel(total, 2);
    assert(seq![amount].drop_last() =~= Seq::<Zatoshis>::empty());
}

/// Two lists one after the other hold what the first and the second hold.
pub proof fn lemma_total_concat(first: Seq<Zatoshis>, second: Seq<Zatoshis>)
    ensures
        total(first + second) == total(first) + total(second),
    decreases second.len(),
{
    if second.len() == 0 {
        assert(first + second =~= first);
    } else {
        assert((first + second).drop_last() =~= first + second.drop_last());
        lemma_total_concat(first, second.drop_last());
    }
}

} // verus!
