//! What the wallet proposes to shield, and what it sums up to.

use vstd::prelude::*;

use crate::amount::{lemma_total_concat, total, Zatoshis, MAX_MONEY};
use crate::error::{reply, ErrorReply, LegacyCode, RpcError};

verus! {

/// A transparent output that a proposal spends.
pub struct TransparentInput {
    /// What the output is worth.
    pub value: Zatoshis,
    /// The script that the output is locked with.
    pub script_pubkey: Vec<u8>,
}

/// One transaction of a proposal.
pub struct ProposalStep {
    pub transparent_inputs: Vec<TransparentInput>,
}

/// A proposal to shield coinbase outputs, as far as the method looks into it.
pub struct Proposal {
    pub steps: Vec<ProposalStep>,
    /// The lowest height that the transactions can be mined at.
    pub min_target_height: u32,
}

/// The inputs of the first `n` steps, in order.
pub open spec fn inputs_of(steps: Seq<ProposalStep>, n: int) -> Seq<TransparentInput>
    decreases n,
{
    if n <= 0 {
        Seq::empty()
    } else {
        inputs_of(steps, n - 1) + steps[n - 1].transparent_inputs@
    }
}

/// What a list of inputs is worth, one by one.
pub open spec fn values(inputs: Seq<TransparentInput>) -> Seq<Zatoshis> {
    inputs.map_values(|input: TransparentInput| input.value)
}

impl Proposal {
    /// The inputs of all steps, in order.
    pub open spec fn inputs(self) -> Seq<TransparentInput> {
        inputs_of(self.steps@, self.steps@.len() as int)
    }
}

/// A number of outputs, as a counter of 64 bits that stops at its end shows it.
pub open spec fn counted(n: nat) -> nat {
    if n <= u64::MAX {
        n
    } else {
        u64::MAX as nat
    }
}

/// How many transparent outputs there are, and what they are worth together.
#[derive(Clone, Copy, Debug)]
pub struct Tally {
    pub utxos: u64,
    pub value: Zatoshis,
}

/// What a [`Tally`] says.
pub ghost struct Sum {
    pub utxos: nat,
    pub value: nat,
}

impl View for Tally {
    type V = Sum;

    open spec fn view(&self) -> Sum {
        Sum { utxos: self.utxos as nat, value: self.value@ }
    }
}

/// A sum has the number and the worth of its tally.
pub proof fn law_tally_view(tally: Tally)
    ensures
        tally@.utxos == tally.utxos,
        tally@.value == tally.value@,
{
}

/// The answer to a proposal that spends more money than there can be.
pub open spec fn selected_overflow() -> ErrorReply {
    reply(LegacyCode::Wallet, "Internal error: shielding value sum overflowed Zatoshis bounds."@)
}

/// What a proposal spends: the number and the worth of its inputs, or an error
/// exactly where they are worth more than [`MAX_MONEY`].
pub open spec fn selected(proposal: Proposal) -> Result<Sum, ErrorReply> {
    let value = total(values(proposal.inputs()));
    if value <= MAX_MONEY {
        Ok(Sum { utxos: counted(proposal.inputs().len()), value })
    } else {
        Err(selected_overflow())
    }
}

/// What a tally says, or which error stands in its place.
pub open spec fn tallied(result: Result<Tally, RpcError>) -> Result<Sum, ErrorReply> {
    match result {
        Ok(tally) => Ok(tally@),
        Err(error) => Err(error@),
    }
}

/// A tally is read as it is, and so is the error in its place.
pub proof fn law_tallied(tally: Tally, error: RpcError)
    ensures
        tallied(Ok(tally)) == Ok::<Sum, ErrorReply>(tally@),
        tallied(Err(error)) == Err::<Sum, ErrorReply>(error@),
{
}

proof fn lemma_values_concat(first: Seq<TransparentInput>, second: Seq<TransparentInput>)
    ensures
        total(values(first + second)) == total(values(first)) + total(values(second)),
{
    assert(values(first + second) =~= values(first) + values(second));
    lemma_total_concat(values(first), values(second));
}

/// Later steps take nothing away.
proof fn lemma_inputs_grow(steps: Seq<ProposalStep>, m: int, n: int)
    requires
        0 <= m <= n,
    ensures
        total(values(inputs_of(steps, m))) <= total(values(inputs_of(steps, n))),
    decreases n - m,
{
    if m < n {
        lemma_inputs_grow(steps, m, n - 1);
        lemma_values_concat(inputs_of(steps, n - 1), steps[n - 1].transparent_inputs@);
    }
}

/// Counts and sums the transparent inputs that a proposal spends.
pub fn sum_selected_inputs(proposal: &Proposal) -> (result: Result<Tally, RpcError>)
    ensures
        tallied(result) == selected(*proposal),
{
    let mut utxos: u64 = 0;
    let mut value = Zatoshis::zero();
    let ghost steps = proposal.steps@;
    let mut i: usize = 0;
    while i < proposal.steps.len()
        invariant
            i <= proposal.steps.len(),
            steps == proposal.steps@,
            utxos == counted(inputs_of(steps, i as int).len()),
            value@ == total(values(inputs_of(steps, i as int))),
            value@ <= MAX_MONEY,
        decreases proposal.steps.len() - i,
    {
        let inputs = &proposal.steps[i].transparent_inputs;
        let ghost done = inputs_of(steps, i as int);
        assert(done + inputs@.take(0) =~= done);
        let mut j: usize = 0;
        while j < inputs.len()
            invariant
                i < proposal.steps.len(),
                steps == proposal.steps@,
                inputs == proposal.steps[i as int].transparent_inputs,
                done == inputs_of(steps, i as int),
                j <= inputs.len(),
                utxos == counted((done + inputs@.take(j as int)).len()),
                value@ == total(values(done + inputs@.take(j as int))),
                value@ <= MAX_MONEY,
            decreases inputs.len() - j,
        {
            utxos = utxos.saturating_add(1);
            let ghost before = done + inputs@.take(j as int);
            proof {
                let after = done + inputs@.take(j + 1);
                assert(values(after).drop_last() =~= values(before));
                assert(values(after).last() == inputs[j as int].value);
            }
            match value.plus(inputs[j].value) {
                Some(sum) => {
                    value = sum;
                },
                None => {
                    proof {
                        let after = done + inputs@.take(j + 1);
                        let rest = inputs@.skip(j + 1);
                        assert(after + rest =~= done + inputs@);
                        lemma_values_concat(after, rest);
                        lemma_inputs_grow(steps, i + 1, steps.len() as int);
                    }
                    return Err(
                        LegacyCode::Wallet.with_static(
                            "Internal error: shielding value sum overflowed Zatoshis bounds.",
                        ),
                    );
                },
            }
            j += 1;
        }
        assert(inputs@.take(j as int) =~= inputs@);
        i += 1;
    }
    Ok(Tally { utxos, value })
}

/// The answer to eligible outputs worth more money than there can be.
pub open spec fn eligible_overflow() -> ErrorReply {
    reply(LegacyCode::Wallet, "Internal error: total transparent value overflowed Zatoshis bounds."@)
}

/// A tally with the outputs of one more address: their number and worth are
/// added, or an error comes exactly where the worth exceeds [`MAX_MONEY`].
pub open spec fn with_outputs(eligible: Sum, outputs: Seq<Zatoshis>) -> Result<Sum, ErrorReply> {
    if eligible.value + total(outputs) <= MAX_MONEY {
        Ok(Sum { utxos: counted(eligible.utxos + outputs.len()), value: eligible.value + total(outputs) })
    } else {
        Err(eligible_overflow())
    }
}

/// Adds the eligible outputs of one address to a tally.
pub fn add_outputs(eligible: Tally, outputs: &Vec<Zatoshis>) -> (result: Result<Tally, RpcError>)
    ensures
        tallied(result) == with_outputs(eligible@, outputs@),
{
    let utxos = eligible.utxos.saturating_add(outputs.len() as u64);
    let mut value = eligible.value;
    proof {
        use_type_invariant(&value);
        value.lemma_in_range();
    }
    let mut i: usize = 0;
    assert(outputs@.take(0) =~= Seq::empty());
    while i < outputs.len()
        invariant
            i <= outputs.len(),
            value@ == eligible.value@ + total(outputs@.take(i as int)),
            value@ <= MAX_MONEY,
        decreases outputs.len() - i,
    {
        proof {
            let after = outputs@.take(i + 1);
            assert(after.drop_last() =~= outputs@.take(i as int));
            assert(after + outputs@.skip(i + 1) =~= outputs@);
            lemma_total_concat(after, outputs@.skip(i + 1));
        }
        match value.plus(outputs[i]) {
            Some(sum) => {
                value = sum;
            },
            None => {
                return Err(
                    LegacyCode::Wallet.with_static(
                        "Internal error: total transparent value overflowed Zatoshis bounds.",
                    ),
                );
            },
        }
        i += 1;
    }
    assert(outputs@.take(i as int) =~= outputs@);
    Ok(Tally { utxos, value })
}

} // verus!
