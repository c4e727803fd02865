//! The numbers that the method answers with before the transaction is built.

use vstd::prelude::*;

use crate::amount::Zatoshis;
use crate::error::{reply, ErrorReply, LegacyCode, RpcError};
use crate::proposal::{Sum, Tally};

verus! {

/// The number of coinbase inputs above which the method warns that the
/// transaction may be too large to be broadcast.
pub const COINBASE_INPUTS_WARN_THRESHOLD: u64 = 400;

/// The pre-flight numbers, computed before the asynchronous part runs.
#[derive(Clone, Copy, Debug, PartialEq, Eq, Structural)]
pub struct Preflight {
    /// How many eligible coinbase outputs were not selected.
    pub remaining_utxos: u64,
    /// What the eligible outputs that were not selected are worth.
    pub remaining_value: Zatoshis,
    /// How many coinbase outputs are being shielded.
    pub shielding_utxos: u64,
    /// What the outputs that are being shielded are worth.
    pub shielding_value: Zatoshis,
}

/// What a [`Preflight`] says.
pub ghost struct Numbers {
    pub remaining: Sum,
    pub shielding: Sum,
}

impl View for Preflight {
    type V = Numbers;

    open spec fn view(&self) -> Numbers {
        Numbers {
            remaining: Sum { utxos: self.remaining_utxos as nat, value: self.remaining_value@ },
            shielding: Sum { utxos: self.shielding_utxos as nat, value: self.shielding_value@ },
        }
    }
}

/// The numbers have all that the pre-flight answer has.
pub proof fn law_preflight_view(preflight: Preflight)
    ensures
        preflight@.remaining.utxos == preflight.remaining_utxos,
        preflight@.remaining.value == preflight.remaining_value@,
        preflight@.shielding.utxos == preflight.shielding_utxos,
        preflight@.shielding.value == preflight.shielding_value@,
{
}

/// The answer when more outputs were selected than are eligible.
pub open spec fn utxo_mismatch() -> ErrorReply {
    reply(
        LegacyCode::Wallet,
        "Internal accounting error: proposal selected more UTXOs than \
         enumeration found (likely a chain race during shielding setup)."@,
    )
}

/// The answer when what was selected is worth more than what is eligible.
pub open spec fn value_mismatch() -> ErrorReply {
    reply(
        LegacyCode::Wallet,
        "Internal accounting error: proposal value exceeds enumerated total \
         (likely a chain race during shielding setup)."@,
    )
}

/// What remains of the eligible outputs beside those that are being shielded.
pub open spec fn accounted(eligible: Sum, shielding: Sum) -> Result<Numbers, ErrorReply> {
    if shielding.utxos > eligible.utxos {
        Err(utxo_mismatch())
    } else if shielding.value > eligible.value {
        Err(value_mismatch())
    } else {
        Ok(
            Numbers {
                remaining: Sum {
                    utxos: (eligible.utxos - shielding.utxos) as nat,
                    value: (eligible.value - shielding.value) as nat,
                },
                shielding,
            },
        )
    }
}

/// What pre-flight numbers say, or which error stands in their place.
pub open spec fn numbers(result: Result<Preflight, RpcError>) -> Result<Numbers, ErrorReply> {
    match result {
        Ok(preflight) => Ok(preflight@),
        Err(error) => Err(error@),
    }
}

/// Pre-flight numbers are read as they are, and so is the error in their place.
pub proof fn law_numbers(preflight: Preflight, error: RpcError)
    ensures
        numbers(Ok(preflight)) == Ok::<Numbers, ErrorReply>(preflight@),
        numbers(Err(error)) == Err::<Numbers, ErrorReply>(error@),
{
}

impl Preflight {
    /// Sets what is being shielded against what is eligible.
    pub fn new(eligible: Tally, shielding: Tally) -> (result: Result<Preflight, RpcError>)
        ensures
            numbers(result) == accounted(eligible@, shielding@),
    {
        let remaining_utxos = match eligible.utxos.checked_sub(shielding.utxos) {
            Some(utxos) => utxos,
            None => {
                return Err(
                    LegacyCode::Wallet.with_static(
                        "Internal accounting error: proposal selected more UTXOs than \
                         enumeration found (likely a chain race during shielding setup).",
                    ),
                );
            },
        };
        let remaining_value = match eligible.value.minus(shielding.value) {
            Some(value) => value,
            None => {
                return Err(
                    LegacyCode::Wallet.with_static(
                        "Internal accounting error: proposal value exceeds enumerated total \
                         (likely a chain race during shielding setup).",
                    ),
                );
            },
        };
        Ok(
            Preflight {
                remaining_utxos,
                remaining_value,
                shielding_utxos: shielding.utxos,
                shielding_value: shielding.value,
            },
        )
    }

    /// Whether so many inputs were selected that the caller of the method should
    /// be warned.
    pub fn exceeds_threshold(&self) -> (exceeds: bool)
        ensures
            exceeds == (self@.shielding.utxos > COINBASE_INPUTS_WARN_THRESHOLD),
    {
        self.shielding_utxos > COINBASE_INPUTS_WARN_THRESHOLD
    }
}

/// The identifier under which the outcome of an operation is kept.
#[derive(Debug, PartialEq, Eq)]
pub struct OperationId {
    pub id: String,
}

/// The immediate answer of the method.
pub struct ShieldCoinbaseResult {
    /// How many eligible coinbase outputs were not selected by this operation:
    /// some, where the caller gave a `limit` below the number of those eligible.
    pub remaining_utxos: u64,
    /// What the eligible outputs that were not selected are worth.
    pub remaining_value: Zatoshis,
    /// How many coinbase outputs this operation shields.
    pub shielding_utxos: u64,
    /// What this operation shields.
    pub shielding_value: Zatoshis,
    /// The operation whose status tells the final result.
    pub opid: OperationId,
}

impl ShieldCoinbaseResult {
    /// The answer with the given pre-flight numbers for the given operation.
    pub fn new(preflight: Preflight, opid: OperationId) -> (result: ShieldCoinbaseResult)
        ensures
            result.remaining_utxos == preflight.remaining_utxos,
            result.remaining_value == preflight.remaining_value,
            result.shielding_utxos == preflight.shielding_utxos,
            result.shielding_value == preflight.shielding_value,
            result.opid == opid,
    {
        ShieldCoinbaseResult {
            remaining_utxos: preflight.remaining_utxos,
            remaining_value: preflight.remaining_value,
            shielding_utxos: preflight.shielding_utxos,
            shielding_value: preflight.shielding_value,
            opid,
        }
    }
}

} // verus!
