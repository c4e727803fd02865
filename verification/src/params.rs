//! What the documentation of the method says about its parameters.

use vstd::prelude::*;

verus! {

pub const PARAM_FROMADDRESSES_DESC: &'static str = "Sources of coinbase UTXOs to shield. Either an array of transparent addresses owned by this \
     wallet (all of which must belong to the same account), or a single account UUID to sweep \
     every coinbase UTXO across that account's transparent receivers.";

pub const PARAM_TOADDRESS_DESC: &'static str = "Any Zcash shielded address (Sapling, Orchard, or Unified with a shielded receiver) that \
     will receive the shielded funds. Need not belong to this wallet. Transparent or TEX \
     destinations are rejected.";

pub const PARAM_LIMIT_DESC: &'static str = "If supplied, caps the number of selected coinbase UTXOs to the highest-value `n` of those \
     eligible. Recommended for wallets with many eligible coinbase UTXOs: without it, a single \
     transaction is built containing all eligible UTXOs, which can exceed transaction-size \
     limits at broadcast time.";

pub const PARAM_MEMO_DESC: &'static str = "If supplied, stored in the memo field of the resulting shielded payment. Hex-encoded, up \
     to 1024 hex characters (= 512 bytes).";

} // verus!
