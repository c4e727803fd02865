//! How a call ends, said without its steps: from the answers straight to the
//! result, each error where its cause comes first.

use secp256k1::SecretKey;
use vstd::prelude::*;
use zcash_address::ZcashAddress;
use zcash_client_backend::data_api::wallet::ConfirmationsPolicy;
use zcash_keys::keys::UnifiedSpendingKey;
use zcash_protocol::memo::MemoBytes;

use crate::account::uuid_of_text;
use crate::address::{Network, TransparentAddress};
use crate::call::{
    all_receivers, bad_confirmations, called, coinbase_outputs, keys_wanted, no_payment_source, not_proposed,
    outputs_asked, shielding_terms, totals_known, unknown_destination, vanished, PrivacyPolicy,
};
use crate::collect::{keys_asked, keys_for, standalone};
use crate::error::{keystore_reply, reply, ErrorReply, LegacyCode, RpcError};
use crate::json::JsonValue;
use crate::keys::{spending_key, with_key, KeyDerivation};
use crate::preflight::{accounted, Numbers};
use crate::proposal::{selected, with_outputs, Proposal, Sum};
use crate::resolve::{
    database, empty_array, entry_address, is_found, mixed_accounts, no_addresses, not_an_account, not_owned,
    quoted, scanned, unknown_account, with_address, wrong_shape,
};
use crate::step::{FoundView, Order, ReadyView, SourceView, StepView};
use crate::world::{outcome, World};

verus! {

/// A source has at least one address.
pub open spec fn with_addresses(source: SourceView) -> Result<SourceView, ErrorReply> {
    if source.from_addrs.len() == 0 {
        Err(no_addresses())
    } else {
        Ok(source)
    }
}

/// The source that an array names, given what was found in the entries before
/// `next`.
pub open spec fn array_source(
    world: World,
    order: Order,
    entries: Vec<JsonValue>,
    next: nat,
    found: Option<FoundView>,
) -> Result<SourceView, ErrorReply>
    decreases entries@.len() - next,
{
    if next >= entries@.len() {
        match found {
            None => Err(empty_array()),
            Some(f) => with_addresses(
                SourceView {
                    order,
                    fromaddresses: JsonValue::Array(entries),
                    account: f.account,
                    from_addrs: f.from_addrs,
                },
            ),
        }
    } else {
        match entry_address(order.network.network_type(), entries@[next as int]) {
            Err(error) => Err(error),
            Ok(address) => if is_found(found, address) {
                array_source(world, order, entries, next + 1, found)
            } else {
                match (world.owner)(address) {
                    Err(e) => Err(database(e@)),
                    Ok(None) => Err(not_owned(entries@[next as int].text()->0)),
                    Ok(Some(account)) => if found matches Some(f) && f.account != account {
                        Err(mixed_accounts())
                    } else {
                        array_source(world, order, entries, next + 1, Some(with_address(found, account, address)))
                    },
                }
            },
        }
    }
}

/// The source that a UUID names.
pub open spec fn account_source(world: World, order: Order, text: String) -> Result<SourceView, ErrorReply> {
    match uuid_of_text(text@) {
        None => Err(not_an_account(quoted(text@))),
        Some(account) => match (world.known)(account) {
            Err(e) => Err(database(e@)),
            Ok(false) => Err(unknown_account(text@)),
            Ok(true) => match (world.receivers)(all_receivers(account)) {
                Err(e) => Err(database(e@)),
                Ok(addresses) => with_addresses(
                    SourceView {
                        order,
                        fromaddresses: JsonValue::String(text),
                        account,
                        from_addrs: addresses@,
                    },
                ),
            },
        },
    }
}

/// The source that a `fromaddresses` names.
pub open spec fn source_of(world: World, order: Order, fromaddresses: JsonValue) -> Result<SourceView, ErrorReply> {
    match fromaddresses {
        JsonValue::String(text) => account_source(world, order, text),
        JsonValue::Array(entries) => array_source(world, order, entries, 0, None),
        JsonValue::Other => Err(wrong_shape()),
    }
}

/// How the keys of the source account are derived, if they are.
pub open spec fn derivation_of(world: World, source: SourceView) -> Result<Option<KeyDerivation>, ErrorReply> {
    match (world.account)(source.account) {
        Err(e) => Err(database(e@)),
        Ok(None) => Err(vanished(source.account)),
        Ok(Some(a)) => Ok(a.derivation),
    }
}

/// The confirmations policy.
pub open spec fn confirmations_of(world: World) -> Result<ConfirmationsPolicy, ErrorReply> {
    match world.confirmations {
        None => Err(bad_confirmations()),
        Some(confirmations) => Ok(confirmations),
    }
}

/// The proposal for a source.
pub open spec fn proposal_of(world: World, source: SourceView) -> Result<Proposal, ErrorReply> {
    match (world.proposal)(shielding_terms(source)) {
        Err(e) => Err(not_proposed(e@)),
        Ok(proposal) => match (world.privacy)(proposal, PrivacyPolicy::AllowRevealedSenders) {
            Err(error) => Err(error@),
            Ok(_) => Ok(proposal),
        },
    }
}

/// What the source addresses from `next` on hold, beside what those before them do.
pub open spec fn eligible_from(
    world: World,
    source: SourceView,
    confirmations: ConfirmationsPolicy,
    proposal: Proposal,
    next: nat,
    eligible: Sum,
) -> Result<Sum, ErrorReply>
    decreases source.from_addrs.len() - next,
{
    if next >= source.from_addrs.len() {
        Ok(eligible)
    } else {
        match (world.outputs)(next, coinbase_outputs(source.from_addrs[next as int], proposal, confirmations)) {
            Err(e) => Err(database(e@)),
            Ok(outputs) => match with_outputs(eligible, outputs@) {
                Err(error) => Err(error),
                Ok(eligible) => eligible_from(world, source, confirmations, proposal, next + 1, eligible),
            },
        }
    }
}

/// What all source addresses hold.
pub open spec fn eligible_of(
    world: World,
    source: SourceView,
    confirmations: ConfirmationsPolicy,
    proposal: Proposal,
) -> Result<Sum, ErrorReply> {
    eligible_from(world, source, confirmations, proposal, 0, Sum { utxos: 0, value: 0 })
}

/// The pre-flight numbers of a proposal.
pub open spec fn numbers_of(
    world: World,
    source: SourceView,
    confirmations: ConfirmationsPolicy,
    proposal: Proposal,
) -> Result<Numbers, ErrorReply> {
    match selected(proposal) {
        Err(error) => Err(error),
        Ok(shielding) => match eligible_of(world, source, confirmations, proposal) {
            Err(error) => Err(error),
            Ok(eligible) => accounted(eligible, shielding),
        },
    }
}

/// The spending key of the source account.
pub open spec fn spending_key_of(
    world: World,
    source: SourceView,
    derivation: Option<KeyDerivation>,
) -> Result<UnifiedSpendingKey, ErrorReply> {
    match derivation {
        None => Err(no_payment_source(source.account)),
        Some(derivation) => match (world.seed)(derivation.fingerprint()) {
            Err(e) => Err(keystore_reply(e)),
            Ok(seed) => match spending_key(source.order.network.network_type(), seed, derivation.index()) {
                Err(text) => Err(reply(LegacyCode::InvalidAddressOrKey, text)),
                Ok(usk) => Ok(usk),
            },
        },
    }
}

/// The keys to the pending addresses from `next` on, beside those to the addresses
/// before them.
pub open spec fn keys_from(
    world: World,
    pending: Seq<TransparentAddress>,
    next: nat,
    keys: Map<TransparentAddress, Seq<SecretKey>>,
) -> Result<Map<TransparentAddress, Seq<SecretKey>>, ErrorReply>
    decreases pending.len() - next,
{
    if next >= pending.len() {
        Ok(keys)
    } else {
        match (world.key)(next, pending[next as int]) {
            Err(e) => Err(keystore_reply(e)),
            Ok(k) => keys_from(world, pending, next + 1, with_key(keys, pending[next as int], k)),
        }
    }
}

/// The keys that a proposal needs from the keystore.
pub open spec fn keys_of(
    world: World,
    source: SourceView,
    proposal: Proposal,
) -> Result<Map<TransparentAddress, Seq<SecretKey>>, ErrorReply> {
    if !source.order.import_keys {
        Ok(Map::empty())
    } else {
        match (world.sources)(all_receivers(source.account)) {
            Err(e) => Err(database(e@)),
            Ok(receivers) => keys_from(world, keys_for(proposal.inputs(), standalone(receivers@)), 0, Map::empty()),
        }
    }
}

/// What the call answers for a source with the given derivation, proposal and
/// pre-flight numbers.
pub open spec fn keyed(
    world: World,
    source: SourceView,
    derivation: Option<KeyDerivation>,
    proposal: Proposal,
    preflight: Numbers,
) -> Result<ReadyView, ErrorReply> {
    match spending_key_of(world, source, derivation) {
        Err(error) => Err(error),
        Ok(usk) => match keys_of(world, source, proposal) {
            Err(error) => Err(error),
            Ok(keys) => Ok(
                ReadyView {
                    preflight,
                    method: "z_shieldcoinbase"@,
                    fromaddresses: source.fromaddresses,
                    toaddress: source.order.toaddress,
                    limit: source.order.limit,
                    proposal,
                    usk,
                    standalone_keys: keys,
                },
            ),
        },
    }
}

/// What the call answers for a source.
pub open spec fn sourced(world: World, source: SourceView) -> Result<ReadyView, ErrorReply> {
    match derivation_of(world, source) {
        Err(error) => Err(error),
        Ok(derivation) => match confirmations_of(world) {
            Err(error) => Err(error),
            Ok(confirmations) => match proposal_of(world, source) {
                Err(error) => Err(error),
                Ok(proposal) => match numbers_of(world, source, confirmations, proposal) {
                    Err(error) => Err(error),
                    Ok(preflight) => keyed(world, source, derivation, proposal, preflight),
                },
            },
        },
    }
}

/// What the call asks to be done, given the address that the destination stands for
/// and what was made of the memo.
pub open spec fn order_of(
    to: Option<ZcashAddress>,
    network: Network,
    toaddress: String,
    limit: Option<u32>,
    memo: Option<Result<MemoBytes, RpcError>>,
    import_keys: bool,
) -> Result<Order, ErrorReply> {
    match to {
        None => Err(unknown_destination(toaddress@)),
        Some(to) => match memo {
            Some(Err(error)) => Err(error@),
            Some(Ok(memo)) => Ok(Order { network, toaddress, to, memo: Some(memo), limit, import_keys }),
            None => Ok(Order { network, toaddress, to, memo: None, limit, import_keys }),
        },
    }
}

/// What the call answers.
pub open spec fn call_outcome(
    world: World,
    to: Option<ZcashAddress>,
    network: Network,
    fromaddresses: JsonValue,
    toaddress: String,
    limit: Option<u32>,
    memo: Option<Result<MemoBytes, RpcError>>,
    import_keys: bool,
) -> Result<ReadyView, ErrorReply> {
    match order_of(to, network, toaddress, limit, memo, import_keys) {
        Err(error) => Err(error),
        Ok(order) => match source_of(world, order, fromaddresses) {
            Err(error) => Err(error),
            Ok(source) => sourced(world, source),
        },
    }
}

proof fn lemma_keys_asked(
    world: World,
    source: SourceView,
    proposal: Proposal,
    preflight: Numbers,
    usk: UnifiedSpendingKey,
    pending: Seq<TransparentAddress>,
    next: nat,
    keys: Map<TransparentAddress, Seq<SecretKey>>,
)
    ensures
        outcome(world, keys_asked(source, proposal, preflight, usk, pending, next, keys)) == match keys_from(
            world,
            pending,
            next,
            keys,
        ) {
            Err(error) => Err(error),
            Ok(keys) => Ok(
                ReadyView {
                    preflight,
                    method: "z_shieldcoinbase"@,
                    fromaddresses: source.fromaddresses,
                    toaddress: source.order.toaddress,
                    limit: source.order.limit,
                    proposal,
                    usk,
                    standalone_keys: keys,
                },
            ),
        },
    decreases pending.len() - next,
{
    reveal_with_fuel(outcome, 2);
    if next < pending.len() {
        if let Ok(k) = (world.key)(next, pending[next as int]) {
            lemma_keys_asked(
                world,
                source,
                proposal,
                preflight,
                usk,
                pending,
                next + 1,
                with_key(keys, pending[next as int], k),
            );
        }
    }
}

proof fn lemma_keys_wanted(
    world: World,
    source: SourceView,
    derivation: Option<KeyDerivation>,
    proposal: Proposal,
    preflight: Numbers,
)
    ensures
        outcome(world, keys_wanted(source, derivation, proposal, preflight)) == keyed(
            world,
            source,
            derivation,
            proposal,
            preflight,
        ),
{
    reveal_with_fuel(outcome, 3);
    if let Some(d) = derivation {
        if let Ok(seed) = (world.seed)(d.fingerprint()) {
            if let Ok(usk) = spending_key(source.order.network.network_type(), seed, d.index()) {
                if let Ok(receivers) = (world.sources)(all_receivers(source.account)) {
                    lemma_keys_asked(
                        world,
                        source,
                        proposal,
                        preflight,
                        usk,
                        keys_for(proposal.inputs(), standalone(receivers@)),
                        0,
                        Map::empty(),
                    );
                }
            }
        }
    }
}

proof fn lemma_totals_known(
    world: World,
    source: SourceView,
    derivation: Option<KeyDerivation>,
    proposal: Proposal,
    shielding: Sum,
    eligible: Sum,
)
    ensures
        outcome(world, totals_known(source, derivation, proposal, shielding, eligible)) == match accounted(
            eligible,
            shielding,
        ) {
            Err(error) => Err(error),
            Ok(preflight) => keyed(world, source, derivation, proposal, preflight),
        },
{
    if let Ok(preflight) = accounted(eligible, shielding) {
        lemma_keys_wanted(world, source, derivation, proposal, preflight);
    }
}

proof fn lemma_outputs_asked(
    world: World,
    source: SourceView,
    derivation: Option<KeyDerivation>,
    confirmations: ConfirmationsPolicy,
    proposal: Proposal,
    shielding: Sum,
    eligible: Sum,
    next: nat,
)
    ensures
        outcome(world, outputs_asked(source, derivation, confirmations, proposal, shielding, eligible, next))
            == match eligible_from(world, source, confirmations, proposal, next, eligible) {
            Err(error) => Err(error),
            Ok(eligible) => match accounted(eligible, shielding) {
                Err(error) => Err(error),
                Ok(preflight) => keyed(world, source, derivation, proposal, preflight),
            },
        },
    decreases source.from_addrs.len() - next,
{
    reveal_with_fuel(outcome, 2);
    if next < source.from_addrs.len() {
        let query = coinbase_outputs(source.from_addrs[next as int], proposal, confirmations);
        if let Ok(outputs) = (world.outputs)(next, query) {
            if let Ok(sum) = with_outputs(eligible, outputs@) {
                lemma_outputs_asked(world, source, derivation, confirmations, proposal, shielding, sum, next + 1);
            }
        }
    } else {
        lemma_totals_known(world, source, derivation, proposal, shielding, eligible);
    }
}

proof fn lemma_sourced(world: World, source: SourceView)
    ensures
        outcome(world, StepView::FetchAccount { source }) == sourced(world, source),
{
    reveal_with_fuel(outcome, 5);
    if let Ok(derivation) = derivation_of(world, source) {
        if let Ok(confirmations) = confirmations_of(world) {
            if let Ok(proposal) = proposal_of(world, source) {
                if let Ok(shielding) = selected(proposal) {
                    lemma_outputs_asked(
                        world,
                        source,
                        derivation,
                        confirmations,
                        proposal,
                        shielding,
                        Sum { utxos: 0, value: 0 },
                        0,
                    );
                }
            }
        }
    }
}

proof fn lemma_scan_outcome(
    world: World,
    order: Order,
    entries: Vec<JsonValue>,
    next: nat,
    found: Option<FoundView>,
)
    ensures
        outcome(world, scanned(order, entries, next, found)) == match array_source(
            world,
            order,
            entries,
            next,
            found,
        ) {
            Err(error) => Err(error),
            Ok(source) => sourced(world, source),
        },
    decreases entries@.len() - next,
{
    reveal_with_fuel(outcome, 2);
    if next >= entries@.len() {
        if let Some(f) = found {
            lemma_sourced(
                world,
                SourceView {
                    order,
                    fromaddresses: JsonValue::Array(entries),
                    account: f.account,
                    from_addrs: f.from_addrs,
                },
            );
        }
    } else if let Ok(address) = entry_address(order.network.network_type(), entries@[next as int]) {
        if is_found(found, address) {
            lemma_scan_outcome(world, order, entries, next + 1, found);
        } else if let Ok(Some(account)) = (world.owner)(address) {
            lemma_scan_outcome(
                world,
                order,
                entries,
                next + 1,
                Some(with_address(found, account, address)),
            );
        }
    }
}

/// However the wallet, the keystore and the configuration answer, the steps of a
/// call lead to exactly the outcome that the answers call for.
pub proof fn law_call(
    world: World,
    to: Option<ZcashAddress>,
    network: Network,
    fromaddresses: JsonValue,
    toaddress: String,
    limit: Option<u32>,
    memo: Option<Result<MemoBytes, RpcError>>,
    import_keys: bool,
)
    ensures
        outcome(world, called(to, network, fromaddresses, toaddress, limit, memo, import_keys)) == call_outcome(
            world,
            to,
            network,
            fromaddresses,
            toaddress,
            limit,
            memo,
            import_keys,
        ),
{
    if let Ok(order) = order_of(to, network, toaddress, limit, memo, import_keys) {
        match fromaddresses {
            JsonValue::String(text) => {
                reveal_with_fuel(outcome, 3);
                if let Ok(source) = account_source(world, order, text) {
                    lemma_sourced(world, source);
                }
            },
            JsonValue::Array(entries) => {
                lemma_scan_outcome(world, order, entries, 0, None);
            },
            JsonValue::Other => {},
        }
    }
}

} // verus!
