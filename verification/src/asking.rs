//! What calls ask for, and what they never do.

use secp256k1::SecretKey;
use vstd::prelude::*;
use zcash_address::ZcashAddress;
use zcash_client_backend::data_api::wallet::ConfirmationsPolicy;
use zcash_keys::keys::UnifiedSpendingKey;
use zcash_protocol::memo::MemoBytes;

use crate::address::{Network, TransparentAddress};
use crate::call::{
    all_receivers, called, coinbase_outputs, keys_wanted, outputs_asked, totals_known, OutputFilter,
    PrivacyPolicy,
};
use crate::collect::{keys_asked, keys_for, standalone};
use crate::error::RpcError;
use crate::json::JsonValue;
use crate::keys::{spending_key, with_key, KeyDerivation};
use crate::outcome::{
    account_source, array_source, confirmations_of, derivation_of, eligible_from, numbers_of, order_of, proposal_of, source_of,
};
use crate::preflight::{Numbers, COINBASE_INPUTS_WARN_THRESHOLD};
use crate::proposal::{selected, with_outputs, Proposal, Sum};
use crate::resolve::{entry_address, is_found, scanned, with_address};
use crate::step::{FoundView, Order, SourceView, StepView};
use crate::world::{answered, asked, law_call_ends, lemma_scanned, question, repeats_left, stages_left, Question, World};

verus! {

/// Whether the call asks for something with a property, from a step on.
pub open spec fn asks(world: World, step: StepView, property: spec_fn(Question) -> bool) -> bool
    decreases stages_left(step), repeats_left(step),
{
    match question(step) {
        None => false,
        Some(q) => {
            proof {
                law_call_ends(world, step);
            }
            property(q) || asks(world, answered(world, step), property)
        },
    }
}

/// A call asks for something exactly when it is among what the call asks for.
pub proof fn lemma_asks(world: World, step: StepView, property: spec_fn(Question) -> bool)
    ensures
        asks(world, step, property) <==> exists|i: int|
            0 <= i < asked(world, step).len() && property(#[trigger] asked(world, step)[i]),
    decreases stages_left(step), repeats_left(step),
{
    if let Some(q) = question(step) {
        law_call_ends(world, step);
        let rest = asked(world, answered(world, step));
        lemma_asks(world, answered(world, step), property);
        assert(asked(world, step) =~= seq![q] + rest);
        if property(q) {
            assert(property(asked(world, step)[0]));
        }
        if exists|i: int| 0 <= i < rest.len() && property(#[trigger] rest[i]) {
            let i = choose|i: int| 0 <= i < rest.len() && property(#[trigger] rest[i]);
            assert(property(asked(world, step)[i + 1]));
        }
        if exists|i: int| 0 <= i < asked(world, step).len() && property(#[trigger] asked(world, step)[i]) {
            let i = choose|i: int| 0 <= i < asked(world, step).len() && property(#[trigger] asked(world, step)[i]);
            if i > 0 {
                assert(property(rest[i - 1]));
            }
        }
    }
}

/// Whether a question can only be asked once the pre-flight numbers are known.
pub open spec fn comes_late(q: Question) -> bool {
    q is Warning || q is Seed || q is Sources || q is Key
}

/// Whether the answer to a question is secret.
pub open spec fn is_secret(q: Question) -> bool {
    q is Seed || q is Key
}

proof fn lemma_outputs_late(
    world: World,
    source: SourceView,
    derivation: Option<KeyDerivation>,
    confirmations: ConfirmationsPolicy,
    proposal: Proposal,
    shielding: Sum,
    eligible: Sum,
    next: nat,
    property: spec_fn(Question) -> bool,
)
    requires
        forall|q: Question| #[trigger] property(q) ==> comes_late(q),
    ensures
        asks(world, outputs_asked(source, derivation, confirmations, proposal, shielding, eligible, next), property)
            == match eligible_from(world, source, confirmations, proposal, next, eligible) {
            Err(_) => false,
            Ok(sum) => asks(world, totals_known(source, derivation, proposal, shielding, sum), property),
        },
    decreases source.from_addrs.len() - next,
{
    reveal_with_fuel(asks, 2);
    if next < source.from_addrs.len() {
        let query = coinbase_outputs(source.from_addrs[next as int], proposal, confirmations);
        if let Ok(outputs) = (world.outputs)(next, query) {
            if let Ok(sum) = with_outputs(eligible, outputs@) {
                lemma_outputs_late(
                    world,
                    source,
                    derivation,
                    confirmations,
                    proposal,
                    shielding,
                    sum,
                    next + 1,
                    property,
                );
            }
        }
    }
}

/// Whether everything is there that a call needs before keys come in.
pub open spec fn is_accounted(world: World, source: SourceView) -> bool {
    &&& derivation_of(world, source) is Ok
    &&& confirmations_of(world) is Ok
    &&& proposal_of(world, source) is Ok
    &&& numbers_of(world, source, confirmations_of(world)->Ok_0, proposal_of(world, source)->Ok_0) is Ok
}

/// The step after the pre-flight numbers of a source are known.
spec fn numbered(world: World, source: SourceView) -> StepView {
    let derivation = derivation_of(world, source)->Ok_0;
    let proposal = proposal_of(world, source)->Ok_0;
    let preflight = numbers_of(world, source, confirmations_of(world)->Ok_0, proposal)->Ok_0;
    if preflight.shielding.utxos > COINBASE_INPUTS_WARN_THRESHOLD {
        StepView::WarnManyInputs { source, derivation, proposal, preflight }
    } else {
        keys_wanted(source, derivation, proposal, preflight)
    }
}

proof fn lemma_source_late(world: World, source: SourceView, property: spec_fn(Question) -> bool)
    requires
        forall|q: Question| #[trigger] property(q) ==> comes_late(q),
    ensures
        asks(world, StepView::FetchAccount { source }, property) == (is_accounted(world, source) && asks(
            world,
            numbered(world, source),
            property,
        )),
{
    reveal_with_fuel(asks, 6);
    if let Ok(derivation) = derivation_of(world, source) {
        if let Ok(confirmations) = confirmations_of(world) {
            if let Ok(proposal) = proposal_of(world, source) {
                if let Ok(shielding) = selected(proposal) {
                    lemma_outputs_late(
                        world,
                        source,
                        derivation,
                        confirmations,
                        proposal,
                        shielding,
                        Sum { utxos: 0, value: 0 },
                        0,
                        property,
                    );
                }
            }
        }
    }
}

proof fn lemma_scan_late(
    world: World,
    order: Order,
    entries: Vec<JsonValue>,
    next: nat,
    found: Option<FoundView>,
    property: spec_fn(Question) -> bool,
)
    requires
        forall|q: Question| #[trigger] property(q) ==> comes_late(q),
    ensures
        asks(world, scanned(order, entries, next, found), property) == match array_source(
            world,
            order,
            entries,
            next,
            found,
        ) {
            Err(_) => false,
            Ok(source) => asks(world, StepView::FetchAccount { source }, property),
        },
    decreases entries@.len() - next,
{
    reveal_with_fuel(asks, 2);
    if next < entries@.len() {
        if let Ok(address) = entry_address(order.network.network_type(), entries@[next as int]) {
            if is_found(found, address) {
                lemma_scan_late(world, order, entries, next + 1, found, property);
            } else if let Ok(Some(account)) = (world.owner)(address) {
                lemma_scan_late(
                    world,
                    order,
                    entries,
                    next + 1,
                    Some(with_address(found, account, address)),
                    property,
                );
            }
        }
    }
}

/// The source of a call, if it has one.
pub open spec fn call_source(
    world: World,
    to: Option<ZcashAddress>,
    network: Network,
    fromaddresses: JsonValue,
    toaddress: String,
    limit: Option<u32>,
    memo: Option<Result<MemoBytes, RpcError>>,
    import_keys: bool,
) -> Option<SourceView> {
    match order_of(to, network, toaddress, limit, memo, import_keys) {
        Err(_) => None,
        Ok(order) => match source_of(world, order, fromaddresses) {
            Err(_) => None,
            Ok(source) => Some(source),
        },
    }
}

proof fn lemma_call_late(
    world: World,
    to: Option<ZcashAddress>,
    network: Network,
    fromaddresses: JsonValue,
    toaddress: String,
    limit: Option<u32>,
    memo: Option<Result<MemoBytes, RpcError>>,
    import_keys: bool,
    property: spec_fn(Question) -> bool,
)
    requires
        forall|q: Question| #[trigger] property(q) ==> comes_late(q),
    ensures
        asks(world, called(to, network, fromaddresses, toaddress, limit, memo, import_keys), property)
            == match call_source(world, to, network, fromaddresses, toaddress, limit, memo, import_keys) {
            None => false,
            Some(source) => is_accounted(world, source) && asks(world, numbered(world, source), property),
        },
{
    reveal_with_fuel(asks, 3);
    if let Ok(order) = order_of(to, network, toaddress, limit, memo, import_keys) {
        match fromaddresses {
            JsonValue::String(text) => {
                if let Ok(source) = account_source(world, order, text) {
                    lemma_source_late(world, source, property);
                }
            },
            JsonValue::Array(entries) => {
                lemma_scan_late(world, order, entries, 0, None, property);
                if let Ok(source) = array_source(world, order, entries, 0, None) {
                    lemma_source_late(world, source, property);
                }
            },
            JsonValue::Other => {},
        }
    }
}

/// No seed and no key is decrypted for a call whose pre-flight numbers cannot be
/// answered, or whose account has no derivation.
pub proof fn law_secrets_come_last(
    world: World,
    to: Option<ZcashAddress>,
    network: Network,
    fromaddresses: JsonValue,
    toaddress: String,
    limit: Option<u32>,
    memo: Option<Result<MemoBytes, RpcError>>,
    import_keys: bool,
    i: int,
)
    requires
        0 <= i < asked(world, called(to, network, fromaddresses, toaddress, limit, memo, import_keys)).len(),
        is_secret(asked(world, called(to, network, fromaddresses, toaddress, limit, memo, import_keys))[i]),
    ensures
        call_source(world, to, network, fromaddresses, toaddress, limit, memo, import_keys) matches Some(source) && {
            &&& is_accounted(world, source)
            &&& derivation_of(world, source)->Ok_0 is Some
        },
{
    let property = |q: Question| is_secret(q);
    let start = called(to, network, fromaddresses, toaddress, limit, memo, import_keys);
    assert(property(asked(world, start)[i]));
    lemma_asks(world, start, property);
    lemma_call_late(world, to, network, fromaddresses, toaddress, limit, memo, import_keys, property);
    reveal_with_fuel(asks, 3);
}

proof fn lemma_keys_warn_not(
    world: World,
    source: SourceView,
    proposal: Proposal,
    preflight: Numbers,
    usk: UnifiedSpendingKey,
    pending: Seq<TransparentAddress>,
    next: nat,
    keys: Map<TransparentAddress, Seq<SecretKey>>,
    property: spec_fn(Question) -> bool,
)
    requires
        forall|q: Question| #[trigger] property(q) ==> q is Warning,
    ensures
        !asks(world, keys_asked(source, proposal, preflight, usk, pending, next, keys), property),
    decreases pending.len() - next,
{
    reveal_with_fuel(asks, 2);
    if next < pending.len() {
        if let Ok(k) = (world.key)(next, pending[next as int]) {
            lemma_keys_warn_not(
                world,
                source,
                proposal,
                preflight,
                usk,
                pending,
                next + 1,
                with_key(keys, pending[next as int], k),
                property,
            );
        }
    }
}

proof fn lemma_wanted_warn_not(
    world: World,
    source: SourceView,
    derivation: Option<KeyDerivation>,
    proposal: Proposal,
    preflight: Numbers,
    property: spec_fn(Question) -> bool,
)
    requires
        forall|q: Question| #[trigger] property(q) ==> q is Warning,
    ensures
        !asks(world, keys_wanted(source, derivation, proposal, preflight), property),
{
    reveal_with_fuel(asks, 3);
    if let Some(d) = derivation {
        if let Ok(seed) = (world.seed)(d.fingerprint()) {
            if let Ok(usk) = spending_key(source.order.network.network_type(), seed, d.index()) {
                if let Ok(receivers) = (world.sources)(all_receivers(source.account)) {
                    lemma_keys_warn_not(
                        world,
                        source,
                        proposal,
                        preflight,
                        usk,
                        keys_for(proposal.inputs(), standalone(receivers@)),
                        0,
                        Map::empty(),
                        property,
                    );
                }
            }
        }
    }
}

/// A call warns exactly when its pre-flight numbers can be answered and more inputs
/// were selected than the threshold.
pub proof fn law_warned_above_threshold(
    world: World,
    to: Option<ZcashAddress>,
    network: Network,
    fromaddresses: JsonValue,
    toaddress: String,
    limit: Option<u32>,
    memo: Option<Result<MemoBytes, RpcError>>,
    import_keys: bool,
)
    ensures
        (exists|i: int|
            0 <= i < asked(
                world,
                called(to, network, fromaddresses, toaddress, limit, memo, import_keys),
            ).len() && (#[trigger] asked(
                world,
                called(to, network, fromaddresses, toaddress, limit, memo, import_keys),
            )[i]) is Warning) <==> (call_source(
            world,
            to,
            network,
            fromaddresses,
            toaddress,
            limit,
            memo,
            import_keys,
        ) matches Some(source) && {
            &&& is_accounted(world, source)
            &&& numbers_of(
                world,
                source,
                confirmations_of(world)->Ok_0,
                proposal_of(world, source)->Ok_0,
            )->Ok_0.shielding.utxos > COINBASE_INPUTS_WARN_THRESHOLD
        }),
{
    let property = |q: Question| q is Warning;
    let start = called(to, network, fromaddresses, toaddress, limit, memo, import_keys);
    lemma_asks(world, start, property);
    lemma_call_late(world, to, network, fromaddresses, toaddress, limit, memo, import_keys, property);
    if let Some(source) = call_source(
        world,
        to,
        network,
        fromaddresses,
        toaddress,
        limit,
        memo,
        import_keys,
    ) {
        if is_accounted(world, source) {
            let proposal = proposal_of(world, source)->Ok_0;
            lemma_wanted_warn_not(
                world,
                source,
                derivation_of(world, source)->Ok_0,
                proposal,
                numbers_of(world, source, confirmations_of(world)->Ok_0, proposal)->Ok_0,
                property,
            );
        }
    }
    if asks(world, start, property) {
        let i = choose|i: int| 0 <= i < asked(world, start).len() && property(#[trigger] asked(world, start)[i]);
        assert(asked(world, start)[i] is Warning);
    }
    if exists|i: int| 0 <= i < asked(world, start).len() && (#[trigger] asked(world, start)[i]) is Warning {
        let i = choose|i: int| 0 <= i < asked(world, start).len() && (#[trigger] asked(world, start)[i]) is Warning;
        assert(property(asked(world, start)[i]));
    }
}

/// What a call may ask of the wallet: nothing but coinbase outputs, all receivers, and
/// that a proposal reveal no more than its senders.
pub open spec fn is_proper(q: Question) -> bool {
    match q {
        Question::Receivers(query) => query.include_change && query.include_standalone,
        Question::Sources(query) => query.include_change && query.include_standalone,
        Question::Privacy(_, policy) => policy == PrivacyPolicy::AllowRevealedSenders,
        Question::Outputs(query) => query.filter == OutputFilter::CoinbaseOnly,
        Question::Proposal(terms) => terms.shielding_threshold == 0,
        _ => true,
    }
}

/// From any step on, a call asks only what it may: only coinbase outputs count as
/// eligible, and no call opts into revealing more than its senders.
pub proof fn law_asks_properly(world: World, step: StepView)
    ensures
        forall|i: int| 0 <= i < asked(world, step).len() ==> is_proper(#[trigger] asked(world, step)[i]),
    decreases stages_left(step), repeats_left(step),
{
    if let Some(q) = question(step) {
        law_call_ends(world, step);
        law_asks_properly(world, answered(world, step));
        let rest = asked(world, answered(world, step));
        assert forall|i: int| 0 <= i < asked(world, step).len() implies is_proper(#[trigger] asked(world, step)[i]) by {
            if i > 0 {
                assert(asked(world, step)[i] == rest[i - 1]);
            }
        }
    }
}

proof fn lemma_owner_not_later(world: World, step: StepView, property: spec_fn(Question) -> bool)
    requires
        stages_left(step) <= 9,
        forall|q: Question| #[trigger] property(q) ==> q is Owner,
    ensures
        !asks(world, step, property),
    decreases stages_left(step), repeats_left(step),
{
    if question(step) is Some {
        law_call_ends(world, step);
        lemma_owner_not_later(world, answered(world, step), property);
    }
}

proof fn lemma_found_not_asked(
    world: World,
    order: Order,
    entries: Vec<JsonValue>,
    next: nat,
    found: Option<FoundView>,
    address: TransparentAddress,
    property: spec_fn(Question) -> bool,
)
    requires
        is_found(found, address),
        forall|q: Question| #[trigger] property(q) ==> q == Question::Owner(address),
    ensures
        !asks(world, scanned(order, entries, next, found), property),
    decreases entries@.len() - next,
{
    reveal_with_fuel(asks, 2);
    lemma_scanned(order, entries, next, found);
    if next >= entries@.len() {
        lemma_owner_not_later(world, scanned(order, entries, next, found), property);
    } else if let Ok(here) = entry_address(order.network.network_type(), entries@[next as int]) {
        if is_found(found, here) {
            lemma_found_not_asked(world, order, entries, next + 1, found, address, property);
        } else if let Ok(Some(account)) = (world.owner)(here) {
            let f = found->0;
            let longer = f.from_addrs.push(here);
            let k = choose|k: int| 0 <= k < f.from_addrs.len() && f.from_addrs[k] == address;
            assert(longer[k] == address);
            lemma_found_not_asked(
                world,
                order,
                entries,
                next + 1,
                Some(with_address(found, account, here)),
                address,
                property,
            );
        }
    }
}

proof fn lemma_owners_distinct(
    world: World,
    order: Order,
    entries: Vec<JsonValue>,
    next: nat,
    found: Option<FoundView>,
)
    ensures
        forall|i: int, j: int|
            0 <= i < j < asked(world, scanned(order, entries, next, found)).len() && (#[trigger] asked(
                world,
                scanned(order, entries, next, found),
            )[i]) is Owner ==> asked(world, scanned(order, entries, next, found))[i] != #[trigger] asked(
                world,
                scanned(order, entries, next, found),
            )[j],
    decreases entries@.len() - next,
{
    let step = scanned(order, entries, next, found);
    lemma_scanned(order, entries, next, found);
    let owners = |q: Question| q is Owner;
    if stages_left(step) <= 9 {
        lemma_owner_not_later(world, step, owners);
        lemma_asks(world, step, owners);
        assert forall|i: int, j: int|
            0 <= i < j < asked(world, step).len() && (#[trigger] asked(world, step)[i]) is Owner implies asked(
            world,
            step,
        )[i] != #[trigger] asked(world, step)[j] by {
            assert(owners(asked(world, step)[i]));
        }
    } else {
        let address = entry_address(order.network.network_type(), entries@[next as int])->Ok_0;
        if is_found(found, address) {
            lemma_owners_distinct(world, order, entries, next + 1, found);
        } else {
            let rest_step = answered(world, step);
            let rest = asked(world, rest_step);
            assert(asked(world, step) =~= seq![Question::Owner(address)] + rest);
            if stages_left(rest_step) > 0 {
                let account = (world.owner)(address)->Ok_0->0;
                let grown = with_address(found, account, address);
                assert(grown.from_addrs[grown.from_addrs.len() - 1] == address);
                let same = |q: Question| q == Question::Owner(address);
                lemma_found_not_asked(world, order, entries, next + 1, Some(grown), address, same);
                lemma_asks(world, rest_step, same);
                lemma_owners_distinct(world, order, entries, next + 1, Some(grown));
                assert forall|i: int, j: int|
                    0 <= i < j < asked(world, step).len() && (#[trigger] asked(world, step)[i]) is Owner implies asked(
                    world,
                    step,
                )[i] != #[trigger] asked(world, step)[j] by {
                    assert(asked(world, step)[j] == rest[j - 1]);
                    if i == 0 {
                        assert(!same(rest[j - 1]));
                    } else {
                        assert(asked(world, step)[i] == rest[i - 1]);
                    }
                }
            }
        }
    }
}

/// However often an address stands in an array, the wallet is asked at most once who
/// owns it.
pub proof fn law_owner_asked_once(world: World, order: Order, entries: Vec<JsonValue>, i: int, j: int)
    requires
        0 <= i < j < asked(world, scanned(order, entries, 0, None)).len(),
        asked(world, scanned(order, entries, 0, None))[i] is Owner,
    ensures
        asked(world, scanned(order, entries, 0, None))[i] != asked(world, scanned(order, entries, 0, None))[j],
{
    lemma_owners_distinct(world, order, entries, 0, None);
}

proof fn lemma_key_pending(
    world: World,
    source: SourceView,
    proposal: Proposal,
    preflight: Numbers,
    usk: UnifiedSpendingKey,
    pending: Seq<TransparentAddress>,
    next: nat,
    keys: Map<TransparentAddress, Seq<SecretKey>>,
    address: TransparentAddress,
    property: spec_fn(Question) -> bool,
)
    requires
        forall|q: Question| #[trigger] property(q) ==> q == Question::Key(address),
        asks(world, keys_asked(source, proposal, preflight, usk, pending, next, keys), property),
    ensures
        pending.contains(address),
    decreases pending.len() - next,
{
    reveal_with_fuel(asks, 2);
    if next < pending.len() {
        if property(Question::Key(pending[next as int])) {
            assert(pending[next as int] == address);
        } else if let Ok(k) = (world.key)(next, pending[next as int]) {
            lemma_key_pending(
                world,
                source,
                proposal,
                preflight,
                usk,
                pending,
                next + 1,
                with_key(keys, pending[next as int], k),
                address,
                property,
            );
        }
    }
}

/// The keystore is asked for a key of its own only for an address that an input of the
/// proposal pays to and that the account has not derived; and only where such keys can
/// be held at all.
pub proof fn law_keys_asked(
    world: World,
    to: Option<ZcashAddress>,
    network: Network,
    fromaddresses: JsonValue,
    toaddress: String,
    limit: Option<u32>,
    memo: Option<Result<MemoBytes, RpcError>>,
    import_keys: bool,
    i: int,
    address: TransparentAddress,
)
    requires
        0 <= i < asked(world, called(to, network, fromaddresses, toaddress, limit, memo, import_keys)).len(),
        asked(world, called(to, network, fromaddresses, toaddress, limit, memo, import_keys))[i] == Question::Key(
            address,
        ),
    ensures
        call_source(world, to, network, fromaddresses, toaddress, limit, memo, import_keys) matches Some(source) && {
            &&& import_keys
            &&& is_accounted(world, source)
            &&& (world.sources)(all_receivers(source.account)) is Ok
            &&& keys_for(
                proposal_of(world, source)->Ok_0.inputs(),
                standalone((world.sources)(all_receivers(source.account))->Ok_0@),
            ).contains(address)
        },
{
    let property = |q: Question| q == Question::Key(address);
    let start = called(to, network, fromaddresses, toaddress, limit, memo, import_keys);
    assert(property(asked(world, start)[i]));
    lemma_asks(world, start, property);
    lemma_call_late(world, to, network, fromaddresses, toaddress, limit, memo, import_keys, property);
    let source = call_source(
        world,
        to,
        network,
        fromaddresses,
        toaddress,
        limit,
        memo,
        import_keys,
    )->0;
    if let Ok(order) = order_of(to, network, toaddress, limit, memo, import_keys) {
        crate::laws::law_source(world, order, fromaddresses);
    }
    reveal_with_fuel(asks, 4);
    let derivation = derivation_of(world, source)->Ok_0;
    let proposal = proposal_of(world, source)->Ok_0;
    let preflight = numbers_of(world, source, confirmations_of(world)->Ok_0, proposal)->Ok_0;
    if let Some(d) = derivation {
        if let Ok(seed) = (world.seed)(d.fingerprint()) {
            if let Ok(usk) = spending_key(source.order.network.network_type(), seed, d.index()) {
                if let Ok(receivers) = (world.sources)(all_receivers(source.account)) {
                    let pending = keys_for(proposal.inputs(), standalone(receivers@));
                    if asks(world, keys_asked(source, proposal, preflight, usk, pending, 0, Map::empty()), property) {
                        lemma_key_pending(
                            world,
                            source,
                            proposal,
                            preflight,
                            usk,
                            pending,
                            0,
                            Map::empty(),
                            address,
                            property,
                        );
                    }
                }
            }
        }
    }
}

} // verus!
