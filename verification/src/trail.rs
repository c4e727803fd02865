//! A call from its parameters to what it asks for and how it ends.

use secp256k1::SecretKey;
use vstd::prelude::*;
use zcash_address::ZcashAddress;
use zcash_client_backend::data_api::wallet::ConfirmationsPolicy;
use zcash_keys::keys::UnifiedSpendingKey;
use zcash_protocol::memo::MemoBytes;

use crate::address::{Network, TransparentAddress};
use crate::asking::{asks, call_source, lemma_asks};
use crate::call::{
    all_receivers, called, coinbase_outputs, keys_wanted, outputs_asked, shielding_terms, totals_known, PrivacyPolicy,
};
use crate::collect::{keys_asked, keys_for, standalone};
use crate::error::{ErrorReply, RpcError};
use crate::json::JsonValue;
use crate::keys::{spending_key, with_key, KeyDerivation};
use crate::outcome::{
    array_source, call_outcome, derivation_of, eligible_from, eligible_of, law_call, order_of,
};
use crate::preflight::{accounted, Numbers, COINBASE_INPUTS_WARN_THRESHOLD};
use crate::proposal::{selected, with_outputs, Proposal, Sum};
use crate::resolve::{entry_address, is_found, scanned, with_address};
use crate::step::{FoundView, Order, ReadyView, SourceView, StepView};
use crate::world::{asked, outcome, Question, World};

verus! {

/// A call, with the address that its destination stands for and what was made of its
/// memo.
pub ghost struct Call {
    pub to: Option<ZcashAddress>,
    pub network: Network,
    pub fromaddresses: JsonValue,
    pub toaddress: String,
    pub limit: Option<u32>,
    pub memo: Option<Result<MemoBytes, RpcError>>,
    pub import_keys: bool,
}

impl Call {
    /// The first step of the call.
    pub open spec fn start(self) -> StepView {
        called(
            self.to,
            self.network,
            self.fromaddresses,
            self.toaddress,
            self.limit,
            self.memo,
            self.import_keys,
        )
    }
}

/// What a call asks for, in order.
pub open spec fn trail(world: World, call: Call) -> Seq<Question> {
    asked(world, call.start())
}

/// How a call ends.
pub open spec fn ending(world: World, call: Call) -> Result<ReadyView, ErrorReply> {
    outcome(world, call.start())
}

/// The source of a call, if it has one.
pub open spec fn drawn_from(world: World, call: Call) -> Option<SourceView> {
    call_source(
        world,
        call.to,
        call.network,
        call.fromaddresses,
        call.toaddress,
        call.limit,
        call.memo,
        call.import_keys,
    )
}

/// A call ends as its answers have it.
pub proof fn lemma_ending(world: World, call: Call)
    ensures
        ending(world, call) == call_outcome(
            world,
            call.to,
            call.network,
            call.fromaddresses,
            call.toaddress,
            call.limit,
            call.memo,
            call.import_keys,
        ),
{
    law_call(
        world,
        call.to,
        call.network,
        call.fromaddresses,
        call.toaddress,
        call.limit,
        call.memo,
        call.import_keys,
    );
}

/// Whether a question serves to find the source.
pub open spec fn is_first(q: Question) -> bool {
    q is Known || q is Receivers || q is Owner
}

proof fn lemma_scan_asks(
    world: World,
    order: Order,
    entries: Vec<JsonValue>,
    next: nat,
    found: Option<FoundView>,
    property: spec_fn(Question) -> bool,
)
    requires
        forall|q: Question| #[trigger] property(q) ==> !is_first(q),
    ensures
        asks(world, scanned(order, entries, next, found), property) == match array_source(
            world,
            order,
            entries,
            next,
            found,
        ) {
            Err(_) => false,
            Ok(source) => asks(world, StepView::FetchAccount { source }, property),
        },
    decreases entries@.len() - next,
{
    reveal_with_fuel(asks, 2);
    if next < entries@.len() {
        if let Ok(address) = entry_address(order.network.network_type(), entries@[next as int]) {
            if is_found(found, address) {
                lemma_scan_asks(world, order, entries, next + 1, found, property);
            } else if let Ok(Some(account)) = (world.owner)(address) {
                lemma_scan_asks(
                    world,
                    order,
                    entries,
                    next + 1,
                    Some(with_address(found, account, address)),
                    property,
                );
            }
        }
    }
}

proof fn lemma_call_asks(world: World, call: Call, property: spec_fn(Question) -> bool)
    requires
        forall|q: Question| #[trigger] property(q) ==> !is_first(q),
    ensures
        asks(world, call.start(), property) == match drawn_from(world, call) {
            None => false,
            Some(source) => asks(world, StepView::FetchAccount { source }, property),
        },
{
    reveal_with_fuel(asks, 3);
    if let Ok(order) = order_of(
        call.to,
        call.network,
        call.toaddress,
        call.limit,
        call.memo,
        call.import_keys,
    ) {
        if let JsonValue::Array(entries) = call.fromaddresses {
            lemma_scan_asks(world, order, entries, 0, None, property);
        }
    }
}

proof fn lemma_outputs_asks(
    world: World,
    source: SourceView,
    derivation: Option<KeyDerivation>,
    confirmations: ConfirmationsPolicy,
    proposal: Proposal,
    shielding: Sum,
    eligible: Sum,
    next: nat,
    property: spec_fn(Question) -> bool,
)
    requires
        forall|q: Question| #[trigger] property(q) ==> !(q is Outputs),
    ensures
        asks(
            world,
            outputs_asked(source, derivation, confirmations, proposal, shielding, eligible, next),
            property,
        ) == match eligible_from(world, source, confirmations, proposal, next, eligible) {
            Err(_) => false,
            Ok(sum) => asks(world, totals_known(source, derivation, proposal, shielding, sum), property),
        },
    decreases source.from_addrs.len() - next,
{
    reveal_with_fuel(asks, 2);
    if next < source.from_addrs.len() {
        let query = coinbase_outputs(source.from_addrs[next as int], proposal, confirmations);
        if let Ok(outputs) = (world.outputs)(next, query) {
            if let Ok(sum) = with_outputs(eligible, outputs@) {
                lemma_outputs_asks(
                    world,
                    source,
                    derivation,
                    confirmations,
                    proposal,
                    shielding,
                    sum,
                    next + 1,
                    property,
                );
            }
        }
    }
}

proof fn lemma_keys_ask_keys(
    world: World,
    source: SourceView,
    proposal: Proposal,
    preflight: Numbers,
    usk: UnifiedSpendingKey,
    pending: Seq<TransparentAddress>,
    next: nat,
    keys: Map<TransparentAddress, Seq<SecretKey>>,
    property: spec_fn(Question) -> bool,
)
    requires
        forall|q: Question| #[trigger] property(q) ==> !(q is Key),
    ensures
        !asks(world, keys_asked(source, proposal, preflight, usk, pending, next, keys), property),
    decreases pending.len() - next,
{
    reveal_with_fuel(asks, 2);
    if next < pending.len() {
        if let Ok(k) = (world.key)(next, pending[next as int]) {
            lemma_keys_ask_keys(
                world,
                source,
                proposal,
                preflight,
                usk,
                pending,
                next + 1,
                with_key(keys, pending[next as int], k),
                property,
            );
        }
    }
}

/// Whether a question comes up once keys are wanted.
pub open spec fn wanted_tail(
    world: World,
    source: SourceView,
    derivation: Option<KeyDerivation>,
    q: Question,
) -> bool {
    derivation matches Some(d) && {
        ||| q == Question::Seed(d.fingerprint())
        ||| (world.seed)(d.fingerprint()) matches Ok(seed) && {
            &&& spending_key(source.order.network.network_type(), seed, d.index()) is Ok
            &&& source.order.import_keys
            &&& q == Question::Sources(all_receivers(source.account))
        }
    }
}

proof fn lemma_wanted_tail(
    world: World,
    source: SourceView,
    derivation: Option<KeyDerivation>,
    proposal: Proposal,
    preflight: Numbers,
    q: Question,
)
    requires
        !(q is Key),
    ensures
        asks(world, keys_wanted(source, derivation, proposal, preflight), |x: Question| x == q) == wanted_tail(
            world,
            source,
            derivation,
            q,
        ),
{
    let property = |x: Question| x == q;
    reveal_with_fuel(asks, 3);
    if let Some(d) = derivation {
        if let Ok(seed) = (world.seed)(d.fingerprint()) {
            if let Ok(usk) = spending_key(source.order.network.network_type(), seed, d.index()) {
                if let Ok(receivers) = (world.sources)(all_receivers(source.account)) {
                    lemma_keys_ask_keys(
                        world,
                        source,
                        proposal,
                        preflight,
                        usk,
                        keys_for(proposal.inputs(), standalone(receivers@)),
                        0,
                        Map::empty(),
                        property,
                    );
                }
            }
        }
    }
}

/// Whether a question comes up once the pre-flight numbers can be computed.
pub open spec fn numbers_tail(
    world: World,
    source: SourceView,
    derivation: Option<KeyDerivation>,
    confirmations: ConfirmationsPolicy,
    proposal: Proposal,
    q: Question,
) -> bool {
    eligible_of(world, source, confirmations, proposal) matches Ok(eligible) && accounted(
        eligible,
        selected(proposal)->Ok_0,
    ) matches Ok(preflight) && {
        ||| preflight.shielding.utxos > COINBASE_INPUTS_WARN_THRESHOLD && q == Question::Warning(preflight)
        ||| wanted_tail(world, source, derivation, q)
    }
}

proof fn lemma_numbers_tail(
    world: World,
    source: SourceView,
    derivation: Option<KeyDerivation>,
    confirmations: ConfirmationsPolicy,
    proposal: Proposal,
    q: Question,
)
    requires
        selected(proposal) is Ok,
        !(q is Outputs),
        !(q is Key),
    ensures
        asks(
            world,
            outputs_asked(
                source,
                derivation,
                confirmations,
                proposal,
                selected(proposal)->Ok_0,
                Sum { utxos: 0, value: 0 },
                0,
            ),
            |x: Question| x == q,
        ) == numbers_tail(world, source, derivation, confirmations, proposal, q),
{
    let property = |x: Question| x == q;
    let shielding = selected(proposal)->Ok_0;
    lemma_outputs_asks(
        world,
        source,
        derivation,
        confirmations,
        proposal,
        shielding,
        Sum { utxos: 0, value: 0 },
        0,
        property,
    );
    if let Ok(eligible) = eligible_of(world, source, confirmations, proposal) {
        if let Ok(preflight) = accounted(eligible, shielding) {
            lemma_wanted_tail(world, source, derivation, proposal, preflight, q);
            reveal_with_fuel(asks, 2);
        }
    }
}

/// Whether a question comes up once the source is known.
pub open spec fn source_tail(world: World, source: SourceView, q: Question) -> bool {
    ||| q == Question::Account(source.account)
    ||| derivation_of(world, source) matches Ok(derivation) && {
        ||| q is Confirmations
        ||| world.confirmations matches Some(confirmations) && {
            ||| q == Question::Proposal(shielding_terms(source))
            ||| (world.proposal)(shielding_terms(source)) matches Ok(proposal) && {
                ||| q == Question::Privacy(proposal, PrivacyPolicy::AllowRevealedSenders)
                ||| (world.privacy)(proposal, PrivacyPolicy::AllowRevealedSenders) is Ok && selected(
                    proposal,
                ) is Ok && numbers_tail(world, source, derivation, confirmations, proposal, q)
            }
        }
    }
}

proof fn lemma_source_tail(world: World, source: SourceView, q: Question)
    requires
        !(q is Outputs),
        !(q is Key),
    ensures
        asks(world, StepView::FetchAccount { source }, |x: Question| x == q) == source_tail(world, source, q),
{
    reveal_with_fuel(asks, 5);
    if let Ok(derivation) = derivation_of(world, source) {
        if let Some(confirmations) = world.confirmations {
            if let Ok(proposal) = (world.proposal)(shielding_terms(source)) {
                if selected(proposal) is Ok {
                    lemma_numbers_tail(world, source, derivation, confirmations, proposal, q);
                }
            }
        }
    }
}

/// Which questions a call asks, beside those that find the source and those that come
/// one by one.
pub proof fn lemma_trail(world: World, call: Call, q: Question)
    requires
        !is_first(q),
        !(q is Outputs),
        !(q is Key),
    ensures
        trail(world, call).contains(q) == match drawn_from(world, call) {
            None => false,
            Some(source) => source_tail(world, source, q),
        },
{
    let property = |x: Question| x == q;
    let list = trail(world, call);
    lemma_asks(world, call.start(), property);
    lemma_call_asks(world, call, property);
    if let Some(source) = drawn_from(world, call) {
        lemma_source_tail(world, source, q);
    }
    if list.contains(q) {
        let i = choose|i: int| 0 <= i < list.len() && list[i] == q;
        assert(property(list[i]));
    }
    if asks(world, call.start(), property) {
        let i = choose|i: int| 0 <= i < list.len() && property(#[trigger] list[i]);
        assert(list[i] == q);
    }
}

} // verus!
