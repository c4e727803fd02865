//! How a call finds out what is eligible.

use vstd::prelude::*;
use zcash_address::ZcashAddress;
use zcash_client_backend::data_api::wallet::ConfirmationsPolicy;
use zcash_protocol::memo::MemoBytes;

use crate::address::{Network, TransparentAddress};
use crate::asking::call_source;
use crate::call::{called, coinbase_outputs, outputs_asked};
use crate::error::{ErrorReply, RpcError};
use crate::json::JsonValue;
use crate::keys::KeyDerivation;
use crate::outcome::{
    array_source, confirmations_of, derivation_of, eligible_from, eligible_of, order_of, proposal_of,
};
use crate::proposal::{selected, with_outputs, Proposal, Sum};
use crate::resolve::{entry_address, is_found, scanned, with_address};
use crate::step::{FoundView, Order, SourceView, StepView};
use crate::world::{answered, asked, law_call_ends, question, repeats_left, stages_left, Question, World};

verus! {

/// The questions about the outputs of an address, in order.
pub open spec fn about_outputs(questions: Seq<Question>) -> Seq<Question> {
    questions.filter(|q: Question| q is Outputs)
}

/// The questions that make up all that is eligible: one for each source address, in
/// order, about its coinbase outputs at the height of the proposal and under the
/// confirmations policy.
pub open spec fn eligible_questions(
    source: SourceView,
    confirmations: ConfirmationsPolicy,
    proposal: Proposal,
) -> Seq<Question> {
    source.from_addrs.map_values(
        |address: TransparentAddress| Question::Outputs(coinbase_outputs(address, proposal, confirmations)),
    )
}

proof fn lemma_about_outputs(world: World, step: StepView)
    requires
        question(step) is Some,
    ensures
        about_outputs(asked(world, step)) == (if question(step)->0 is Outputs {
            seq![question(step)->0]
        } else {
            Seq::empty()
        }) + about_outputs(asked(world, answered(world, step))),
{
    let first = seq![question(step)->0];
    let rest = asked(world, answered(world, step));
    assert(asked(world, step) == first + rest);
    Seq::filter_distributes_over_add(first, rest, |q: Question| q is Outputs);
    reveal_with_fuel(Seq::filter, 2);
    assert(first.drop_last() =~= Seq::<Question>::empty());
    assert(about_outputs(first) =~= if question(step)->0 is Outputs {
        first
    } else {
        Seq::empty()
    });
}

proof fn lemma_no_outputs_later(world: World, step: StepView)
    requires
        stages_left(step) <= 4,
    ensures
        about_outputs(asked(world, step)) == Seq::<Question>::empty(),
    decreases stages_left(step), repeats_left(step),
{
    if question(step) is Some {
        law_call_ends(world, step);
        lemma_about_outputs(world, step);
        lemma_no_outputs_later(world, answered(world, step));
    } else {
        reveal(Seq::filter);
    }
}

proof fn lemma_outputs_in_order(
    world: World,
    source: SourceView,
    derivation: Option<KeyDerivation>,
    confirmations: ConfirmationsPolicy,
    proposal: Proposal,
    shielding: Sum,
    eligible: Sum,
    next: nat,
)
    requires
        next <= source.from_addrs.len(),
        eligible_from(world, source, confirmations, proposal, next, eligible) is Ok,
    ensures
        about_outputs(
            asked(world, outputs_asked(source, derivation, confirmations, proposal, shielding, eligible, next)),
        ) == eligible_questions(source, confirmations, proposal).skip(next as int),
    decreases source.from_addrs.len() - next,
{
    let step = outputs_asked(source, derivation, confirmations, proposal, shielding, eligible, next);
    let all = eligible_questions(source, confirmations, proposal);
    if next < source.from_addrs.len() {
        let query = coinbase_outputs(source.from_addrs[next as int], proposal, confirmations);
        let outputs = (world.outputs)(next, query)->Ok_0;
        let sum = with_outputs(eligible, outputs@)->Ok_0;
        lemma_about_outputs(world, step);
        lemma_outputs_in_order(
            world,
            source,
            derivation,
            confirmations,
            proposal,
            shielding,
            sum,
            next + 1,
        );
        assert(all.skip(next as int) =~= seq![all[next as int]] + all.skip(next as int + 1));
    } else {
        lemma_no_outputs_later(world, step);
        assert(all.skip(next as int) =~= Seq::<Question>::empty());
    }
}

proof fn lemma_scan_outputs(
    world: World,
    order: Order,
    entries: Vec<JsonValue>,
    next: nat,
    found: Option<FoundView>,
)
    ensures
        array_source(world, order, entries, next, found) matches Ok(source) ==> about_outputs(
            asked(world, scanned(order, entries, next, found)),
        ) == about_outputs(asked(world, StepView::FetchAccount { source })),
    decreases entries@.len() - next,
{
    if next < entries@.len() {
        if let Ok(address) = entry_address(order.network.network_type(), entries@[next as int]) {
            if is_found(found, address) {
                lemma_scan_outputs(world, order, entries, next + 1, found);
            } else if let Ok(Some(account)) = (world.owner)(address) {
                lemma_about_outputs(world, scanned(order, entries, next, found));
                lemma_scan_outputs(
                    world,
                    order,
                    entries,
                    next + 1,
                    Some(with_address(found, account, address)),
                );
            }
        }
    }
}

proof fn lemma_source_outputs(
    world: World,
    source: SourceView,
    confirmations: ConfirmationsPolicy,
    proposal: Proposal,
)
    requires
        derivation_of(world, source) is Ok,
        confirmations_of(world) == Ok::<ConfirmationsPolicy, ErrorReply>(confirmations),
        proposal_of(world, source) == Ok::<Proposal, ErrorReply>(proposal),
        selected(proposal) is Ok,
        eligible_of(world, source, confirmations, proposal) is Ok,
    ensures
        about_outputs(asked(world, StepView::FetchAccount { source })) == eligible_questions(
            source,
            confirmations,
            proposal,
        ),
{
    let derivation = derivation_of(world, source)->Ok_0;
    let shielding = selected(proposal)->Ok_0;
    lemma_about_outputs(world, StepView::FetchAccount { source });
    lemma_about_outputs(world, StepView::ReadConfirmations { source, derivation });
    lemma_about_outputs(world, StepView::Propose { source, derivation, confirmations });
    lemma_about_outputs(world, StepView::EnforcePrivacy { source, derivation, confirmations, proposal });
    lemma_outputs_in_order(
        world,
        source,
        derivation,
        confirmations,
        proposal,
        shielding,
        Sum { utxos: 0, value: 0 },
        0,
    );
    let all = eligible_questions(source, confirmations, proposal);
    assert(all.skip(0) =~= all);
}

/// When a call finds out what is eligible, it asks about the outputs of each source
/// address exactly once, in order, and about no other: each time about the coinbase
/// outputs at the height of the proposal and under the configured confirmations policy.
pub proof fn law_eligible_asked(
    world: World,
    to: Option<ZcashAddress>,
    network: Network,
    fromaddresses: JsonValue,
    toaddress: String,
    limit: Option<u32>,
    memo: Option<Result<MemoBytes, RpcError>>,
    import_keys: bool,
    source: SourceView,
    confirmations: ConfirmationsPolicy,
    proposal: Proposal,
)
    requires
        call_source(world, to, network, fromaddresses, toaddress, limit, memo, import_keys) == Some(source),
        derivation_of(world, source) is Ok,
        confirmations_of(world) == Ok::<ConfirmationsPolicy, ErrorReply>(confirmations),
        proposal_of(world, source) == Ok::<Proposal, ErrorReply>(proposal),
        selected(proposal) is Ok,
        eligible_of(world, source, confirmations, proposal) is Ok,
    ensures
        about_outputs(
            asked(world, called(to, network, fromaddresses, toaddress, limit, memo, import_keys)),
        ) == eligible_questions(source, confirmations, proposal),
{
    let order = order_of(to, network, toaddress, limit, memo, import_keys)->Ok_0;
    match fromaddresses {
        JsonValue::String(text) => {
            let start = called(to, network, fromaddresses, toaddress, limit, memo, import_keys);
            lemma_about_outputs(world, start);
            lemma_about_outputs(world, answered(world, start));
        },
        JsonValue::Array(entries) => {
            lemma_scan_outputs(world, order, entries, 0, None);
        },
        JsonValue::Other => {},
    }
    lemma_source_outputs(world, source, confirmations, proposal);
}

} // verus!
