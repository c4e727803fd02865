//! The questions that a call asks one by one: about the outputs of its source addresses.

use vstd::prelude::*;
use zcash_client_backend::data_api::wallet::ConfirmationsPolicy;

use crate::amount::{lemma_total_concat, total, MAX_MONEY};
use crate::books::{held, holdings, lemma_books, spent_value};
use crate::call::{
    coinbase_outputs, outputs_asked, shielding_terms, OutputFilter, OutputQuery, PrivacyPolicy,
    ProposalTermsView,
};
use crate::json::JsonValue;
use crate::keys::KeyDerivation;
use crate::laws::{lemma_outputs_grow, outputs_at, outputs_of};
use crate::outcome::{array_source, confirmations_of, derivation_of, order_of, proposal_of};
use crate::proposal::{selected, with_outputs, Proposal, Sum};
use crate::resolve::{entry_address, is_found, scanned, with_address};
use crate::step::{FoundView, Order, SourceView, StepView};
use crate::trail::{drawn_from, is_first, lemma_trail, trail, Call};
use crate::world::{
    answered, asked, law_call_ends, question, repeats_left, stages_left, Question, World,
};

verus! {

/// The questions with a property that a call asks from a step on, in order.
pub open spec fn picked(world: World, step: StepView, property: spec_fn(Question) -> bool) -> Seq<Question> {
    asked(world, step).filter(property)
}

pub(crate) proof fn lemma_picked(world: World, step: StepView, property: spec_fn(Question) -> bool)
    ensures
        picked(world, step, property) == match question(step) {
            None => Seq::<Question>::empty(),
            Some(q) => (if property(q) {
                seq![q]
            } else {
                Seq::empty()
            }) + picked(world, answered(world, step), property),
        },
{
    reveal_with_fuel(Seq::filter, 2);
    if let Some(q) = question(step) {
        let first = seq![q];
        let rest = asked(world, answered(world, step));
        assert(asked(world, step) == first + rest);
        Seq::filter_distributes_over_add(first, rest, property);
        assert(first.drop_last() =~= Seq::<Question>::empty());
        assert(first.filter(property) =~= if property(q) {
            first
        } else {
            Seq::empty()
        });
    }
}

proof fn lemma_scan_picked(
    world: World,
    order: Order,
    entries: Vec<JsonValue>,
    next: nat,
    found: Option<FoundView>,
    property: spec_fn(Question) -> bool,
)
    requires
        forall|q: Question| #[trigger] property(q) ==> !is_first(q),
    ensures
        picked(world, scanned(order, entries, next, found), property) == match array_source(
            world,
            order,
            entries,
            next,
            found,
        ) {
            Err(_) => Seq::empty(),
            Ok(source) => picked(world, StepView::FetchAccount { source }, property),
        },
    decreases entries@.len() - next,
{
    let step = scanned(order, entries, next, found);
    lemma_picked(world, step, property);
    if next < entries@.len() {
        if let Ok(address) = entry_address(order.network.network_type(), entries@[next as int]) {
            if is_found(found, address) {
                lemma_scan_picked(world, order, entries, next + 1, found, property);
            } else {
                lemma_picked(world, answered(world, step), property);
                if let Ok(Some(account)) = (world.owner)(address) {
                    lemma_scan_picked(
                        world,
                        order,
                        entries,
                        next + 1,
                        Some(with_address(found, account, address)),
                        property,
                    );
                }
            }
        }
    }
}

/// Beside the questions that find the source, a call asks what it asks of its source.
pub(crate) proof fn lemma_call_picked(world: World, call: Call, property: spec_fn(Question) -> bool)
    requires
        forall|q: Question| #[trigger] property(q) ==> !is_first(q),
    ensures
        picked(world, call.start(), property) == match drawn_from(world, call) {
            None => Seq::empty(),
            Some(source) => picked(world, StepView::FetchAccount { source }, property),
        },
{
    let start = call.start();
    lemma_picked(world, start, property);
    if let Ok(order) = order_of(
        call.to,
        call.network,
        call.toaddress,
        call.limit,
        call.memo,
        call.import_keys,
    ) {
        match call.fromaddresses {
            JsonValue::String(_) => {
                lemma_picked(world, answered(world, start), property);
                lemma_picked(world, answered(world, answered(world, start)), property);
            },
            JsonValue::Array(entries) => lemma_scan_picked(world, order, entries, 0, None, property),
            JsonValue::Other => {},
        }
    }
}

/// Whether all is there for a source that is needed before its outputs are listed.
pub open spec fn outputs_reached(world: World, source: SourceView) -> bool {
    &&& derivation_of(world, source) is Ok
    &&& confirmations_of(world) is Ok
    &&& proposal_of(world, source) is Ok
    &&& selected(proposal_of(world, source)->Ok_0) is Ok
}

/// The step at which the outputs of a source are listed.
pub open spec fn outputs_start(world: World, source: SourceView) -> StepView {
    let proposal = proposal_of(world, source)->Ok_0;
    outputs_asked(
        source,
        derivation_of(world, source)->Ok_0,
        confirmations_of(world)->Ok_0,
        proposal,
        selected(proposal)->Ok_0,
        Sum { utxos: 0, value: 0 },
        0,
    )
}

/// Of its source a call asks about outputs and keys only once these are reached.
pub(crate) proof fn lemma_source_picked(world: World, source: SourceView, property: spec_fn(Question) -> bool)
    requires
        forall|q: Question| #[trigger] property(q) ==> q is Outputs || q is Key,
    ensures
        picked(world, StepView::FetchAccount { source }, property) == if outputs_reached(world, source) {
            picked(world, outputs_start(world, source), property)
        } else {
            Seq::empty()
        },
{
    let s0 = StepView::FetchAccount { source };
    let s1 = answered(world, s0);
    let s2 = answered(world, s1);
    let s3 = answered(world, s2);
    let s4 = answered(world, s3);
    lemma_picked(world, s0, property);
    lemma_picked(world, s1, property);
    if derivation_of(world, source) is Ok {
        lemma_picked(world, s2, property);
        if confirmations_of(world) is Ok {
            lemma_picked(world, s3, property);
            if (world.proposal)(shielding_terms(source)) is Ok {
                lemma_picked(world, s4, property);
            }
        }
    }
}

proof fn lemma_none_later(world: World, step: StepView, property: spec_fn(Question) -> bool)
    requires
        stages_left(step) <= 4,
        forall|q: Question| #[trigger] property(q) <==> q is Outputs,
    ensures
        picked(world, step, property) == Seq::<Question>::empty(),
    decreases stages_left(step), repeats_left(step),
{
    lemma_picked(world, step, property);
    if question(step) is Some {
        law_call_ends(world, step);
        lemma_none_later(world, answered(world, step), property);
    }
}

/// Whether the source addresses from `next` on, up to a place, could be read and hold no
/// more than can exist.
spec fn readable(
    world: World,
    source: SourceView,
    confirmations: ConfirmationsPolicy,
    proposal: Proposal,
    next: nat,
    place: nat,
) -> bool {
    &&& forall|j: nat|
        next <= j < place ==> (#[trigger] outputs_at(world, source, confirmations, proposal, j)) is Ok
    &&& total(outputs_of(world, source, confirmations, proposal, place)) <= MAX_MONEY
}

proof fn lemma_outputs_prefix(
    world: World,
    source: SourceView,
    derivation: Option<KeyDerivation>,
    confirmations: ConfirmationsPolicy,
    proposal: Proposal,
    shielding: Sum,
    eligible: Sum,
    next: nat,
    place: nat,
    property: spec_fn(Question) -> bool,
)
    requires
        next <= source.from_addrs.len(),
        eligible.value == total(outputs_of(world, source, confirmations, proposal, next)),
        eligible.value <= MAX_MONEY,
        forall|q: Question| #[trigger] property(q) <==> q is Outputs,
    ensures
        ({
            let asked_for = picked(
                world,
                outputs_asked(source, derivation, confirmations, proposal, shielding, eligible, next),
                property,
            );
            &&& asked_for.len() <= source.from_addrs.len() - next
            &&& forall|k: int|
                0 <= k < asked_for.len() ==> #[trigger] asked_for[k] == Question::Outputs(
                    coinbase_outputs(source.from_addrs[next + k], proposal, confirmations),
                )
            &&& next <= place < source.from_addrs.len() ==> (place - next < asked_for.len() <==> readable(
                world,
                source,
                confirmations,
                proposal,
                next,
                place,
            ))
        }),
    decreases source.from_addrs.len() - next,
{
    let step = outputs_asked(source, derivation, confirmations, proposal, shielding, eligible, next);
    if next < source.from_addrs.len() {
        let rest_step = answered(world, step);
        let rest = picked(world, rest_step, property);
        let here = outputs_at(world, source, confirmations, proposal, next);
        lemma_picked(world, step, property);
        lemma_picked(world, rest_step, property);
        let asked_for = picked(world, step, property);
        assert(asked_for.len() == rest.len() + 1);
        let goes_on = here is Ok && with_outputs(eligible, here->Ok_0@) is Ok;
        if let Ok(outputs) = here {
            lemma_total_concat(outputs_of(world, source, confirmations, proposal, next), outputs@);
            if let Ok(sum) = with_outputs(eligible, outputs@) {
                lemma_outputs_prefix(
                    world,
                    source,
                    derivation,
                    confirmations,
                    proposal,
                    shielding,
                    sum,
                    next + 1,
                    place,
                    property,
                );
            }
        }
        assert(!goes_on ==> rest.len() == 0);
        assert forall|k: int| 0 <= k < asked_for.len() implies #[trigger] asked_for[k] == Question::Outputs(
            coinbase_outputs(source.from_addrs[next + k], proposal, confirmations),
        ) by {
            if k > 0 {
                assert(asked_for[k] == rest[k - 1]);
            }
        }
        if next < place < source.from_addrs.len() {
            if goes_on {
                assert(readable(world, source, confirmations, proposal, next, place) == readable(
                    world,
                    source,
                    confirmations,
                    proposal,
                    next + 1,
                    place,
                ));
            } else if here is Ok {
                lemma_outputs_grow(world, source, confirmations, proposal, next + 1, place);
            }
        }
    } else {
        lemma_none_later(world, step, property);
    }
}

/// A call asks about the outputs of its source addresses one after the other, each time
/// about the coinbase outputs that can be spent at the target height of the proposal under
/// the configured confirmations policy. It comes to the address at a place exactly when the
/// proposal meets the policy and spends an amount that can exist, when all addresses before
/// that place could be read, and when they hold no more than can exist.
pub proof fn law_outputs_asked(
    world: World,
    call: Call,
    terms: ProposalTermsView,
    proposal: Proposal,
    place: nat,
)
    requires
        trail(world, call).contains(Question::Proposal(terms)),
        (world.proposal)(terms) == Ok::<Proposal, String>(proposal),
    ensures
        ({
            let asked_for = trail(world, call).filter(|q: Question| q is Outputs);
            &&& world.confirmations is Some
            &&& asked_for.len() <= terms.from_addrs.len()
            &&& forall|k: int|
                0 <= k < asked_for.len() ==> #[trigger] asked_for[k] == Question::Outputs(
                    OutputQuery {
                        address: terms.from_addrs[k],
                        target_height: proposal.min_target_height,
                        confirmations: world.confirmations->0,
                        filter: OutputFilter::CoinbaseOnly,
                    },
                )
            &&& place < terms.from_addrs.len() ==> (place < asked_for.len() <==> {
                &&& (world.privacy)(proposal, PrivacyPolicy::AllowRevealedSenders) is Ok
                &&& spent_value(proposal) <= MAX_MONEY
                &&& forall|j: nat|
                    j < place ==> (#[trigger] holdings(
                        world,
                        terms.from_addrs,
                        world.confirmations->0,
                        proposal.min_target_height,
                        j,
                    )) is Ok
                &&& total(
                    held(
                        world,
                        terms.from_addrs,
                        world.confirmations->0,
                        proposal.min_target_height,
                        place,
                    ),
                ) <= MAX_MONEY
            })
        }),
{
    let property = |q: Question| q is Outputs;
    let source = lemma_books(world, call, terms, proposal);
    let confirmations = world.confirmations->0;
    let height = proposal.min_target_height;
    lemma_call_picked(world, call, property);
    lemma_source_picked(world, source, property);
    if outputs_reached(world, source) {
        lemma_outputs_prefix(
            world,
            source,
            derivation_of(world, source)->Ok_0,
            confirmations,
            proposal,
            selected(proposal)->Ok_0,
            Sum { utxos: 0, value: 0 },
            0,
            place,
            property,
        );
        assert(readable(world, source, confirmations, proposal, 0, place) <==> {
            &&& forall|j: nat|
                j < place ==> (#[trigger] holdings(world, terms.from_addrs, confirmations, height, j)) is Ok
            &&& total(held(world, terms.from_addrs, confirmations, height, place)) <= MAX_MONEY
        }) by {
            assert(forall|j: nat|
                outputs_at(world, source, confirmations, proposal, j) == #[trigger] holdings(
                    world,
                    terms.from_addrs,
                    confirmations,
                    height,
                    j,
                ));
        }
    }
}

/// Every question about outputs names a source address of the proposal that the call asked
/// for, the target height of the proposal that the wallet made, the configured
/// confirmations policy, and coinbase outputs alone.
pub proof fn law_output_query(world: World, call: Call, query: OutputQuery)
    requires
        trail(world, call).contains(Question::Outputs(query)),
    ensures
        world.confirmations == Some(query.confirmations),
        query.filter == OutputFilter::CoinbaseOnly,
        exists|terms: ProposalTermsView|
            {
                &&& #[trigger] trail(world, call).contains(Question::Proposal(terms))
                &&& terms.from_addrs.contains(query.address)
                &&& (world.proposal)(terms) matches Ok(proposal) && query.target_height
                    == proposal.min_target_height
            },
{
    let property = |q: Question| q is Outputs;
    let list = trail(world, call);
    let asked_for = list.filter(property);
    let i = choose|i: int| 0 <= i < list.len() && list[i] == Question::Outputs(query);
    list.lemma_filter_contains(property, i);
    lemma_call_picked(world, call, property);
    let source = drawn_from(world, call)->0;
    lemma_source_picked(world, source, property);
    let terms = shielding_terms(source);
    lemma_trail(world, call, Question::Proposal(terms));
    let proposal = (world.proposal)(terms)->Ok_0;
    law_outputs_asked(world, call, terms, proposal, 0);
    let k = choose|k: int| 0 <= k < asked_for.len() && asked_for[k] == Question::Outputs(query);
    assert(asked_for[k] == Question::Outputs(query));
    assert(terms.from_addrs[k] == query.address);
}

} // verus!
