//! The pre-flight numbers of a call, said of its proposal and of what its source
//! addresses hold.

use vstd::prelude::*;
use zcash_client_backend::data_api::wallet::ConfirmationsPolicy;

use crate::account::{uuid_text, AccountId};
use crate::address::TransparentAddress;
use crate::amount::{lemma_total_concat, total, Zatoshis, MAX_MONEY};
use crate::call::{shielding_terms, OutputFilter, OutputQuery, PrivacyPolicy, ProposalTermsView};
use crate::error::{ErrorReply, LegacyCode};
use crate::laws::{law_eligible, lemma_outputs_grow, outputs_at, outputs_of};
use crate::outcome::{derivation_of, eligible_from};
use crate::preflight::Numbers;
use crate::promises::lemma_drawn_from;
use crate::proposal::{inputs_of, values, with_outputs, Proposal, ProposalStep, Sum, TransparentInput};
use crate::resolve::database;
use crate::step::{ReadyView, SourceView};
use crate::trail::{drawn_from, ending, lemma_ending, lemma_trail, trail, Call};
use crate::world::{Question, World};

verus! {

/// All outputs that a proposal spends.
pub open spec fn spent(proposal: Proposal) -> Seq<TransparentInput> {
    proposal.steps@.map_values(|step: ProposalStep| step.transparent_inputs@).flatten()
}

/// What they are worth together.
pub open spec fn spent_value(proposal: Proposal) -> nat {
    total(spent(proposal).map_values(|input: TransparentInput| input.value))
}

/// What the wallet says that the source address at a place holds.
pub open spec fn holdings(
    world: World,
    from_addrs: Seq<TransparentAddress>,
    confirmations: ConfirmationsPolicy,
    height: u32,
    place: nat,
) -> Result<Vec<Zatoshis>, String> {
    (world.outputs)(
        place,
        OutputQuery {
            address: from_addrs[place as int],
            target_height: height,
            confirmations,
            filter: OutputFilter::CoinbaseOnly,
        },
    )
}

/// All that the first `n` source addresses hold.
pub open spec fn held(
    world: World,
    from_addrs: Seq<TransparentAddress>,
    confirmations: ConfirmationsPolicy,
    height: u32,
    n: nat,
) -> Seq<Zatoshis> {
    Seq::new(n, |i: int| holdings(world, from_addrs, confirmations, height, i as nat)->Ok_0@).flatten()
}

/// How a counter of 64 bits shows a number.
pub open spec fn shown(n: nat) -> nat {
    if n <= 0xffff_ffff_ffff_ffff {
        n
    } else {
        0xffff_ffff_ffff_ffff
    }
}

proof fn lemma_inputs_of(steps: Seq<ProposalStep>, n: int)
    requires
        0 <= n <= steps.len(),
    ensures
        inputs_of(steps, n) == steps.take(n).map_values(|step: ProposalStep| step.transparent_inputs@).flatten(),
    decreases n,
{
    let lists = |k: int| steps.take(k).map_values(|step: ProposalStep| step.transparent_inputs@);
    if n > 0 {
        lemma_inputs_of(steps, n - 1);
        lists(n - 1).lemma_flatten_push(steps[n - 1].transparent_inputs@);
        assert(lists(n) =~= lists(n - 1).push(steps[n - 1].transparent_inputs@));
    } else {
        assert(lists(0) =~= Seq::empty());
    }
}

/// The inputs of a proposal are all that it spends.
pub(crate) proof fn lemma_spent(proposal: Proposal)
    ensures
        proposal.inputs() == spent(proposal),
        total(values(proposal.inputs())) == spent_value(proposal),
{
    let steps = proposal.steps@;
    lemma_inputs_of(steps, steps.len() as int);
    assert(steps.take(steps.len() as int) =~= steps);
    assert(values(proposal.inputs()) =~= spent(proposal).map_values(|input: TransparentInput| input.value));
}

proof fn lemma_held(
    world: World,
    source: SourceView,
    confirmations: ConfirmationsPolicy,
    proposal: Proposal,
    n: nat,
)
    ensures
        held(world, source.from_addrs, confirmations, proposal.min_target_height, n) == outputs_of(
            world,
            source,
            confirmations,
            proposal,
            n,
        ),
    decreases n,
{
    let list = |k: nat|
        Seq::new(
            k,
            |i: int|
                holdings(
                    world,
                    source.from_addrs,
                    confirmations,
                    proposal.min_target_height,
                    i as nat,
                )->Ok_0@,
        );
    if n > 0 {
        let k = (n - 1) as nat;
        lemma_held(world, source, confirmations, proposal, k);
        let last = outputs_at(world, source, confirmations, proposal, k)->Ok_0@;
        list(k).lemma_flatten_push(last);
        assert(list(n) =~= list(k).push(last));
    } else {
        assert(list(0) =~= Seq::empty());
    }
}

/// Where going through the source addresses stops.
proof fn lemma_eligible_stops(
    world: World,
    source: SourceView,
    confirmations: ConfirmationsPolicy,
    proposal: Proposal,
    next: nat,
    eligible: Sum,
    end: nat,
)
    requires
        next <= end <= source.from_addrs.len(),
        forall|i: nat| i < end ==> (#[trigger] outputs_at(world, source, confirmations, proposal, i)) is Ok,
        end < source.from_addrs.len() ==> outputs_at(world, source, confirmations, proposal, end) is Err,
        eligible.value == total(outputs_of(world, source, confirmations, proposal, next)),
        eligible.value <= MAX_MONEY,
    ensures
        total(outputs_of(world, source, confirmations, proposal, end)) > MAX_MONEY ==> eligible_from(
            world,
            source,
            confirmations,
            proposal,
            next,
            eligible,
        ) == Err::<Sum, ErrorReply>(
            ErrorReply {
                code: LegacyCode::Wallet,
                message: "Internal error: total transparent value overflowed Zatoshis bounds."@,
            },
        ),
        total(outputs_of(world, source, confirmations, proposal, end)) <= MAX_MONEY && end
            < source.from_addrs.len() ==> eligible_from(world, source, confirmations, proposal, next, eligible)
            == Err::<Sum, ErrorReply>(
            ErrorReply {
                code: LegacyCode::Database,
                message: outputs_at(world, source, confirmations, proposal, end)->Err_0@,
            },
        ),
    decreases end - next,
{
    if next < end {
        assert(outputs_at(world, source, confirmations, proposal, next) is Ok);
        let outputs = outputs_at(world, source, confirmations, proposal, next)->Ok_0;
        lemma_total_concat(outputs_of(world, source, confirmations, proposal, next), outputs@);
        lemma_outputs_grow(world, source, confirmations, proposal, next + 1, end);
        if let Ok(sum) = with_outputs(eligible, outputs@) {
            lemma_eligible_stops(world, source, confirmations, proposal, next + 1, sum, end);
        }
    }
}

/// The facts that the laws on the accounts of a call rest on.
pub(crate) proof fn lemma_books(world: World, call: Call, terms: ProposalTermsView, proposal: Proposal) -> (source: SourceView)
    requires
        trail(world, call).contains(Question::Proposal(terms)),
        (world.proposal)(terms) == Ok::<Proposal, String>(proposal),
    ensures
        drawn_from(world, call) == Some(source),
        terms == shielding_terms(source),
        source.order.network == call.network,
        source.order.import_keys == call.import_keys,
        derivation_of(world, source) is Ok,
        world.confirmations is Some,
        proposal.inputs() == spent(proposal),
        total(values(proposal.inputs())) == spent_value(proposal),
        forall|k: nat|
            #![trigger outputs_at(world, source, world.confirmations->0, proposal, k)]
            #![trigger holdings(world, terms.from_addrs, world.confirmations->0, proposal.min_target_height, k)]
            outputs_at(world, source, world.confirmations->0, proposal, k) == holdings(
                world,
                terms.from_addrs,
                world.confirmations->0,
                proposal.min_target_height,
                k,
            ),
        forall|k: nat|
            #![trigger outputs_of(world, source, world.confirmations->0, proposal, k)]
            #![trigger held(world, terms.from_addrs, world.confirmations->0, proposal.min_target_height, k)]
            outputs_of(world, source, world.confirmations->0, proposal, k) == held(
                world,
                terms.from_addrs,
                world.confirmations->0,
                proposal.min_target_height,
                k,
            ),
{
    lemma_trail(world, call, Question::Proposal(terms));
    lemma_drawn_from(world, call);
    let source = drawn_from(world, call)->0;
    lemma_spent(proposal);
    assert forall|k: nat|
        #![trigger outputs_of(world, source, world.confirmations->0, proposal, k)]
        #![trigger held(world, terms.from_addrs, world.confirmations->0, proposal.min_target_height, k)]
        outputs_of(world, source, world.confirmations->0, proposal, k) == held(
            world,
            terms.from_addrs,
            world.confirmations->0,
            proposal.min_target_height,
            k,
        ) by {
        lemma_held(world, source, world.confirmations->0, proposal, k);
    }
    source
}

/// [`law_books`] in the words of this module.
proof fn lemma_books_known(
    world: World,
    call: Call,
    account: AccountId,
    terms: ProposalTermsView,
    proposal: Proposal,
    warned: Numbers,
    fingerprint: [u8; 32],
)
    requires
        trail(world, call).contains(Question::Account(account)),
        trail(world, call).contains(Question::Proposal(terms)),
        (world.proposal)(terms) == Ok::<Proposal, String>(proposal),
    ensures
        ({
            let confirmations = world.confirmations->0;
            let height = proposal.min_target_height;
            let n = terms.from_addrs.len();
            let all = held(world, terms.from_addrs, confirmations, height, n);
            let sound = {
                &&& (world.privacy)(proposal, PrivacyPolicy::AllowRevealedSenders) is Ok
                &&& spent_value(proposal) <= MAX_MONEY
                &&& forall|k: nat|
                    k < n ==> (#[trigger] holdings(world, terms.from_addrs, confirmations, height, k)) is Ok
                &&& total(all) <= MAX_MONEY
                &&& shown(spent(proposal).len()) <= shown(all.len())
                &&& spent_value(proposal) <= total(all)
            };
            let numbers = Numbers {
                remaining: Sum {
                    utxos: (shown(all.len()) - shown(spent(proposal).len())) as nat,
                    value: (total(all) - spent_value(proposal)) as nat,
                },
                shielding: Sum { utxos: shown(spent(proposal).len()), value: spent_value(proposal) },
            };
            let derivation = (world.account)(account)->Ok_0->0.derivation;
            &&& trail(world, call).contains(Question::Warning(warned)) <==> sound && shown(spent(proposal).len())
                > 400 && warned == numbers
            &&& trail(world, call).contains(Question::Seed(fingerprint)) <==> sound && derivation is Some
                && derivation->0.fingerprint() == fingerprint
            &&& ending(world, call) matches Ok(ready) ==> {
                &&& sound
                &&& derivation is Some
                &&& ready.preflight == numbers
                &&& ready.proposal == proposal
            }
        }),
{
    let source = lemma_books(world, call, terms, proposal);
    let confirmations = world.confirmations->0;
    lemma_trail(world, call, Question::Account(account));
    lemma_trail(world, call, Question::Warning(warned));
    lemma_trail(world, call, Question::Seed(fingerprint));
    lemma_ending(world, call);
    law_eligible(world, source, confirmations, proposal);
}

/// [`law_books_refused`] in the words of this module.
proof fn lemma_books_refused(
    world: World,
    call: Call,
    account: AccountId,
    terms: ProposalTermsView,
    proposal: Proposal,
    place: nat,
)
    requires
        trail(world, call).contains(Question::Account(account)),
        trail(world, call).contains(Question::Proposal(terms)),
        (world.proposal)(terms) == Ok::<Proposal, String>(proposal),
        place <= terms.from_addrs.len(),
        forall|k: nat|
            k < place ==> (#[trigger] holdings(
                world,
                terms.from_addrs,
                world.confirmations->0,
                proposal.min_target_height,
                k,
            )) is Ok,
    ensures
        ({
            let confirmations = world.confirmations->0;
            let height = proposal.min_target_height;
            let n = terms.from_addrs.len();
            let here = holdings(world, terms.from_addrs, confirmations, height, place);
            let all = held(world, terms.from_addrs, confirmations, height, place);
            let met = (world.privacy)(proposal, PrivacyPolicy::AllowRevealedSenders);
            let refused = |code: LegacyCode, message: Seq<char>|
                ending(world, call) == Err::<ReadyView, ErrorReply>(ErrorReply { code, message });
            if met is Err {
                refused(met->Err_0.code, met->Err_0.message@)
            } else if spent_value(proposal) > MAX_MONEY {
                refused(
                    LegacyCode::Wallet,
                    "Internal error: shielding value sum overflowed Zatoshis bounds."@,
                )
            } else if place < n && here is Ok {
                true
            } else if total(all) > MAX_MONEY {
                refused(
                    LegacyCode::Wallet,
                    "Internal error: total transparent value overflowed Zatoshis bounds."@,
                )
            } else if place < n {
                refused(LegacyCode::Database, here->Err_0@)
            } else if shown(spent(proposal).len()) > shown(all.len()) {
                refused(
                    LegacyCode::Wallet,
                    "Internal accounting error: proposal selected more UTXOs than enumeration found (likely a chain race during shielding setup)."@,
                )
            } else if spent_value(proposal) > total(all) {
                refused(
                    LegacyCode::Wallet,
                    "Internal accounting error: proposal value exceeds enumerated total (likely a chain race during shielding setup)."@,
                )
            } else if (world.account)(account)->Ok_0->0.derivation is None {
                refused(
                    LegacyCode::InvalidAddressOrKey,
                    "No payment source found for account "@ + uuid_text(account) + "."@,
                )
            } else {
                true
            }
        }),
{
    let source = lemma_books(world, call, terms, proposal);
    let confirmations = world.confirmations->0;
    let height = proposal.min_target_height;
    lemma_trail(world, call, Question::Account(account));
    lemma_ending(world, call);
    law_eligible(world, source, confirmations, proposal);
    assert forall|i: nat| i < place implies (#[trigger] outputs_at(
        world,
        source,
        confirmations,
        proposal,
        i,
    )) is Ok by {
        assert(holdings(world, terms.from_addrs, confirmations, height, i) is Ok);
    }
    let here = holdings(world, terms.from_addrs, confirmations, height, place);
    assert(outputs_at(world, source, confirmations, proposal, place) == here);
    if place == terms.from_addrs.len() || here is Err {
        lemma_eligible_stops(
            world,
            source,
            confirmations,
            proposal,
            0,
            Sum { utxos: 0, value: 0 },
            place,
        );
    }
    assert("No payment source found for account "@ + uuid_text(account) + "."@
        =~= "No payment source found for account "@ + (uuid_text(account) + "."@));
}

proof fn lemma_inlined(world: World, terms: ProposalTermsView, proposal: Proposal, n: nat)
    ensures
        spent(proposal) == proposal.steps@.map_values(
            |step: ProposalStep| step.transparent_inputs@,
        ).flatten(),
        spent(proposal).map_values(|input: TransparentInput| input.value)
            == proposal.steps@.map_values(
            |step: ProposalStep| step.transparent_inputs@,
        ).flatten().map_values(|input: TransparentInput| input.value),
        held(world, terms.from_addrs, world.confirmations->0, proposal.min_target_height, n) == Seq::new(
            n,
            |i: int|
                (world.outputs)(
                    i as nat,
                    OutputQuery {
                        address: terms.from_addrs[i],
                        target_height: proposal.min_target_height,
                        confirmations: world.confirmations->0,
                        filter: OutputFilter::CoinbaseOnly,
                    },
                )->Ok_0@,
        ).flatten(),
{
    assert(Seq::new(
        n,
        |i: int|
            holdings(
                world,
                terms.from_addrs,
                world.confirmations->0,
                proposal.min_target_height,
                i as nat,
            )->Ok_0@,
    ) =~= Seq::new(
        n,
        |i: int|
            (world.outputs)(
                i as nat,
                OutputQuery {
                    address: terms.from_addrs[i],
                    target_height: proposal.min_target_height,
                    confirmations: world.confirmations->0,
                    filter: OutputFilter::CoinbaseOnly,
                },
            )->Ok_0@,
    ));
}

/// The accounts of a call are in order exactly when its proposal meets the policy, when
/// what it spends and what the source addresses hold are both amounts that can exist, and
/// when no more is spent than held, in number and in worth. Exactly then the seed of the
/// fetched account is asked for, if the account has one, and a warning comes before it if
/// more than 400 outputs are spent. A served call reports the very numbers: what the
/// proposal spends, and what is held beside it.
pub proof fn law_books(
    world: World,
    call: Call,
    account: AccountId,
    terms: ProposalTermsView,
    proposal: Proposal,
    warned: Numbers,
    fingerprint: [u8; 32],
)
    requires
        trail(world, call).contains(Question::Account(account)),
        trail(world, call).contains(Question::Proposal(terms)),
        (world.proposal)(terms) == Ok::<Proposal, String>(proposal),
    ensures
        ({
            let n = terms.from_addrs.len();
            let inputs = proposal.steps@.map_values(|step: ProposalStep| step.transparent_inputs@).flatten();
            let value = total(inputs.map_values(|input: TransparentInput| input.value));
            let count = if inputs.len() <= 0xffff_ffff_ffff_ffff {
                inputs.len()
            } else {
                0xffff_ffff_ffff_ffff
            };
            let all = Seq::new(
                n,
                |i: int|
                    (world.outputs)(
                        i as nat,
                        OutputQuery {
                            address: terms.from_addrs[i],
                            target_height: proposal.min_target_height,
                            confirmations: world.confirmations->0,
                            filter: OutputFilter::CoinbaseOnly,
                        },
                    )->Ok_0@,
            ).flatten();
            let all_count = if all.len() <= 0xffff_ffff_ffff_ffff {
                all.len()
            } else {
                0xffff_ffff_ffff_ffff
            };
            let sound = {
                &&& (world.privacy)(proposal, PrivacyPolicy::AllowRevealedSenders) is Ok
                &&& value <= MAX_MONEY
                &&& forall|k: int|
                    0 <= k < n ==> (world.outputs)(
                        k as nat,
                        OutputQuery {
                            address: #[trigger] terms.from_addrs[k],
                            target_height: proposal.min_target_height,
                            confirmations: world.confirmations->0,
                            filter: OutputFilter::CoinbaseOnly,
                        },
                    ) is Ok
                &&& total(all) <= MAX_MONEY
                &&& count <= all_count
                &&& value <= total(all)
            };
            let derivation = (world.account)(account)->Ok_0->0.derivation;
            &&& trail(world, call).contains(Question::Warning(warned)) <==> {
                &&& sound
                &&& count > 400
                &&& warned.shielding.utxos == count
                &&& warned.shielding.value == value
                &&& warned.remaining.utxos == all_count - count
                &&& warned.remaining.value == total(all) - value
            }
            &&& trail(world, call).contains(Question::Seed(fingerprint)) <==> sound && derivation is Some
                && derivation->0.fingerprint() == fingerprint
            &&& ending(world, call) matches Ok(ready) ==> {
                &&& sound
                &&& derivation is Some
                &&& ready.preflight.shielding.utxos == count
                &&& ready.preflight.shielding.value == value
                &&& ready.preflight.remaining.utxos == all_count - count
                &&& ready.preflight.remaining.value == total(all) - value
                &&& ready.proposal == proposal
            }
        }),
{
    let n = terms.from_addrs.len();
    lemma_books_known(world, call, account, terms, proposal, warned, fingerprint);
    lemma_inlined(world, terms, proposal, n);
    let confirmations = world.confirmations->0;
    let height = proposal.min_target_height;
    let readable = forall|k: int|
        0 <= k < n ==> (world.outputs)(
            k as nat,
            OutputQuery {
                address: #[trigger] terms.from_addrs[k],
                target_height: proposal.min_target_height,
                confirmations: world.confirmations->0,
                filter: OutputFilter::CoinbaseOnly,
            },
        ) is Ok;
    assert(readable <==> forall|k: nat|
        k < n ==> (#[trigger] holdings(world, terms.from_addrs, confirmations, height, k)) is Ok) by {
        if readable {
            assert forall|k: nat| k < n implies (#[trigger] holdings(
                world,
                terms.from_addrs,
                confirmations,
                height,
                k,
            )) is Ok by {
                let address = terms.from_addrs[k as int];
            }
        } else {
            let k = choose|k: int|
                0 <= k < n && !((world.outputs)(
                    k as nat,
                    OutputQuery {
                        address: #[trigger] terms.from_addrs[k],
                        target_height: proposal.min_target_height,
                        confirmations: world.confirmations->0,
                        filter: OutputFilter::CoinbaseOnly,
                    },
                ) is Ok);
            assert(holdings(world, terms.from_addrs, confirmations, height, k as nat) is Err);
        }
    }
}

/// How a call is refused whose accounts are not in order: by the policy; because what is
/// spent cannot exist; by the database, at the first source address that cannot be read,
/// unless the addresses before it already hold more than can exist; because all of them
/// do; or because more is spent than held, in number or else in worth. An account without
/// a derivation is refused after all of these.
pub proof fn law_books_refused(
    world: World,
    call: Call,
    account: AccountId,
    terms: ProposalTermsView,
    proposal: Proposal,
    place: nat,
)
    requires
        trail(world, call).contains(Question::Account(account)),
        trail(world, call).contains(Question::Proposal(terms)),
        (world.proposal)(terms) == Ok::<Proposal, String>(proposal),
        place <= terms.from_addrs.len(),
        forall|k: int|
            0 <= k < place ==> (world.outputs)(
                k as nat,
                OutputQuery {
                    address: #[trigger] terms.from_addrs[k],
                    target_height: proposal.min_target_height,
                    confirmations: world.confirmations->0,
                    filter: OutputFilter::CoinbaseOnly,
                },
            ) is Ok,
    ensures
        ({
            let n = terms.from_addrs.len();
            let inputs = proposal.steps@.map_values(|step: ProposalStep| step.transparent_inputs@).flatten();
            let value = total(inputs.map_values(|input: TransparentInput| input.value));
            let count = if inputs.len() <= 0xffff_ffff_ffff_ffff {
                inputs.len()
            } else {
                0xffff_ffff_ffff_ffff
            };
            let all = Seq::new(
                place,
                |i: int|
                    (world.outputs)(
                        i as nat,
                        OutputQuery {
                            address: terms.from_addrs[i],
                            target_height: proposal.min_target_height,
                            confirmations: world.confirmations->0,
                            filter: OutputFilter::CoinbaseOnly,
                        },
                    )->Ok_0@,
            ).flatten();
            let all_count = if all.len() <= 0xffff_ffff_ffff_ffff {
                all.len()
            } else {
                0xffff_ffff_ffff_ffff
            };
            let here = (world.outputs)(
                place,
                OutputQuery {
                    address: terms.from_addrs[place as int],
                    target_height: proposal.min_target_height,
                    confirmations: world.confirmations->0,
                    filter: OutputFilter::CoinbaseOnly,
                },
            );
            let met = (world.privacy)(proposal, PrivacyPolicy::AllowRevealedSenders);
            let refused = |code: LegacyCode, message: Seq<char>|
                ending(world, call) == Err::<ReadyView, ErrorReply>(ErrorReply { code, message });
            if met is Err {
                refused(met->Err_0.code, met->Err_0.message@)
            } else if value > MAX_MONEY {
                refused(
                    LegacyCode::Wallet,
                    "Internal error: shielding value sum overflowed Zatoshis bounds."@,
                )
            } else if place < n && here is Ok {
                true
            } else if total(all) > MAX_MONEY {
                refused(
                    LegacyCode::Wallet,
                    "Internal error: total transparent value overflowed Zatoshis bounds."@,
                )
            } else if place < n {
                refused(LegacyCode::Database, here->Err_0@)
            } else if count > all_count {
                refused(
                    LegacyCode::Wallet,
                    "Internal accounting error: proposal selected more UTXOs than enumeration found (likely a chain race during shielding setup)."@,
                )
            } else if value > total(all) {
                refused(
                    LegacyCode::Wallet,
                    "Internal accounting error: proposal value exceeds enumerated total (likely a chain race during shielding setup)."@,
                )
            } else if (world.account)(account)->Ok_0->0.derivation is None {
                refused(
                    LegacyCode::InvalidAddressOrKey,
                    "No payment source found for account "@ + uuid_text(account) + "."@,
                )
            } else {
                true
            }
        }),
{
    lemma_inlined(world, terms, proposal, place);
    assert forall|k: nat| k < place implies (#[trigger] holdings(
        world,
        terms.from_addrs,
        world.confirmations->0,
        proposal.min_target_height,
        k,
    )) is Ok by {
        let address = terms.from_addrs[k as int];
    }
    lemma_books_refused(world, call, account, terms, proposal, place);
}

} // verus!
