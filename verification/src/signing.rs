//! The keys that a call collects to sign with, said of the fetched account, of the
//! proposal and of the receivers of the account.

use secp256k1::SecretKey;
use vstd::prelude::*;
use zcash_client_backend::data_api::wallet::ConfirmationsPolicy;
use zcash_keys::keys::UnifiedSpendingKey;

use crate::account::AccountId;
use crate::address::{script_address, AddressSource, Receiver, TransparentAddress};
use crate::books::{lemma_spent, spent};
use crate::call::{
    all_receivers, coinbase_outputs, keys_wanted, outputs_asked, shielding_terms, totals_known, PrivacyPolicy,
    ProposalTermsView, ReceiverQuery,
};
use crate::collect::{keys_asked, keys_for, standalone};
use crate::error::{keystore_reply, ErrorReply, KeystoreError, LegacyCode};
use crate::inquiry::{
    lemma_call_picked, lemma_picked, lemma_source_picked, outputs_reached, outputs_start, picked,
};
use crate::keys::{spending_key, with_key, KeyDerivation};
use crate::laws::{keys_to, law_keys_collected, law_keys_needed, law_standalone};
use crate::outcome::{
    confirmations_of, derivation_of, eligible_from, eligible_of, keys_from, numbers_of, proposal_of,
    spending_key_of,
};
use crate::preflight::{accounted, Numbers};
use crate::promises::lemma_drawn_from;
use crate::proposal::{selected, with_outputs, Proposal, ProposalStep, Sum, TransparentInput};
use crate::step::{ReadyView, SourceView, StepView};
use crate::trail::{drawn_from, ending, lemma_ending, lemma_trail, trail, Call};
use crate::world::{answered, question, Question, World};

verus! {

/// Whether an address is among the receivers that were imported with a public key or a
/// script.
pub open spec fn imported(receivers: Seq<Receiver>, address: TransparentAddress) -> bool {
    exists|i: int|
        0 <= i < receivers.len() && (#[trigger] receivers[i]).address == address && (receivers[i].source
            == AddressSource::StandalonePubkey || receivers[i].source == AddressSource::StandaloneScript)
}

/// The addresses that inputs pay to, as far as these were imported, input by input.
pub open spec fn needed(inputs: Seq<TransparentInput>, receivers: Seq<Receiver>) -> Seq<TransparentAddress> {
    inputs.map_values(|input: TransparentInput| script_address(input.script_pubkey@)).filter(
        |paid: Option<TransparentAddress>| paid is Some && imported(receivers, paid->0),
    ).map_values(|paid: Option<TransparentAddress>| paid->0)
}

/// The keys that the keystore handed out for an address, one for each of its places among
/// the first `n` of a list, in order.
pub open spec fn handed_out(
    world: World,
    list: Seq<TransparentAddress>,
    n: nat,
    address: TransparentAddress,
) -> Seq<SecretKey> {
    Seq::new(n, |i: int| i).filter(|i: int| list[i] == address).map_values(
        |i: int| (world.key)(i as nat, address)->Ok_0,
    )
}

proof fn lemma_needed(inputs: Seq<TransparentInput>, receivers: Seq<Receiver>)
    ensures
        keys_for(inputs, standalone(receivers)) == needed(inputs, receivers),
    decreases inputs.len(),
{
    reveal(Seq::filter);
    let pay = |input: TransparentInput| script_address(input.script_pubkey@);
    let wanted = |paid: Option<TransparentAddress>| paid is Some && imported(receivers, paid->0);
    let get = |paid: Option<TransparentAddress>| paid->0;
    let paid = inputs.map_values(pay);
    if inputs.len() > 0 {
        let front = inputs.drop_last();
        lemma_needed(front, receivers);
        assert(paid.drop_last() =~= front.map_values(pay));
        let last = pay(inputs.last());
        assert(paid.last() == last);
        if last is Some {
            law_standalone(receivers, last->0);
        }
        let rest = front.map_values(pay).filter(wanted);
        if wanted(last) {
            assert(paid.filter(wanted) == rest.push(last));
            assert(rest.push(last).map_values(get) =~= rest.map_values(get).push(last->0));
        } else {
            assert(paid.filter(wanted) == rest);
        }
    } else {
        assert(paid.filter(wanted).map_values(get) =~= Seq::empty());
    }
}

proof fn lemma_handed_out(
    world: World,
    list: Seq<TransparentAddress>,
    n: nat,
    address: TransparentAddress,
)
    requires
        n <= list.len(),
    ensures
        keys_to(world, list, n, address) == handed_out(world, list, n, address),
    decreases n,
{
    reveal(Seq::filter);
    let at = |i: int| list[i] == address;
    let key = |i: int| (world.key)(i as nat, address)->Ok_0;
    let places = Seq::new(n, |i: int| i);
    if n > 0 {
        let k = (n - 1) as nat;
        let before = Seq::new(k, |i: int| i);
        lemma_handed_out(world, list, k, address);
        assert(places.drop_last() =~= before);
        assert(places.last() == k);
        if at(k as int) {
            assert(places.filter(at) == before.filter(at).push(k as int));
            assert(before.filter(at).push(k as int).map_values(key) =~= before.filter(at).map_values(key).push(
                key(k as int),
            ));
        } else {
            assert(places.filter(at) == before.filter(at));
        }
    } else {
        assert(places.filter(at).map_values(key) =~= Seq::empty());
    }
}

/// An imported address is needed once for each input that pays to it, and no other address
/// is needed at all.
pub proof fn law_needed(inputs: Seq<TransparentInput>, receivers: Seq<Receiver>, address: TransparentAddress)
    ensures
        needed(inputs, receivers).filter(|a: TransparentAddress| a == address).len() == if exists|i: int|
            0 <= i < receivers.len() && (#[trigger] receivers[i]).address == address && (receivers[i].source
                == AddressSource::StandalonePubkey || receivers[i].source == AddressSource::StandaloneScript) {
            inputs.filter(
                |input: TransparentInput| script_address(input.script_pubkey@) == Some(address),
            ).len()
        } else {
            0
        },
    decreases inputs.len(),
{
    reveal(Seq::filter);
    lemma_needed(inputs, receivers);
    if inputs.len() > 0 {
        let front = inputs.drop_last();
        lemma_needed(front, receivers);
        law_needed(front, receivers, address);
        let rest = keys_for(front, standalone(receivers));
        let last = script_address(inputs.last().script_pubkey@);
        if last is Some {
            law_standalone(receivers, last->0);
            assert(rest.push(last->0).drop_last() =~= rest);
        }
    }
}

proof fn lemma_keys_counted(world: World, list: Seq<TransparentAddress>, n: nat, address: TransparentAddress)
    requires
        n <= list.len(),
    ensures
        keys_to(world, list, n, address).len() == list.take(n as int).filter(
            |a: TransparentAddress| a == address,
        ).len(),
    decreases n,
{
    reveal(Seq::filter);
    if n > 0 {
        lemma_keys_counted(world, list, (n - 1) as nat, address);
        assert(list.take(n as int).drop_last() =~= list.take(n - 1));
    }
}

/// The facts about the fetched account that the laws of this module rest on.
proof fn lemma_fetched(world: World, call: Call, account: AccountId) -> (source: SourceView)
    requires
        trail(world, call).contains(Question::Account(account)),
    ensures
        drawn_from(world, call) == Some(source),
        source.account == account,
        source.order.network == call.network,
        source.order.import_keys == call.import_keys,
{
    lemma_trail(world, call, Question::Account(account));
    lemma_drawn_from(world, call);
    drawn_from(world, call)->0
}

/// A served call has fetched an account, and its proposal is the one that the wallet made
/// on the terms that the call asked for. It is recorded under the name of the method, with
/// the parameters as the caller gave them.
pub proof fn law_served(world: World, call: Call, ready: ReadyView)
    requires
        ending(world, call) == Ok::<ReadyView, ErrorReply>(ready),
    ensures
        exists|account: AccountId| #[trigger] trail(world, call).contains(Question::Account(account)),
        exists|terms: ProposalTermsView|
            {
                &&& #[trigger] trail(world, call).contains(Question::Proposal(terms))
                &&& (world.proposal)(terms) == Ok::<Proposal, String>(ready.proposal)
            },
        ready.method == "z_shieldcoinbase"@,
        ready.fromaddresses == call.fromaddresses,
        ready.toaddress == call.toaddress,
        ready.limit == call.limit,
{
    lemma_ending(world, call);
    lemma_drawn_from(world, call);
    let source = drawn_from(world, call)->0;
    lemma_trail(world, call, Question::Account(source.account));
    lemma_trail(world, call, Question::Proposal(shielding_terms(source)));
    assert(trail(world, call).contains(Question::Account(source.account)));
    assert(trail(world, call).contains(Question::Proposal(shielding_terms(source))));
}

/// The spending key of a served call is the one at the account's own index, under the seed
/// that the keystore holds for the account's own fingerprint, on the network of the call.
pub proof fn law_spending_key(world: World, call: Call, account: AccountId, ready: ReadyView)
    requires
        ending(world, call) == Ok::<ReadyView, ErrorReply>(ready),
        trail(world, call).contains(Question::Account(account)),
    ensures
        (world.account)(account) matches Ok(Some(found)) && found.derivation matches Some(derivation) && (world.seed)(
            derivation.fingerprint(),
        ) matches Ok(seed) && spending_key(call.network.network_type(), seed, derivation.index()) == Ok::<
            UnifiedSpendingKey,
            Seq<char>,
        >(ready.usk),
{
    lemma_ending(world, call);
    let source = lemma_fetched(world, call, account);
}

/// A served call has keys of an address's own exactly when an output that it spends pays
/// to that address and the address is among the receivers of the account that were imported
/// with a public key or a script; and only where such keys can be held. This does not
/// depend on how the account was named. Each such address has one key for each output that
/// pays to it, as the keystore handed them out.
pub proof fn law_imported_keys(
    world: World,
    call: Call,
    account: AccountId,
    ready: ReadyView,
    address: TransparentAddress,
)
    requires
        ending(world, call) == Ok::<ReadyView, ErrorReply>(ready),
        trail(world, call).contains(Question::Account(account)),
    ensures
        ({
            let answer = (world.sources)(
                ReceiverQuery { account, include_change: true, include_standalone: true },
            );
            let inputs = ready.proposal.steps@.map_values(
                |step: ProposalStep| step.transparent_inputs@,
            ).flatten();
            &&& !call.import_keys ==> ready.standalone_keys == Map::<TransparentAddress, Seq<SecretKey>>::empty()
            &&& call.import_keys ==> {
                &&& answer is Ok
                &&& ready.standalone_keys.dom().contains(address) <==> {
                    &&& exists|i: int|
                        0 <= i < inputs.len() && script_address((#[trigger] inputs[i]).script_pubkey@) == Some(
                            address,
                        )
                    &&& exists|i: int|
                        0 <= i < answer->Ok_0@.len() && (#[trigger] answer->Ok_0@[i]).address == address && (
                        answer->Ok_0@[i].source == AddressSource::StandalonePubkey || answer->Ok_0@[i].source
                            == AddressSource::StandaloneScript)
                }
                &&& ready.standalone_keys.dom().contains(address) ==> {
                    &&& ready.standalone_keys[address].len() == inputs.filter(
                        |input: TransparentInput| script_address(input.script_pubkey@) == Some(address),
                    ).len()
                    &&& ready.standalone_keys[address] == handed_out(
                        world,
                        needed(inputs, answer->Ok_0@),
                        needed(inputs, answer->Ok_0@).len(),
                        address,
                    )
                }
            }
        }),
{
    lemma_ending(world, call);
    let source = lemma_fetched(world, call, account);
    let proposal = ready.proposal;
    lemma_spent(proposal);
    if call.import_keys {
        let receivers = (world.sources)(all_receivers(account))->Ok_0@;
        let pending = keys_for(proposal.inputs(), standalone(receivers));
        lemma_needed(spent(proposal), receivers);
        law_keys_collected(world, pending);
        law_keys_needed(spent(proposal), standalone(receivers), address);
        law_standalone(receivers, address);
        lemma_handed_out(world, pending, pending.len(), address);
        lemma_keys_counted(world, pending, pending.len(), address);
        law_needed(spent(proposal), receivers, address);
        assert(pending.take(pending.len() as int) =~= pending);
        assert(ready.standalone_keys.dom().contains(address) <==> pending.contains(address));
    }
}

/// The receivers of the account are asked for with their sources exactly when the spending
/// key was derived and keys can be imported: all of them, change and standalone included.
pub proof fn law_sources_asked(world: World, call: Call, account: AccountId, query: ReceiverQuery)
    requires
        trail(world, call).contains(Question::Account(account)),
    ensures
        trail(world, call).contains(Question::Sources(query)) <==> {
            &&& call.import_keys
            &&& query == (ReceiverQuery { account, include_change: true, include_standalone: true })
            &&& (world.account)(account) matches Ok(Some(found)) && found.derivation matches Some(derivation) && {
                &&& trail(world, call).contains(Question::Seed(derivation.fingerprint()))
                &&& (world.seed)(derivation.fingerprint()) matches Ok(seed) && spending_key(
                    call.network.network_type(),
                    seed,
                    derivation.index(),
                ) is Ok
            }
        },
{
    let source = lemma_fetched(world, call, account);
    lemma_trail(world, call, Question::Sources(query));
    if let Ok(Some(found)) = (world.account)(account) {
        if let Some(derivation) = found.derivation {
            lemma_trail(world, call, Question::Seed(derivation.fingerprint()));
        }
    }
}

/// How a call ends once it has asked for the seed: refused by the keystore, which asks for
/// an unlock exactly when the wallet is locked; refused because no key derives from the
/// seed; served without further keys where none can be imported; otherwise refused by the
/// database when the receivers cannot be listed, or by the keystore at the first key that it
/// does not hand out, or served when it hands out every one.
pub proof fn law_signing_ends(world: World, call: Call, account: AccountId, fingerprint: [u8; 32], place: nat)
    requires
        trail(world, call).contains(Question::Account(account)),
        trail(world, call).contains(Question::Seed(fingerprint)),
    ensures
        ({
            let derivation = (world.account)(account)->Ok_0->0.derivation->0;
            let seed = (world.seed)(fingerprint);
            let key = spending_key(call.network.network_type(), seed->Ok_0, derivation.index());
            let answer = (world.sources)(
                ReceiverQuery { account, include_change: true, include_standalone: true },
            );
            let refused = |code: LegacyCode, message: Seq<char>|
                ending(world, call) == Err::<ReadyView, ErrorReply>(ErrorReply { code, message });
            let turned_away = |error: KeystoreError|
                refused(
                    if error.generic && error.message@ == "Wallet is locked"@ {
                        LegacyCode::WalletUnlockNeeded
                    } else {
                        LegacyCode::Database
                    },
                    error.message@,
                );
            if seed is Err {
                turned_away(seed->Err_0)
            } else if key is Err {
                refused(LegacyCode::InvalidAddressOrKey, key->Err_0)
            } else if !call.import_keys {
                ending(world, call) is Ok
            } else if answer is Err {
                refused(LegacyCode::Database, answer->Err_0@)
            } else {
                forall|proposal: Proposal|
                    {
                        let list = needed(#[trigger] spent(proposal), answer->Ok_0@);
                        trail(world, call).contains(
                            Question::Privacy(proposal, PrivacyPolicy::AllowRevealedSenders),
                        ) && place <= list.len() && (forall|i: nat|
                            i < place ==> (#[trigger] (world.key)(i, list[i as int])) is Ok) ==> {
                            &&& place == list.len() ==> ending(world, call) is Ok
                            &&& place < list.len() && (world.key)(place, list[place as int]) is Err ==> turned_away(
                                (world.key)(place, list[place as int])->Err_0,
                            )
                        }
                    }
            }
        }),
{
    lemma_ending(world, call);
    let source = lemma_fetched(world, call, account);
    lemma_trail(world, call, Question::Seed(fingerprint));
    let answer = (world.sources)(all_receivers(account));
    assert forall|proposal: Proposal|
        answer is Ok && trail(world, call).contains(
            Question::Privacy(proposal, PrivacyPolicy::AllowRevealedSenders),
        ) implies proposal_of(world, source) == Ok::<Proposal, ErrorReply>(proposal) && keys_for(
        proposal.inputs(),
        standalone(answer->Ok_0@),
    ) == needed(#[trigger] spent(proposal), answer->Ok_0@) by {
        lemma_trail(
            world,
            call,
            Question::Privacy(proposal, PrivacyPolicy::AllowRevealedSenders),
        );
        lemma_spent(proposal);
        lemma_needed(spent(proposal), answer->Ok_0@);
    }
    if answer is Ok && proposal_of(world, source) is Ok {
        let proposal = proposal_of(world, source)->Ok_0;
        let pending = keys_for(proposal.inputs(), standalone(answer->Ok_0@));
        law_keys_collected(world, pending);
        if place <= pending.len() && (forall|i: nat|
            i < place ==> (#[trigger] (world.key)(i, pending[i as int])) is Ok) {
            lemma_keys_stop(world, pending, 0, Map::empty(), place);
        }
    }
}

/// Where collecting keys stops.
proof fn lemma_keys_stop(
    world: World,
    pending: Seq<TransparentAddress>,
    next: nat,
    keys: Map<TransparentAddress, Seq<SecretKey>>,
    place: nat,
)
    requires
        next <= place <= pending.len(),
        forall|i: nat| i < place ==> (#[trigger] (world.key)(i, pending[i as int])) is Ok,
    ensures
        place == pending.len() ==> keys_from(world, pending, next, keys) is Ok,
        place < pending.len() && (world.key)(place, pending[place as int]) is Err ==> keys_from(
            world,
            pending,
            next,
            keys,
        ) == Err::<Map<TransparentAddress, Seq<SecretKey>>, ErrorReply>(
            keystore_reply((world.key)(place, pending[place as int])->Err_0),
        ),
    decreases place - next,
{
    if next < place {
        assert((world.key)(next, pending[next as int]) is Ok);
        let k = (world.key)(next, pending[next as int])->Ok_0;
        lemma_keys_stop(world, pending, next + 1, with_key(keys, pending[next as int], k), place);
    }
}

proof fn lemma_outputs_key_picked(
    world: World,
    source: SourceView,
    derivation: Option<KeyDerivation>,
    confirmations: ConfirmationsPolicy,
    proposal: Proposal,
    shielding: Sum,
    eligible: Sum,
    next: nat,
    property: spec_fn(Question) -> bool,
)
    requires
        forall|q: Question| #[trigger] property(q) <==> q is Key,
    ensures
        picked(
            world,
            outputs_asked(source, derivation, confirmations, proposal, shielding, eligible, next),
            property,
        ) == match eligible_from(world, source, confirmations, proposal, next, eligible) {
            Err(_) => Seq::empty(),
            Ok(sum) => picked(world, totals_known(source, derivation, proposal, shielding, sum), property),
        },
    decreases source.from_addrs.len() - next,
{
    let step = outputs_asked(source, derivation, confirmations, proposal, shielding, eligible, next);
    if next < source.from_addrs.len() {
        lemma_picked(world, step, property);
        lemma_picked(world, answered(world, step), property);
        let query = coinbase_outputs(source.from_addrs[next as int], proposal, confirmations);
        if let Ok(outputs) = (world.outputs)(next, query) {
            if let Ok(sum) = with_outputs(eligible, outputs@) {
                lemma_outputs_key_picked(
                    world,
                    source,
                    derivation,
                    confirmations,
                    proposal,
                    shielding,
                    sum,
                    next + 1,
                    property,
                );
            }
        }
    }
}

/// Whether the keys of imported addresses are asked for.
spec fn keys_reached(world: World, source: SourceView) -> bool {
    &&& outputs_reached(world, source)
    &&& numbers_of(world, source, confirmations_of(world)->Ok_0, proposal_of(world, source)->Ok_0) is Ok
    &&& spending_key_of(world, source, derivation_of(world, source)->Ok_0) is Ok
    &&& source.order.import_keys
    &&& (world.sources)(all_receivers(source.account)) is Ok
}

proof fn lemma_wanted_picked(
    world: World,
    source: SourceView,
    derivation: Option<KeyDerivation>,
    proposal: Proposal,
    preflight: Numbers,
    property: spec_fn(Question) -> bool,
)
    requires
        forall|q: Question| #[trigger] property(q) <==> q is Key,
    ensures
        picked(world, keys_wanted(source, derivation, proposal, preflight), property) == if spending_key_of(
            world,
            source,
            derivation,
        ) is Ok && source.order.import_keys && (world.sources)(all_receivers(source.account)) is Ok {
            picked(
                world,
                keys_asked(
                    source,
                    proposal,
                    preflight,
                    spending_key_of(world, source, derivation)->Ok_0,
                    keys_for(
                        proposal.inputs(),
                        standalone((world.sources)(all_receivers(source.account))->Ok_0@),
                    ),
                    0,
                    Map::empty(),
                ),
                property,
            )
        } else {
            Seq::empty()
        },
{
    let step = keys_wanted(source, derivation, proposal, preflight);
    lemma_picked(world, step, property);
    if let Some(d) = derivation {
        let next = answered(world, step);
        lemma_picked(world, next, property);
        if let Ok(seed) = (world.seed)(d.fingerprint()) {
            if let Ok(usk) = spending_key(source.order.network.network_type(), seed, d.index()) {
                if source.order.import_keys {
                    assert(next == StepView::ListSources { source, proposal, preflight, usk });
                    assert(!property(Question::Sources(all_receivers(source.account))));
                    let last = answered(world, next);
                    lemma_picked(world, last, property);
                    assert(picked(world, step, property) =~= picked(world, last, property));
                } else {
                    assert(question(next) is None);
                }
            } else {
                assert(question(next) is None);
            }
        } else {
            assert(question(next) is None);
        }
    }
}

#[verifier::spinoff_prover]
#[verifier::rlimit(40)]
proof fn lemma_keys_prefix(
    world: World,
    source: SourceView,
    proposal: Proposal,
    preflight: Numbers,
    usk: UnifiedSpendingKey,
    pending: Seq<TransparentAddress>,
    next: nat,
    keys: Map<TransparentAddress, Seq<SecretKey>>,
    place: nat,
    property: spec_fn(Question) -> bool,
)
    requires
        next <= pending.len(),
        forall|q: Question| #[trigger] property(q) <==> q is Key,
    ensures
        ({
            let asked_for = picked(
                world,
                keys_asked(source, proposal, preflight, usk, pending, next, keys),
                property,
            );
            &&& asked_for.len() <= pending.len() - next
            &&& forall|k: int|
                0 <= k < asked_for.len() ==> #[trigger] asked_for[k] == Question::Key(pending[next + k])
            &&& next <= place < pending.len() ==> (place - next < asked_for.len() <==> forall|i: nat|
                next <= i < place ==> (#[trigger] (world.key)(i, pending[i as int])) is Ok)
        }),
    decreases pending.len() - next,
{
    let step = keys_asked(source, proposal, preflight, usk, pending, next, keys);
    lemma_picked(world, step, property);
    if next < pending.len() {
        let rest_step = answered(world, step);
        let rest = picked(world, rest_step, property);
        let here = (world.key)(next, pending[next as int]);
        lemma_picked(world, rest_step, property);
        let asked_for = picked(world, step, property);
        assert(asked_for.len() == rest.len() + 1);
        if let Ok(k) = here {
            lemma_keys_prefix(
                world,
                source,
                proposal,
                preflight,
                usk,
                pending,
                next + 1,
                with_key(keys, pending[next as int], k),
                place,
                property,
            );
        }
        assert forall|k: int| 0 <= k < asked_for.len() implies #[trigger] asked_for[k] == Question::Key(
            pending[next + k],
        ) by {
            if k > 0 {
                assert(asked_for[k] == rest[k - 1]);
            }
        }
        if next < place < pending.len() {
            let all_before = forall|i: nat|
                next <= i < place ==> (#[trigger] (world.key)(i, pending[i as int])) is Ok;
            let rest_before = forall|i: nat|
                next + 1 <= i < place ==> (#[trigger] (world.key)(i, pending[i as int])) is Ok;
            assert(all_before <==> here is Ok && rest_before);
            assert(here is Err ==> rest.len() == 0);
        }
    }
}

proof fn lemma_totals_picked(
    world: World,
    source: SourceView,
    derivation: Option<KeyDerivation>,
    proposal: Proposal,
    shielding: Sum,
    eligible: Sum,
    property: spec_fn(Question) -> bool,
)
    requires
        forall|q: Question| #[trigger] property(q) <==> q is Key,
    ensures
        picked(world, totals_known(source, derivation, proposal, shielding, eligible), property) == match accounted(
            eligible,
            shielding,
        ) {
            Err(_) => Seq::empty(),
            Ok(preflight) => picked(world, keys_wanted(source, derivation, proposal, preflight), property),
        },
{
    lemma_picked(world, totals_known(source, derivation, proposal, shielding, eligible), property);
}

/// The step at which the keys of imported addresses are asked for.
spec fn keys_start(world: World, source: SourceView) -> StepView {
    let proposal = proposal_of(world, source)->Ok_0;
    keys_asked(
        source,
        proposal,
        numbers_of(world, source, confirmations_of(world)->Ok_0, proposal)->Ok_0,
        spending_key_of(world, source, derivation_of(world, source)->Ok_0)->Ok_0,
        keys_for(proposal.inputs(), standalone((world.sources)(all_receivers(source.account))->Ok_0@)),
        0,
        Map::empty(),
    )
}

proof fn lemma_outputs_start_picked(world: World, source: SourceView, property: spec_fn(Question) -> bool)
    requires
        outputs_reached(world, source),
        forall|q: Question| #[trigger] property(q) <==> q is Key,
    ensures
        picked(world, outputs_start(world, source), property) == if keys_reached(world, source) {
            picked(world, keys_start(world, source), property)
        } else {
            Seq::empty()
        },
{
    let derivation = derivation_of(world, source)->Ok_0;
    let confirmations = confirmations_of(world)->Ok_0;
    let proposal = proposal_of(world, source)->Ok_0;
    let shielding = selected(proposal)->Ok_0;
    lemma_outputs_key_picked(
        world,
        source,
        derivation,
        confirmations,
        proposal,
        shielding,
        Sum { utxos: 0, value: 0 },
        0,
        property,
    );
    if let Ok(eligible) = eligible_of(world, source, confirmations, proposal) {
        lemma_totals_picked(world, source, derivation, proposal, shielding, eligible, property);
        if let Ok(preflight) = accounted(eligible, shielding) {
            lemma_wanted_picked(world, source, derivation, proposal, preflight, property);
        }
    }
}

proof fn lemma_keys_picked(world: World, call: Call, property: spec_fn(Question) -> bool)
    requires
        forall|q: Question| #[trigger] property(q) <==> q is Key,
    ensures
        picked(world, call.start(), property) == match drawn_from(world, call) {
            None => Seq::empty(),
            Some(source) => if keys_reached(world, source) {
                picked(world, keys_start(world, source), property)
            } else {
                Seq::empty()
            },
        },
{
    lemma_call_picked(world, call, property);
    if let Some(source) = drawn_from(world, call) {
        lemma_source_picked(world, source, property);
        if outputs_reached(world, source) {
            lemma_outputs_start_picked(world, source, property);
        }
    }
}

/// Once the receivers of the account are known, the keystore is asked for the key to each
/// imported address that an output of the proposal pays to, output by output, and for no
/// other. It is asked for the one at a place exactly when it handed out all before it.
pub proof fn law_keys_in_order(
    world: World,
    call: Call,
    account: AccountId,
    proposal: Proposal,
    place: nat,
)
    requires
        trail(world, call).contains(Question::Account(account)),
        trail(world, call).contains(
            Question::Privacy(proposal, PrivacyPolicy::AllowRevealedSenders),
        ),
        trail(world, call).contains(
            Question::Sources(ReceiverQuery { account, include_change: true, include_standalone: true }),
        ),
        (world.sources)(ReceiverQuery { account, include_change: true, include_standalone: true }) is Ok,
    ensures
        ({
            let receivers = (world.sources)(
                ReceiverQuery { account, include_change: true, include_standalone: true },
            )->Ok_0@;
            let list = needed(spent(proposal), receivers);
            let asked_for = trail(world, call).filter(|q: Question| q is Key);
            &&& asked_for.len() <= list.len()
            &&& forall|k: int| 0 <= k < asked_for.len() ==> #[trigger] asked_for[k] == Question::Key(list[k])
            &&& place < list.len() ==> (place < asked_for.len() <==> forall|i: nat|
                i < place ==> (#[trigger] (world.key)(i, list[i as int])) is Ok)
        }),
{
    let property = |q: Question| q is Key;
    let source = lemma_fetched(world, call, account);
    let query = all_receivers(account);
    lemma_trail(world, call, Question::Sources(query));
    lemma_trail(
        world,
        call,
        Question::Privacy(proposal, PrivacyPolicy::AllowRevealedSenders),
    );
    let receivers = (world.sources)(query)->Ok_0@;
    lemma_spent(proposal);
    lemma_needed(spent(proposal), receivers);
    lemma_keys_picked(world, call, property);
    lemma_keys_prefix(
        world,
        source,
        proposal,
        numbers_of(world, source, confirmations_of(world)->Ok_0, proposal)->Ok_0,
        spending_key_of(world, source, derivation_of(world, source)->Ok_0)->Ok_0,
        keys_for(proposal.inputs(), standalone(receivers)),
        0,
        Map::empty(),
        place,
        property,
    );
}

/// No key of an address's own is asked for before the receivers of the fetched account are
/// known.
pub proof fn law_keys_after_sources(world: World, call: Call, address: TransparentAddress)
    requires
        trail(world, call).contains(Question::Key(address)),
    ensures
        exists|account: AccountId|
            {
                let query = ReceiverQuery { account, include_change: true, include_standalone: true };
                &&& #[trigger] trail(world, call).contains(Question::Account(account))
                &&& trail(world, call).contains(Question::Sources(query))
                &&& (world.sources)(query) matches Ok(receivers) && imported(receivers@, address)
            },
{
    let property = |q: Question| q is Key;
    let list = trail(world, call);
    let i = choose|i: int| 0 <= i < list.len() && list[i] == Question::Key(address);
    list.lemma_filter_contains(property, i);
    lemma_keys_picked(world, call, property);
    let source = drawn_from(world, call)->0;
    let account = source.account;
    let query = all_receivers(account);
    lemma_trail(world, call, Question::Account(account));
    lemma_trail(world, call, Question::Sources(query));
    assert(trail(world, call).contains(Question::Account(account)));
    let receivers = (world.sources)(query)->Ok_0@;
    let proposal = proposal_of(world, source)->Ok_0;
    let pending = keys_for(proposal.inputs(), standalone(receivers));
    lemma_keys_prefix(
        world,
        source,
        proposal,
        numbers_of(world, source, confirmations_of(world)->Ok_0, proposal)->Ok_0,
        spending_key_of(world, source, derivation_of(world, source)->Ok_0)->Ok_0,
        pending,
        0,
        Map::empty(),
        0,
        property,
    );
    let asked_for = list.filter(property);
    let k = choose|k: int| 0 <= k < asked_for.len() && asked_for[k] == Question::Key(address);
    assert(asked_for[k] == Question::Key(pending[k]));
    assert(pending.contains(address));
    law_keys_needed(proposal.inputs(), standalone(receivers), address);
    law_standalone(receivers, address);
}

} // verus!
