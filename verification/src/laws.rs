//! What holds of every call.

use secp256k1::SecretKey;
use vstd::prelude::*;
use zcash_address::ZcashAddress;
use zcash_client_backend::data_api::wallet::ConfirmationsPolicy;
use zcash_protocol::memo::MemoBytes;

use crate::account::{uuid_of_text, AccountId};
use crate::address::{script_address, Network, NetworkType, Receiver, TransparentAddress};
use crate::amount::{lemma_total_concat, total, Zatoshis, MAX_MONEY};
use crate::call::{all_receivers, coinbase_outputs};
use crate::collect::{has_own_key, keys_for, standalone};
use crate::error::RpcError;
use crate::json::JsonValue;
use crate::keys::with_key;
use crate::outcome::{
    array_source, call_outcome, confirmations_of, derivation_of, eligible_from, eligible_of, keys_from, keys_of,
    numbers_of, order_of, proposal_of, source_of, spending_key_of,
};
use crate::proposal::{counted, selected, values, with_outputs, Proposal, Sum, TransparentInput};
use crate::resolve::{entry_address, is_found, with_address};
use crate::step::{FoundView, Order, SourceView};
use crate::world::World;

verus! {

/// The elements of a list, each where it comes first.
pub open spec fn once<A>(list: Seq<A>) -> Seq<A>
    decreases list.len(),
{
    if list.len() == 0 {
        Seq::empty()
    } else {
        let rest = once(list.drop_last());
        if rest.contains(list.last()) {
            rest
        } else {
            rest.push(list.last())
        }
    }
}

/// Taking each element once keeps every element and repeats none.
pub proof fn law_once<A>(list: Seq<A>)
    ensures
        once(list).no_duplicates(),
        forall|x: A|
            #![trigger once(list).contains(x)]
            #![trigger list.contains(x)]
            once(list).contains(x) <==> list.contains(x),
        list.len() > 0 ==> once(list).len() > 0,
    decreases list.len(),
{
    if list.len() > 0 {
        let front = list.drop_last();
        law_once(front);
        let rest = once(front);
        assert forall|x: A|
            #![trigger once(list).contains(x)]
            #![trigger list.contains(x)]
            once(list).contains(x) <==> list.contains(x) by {
            if list.contains(x) {
                let i = choose|i: int| 0 <= i < list.len() && list[i] == x;
                if i < front.len() {
                    assert(front[i] == x);
                    assert(front.contains(x));
                    assert(rest.contains(x));
                    let k = choose|k: int| 0 <= k < rest.len() && rest[k] == x;
                    assert(once(list)[k] == x);
                } else if !rest.contains(x) {
                    assert(once(list)[rest.len() as int] == x);
                }
            }
            if once(list).contains(x) {
                let k = choose|k: int| 0 <= k < once(list).len() && once(list)[k] == x;
                if k < rest.len() {
                    assert(rest[k] == x);
                    assert(front.contains(x));
                    let i = choose|i: int| 0 <= i < front.len() && front[i] == x;
                    assert(list[i] == x);
                } else {
                    assert(list[list.len() - 1] == x);
                }
            }
        }
    }
}

/// What is taken once comes in the order in which it comes first.
pub proof fn law_once_in_order<A>(list: Seq<A>, i: int, j: int)
    requires
        0 <= i < j < once(list).len(),
    ensures
        exists|p: int|
            {
                &&& 0 <= p < list.len()
                &&& #[trigger] list[p] == once(list)[i]
                &&& forall|q: int| 0 <= q <= p ==> #[trigger] list[q] != once(list)[j]
            },
    decreases list.len(),
{
    if list.len() > 0 {
        let front = list.drop_last();
        let rest = once(front);
        law_once(front);
        if j < rest.len() {
            law_once_in_order(front, i, j);
            let p = choose|p: int|
                {
                    &&& 0 <= p < front.len()
                    &&& #[trigger] front[p] == rest[i]
                    &&& forall|q: int| 0 <= q <= p ==> #[trigger] front[q] != rest[j]
                };
            assert(list[p] == once(list)[i]);
            assert forall|q: int| 0 <= q <= p implies #[trigger] list[q] != once(list)[j] by {
                assert(list[q] == front[q]);
            }
        } else {
            assert(rest.contains(rest[i]));
            assert(front.contains(rest[i]));
            let p = choose|p: int| 0 <= p < front.len() && front[p] == rest[i];
            assert(list[p] == once(list)[i]);
            assert forall|q: int| 0 <= q <= p implies #[trigger] list[q] != once(list)[j] by {
                assert(front.contains(front[q]));
                assert(rest.contains(list[q]));
            }
        }
    }
}

/// Whether every entry of an array stands for a transparent address that belongs to
/// an account.
pub open spec fn all_owned(
    world: World,
    network: NetworkType,
    entries: Seq<JsonValue>,
    account: AccountId,
) -> bool {
    forall|i: int|
        0 <= i < entries.len() ==> {
            &&& entry_address(network, #[trigger] entries[i]) is Ok
            &&& (world.owner)(entry_address(network, entries[i])->Ok_0) == Ok::<Option<AccountId>, String>(
                Some(account),
            )
        }
}

/// The addresses that the entries of an array stand for.
pub open spec fn listed(network: NetworkType, entries: Seq<JsonValue>) -> Seq<TransparentAddress> {
    entries.map_values(|entry: JsonValue| entry_address(network, entry)->Ok_0)
}

/// What going through the first `next` entries has found.
pub open spec fn found_so_far(
    world: World,
    network: NetworkType,
    entries: Seq<JsonValue>,
    next: nat,
    found: Option<FoundView>,
) -> bool {
    &&& next <= entries.len()
    &&& match found {
        None => next == 0,
        Some(f) => {
            &&& next > 0
            &&& all_owned(world, network, entries.take(next as int), f.account)
            &&& f.from_addrs == once(listed(network, entries.take(next as int)))
        },
    }
}

pub(crate) proof fn lemma_found_grows(
    world: World,
    network: NetworkType,
    entries: Seq<JsonValue>,
    next: nat,
    found: Option<FoundView>,
    account: AccountId,
)
    requires
        next < entries.len(),
        found_so_far(world, network, entries, next, found),
        entry_address(network, entries[next as int]) is Ok,
        (world.owner)(entry_address(network, entries[next as int])->Ok_0) == Ok::<Option<AccountId>, String>(
            Some(account),
        ),
        found matches Some(f) ==> f.account == account,
    ensures
        found_so_far(
            world,
            network,
            entries,
            next + 1,
            if is_found(found, entry_address(network, entries[next as int])->Ok_0) {
                found
            } else {
                Some(with_address(found, account, entry_address(network, entries[next as int])->Ok_0))
            },
        ),
{
    let before = entries.take(next as int);
    let after = entries.take(next as int + 1);
    let address = entry_address(network, entries[next as int])->Ok_0;
    assert(listed(network, after).drop_last() =~= listed(network, before));
    assert(listed(network, after).last() == address);
    assert forall|i: int| 0 <= i < after.len() implies {
        &&& entry_address(network, #[trigger] after[i]) is Ok
        &&& (world.owner)(entry_address(network, after[i])->Ok_0) == Ok::<Option<AccountId>, String>(Some(account))
    } by {
        if i < next {
            assert(before[i] == after[i]);
        }
    }
    if found is None {
        assert(before =~= Seq::<JsonValue>::empty());
        assert(listed(network, before) =~= Seq::<TransparentAddress>::empty());
        assert(once(listed(network, before)) =~= Seq::<TransparentAddress>::empty());
        assert(once(listed(network, after)) =~= seq![address]);
    }
}

proof fn lemma_array_source(
    world: World,
    order: Order,
    entries: Vec<JsonValue>,
    next: nat,
    found: Option<FoundView>,
)
    requires
        found_so_far(world, order.network.network_type(), entries@, next, found),
    ensures
        ({
            let network = order.network.network_type();
            match array_source(world, order, entries, next, found) {
                Ok(source) => {
                    &&& entries@.len() > 0
                    &&& all_owned(world, network, entries@, source.account)
                    &&& source == SourceView {
                        order,
                        fromaddresses: JsonValue::Array(entries),
                        account: source.account,
                        from_addrs: once(listed(network, entries@)),
                    }
                },
                Err(_) => entries@.len() == 0 || forall|account: AccountId|
                    !all_owned(world, network, entries@, account),
            }
        }),
    decreases entries@.len() - next,
{
    let network = order.network.network_type();
    if next >= entries@.len() {
        assert(entries@.take(next as int) =~= entries@);
        law_once(listed(network, entries@));
    } else {
        let entry = entries@[next as int];
        if let Ok(address) = entry_address(network, entry) {
            if is_found(found, address) {
                let f = found->0;
                let before = listed(network, entries@.take(next as int));
                law_once(before);
                assert(once(before).contains(address));
                assert(before.contains(address));
                let j = choose|j: int| 0 <= j < before.len() && before[j] == address;
                assert(entries@.take(next as int)[j] == entries@[j]);
                lemma_found_grows(world, network, entries@, next, found, f.account);
                lemma_array_source(world, order, entries, next + 1, found);
            } else if let Ok(Some(account)) = (world.owner)(address) {
                if found matches Some(f) && f.account != account {
                    let f = found->0;
                    assert(entries@.take(next as int)[0] == entries@[0]);
                    assert forall|other: AccountId| !all_owned(world, network, entries@, other) by {
                        if all_owned(world, network, entries@, other) {
                            assert(entry_address(network, entries@[0]) is Ok);
                            assert(entry_address(network, entry) is Ok);
                            assert(false);
                        }
                    }
                } else {
                    lemma_found_grows(world, network, entries@, next, found, account);
                    lemma_array_source(
                        world,
                        order,
                        entries,
                        next + 1,
                        Some(with_address(found, account, address)),
                    );
                }
            }
        }
    }
}

/// An array is accepted exactly when it is not empty and every entry is a transparent
/// address of one and the same account of the wallet. The source is then that
/// account, with each address of the array once, where it comes first.
pub proof fn law_array_of_one_account(world: World, order: Order, entries: Vec<JsonValue>)
    ensures
        source_of(world, order, JsonValue::Array(entries)) is Ok <==> entries@.len() > 0 && exists|account: AccountId|
            all_owned(world, order.network.network_type(), entries@, account),
        source_of(world, order, JsonValue::Array(entries)) matches Ok(source) ==> {
            &&& all_owned(world, order.network.network_type(), entries@, source.account)
            &&& source == SourceView {
                order,
                fromaddresses: JsonValue::Array(entries),
                account: source.account,
                from_addrs: once(listed(order.network.network_type(), entries@)),
            }
            &&& source.from_addrs.no_duplicates()
            &&& source.from_addrs.len() > 0
        },
{
    lemma_array_source(world, order, entries, 0, None);
    law_once(listed(order.network.network_type(), entries@));
}

/// A string is accepted exactly when it is the UUID of an account of the wallet that
/// has transparent receivers. The source is then that account with all of them.
pub proof fn law_uuid_sweeps_account(world: World, order: Order, text: String)
    ensures
        source_of(world, order, JsonValue::String(text)) is Ok <==> {
            &&& uuid_of_text(text@) is Some
            &&& (world.known)(uuid_of_text(text@)->0) == Ok::<bool, String>(true)
            &&& (world.receivers)(all_receivers(uuid_of_text(text@)->0)) is Ok
            &&& (world.receivers)(all_receivers(uuid_of_text(text@)->0))->Ok_0@.len() > 0
        },
        source_of(world, order, JsonValue::String(text)) matches Ok(source) ==> source == (SourceView {
            order,
            fromaddresses: JsonValue::String(text),
            account: uuid_of_text(text@)->0,
            from_addrs: (world.receivers)(all_receivers(uuid_of_text(text@)->0))->Ok_0@,
        }),
{
}

/// A source always has an address, belongs to the order, and remembers the parameter
/// that named it.
pub proof fn law_source(world: World, order: Order, fromaddresses: JsonValue)
    ensures
        source_of(world, order, fromaddresses) matches Ok(source) ==> {
            &&& source.from_addrs.len() > 0
            &&& source.order == order
            &&& source.fromaddresses == fromaddresses
        },
{
    match fromaddresses {
        JsonValue::String(text) => law_uuid_sweeps_account(world, order, text),
        JsonValue::Array(entries) => law_array_of_one_account(world, order, entries),
        JsonValue::Other => {},
    }
}

/// The answer about the outputs of the source address at a place.
pub open spec fn outputs_at(
    world: World,
    source: SourceView,
    confirmations: ConfirmationsPolicy,
    proposal: Proposal,
    place: nat,
) -> Result<Vec<Zatoshis>, String> {
    (world.outputs)(place, coinbase_outputs(source.from_addrs[place as int], proposal, confirmations))
}

/// The outputs of the first `n` source addresses.
pub open spec fn outputs_of(
    world: World,
    source: SourceView,
    confirmations: ConfirmationsPolicy,
    proposal: Proposal,
    n: nat,
) -> Seq<Zatoshis>
    decreases n,
{
    if n == 0 {
        Seq::empty()
    } else {
        outputs_of(world, source, confirmations, proposal, (n - 1) as nat) + outputs_at(
            world,
            source,
            confirmations,
            proposal,
            (n - 1) as nat,
        )->Ok_0@
    }
}

pub(crate) proof fn lemma_outputs_grow(
    world: World,
    source: SourceView,
    confirmations: ConfirmationsPolicy,
    proposal: Proposal,
    m: nat,
    n: nat,
)
    requires
        m <= n,
    ensures
        total(outputs_of(world, source, confirmations, proposal, m)) <= total(
            outputs_of(world, source, confirmations, proposal, n),
        ),
    decreases n,
{
    if m < n {
        let k = (n - 1) as nat;
        lemma_outputs_grow(world, source, confirmations, proposal, m, k);
        lemma_total_concat(
            outputs_of(world, source, confirmations, proposal, k),
            outputs_at(world, source, confirmations, proposal, k)->Ok_0@,
        );
    }
}

proof fn lemma_eligible(
    world: World,
    source: SourceView,
    confirmations: ConfirmationsPolicy,
    proposal: Proposal,
    next: nat,
    eligible: Sum,
)
    requires
        next <= source.from_addrs.len(),
        forall|i: nat| i < next ==> (#[trigger] outputs_at(world, source, confirmations, proposal, i)) is Ok,
        eligible.value == total(outputs_of(world, source, confirmations, proposal, next)),
        eligible.value <= MAX_MONEY,
        eligible.utxos == counted(outputs_of(world, source, confirmations, proposal, next).len()),
    ensures
        ({
            let n = source.from_addrs.len();
            let all = outputs_of(world, source, confirmations, proposal, n);
            match eligible_from(world, source, confirmations, proposal, next, eligible) {
                Ok(sum) => {
                    &&& forall|i: nat| i < n ==> (#[trigger] outputs_at(world, source, confirmations, proposal, i)) is Ok
                    &&& total(all) <= MAX_MONEY
                    &&& sum == Sum { utxos: counted(all.len()), value: total(all) }
                },
                Err(_) => {
                    ||| exists|i: nat| i < n && (#[trigger] outputs_at(world, source, confirmations, proposal, i)) is Err
                    ||| total(all) > MAX_MONEY
                },
            }
        }),
    decreases source.from_addrs.len() - next,
{
    if next < source.from_addrs.len() {
        let here = outputs_at(world, source, confirmations, proposal, next);
        if let Ok(outputs) = here {
            lemma_total_concat(outputs_of(world, source, confirmations, proposal, next), outputs@);
            lemma_outputs_grow(world, source, confirmations, proposal, next + 1, source.from_addrs.len());
            if let Ok(sum) = with_outputs(eligible, outputs@) {
                lemma_eligible(world, source, confirmations, proposal, next + 1, sum);
            }
        }
    }
}

/// What is eligible is known exactly when the outputs of every source address are and
/// when they are worth no more than there can be. It is then all of them.
pub proof fn law_eligible(
    world: World,
    source: SourceView,
    confirmations: ConfirmationsPolicy,
    proposal: Proposal,
)
    ensures
        eligible_of(world, source, confirmations, proposal) is Ok <==> {
            &&& forall|i: nat|
                i < source.from_addrs.len() ==> (#[trigger] outputs_at(world, source, confirmations, proposal, i)) is Ok
            &&& total(outputs_of(world, source, confirmations, proposal, source.from_addrs.len())) <= MAX_MONEY
        },
        eligible_of(world, source, confirmations, proposal) matches Ok(sum) ==> sum == (Sum {
            utxos: counted(outputs_of(world, source, confirmations, proposal, source.from_addrs.len()).len()),
            value: total(outputs_of(world, source, confirmations, proposal, source.from_addrs.len())),
        }),
{
    lemma_eligible(world, source, confirmations, proposal, 0, Sum { utxos: 0, value: 0 });
}

/// No output and no zatoshi is lost between the pre-flight numbers: what is being
/// shielded is what the proposal spends, and with what remains it makes up all that
/// is eligible.
pub proof fn law_preflight_conserves(
    world: World,
    source: SourceView,
    confirmations: ConfirmationsPolicy,
    proposal: Proposal,
)
    ensures
        numbers_of(world, source, confirmations, proposal) matches Ok(numbers) ==> {
            let all = outputs_of(world, source, confirmations, proposal, source.from_addrs.len());
            &&& numbers.shielding.value == total(values(proposal.inputs()))
            &&& numbers.shielding.utxos == counted(proposal.inputs().len())
            &&& numbers.remaining.value + numbers.shielding.value == total(all)
            &&& numbers.remaining.utxos + numbers.shielding.utxos == counted(all.len())
        },
{
    law_eligible(world, source, confirmations, proposal);
}

/// The pre-flight numbers are known exactly when what is selected and what is eligible
/// are, and when what is selected is no more than what is eligible, in number and in
/// worth.
pub proof fn law_preflight_known(
    world: World,
    source: SourceView,
    confirmations: ConfirmationsPolicy,
    proposal: Proposal,
)
    ensures
        numbers_of(world, source, confirmations, proposal) is Ok <==> {
            let all = outputs_of(world, source, confirmations, proposal, source.from_addrs.len());
            &&& total(values(proposal.inputs())) <= MAX_MONEY
            &&& forall|i: nat|
                i < source.from_addrs.len() ==> (#[trigger] outputs_at(world, source, confirmations, proposal, i)) is Ok
            &&& total(all) <= MAX_MONEY
            &&& counted(proposal.inputs().len()) <= counted(all.len())
            &&& total(values(proposal.inputs())) <= total(all)
        },
{
    law_eligible(world, source, confirmations, proposal);
}

/// The receivers whose keys the keystore holds on their own are those that were
/// imported with a public key or a script.
pub proof fn law_standalone(receivers: Seq<Receiver>, address: TransparentAddress)
    ensures
        standalone(receivers).contains(address) <==> exists|i: int|
            0 <= i < receivers.len() && (#[trigger] receivers[i]).address == address && has_own_key(receivers[i].source),
    decreases receivers.len(),
{
    if receivers.len() > 0 {
        let front = receivers.drop_last();
        let rest = standalone(front);
        law_standalone(front, address);
        if standalone(receivers).contains(address) {
            let k = choose|k: int| 0 <= k < standalone(receivers).len() && standalone(receivers)[k] == address;
            if k < rest.len() {
                assert(rest[k] == address);
                let i = choose|i: int|
                    0 <= i < front.len() && (#[trigger] front[i]).address == address && has_own_key(front[i].source);
                assert(receivers[i] == front[i]);
            } else {
                assert(receivers[receivers.len() - 1].address == address);
            }
        }
        if exists|i: int|
            0 <= i < receivers.len() && (#[trigger] receivers[i]).address == address && has_own_key(
                receivers[i].source,
            ) {
            let i = choose|i: int|
                0 <= i < receivers.len() && (#[trigger] receivers[i]).address == address && has_own_key(
                    receivers[i].source,
                );
            if i < front.len() {
                assert(front[i] == receivers[i]);
                let k = choose|k: int| 0 <= k < rest.len() && rest[k] == address;
                assert(standalone(receivers)[k] == address);
            } else {
                assert(standalone(receivers)[rest.len() as int] == address);
            }
        }
    }
}

/// A key is needed for an address exactly when an input pays to it and the keystore
/// holds its key on its own.
pub proof fn law_keys_needed(
    inputs: Seq<TransparentInput>,
    own: Seq<TransparentAddress>,
    address: TransparentAddress,
)
    ensures
        keys_for(inputs, own).contains(address) <==> own.contains(address) && exists|i: int|
            0 <= i < inputs.len() && script_address((#[trigger] inputs[i]).script_pubkey@) == Some(address),
        keys_for(inputs, own).len() <= inputs.len(),
    decreases inputs.len(),
{
    if inputs.len() > 0 {
        let front = inputs.drop_last();
        let rest = keys_for(front, own);
        let all = keys_for(inputs, own);
        law_keys_needed(front, own, address);
        if all.contains(address) {
            let k = choose|k: int| 0 <= k < all.len() && all[k] == address;
            if k < rest.len() {
                assert(rest[k] == address);
                let i = choose|i: int|
                    0 <= i < front.len() && script_address((#[trigger] front[i]).script_pubkey@) == Some(address);
                assert(inputs[i] == front[i]);
            } else {
                assert(inputs[inputs.len() - 1] == inputs.last());
            }
        }
        if own.contains(address) && exists|i: int|
            0 <= i < inputs.len() && script_address((#[trigger] inputs[i]).script_pubkey@) == Some(address) {
            let i = choose|i: int|
                0 <= i < inputs.len() && script_address((#[trigger] inputs[i]).script_pubkey@) == Some(address);
            if i < front.len() {
                assert(front[i] == inputs[i]);
                let k = choose|k: int| 0 <= k < rest.len() && rest[k] == address;
                assert(all[k] == address);
            } else {
                assert(all[rest.len() as int] == address);
            }
        }
    }
}

/// The keys that were handed out for the first `n` pending addresses and that belong to
/// `address`, in order.
pub open spec fn keys_to(
    world: World,
    pending: Seq<TransparentAddress>,
    n: nat,
    address: TransparentAddress,
) -> Seq<SecretKey>
    decreases n,
{
    if n == 0 {
        Seq::empty()
    } else {
        let rest = keys_to(world, pending, (n - 1) as nat, address);
        if pending[n - 1] == address {
            rest.push((world.key)((n - 1) as nat, address)->Ok_0)
        } else {
            rest
        }
    }
}

/// Whether `keys` holds what was handed out for the first `n` pending addresses.
pub open spec fn holds_keys(
    world: World,
    pending: Seq<TransparentAddress>,
    n: nat,
    keys: Map<TransparentAddress, Seq<SecretKey>>,
) -> bool {
    forall|a: TransparentAddress|
        {
            &&& #[trigger] keys.dom().contains(a) <==> pending.take(n as int).contains(a)
            &&& keys.dom().contains(a) ==> keys[a] == keys_to(world, pending, n, a)
        }
}

proof fn lemma_no_keys_to(world: World, pending: Seq<TransparentAddress>, n: nat, address: TransparentAddress)
    requires
        n <= pending.len(),
        !pending.take(n as int).contains(address),
    ensures
        keys_to(world, pending, n, address) == Seq::<SecretKey>::empty(),
    decreases n,
{
    if n > 0 {
        assert(pending.take(n as int)[n - 1] == pending[n - 1]);
        assert(!pending.take(n - 1).contains(address)) by {
            let front = pending.take(n - 1);
            if front.contains(address) {
                let i = choose|i: int| 0 <= i < front.len() && front[i] == address;
                assert(pending.take(n as int)[i] == address);
            }
        }
        lemma_no_keys_to(world, pending, (n - 1) as nat, address);
    }
}

pub(crate) proof fn lemma_keys_from(
    world: World,
    pending: Seq<TransparentAddress>,
    next: nat,
    keys: Map<TransparentAddress, Seq<SecretKey>>,
)
    requires
        next <= pending.len(),
        holds_keys(world, pending, next, keys),
        forall|i: nat| i < next ==> (#[trigger] (world.key)(i, pending[i as int])) is Ok,
    ensures
        match keys_from(world, pending, next, keys) {
            Ok(all) => {
                &&& holds_keys(world, pending, pending.len(), all)
                &&& forall|i: nat| i < pending.len() ==> (#[trigger] (world.key)(i, pending[i as int])) is Ok
            },
            Err(_) => exists|i: nat| i < pending.len() && (#[trigger] (world.key)(i, pending[i as int])) is Err,
        },
    decreases pending.len() - next,
{
    if next < pending.len() {
        let address = pending[next as int];
        if let Ok(k) = (world.key)(next, address) {
            let after = with_key(keys, address, k);
            assert forall|a: TransparentAddress|
                {
                    &&& #[trigger] after.dom().contains(a) <==> pending.take(next as int + 1).contains(a)
                    &&& after.dom().contains(a) ==> after[a] == keys_to(world, pending, next + 1, a)
                } by {
                assert(keys.dom().contains(a) <==> pending.take(next as int).contains(a));
                assert(pending.take(next as int + 1)[next as int] == address);
                let front = pending.take(next as int);
                let longer = pending.take(next as int + 1);
                if front.contains(a) {
                    let i = choose|i: int| 0 <= i < front.len() && front[i] == a;
                    assert(longer[i] == a);
                } else {
                    lemma_no_keys_to(world, pending, next, a);
                }
                if longer.contains(a) && a != address {
                    let i = choose|i: int| 0 <= i < longer.len() && longer[i] == a;
                    assert(front[i] == a);
                }
            }
            lemma_keys_from(world, pending, next + 1, after);
        }
    }
}

/// The keys are collected exactly when the keystore hands out every one that is
/// pending. Each address then has the keys that were handed out for it, in the order
/// of the inputs, and no other address has any.
pub proof fn law_keys_collected(world: World, pending: Seq<TransparentAddress>)
    ensures
        keys_from(world, pending, 0, Map::empty()) is Ok <==> forall|i: nat|
            i < pending.len() ==> (#[trigger] (world.key)(i, pending[i as int])) is Ok,
        keys_from(world, pending, 0, Map::empty()) matches Ok(keys) ==> forall|a: TransparentAddress|
            {
                &&& #[trigger] keys.dom().contains(a) <==> pending.contains(a)
                &&& keys.dom().contains(a) ==> keys[a] == keys_to(world, pending, pending.len(), a)
            },
{
    assert(pending.take(0) =~= Seq::<TransparentAddress>::empty());
    lemma_keys_from(world, pending, 0, Map::empty());
    assert(pending.take(pending.len() as int) =~= pending);
}

/// A call is served exactly when everything that it needs is there: a destination, a
/// sound memo, a source, the source account with the derivation of its keys, a
/// confirmations policy, a proposal that reveals no more than its senders, numbers that add up, the spending
/// key, and the keys that the account does not derive.
pub proof fn law_call_served(
    world: World,
    to: Option<ZcashAddress>,
    network: Network,
    fromaddresses: JsonValue,
    toaddress: String,
    limit: Option<u32>,
    memo: Option<Result<MemoBytes, RpcError>>,
    import_keys: bool,
)
    ensures
        call_outcome(world, to, network, fromaddresses, toaddress, limit, memo, import_keys) is Ok <==> {
            &&& to is Some
            &&& !(memo matches Some(Err(_)))
            &&& {
                let order = order_of(to, network, toaddress, limit, memo, import_keys)->Ok_0;
                &&& source_of(world, order, fromaddresses) is Ok
                &&& {
                    let source = source_of(world, order, fromaddresses)->Ok_0;
                    &&& derivation_of(world, source) is Ok
                    &&& derivation_of(world, source)->Ok_0 is Some
                    &&& confirmations_of(world) is Ok
                    &&& proposal_of(world, source) is Ok
                    &&& numbers_of(
                        world,
                        source,
                        confirmations_of(world)->Ok_0,
                        proposal_of(world, source)->Ok_0,
                    ) is Ok
                    &&& spending_key_of(world, source, derivation_of(world, source)->Ok_0) is Ok
                    &&& keys_of(world, source, proposal_of(world, source)->Ok_0) is Ok
                }
            }
        },
        call_outcome(world, to, network, fromaddresses, toaddress, limit, memo, import_keys) matches Ok(ready) ==> {
            let order = order_of(to, network, toaddress, limit, memo, import_keys)->Ok_0;
            let source = source_of(world, order, fromaddresses)->Ok_0;
            let proposal = proposal_of(world, source)->Ok_0;
            &&& ready.preflight == numbers_of(world, source, confirmations_of(world)->Ok_0, proposal)->Ok_0
            &&& ready.proposal == proposal
            &&& ready.usk == spending_key_of(world, source, derivation_of(world, source)->Ok_0)->Ok_0
            &&& ready.standalone_keys == keys_of(world, source, proposal)->Ok_0
            &&& ready.method == "z_shieldcoinbase"@
            &&& ready.fromaddresses == fromaddresses
            &&& ready.toaddress == toaddress
            &&& ready.limit == limit
        },
{
    if let Ok(order) = order_of(to, network, toaddress, limit, memo, import_keys) {
        law_source(world, order, fromaddresses);
    }
}

} // verus!
