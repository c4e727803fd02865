//! How calls are refused, and in what order they ask, said of their parameters and of the
//! answers alone.

use vstd::prelude::*;

use crate::account::{uuid_of_text, uuid_text, AccountId};
use crate::address::{decoded_address, Address, NetworkType, TransparentAddress};
use crate::call::{ProposalTermsView, ReceiverQuery};
use crate::error::{ErrorReply, LegacyCode};
use crate::json::JsonValue;
use crate::laws::{law_once, listed, once};
use crate::outcome::order_of;
use crate::resolve::{entry_address, is_found, quoted, scanned, with_address};
use crate::step::{FoundView, Order, ReadyView, StepView};
use crate::trail::{ending, lemma_ending, lemma_trail, trail, Call};
use crate::world::{
    answered, asked, law_call_ends, outcome, question, repeats_left, stages_left, Question, World,
};

verus! {

/// A call whose destination is no address is refused; else one whose memo is unsound is,
/// with the error that says why; else one whose `fromaddresses` is neither a string nor an
/// array. None of them asks for anything.
pub proof fn law_parameters_refused(world: World, call: Call)
    ensures
        ({
            let refused = |code: LegacyCode, message: Seq<char>|
                {
                    &&& ending(world, call) == Err::<ReadyView, ErrorReply>(ErrorReply { code, message })
                    &&& trail(world, call) == Seq::<Question>::empty()
                };
            if call.to is None {
                refused(
                    LegacyCode::InvalidParameter,
                    "Invalid parameter, unknown address format: "@ + call.toaddress@,
                )
            } else if call.memo is Some && call.memo->0 is Err {
                refused(call.memo->0->Err_0.code, call.memo->0->Err_0.message@)
            } else if call.fromaddresses is Other {
                refused(
                    LegacyCode::InvalidParameter,
                    "Invalid `fromaddresses`: expected an account UUID string or an array of transparent addresses."@,
                )
            } else {
                true
            }
        }),
{
    lemma_ending(world, call);
}

/// A `fromaddresses` that is a string is refused if it is no UUID, before anything is asked;
/// if the wallet cannot look the account up or does not have it; if its receivers cannot be
/// listed; or if there are none. Otherwise the account is fetched next. All receivers are
/// listed, change and standalone included.
pub proof fn law_text(world: World, call: Call, text: String)
    requires
        call.to is Some,
        !(call.memo matches Some(Err(_))),
        call.fromaddresses == JsonValue::String(text),
    ensures
        ({
            let refused = |code: LegacyCode, message: Seq<char>|
                ending(world, call) == Err::<ReadyView, ErrorReply>(ErrorReply { code, message });
            let account = uuid_of_text(text@)->0;
            let query = ReceiverQuery { account, include_change: true, include_standalone: true };
            let known = (world.known)(account);
            let receivers = (world.receivers)(query);
            let first = seq![Question::Known(account)];
            let both = seq![Question::Known(account), Question::Receivers(query)];
            if uuid_of_text(text@) is None {
                &&& refused(
                    LegacyCode::InvalidParameter,
                    "Invalid `fromaddresses`: expected an account UUID string or an array of transparent addresses, got "@
                        + quoted(text@) + "."@,
                )
                &&& trail(world, call) == Seq::<Question>::empty()
            } else if known is Err {
                &&& refused(LegacyCode::Database, known->Err_0@)
                &&& trail(world, call) == first
            } else if !known->Ok_0 {
                &&& refused(LegacyCode::InvalidParameter, "Unknown account UUID: "@ + text@)
                &&& trail(world, call) == first
            } else if receivers is Err {
                &&& refused(LegacyCode::Database, receivers->Err_0@)
                &&& trail(world, call) == both
            } else if receivers->Ok_0@.len() == 0 {
                &&& refused(
                    LegacyCode::InvalidParameter,
                    "No source transparent addresses resolved from `fromaddresses`."@,
                )
                &&& trail(world, call) == both
            } else {
                trail(world, call).take(3) == both.push(Question::Account(account))
            }
        }),
{
    lemma_ending(world, call);
    reveal_with_fuel(asked, 4);
    let account = uuid_of_text(text@)->0;
    if uuid_of_text(text@) is Some && (world.known)(account) == Ok::<bool, String>(true) {
        let s0 = call.start();
        let s1 = answered(world, s0);
        let s2 = answered(world, s1);
        let s3 = answered(world, s2);
        assert(asked(world, s0) =~= seq![Question::Known(account)] + asked(world, s1));
        assert(asked(world, s1) =~= seq![question(s1)->0] + asked(world, s2));
        if question(s2) is Some {
            assert(asked(world, s2) =~= seq![question(s2)->0] + asked(world, s3));
        }
    }
}

/// What the first `k` entries of an array have shown, if they all belong to one account.
spec fn found_at(
    network: NetworkType,
    entries: Seq<JsonValue>,
    k: nat,
    account: AccountId,
) -> Option<FoundView> {
    if k == 0 {
        None
    } else {
        Some(FoundView { account, from_addrs: once(listed(network, entries.take(k as int))) })
    }
}

spec fn owners(list: Seq<TransparentAddress>) -> Seq<Question> {
    list.map_values(|address: TransparentAddress| Question::Owner(address))
}

proof fn lemma_scan_head(world: World, order: Order, entries: Vec<JsonValue>, k: nat, account: AccountId)
    requires
        k <= entries@.len(),
        forall|j: int|
            0 <= j < k ==> {
                &&& entry_address(order.network.network_type(), #[trigger] entries@[j]) is Ok
                &&& (world.owner)(entry_address(order.network.network_type(), entries@[j])->Ok_0) == Ok::<
                    Option<AccountId>,
                    String,
                >(Some(account))
            },
    ensures
        asked(world, scanned(order, entries, 0, None)) == owners(
            once(listed(order.network.network_type(), entries@.take(k as int))),
        ) + asked(
            world,
            scanned(order, entries, k, found_at(order.network.network_type(), entries@, k, account)),
        ),
        outcome(world, scanned(order, entries, 0, None)) == outcome(
            world,
            scanned(order, entries, k, found_at(order.network.network_type(), entries@, k, account)),
        ),
    decreases k,
{
    let network = order.network.network_type();
    let all = entries@;
    if k == 0 {
        assert(listed(network, all.take(0)) =~= Seq::<TransparentAddress>::empty());
        assert(owners(once(listed(network, all.take(0)))) =~= Seq::<Question>::empty());
        assert(Seq::<Question>::empty() + asked(world, scanned(order, entries, 0, None)) =~= asked(
            world,
            scanned(order, entries, 0, None),
        ));
    } else {
        let n = (k - 1) as nat;
        lemma_scan_head(world, order, entries, n, account);
        let before = listed(network, all.take(n as int));
        let after = listed(network, all.take(k as int));
        assert(entry_address(network, all[n as int]) is Ok);
        let address = entry_address(network, all[n as int])->Ok_0;
        assert(after.drop_last() =~= before);
        assert(after.last() == address);
        let found = found_at(network, all, n, account);
        let step = scanned(order, entries, n, found);
        if n == 0 {
            assert(before =~= Seq::<TransparentAddress>::empty());
        }
        if is_found(found, address) {
            assert(found_at(network, all, k, account) == found);
        } else {
            let next = scanned(order, entries, k, found_at(network, all, k, account));
            assert(once(after) =~= once(before).push(address));
            assert(with_address(found, account, address).from_addrs =~= once(after));
            assert(answered(world, step) == next);
            assert(asked(world, step) == seq![Question::Owner(address)] + asked(world, next));
            assert(outcome(world, step) == outcome(world, next));
            assert(owners(once(after)) =~= owners(once(before)) + seq![Question::Owner(address)]);
            assert(owners(once(before)) + (seq![Question::Owner(address)] + asked(world, next)) =~= owners(
                once(after),
            ) + asked(world, next));
        }
    }
}

/// An array of which the first `k` entries are transparent addresses of one account: the
/// wallet has been asked who owns each of these addresses, once and in order. If that is the
/// whole array, an empty one is refused and any other has its account fetched next.
/// Otherwise the entry at `k` is refused if it is no string, no address of the network, or
/// no transparent address; or, unless its address came before, if its owner cannot be told,
/// if it has none, or if it is another account. Nothing more is asked then.
pub proof fn law_array(world: World, call: Call, entries: Vec<JsonValue>, k: nat, account: AccountId)
    requires
        call.to is Some,
        !(call.memo matches Some(Err(_))),
        call.fromaddresses == JsonValue::Array(entries),
        k <= entries@.len(),
        forall|j: int|
            0 <= j < k ==> {
                &&& (#[trigger] entries@[j]) is String
                &&& decoded_address(call.network.network_type(), entries@[j]->String_0@) matches Some(
                    Address::Transparent(address),
                ) && (world.owner)(address) == Ok::<Option<AccountId>, String>(Some(account))
            },
    ensures
        ({
            let refused = |code: LegacyCode, message: Seq<char>|
                ending(world, call) == Err::<ReadyView, ErrorReply>(ErrorReply { code, message });
            let about = |list: Seq<TransparentAddress>|
                list.map_values(|address: TransparentAddress| Question::Owner(address));
            let before = once(
                entries@.take(k as int).map_values(
                    |entry: JsonValue|
                        decoded_address(call.network.network_type(), entry->String_0@)->0->Transparent_0,
                ),
            );
            let entry = entries@[k as int];
            let text = entry->String_0@;
            let decoded = decoded_address(call.network.network_type(), text);
            let address = decoded->0->Transparent_0;
            let owner = (world.owner)(address);
            if entries@.len() == 0 {
                &&& refused(
                    LegacyCode::InvalidParameter,
                    "Invalid `fromaddresses`: array must not be empty."@,
                )
                &&& trail(world, call) == Seq::<Question>::empty()
            } else if k == entries@.len() {
                trail(world, call).take(before.len() as int + 1) == about(before).push(Question::Account(account))
            } else if !(entry is String) {
                &&& refused(
                    LegacyCode::InvalidParameter,
                    "Invalid `fromaddresses`: every array entry must be a string."@,
                )
                &&& trail(world, call) == about(before)
            } else if decoded is None {
                &&& refused(
                    LegacyCode::InvalidAddressOrKey,
                    "Invalid `fromaddresses` entry: not a Zcash address: "@ + text,
                )
                &&& trail(world, call) == about(before)
            } else if !(decoded->0 is Transparent) {
                &&& refused(
                    LegacyCode::InvalidAddressOrKey,
                    "Invalid `fromaddresses` entry: only transparent addresses are accepted: "@ + text,
                )
                &&& trail(world, call) == about(before)
            } else if before.contains(address) {
                true
            } else if owner is Err {
                &&& refused(LegacyCode::Database, owner->Err_0@)
                &&& trail(world, call) == about(before.push(address))
            } else if owner->Ok_0 is None {
                &&& refused(
                    LegacyCode::InvalidAddressOrKey,
                    "Transparent address is not owned by any account in this wallet: "@ + text,
                )
                &&& trail(world, call) == about(before.push(address))
            } else if k > 0 && owner->Ok_0->0 != account {
                &&& refused(
                    LegacyCode::InvalidParameter,
                    "All addresses in `fromaddresses` must belong to the same account."@,
                )
                &&& trail(world, call) == about(before.push(address))
            } else {
                true
            }
        }),
{
    let network = call.network.network_type();
    let order = order_of(
        call.to,
        call.network,
        call.toaddress,
        call.limit,
        call.memo,
        call.import_keys,
    )->Ok_0;
    let all = entries@;
    let named = all.take(k as int).map_values(
        |entry: JsonValue| decoded_address(network, entry->String_0@)->0->Transparent_0,
    );
    assert forall|j: int| 0 <= j < k implies {
        &&& entry_address(network, #[trigger] all[j]) is Ok
        &&& (world.owner)(entry_address(network, all[j])->Ok_0) == Ok::<Option<AccountId>, String>(Some(account))
    } by {}
    assert forall|j: int| 0 <= j < k implies named[j] == #[trigger] listed(network, all.take(k as int))[j] by {
        assert(entry_address(network, all[j]) is Ok);
    }
    assert(named =~= listed(network, all.take(k as int)));
    lemma_scan_head(world, order, entries, k, account);
    let before = once(named);
    let found = found_at(network, all, k, account);
    let step = scanned(order, entries, k, found);
    law_once(named);
    let about = |list: Seq<TransparentAddress>|
        list.map_values(|address: TransparentAddress| Question::Owner(address));
    assert(about(before) =~= owners(before));
    if k < all.len() {
        if let Ok(address) = entry_address(network, all[k as int]) {
            if k == 0 {
                assert(before =~= Seq::<TransparentAddress>::empty());
            }
            if !before.contains(address) {
                assert(!is_found(found, address));
                let next = answered(world, step);
                assert(asked(world, step) == seq![Question::Owner(address)] + asked(world, next));
                assert(outcome(world, step) == outcome(world, next));
                assert(about(before.push(address)) =~= owners(before) + seq![Question::Owner(address)]);
                if question(next) is None {
                    assert(asked(world, next) =~= Seq::<Question>::empty());
                    assert(trail(world, call) =~= about(before.push(address)));
                }
            }
        } else {
            assert(asked(world, step) =~= Seq::<Question>::empty());
            assert(trail(world, call) =~= about(before));
        }
    } else if k > 0 {
        let next = answered(world, step);
        assert(asked(world, step) == seq![Question::Account(account)] + asked(world, next));
        assert(trail(world, call).take(before.len() as int + 1) =~= about(before).push(Question::Account(account)));
    } else {
        assert(before =~= Seq::<TransparentAddress>::empty());
        assert(asked(world, step) =~= Seq::<Question>::empty());
        assert(trail(world, call) =~= Seq::<Question>::empty());
    }
}

/// A call whose account cannot be fetched is refused; else one without a sound
/// confirmations policy is.
pub proof fn law_account_refused(world: World, call: Call, account: AccountId)
    requires
        trail(world, call).contains(Question::Account(account)),
    ensures
        ({
            let refused = |code: LegacyCode, message: Seq<char>|
                ending(world, call) == Err::<ReadyView, ErrorReply>(ErrorReply { code, message });
            let answer = (world.account)(account);
            if answer is Err {
                refused(LegacyCode::Database, answer->Err_0@)
            } else if answer->Ok_0 is None {
                refused(
                    LegacyCode::Database,
                    "Account vanished mid-call: AccountUuid("@ + uuid_text(account) + ")"@,
                )
            } else if world.confirmations is None {
                refused(
                    LegacyCode::Wallet,
                    "Configuration error: minimum confirmations for spending trusted TXOs cannot exceed that for untrusted TXOs."@,
                )
            } else {
                true
            }
        }),
{
    lemma_ending(world, call);
    lemma_trail(world, call, Question::Account(account));
    reveal_strlit("Account vanished mid-call: ");
    reveal_strlit("AccountUuid(");
    reveal_strlit("Account vanished mid-call: AccountUuid(");
    assert("Account vanished mid-call: AccountUuid("@ + uuid_text(account) + ")"@ =~= "Account vanished mid-call: "@
        + ("AccountUuid("@ + uuid_text(account) + ")"@));
}

/// A call is refused when the wallet cannot propose what it asks for.
pub proof fn law_proposal_refused(world: World, call: Call, terms: ProposalTermsView)
    requires
        trail(world, call).contains(Question::Proposal(terms)),
        (world.proposal)(terms) is Err,
    ensures
        ending(world, call) == Err::<ReadyView, ErrorReply>(
            ErrorReply {
                code: LegacyCode::Wallet,
                message: "Failed to propose shielding transaction: "@ + (world.proposal)(terms)->Err_0@,
            },
        ),
{
    lemma_ending(world, call);
    lemma_trail(world, call, Question::Proposal(terms));
}

/// The order of the questions: first those that find the source, then the account, the
/// configuration, the proposal, its privacy and the outputs, and only then the warning, the
/// seed, the receivers and the keys.
pub open spec fn rank(q: Question) -> nat {
    match q {
        Question::Known(_) => 1,
        Question::Receivers(_) => 2,
        Question::Owner(_) => 3,
        Question::Account(_) => 4,
        Question::Confirmations => 5,
        Question::Proposal(_) => 6,
        Question::Privacy(_, _) => 7,
        Question::Outputs(_) => 8,
        Question::Warning(_) => 9,
        Question::Seed(_) => 10,
        Question::Sources(_) => 11,
        Question::Key(_) => 12,
    }
}

proof fn lemma_order(world: World, step: StepView, i: int, j: int)
    requires
        0 <= i < asked(world, step).len(),
        0 <= j < asked(world, step).len(),
    ensures
        question(step) is Some,
        rank(question(step)->0) <= rank(asked(world, step)[i]),
        i < j ==> {
            ||| rank(asked(world, step)[i]) < rank(asked(world, step)[j])
            ||| rank(asked(world, step)[i]) == rank(asked(world, step)[j]) && (asked(world, step)[i] is Owner
                || asked(world, step)[i] is Outputs || asked(world, step)[i] is Key)
        },
    decreases stages_left(step), repeats_left(step),
{
    if question(step) is Some {
        law_call_ends(world, step);
        let next = answered(world, step);
        let rest = asked(world, next);
        assert(asked(world, step) == seq![question(step)->0] + rest);
        if i > 0 {
            assert(asked(world, step)[i] == rest[i - 1]);
            lemma_order(world, next, i - 1, i - 1);
        }
        if j > 0 {
            assert(asked(world, step)[j] == rest[j - 1]);
            lemma_order(world, next, j - 1, j - 1);
        }
        if 0 < i < j {
            lemma_order(world, next, i - 1, j - 1);
        }
    }
}

/// A call asks in one order, and of each kind only once, but for owners, outputs and keys.
pub proof fn law_order(world: World, call: Call, i: int, j: int)
    requires
        0 <= i < j < trail(world, call).len(),
    ensures
        ({
            let earlier = trail(world, call)[i];
            let later = trail(world, call)[j];
            ||| rank(earlier) < rank(later)
            ||| earlier is Owner && later is Owner
            ||| earlier is Outputs && later is Outputs
            ||| earlier is Key && later is Key
        }),
{
    lemma_order(world, call.start(), i, j);
}

} // verus!
