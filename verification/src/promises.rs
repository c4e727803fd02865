//! What a call asks of the wallet, said of its parameters and of the answers alone.

use vstd::prelude::*;
use zcash_protocol::memo::MemoBytes;

use crate::account::{uuid_of_text, AccountId};
use crate::address::{decoded_address, Address};
use crate::call::{shielding_terms, FeeRule, PrivacyPolicy, ProposalTermsView, ReceiverQuery};
use crate::error::RpcError;
use crate::json::JsonValue;
use crate::laws::{
    all_owned, law_array_of_one_account, law_source, law_uuid_sweeps_account, listed, once,
};
use crate::outcome::{derivation_of, order_of};
use crate::proposal::Proposal;
use crate::resolve::entry_address;
use crate::step::Order;
use crate::trail::{drawn_from, lemma_trail, trail, Call};
use crate::world::{Question, World};

verus! {

/// What is known of the source of a call: it is what the parameters and the answers
/// make it.
pub(crate) proof fn lemma_drawn_from(world: World, call: Call)
    ensures
        drawn_from(world, call) matches Some(source) ==> {
            &&& call.to is Some
            &&& !(call.memo matches Some(Err(_)))
            &&& source.fromaddresses == call.fromaddresses
            &&& source.order == (Order {
                network: call.network,
                toaddress: call.toaddress,
                to: call.to->0,
                memo: match call.memo {
                    Some(Ok(memo)) => Some(memo),
                    _ => None,
                },
                limit: call.limit,
                import_keys: call.import_keys,
            })
            &&& source.from_addrs.len() > 0
            &&& match call.fromaddresses {
                JsonValue::String(text) => {
                    &&& uuid_of_text(text@) == Some(source.account)
                    &&& (world.known)(source.account) == Ok::<bool, String>(true)
                    &&& (world.receivers)(
                        ReceiverQuery {
                            account: source.account,
                            include_change: true,
                            include_standalone: true,
                        },
                    ) matches Ok(list) && list@ == source.from_addrs
                },
                JsonValue::Array(entries) => {
                    &&& entries@.len() > 0
                    &&& all_owned(world, call.network.network_type(), entries@, source.account)
                    &&& source.from_addrs == once(listed(call.network.network_type(), entries@))
                },
                JsonValue::Other => false,
            }
        },
{
    if let Ok(order) = order_of(
        call.to,
        call.network,
        call.toaddress,
        call.limit,
        call.memo,
        call.import_keys,
    ) {
        law_source(world, order, call.fromaddresses);
        match call.fromaddresses {
            JsonValue::String(text) => law_uuid_sweeps_account(world, order, text),
            JsonValue::Array(entries) => law_array_of_one_account(world, order, entries),
            JsonValue::Other => {},
        }
    }
}

/// A call fetches an account exactly when its destination is an address, its memo is
/// sound, and its `fromaddresses` is either the UUID of that account, known to the wallet
/// and with transparent receivers, or a non-empty array of nothing but transparent
/// addresses that the account owns.
pub proof fn law_account_fetched(world: World, call: Call, account: AccountId)
    ensures
        trail(world, call).contains(Question::Account(account)) <==> {
            &&& call.to is Some
            &&& !(call.memo matches Some(Err(_)))
            &&& match call.fromaddresses {
                JsonValue::String(text) => {
                    &&& uuid_of_text(text@) == Some(account)
                    &&& (world.known)(account) == Ok::<bool, String>(true)
                    &&& (world.receivers)(
                        ReceiverQuery { account, include_change: true, include_standalone: true },
                    ) matches Ok(list) && list@.len() > 0
                },
                JsonValue::Array(entries) => {
                    &&& entries@.len() > 0
                    &&& forall|i: int|
                        0 <= i < entries@.len() ==> {
                            &&& (#[trigger] entries@[i]) is String
                            &&& decoded_address(
                                call.network.network_type(),
                                entries@[i]->String_0@,
                            ) matches Some(Address::Transparent(address)) && (world.owner)(address) == Ok::<
                                Option<AccountId>,
                                String,
                            >(Some(account))
                        }
                },
                JsonValue::Other => false,
            }
        },
{
    lemma_trail(world, call, Question::Account(account));
    lemma_drawn_from(world, call);
    if let Ok(order) = order_of(
        call.to,
        call.network,
        call.toaddress,
        call.limit,
        call.memo,
        call.import_keys,
    ) {
        match call.fromaddresses {
            JsonValue::String(text) => law_uuid_sweeps_account(world, order, text),
            JsonValue::Array(entries) => {
                law_array_of_one_account(world, order, entries);
                let network = call.network.network_type();
                let literal = forall|i: int|
                    0 <= i < entries@.len() ==> {
                        &&& (#[trigger] entries@[i]) is String
                        &&& decoded_address(network, entries@[i]->String_0@) matches Some(
                            Address::Transparent(address),
                        ) && (world.owner)(address) == Ok::<Option<AccountId>, String>(Some(account))
                    };
                if literal {
                    assert(all_owned(world, network, entries@, account));
                }
                if all_owned(world, network, entries@, account) {
                    assert forall|i: int| 0 <= i < entries@.len() implies {
                        &&& (#[trigger] entries@[i]) is String
                        &&& decoded_address(network, entries@[i]->String_0@) matches Some(
                            Address::Transparent(address),
                        ) && (world.owner)(address) == Ok::<Option<AccountId>, String>(Some(account))
                    } by {
                        assert(entry_address(network, entries@[i]) is Ok);
                    }
                }
                if literal && entries@.len() > 0 {
                    let source = drawn_from(world, call)->0;
                    assert(entry_address(network, entries@[0]) is Ok);
                }
            },
            JsonValue::Other => {},
        }
    }
}

/// The proposal that a call asks for pays to its destination, with its memo and its
/// limit, both as the caller gave them, at the standard fee and whatever the sum, from all
/// receivers of the account that a UUID names or from each address of an array once. All
/// of this holds whatever the shape of `fromaddresses` is and whichever parameters are
/// left out.
pub proof fn law_proposal_terms(world: World, call: Call, terms: ProposalTermsView)
    requires
        trail(world, call).contains(Question::Proposal(terms)),
    ensures
        call.to == Some(terms.to),
        call.memo is None ==> terms.memo is None,
        forall|memo: MemoBytes|
            call.memo == Some(Ok::<MemoBytes, RpcError>(memo)) ==> terms.memo == Some(memo),
        forall|error: RpcError| call.memo != Some(Err::<MemoBytes, _>(error)),
        call.limit is None ==> terms.limit is None,
        forall|n: u32| call.limit == Some(n) ==> terms.limit == Some(n as nat),
        terms.fee_rule == FeeRule::Zip317,
        terms.shielding_threshold == 0,
        match call.fromaddresses {
            JsonValue::String(text) => uuid_of_text(text@) matches Some(account) && (world.receivers)(
                ReceiverQuery { account, include_change: true, include_standalone: true },
            ) matches Ok(list) && list@ == terms.from_addrs,
            JsonValue::Array(entries) => terms.from_addrs == once(
                entries@.map_values(
                    |entry: JsonValue|
                        decoded_address(call.network.network_type(), entry->String_0@)->0->Transparent_0,
                ),
            ),
            JsonValue::Other => false,
        },
{
    lemma_trail(world, call, Question::Proposal(terms));
    lemma_drawn_from(world, call);
    if let JsonValue::Array(entries) = call.fromaddresses {
        let network = call.network.network_type();
        let named = entries@.map_values(
            |entry: JsonValue| decoded_address(network, entry->String_0@)->0->Transparent_0,
        );
        assert forall|i: int| 0 <= i < entries@.len() implies named[i] == #[trigger] listed(network, entries@)[i] by {
            assert(entry_address(network, entries@[i]) is Ok);
        }
        assert(named =~= listed(network, entries@));
    }
}

/// A call reads the confirmations policy exactly when it has fetched an account that is
/// still there.
pub proof fn law_confirmations_read(world: World, call: Call)
    ensures
        trail(world, call).contains(Question::Confirmations) <==> exists|account: AccountId|
            {
                &&& #[trigger] trail(world, call).contains(Question::Account(account))
                &&& (world.account)(account) matches Ok(Some(_))
            },
{
    lemma_trail(world, call, Question::Confirmations);
    if let Some(source) = drawn_from(world, call) {
        lemma_trail(world, call, Question::Account(source.account));
        assert(trail(world, call).contains(Question::Account(source.account)));
    }
    assert forall|account: AccountId| #[trigger] trail(world, call).contains(Question::Account(account)) implies
        drawn_from(world, call) matches Some(source) && account == source.account by {
        lemma_trail(world, call, Question::Account(account));
    }
}

/// A call asks for a proposal exactly when it has fetched an account that is still there
/// and the configured confirmations policy is sound.
pub proof fn law_proposal_asked(world: World, call: Call)
    ensures
        (exists|terms: ProposalTermsView| #[trigger] trail(world, call).contains(Question::Proposal(terms))) <==> {
            &&& world.confirmations is Some
            &&& exists|account: AccountId|
                {
                    &&& #[trigger] trail(world, call).contains(Question::Account(account))
                    &&& (world.account)(account) matches Ok(Some(_))
                }
        },
{
    if let Some(source) = drawn_from(world, call) {
        let terms = shielding_terms(source);
        lemma_trail(world, call, Question::Account(source.account));
        lemma_trail(world, call, Question::Proposal(terms));
        assert(trail(world, call).contains(Question::Account(source.account)));
        assert forall|account: AccountId| #[trigger] trail(world, call).contains(Question::Account(account)) implies account
            == source.account by {
            lemma_trail(world, call, Question::Account(account));
        }
        if derivation_of(world, source) is Ok && world.confirmations is Some {
            assert(trail(world, call).contains(Question::Proposal(terms)));
        }
    } else {
        assert forall|account: AccountId| !(#[trigger] trail(world, call).contains(Question::Account(account))) by {
            lemma_trail(world, call, Question::Account(account));
        }
    }
    assert forall|terms: ProposalTermsView| #[trigger] trail(world, call).contains(Question::Proposal(terms)) implies
        drawn_from(world, call) matches Some(source) && terms == shielding_terms(source) && derivation_of(
        world,
        source,
    ) is Ok && world.confirmations is Some by {
        lemma_trail(world, call, Question::Proposal(terms));
    }
}

/// A call holds a proposal to a policy exactly when the wallet made it, on the terms that
/// the call asked for, and the policy is to reveal no more than the senders.
pub proof fn law_privacy_asked(world: World, call: Call, proposal: Proposal, policy: PrivacyPolicy)
    ensures
        trail(world, call).contains(Question::Privacy(proposal, policy)) <==> {
            &&& policy == PrivacyPolicy::AllowRevealedSenders
            &&& exists|terms: ProposalTermsView|
                {
                    &&& #[trigger] trail(world, call).contains(Question::Proposal(terms))
                    &&& (world.proposal)(terms) == Ok::<Proposal, String>(proposal)
                }
        },
{
    lemma_trail(world, call, Question::Privacy(proposal, policy));
    if let Some(source) = drawn_from(world, call) {
        lemma_trail(world, call, Question::Proposal(shielding_terms(source)));
    }
    assert forall|terms: ProposalTermsView| #[trigger] trail(world, call).contains(Question::Proposal(terms)) implies
        drawn_from(world, call) matches Some(source) && terms == shielding_terms(source) by {
        lemma_trail(world, call, Question::Proposal(terms));
    }
}

} // verus!
