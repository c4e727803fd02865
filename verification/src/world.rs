//! The call as a whole: what it asks of the wallet, the keystore and the
//! configuration, and how it ends, whatever they answer.

use secp256k1::SecretKey;
use vstd::prelude::*;
use zcash_client_backend::data_api::wallet::ConfirmationsPolicy;

use crate::account::{Account, AccountId};
use crate::address::{Receiver, TransparentAddress};
use crate::amount::Zatoshis;
use crate::call::{
    account_fetched, all_receivers, coinbase_outputs, confirmations_read, keys_wanted, outputs_listed,
    privacy_enforced, proposed, seed_decrypted, shielding_terms, OutputQuery, PrivacyPolicy,
    ProposalTermsView, ReceiverQuery,
};
use crate::collect::{key_decrypted, sources_listed};
use crate::error::{ErrorReply, KeystoreError, RpcError};
use crate::json::JsonValue;
use crate::preflight::Numbers;
use crate::proposal::Proposal;
use crate::resolve::{account_looked_up, owner_found, receivers_listed, scanned};
use crate::step::{FoundView, Order, ReadyView, StepView};

verus! {

/// How everything that can be asked is answered. What can be asked more than once
/// is answered by the place at which it is asked, so that the answers may differ.
pub ghost struct World {
    /// Whether the wallet has an account, when `fromaddresses` names it.
    pub known: spec_fn(AccountId) -> Result<bool, String>,
    /// The receivers of the account that `fromaddresses` names.
    pub receivers: spec_fn(ReceiverQuery) -> Result<Vec<TransparentAddress>, String>,
    /// The account that owns an address.
    pub owner: spec_fn(TransparentAddress) -> Result<Option<AccountId>, String>,
    /// The source account.
    pub account: spec_fn(AccountId) -> Result<Option<Account>, String>,
    /// The configured confirmations policy, unless it contradicts itself.
    pub confirmations: Option<ConfirmationsPolicy>,
    /// What the wallet proposes.
    pub proposal: spec_fn(ProposalTermsView) -> Result<Proposal, String>,
    /// Whether a proposal meets a privacy policy.
    pub privacy: spec_fn(Proposal, PrivacyPolicy) -> Result<(), RpcError>,
    /// What the outputs of the source address at a place are worth.
    pub outputs: spec_fn(nat, OutputQuery) -> Result<Vec<Zatoshis>, String>,
    /// The seed with a fingerprint.
    pub seed: spec_fn([u8; 32]) -> Result<Seq<u8>, KeystoreError>,
    /// The receivers of the source account, with where each came from.
    pub sources: spec_fn(ReceiverQuery) -> Result<Vec<Receiver>, String>,
    /// The key to the pending address at a place.
    pub key: spec_fn(nat, TransparentAddress) -> Result<SecretKey, KeystoreError>,
}

/// What a step asks for.
pub ghost enum Question {
    Known(AccountId),
    Receivers(ReceiverQuery),
    Owner(TransparentAddress),
    Account(AccountId),
    Confirmations,
    Proposal(ProposalTermsView),
    Privacy(Proposal, PrivacyPolicy),
    Outputs(OutputQuery),
    Warning(Numbers),
    Seed([u8; 32]),
    Sources(ReceiverQuery),
    Key(TransparentAddress),
}

/// What a step asks for. The last step asks for nothing.
pub open spec fn question(step: StepView) -> Option<Question> {
    match step {
        StepView::LookUpAccount { order, text, account } => Some(Question::Known(account)),
        StepView::ListReceivers { order, text, account } => Some(Question::Receivers(all_receivers(account))),
        StepView::FindOwner(asked) => Some(Question::Owner(asked.address)),
        StepView::FetchAccount { source } => Some(Question::Account(source.account)),
        StepView::ReadConfirmations { source, derivation } => Some(Question::Confirmations),
        StepView::Propose { source, derivation, confirmations } => Some(Question::Proposal(shielding_terms(source))),
        StepView::EnforcePrivacy { source, derivation, confirmations, proposal } => Some(
            Question::Privacy(proposal, PrivacyPolicy::AllowRevealedSenders),
        ),
        StepView::ListOutputs { source, derivation, confirmations, proposal, shielding, eligible, address, next } => Some(
            Question::Outputs(coinbase_outputs(address, proposal, confirmations)),
        ),
        StepView::WarnManyInputs { source, derivation, proposal, preflight } => Some(Question::Warning(preflight)),
        StepView::DecryptSeed { source, derivation, proposal, preflight } => Some(
            Question::Seed(derivation.fingerprint()),
        ),
        StepView::ListSources { source, proposal, preflight, usk } => Some(
            Question::Sources(all_receivers(source.account)),
        ),
        StepView::DecryptKey { source, proposal, preflight, usk, pending, address, next, keys } => Some(
            Question::Key(address),
        ),
        StepView::Done(_) => None,
    }
}

/// The step that follows when a step is answered.
pub open spec fn answered(world: World, step: StepView) -> StepView {
    match step {
        StepView::LookUpAccount { order, text, account } => account_looked_up(
            order,
            text,
            account,
            (world.known)(account),
        ),
        StepView::ListReceivers { order, text, account } => receivers_listed(
            order,
            text,
            account,
            (world.receivers)(all_receivers(account)),
        ),
        StepView::FindOwner(asked) => owner_found(asked, (world.owner)(asked.address)),
        StepView::FetchAccount { source } => account_fetched(source, (world.account)(source.account)),
        StepView::ReadConfirmations { source, derivation } => confirmations_read(
            source,
            derivation,
            world.confirmations,
        ),
        StepView::Propose { source, derivation, confirmations } => proposed(
            source,
            derivation,
            confirmations,
            (world.proposal)(shielding_terms(source)),
        ),
        StepView::EnforcePrivacy { source, derivation, confirmations, proposal } => privacy_enforced(
            source,
            derivation,
            confirmations,
            proposal,
            (world.privacy)(proposal, PrivacyPolicy::AllowRevealedSenders),
        ),
        StepView::ListOutputs { source, derivation, confirmations, proposal, shielding, eligible, address, next } =>
            outputs_listed(
            source,
            derivation,
            confirmations,
            proposal,
            shielding,
            eligible,
            next,
            (world.outputs)((next - 1) as nat, coinbase_outputs(address, proposal, confirmations)),
        ),
        StepView::WarnManyInputs { source, derivation, proposal, preflight } => keys_wanted(
            source,
            derivation,
            proposal,
            preflight,
        ),
        StepView::DecryptSeed { source, derivation, proposal, preflight } => seed_decrypted(
            source,
            derivation,
            proposal,
            preflight,
            (world.seed)(derivation.fingerprint()),
        ),
        StepView::ListSources { source, proposal, preflight, usk } => sources_listed(
            source,
            proposal,
            preflight,
            usk,
            (world.sources)(all_receivers(source.account)),
        ),
        StepView::DecryptKey { source, proposal, preflight, usk, pending, address, next, keys } => key_decrypted(
            source,
            proposal,
            preflight,
            usk,
            pending,
            address,
            next,
            keys,
            (world.key)((next - 1) as nat, address),
        ),
        StepView::Done(_) => step,
    }
}

/// How many kinds of steps can still follow a step.
pub open spec fn stages_left(step: StepView) -> nat {
    match step {
        StepView::LookUpAccount { .. } => 12,
        StepView::ListReceivers { .. } => 11,
        StepView::FindOwner(_) => 10,
        StepView::FetchAccount { .. } => 9,
        StepView::ReadConfirmations { .. } => 8,
        StepView::Propose { .. } => 7,
        StepView::EnforcePrivacy { .. } => 6,
        StepView::ListOutputs { .. } => 5,
        StepView::WarnManyInputs { .. } => 4,
        StepView::DecryptSeed { .. } => 3,
        StepView::ListSources { .. } => 2,
        StepView::DecryptKey { .. } => 1,
        StepView::Done(_) => 0,
    }
}

/// How many steps of the same kind can still follow a step.
pub open spec fn repeats_left(step: StepView) -> nat {
    let left: int = match step {
        StepView::FindOwner(asked) => asked.entries@.len() - asked.next,
        StepView::ListOutputs { source, derivation, confirmations, proposal, shielding, eligible, address, next } =>
            source.from_addrs.len() - next,
        StepView::DecryptKey { source, proposal, preflight, usk, pending, address, next, keys } => pending.len() - next,
        _ => 0,
    };
    if left > 0 {
        left as nat
    } else {
        0
    }
}

/// Going through the entries ends, or goes on behind them, or asks about an entry.
pub proof fn lemma_scanned(order: Order, entries: Vec<JsonValue>, next: nat, found: Option<FoundView>)
    ensures
        match scanned(order, entries, next, found) {
            StepView::Done(Err(_)) => true,
            StepView::FetchAccount { .. } => true,
            StepView::FindOwner(asked) => {
                &&& asked.order == order
                &&& asked.entries == entries
                &&& asked.found == found
                &&& next < asked.next <= entries@.len()
            },
            _ => false,
        },
    decreases entries@.len() - next,
{
    if next < entries@.len() {
        lemma_scanned(order, entries, next + 1, found);
    }
}

/// Every answer brings the call nearer to its end: a later kind of step follows, or
/// the same kind with less left to go through.
pub proof fn law_call_ends(world: World, step: StepView)
    requires
        question(step) is Some,
    ensures
        stages_left(answered(world, step)) < stages_left(step) || (stages_left(answered(world, step)) == stages_left(
            step,
        ) && repeats_left(answered(world, step)) < repeats_left(step)),
{
    if let StepView::FindOwner(asked) = step {
        if let Ok(Some(account)) = (world.owner)(asked.address) {
            lemma_scanned(
                asked.order,
                asked.entries,
                asked.next,
                Some(crate::resolve::with_address(asked.found, account, asked.address)),
            );
        }
    }
}

/// How the call ends from a step on.
pub open spec fn outcome(world: World, step: StepView) -> Result<ReadyView, ErrorReply>
    decreases stages_left(step), repeats_left(step),
{
    match step {
        StepView::Done(result) => result,
        _ => {
            proof {
                law_call_ends(world, step);
            }
            outcome(world, answered(world, step))
        },
    }
}

/// What the call asks for from a step on, in order.
pub open spec fn asked(world: World, step: StepView) -> Seq<Question>
    decreases stages_left(step), repeats_left(step),
{
    match question(step) {
        None => Seq::empty(),
        Some(q) => {
            proof {
                law_call_ends(world, step);
            }
            seq![q] + asked(world, answered(world, step))
        },
    }
}

} // verus!
