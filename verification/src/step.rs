//! The call as a sequence of steps.
//!
//! Deciding and asking alternate: each [`Step`] but the last names something that
//! only the wallet, the keystore or the configuration can do, and resuming it with
//! the answer gives the next step. Every step has a model, in which lists and
//! texts are sequences and amounts are numbers; the contracts speak of the models.

use secp256k1::SecretKey;
use vstd::prelude::*;
use zcash_address::ZcashAddress;
use zcash_client_backend::data_api::wallet::ConfirmationsPolicy;
use zcash_keys::keys::UnifiedSpendingKey;
use zcash_protocol::memo::MemoBytes;

use crate::account::AccountId;
use crate::address::{Network, TransparentAddress};
use crate::error::{ErrorReply, RpcError};
use crate::json::JsonValue;
use crate::keys::{KeyDerivation, StandaloneKeys};
use crate::preflight::{Numbers, Preflight};
use crate::proposal::{Proposal, Sum, Tally};

verus! {

/// `MemoBytes` of the `zcash_protocol` crate: a memo, which this crate only
/// carries.
#[verifier::external_type_specification]
#[verifier::external_body]
pub struct ExMemoBytes(MemoBytes);

/// `ConfirmationsPolicy` of the `zcash_client_backend` crate: how deep in the chain an
/// output has to be before it is spent, which this crate only carries.
#[verifier::external_type_specification]
#[verifier::external_body]
pub struct ExConfirmationsPolicy(ConfirmationsPolicy);

/// What the caller asked for, as far as it stays the same throughout.
pub struct Order {
    pub network: Network,
    /// The destination as the caller wrote it.
    pub toaddress: String,
    /// The destination.
    pub to: ZcashAddress,
    pub memo: Option<MemoBytes>,
    /// How many outputs to select at most.
    pub limit: Option<u32>,
    /// Whether the wallet can hold keys that it did not derive itself.
    pub import_keys: bool,
}

/// Where the funds are to come from: one account, and addresses of it.
pub struct Source {
    pub order: Order,
    /// The parameter that named the source.
    pub fromaddresses: JsonValue,
    pub account: AccountId,
    pub from_addrs: Vec<TransparentAddress>,
}

/// The model of a [`Source`].
pub ghost struct SourceView {
    pub order: Order,
    pub fromaddresses: JsonValue,
    pub account: AccountId,
    pub from_addrs: Seq<TransparentAddress>,
}

impl View for Source {
    type V = SourceView;

    open spec fn view(&self) -> SourceView {
        SourceView {
            order: self.order,
            fromaddresses: self.fromaddresses,
            account: self.account,
            from_addrs: self.from_addrs@,
        }
    }
}

/// The addresses of a list that are known to belong to one account.
pub struct Found {
    pub account: AccountId,
    pub from_addrs: Vec<TransparentAddress>,
}

/// The model of a [`Found`].
pub ghost struct FoundView {
    pub account: AccountId,
    pub from_addrs: Seq<TransparentAddress>,
}

/// The model of what has been found in a list, if anything has.
pub open spec fn found_view(found: Option<Found>) -> Option<FoundView> {
    match found {
        Some(f) => Some(FoundView { account: f.account, from_addrs: f.from_addrs@ }),
        None => None,
    }
}

/// To do: tell whether the wallet has an account.
pub struct LookUpAccount {
    pub order: Order,
    /// The identifier as the caller wrote it.
    pub text: String,
    pub account: AccountId,
}

/// To do: list the transparent receivers of an account.
pub struct ListReceivers {
    pub order: Order,
    /// The identifier as the caller wrote it.
    pub text: String,
    pub account: AccountId,
}

/// To do: tell which account of the wallet owns an address.
pub struct FindOwner {
    pub order: Order,
    /// The list of addresses that the caller gave.
    pub entries: Vec<JsonValue>,
    /// The entry to go on with.
    pub next: usize,
    /// The address as the caller wrote it.
    pub text: String,
    pub address: TransparentAddress,
    /// What was found in the entries before this one.
    pub found: Option<Found>,
}

/// The model of a [`FindOwner`].
pub ghost struct FindOwnerView {
    pub order: Order,
    pub entries: Vec<JsonValue>,
    pub next: nat,
    pub text: Seq<char>,
    pub address: TransparentAddress,
    pub found: Option<FoundView>,
}

impl View for FindOwner {
    type V = FindOwnerView;

    open spec fn view(&self) -> FindOwnerView {
        FindOwnerView {
            order: self.order,
            entries: self.entries,
            next: self.next as nat,
            text: self.text@,
            address: self.address,
            found: found_view(self.found),
        }
    }
}

/// To do: fetch the source account.
pub struct FetchAccount {
    pub source: Source,
}

/// To do: read the confirmations policy from the configuration.
pub struct ReadConfirmations {
    pub source: Source,
    /// How the keys of the account are derived, if they are.
    pub derivation: Option<KeyDerivation>,
}

/// To do: propose a shielding transaction.
pub struct Propose {
    pub source: Source,
    pub derivation: Option<KeyDerivation>,
    /// The configured confirmations policy.
    pub confirmations: ConfirmationsPolicy,
}

/// To do: hold the proposal to a privacy policy.
pub struct EnforcePrivacy {
    pub source: Source,
    pub derivation: Option<KeyDerivation>,
    pub confirmations: ConfirmationsPolicy,
    pub proposal: Proposal,
}

/// To do: list the spendable coinbase outputs of an address.
pub struct ListOutputs {
    pub source: Source,
    pub derivation: Option<KeyDerivation>,
    pub confirmations: ConfirmationsPolicy,
    pub proposal: Proposal,
    /// What the proposal spends.
    pub shielding: Tally,
    /// What the addresses before this one hold.
    pub eligible: Tally,
    pub address: TransparentAddress,
    /// The source address to go on with.
    pub next: usize,
}

/// To do: warn that many inputs were selected.
pub struct WarnManyInputs {
    pub source: Source,
    pub derivation: Option<KeyDerivation>,
    pub proposal: Proposal,
    pub preflight: Preflight,
}

/// To do: decrypt the seed of the source account.
pub struct DecryptSeed {
    pub source: Source,
    pub derivation: KeyDerivation,
    pub proposal: Proposal,
    pub preflight: Preflight,
}

/// To do: list the transparent receivers of the source account, with where each
/// came from.
pub struct ListSources {
    pub source: Source,
    pub proposal: Proposal,
    pub preflight: Preflight,
    pub usk: UnifiedSpendingKey,
}

/// To do: decrypt the key to an address that the wallet did not derive itself.
pub struct DecryptKey {
    pub source: Source,
    pub proposal: Proposal,
    pub preflight: Preflight,
    pub usk: UnifiedSpendingKey,
    /// The addresses whose keys are needed, one for each input.
    pub pending: Vec<TransparentAddress>,
    pub address: TransparentAddress,
    /// The pending address to go on with.
    pub next: usize,
    /// The keys to the pending addresses before this one.
    pub keys: StandaloneKeys,
}

/// What the operation is recorded under.
pub struct ContextInfo {
    pub method: &'static str,
    pub fromaddresses: JsonValue,
    pub toaddress: String,
    pub limit: Option<u32>,
}

/// All that is needed to answer the caller and to build the transaction.
pub struct Ready {
    pub preflight: Preflight,
    pub context: ContextInfo,
    pub proposal: Proposal,
    pub usk: UnifiedSpendingKey,
    pub standalone_keys: StandaloneKeys,
}

/// The model of a [`Ready`].
pub ghost struct ReadyView {
    pub preflight: Numbers,
    pub method: Seq<char>,
    pub fromaddresses: JsonValue,
    pub toaddress: String,
    pub limit: Option<u32>,
    pub proposal: Proposal,
    pub usk: UnifiedSpendingKey,
    pub standalone_keys: Map<TransparentAddress, Seq<SecretKey>>,
}

impl View for Ready {
    type V = ReadyView;

    open spec fn view(&self) -> ReadyView {
        ReadyView {
            preflight: self.preflight@,
            method: self.context.method@,
            fromaddresses: self.context.fromaddresses,
            toaddress: self.context.toaddress,
            limit: self.context.limit,
            proposal: self.proposal,
            usk: self.usk,
            standalone_keys: self.standalone_keys@,
        }
    }
}

/// Where the call stands: what is to be done next, or how it ended.
pub enum Step {
    LookUpAccount(LookUpAccount),
    ListReceivers(ListReceivers),
    FindOwner(FindOwner),
    FetchAccount(FetchAccount),
    ReadConfirmations(ReadConfirmations),
    Propose(Propose),
    EnforcePrivacy(EnforcePrivacy),
    ListOutputs(ListOutputs),
    WarnManyInputs(WarnManyInputs),
    DecryptSeed(DecryptSeed),
    ListSources(ListSources),
    DecryptKey(DecryptKey),
    Done(Result<Ready, RpcError>),
}

/// The model of a [`Step`].
#[allow(inconsistent_fields)]
pub ghost enum StepView {
    LookUpAccount { order: Order, text: String, account: AccountId },
    ListReceivers { order: Order, text: String, account: AccountId },
    FindOwner(FindOwnerView),
    FetchAccount { source: SourceView },
    ReadConfirmations { source: SourceView, derivation: Option<KeyDerivation> },
    Propose { source: SourceView, derivation: Option<KeyDerivation>, confirmations: ConfirmationsPolicy },
    EnforcePrivacy {
        source: SourceView,
        derivation: Option<KeyDerivation>,
        confirmations: ConfirmationsPolicy,
        proposal: Proposal,
    },
    ListOutputs {
        source: SourceView,
        derivation: Option<KeyDerivation>,
        confirmations: ConfirmationsPolicy,
        proposal: Proposal,
        shielding: Sum,
        eligible: Sum,
        address: TransparentAddress,
        next: nat,
    },
    WarnManyInputs {
        source: SourceView,
        derivation: Option<KeyDerivation>,
        proposal: Proposal,
        preflight: Numbers,
    },
    DecryptSeed { source: SourceView, derivation: KeyDerivation, proposal: Proposal, preflight: Numbers },
    ListSources { source: SourceView, proposal: Proposal, preflight: Numbers, usk: UnifiedSpendingKey },
    DecryptKey {
        source: SourceView,
        proposal: Proposal,
        preflight: Numbers,
        usk: UnifiedSpendingKey,
        pending: Seq<TransparentAddress>,
        address: TransparentAddress,
        next: nat,
        keys: Map<TransparentAddress, Seq<SecretKey>>,
    },
    Done(Result<ReadyView, ErrorReply>),
}

impl View for Step {
    type V = StepView;

    open spec fn view(&self) -> StepView {
        match *self {
            Step::LookUpAccount(s) => StepView::LookUpAccount { order: s.order, text: s.text, account: s.account },
            Step::ListReceivers(s) => StepView::ListReceivers { order: s.order, text: s.text, account: s.account },
            Step::FindOwner(s) => StepView::FindOwner(s@),
            Step::FetchAccount(s) => StepView::FetchAccount { source: s.source@ },
            Step::ReadConfirmations(s) => StepView::ReadConfirmations {
                source: s.source@,
                derivation: s.derivation,
            },
            Step::Propose(s) => StepView::Propose {
                source: s.source@,
                derivation: s.derivation,
                confirmations: s.confirmations,
            },
            Step::EnforcePrivacy(s) => StepView::EnforcePrivacy {
                source: s.source@,
                derivation: s.derivation,
                confirmations: s.confirmations,
                proposal: s.proposal,
            },
            Step::ListOutputs(s) => StepView::ListOutputs {
                source: s.source@,
                derivation: s.derivation,
                confirmations: s.confirmations,
                proposal: s.proposal,
                shielding: s.shielding@,
                eligible: s.eligible@,
                address: s.address,
                next: s.next as nat,
            },
            Step::WarnManyInputs(s) => StepView::WarnManyInputs {
                source: s.source@,
                derivation: s.derivation,
                proposal: s.proposal,
                preflight: s.preflight@,
            },
            Step::DecryptSeed(s) => StepView::DecryptSeed {
                source: s.source@,
                derivation: s.derivation,
                proposal: s.proposal,
                preflight: s.preflight@,
            },
            Step::ListSources(s) => StepView::ListSources {
                source: s.source@,
                proposal: s.proposal,
                preflight: s.preflight@,
                usk: s.usk,
            },
            Step::DecryptKey(s) => StepView::DecryptKey {
                source: s.source@,
                proposal: s.proposal,
                preflight: s.preflight@,
                usk: s.usk,
                pending: s.pending@,
                address: s.address,
                next: s.next as nat,
                keys: s.keys@,
            },
            Step::Done(Ok(ready)) => StepView::Done(Ok(ready@)),
            Step::Done(Err(error)) => StepView::Done(Err(error@)),
        }
    }
}

/// The models of the steps leave nothing out and add nothing.
pub proof fn law_step_views(step: Step)
    ensures
        match step {
            Step::LookUpAccount(s) => step@ == (StepView::LookUpAccount {
                order: s.order,
                text: s.text,
                account: s.account,
            }),
            Step::ListReceivers(s) => step@ == (StepView::ListReceivers {
                order: s.order,
                text: s.text,
                account: s.account,
            }),
            Step::FindOwner(s) => {
                &&& step@ is FindOwner
                &&& step@->FindOwner_0.order == s.order
                &&& step@->FindOwner_0.entries == s.entries
                &&& step@->FindOwner_0.next == s.next
                &&& step@->FindOwner_0.text == s.text@
                &&& step@->FindOwner_0.address == s.address
                &&& step@->FindOwner_0.found is Some <==> s.found is Some
                &&& s.found is Some ==> {
                    &&& step@->FindOwner_0.found->0.account == s.found->0.account
                    &&& step@->FindOwner_0.found->0.from_addrs == s.found->0.from_addrs@
                }
            },
            Step::FetchAccount(s) => step@ == (StepView::FetchAccount { source: s.source@ }),
            Step::ReadConfirmations(s) => step@ == (StepView::ReadConfirmations {
                source: s.source@,
                derivation: s.derivation,
            }),
            Step::Propose(s) => step@ == (StepView::Propose {
                source: s.source@,
                derivation: s.derivation,
                confirmations: s.confirmations,
            }),
            Step::EnforcePrivacy(s) => step@ == (StepView::EnforcePrivacy {
                source: s.source@,
                derivation: s.derivation,
                confirmations: s.confirmations,
                proposal: s.proposal,
            }),
            Step::ListOutputs(s) => step@ == (StepView::ListOutputs {
                source: s.source@,
                derivation: s.derivation,
                confirmations: s.confirmations,
                proposal: s.proposal,
                shielding: s.shielding@,
                eligible: s.eligible@,
                address: s.address,
                next: s.next as nat,
            }),
            Step::WarnManyInputs(s) => step@ == (StepView::WarnManyInputs {
                source: s.source@,
                derivation: s.derivation,
                proposal: s.proposal,
                preflight: s.preflight@,
            }),
            Step::DecryptSeed(s) => step@ == (StepView::DecryptSeed {
                source: s.source@,
                derivation: s.derivation,
                proposal: s.proposal,
                preflight: s.preflight@,
            }),
            Step::ListSources(s) => step@ == (StepView::ListSources {
                source: s.source@,
                proposal: s.proposal,
                preflight: s.preflight@,
                usk: s.usk,
            }),
            Step::DecryptKey(s) => step@ == (StepView::DecryptKey {
                source: s.source@,
                proposal: s.proposal,
                preflight: s.preflight@,
                usk: s.usk,
                pending: s.pending@,
                address: s.address,
                next: s.next as nat,
                keys: s.keys@,
            }),
            Step::Done(Ok(ready)) => step@ == StepView::Done(Ok(ready@)),
            Step::Done(Err(error)) => step@ == StepView::Done(Err(error@)),
        },
{
}

/// The models of a source and of what a call ends with leave nothing out and add nothing.
pub proof fn law_source_and_ready_views(source: Source, ready: Ready)
    ensures
        source@.order == source.order,
        source@.fromaddresses == source.fromaddresses,
        source@.account == source.account,
        source@.from_addrs == source.from_addrs@,
        ready@.preflight == ready.preflight@,
        ready@.method == ready.context.method@,
        ready@.fromaddresses == ready.context.fromaddresses,
        ready@.toaddress == ready.context.toaddress,
        ready@.limit == ready.context.limit,
        ready@.proposal == ready.proposal,
        ready@.usk == ready.usk,
        ready@.standalone_keys == ready.standalone_keys@,
{
}

/// The call ends with an error.
pub open spec fn failed(error: ErrorReply) -> StepView {
    StepView::Done(Err(error))
}

} // verus!
