//! Building and broadcasting the transactions.
//!
//! This part runs after the caller has been answered. Like the call it alternates
//! between asking and deciding: the transactions are built, then sent, and what
//! sending them gave is handed on as it is.

use secp256k1::SecretKey;
use vstd::prelude::*;
use zcash_keys::keys::UnifiedSpendingKey;

use crate::address::TransparentAddress;
use crate::error::{reply, ErrorReply, LegacyCode, RpcError};
use crate::keys::StandaloneKeys;
use crate::preflight::Preflight;
use crate::proposal::Proposal;
use crate::step::{ContextInfo, Ready};

verus! {

/// The identifier of a transaction.
pub type TxId = [u8; 32];

/// Who, beside the recipients, can read the outputs of a transaction.
#[derive(Clone, Copy, Debug, PartialEq, Eq, Structural)]
pub enum OvkPolicy {
    /// The sender.
    Sender,
    /// Nobody.
    Discard,
}

/// What the transactions are built from.
pub struct BuildTerms {
    pub proposal: Proposal,
    pub usk: UnifiedSpendingKey,
    /// The keys to the inputs at addresses that the account did not derive.
    pub standalone_keys: StandaloneKeys,
    pub ovk_policy: OvkPolicy,
}

/// The model of [`BuildTerms`].
pub ghost struct BuildTermsView {
    pub proposal: Proposal,
    pub usk: UnifiedSpendingKey,
    pub standalone_keys: Map<TransparentAddress, Seq<SecretKey>>,
    pub ovk_policy: OvkPolicy,
}

impl View for BuildTerms {
    type V = BuildTermsView;

    open spec fn view(&self) -> BuildTermsView {
        BuildTermsView {
            proposal: self.proposal,
            usk: self.usk,
            standalone_keys: self.standalone_keys@,
            ovk_policy: self.ovk_policy,
        }
    }
}

/// The terms of every build: the proposal is built as it is, with the given keys, and
/// the sender can read the outputs.
pub open spec fn shielding_build(
    proposal: Proposal,
    usk: UnifiedSpendingKey,
    standalone_keys: Map<TransparentAddress, Seq<SecretKey>>,
) -> BuildTermsView {
    BuildTermsView { proposal, usk, standalone_keys, ovk_policy: OvkPolicy::Sender }
}

/// What to build the transactions of a proposal from.
pub fn build_terms(
    proposal: Proposal,
    usk: UnifiedSpendingKey,
    standalone_keys: StandaloneKeys,
) -> (terms: BuildTerms)
    ensures
        terms@ == shielding_build(proposal, usk, standalone_keys@),
{
    BuildTerms { proposal, usk, standalone_keys, ovk_policy: OvkPolicy::Sender }
}

/// To do: build the transactions.
pub struct Build {
    pub terms: BuildTerms,
}

/// To do: await the transactions that are being built.
pub struct AwaitBuild {}

/// To do: broadcast transactions.
pub struct Broadcast {
    pub txids: Vec<TxId>,
}

/// How the work ended, where broadcasting gives a `T`.
pub enum Ending<T> {
    /// The transactions were not built, and nothing was broadcast.
    NotBuilt(RpcError),
    /// They were broadcast, with this result.
    Broadcast(T),
}

/// The model of an [`Ending`].
pub ghost enum EndingView<T> {
    NotBuilt(ErrorReply),
    Broadcast(T),
}

impl<T> View for Ending<T> {
    type V = EndingView<T>;

    open spec fn view(&self) -> EndingView<T> {
        match *self {
            Ending::NotBuilt(error) => EndingView::NotBuilt(error@),
            Ending::Broadcast(sent) => EndingView::Broadcast(sent),
        }
    }
}

/// Where the work stands: what is to be done next, or how it ended.
pub enum RunStep<T> {
    Build(Build),
    Broadcast(Broadcast),
    Done(Ending<T>),
}

/// The model of a [`RunStep`].
pub ghost enum RunStepView<T> {
    Build(BuildTermsView),
    Broadcast(Seq<TxId>),
    Done(EndingView<T>),
}

impl<T> View for RunStep<T> {
    type V = RunStepView<T>;

    open spec fn view(&self) -> RunStepView<T> {
        match *self {
            RunStep::Build(s) => RunStepView::Build(s.terms@),
            RunStep::Broadcast(s) => RunStepView::Broadcast(s.txids@),
            RunStep::Done(ending) => RunStepView::Done(ending@),
        }
    }
}

/// The models of this part leave nothing out and add nothing.
pub proof fn law_run_views<T>(terms: BuildTerms, build: Build, txids: Vec<TxId>, error: RpcError, sent: T)
    ensures
        terms@.proposal == terms.proposal,
        terms@.usk == terms.usk,
        terms@.standalone_keys == terms.standalone_keys@,
        terms@.ovk_policy == terms.ovk_policy,
        RunStep::<T>::Build(build)@ == RunStepView::<T>::Build(build.terms@),
        RunStep::<T>::Broadcast(Broadcast { txids })@ == RunStepView::<T>::Broadcast(txids@),
        RunStep::<T>::Done(Ending::NotBuilt(error))@ == RunStepView::<T>::Done(EndingView::NotBuilt(error@)),
        RunStep::Done(Ending::Broadcast(sent))@ == RunStepView::Done(EndingView::Broadcast(sent)),
{
}

/// Starts to build and broadcast the transactions of a proposal.
pub fn run<T>(
    proposal: Proposal,
    usk: UnifiedSpendingKey,
    standalone_keys: StandaloneKeys,
) -> (step: RunStep<T>)
    ensures
        step@ == RunStepView::<T>::Build(shielding_build(proposal, usk, standalone_keys@)),
{
    RunStep::Build(Build { terms: build_terms(proposal, usk, standalone_keys) })
}

impl Ready {
    /// Parts what the caller is answered with from the work that is left to do.
    pub fn start<T>(self) -> (started: (Preflight, ContextInfo, RunStep<T>))
        ensures
            started.0 == self.preflight,
            started.1 == self.context,
            started.2@ == RunStepView::<T>::Build(
                shielding_build(self.proposal, self.usk, self.standalone_keys@),
            ),
    {
        (self.preflight, self.context, run(self.proposal, self.usk, self.standalone_keys))
    }
}

/// The answer when the transactions cannot be built, or the task that builds them
/// fails.
pub open spec fn not_built(text: Seq<char>) -> ErrorReply {
    reply(LegacyCode::Wallet, "Failed to build shielding transaction: "@ + text)
}

/// The step after the transactions were built: all of them are broadcast, in order.
pub open spec fn built<T>(txids: Result<Vec<TxId>, String>) -> RunStepView<T> {
    match txids {
        Err(e) => RunStepView::Done(EndingView::NotBuilt(not_built(e@))),
        Ok(txids) => RunStepView::Broadcast(txids@),
    }
}

impl Build {
    /// Hands out what to build the transactions from.
    pub fn start(self) -> (started: (BuildTerms, AwaitBuild))
        ensures
            started.0 == self.terms,
    {
        (self.terms, AwaitBuild {  })
    }
}

impl AwaitBuild {
    /// Goes on, given the transactions that were built.
    pub fn resume<T>(self, txids: Result<Vec<TxId>, String>) -> (step: RunStep<T>)
        ensures
            step@ == built::<T>(txids),
    {
        match txids {
            Err(e) => RunStep::Done(
                Ending::NotBuilt(
                    LegacyCode::Wallet.with_detail("Failed to build shielding transaction: ", e.as_str()),
                ),
            ),
            Ok(txids) => RunStep::Broadcast(Broadcast { txids }),
        }
    }
}

/// The step after the transactions were broadcast: whatever that gave is the result.
pub open spec fn broadcast<T>(sent: T) -> RunStepView<T> {
    RunStepView::Done(EndingView::Broadcast(sent))
}

impl Broadcast {
    /// Goes on, given what broadcasting gave.
    pub fn resume<T>(self, sent: T) -> (step: RunStep<T>)
        ensures
            step@ == broadcast(sent),
    {
        RunStep::Done(Ending::Broadcast(sent))
    }
}

/// How building and broadcasting are answered. What is asked again may be answered
/// otherwise: the answers go by the place at which they are asked for.
#[verifier::reject_recursive_types(T)]
pub ghost struct RunWorld<T> {
    /// The transactions that building gives.
    pub built: spec_fn(nat, BuildTermsView) -> Result<Vec<TxId>, String>,
    /// What broadcasting gives.
    pub sent: spec_fn(nat, Seq<TxId>) -> T,
}

/// What a step of the work asks for.
pub ghost enum RunQuestion {
    Build(BuildTermsView),
    Broadcast(Seq<TxId>),
}

/// What a step asks for. The last step asks for nothing.
pub open spec fn run_question<T>(step: RunStepView<T>) -> Option<RunQuestion> {
    match step {
        RunStepView::Build(terms) => Some(RunQuestion::Build(terms)),
        RunStepView::Broadcast(txids) => Some(RunQuestion::Broadcast(txids)),
        RunStepView::Done(_) => None,
    }
}

/// The step that follows when a step is answered at a place.
pub open spec fn run_answered<T>(world: RunWorld<T>, place: nat, step: RunStepView<T>) -> RunStepView<T> {
    match step {
        RunStepView::Build(terms) => built((world.built)(place, terms)),
        RunStepView::Broadcast(txids) => broadcast((world.sent)(place, txids)),
        RunStepView::Done(_) => step,
    }
}

/// How many steps can still follow a step.
pub open spec fn run_left<T>(step: RunStepView<T>) -> nat {
    match step {
        RunStepView::Build(_) => 2,
        RunStepView::Broadcast(_) => 1,
        RunStepView::Done(_) => 0,
    }
}

/// How the work ends from a step on, the first answer being the one at `place`.
pub open spec fn run_outcome<T>(world: RunWorld<T>, place: nat, step: RunStepView<T>) -> EndingView<T>
    decreases run_left(step),
{
    match step {
        RunStepView::Done(ending) => ending,
        _ => run_outcome(world, place + 1, run_answered(world, place, step)),
    }
}

/// What the work asks for from a step on, in order, the first answer being the one at
/// `place`.
pub open spec fn run_asked<T>(world: RunWorld<T>, place: nat, step: RunStepView<T>) -> Seq<RunQuestion>
    decreases run_left(step),
{
    match run_question(step) {
        None => Seq::empty(),
        Some(q) => seq![q] + run_asked(world, place + 1, run_answered(world, place, step)),
    }
}

/// The transactions are built once, from the proposal and the keys as they are, with
/// the sender able to read the outputs. If they cannot be built, nothing is broadcast
/// and the error says why. Otherwise all of them are broadcast, once, after that and in
/// order, and what broadcasting gave is the result, unchanged.
pub proof fn law_run<T>(
    world: RunWorld<T>,
    proposal: Proposal,
    usk: UnifiedSpendingKey,
    standalone_keys: Map<TransparentAddress, Seq<SecretKey>>,
)
    ensures
        ({
            let start = RunStepView::<T>::Build(shielding_build(proposal, usk, standalone_keys));
            let terms = BuildTermsView { proposal, usk, standalone_keys, ovk_policy: OvkPolicy::Sender };
            match (world.built)(0, terms) {
                Err(e) => {
                    &&& run_asked(world, 0, start) == seq![RunQuestion::Build(terms)]
                    &&& run_outcome(world, 0, start) == EndingView::<T>::NotBuilt(
                        ErrorReply {
                            code: LegacyCode::Wallet,
                            message: "Failed to build shielding transaction: "@ + e@,
                        },
                    )
                },
                Ok(txids) => {
                    &&& run_asked(world, 0, start) == seq![
                        RunQuestion::Build(terms),
                        RunQuestion::Broadcast(txids@),
                    ]
                    &&& run_outcome(world, 0, start) == EndingView::Broadcast((world.sent)(1, txids@))
                },
            }
        }),
{
    reveal_with_fuel(run_asked, 3);
    reveal_with_fuel(run_outcome, 3);
}

} // verus!
