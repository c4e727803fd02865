//! The call from the parameters to all that the transaction is built from.

use vstd::prelude::*;
use zcash_address::ZcashAddress;
use zcash_client_backend::data_api::wallet::ConfirmationsPolicy;
use zcash_keys::keys::UnifiedSpendingKey;
use zcash_protocol::memo::MemoBytes;

use crate::account::{debug_account, display_uuid, uuid_text, Account, AccountId};
use crate::address::{parse_address, parsed_address, Network, TransparentAddress};
use crate::amount::Zatoshis;
use crate::collect::{finish, ready};
use crate::error::{keystore_reply, reply, ErrorReply, KeystoreError, LegacyCode, RpcError};
use crate::json::JsonValue;
use crate::keys::{derive_spending_key, derived, spending_key, KeyDerivation, StandaloneKeys};
use crate::preflight::{accounted, Numbers, Preflight, COINBASE_INPUTS_WARN_THRESHOLD};
use crate::proposal::{add_outputs, selected, sum_selected_inputs, with_outputs, Proposal, Sum, Tally};
use crate::resolve::{database, resolution, resolve_fromaddresses};
use crate::step::{
    failed, DecryptSeed, EnforcePrivacy, FetchAccount, ListOutputs, ListReceivers, ListSources, Order, Propose,
    ReadConfirmations, Source, SourceView, Step, StepView, WarnManyInputs,
};

verus! {

/// The answer to a destination that is no address.
pub open spec fn unknown_destination(toaddress: Seq<char>) -> ErrorReply {
    reply(LegacyCode::InvalidParameter, "Invalid parameter, unknown address format: "@ + toaddress)
}

/// The first step of a call, given the address that the destination stands for and
/// what was made of the memo.
pub open spec fn called(
    to: Option<ZcashAddress>,
    network: Network,
    fromaddresses: JsonValue,
    toaddress: String,
    limit: Option<u32>,
    memo: Option<Result<MemoBytes, RpcError>>,
    import_keys: bool,
) -> StepView {
    match to {
        None => failed(unknown_destination(toaddress@)),
        Some(to) => match memo {
            Some(Err(error)) => failed(error@),
            Some(Ok(memo)) => resolution(
                Order { network, toaddress, to, memo: Some(memo), limit, import_keys },
                fromaddresses,
            ),
            None => resolution(Order { network, toaddress, to, memo: None, limit, import_keys }, fromaddresses),
        },
    }
}

/// Starts a call, given the address that the destination stands for.
pub fn call_to(
    to: Option<ZcashAddress>,
    network: Network,
    fromaddresses: JsonValue,
    toaddress: String,
    limit: Option<u32>,
    memo: Option<Result<MemoBytes, RpcError>>,
    import_keys: bool,
) -> (step: Step)
    ensures
        step@ == called(to, network, fromaddresses, toaddress, limit, memo, import_keys),
{
    let to = match to {
        Some(to) => to,
        None => {
            return Step::Done(
                Err(
                    LegacyCode::InvalidParameter.with_detail(
                        "Invalid parameter, unknown address format: ",
                        toaddress.as_str(),
                    ),
                ),
            );
        },
    };
    let memo = match memo {
        Some(Err(error)) => {
            return Step::Done(Err(error));
        },
        Some(Ok(memo)) => Some(memo),
        None => None,
    };
    resolve_fromaddresses(Order { network, toaddress, to, memo, limit, import_keys }, fromaddresses)
}

/// Starts a call: shields coinbase outputs from the source that `fromaddresses`
/// names to the address `toaddress`, whoever that belongs to. What was made of the
/// memo is given with it.
pub fn call(
    network: Network,
    fromaddresses: JsonValue,
    toaddress: String,
    limit: Option<u32>,
    memo: Option<Result<MemoBytes, RpcError>>,
    import_keys: bool,
) -> (step: Step)
    ensures
        step@ == called(
            parsed_address(toaddress@),
            network,
            fromaddresses,
            toaddress,
            limit,
            memo,
            import_keys,
        ),
{
    let to = parse_address(toaddress.as_str());
    call_to(to, network, fromaddresses, toaddress, limit, memo, import_keys)
}

/// Which receivers of an account the wallet is to list.
#[derive(Clone, Copy, Debug, PartialEq, Eq, Structural)]
pub struct ReceiverQuery {
    pub account: AccountId,
    pub include_change: bool,
    pub include_standalone: bool,
}

/// The query for all transparent receivers of an account.
pub open spec fn all_receivers(account: AccountId) -> ReceiverQuery {
    ReceiverQuery { account, include_change: true, include_standalone: true }
}

impl ListReceivers {
    /// Which receivers to list.
    pub fn query(&self) -> (query: ReceiverQuery)
        ensures
            query == all_receivers(self.account),
            query.account == self.account,
            query.include_change,
            query.include_standalone,
    {
        ReceiverQuery { account: self.account, include_change: true, include_standalone: true }
    }
}

impl ListSources {
    /// Which receivers to list.
    pub fn query(&self) -> (query: ReceiverQuery)
        ensures
            query == all_receivers(self.source.account),
            query.account == self.source.account,
            query.include_change,
            query.include_standalone,
    {
        ReceiverQuery { account: self.source.account, include_change: true, include_standalone: true }
    }
}

/// The answer to an account that was there and is no more.
pub open spec fn vanished(account: AccountId) -> ErrorReply {
    reply(LegacyCode::Database, "Account vanished mid-call: "@ + ("AccountUuid("@ + uuid_text(account) + ")"@))
}

/// The step after the source account was fetched.
pub open spec fn account_fetched(source: SourceView, account: Result<Option<Account>, String>) -> StepView {
    match account {
        Err(e) => failed(database(e@)),
        Ok(None) => failed(vanished(source.account)),
        Ok(Some(a)) => StepView::ReadConfirmations { source, derivation: a.derivation },
    }
}

impl FetchAccount {
    /// Goes on, given the source account.
    pub fn resume(self, account: Result<Option<Account>, String>) -> (step: Step)
        ensures
            step@ == account_fetched(self.source@, account),
    {
        match account {
            Err(e) => Step::Done(Err(LegacyCode::Database.with_message(e))),
            Ok(None) => {
                let id = debug_account(self.source.account);
                Step::Done(Err(LegacyCode::Database.with_detail("Account vanished mid-call: ", id.as_str())))
            },
            Ok(Some(a)) => Step::ReadConfirmations(
                ReadConfirmations { source: self.source, derivation: a.derivation },
            ),
        }
    }
}

/// The answer to a configuration whose confirmations policy contradicts itself.
pub open spec fn bad_confirmations() -> ErrorReply {
    reply(
        LegacyCode::Wallet,
        "Configuration error: minimum confirmations for spending trusted TXOs \
         cannot exceed that for untrusted TXOs."@,
    )
}

/// The step after the confirmations policy was read.
pub open spec fn confirmations_read(
    source: SourceView,
    derivation: Option<KeyDerivation>,
    policy: Option<ConfirmationsPolicy>,
) -> StepView {
    match policy {
        None => failed(bad_confirmations()),
        Some(confirmations) => StepView::Propose { source, derivation, confirmations },
    }
}

impl ReadConfirmations {
    /// Goes on, given the configured policy, unless it contradicts itself.
    pub fn resume(self, policy: Option<ConfirmationsPolicy>) -> (step: Step)
        ensures
            step@ == confirmations_read(self.source@, self.derivation, policy),
    {
        match policy {
            None => Step::Done(
                Err(
                    LegacyCode::Wallet.with_static(
                        "Configuration error: minimum confirmations for spending trusted TXOs \
                         cannot exceed that for untrusted TXOs.",
                    ),
                ),
            ),
            Some(confirmations) => Step::Propose(
                Propose { source: self.source, derivation: self.derivation, confirmations },
            ),
        }
    }
}

/// How the fee of a transaction is computed.
#[derive(Clone, Copy, Debug, PartialEq, Eq, Structural)]
pub enum FeeRule {
    Zip317,
}

/// What the wallet is to propose.
pub struct ProposalTerms<'a> {
    pub fee_rule: FeeRule,
    /// Below what sum nothing is shielded.
    pub shielding_threshold: Zatoshis,
    pub from_addrs: &'a Vec<TransparentAddress>,
    pub to: &'a ZcashAddress,
    pub memo: &'a Option<MemoBytes>,
    /// How many outputs to select at most.
    pub limit: Option<usize>,
}

/// What the wallet is asked to propose.
pub ghost struct ProposalTermsView {
    pub fee_rule: FeeRule,
    pub shielding_threshold: nat,
    pub from_addrs: Seq<TransparentAddress>,
    pub to: ZcashAddress,
    pub memo: Option<MemoBytes>,
    pub limit: Option<nat>,
}

/// The terms of every proposal: any sum is shielded, from all source addresses, to
/// the destination, with the memo and the limit that the caller gave.
pub open spec fn shielding_terms(source: SourceView) -> ProposalTermsView {
    ProposalTermsView {
        fee_rule: FeeRule::Zip317,
        shielding_threshold: 0,
        from_addrs: source.from_addrs,
        to: source.order.to,
        memo: source.order.memo,
        limit: match source.order.limit {
            Some(n) => Some(n as nat),
            None => None,
        },
    }
}

impl<'a> View for ProposalTerms<'a> {
    type V = ProposalTermsView;

    open spec fn view(&self) -> ProposalTermsView {
        ProposalTermsView {
            fee_rule: self.fee_rule,
            shielding_threshold: self.shielding_threshold@,
            from_addrs: self.from_addrs@,
            to: *self.to,
            memo: *self.memo,
            limit: match self.limit {
                Some(n) => Some(n as nat),
                None => None,
            },
        }
    }
}

/// What the wallet is asked to propose is all that the terms say.
pub proof fn law_terms_view(terms: ProposalTerms<'_>)
    ensures
        terms@.fee_rule == terms.fee_rule,
        terms@.shielding_threshold == terms.shielding_threshold@,
        terms@.from_addrs == terms.from_addrs@,
        terms@.to == *terms.to,
        terms@.memo == *terms.memo,
        terms.limit is None ==> terms@.limit is None,
        terms.limit is Some ==> terms@.limit == Some(terms.limit->0 as nat),
{
}

/// The answer when the wallet cannot propose a transaction.
pub open spec fn not_proposed(text: Seq<char>) -> ErrorReply {
    reply(LegacyCode::Wallet, "Failed to propose shielding transaction: "@ + text)
}

/// The step after a transaction was proposed.
pub open spec fn proposed(
    source: SourceView,
    derivation: Option<KeyDerivation>,
    confirmations: ConfirmationsPolicy,
    proposal: Result<Proposal, String>,
) -> StepView {
    match proposal {
        Err(e) => failed(not_proposed(e@)),
        Ok(proposal) => StepView::EnforcePrivacy { source, derivation, confirmations, proposal },
    }
}

impl Propose {
    /// What to propose.
    pub fn terms(&self) -> (terms: ProposalTerms<'_>)
        ensures
            terms@ == shielding_terms(self.source@),
            terms.fee_rule == FeeRule::Zip317,
            terms.shielding_threshold@ == 0,
            *terms.from_addrs == self.source.from_addrs,
            *terms.to == self.source.order.to,
            *terms.memo == self.source.order.memo,
            self.source.order.limit is None ==> terms.limit is None,
            self.source.order.limit is Some ==> terms.limit == Some(self.source.order.limit->0 as usize),
    {
        ProposalTerms {
            fee_rule: FeeRule::Zip317,
            shielding_threshold: Zatoshis::zero(),
            from_addrs: &self.source.from_addrs,
            to: &self.source.order.to,
            memo: &self.source.order.memo,
            limit: match self.source.order.limit {
                Some(n) => Some(n as usize),
                None => None,
            },
        }
    }

    /// Goes on, given the proposal.
    pub fn resume(self, proposal: Result<Proposal, String>) -> (step: Step)
        ensures
            step@ == proposed(self.source@, self.derivation, self.confirmations, proposal),
    {
        match proposal {
            Err(e) => Step::Done(
                Err(LegacyCode::Wallet.with_detail("Failed to propose shielding transaction: ", e.as_str())),
            ),
            Ok(proposal) => Step::EnforcePrivacy(
                EnforcePrivacy {
                    source: self.source,
                    derivation: self.derivation,
                    confirmations: self.confirmations,
                    proposal,
                },
            ),
        }
    }
}

/// What a transaction may reveal.
#[derive(Clone, Copy, Debug, PartialEq, Eq, Structural)]
pub enum PrivacyPolicy {
    /// Nothing.
    FullPrivacy,
    /// The amounts that move between shielded pools.
    AllowRevealedAmounts,
    /// Transparent recipients.
    AllowRevealedRecipients,
    /// Transparent senders.
    AllowRevealedSenders,
    /// Transparent senders and recipients.
    AllowFullyTransparent,
    /// That addresses belong to one account.
    AllowLinkingAccountAddresses,
    /// Anything.
    NoPrivacy,
}

/// The step after the proposal was held to the privacy policy.
pub open spec fn privacy_enforced(
    source: SourceView,
    derivation: Option<KeyDerivation>,
    confirmations: ConfirmationsPolicy,
    proposal: Proposal,
    enforced: Result<(), RpcError>,
) -> StepView {
    match enforced {
        Err(error) => failed(error@),
        Ok(_) => match selected(proposal) {
            Err(error) => failed(error),
            Ok(shielding) => outputs_asked(
                source,
                derivation,
                confirmations,
                proposal,
                shielding,
                Sum { utxos: 0, value: 0 },
                0,
            ),
        },
    }
}

impl EnforcePrivacy {
    /// The policy to hold the proposal to. Shielding always reveals the senders; no
    /// caller can opt into revealing more.
    pub fn policy(&self) -> (policy: PrivacyPolicy)
        ensures
            policy == PrivacyPolicy::AllowRevealedSenders,
    {
        PrivacyPolicy::AllowRevealedSenders
    }

    /// Goes on, given whether the proposal meets the policy.
    pub fn resume(self, enforced: Result<(), RpcError>) -> (step: Step)
        ensures
            step@ == privacy_enforced(
                self.source@,
                self.derivation,
                self.confirmations,
                self.proposal,
                enforced,
            ),
    {
        match enforced {
            Err(error) => Step::Done(Err(error)),
            Ok(_) => match sum_selected_inputs(&self.proposal) {
                Err(error) => Step::Done(Err(error)),
                Ok(shielding) => enumerate_eligible(
                    self.source,
                    self.derivation,
                    self.confirmations,
                    self.proposal,
                    shielding,
                ),
            },
        }
    }
}

/// Going on with the source addresses from `next` on.
pub open spec fn outputs_asked(
    source: SourceView,
    derivation: Option<KeyDerivation>,
    confirmations: ConfirmationsPolicy,
    proposal: Proposal,
    shielding: Sum,
    eligible: Sum,
    next: nat,
) -> StepView {
    if next < source.from_addrs.len() {
        StepView::ListOutputs {
            source,
            derivation,
            confirmations,
            proposal,
            shielding,
            eligible,
            address: source.from_addrs[next as int],
            next: next + 1,
        }
    } else {
        totals_known(source, derivation, proposal, shielding, eligible)
    }
}

fn ask_outputs(
    source: Source,
    derivation: Option<KeyDerivation>,
    confirmations: ConfirmationsPolicy,
    proposal: Proposal,
    shielding: Tally,
    eligible: Tally,
    next: usize,
) -> (step: Step)
    ensures
        step@ == outputs_asked(source@, derivation, confirmations, proposal, shielding@, eligible@, next as nat),
{
    if next < source.from_addrs.len() {
        let address = source.from_addrs[next];
        Step::ListOutputs(
            ListOutputs {
                source,
                derivation,
                confirmations,
                proposal,
                shielding,
                eligible,
                address,
                next: next + 1,
            },
        )
    } else {
        match Preflight::new(eligible, shielding) {
            Err(error) => Step::Done(Err(error)),
            Ok(preflight) => if preflight.exceeds_threshold() {
                Step::WarnManyInputs(WarnManyInputs { source, derivation, proposal, preflight })
            } else {
                want_keys(source, derivation, proposal, preflight)
            },
        }
    }
}

/// Starts to count and sum what all source addresses hold.
pub fn enumerate_eligible(
    source: Source,
    derivation: Option<KeyDerivation>,
    confirmations: ConfirmationsPolicy,
    proposal: Proposal,
    shielding: Tally,
) -> (step: Step)
    ensures
        step@ == outputs_asked(
            source@,
            derivation,
            confirmations,
            proposal,
            shielding@,
            (Sum { utxos: 0, value: 0 }),
            0,
        ),
{
    let nothing = Tally { utxos: 0, value: Zatoshis::zero() };
    ask_outputs(source, derivation, confirmations, proposal, shielding, nothing, 0)
}

/// Which outputs are listed.
#[derive(Clone, Copy, Debug, PartialEq, Eq, Structural)]
pub enum OutputFilter {
    All,
    CoinbaseOnly,
    NonCoinbaseOnly,
}

/// Which outputs of an address the wallet is to list.
#[derive(Clone, Copy, Debug)]
pub struct OutputQuery {
    pub address: TransparentAddress,
    /// The height that the outputs are to be spent at.
    pub target_height: u32,
    /// How deep in the chain the outputs have to be.
    pub confirmations: ConfirmationsPolicy,
    pub filter: OutputFilter,
}

/// The query for the coinbase outputs of an address that a proposal could have
/// selected under a confirmations policy.
pub open spec fn coinbase_outputs(
    address: TransparentAddress,
    proposal: Proposal,
    confirmations: ConfirmationsPolicy,
) -> OutputQuery {
    OutputQuery {
        address,
        target_height: proposal.min_target_height,
        confirmations,
        filter: OutputFilter::CoinbaseOnly,
    }
}

/// The step after the outputs of an address are known.
pub open spec fn outputs_listed(
    source: SourceView,
    derivation: Option<KeyDerivation>,
    confirmations: ConfirmationsPolicy,
    proposal: Proposal,
    shielding: Sum,
    eligible: Sum,
    next: nat,
    outputs: Result<Vec<Zatoshis>, String>,
) -> StepView {
    match outputs {
        Err(e) => failed(database(e@)),
        Ok(outputs) => match with_outputs(eligible, outputs@) {
            Err(error) => failed(error),
            Ok(eligible) => outputs_asked(source, derivation, confirmations, proposal, shielding, eligible, next),
        },
    }
}

impl ListOutputs {
    /// Which outputs to list.
    pub fn query(&self) -> (query: OutputQuery)
        ensures
            query == coinbase_outputs(self.address, self.proposal, self.confirmations),
            query.address == self.address,
            query.target_height == self.proposal.min_target_height,
            query.confirmations == self.confirmations,
            query.filter == OutputFilter::CoinbaseOnly,
    {
        OutputQuery {
            address: self.address,
            target_height: self.proposal.min_target_height,
            confirmations: self.confirmations,
            filter: OutputFilter::CoinbaseOnly,
        }
    }

    /// Goes on, given what the spendable coinbase outputs of the address are worth,
    /// one by one.
    pub fn resume(self, outputs: Result<Vec<Zatoshis>, String>) -> (step: Step)
        ensures
            step@ == outputs_listed(
                self.source@,
                self.derivation,
                self.confirmations,
                self.proposal,
                self.shielding@,
                self.eligible@,
                self.next as nat,
                outputs,
            ),
    {
        match outputs {
            Err(e) => Step::Done(Err(LegacyCode::Database.with_message(e))),
            Ok(outputs) => match add_outputs(self.eligible, &outputs) {
                Err(error) => Step::Done(Err(error)),
                Ok(eligible) => ask_outputs(
                    self.source,
                    self.derivation,
                    self.confirmations,
                    self.proposal,
                    self.shielding,
                    eligible,
                    self.next,
                ),
            },
        }
    }
}

/// The step after it is known what all source addresses hold.
pub open spec fn totals_known(
    source: SourceView,
    derivation: Option<KeyDerivation>,
    proposal: Proposal,
    shielding: Sum,
    eligible: Sum,
) -> StepView {
    match accounted(eligible, shielding) {
        Err(error) => failed(error),
        Ok(preflight) => if preflight.shielding.utxos > COINBASE_INPUTS_WARN_THRESHOLD {
            StepView::WarnManyInputs { source, derivation, proposal, preflight }
        } else {
            keys_wanted(source, derivation, proposal, preflight)
        },
    }
}

impl WarnManyInputs {
    /// Goes on after the warning.
    pub fn resume(self) -> (step: Step)
        ensures
            step@ == keys_wanted(self.source@, self.derivation, self.proposal, self.preflight@),
    {
        want_keys(self.source, self.derivation, self.proposal, self.preflight)
    }
}

/// The answer for an account whose keys are not derived from a seed.
pub open spec fn no_payment_source(account: AccountId) -> ErrorReply {
    reply(LegacyCode::InvalidAddressOrKey, "No payment source found for account "@ + (uuid_text(account) + "."@))
}

/// The step in which the keys come in.
pub open spec fn keys_wanted(
    source: SourceView,
    derivation: Option<KeyDerivation>,
    proposal: Proposal,
    preflight: Numbers,
) -> StepView {
    match derivation {
        None => failed(no_payment_source(source.account)),
        Some(derivation) => StepView::DecryptSeed { source, derivation, proposal, preflight },
    }
}

fn want_keys(
    source: Source,
    derivation: Option<KeyDerivation>,
    proposal: Proposal,
    preflight: Preflight,
) -> (step: Step)
    ensures
        step@ == keys_wanted(source@, derivation, proposal, preflight@),
{
    match derivation {
        None => {
            let id = display_uuid(source.account).concat(".");
            Step::Done(
                Err(
                    LegacyCode::InvalidAddressOrKey.with_detail(
                        "No payment source found for account ",
                        id.as_str(),
                    ),
                ),
            )
        },
        Some(derivation) => Step::DecryptSeed(DecryptSeed { source, derivation, proposal, preflight }),
    }
}

/// The step after the spending key was derived.
pub open spec fn key_derived(
    source: SourceView,
    proposal: Proposal,
    preflight: Numbers,
    key: Result<UnifiedSpendingKey, Seq<char>>,
) -> StepView {
    match key {
        Err(text) => failed(reply(LegacyCode::InvalidAddressOrKey, text)),
        Ok(usk) => if source.order.import_keys {
            StepView::ListSources { source, proposal, preflight, usk }
        } else {
            ready(source, proposal, preflight, usk, Map::empty())
        },
    }
}

/// What the keystore gave: the bytes of the seed, or the failure.
pub open spec fn seed_bytes(seed: Result<&[u8], KeystoreError>) -> Result<Seq<u8>, KeystoreError> {
    match seed {
        Ok(bytes) => Ok(bytes@),
        Err(e) => Err(e),
    }
}

/// The seed is read whole, and so is the failure in its place.
pub proof fn law_seed_bytes(bytes: &[u8], error: KeystoreError)
    ensures
        seed_bytes(Ok(bytes)) == Ok::<Seq<u8>, KeystoreError>(bytes@),
        seed_bytes(Err(error)) == Err::<Seq<u8>, KeystoreError>(error),
{
}

/// The step after the seed was decrypted.
pub open spec fn seed_decrypted(
    source: SourceView,
    derivation: KeyDerivation,
    proposal: Proposal,
    preflight: Numbers,
    seed: Result<Seq<u8>, KeystoreError>,
) -> StepView {
    match seed {
        Err(e) => failed(keystore_reply(e)),
        Ok(bytes) => key_derived(
            source,
            proposal,
            preflight,
            spending_key(source.order.network.network_type(), bytes, derivation.index()),
        ),
    }
}

impl DecryptSeed {
    /// Goes on, given what the derivation of the spending key gave.
    pub fn resume_with_key(self, key: Result<UnifiedSpendingKey, String>) -> (step: Step)
        ensures
            step@ == key_derived(self.source@, self.proposal, self.preflight@, derived(key)),
    {
        match key {
            Err(text) => Step::Done(Err(LegacyCode::InvalidAddressOrKey.with_message(text))),
            Ok(usk) => if self.source.order.import_keys {
                Step::ListSources(
                    ListSources { source: self.source, proposal: self.proposal, preflight: self.preflight, usk },
                )
            } else {
                finish(self.source, self.proposal, self.preflight, usk, StandaloneKeys::new())
            },
        }
    }

    /// Goes on, given the seed. A seed has at least 32 bytes.
    pub fn resume(self, seed: Result<&[u8], KeystoreError>) -> (step: Step)
        requires
            seed matches Ok(bytes) ==> bytes@.len() >= 32,
        ensures
            step@ == seed_decrypted(
                self.source@,
                self.derivation,
                self.proposal,
                self.preflight@,
                seed_bytes(seed),
            ),
    {
        match seed {
            Err(e) => Step::Done(Err(e.into_rpc_error())),
            Ok(bytes) => {
                let index: u32 = self.derivation.account_index();
                let key = derive_spending_key(&self.source.order.network, bytes, index);
                self.resume_with_key(key)
            },
        }
    }
}

} // verus!
