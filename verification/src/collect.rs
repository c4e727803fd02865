//! Collecting the keys to inputs at addresses that the wallet did not derive.

use secp256k1::SecretKey;
use vstd::prelude::*;
use zcash_keys::keys::UnifiedSpendingKey;

use crate::address::{
    address_of_script, contains_address, script_address, AddressSource, Receiver, TransparentAddress,
};
use crate::error::{keystore_reply, KeystoreError, LegacyCode};
use crate::keys::{with_key, StandaloneKeys};
use crate::preflight::{Numbers, Preflight};
use crate::proposal::{inputs_of, Proposal, TransparentInput};
use crate::resolve::database;
use crate::step::{
    failed, ContextInfo, DecryptKey, ListSources, Ready, ReadyView, Source, SourceView, Step, StepView,
};

verus! {

/// Whether the keystore holds the key to an address on its own.
pub open spec fn has_own_key(source: AddressSource) -> bool {
    source is StandalonePubkey || source is StandaloneScript
}

/// The receivers whose keys the keystore holds on their own, in order.
pub open spec fn standalone(receivers: Seq<Receiver>) -> Seq<TransparentAddress>
    decreases receivers.len(),
{
    if receivers.len() == 0 {
        Seq::empty()
    } else {
        let rest = standalone(receivers.drop_last());
        if has_own_key(receivers.last().source) {
            rest.push(receivers.last().address)
        } else {
            rest
        }
    }
}

/// Picks the receivers whose keys the keystore holds on their own.
pub fn standalone_addresses(receivers: &Vec<Receiver>) -> (addresses: Vec<TransparentAddress>)
    ensures
        addresses@ == standalone(receivers@),
{
    let mut addresses: Vec<TransparentAddress> = Vec::new();
    let mut i: usize = 0;
    while i < receivers.len()
        invariant
            i <= receivers.len(),
            addresses@ == standalone(receivers@.take(i as int)),
        decreases receivers.len() - i,
    {
        assert(receivers@.take(i + 1).drop_last() =~= receivers@.take(i as int));
        match receivers[i].source {
            AddressSource::StandalonePubkey | AddressSource::StandaloneScript => {
                addresses.push(receivers[i].address);
            },
            AddressSource::Derived | AddressSource::StandaloneAddress => {},
        }
        i += 1;
    }
    assert(receivers@.take(i as int) =~= receivers@);
    addresses
}

/// The address whose key an input needs from the keystore, given the address that
/// its script pays to.
pub open spec fn key_for(
    paid_to: Option<TransparentAddress>,
    standalone: Seq<TransparentAddress>,
) -> Option<TransparentAddress> {
    match paid_to {
        Some(address) if standalone.contains(address) => Some(address),
        _ => None,
    }
}

/// The address whose key an input needs from the keystore, given the address that
/// its script pays to.
pub fn key_needed(
    paid_to: Option<TransparentAddress>,
    standalone: &Vec<TransparentAddress>,
) -> (address: Option<TransparentAddress>)
    ensures
        address == key_for(paid_to, standalone@),
{
    match paid_to {
        Some(address) => if contains_address(standalone, &address) {
            Some(address)
        } else {
            None
        },
        None => None,
    }
}

/// The addresses whose keys a list of inputs needs from the keystore: one for each
/// input that does, in order.
pub open spec fn keys_for(
    inputs: Seq<TransparentInput>,
    standalone: Seq<TransparentAddress>,
) -> Seq<TransparentAddress>
    decreases inputs.len(),
{
    if inputs.len() == 0 {
        Seq::empty()
    } else {
        let rest = keys_for(inputs.drop_last(), standalone);
        match key_for(script_address(inputs.last().script_pubkey@), standalone) {
            Some(address) => rest.push(address),
            None => rest,
        }
    }
}

/// Finds the addresses whose keys a proposal needs from the keystore.
pub fn keys_needed(
    proposal: &Proposal,
    standalone: &Vec<TransparentAddress>,
) -> (pending: Vec<TransparentAddress>)
    ensures
        pending@ == keys_for(proposal.inputs(), standalone@),
{
    let mut pending: Vec<TransparentAddress> = Vec::new();
    let ghost steps = proposal.steps@;
    let mut i: usize = 0;
    while i < proposal.steps.len()
        invariant
            i <= proposal.steps.len(),
            steps == proposal.steps@,
            pending@ == keys_for(inputs_of(steps, i as int), standalone@),
        decreases proposal.steps.len() - i,
    {
        let inputs = &proposal.steps[i].transparent_inputs;
        let ghost done = inputs_of(steps, i as int);
        assert(done + inputs@.take(0) =~= done);
        let mut j: usize = 0;
        while j < inputs.len()
            invariant
                j <= inputs.len(),
                pending@ == keys_for(done + inputs@.take(j as int), standalone@),
            decreases inputs.len() - j,
        {
            proof {
                let after = done + inputs@.take(j + 1);
                assert(after.drop_last() =~= done + inputs@.take(j as int));
                assert(after.last() == inputs@[j as int]);
            }
            let paid_to = address_of_script(&inputs[j].script_pubkey);
            match key_needed(paid_to, standalone) {
                Some(address) => {
                    pending.push(address);
                },
                None => {},
            }
            j += 1;
        }
        assert(inputs@.take(j as int) =~= inputs@);
        i += 1;
    }
    pending
}

/// All is known.
pub open spec fn ready(
    source: SourceView,
    proposal: Proposal,
    preflight: Numbers,
    usk: UnifiedSpendingKey,
    keys: Map<TransparentAddress, Seq<SecretKey>>,
) -> StepView {
    StepView::Done(
        Ok(
            ReadyView {
                preflight,
                method: "z_shieldcoinbase"@,
                fromaddresses: source.fromaddresses,
                toaddress: source.order.toaddress,
                limit: source.order.limit,
                proposal,
                usk,
                standalone_keys: keys,
            },
        ),
    )
}

pub(crate) fn finish(
    source: Source,
    proposal: Proposal,
    preflight: Preflight,
    usk: UnifiedSpendingKey,
    keys: StandaloneKeys,
) -> (step: Step)
    ensures
        step@ == ready(source@, proposal, preflight@, usk, keys@),
{
    let context = ContextInfo {
        method: "z_shieldcoinbase",
        fromaddresses: source.fromaddresses,
        toaddress: source.order.toaddress,
        limit: source.order.limit,
    };
    Step::Done(Ok(Ready { preflight, context, proposal, usk, standalone_keys: keys }))
}

/// Going on with the pending addresses from `next` on.
pub open spec fn keys_asked(
    source: SourceView,
    proposal: Proposal,
    preflight: Numbers,
    usk: UnifiedSpendingKey,
    pending: Seq<TransparentAddress>,
    next: nat,
    keys: Map<TransparentAddress, Seq<SecretKey>>,
) -> StepView {
    if next < pending.len() {
        StepView::DecryptKey {
            source,
            proposal,
            preflight,
            usk,
            pending,
            address: pending[next as int],
            next: next + 1,
            keys,
        }
    } else {
        ready(source, proposal, preflight, usk, keys)
    }
}

fn ask_key(
    source: Source,
    proposal: Proposal,
    preflight: Preflight,
    usk: UnifiedSpendingKey,
    pending: Vec<TransparentAddress>,
    next: usize,
    keys: StandaloneKeys,
) -> (step: Step)
    ensures
        step@ == keys_asked(source@, proposal, preflight@, usk, pending@, next as nat, keys@),
{
    if next < pending.len() {
        let address = pending[next];
        Step::DecryptKey(DecryptKey { source, proposal, preflight, usk, pending, address, next: next + 1, keys })
    } else {
        finish(source, proposal, preflight, usk, keys)
    }
}

/// The step after the receivers of the source account are known.
pub open spec fn sources_listed(
    source: SourceView,
    proposal: Proposal,
    preflight: Numbers,
    usk: UnifiedSpendingKey,
    receivers: Result<Vec<Receiver>, String>,
) -> StepView {
    match receivers {
        Err(e) => failed(database(e@)),
        Ok(list) => keys_asked(
            source,
            proposal,
            preflight,
            usk,
            keys_for(proposal.inputs(), standalone(list@)),
            0,
            Map::empty(),
        ),
    }
}

/// Starts to collect the keys that a proposal needs from the keystore, given the
/// receivers of the source account.
pub fn collect_standalone_keys(
    source: Source,
    proposal: Proposal,
    preflight: Preflight,
    usk: UnifiedSpendingKey,
    receivers: &Vec<Receiver>,
) -> (step: Step)
    ensures
        step@ == keys_asked(
            source@,
            proposal,
            preflight@,
            usk,
            keys_for(proposal.inputs(), standalone(receivers@)),
            0,
            Map::empty(),
        ),
{
    let addresses = standalone_addresses(receivers);
    let pending = keys_needed(&proposal, &addresses);
    ask_key(source, proposal, preflight, usk, pending, 0, StandaloneKeys::new())
}

impl ListSources {
    /// Goes on, given the receivers of the source account.
    pub fn resume(self, receivers: Result<Vec<Receiver>, String>) -> (step: Step)
        ensures
            step@ == sources_listed(self.source@, self.proposal, self.preflight@, self.usk, receivers),
    {
        match receivers {
            Err(e) => Step::Done(Err(LegacyCode::Database.with_message(e))),
            Ok(list) => collect_standalone_keys(self.source, self.proposal, self.preflight, self.usk, &list),
        }
    }
}

/// The step after a key is known.
pub open spec fn key_decrypted(
    source: SourceView,
    proposal: Proposal,
    preflight: Numbers,
    usk: UnifiedSpendingKey,
    pending: Seq<TransparentAddress>,
    address: TransparentAddress,
    next: nat,
    keys: Map<TransparentAddress, Seq<SecretKey>>,
    key: Result<SecretKey, KeystoreError>,
) -> StepView {
    match key {
        Err(e) => failed(keystore_reply(e)),
        Ok(k) => keys_asked(source, proposal, preflight, usk, pending, next, with_key(keys, address, k)),
    }
}

impl DecryptKey {
    /// Goes on, given the key to the address.
    pub fn resume(self, key: Result<SecretKey, KeystoreError>) -> (step: Step)
        ensures
            step@ == key_decrypted(
                self.source@,
                self.proposal,
                self.preflight@,
                self.usk,
                self.pending@,
                self.address,
                self.next as nat,
                self.keys@,
                key,
            ),
    {
        match key {
            Err(e) => Step::Done(Err(e.into_rpc_error())),
            Ok(k) => {
                let keys = self.keys.with_key(self.address, k);
                ask_key(self.source, self.proposal, self.preflight, self.usk, self.pending, self.next, keys)
            },
        }
    }
}

} // verus!
