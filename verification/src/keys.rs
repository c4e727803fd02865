//! The keys that a shielding transaction is signed with.

use secp256k1::SecretKey;
use vstd::prelude::*;
use zcash_keys::keys::UnifiedSpendingKey;
use zcash_protocol::consensus::{MAIN_NETWORK, TEST_NETWORK};

use crate::address::{Network, NetworkType, TransparentAddress};

verus! {

/// `UnifiedSpendingKey` of the `zcash_keys` crate: the spending key of an
/// account, which this crate only carries.
#[verifier::external_type_specification]
#[verifier::external_body]
pub struct ExUnifiedSpendingKey(UnifiedSpendingKey);

/// `SecretKey` of the `secp256k1` crate: the key to one transparent address,
/// which this crate only carries.
#[verifier::external_type_specification]
#[verifier::external_body]
pub struct ExSecretKey(SecretKey);

/// How the keys of an account are derived: from which seed, and at which of the
/// indices below 2^31.
#[derive(Clone, Copy, Debug)]
pub struct KeyDerivation {
    seed_fingerprint: [u8; 32],
    account_index: u32,
}

impl KeyDerivation {
    #[verifier::type_invariant]
    spec fn hardened(self) -> bool {
        self.account_index < 0x8000_0000
    }

    /// The fingerprint of the seed.
    pub closed spec fn fingerprint(self) -> [u8; 32] {
        self.seed_fingerprint
    }

    /// The index of the account under the seed.
    pub closed spec fn index(self) -> u32 {
        self.account_index
    }

    /// The derivation at an index, if there is such an index.
    pub fn new(seed_fingerprint: [u8; 32], account_index: u32) -> (derivation: Option<KeyDerivation>)
        ensures
            derivation is Some <==> account_index < 0x8000_0000,
            derivation matches Some(d) ==> d.fingerprint() == seed_fingerprint && d.index() == account_index,
    {
        if account_index < 0x8000_0000 {
            Some(KeyDerivation { seed_fingerprint, account_index })
        } else {
            None
        }
    }

    /// The fingerprint of the seed.
    pub fn seed_fingerprint(&self) -> (fingerprint: [u8; 32])
        ensures
            fingerprint == self.fingerprint(),
    {
        self.seed_fingerprint
    }

    /// The index of the account under the seed.
    pub fn account_index(&self) -> (index: u32)
        ensures
            index == self.index(),
            index < 0x8000_0000,
    {
        proof {
            use_type_invariant(self);
        }
        self.account_index
    }
}

/// The spending key of the account at an index under a seed, or why there is
/// none, as `UnifiedSpendingKey::from_seed` of the `zcash_keys` crate derives it.
pub uninterp spec fn spending_key(network: NetworkType, seed: Seq<u8>, index: u32) -> Result<UnifiedSpendingKey, Seq<char>>;

/// What a derivation gave: the key, or the text of the failure.
pub open spec fn derived(result: Result<UnifiedSpendingKey, String>) -> Result<UnifiedSpendingKey, Seq<char>> {
    match result {
        Ok(key) => Ok(key),
        Err(text) => Err(text@),
    }
}

/// A derived key is read as it is, and so is the text in its place.
pub proof fn law_derived(key: UnifiedSpendingKey, text: String)
    ensures
        derived(Ok(key)) == Ok::<UnifiedSpendingKey, Seq<char>>(key),
        derived(Err(text)) == Err::<UnifiedSpendingKey, Seq<char>>(text@),
{
}

/// Calls `UnifiedSpendingKey::from_seed` of the `zcash_keys` crate, which panics on
/// a seed of fewer than 32 bytes and on no other. The claim is that the key, or
/// the text of the failure, depends on the kind of the network, the seed and the
/// index alone.
#[verifier::external_body]
pub(crate) fn derive_spending_key(network: &Network, seed: &[u8], index: u32) -> (key: Result<UnifiedSpendingKey, String>)
    requires
        seed@.len() >= 32,
        index < 0x8000_0000,
    ensures
        derived(key) == spending_key(network.network_type(), seed@, index),
{
    let account = index.try_into().expect("account indices are below 2^31");
    match network {
        Network::Main => UnifiedSpendingKey::from_seed(&MAIN_NETWORK, seed, account),
        Network::Test => UnifiedSpendingKey::from_seed(&TEST_NETWORK, seed, account),
        Network::Regtest(local) => UnifiedSpendingKey::from_seed(local, seed, account),
    }.map_err(|failure| failure.to_string())
}

/// The keys to one transparent address.
pub struct AddressKeys {
    pub address: TransparentAddress,
    pub keys: Vec<SecretKey>,
}

/// Secret keys by the transparent address that they spend from. No address
/// stands in it twice.
pub struct StandaloneKeys {
    entries: Vec<AddressKeys>,
}

/// `map` with `key` added behind the keys of `address`.
pub open spec fn with_key(
    map: Map<TransparentAddress, Seq<SecretKey>>,
    address: TransparentAddress,
    key: SecretKey,
) -> Map<TransparentAddress, Seq<SecretKey>> {
    let held = if map.dom().contains(address) {
        map[address]
    } else {
        Seq::empty()
    };
    map.insert(address, held.push(key))
}

/// The keys of `address` among the first `n` entries.
spec fn keys_in(entries: Seq<AddressKeys>, n: int) -> Map<TransparentAddress, Seq<SecretKey>>
    decreases n,
{
    if n <= 0 {
        Map::empty()
    } else {
        keys_in(entries, n - 1).insert(entries[n - 1].address, entries[n - 1].keys@)
    }
}

spec fn distinct(entries: Seq<AddressKeys>) -> bool {
    forall|i: int, j: int|
        0 <= i < j < entries.len() ==> #[trigger] entries[i].address != #[trigger] entries[j].address
}

proof fn lemma_keys_in(entries: Seq<AddressKeys>, n: int)
    requires
        distinct(entries),
        0 <= n <= entries.len(),
    ensures
        forall|i: int| 0 <= i < n ==> {
            &&& keys_in(entries, n).dom().contains(#[trigger] entries[i].address)
            &&& keys_in(entries, n)[entries[i].address] == entries[i].keys@
        },
        forall|a: TransparentAddress| keys_in(entries, n).dom().contains(a) ==> exists|i: int|
            0 <= i < n && #[trigger] entries[i].address == a,
    decreases n,
{
    if n > 0 {
        lemma_keys_in(entries, n - 1);
        assert forall|a: TransparentAddress| keys_in(entries, n).dom().contains(a) implies exists|i: int|
            0 <= i < n && #[trigger] entries[i].address == a by {
            if a == entries[n - 1].address {
            } else {
                assert(keys_in(entries, n - 1).dom().contains(a));
            }
        }
    }
}

impl View for StandaloneKeys {
    type V = Map<TransparentAddress, Seq<SecretKey>>;

    closed spec fn view(&self) -> Map<TransparentAddress, Seq<SecretKey>> {
        keys_in(self.entries@, self.entries@.len() as int)
    }
}

impl StandaloneKeys {
    #[verifier::type_invariant]
    spec fn well_formed(self) -> bool {
        distinct(self.entries@)
    }

    /// No keys.
    pub fn new() -> (keys: StandaloneKeys)
        ensures
            keys@ == Map::<TransparentAddress, Seq<SecretKey>>::empty(),
    {
        StandaloneKeys { entries: Vec::new() }
    }

    /// These keys and one more for `address`, behind those that it has.
    pub fn with_key(self, address: TransparentAddress, key: SecretKey) -> (keys: StandaloneKeys)
        ensures
            keys@ == with_key(self@, address, key),
    {
        proof {
            use_type_invariant(&self);
        }
        let ghost before = self.entries@;
        let mut entries = self.entries;
        let mut i: usize = 0;
        while i < entries.len() && !entries[i].address.same(&address)
            invariant
                i <= entries.len(),
                entries@ == before,
                forall|j: int| 0 <= j < i ==> (#[trigger] before[j]).address != address,
            decreases entries.len() - i,
        {
            i += 1;
        }
        if i < entries.len() {
            entries[i].keys.push(key);
        } else {
            let mut keys: Vec<SecretKey> = Vec::new();
            keys.push(key);
            entries.push(AddressKeys { address, keys });
        }
        proof {
            let after = entries@;
            lemma_keys_in(before, before.len() as int);
            lemma_keys_in(after, after.len() as int);
            let expected = with_key(keys_in(before, before.len() as int), address, key);
            let actual = keys_in(after, after.len() as int);
            assert(after[i as int].address == address);
            assert forall|a: TransparentAddress| actual.dom().contains(a) == expected.dom().contains(a) by {
                if actual.dom().contains(a) {
                    let k = choose|k: int| 0 <= k < after.len() && #[trigger] after[k].address == a;
                    assert(k != i ==> before[k].address == a);
                }
                if expected.dom().contains(a) && a != address {
                    let k = choose|k: int| 0 <= k < before.len() && #[trigger] before[k].address == a;
                    assert(after[k].address == a);
                }
            }
            assert forall|a: TransparentAddress| expected.dom().contains(a) implies actual[a] == expected[a] by {
                let k = choose|k: int| 0 <= k < after.len() && #[trigger] after[k].address == a;
                if k == i {
                    assert(i < before.len() ==> before[k].address == address);
                } else {
                    assert(before[k].address == a);
                }
            }
            assert(actual =~= expected);
        }
        StandaloneKeys { entries }
    }

    /// The keys address by address: every address that has keys stands in the list
    /// once, with all of its keys.
    pub fn into_entries(self) -> (entries: Vec<AddressKeys>)
        ensures
            forall|i: int, j: int|
                0 <= i < j < entries@.len() ==> #[trigger] entries@[i].address != #[trigger] entries@[j].address,
            forall|i: int|
                0 <= i < entries@.len() ==> {
                    &&& self@.dom().contains(#[trigger] entries@[i].address)
                    &&& self@[entries@[i].address] == entries@[i].keys@
                },
            forall|a: TransparentAddress| #[trigger]
                self@.dom().contains(a) ==> exists|i: int|
                    0 <= i < entries@.len() && #[trigger] entries@[i].address == a,
    {
        proof {
            use_type_invariant(&self);
            lemma_keys_in(self.entries@, self.entries@.len() as int);
        }
        self.entries
    }
}

} // verus!
