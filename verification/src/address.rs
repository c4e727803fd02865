//! Zcash addresses.

use vstd::prelude::*;
use zcash_address::ZcashAddress;
use zcash_keys::address::Address as AnyAddress;
use zcash_protocol::consensus::{MAIN_NETWORK, TEST_NETWORK};
use zcash_protocol::local_consensus::LocalNetwork;
use zcash_script::script;
use zcash_transparent::address::TransparentAddress as HashAddress;

verus! {

/// `ZcashAddress` of the `zcash_address` crate: an address of any kind and
/// network, which this crate only carries.
#[verifier::external_type_specification]
#[verifier::external_body]
pub struct ExZcashAddress(ZcashAddress);

/// `LocalNetwork` of the `zcash_protocol` crate: the activation heights of a
/// private network, which this crate only carries.
#[verifier::external_type_specification]
#[verifier::external_body]
pub struct ExLocalNetwork(LocalNetwork);

/// The network that the wallet works on.
#[derive(Clone, Copy)]
pub enum Network {
    Main,
    Test,
    Regtest(LocalNetwork),
}

/// The kind of a network, which decides how addresses and keys are encoded.
#[derive(Clone, Copy, Debug, PartialEq, Eq, Structural)]
pub enum NetworkType {
    Main,
    Test,
    Regtest,
}

impl Network {
    /// The kind of this network.
    pub open spec fn network_type(self) -> NetworkType {
        match self {
            Network::Main => NetworkType::Main,
            Network::Test => NetworkType::Test,
            Network::Regtest(_) => NetworkType::Regtest,
        }
    }
}

/// Each network is of its own kind, whatever its activation heights are.
pub proof fn law_network_type(network: Network)
    ensures
        network is Main <==> network.network_type() == NetworkType::Main,
        network is Test <==> network.network_type() == NetworkType::Test,
        network is Regtest <==> network.network_type() == NetworkType::Regtest,
{
}

/// A transparent address: the hash of a public key or of a script.
#[derive(Clone, Copy, Debug, PartialEq, Eq)]
pub enum TransparentAddress {
    PublicKeyHash([u8; 20]),
    ScriptHash([u8; 20]),
}

/// Whether two hashes are the same.
fn same_hash(a: &[u8; 20], b: &[u8; 20]) -> (same: bool)
    ensures
        same == (*a == *b),
{
    let mut i: usize = 0;
    while i < 20
        invariant
            i <= 20,
            forall|j: int| 0 <= j < i ==> a[j] == b[j],
        decreases 20 - i,
    {
        if a[i] != b[i] {
            return false;
        }
        i += 1;
    }
    assert(a@ =~= b@);
    assert(*a =~= *b);
    true
}

impl TransparentAddress {
    /// Whether two addresses are the same.
    pub fn same(&self, other: &TransparentAddress) -> (same: bool)
        ensures
            same == (*self == *other),
    {
        match (self, other) {
            (TransparentAddress::PublicKeyHash(a), TransparentAddress::PublicKeyHash(b)) => same_hash(a, b),
            (TransparentAddress::ScriptHash(a), TransparentAddress::ScriptHash(b)) => same_hash(a, b),
            _ => false,
        }
    }
}

/// Whether a list holds an address.
pub fn contains_address(list: &Vec<TransparentAddress>, address: &TransparentAddress) -> (found: bool)
    ensures
        found == list@.contains(*address),
{
    let mut i: usize = 0;
    while i < list.len()
        invariant
            i <= list.len(),
            forall|j: int| 0 <= j < i ==> list[j] != *address,
        decreases list.len() - i,
    {
        if list[i].same(address) {
            assert(list@[i as int] == *address);
            return true;
        }
        i += 1;
    }
    false
}

/// Where the wallet has a transparent address from.
#[derive(Clone, Copy, Debug, PartialEq, Eq, Structural)]
pub enum AddressSource {
    /// It was derived from the keys of the account.
    Derived,
    /// It was imported with its public key.
    StandalonePubkey,
    /// It was imported with its script.
    StandaloneScript,
    /// It was imported bare, to be watched: nothing can be spent from it.
    StandaloneAddress,
}

/// A transparent address of an account.
#[derive(Clone, Copy, Debug)]
pub struct Receiver {
    pub address: TransparentAddress,
    pub source: AddressSource,
}

/// An address that funds can be sent to, as far as the method looks into one.
#[derive(Clone, Copy, Debug, PartialEq, Eq)]
pub enum Address {
    Sapling,
    Transparent(TransparentAddress),
    Unified,
    Tex,
}

/// The address that a text stands for on any network, as `ZcashAddress` of the
/// `zcash_address` crate parses it.
pub uninterp spec fn parsed_address(text: Seq<char>) -> Option<ZcashAddress>;

/// Calls `ZcashAddress::from_str` of the `zcash_address` crate. The claim is that
/// what it makes of a text depends on the text alone.
#[verifier::external_body]
pub(crate) fn parse_address(text: &str) -> (address: Option<ZcashAddress>)
    ensures
        address == parsed_address(text@),
{
    text.parse().ok()
}

/// The address that a text stands for on a network, as `Address::decode` of the
/// `zcash_keys` crate reads it.
pub uninterp spec fn decoded_address(network: NetworkType, text: Seq<char>) -> Option<Address>;

/// Calls `Address::decode` of the `zcash_keys` crate. The claim is that what it
/// makes of a text depends on the text and on the kind of the network alone.
#[verifier::external_body]
pub(crate) fn decode_address(network: &Network, text: &str) -> (address: Option<Address>)
    ensures
        address == decoded_address(network.network_type(), text@),
{
    let decoded = match network {
        Network::Main => AnyAddress::decode(&MAIN_NETWORK, text),
        Network::Test => AnyAddress::decode(&TEST_NETWORK, text),
        Network::Regtest(local) => AnyAddress::decode(local, text),
    };
    decoded.map(|address| match address {
        AnyAddress::Sapling(_) => Address::Sapling,
        AnyAddress::Transparent(HashAddress::PublicKeyHash(h)) => Address::Transparent(TransparentAddress::PublicKeyHash(h)),
        AnyAddress::Transparent(HashAddress::ScriptHash(h)) => Address::Transparent(TransparentAddress::ScriptHash(h)),
        AnyAddress::Unified(_) => Address::Unified,
        AnyAddress::Tex(_) => Address::Tex,
    })
}

/// The output script that pays to an address: the opcodes around a push of the
/// 20 bytes of the hash.
pub open spec fn script_of(address: TransparentAddress) -> Seq<u8> {
    match address {
        TransparentAddress::PublicKeyHash(hash) => seq![0x76u8, 0xa9u8, 0x14u8] + hash@ + seq![0x88u8, 0xacu8],
        TransparentAddress::ScriptHash(hash) => seq![0xa9u8, 0x14u8] + hash@ + seq![0x87u8],
    }
}

/// The address that an output script pays to, if it pays to one.
pub open spec fn script_address(script: Seq<u8>) -> Option<TransparentAddress> {
    if exists|address: TransparentAddress| #[trigger] script_of(address) == script {
        Some(choose|address: TransparentAddress| #[trigger] script_of(address) == script)
    } else {
        None
    }
}

/// No two addresses have the same script.
proof fn lemma_script_of(a: TransparentAddress, b: TransparentAddress)
    requires
        script_of(a) == script_of(b),
    ensures
        a == b,
{
    match (a, b) {
        (TransparentAddress::PublicKeyHash(x), TransparentAddress::PublicKeyHash(y)) => {
            assert(x@ =~= script_of(a).subrange(3, 23));
            assert(y@ =~= script_of(b).subrange(3, 23));
            assert(x =~= y);
        },
        (TransparentAddress::ScriptHash(x), TransparentAddress::ScriptHash(y)) => {
            assert(x@ =~= script_of(a).subrange(2, 22));
            assert(y@ =~= script_of(b).subrange(2, 22));
            assert(x =~= y);
        },
        (TransparentAddress::PublicKeyHash(_), TransparentAddress::ScriptHash(_)) => {
            assert(script_of(a)[0] == 0x76 && script_of(b)[0] == 0xa9);
        },
        (TransparentAddress::ScriptHash(_), TransparentAddress::PublicKeyHash(_)) => {
            assert(script_of(a)[0] == 0xa9 && script_of(b)[0] == 0x76);
        },
    }
}

/// The script of an address pays to that address, and no other script does.
pub proof fn law_script_address(script: Seq<u8>, address: TransparentAddress)
    ensures
        script_address(script) == Some(address) <==> script == script_of(address),
{
    if script == script_of(address) {
        lemma_script_of(script_address(script)->0, address);
    }
}

/// Calls `script::FromChain::parse` of the `zcash_script` crate and, on the script
/// that it gives, `TransparentAddress::from_script_from_chain` of the
/// `zcash_transparent` crate. The claim is that the two give an address exactly for
/// the bytes of that address's pay-to-public-key-hash or pay-to-script-hash script.
#[verifier::external_body]
pub(crate) fn address_of_script(bytes: &Vec<u8>) -> (address: Option<TransparentAddress>)
    ensures
        address == script_address(bytes@),
{
    script::FromChain::parse(&script::Code(bytes.clone()))
        .ok()
        .as_ref()
        .and_then(HashAddress::from_script_from_chain)
        .map(|address| match address {
            HashAddress::PublicKeyHash(hash) => TransparentAddress::PublicKeyHash(hash),
            HashAddress::ScriptHash(hash) => TransparentAddress::ScriptHash(hash),
        })
}

} // verus!
