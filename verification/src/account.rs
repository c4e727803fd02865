//! Wallet accounts and the identifiers that they are known by.

use uuid::Uuid;
use vstd::arithmetic::div_mod::{lemma_basic_div, lemma_div_denominator};
use vstd::arithmetic::power::{lemma_pow_positive, pow};
use vstd::prelude::*;
use zcash_client_sqlite::AccountUuid;

use crate::keys::KeyDerivation;

verus! {

/// The identifier of an account: its UUID as a number.
pub type AccountId = u128;

/// An account of the wallet, as far as the method looks into it.
pub struct Account {
    /// How the keys of the account are derived, if they are.
    pub derivation: Option<KeyDerivation>,
}

/// Hexadecimal digit `k` of the 32 digits of `id`, most significant first.
pub open spec fn uuid_digit(id: u128, k: int) -> char {
    "0123456789abcdef"@[(id as int / pow(16, (31 - k) as nat)) % 16]
}

/// The 32 digits of a UUID and nothing else.
pub open spec fn simple_text(id: u128) -> Seq<char> {
    Seq::new(32, |i: int| uuid_digit(id, i))
}

/// The hyphenated lower-case form of a UUID: groups of 8, 4, 4, 4 and 12 digits.
pub open spec fn uuid_text(id: u128) -> Seq<char> {
    let digits = simple_text(id);
    digits.subrange(0, 8) + "-"@ + digits.subrange(8, 12) + "-"@ + digits.subrange(12, 16) + "-"@
        + digits.subrange(16, 20) + "-"@ + digits.subrange(20, 32)
}

/// A character with the letters `A` to `Z` in lower case.
pub open spec fn lower(c: char) -> char {
    if 'A' <= c <= 'Z' {
        (c as u8 + 32) as char
    } else {
        c
    }
}

/// Whether a text stands for a UUID: in any case, its digits alone, or its hyphenated
/// form, bare, in braces or as a URN.
pub open spec fn reads_as(text: Seq<char>, id: u128) -> bool {
    let form = text.map_values(|c: char| lower(c));
    ||| form == simple_text(id)
    ||| form == uuid_text(id)
    ||| form == "{"@ + uuid_text(id) + "}"@
    ||| form == "urn:uuid:"@ + uuid_text(id)
}

/// The UUID that a text stands for, if it stands for one.
pub open spec fn uuid_of_text(text: Seq<char>) -> Option<u128> {
    if exists|id: u128| reads_as(text, id) {
        Some(choose|id: u128| reads_as(text, id))
    } else {
        None
    }
}

/// Numbers with the same digits agree on what stands before their last `32 - k`.
proof fn lemma_same_digits(a: u128, b: u128, k: nat)
    requires
        k <= 32,
        simple_text(a) == simple_text(b),
    ensures
        a as int / pow(16, (32 - k) as nat) == b as int / pow(16, (32 - k) as nat),
    decreases k,
{
    if k == 0 {
        assert(pow(16, 32) == 0x1_0000_0000_0000_0000_0000_0000_0000_0000int) by {
            reveal_with_fuel(pow, 33);
        }
        lemma_basic_div(a as int, pow(16, 32));
        lemma_basic_div(b as int, pow(16, 32));
    } else {
        let rest = (32 - k) as nat;
        lemma_same_digits(a, b, (k - 1) as nat);
        lemma_pow_positive(16, rest);
        assert(pow(16, rest + 1) == pow(16, rest) * 16) by {
            reveal(pow);
        }
        lemma_div_denominator(a as int, pow(16, rest), 16);
        lemma_div_denominator(b as int, pow(16, rest), 16);
        let x = a as int / pow(16, rest);
        let y = b as int / pow(16, rest);
        assert(x % 16 == y % 16) by {
            reveal_strlit("0123456789abcdef");
            assert((31 - (k - 1)) as nat == rest);
            assert(simple_text(a)[k - 1] == uuid_digit(a, k - 1));
            assert(simple_text(b)[k - 1] == uuid_digit(b, k - 1));
            assert("0123456789abcdef"@[x % 16] == "0123456789abcdef"@[y % 16]);
        }
        assert(x / 16 == y / 16);
    }
}

/// The five groups of a hyphenated form make up the digits.
proof fn lemma_uuid_text(id: u128)
    ensures
        uuid_text(id).len() == 36,
        simple_text(id) == uuid_text(id).subrange(0, 8) + uuid_text(id).subrange(9, 13) + uuid_text(id).subrange(
            14,
            18,
        ) + uuid_text(id).subrange(19, 23) + uuid_text(id).subrange(24, 36),
{
    reveal_strlit("-");
}

/// A text stands for one UUID at most.
pub proof fn law_uuid_of_text(text: Seq<char>, id: u128)
    ensures
        uuid_of_text(text) == Some(id) <==> reads_as(text, id),
{
    if reads_as(text, id) {
        let other = uuid_of_text(text)->0;
        reveal_strlit("{");
        reveal_strlit("}");
        reveal_strlit("urn:uuid:");
        lemma_uuid_text(id);
        lemma_uuid_text(other);
        let form = text.map_values(|c: char| lower(c));
        assert(uuid_text(id) =~= ("{"@ + uuid_text(id) + "}"@).subrange(1, 37));
        assert(uuid_text(other) =~= ("{"@ + uuid_text(other) + "}"@).subrange(1, 37));
        assert(uuid_text(id) =~= ("urn:uuid:"@ + uuid_text(id)).subrange(9, 45));
        assert(uuid_text(other) =~= ("urn:uuid:"@ + uuid_text(other)).subrange(9, 45));
        assert(simple_text(id) == simple_text(other));
        lemma_same_digits(id, other, 32);
        reveal_with_fuel(pow, 1);
    }
}

/// The text that an account is shown as stands for that account.
pub proof fn law_uuid_round_trip(id: u128)
    ensures
        uuid_of_text(uuid_text(id)) == Some(id),
{
    reveal_strlit("0123456789abcdef");
    reveal_strlit("-");
    assert(uuid_text(id).map_values(|c: char| lower(c)) =~= uuid_text(id));
    law_uuid_of_text(uuid_text(id), id);
}

/// Calls `Uuid::parse_str` of the `uuid` crate. The claim is that it reads the forms
/// of [`reads_as`], and no others.
#[verifier::external_body]
pub(crate) fn parse_uuid(text: &str) -> (id: Option<u128>)
    ensures
        id == uuid_of_text(text@),
{
    Uuid::parse_str(text).ok().map(|id| id.as_u128())
}

/// Formats a `Uuid` of the `uuid` crate with `Display`. The claim is that this
/// gives the hyphenated lower-case form.
#[verifier::external_body]
pub(crate) fn display_uuid(id: u128) -> (text: String)
    ensures
        text@ == uuid_text(id),
{
    Uuid::from_u128(id).to_string()
}

/// Formats an `AccountUuid` of the `zcash_client_sqlite` crate with `Debug`. The
/// claim is that this gives the type's name around the hyphenated lower-case
/// form of the UUID.
#[verifier::external_body]
pub(crate) fn debug_account(id: u128) -> (text: String)
    ensures
        text@ == "AccountUuid("@ + uuid_text(id) + ")"@,
{
    format!("{:?}", AccountUuid::from_uuid(Uuid::from_u128(id)))
}

} // verus!
