//! Resolving the `fromaddresses` parameter to one account and addresses of it.
//!
//! The parameter is the UUID of an account, which stands for all transparent
//! receivers of the account, or an array of transparent addresses, which must all
//! belong to one account of the wallet.

use vstd::prelude::*;

use crate::account::{parse_uuid, uuid_of_text, AccountId};
use crate::address::{
    contains_address, decode_address, decoded_address, Address, NetworkType, TransparentAddress,
};
use crate::error::{reply, ErrorReply, LegacyCode, RpcError};
use crate::json::JsonValue;
use crate::step::{
    failed, found_view, FetchAccount, FindOwner, Found, FoundView, FindOwnerView, ListReceivers,
    LookUpAccount, Order, Source, SourceView, Step, StepView,
};

verus! {

/// A text as `Debug` of the standard library prints it: in quotes, with some
/// characters escaped.
pub uninterp spec fn quoted(text: Seq<char>) -> Seq<char>;

/// Formats a text with `Debug` of the standard library. The claim is that the
/// result depends on the text alone.
#[verifier::external_body]
fn quote(text: &str) -> (result: String)
    ensures
        result@ == quoted(text@),
{
    format!("{text:?}")
}

/// The answer to a `fromaddresses` that is a string but no UUID.
pub open spec fn not_an_account(quoted_text: Seq<char>) -> ErrorReply {
    reply(
        LegacyCode::InvalidParameter,
        "Invalid `fromaddresses`: expected an account UUID string or an array of \
         transparent addresses, got "@ + quoted_text + "."@,
    )
}

/// The error for a `fromaddresses` that is a string but no UUID, given the string
/// in quotes.
pub fn not_an_account_error(quoted_text: &str) -> (error: RpcError)
    ensures
        error@ == not_an_account(quoted_text@),
{
    let text = "Invalid `fromaddresses`: expected an account UUID string or an array of \
         transparent addresses, got ".to_string().concat(quoted_text).concat(".");
    LegacyCode::InvalidParameter.with_message(text)
}

/// The answer to an account that the wallet does not have.
pub open spec fn unknown_account(text: Seq<char>) -> ErrorReply {
    reply(LegacyCode::InvalidParameter, "Unknown account UUID: "@ + text)
}

/// The answer to a `fromaddresses` that is neither a string nor an array.
pub open spec fn wrong_shape() -> ErrorReply {
    reply(
        LegacyCode::InvalidParameter,
        "Invalid `fromaddresses`: expected an account UUID string or an array of \
         transparent addresses."@,
    )
}

/// The answer to an empty array.
pub open spec fn empty_array() -> ErrorReply {
    reply(LegacyCode::InvalidParameter, "Invalid `fromaddresses`: array must not be empty."@)
}

/// The answer to an array entry that is not a string.
pub open spec fn not_a_string() -> ErrorReply {
    reply(LegacyCode::InvalidParameter, "Invalid `fromaddresses`: every array entry must be a string."@)
}

/// The answer to an array entry that is no address of the network.
pub open spec fn not_an_address(text: Seq<char>) -> ErrorReply {
    reply(LegacyCode::InvalidAddressOrKey, "Invalid `fromaddresses` entry: not a Zcash address: "@ + text)
}

/// The answer to an array entry that is an address, but not a transparent one.
pub open spec fn not_transparent(text: Seq<char>) -> ErrorReply {
    reply(
        LegacyCode::InvalidAddressOrKey,
        "Invalid `fromaddresses` entry: only transparent addresses are accepted: "@ + text,
    )
}

/// The answer to an address that no account of the wallet owns.
pub open spec fn not_owned(text: Seq<char>) -> ErrorReply {
    reply(
        LegacyCode::InvalidAddressOrKey,
        "Transparent address is not owned by any account in this wallet: "@ + text,
    )
}

/// The answer to addresses of more than one account.
pub open spec fn mixed_accounts() -> ErrorReply {
    reply(LegacyCode::InvalidParameter, "All addresses in `fromaddresses` must belong to the same account."@)
}

/// The answer to a source without any address.
pub open spec fn no_addresses() -> ErrorReply {
    reply(LegacyCode::InvalidParameter, "No source transparent addresses resolved from `fromaddresses`."@)
}

/// What the wallet database failed with is passed on.
pub open spec fn database(text: Seq<char>) -> ErrorReply {
    reply(LegacyCode::Database, text)
}

/// The transparent address that an array entry stands for, given what its text
/// decodes to.
pub open spec fn accepted_entry(text: Seq<char>, decoded: Option<Address>) -> Result<TransparentAddress, ErrorReply> {
    match decoded {
        None => Err(not_an_address(text)),
        Some(Address::Transparent(address)) => Ok(address),
        Some(_) => Err(not_transparent(text)),
    }
}

/// What accepting an entry gave: the address, or what the error says.
pub open spec fn acceptance(result: Result<TransparentAddress, RpcError>) -> Result<TransparentAddress, ErrorReply> {
    match result {
        Ok(address) => Ok(address),
        Err(error) => Err(error@),
    }
}

/// An accepted entry is read as it is, and so is the error in its place.
pub proof fn law_acceptance(address: TransparentAddress, error: RpcError)
    ensures
        acceptance(Ok(address)) == Ok::<TransparentAddress, ErrorReply>(address),
        acceptance(Err(error)) == Err::<TransparentAddress, ErrorReply>(error@),
{
}

/// Accepts an array entry whose text decodes to a transparent address, and turns
/// away any other.
pub fn accept_entry(text: &str, decoded: Option<Address>) -> (result: Result<TransparentAddress, RpcError>)
    ensures
        acceptance(result) == accepted_entry(text@, decoded),
{
    match decoded {
        None => Err(
            LegacyCode::InvalidAddressOrKey.with_detail(
                "Invalid `fromaddresses` entry: not a Zcash address: ",
                text,
            ),
        ),
        Some(Address::Transparent(address)) => Ok(address),
        Some(_) => Err(
            LegacyCode::InvalidAddressOrKey.with_detail(
                "Invalid `fromaddresses` entry: only transparent addresses are accepted: ",
                text,
            ),
        ),
    }
}

/// The transparent address that an array entry stands for on a network.
pub open spec fn entry_address(network: NetworkType, entry: JsonValue) -> Result<TransparentAddress, ErrorReply> {
    match entry.text() {
        None => Err(not_a_string()),
        Some(text) => accepted_entry(text, decoded_address(network, text)),
    }
}

/// Whether an address is among those found.
pub open spec fn is_found(found: Option<FoundView>, address: TransparentAddress) -> bool {
    found matches Some(f) && f.from_addrs.contains(address)
}

/// The source is known: the call goes on with its account, unless no address was
/// found for it.
pub open spec fn resolved(source: SourceView) -> StepView {
    if source.from_addrs.len() == 0 {
        failed(no_addresses())
    } else {
        StepView::FetchAccount { source }
    }
}

/// Going through the entries from `next` on, up to the first that is in error or
/// that holds an address not found before.
pub open spec fn scanned(order: Order, entries: Vec<JsonValue>, next: nat, found: Option<FoundView>) -> StepView
    decreases entries@.len() - next,
{
    if next >= entries@.len() {
        match found {
            None => failed(empty_array()),
            Some(f) => resolved(
                SourceView {
                    order,
                    fromaddresses: JsonValue::Array(entries),
                    account: f.account,
                    from_addrs: f.from_addrs,
                },
            ),
        }
    } else {
        match entry_address(order.network.network_type(), entries@[next as int]) {
            Err(error) => failed(error),
            Ok(address) => if is_found(found, address) {
                scanned(order, entries, next + 1, found)
            } else {
                StepView::FindOwner(
                    FindOwnerView {
                        order,
                        entries,
                        next: next + 1,
                        text: entries@[next as int].text()->0,
                        address,
                        found,
                    },
                )
            },
        }
    }
}

/// The first step for a `fromaddresses` that is a string, given the UUID that the
/// string stands for.
pub open spec fn account_named(order: Order, text: String, id: Option<AccountId>) -> StepView {
    match id {
        None => failed(not_an_account(quoted(text@))),
        Some(account) => StepView::LookUpAccount { order, text, account },
    }
}

/// The first step for a `fromaddresses`.
pub open spec fn resolution(order: Order, fromaddresses: JsonValue) -> StepView {
    match fromaddresses {
        JsonValue::String(text) => account_named(order, text, uuid_of_text(text@)),
        JsonValue::Array(entries) => scanned(order, entries, 0, None),
        JsonValue::Other => failed(wrong_shape()),
    }
}

fn source_resolved(source: Source) -> (step: Step)
    ensures
        step@ == resolved(source@),
{
    if source.from_addrs.len() == 0 {
        Step::Done(
            Err(
                LegacyCode::InvalidParameter.with_static(
                    "No source transparent addresses resolved from `fromaddresses`.",
                ),
            ),
        )
    } else {
        Step::FetchAccount(FetchAccount { source })
    }
}

fn scan(order: Order, entries: Vec<JsonValue>, start: usize, found: Option<Found>) -> (step: Step)
    ensures
        step@ == scanned(order, entries, start as nat, found_view(found)),
{
    let mut next: usize = start;
    while next < entries.len()
        invariant
            scanned(order, entries, start as nat, found_view(found)) == scanned(
                order,
                entries,
                next as nat,
                found_view(found),
            ),
        decreases entries.len() - next,
    {
        let text = match &entries[next] {
            JsonValue::String(text) => text,
            _ => {
                return Step::Done(
                    Err(
                        LegacyCode::InvalidParameter.with_static(
                            "Invalid `fromaddresses`: every array entry must be a string.",
                        ),
                    ),
                );
            },
        };
        let decoded = decode_address(&order.network, text.as_str());
        let address = match accept_entry(text.as_str(), decoded) {
            Ok(address) => address,
            Err(error) => {
                return Step::Done(Err(error));
            },
        };
        let seen = match &found {
            Some(f) => contains_address(&f.from_addrs, &address),
            None => false,
        };
        if !seen {
            let text = text.clone();
            return Step::FindOwner(FindOwner { order, entries, next: next + 1, text, address, found });
        }
        next += 1;
    }
    match found {
        None => Step::Done(
            Err(LegacyCode::InvalidParameter.with_static("Invalid `fromaddresses`: array must not be empty.")),
        ),
        Some(f) => source_resolved(
            Source {
                order,
                fromaddresses: JsonValue::Array(entries),
                account: f.account,
                from_addrs: f.from_addrs,
            },
        ),
    }
}

/// Starts on a `fromaddresses` that is a string, given the UUID that the string
/// stands for.
pub fn name_account(order: Order, text: String, id: Option<AccountId>) -> (step: Step)
    ensures
        step@ == account_named(order, text, id),
{
    match id {
        None => {
            let quoted_text = quote(text.as_str());
            Step::Done(Err(not_an_account_error(quoted_text.as_str())))
        },
        Some(account) => Step::LookUpAccount(LookUpAccount { order, text, account }),
    }
}

/// Starts to resolve a `fromaddresses`.
pub fn resolve_fromaddresses(order: Order, fromaddresses: JsonValue) -> (step: Step)
    ensures
        step@ == resolution(order, fromaddresses),
{
    match fromaddresses {
        JsonValue::String(text) => {
            let id = parse_uuid(text.as_str());
            name_account(order, text, id)
        },
        JsonValue::Array(entries) => scan(order, entries, 0, None),
        JsonValue::Other => Step::Done(
            Err(
                LegacyCode::InvalidParameter.with_static(
                    "Invalid `fromaddresses`: expected an account UUID string or an array of \
                     transparent addresses.",
                ),
            ),
        ),
    }
}

/// The step after it is known whether the wallet has the account.
pub open spec fn account_looked_up(
    order: Order,
    text: String,
    account: AccountId,
    known: Result<bool, String>,
) -> StepView {
    match known {
        Err(e) => failed(database(e@)),
        Ok(false) => failed(unknown_account(text@)),
        Ok(true) => StepView::ListReceivers { order, text, account },
    }
}

impl LookUpAccount {
    /// Goes on, given whether the wallet has the account.
    pub fn resume(self, known: Result<bool, String>) -> (step: Step)
        ensures
            step@ == account_looked_up(self.order, self.text, self.account, known),
    {
        match known {
            Err(e) => Step::Done(Err(LegacyCode::Database.with_message(e))),
            Ok(false) => Step::Done(
                Err(LegacyCode::InvalidParameter.with_detail("Unknown account UUID: ", self.text.as_str())),
            ),
            Ok(true) => Step::ListReceivers(
                ListReceivers { order: self.order, text: self.text, account: self.account },
            ),
        }
    }
}

/// The step after the receivers of the account are known.
pub open spec fn receivers_listed(
    order: Order,
    text: String,
    account: AccountId,
    receivers: Result<Vec<TransparentAddress>, String>,
) -> StepView {
    match receivers {
        Err(e) => failed(database(e@)),
        Ok(addresses) => resolved(
            SourceView { order, fromaddresses: JsonValue::String(text), account, from_addrs: addresses@ },
        ),
    }
}

impl ListReceivers {
    /// Goes on, given the receivers of the account.
    pub fn resume(self, receivers: Result<Vec<TransparentAddress>, String>) -> (step: Step)
        ensures
            step@ == receivers_listed(self.order, self.text, self.account, receivers),
    {
        match receivers {
            Err(e) => Step::Done(Err(LegacyCode::Database.with_message(e))),
            Ok(from_addrs) => source_resolved(
                Source {
                    order: self.order,
                    fromaddresses: JsonValue::String(self.text),
                    account: self.account,
                    from_addrs,
                },
            ),
        }
    }
}

/// What has been found once one more address is known to belong to an account.
pub open spec fn with_address(found: Option<FoundView>, account: AccountId, address: TransparentAddress) -> FoundView {
    FoundView {
        account,
        from_addrs: match found {
            None => seq![address],
            Some(f) => f.from_addrs.push(address),
        },
    }
}

/// The step after the owner of the address is known.
pub open spec fn owner_found(asked: FindOwnerView, owner: Result<Option<AccountId>, String>) -> StepView {
    match owner {
        Err(e) => failed(database(e@)),
        Ok(None) => failed(not_owned(asked.text)),
        Ok(Some(account)) => if asked.found matches Some(f) && f.account != account {
            failed(mixed_accounts())
        } else {
            scanned(asked.order, asked.entries, asked.next, Some(with_address(asked.found, account, asked.address)))
        },
    }
}

impl FindOwner {
    /// Goes on, given the account that owns the address, if there is one.
    pub fn resume(self, owner: Result<Option<AccountId>, String>) -> (step: Step)
        ensures
            step@ == owner_found(self@, owner),
    {
        let account: AccountId = match owner {
            Err(e) => {
                return Step::Done(Err(LegacyCode::Database.with_message(e)));
            },
            Ok(None) => {
                return Step::Done(
                    Err(
                        LegacyCode::InvalidAddressOrKey.with_detail(
                            "Transparent address is not owned by any account in this wallet: ",
                            self.text.as_str(),
                        ),
                    ),
                );
            },
            Ok(Some(account)) => account,
        };
        let mut from_addrs: Vec<TransparentAddress> = Vec::new();
        if let Some(f) = self.found {
            if f.account != account {
                return Step::Done(
                    Err(
                        LegacyCode::InvalidParameter.with_static(
                            "All addresses in `fromaddresses` must belong to the same account.",
                        ),
                    ),
                );
            }
            from_addrs = f.from_addrs;
        }
        from_addrs.push(self.address);
        proof {
            assert(from_addrs@ =~= with_address(found_view(self.found), account, self.address).from_addrs);
        }
        scan(self.order, self.entries, self.next, Some(Found { account, from_addrs }))
    }
}

} // verus!
