//! The errors that the method answers with.

use vstd::prelude::*;

verus! {

/// The error codes of the legacy JSON-RPC interface that this method uses.
#[derive(Clone, Copy, Debug, PartialEq, Eq, Structural)]
pub enum LegacyCode {
    /// A parameter is invalid, missing or duplicated.
    InvalidParameter,
    /// An address or a key is invalid.
    InvalidAddressOrKey,
    /// The wallet database failed.
    Database,
    /// The wallet failed for a reason that no other code covers.
    Wallet,
    /// The wallet has to be unlocked first.
    WalletUnlockNeeded,
}

/// An error reply: a code and a text for the caller.
#[derive(Debug)]
pub struct RpcError {
    pub code: LegacyCode,
    pub message: String,
}

/// What an [`RpcError`] says.
pub ghost struct ErrorReply {
    pub code: LegacyCode,
    pub message: Seq<char>,
}

impl View for RpcError {
    type V = ErrorReply;

    open spec fn view(&self) -> ErrorReply {
        ErrorReply { code: self.code, message: self.message@ }
    }
}

/// A reply has the code and the text of its error.
pub proof fn law_error_view(error: RpcError)
    ensures
        error@.code == error.code,
        error@.message == error.message@,
{
}

/// The reply with the given code and text.
pub open spec fn reply(code: LegacyCode, message: Seq<char>) -> ErrorReply {
    ErrorReply { code, message }
}

impl LegacyCode {
    /// An error with this code and the given text.
    pub fn with_message(self, message: String) -> (error: RpcError)
        ensures
            error@ == reply(self, message@),
    {
        RpcError { code: self, message }
    }

    /// An error with this code and a fixed text.
    pub fn with_static(self, message: &'static str) -> (error: RpcError)
        ensures
            error@ == reply(self, message@),
    {
        RpcError { code: self, message: message.to_string() }
    }

    /// An error with this code whose text is `prefix` followed by `detail`.
    pub(crate) fn with_detail(self, prefix: &str, detail: &str) -> (error: RpcError)
        ensures
            error@ == reply(self, prefix@ + detail@),
    {
        RpcError { code: self, message: prefix.to_string().concat(detail) }
    }
}

/// Why the keystore did not hand out a secret.
#[derive(Debug)]
pub struct KeystoreError {
    /// Whether the failure is of the generic kind.
    pub generic: bool,
    /// The failure as text.
    pub message: String,
}

/// Whether a keystore failure means that the wallet is locked.
pub open spec fn is_locked(error: KeystoreError) -> bool {
    error.generic && error.message@ == "Wallet is locked"@
}

/// What a keystore failure is answered with.
pub open spec fn keystore_reply(error: KeystoreError) -> ErrorReply {
    reply(
        if is_locked(error) {
            LegacyCode::WalletUnlockNeeded
        } else {
            LegacyCode::Database
        },
        error.message@,
    )
}

impl KeystoreError {
    /// The error that answers this keystore failure: it asks for an unlock
    /// exactly when the wallet is locked, and otherwise blames the database.
    pub fn into_rpc_error(self) -> (error: RpcError)
        ensures
            error@ == keystore_reply(self),
    {
        let locked_text = "Wallet is locked".to_string();
        if self.generic && self.message == locked_text {
            LegacyCode::WalletUnlockNeeded.with_message(self.message)
        } else {
            LegacyCode::Database.with_message(self.message)
        }
    }
}

} // verus!
