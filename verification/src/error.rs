//! The errors with which the service turns a request down.

use vstd::prelude::*;

verus! {

/// Why a request was refused; each is answered with a bad-request status
/// and the text of `ApiError::message`.
#[derive(Debug, Clone, Copy, PartialEq, Eq, Structural)]
pub enum ApiError {
    AuthKeyMissing,
    AuthKeyInvalid,
    EmailMissing,
    EmailInvalid,
    VaultMissing,
    VaultInvalid,
    DatabaseWrite,
    DatabaseRead,
    InternalError,
    UserExists,
    UserNoExists,
}

/// The text sent back for each error.
pub open spec fn error_text(e: ApiError) -> Seq<char> {
    match e {
        ApiError::AuthKeyMissing => "Authentication key missing"@,
        ApiError::AuthKeyInvalid => "Authentication key invalid"@,
        ApiError::EmailMissing => "Email missing"@,
        ApiError::EmailInvalid => "Email invalid"@,
        ApiError::VaultMissing => "Vault missing"@,
        ApiError::VaultInvalid => "Vauld invalid"@,
        ApiError::DatabaseWrite => "failed to write to Database"@,
        ApiError::DatabaseRead => "failed to read to Database"@,
        ApiError::InternalError => "Internal Server Error"@,
        ApiError::UserExists => "Users already exists in the database"@,
        ApiError::UserNoExists => "User does not exist in database"@,
    }
}

impl ApiError {
    /// The text of the response body that reports this error.
    pub fn message(&self) -> (text: &'static str)
        ensures
            text@ == error_text(*self),
    {
        match self {
            ApiError::AuthKeyMissing => "Authentication key missing",
            ApiError::AuthKeyInvalid => "Authentication key invalid",
            ApiError::EmailMissing => "Email missing",
            ApiError::EmailInvalid => "Email invalid",
            ApiError::VaultMissing => "Vault missing",
            ApiError::VaultInvalid => "Vauld invalid",
            ApiError::DatabaseWrite => "failed to write to Database",
            ApiError::DatabaseRead => "failed to read to Database",
            ApiError::InternalError => "Internal Server Error",
            ApiError::UserExists => "Users already exists in the database",
            ApiError::UserNoExists => "User does not exist in database",
        }
    }
}

/// Distinct errors are reported with distinct texts.
pub proof fn law_error_texts_distinct(a: ApiError, b: ApiError)
    ensures
        a != b ==> error_text(a) != error_text(b),
{
    reveal_strlit("Authentication key missing");
    reveal_strlit("Authentication key invalid");
    reveal_strlit("Email missing");
    reveal_strlit("Email invalid");
    reveal_strlit("Vault missing");
    reveal_strlit("Vauld invalid");
    reveal_strlit("failed to write to Database");
    reveal_strlit("failed to read to Database");
    reveal_strlit("Internal Server Error");
    reveal_strlit("Users already exists in the database");
    reveal_strlit("User does not exist in database");
    if a != b {
        let x = error_text(a);
        let y = error_text(b);
        if x.len() == y.len() {
            assert(x[0] != y[0] || x[x.len() - 4] != y[y.len() - 4] || x[5] != y[5]);
        }
    }
}

} // verus!
