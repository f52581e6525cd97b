//! How each endpoint is served. Serving a request alternates between work
//! on the database and decisions; the decisions are here, as a step function
//! from what the database answered to what to do next. The caller performs
//! each `DbAction` on the database and hands back the `DbEvent` it got, until
//! the action is a `Reply`.

use vstd::prelude::*;

use crate::error::ApiError;
use crate::guards::{AuthKey, Email, NewAuthKey, Vault};
use crate::hex_codec::hex_encoding;
use crate::models::{rows_view, NewUser, NewUserRow, User, UserRow};

verus! {

/// A request that passed its header checks, one variant per endpoint.
pub enum Request {
    /// `/auth`: is there a user with this key?
    Authenticate { auth_key: AuthKey },
    /// `/get_vault`: the vault of the user with this key.
    RetrieveVault { auth_key: AuthKey },
    /// `/register`: a new user.
    Register { email: Email, auth_key: AuthKey, vault: Vault },
    /// `/update_key`: replace the key and the vault of the user with `old_auth_key`.
    UpdateKey { old_auth_key: AuthKey, new_auth_key: NewAuthKey, vault: Vault },
    /// `/update_vault`: replace the vault of the user with this key.
    UpdateVault { auth_key: AuthKey, vault: Vault },
}

/// A request, with keys as bytes and the rest as text.
pub enum RequestView {
    Authenticate { key: Seq<u8> },
    RetrieveVault { key: Seq<u8> },
    Register { email: Seq<char>, key: Seq<u8>, vault: Seq<char> },
    UpdateKey { old_key: Seq<u8>, new_key: Seq<u8>, vault: Seq<char> },
    UpdateVault { key: Seq<u8>, vault: Seq<char> },
}

impl View for Request {
    type V = RequestView;

    open spec fn view(&self) -> RequestView {
        match self {
            Request::Authenticate { auth_key } => RequestView::Authenticate { key: auth_key.0@ },
            Request::RetrieveVault { auth_key } => RequestView::RetrieveVault { key: auth_key.0@ },
            Request::Register { email, auth_key, vault } => RequestView::Register {
                email: email.0@,
                key: auth_key.0@,
                vault: vault.0@,
            },
            Request::UpdateKey { old_auth_key, new_auth_key, vault } => RequestView::UpdateKey {
                old_key: old_auth_key.0@,
                new_key: new_auth_key.0@,
                vault: vault.0@,
            },
            Request::UpdateVault { auth_key, vault } => RequestView::UpdateVault {
                key: auth_key.0@,
                vault: vault.0@,
            },
        }
    }
}

/// Work for the caller to do on the `users` table, or the answer to send.
pub enum DbAction {
    /// Load every user whose key is this text.
    SelectByKey(String),
    /// Load every user whose e-mail is this text.
    SelectByEmail(String),
    /// Insert this user and return the row.
    Insert(NewUser),
    /// Set key and vault of the users with key `key`; return the row.
    UpdateKeyAndVault { key: String, new_key: String, vault: String },
    /// Set the vault of the users with key `key`; return the row.
    UpdateVault { key: String, vault: String },
    /// Answer the request with this body or error.
    Reply(Result<String, ApiError>),
}

/// An action, as text.
pub enum DbActionView {
    SelectByKey(Seq<char>),
    SelectByEmail(Seq<char>),
    Insert(NewUserRow),
    UpdateKeyAndVault { key: Seq<char>, new_key: Seq<char>, vault: Seq<char> },
    UpdateVault { key: Seq<char>, vault: Seq<char> },
    Reply(Result<Seq<char>, ApiError>),
}

/// The text of a reply.
pub open spec fn reply_view(r: Result<String, ApiError>) -> Result<Seq<char>, ApiError> {
    match r {
        Ok(s) => Ok(s@),
        Err(e) => Err(e),
    }
}

impl View for DbAction {
    type V = DbActionView;

    open spec fn view(&self) -> DbActionView {
        match self {
            DbAction::SelectByKey(k) => DbActionView::SelectByKey(k@),
            DbAction::SelectByEmail(e) => DbActionView::SelectByEmail(e@),
            DbAction::Insert(u) => DbActionView::Insert(u@),
            DbAction::UpdateKeyAndVault { key, new_key, vault } => DbActionView::UpdateKeyAndVault {
                key: key@,
                new_key: new_key@,
                vault: vault@,
            },
            DbAction::UpdateVault { key, vault } => DbActionView::UpdateVault {
                key: key@,
                vault: vault@,
            },
            DbAction::Reply(r) => DbActionView::Reply(reply_view(*r)),
        }
    }
}

/// What the database answered to the last action.
pub enum DbEvent {
    /// The rows a select loaded.
    Rows(Vec<User>),
    /// The select failed.
    ReadFailed,
    /// The row an insert or update returned.
    Written(User),
    /// The insert or update failed, or changed no row.
    WriteFailed,
}

/// An answer, as text.
pub enum DbEventView {
    Rows(Seq<UserRow>),
    ReadFailed,
    Written(UserRow),
    WriteFailed,
}

impl View for DbEvent {
    type V = DbEventView;

    open spec fn view(&self) -> DbEventView {
        match self {
            DbEvent::Rows(rows) => DbEventView::Rows(rows_view(rows@)),
            DbEvent::ReadFailed => DbEventView::ReadFailed,
            DbEvent::Written(u) => DbEventView::Written(u@),
            DbEvent::WriteFailed => DbEventView::WriteFailed,
        }
    }
}

/// Where serving a request stands.
#[derive(Debug, Clone, Copy, PartialEq, Eq, Structural)]
pub enum Stage {
    /// A select was asked for; its rows are awaited.
    Lookup,
    /// An insert or update was asked for; its outcome is awaited.
    Write,
    /// The reply was given.
    Done,
}

// ---------------------------------------------------------------------------
// The decisions, over text
// ---------------------------------------------------------------------------

/// What a select by a unique column says: more than one row is a broken
/// invariant, otherwise whether there is a row.
pub open spec fn lookup_outcome(n: nat) -> Result<bool, ApiError> {
    if n > 1 {
        Err(ApiError::InternalError)
    } else {
        Ok(n == 1)
    }
}

/// The first action for a request: a select by key, or by e-mail to register.
pub open spec fn first_action(r: RequestView) -> DbActionView {
    match r {
        RequestView::Authenticate { key } => DbActionView::SelectByKey(hex_encoding(key)),
        RequestView::RetrieveVault { key } => DbActionView::SelectByKey(hex_encoding(key)),
        RequestView::Register { email, .. } => DbActionView::SelectByEmail(email),
        RequestView::UpdateKey { old_key, .. } => DbActionView::SelectByKey(hex_encoding(old_key)),
        RequestView::UpdateVault { key, .. } => DbActionView::SelectByKey(hex_encoding(key)),
    }
}

/// The reply that ends serving a request.
pub open spec fn reply(r: Result<Seq<char>, ApiError>) -> (Stage, DbActionView) {
    (Stage::Done, DbActionView::Reply(r))
}

/// The answer of `/auth`: "1" when a user has the key, "0" when none has.
pub open spec fn authenticate_reply(rows: Seq<UserRow>) -> Result<Seq<char>, ApiError> {
    match lookup_outcome(rows.len()) {
        Ok(found) => Ok(if found { "1"@ } else { "0"@ }),
        Err(e) => Err(e),
    }
}

/// The answer of `/get_vault`: the vault of the one user the key loaded.
pub open spec fn vault_reply(rows: Seq<UserRow>) -> Result<Seq<char>, ApiError> {
    if rows.len() > 1 {
        Err(ApiError::InternalError)
    } else if rows.len() == 0 {
        Err(ApiError::UserNoExists)
    } else {
        Ok(rows[0].vault)
    }
}

/// What to do once the select of a request has loaded `rows`.
pub open spec fn after_lookup(r: RequestView, rows: Seq<UserRow>) -> (Stage, DbActionView) {
    match r {
        RequestView::Authenticate { .. } => reply(authenticate_reply(rows)),
        RequestView::RetrieveVault { .. } => reply(vault_reply(rows)),
        RequestView::Register { email, key, vault } => match lookup_outcome(rows.len()) {
            Ok(true) => reply(Err(ApiError::UserExists)),
            Ok(false) => (
                Stage::Write,
                DbActionView::Insert(NewUserRow { email, key: hex_encoding(key), vault }),
            ),
            Err(e) => reply(Err(e)),
        },
        RequestView::UpdateKey { old_key, new_key, vault } => match lookup_outcome(rows.len()) {
            Ok(true) => (
                Stage::Write,
                DbActionView::UpdateKeyAndVault {
                    key: hex_encoding(old_key),
                    new_key: hex_encoding(new_key),
                    vault,
                },
            ),
            Ok(false) => reply(Err(ApiError::UserNoExists)),
            Err(e) => reply(Err(e)),
        },
        RequestView::UpdateVault { key, vault } => match lookup_outcome(rows.len()) {
            Ok(true) => (
                Stage::Write,
                DbActionView::UpdateVault { key: hex_encoding(key), vault },
            ),
            Ok(false) => reply(Err(ApiError::UserNoExists)),
            Err(e) => reply(Err(e)),
        },
    }
}

/// The step from a stage and the database's answer to the next stage and
/// action. An answer that does not fit the stage, or any answer once the
/// reply was given, is an internal error.
pub open spec fn next_step(r: RequestView, stage: Stage, event: DbEventView) -> (
    Stage,
    DbActionView,
) {
    match stage {
        Stage::Lookup => match event {
            DbEventView::Rows(rows) => after_lookup(r, rows),
            DbEventView::ReadFailed => reply(Err(ApiError::DatabaseRead)),
            _ => reply(Err(ApiError::InternalError)),
        },
        Stage::Write => match event {
            DbEventView::Written(_) => reply(Ok("Success"@)),
            DbEventView::WriteFailed => reply(Err(ApiError::DatabaseWrite)),
            _ => reply(Err(ApiError::InternalError)),
        },
        Stage::Done => reply(Err(ApiError::InternalError)),
    }
}

// ---------------------------------------------------------------------------
// The decisions, executable
// ---------------------------------------------------------------------------

/// Whether the rows loaded by key name a user; two or more users with one
/// key is an internal error.
pub fn check_user_exists(rows: &Vec<User>) -> (r: Result<bool, ApiError>)
    ensures
        r == lookup_outcome(rows@.len()),
{
    if rows.len() > 1 {
        Err(ApiError::InternalError)
    } else {
        Ok(rows.len() == 1)
    }
}

/// Whether the rows loaded by e-mail name a user; two or more users with
/// one e-mail is an internal error.
pub fn check_email_exists(rows: &Vec<User>) -> (r: Result<bool, ApiError>)
    ensures
        r == lookup_outcome(rows@.len()),
{
    if rows.len() > 1 {
        Err(ApiError::InternalError)
    } else {
        Ok(rows.len() == 1)
    }
}

/// The answer of `/auth`: "1" when a user has the key, "0" when none has.
pub fn authenticate_key(rows: &Vec<User>) -> (r: Result<String, ApiError>)
    ensures
        reply_view(r) == authenticate_reply(rows_view(rows@)),
{
    match check_user_exists(rows) {
        Ok(found) => Ok(if found { "1".to_owned() } else { "0".to_owned() }),
        Err(e) => Err(e),
    }
}

/// The answer of `/get_vault`: the vault of the one user the key loaded.
pub fn read_vault(rows: Vec<User>) -> (r: Result<String, ApiError>)
    ensures
        reply_view(r) == vault_reply(rows_view(rows@)),
{
    let mut rows = rows;
    if rows.len() > 1 {
        Err(ApiError::InternalError)
    } else {
        match rows.pop() {
            Some(user) => Ok(user.vault),
            None => Err(ApiError::UserNoExists),
        }
    }
}

/// Serves one request: holds it and where serving it stands.
pub struct RequestHandler {
    request: Request,
    stage: Stage,
}

impl View for RequestHandler {
    type V = (RequestView, Stage);

    closed spec fn view(&self) -> (RequestView, Stage) {
        (self.request@, self.stage)
    }
}

impl RequestHandler {
    /// Starts serving `request`: the first action is always a select.
    pub fn new(request: Request) -> (res: (RequestHandler, DbAction))
        ensures
            res.0@ == (request@, Stage::Lookup),
            res.1@ == first_action(request@),
    {
        let action = match &request {
            Request::Authenticate { auth_key } => DbAction::SelectByKey(auth_key.to_hex()),
            Request::RetrieveVault { auth_key } => DbAction::SelectByKey(auth_key.to_hex()),
            Request::Register { email, .. } => DbAction::SelectByEmail(email.0.clone()),
            Request::UpdateKey { old_auth_key, .. } => DbAction::SelectByKey(old_auth_key.to_hex()),
            Request::UpdateVault { auth_key, .. } => DbAction::SelectByKey(auth_key.to_hex()),
        };
        (RequestHandler { request, stage: Stage::Lookup }, action)
    }

    /// Where serving the request stands.
    pub fn stage(&self) -> (s: Stage)
        ensures
            s == self@.1,
    {
        self.stage
    }

    /// Takes the database's answer to the last action and gives the next.
    pub fn resume(&mut self, event: DbEvent) -> (action: DbAction)
        ensures
            final(self)@.0 == old(self)@.0,
            (final(self)@.1, action@) == next_step(old(self)@.0, old(self)@.1, event@),
    {
        let (stage, action) = match self.stage {
            Stage::Lookup => match event {
                DbEvent::Rows(rows) => self.after_lookup(rows),
                DbEvent::ReadFailed => (Stage::Done, DbAction::Reply(Err(ApiError::DatabaseRead))),
                _ => (Stage::Done, DbAction::Reply(Err(ApiError::InternalError))),
            },
            Stage::Write => match event {
                DbEvent::Written(_) => (Stage::Done, DbAction::Reply(Ok("Success".to_owned()))),
                DbEvent::WriteFailed => (Stage::Done, DbAction::Reply(Err(ApiError::DatabaseWrite))),
                _ => (Stage::Done, DbAction::Reply(Err(ApiError::InternalError))),
            },
            Stage::Done => (Stage::Done, DbAction::Reply(Err(ApiError::InternalError))),
        };
        self.stage = stage;
        action
    }

    fn after_lookup(&self, rows: Vec<User>) -> (res: (Stage, DbAction))
        ensures
            (res.0, res.1@) == after_lookup(self.request@, rows_view(rows@)),
    {
        match &self.request {
            Request::Authenticate { .. } => (Stage::Done, DbAction::Reply(authenticate_key(&rows))),
            Request::RetrieveVault { .. } => (Stage::Done, DbAction::Reply(read_vault(rows))),
            Request::Register { email, auth_key, vault } => match check_email_exists(&rows) {
                Ok(true) => (Stage::Done, DbAction::Reply(Err(ApiError::UserExists))),
                Ok(false) => (
                    Stage::Write,
                    DbAction::Insert(
                        NewUser { email: email.0.clone(), key: auth_key.to_hex(), vault: vault.0.clone() },
                    ),
                ),
                Err(e) => (Stage::Done, DbAction::Reply(Err(e))),
            },
            Request::UpdateKey { old_auth_key, new_auth_key, vault } => match check_user_exists(&rows) {
                Ok(true) => (
                    Stage::Write,
                    DbAction::UpdateKeyAndVault {
                        key: old_auth_key.to_hex(),
                        new_key: new_auth_key.to_hex(),
                        vault: vault.0.clone(),
                    },
                ),
                Ok(false) => (Stage::Done, DbAction::Reply(Err(ApiError::UserNoExists))),
                Err(e) => (Stage::Done, DbAction::Reply(Err(e))),
            },
            Request::UpdateVault { auth_key, vault } => match check_user_exists(&rows) {
                Ok(true) => (
                    Stage::Write,
                    DbAction::UpdateVault { key: auth_key.to_hex(), vault: vault.0.clone() },
                ),
                Ok(false) => (Stage::Done, DbAction::Reply(Err(ApiError::UserNoExists))),
                Err(e) => (Stage::Done, DbAction::Reply(Err(e))),
            },
        }
    }
}

} // verus!
