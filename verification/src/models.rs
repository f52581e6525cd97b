//! The rows of the `users` table.

use vstd::prelude::*;

verus! {

/// A stored user: the e-mail that names the account, the key that opens it
/// (64 lowercase hex digits) and the vault (hex text).
#[derive(Debug, Clone, PartialEq, Eq)]
pub struct User {
    pub id: i32,
    pub email: String,
    pub key: String,
    pub vault: String,
}

/// A user about to be inserted; the database gives it its id.
#[derive(Debug, Clone, PartialEq, Eq)]
pub struct NewUser {
    pub email: String,
    pub key: String,
    pub vault: String,
}

/// What a row holds, as text.
pub struct UserRow {
    pub id: int,
    pub email: Seq<char>,
    pub key: Seq<char>,
    pub vault: Seq<char>,
}

/// What a row to insert holds, as text.
pub struct NewUserRow {
    pub email: Seq<char>,
    pub key: Seq<char>,
    pub vault: Seq<char>,
}

impl View for User {
    type V = UserRow;

    open spec fn view(&self) -> UserRow {
        UserRow { id: self.id as int, email: self.email@, key: self.key@, vault: self.vault@ }
    }
}

impl View for NewUser {
    type V = NewUserRow;

    open spec fn view(&self) -> NewUserRow {
        NewUserRow { email: self.email@, key: self.key@, vault: self.vault@ }
    }
}

/// The rows of a result set, as text.
pub open spec fn rows_view(rows: Seq<User>) -> Seq<UserRow> {
    rows.map_values(|u: User| u@)
}

} // verus!
