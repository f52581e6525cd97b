//! What serving requests does to the `users` table, over a model of the
//! table: a sequence of rows that answers selects with the matching rows in
//! order, appends on insert, and rewrites the matching rows on update, as
//! SQL does, with no operation failing. Over this model the decisions of
//! `handler` give the service its promises: what was registered or stored
//! is what is read back, a replaced key no longer opens the vault, and no
//! two users share a key or an e-mail.

use vstd::prelude::*;

use crate::error::ApiError;
use crate::guards::key_header_outcome;
use crate::handler::{
    first_action, next_step, DbActionView, DbEventView, RequestView, Stage,
};
use crate::hex_codec::{hex_encoding, lemma_hex_encoding_injective, lemma_hex_roundtrip};
use crate::models::UserRow;

verus! {

// ---------------------------------------------------------------------------
// The table
// ---------------------------------------------------------------------------

/// A column that rows are looked up by.
pub enum Column {
    Key,
    Email,
}

/// The text a row holds in a column.
pub open spec fn column(u: UserRow, c: Column) -> Seq<char> {
    match c {
        Column::Key => u.key,
        Column::Email => u.email,
    }
}

/// The rows whose column `c` holds `v`, in table order.
pub open spec fn rows_where(t: Seq<UserRow>, c: Column, v: Seq<char>) -> Seq<UserRow>
    decreases t.len(),
{
    if t.len() == 0 {
        Seq::empty()
    } else {
        let earlier = rows_where(t.drop_last(), c, v);
        if column(t.last(), c) == v {
            earlier.push(t.last())
        } else {
            earlier
        }
    }
}

/// Some row holds `v` in column `c`.
pub open spec fn holds(t: Seq<UserRow>, c: Column, v: Seq<char>) -> bool {
    exists|i: int| 0 <= i < t.len() && column(#[trigger] t[i], c) == v
}

/// No two rows hold the same text in column `c`.
pub open spec fn unique(t: Seq<UserRow>, c: Column) -> bool {
    forall|i: int, j: int|
        0 <= i < t.len() && 0 <= j < t.len() && i != j ==> column(#[trigger] t[i], c) != column(
            #[trigger] t[j],
            c,
        )
}

/// No two users share a key, and no two share an e-mail.
pub open spec fn well_keyed(t: Seq<UserRow>) -> bool {
    unique(t, Column::Key) && unique(t, Column::Email)
}

/// The table after `UPDATE users SET key = new_key, vault = vault WHERE key = key`.
pub open spec fn set_key_and_vault(
    t: Seq<UserRow>,
    key: Seq<char>,
    new_key: Seq<char>,
    vault: Seq<char>,
) -> Seq<UserRow> {
    Seq::new(
        t.len(),
        |i: int|
            if t[i].key == key {
                UserRow { id: t[i].id, email: t[i].email, key: new_key, vault }
            } else {
                t[i]
            },
    )
}

/// The table after `UPDATE users SET vault = vault WHERE key = key`.
pub open spec fn set_vault(t: Seq<UserRow>, key: Seq<char>, vault: Seq<char>) -> Seq<UserRow> {
    set_key_and_vault(t, key, key, vault)
}

/// How the model table answers an action, and what it holds afterwards.
/// An update that changes no row fails, as `get_result` does. A reply is no
/// work on the table and leaves it as it is.
pub open spec fn perform(t: Seq<UserRow>, a: DbActionView) -> (DbEventView, Seq<UserRow>) {
    match a {
        DbActionView::SelectByKey(k) => (DbEventView::Rows(rows_where(t, Column::Key, k)), t),
        DbActionView::SelectByEmail(e) => (DbEventView::Rows(rows_where(t, Column::Email, e)), t),
        DbActionView::Insert(n) => {
            let row = UserRow { id: t.len() as int + 1, email: n.email, key: n.key, vault: n.vault };
            (DbEventView::Written(row), t.push(row))
        },
        DbActionView::UpdateKeyAndVault { key, new_key, vault } => if holds(t, Column::Key, key) {
            let t2 = set_key_and_vault(t, key, new_key, vault);
            (DbEventView::Written(rows_where(t2, Column::Key, new_key)[0]), t2)
        } else {
            (DbEventView::WriteFailed, t)
        },
        DbActionView::UpdateVault { key, vault } => if holds(t, Column::Key, key) {
            let t2 = set_vault(t, key, vault);
            (DbEventView::Written(rows_where(t2, Column::Key, key)[0]), t2)
        } else {
            (DbEventView::WriteFailed, t)
        },
        DbActionView::Reply(_) => (DbEventView::WriteFailed, t),
    }
}

/// Serves a request against the model table: the reply, and the table after.
pub open spec fn serve(r: RequestView, t: Seq<UserRow>) -> (Result<Seq<char>, ApiError>, Seq<UserRow>) {
    let (e1, t1) = perform(t, first_action(r));
    let (s2, a2) = next_step(r, Stage::Lookup, e1);
    match a2 {
        DbActionView::Reply(x) => (x, t1),
        _ => {
            let (e2, t2) = perform(t1, a2);
            match next_step(r, s2, e2).1 {
                DbActionView::Reply(x) => (x, t2),
                _ => (Err(ApiError::InternalError), t2),
            }
        },
    }
}

/// The text under which a key is stored.
pub open spec fn stored_key(key: Seq<u8>) -> Seq<char> {
    hex_encoding(key)
}

// ---------------------------------------------------------------------------
// Lemmas on lookups
// ---------------------------------------------------------------------------

/// With no row holding `v`, a lookup of `v` loads nothing.
proof fn lemma_rows_none(t: Seq<UserRow>, c: Column, v: Seq<char>)
    requires
        !holds(t, c, v),
    ensures
        rows_where(t, c, v) == Seq::<UserRow>::empty(),
    decreases t.len(),
{
    if t.len() > 0 {
        assert(t.last() == t[t.len() - 1]);
        assert forall|i: int| 0 <= i < t.drop_last().len() implies column(
            #[trigger] t.drop_last()[i],
            c,
        ) != v by {
            assert(t.drop_last()[i] == t[i]);
        }
        lemma_rows_none(t.drop_last(), c, v);
    }
}

/// With only row `i` holding `v`, a lookup of `v` loads that row.
proof fn lemma_rows_only(t: Seq<UserRow>, c: Column, v: Seq<char>, i: int)
    requires
        0 <= i < t.len(),
        column(t[i], c) == v,
        forall|j: int| 0 <= j < t.len() && j != i ==> column(#[trigger] t[j], c) != v,
    ensures
        rows_where(t, c, v) == seq![t[i]],
    decreases t.len(),
{
    let d = t.drop_last();
    if i == t.len() - 1 {
        assert forall|j: int| 0 <= j < d.len() implies column(#[trigger] d[j], c) != v by {
            assert(d[j] == t[j]);
        }
        lemma_rows_none(d, c, v);
        assert(seq![t[i]] =~= Seq::<UserRow>::empty().push(t[i]));
    } else {
        assert(d[i] == t[i]);
        assert forall|j: int| 0 <= j < d.len() && j != i implies column(#[trigger] d[j], c) != v by {
            assert(d[j] == t[j]);
        }
        lemma_rows_only(d, c, v, i);
        assert(column(t[t.len() - 1], c) != v);
    }
}

/// With one row holding `v` and the column unique, a lookup loads that row.
proof fn lemma_rows_single(t: Seq<UserRow>, c: Column, v: Seq<char>, i: int)
    requires
        unique(t, c),
        0 <= i < t.len(),
        column(t[i], c) == v,
    ensures
        rows_where(t, c, v) == seq![t[i]],
{
    assert forall|j: int| 0 <= j < t.len() && j != i implies column(#[trigger] t[j], c) != v by {
        assert(column(t[i], c) != column(t[j], c));
    }
    lemma_rows_only(t, c, v, i);
}

/// A row holding `v` is loaded by a lookup of `v`: the lookup has at least
/// one row, and at least two when two rows hold `v`.
proof fn lemma_rows_count(t: Seq<UserRow>, c: Column, v: Seq<char>, i: int, j: int)
    requires
        0 <= i <= j < t.len(),
        column(t[i], c) == v,
        column(t[j], c) == v,
    ensures
        rows_where(t, c, v).len() >= if i < j { 2int } else { 1int },
    decreases t.len(),
{
    let d = t.drop_last();
    if j < t.len() - 1 {
        assert(d[i] == t[i] && d[j] == t[j]);
        lemma_rows_count(d, c, v, i, j);
    } else if i < j {
        assert(d[i] == t[i]);
        lemma_rows_count(d, c, v, i, i);
    }
}

// ---------------------------------------------------------------------------
// Lemmas on writes
// ---------------------------------------------------------------------------

/// Appending a row that holds fresh text keeps the column unique.
proof fn lemma_push_unique(t: Seq<UserRow>, row: UserRow, c: Column)
    requires
        unique(t, c),
        !holds(t, c, column(row, c)),
    ensures
        unique(t.push(row), c),
        holds(t.push(row), c, column(row, c)),
{
    let t2 = t.push(row);
    assert forall|i: int, j: int|
        0 <= i < t2.len() && 0 <= j < t2.len() && i != j implies column(#[trigger] t2[i], c)
        != column(#[trigger] t2[j], c) by {
        if i < t.len() && j < t.len() {
            assert(t2[i] == t[i] && t2[j] == t[j]);
        } else if i < t.len() {
            assert(t2[i] == t[i]);
        } else {
            assert(t2[j] == t[j]);
        }
    }
    assert(t2[t.len() as int] == row);
}

/// The rows other than the updated one keep what they held.
proof fn lemma_set_facts(
    t: Seq<UserRow>,
    key: Seq<char>,
    new_key: Seq<char>,
    vault: Seq<char>,
    i: int,
)
    requires
        well_keyed(t),
        0 <= i < t.len(),
        t[i].key == key,
        new_key == key || !holds(t, Column::Key, new_key),
    ensures
        ({
            let t2 = set_key_and_vault(t, key, new_key, vault);
            &&& t2.len() == t.len()
            &&& t2[i] == UserRow { id: t[i].id, email: t[i].email, key: new_key, vault }
            &&& forall|j: int| 0 <= j < t.len() && j != i ==> #[trigger] t2[j] == t[j]
            &&& well_keyed(t2)
            &&& new_key != key ==> !holds(t2, Column::Key, key)
        }),
{
    let t2 = set_key_and_vault(t, key, new_key, vault);
    assert forall|j: int| 0 <= j < t.len() && j != i implies #[trigger] t2[j] == t[j] by {
        assert(column(t[i], Column::Key) != column(t[j], Column::Key));
    }
    assert forall|a: int, b: int|
        0 <= a < t2.len() && 0 <= b < t2.len() && a != b implies column(
        #[trigger] t2[a],
        Column::Key,
    ) != column(#[trigger] t2[b], Column::Key) by {
        assert(column(t[a], Column::Key) != column(t[b], Column::Key));
        if a == i && new_key != key {
            assert(column(t[b], Column::Key) != new_key);
        }
        if b == i && new_key != key {
            assert(column(t[a], Column::Key) != new_key);
        }
    }
    assert forall|a: int, b: int|
        0 <= a < t2.len() && 0 <= b < t2.len() && a != b implies column(
        #[trigger] t2[a],
        Column::Email,
    ) != column(#[trigger] t2[b], Column::Email) by {
        assert(column(t[a], Column::Email) != column(t[b], Column::Email));
    }
    if new_key != key && holds(t2, Column::Key, key) {
        let j = choose|j: int| 0 <= j < t2.len() && column(#[trigger] t2[j], Column::Key) == key;
        assert(j != i);
        assert(t2[j] == t[j]);
        assert(column(t[i], Column::Key) != column(t[j], Column::Key));
    }
}

// ---------------------------------------------------------------------------
// The laws
// ---------------------------------------------------------------------------

/// A registered user can read back the vault it registered with, and its
/// key authenticates; the new row is appended and the table stays well keyed.
pub proof fn law_register_then_read(
    t: Seq<UserRow>,
    email: Seq<char>,
    key: Seq<u8>,
    vault: Seq<char>,
)
    requires
        well_keyed(t),
        !holds(t, Column::Email, email),
        !holds(t, Column::Key, stored_key(key)),
    ensures
        serve(RequestView::Register { email, key, vault }, t) == (
            Ok::<Seq<char>, ApiError>("Success"@),
            t.push(UserRow { id: t.len() as int + 1, email, key: stored_key(key), vault }),
        ),
        well_keyed(serve(RequestView::Register { email, key, vault }, t).1),
        serve(RequestView::RetrieveVault { key }, serve(RequestView::Register { email, key, vault }, t).1).0
            == Ok::<Seq<char>, ApiError>(vault),
        serve(RequestView::Authenticate { key }, serve(RequestView::Register { email, key, vault }, t).1).0
            == Ok::<Seq<char>, ApiError>("1"@),
{
    let row = UserRow { id: t.len() as int + 1, email, key: stored_key(key), vault };
    let t2 = t.push(row);
    lemma_rows_none(t, Column::Email, email);
    lemma_push_unique(t, row, Column::Key);
    lemma_push_unique(t, row, Column::Email);
    assert(t2[t.len() as int] == row);
    lemma_rows_single(t2, Column::Key, stored_key(key), t.len() as int);
}

/// Registering with an e-mail that a user already has is refused with
/// `UserExists`, and the table is left as it was.
pub proof fn law_register_taken_email(
    t: Seq<UserRow>,
    email: Seq<char>,
    key: Seq<u8>,
    vault: Seq<char>,
)
    requires
        well_keyed(t),
        holds(t, Column::Email, email),
    ensures
        serve(RequestView::Register { email, key, vault }, t) == (
            Err::<Seq<char>, ApiError>(ApiError::UserExists),
            t,
        ),
{
    let i = choose|i: int| 0 <= i < t.len() && column(#[trigger] t[i], Column::Email) == email;
    lemma_rows_single(t, Column::Email, email, i);
}

/// After the vault of a user is replaced, reading with its key gives the new
/// vault; the table stays well keyed.
pub proof fn law_update_vault_then_read(t: Seq<UserRow>, key: Seq<u8>, vault: Seq<char>)
    requires
        well_keyed(t),
        holds(t, Column::Key, stored_key(key)),
    ensures
        serve(RequestView::UpdateVault { key, vault }, t) == (
            Ok::<Seq<char>, ApiError>("Success"@),
            set_vault(t, stored_key(key), vault),
        ),
        well_keyed(set_vault(t, stored_key(key), vault)),
        serve(RequestView::RetrieveVault { key }, set_vault(t, stored_key(key), vault)).0
            == Ok::<Seq<char>, ApiError>(vault),
{
    let k = stored_key(key);
    let i = choose|i: int| 0 <= i < t.len() && column(#[trigger] t[i], Column::Key) == k;
    lemma_rows_single(t, Column::Key, k, i);
    lemma_set_facts(t, k, k, vault, i);
    let t2 = set_vault(t, k, vault);
    lemma_rows_single(t2, Column::Key, k, i);
}

/// After a key is replaced, the old key no longer authenticates nor reads
/// the vault, and the new key authenticates and reads the vault that came
/// with it; the table stays well keyed.
pub proof fn law_update_key(
    t: Seq<UserRow>,
    old_key: Seq<u8>,
    new_key: Seq<u8>,
    vault: Seq<char>,
)
    requires
        well_keyed(t),
        holds(t, Column::Key, stored_key(old_key)),
        !holds(t, Column::Key, stored_key(new_key)),
    ensures
        serve(RequestView::UpdateKey { old_key, new_key, vault }, t) == (
            Ok::<Seq<char>, ApiError>("Success"@),
            set_key_and_vault(t, stored_key(old_key), stored_key(new_key), vault),
        ),
        well_keyed(set_key_and_vault(t, stored_key(old_key), stored_key(new_key), vault)),
        serve(
            RequestView::Authenticate { key: old_key },
            set_key_and_vault(t, stored_key(old_key), stored_key(new_key), vault),
        ).0 == Ok::<Seq<char>, ApiError>("0"@),
        serve(
            RequestView::RetrieveVault { key: old_key },
            set_key_and_vault(t, stored_key(old_key), stored_key(new_key), vault),
        ).0 == Err::<Seq<char>, ApiError>(ApiError::UserNoExists),
        serve(
            RequestView::Authenticate { key: new_key },
            set_key_and_vault(t, stored_key(old_key), stored_key(new_key), vault),
        ).0 == Ok::<Seq<char>, ApiError>("1"@),
        serve(
            RequestView::RetrieveVault { key: new_key },
            set_key_and_vault(t, stored_key(old_key), stored_key(new_key), vault),
        ).0 == Ok::<Seq<char>, ApiError>(vault),
{
    let k = stored_key(old_key);
    let n = stored_key(new_key);
    let i = choose|i: int| 0 <= i < t.len() && column(#[trigger] t[i], Column::Key) == k;
    assert(n != k);
    lemma_rows_single(t, Column::Key, k, i);
    lemma_set_facts(t, k, n, vault, i);
    let t2 = set_key_and_vault(t, k, n, vault);
    lemma_rows_single(t2, Column::Key, n, i);
    lemma_rows_none(t2, Column::Key, k);
}

/// A key that no user has does not authenticate, reads no vault, and can
/// update nothing; the table is left as it was.
pub proof fn law_unknown_key(
    t: Seq<UserRow>,
    key: Seq<u8>,
    new_key: Seq<u8>,
    vault: Seq<char>,
)
    requires
        !holds(t, Column::Key, stored_key(key)),
    ensures
        serve(RequestView::Authenticate { key }, t) == (Ok::<Seq<char>, ApiError>("0"@), t),
        serve(RequestView::RetrieveVault { key }, t) == (
            Err::<Seq<char>, ApiError>(ApiError::UserNoExists),
            t,
        ),
        serve(RequestView::UpdateVault { key, vault }, t) == (
            Err::<Seq<char>, ApiError>(ApiError::UserNoExists),
            t,
        ),
        serve(RequestView::UpdateKey { old_key: key, new_key, vault }, t) == (
            Err::<Seq<char>, ApiError>(ApiError::UserNoExists),
            t,
        ),
{
    lemma_rows_none(t, Column::Key, stored_key(key));
}

/// Authenticating and reading a vault leave the table as it was.
pub proof fn law_reads_keep_table(t: Seq<UserRow>, key: Seq<u8>)
    ensures
        serve(RequestView::Authenticate { key }, t).1 == t,
        serve(RequestView::RetrieveVault { key }, t).1 == t,
{
}

/// The keys a request brings are fresh where it stores them: a registration
/// brings a key that no user has, a key change one that no other user has.
pub open spec fn brings_fresh_key(r: RequestView, t: Seq<UserRow>) -> bool {
    match r {
        RequestView::Register { key, .. } => !holds(t, Column::Key, stored_key(key)),
        RequestView::UpdateKey { old_key, new_key, .. } => new_key == old_key || !holds(
            t,
            Column::Key,
            stored_key(new_key),
        ),
        _ => true,
    }
}

/// Serving any request keeps the table well keyed: no two users share a key
/// or an e-mail, provided the keys the request stores are fresh.
pub proof fn law_stays_well_keyed(r: RequestView, t: Seq<UserRow>)
    requires
        well_keyed(t),
        brings_fresh_key(r, t),
    ensures
        well_keyed(serve(r, t).1),
{
    match r {
        RequestView::Register { email, key, vault } => {
            if holds(t, Column::Email, email) {
                law_register_taken_email(t, email, key, vault);
            } else {
                law_register_then_read(t, email, key, vault);
            }
        },
        RequestView::UpdateKey { old_key, new_key, vault } => {
            let k = stored_key(old_key);
            if holds(t, Column::Key, k) {
                let i = choose|i: int| 0 <= i < t.len() && column(#[trigger] t[i], Column::Key) == k;
                lemma_rows_single(t, Column::Key, k, i);
                lemma_set_facts(t, k, stored_key(new_key), vault, i);
            } else {
                law_unknown_key(t, old_key, new_key, vault);
            }
        },
        RequestView::UpdateVault { key, vault } => {
            if holds(t, Column::Key, stored_key(key)) {
                law_update_vault_then_read(t, key, vault);
            } else {
                law_unknown_key(t, key, key, vault);
            }
        },
        _ => {},
    }
}

/// Every request is answered: its first action is a select, and a reply
/// comes after at most two answers of the database, whatever they are.
pub proof fn law_answered_within_two_steps(r: RequestView, e1: DbEventView, e2: DbEventView)
    ensures
        first_action(r) is SelectByKey || first_action(r) is SelectByEmail,
        ({
            let (s2, a2) = next_step(r, Stage::Lookup, e1);
            ||| s2 == Stage::Done && a2 is Reply
            ||| s2 == Stage::Write && !(a2 is Reply) && next_step(r, s2, e2).0 == Stage::Done
                && next_step(r, s2, e2).1 is Reply
        }),
{
}

/// The stored form of a key passes the key-header check and gives the key
/// back: keys round-trip through their hex text.
pub proof fn law_key_text_roundtrip(key: Seq<u8>)
    requires
        key.len() == 32,
    ensures
        key_header_outcome(Some(stored_key(key))) == Ok::<Seq<u8>, ApiError>(key),
{
    lemma_hex_roundtrip(key);
}

/// Distinct keys are stored under distinct text.
pub proof fn law_stored_keys_distinct(a: Seq<u8>, b: Seq<u8>)
    requires
        a != b,
    ensures
        stored_key(a) != stored_key(b),
{
    lemma_hex_encoding_injective(a, b);
}

// ---------------------------------------------------------------------------
// Laws without a well-keyed table
// ---------------------------------------------------------------------------

/// With exactly one user holding a key, that key authenticates and reads
/// that user's vault; a vault update replaces that user's vault alone, and a
/// key change replaces that user's key and vault alone.
pub proof fn law_single_holder(
    t: Seq<UserRow>,
    key: Seq<u8>,
    new_key: Seq<u8>,
    vault: Seq<char>,
    i: int,
)
    requires
        0 <= i < t.len(),
        t[i].key == stored_key(key),
        forall|j: int| 0 <= j < t.len() && j != i ==> (#[trigger] t[j]).key != stored_key(key),
    ensures
        serve(RequestView::Authenticate { key }, t) == (Ok::<Seq<char>, ApiError>("1"@), t),
        serve(RequestView::RetrieveVault { key }, t) == (Ok::<Seq<char>, ApiError>(t[i].vault), t),
        serve(RequestView::UpdateVault { key, vault }, t) == (
            Ok::<Seq<char>, ApiError>("Success"@),
            t.update(i, UserRow { id: t[i].id, email: t[i].email, key: t[i].key, vault }),
        ),
        serve(RequestView::UpdateKey { old_key: key, new_key, vault }, t) == (
            Ok::<Seq<char>, ApiError>("Success"@),
            t.update(i, UserRow { id: t[i].id, email: t[i].email, key: stored_key(new_key), vault }),
        ),
{
    let k = stored_key(key);
    let n = stored_key(new_key);
    assert forall|j: int| 0 <= j < t.len() && j != i implies column(#[trigger] t[j], Column::Key) != k by {
        assert(t[j].key != k);
    }
    lemma_rows_only(t, Column::Key, k, i);
    assert(column(t[i], Column::Key) == k);
    let t2 = set_vault(t, k, vault);
    assert(t2 =~= t.update(i, UserRow { id: t[i].id, email: t[i].email, key: t[i].key, vault }));
    assert(column(t2[i], Column::Key) == k);
    let t3 = set_key_and_vault(t, k, n, vault);
    assert(t3 =~= t.update(i, UserRow { id: t[i].id, email: t[i].email, key: n, vault }));
    assert(column(t3[i], Column::Key) == n);
}

/// When two users hold the same key, every request by that key is refused
/// with `InternalError` and leaves the table as it was: no vault is read
/// out, and no vault or key is overwritten.
pub proof fn law_shared_key_refused(
    t: Seq<UserRow>,
    key: Seq<u8>,
    new_key: Seq<u8>,
    vault: Seq<char>,
    i: int,
    j: int,
)
    requires
        0 <= i < j < t.len(),
        t[i].key == stored_key(key),
        t[j].key == stored_key(key),
    ensures
        serve(RequestView::Authenticate { key }, t) == (
            Err::<Seq<char>, ApiError>(ApiError::InternalError),
            t,
        ),
        serve(RequestView::RetrieveVault { key }, t) == (
            Err::<Seq<char>, ApiError>(ApiError::InternalError),
            t,
        ),
        serve(RequestView::UpdateVault { key, vault }, t) == (
            Err::<Seq<char>, ApiError>(ApiError::InternalError),
            t,
        ),
        serve(RequestView::UpdateKey { old_key: key, new_key, vault }, t) == (
            Err::<Seq<char>, ApiError>(ApiError::InternalError),
            t,
        ),
{
    lemma_rows_count(t, Column::Key, stored_key(key), i, j);
}

/// When two users hold the same e-mail, registering that e-mail is refused
/// with `InternalError` and leaves the table as it was.
pub proof fn law_shared_email_refused(
    t: Seq<UserRow>,
    email: Seq<char>,
    key: Seq<u8>,
    vault: Seq<char>,
    i: int,
    j: int,
)
    requires
        0 <= i < j < t.len(),
        t[i].email == email,
        t[j].email == email,
    ensures
        serve(RequestView::Register { email, key, vault }, t) == (
            Err::<Seq<char>, ApiError>(ApiError::InternalError),
            t,
        ),
{
    lemma_rows_count(t, Column::Email, email, i, j);
}

/// A failed select is reported as `DatabaseRead` and a failed write as
/// `DatabaseWrite`, whatever the request.
pub proof fn law_failures_reported(r: RequestView)
    ensures
        next_step(r, Stage::Lookup, DbEventView::ReadFailed) == (
            Stage::Done,
            DbActionView::Reply(Err(ApiError::DatabaseRead)),
        ),
        next_step(r, Stage::Write, DbEventView::WriteFailed) == (
            Stage::Done,
            DbActionView::Reply(Err(ApiError::DatabaseWrite)),
        ),
{
}

/// A request is answered with success only right after the database
/// loaded rows for its select or wrote its row: a failed or out-of-turn
/// answer never leads to success.
pub proof fn law_success_needs_database_work(r: RequestView, stage: Stage, e: DbEventView)
    ensures
        next_step(r, stage, e).1 matches DbActionView::Reply(Ok(_)) ==> (stage == Stage::Lookup
            && e is Rows) || (stage == Stage::Write && e is Written),
{
}

/// Registering an e-mail that no user has appends exactly one row, holding
/// that e-mail, the stored form of the key and the vault as sent; the
/// registration succeeds.
pub proof fn law_register_fresh_email(
    t: Seq<UserRow>,
    email: Seq<char>,
    key: Seq<u8>,
    vault: Seq<char>,
)
    requires
        forall|j: int| 0 <= j < t.len() ==> (#[trigger] t[j]).email != email,
    ensures
        serve(RequestView::Register { email, key, vault }, t).0 == Ok::<Seq<char>, ApiError>(
            "Success"@,
        ),
        serve(RequestView::Register { email, key, vault }, t).1.len() == t.len() + 1,
        serve(RequestView::Register { email, key, vault }, t).1.take(t.len() as int) == t,
        serve(RequestView::Register { email, key, vault }, t).1.last().email == email,
        serve(RequestView::Register { email, key, vault }, t).1.last().key == stored_key(key),
        serve(RequestView::Register { email, key, vault }, t).1.last().vault == vault,
{
    assert(!holds(t, Column::Email, email)) by {
        if holds(t, Column::Email, email) {
            let j = choose|j: int| 0 <= j < t.len() && column(#[trigger] t[j], Column::Email) == email;
            assert(t[j].email != email);
        }
    }
    lemma_rows_none(t, Column::Email, email);
    let row = UserRow { id: t.len() as int + 1, email, key: stored_key(key), vault };
    assert(t.push(row).take(t.len() as int) =~= t);
}

/// Registering an e-mail that exactly one user has is refused with
/// `UserExists`, and the table is left as it was.
pub proof fn law_register_existing_email(
    t: Seq<UserRow>,
    email: Seq<char>,
    key: Seq<u8>,
    vault: Seq<char>,
    i: int,
)
    requires
        0 <= i < t.len(),
        t[i].email == email,
        forall|j: int| 0 <= j < t.len() && j != i ==> (#[trigger] t[j]).email != email,
    ensures
        serve(RequestView::Register { email, key, vault }, t) == (
            Err::<Seq<char>, ApiError>(ApiError::UserExists),
            t,
        ),
{
    assert forall|j: int| 0 <= j < t.len() && j != i implies column(#[trigger] t[j], Column::Email)
        != email by {
        assert(t[j].email != email);
    }
    lemma_rows_only(t, Column::Email, email, i);
}

} // verus!
