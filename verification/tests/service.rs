//! Serves requests end to end against an in-memory table that answers as
//! the `users` table does.

use password_manager::guards::{AuthKey, Email, NewAuthKey, Vault};
use password_manager::handler::{DbAction, DbEvent, Request, RequestHandler};
use password_manager::models::User;
use password_manager::ApiError;

fn perform(table: &mut Vec<User>, action: DbAction) -> DbEvent {
    match action {
        DbAction::SelectByKey(k) => DbEvent::Rows(table.iter().filter(|u| u.key == k).cloned().collect()),
        DbAction::SelectByEmail(e) => DbEvent::Rows(table.iter().filter(|u| u.email == e).cloned().collect()),
        DbAction::Insert(n) => {
            let row = User { id: table.len() as i32 + 1, email: n.email, key: n.key, vault: n.vault };
            table.push(row.clone());
            DbEvent::Written(row)
        }
        DbAction::UpdateKeyAndVault { key, new_key, vault } => {
            let mut written = None;
            for u in table.iter_mut().filter(|u| u.key == key) {
                u.key = new_key.clone();
                u.vault = vault.clone();
                written.get_or_insert(u.clone());
            }
            written.map(DbEvent::Written).unwrap_or(DbEvent::WriteFailed)
        }
        DbAction::UpdateVault { key, vault } => {
            let mut written = None;
            for u in table.iter_mut().filter(|u| u.key == key) {
                u.vault = vault.clone();
                written.get_or_insert(u.clone());
            }
            written.map(DbEvent::Written).unwrap_or(DbEvent::WriteFailed)
        }
        DbAction::Reply(_) => panic!("a reply is not database work"),
    }
}

fn serve(table: &mut Vec<User>, request: Request) -> Result<String, ApiError> {
    let (mut handler, mut action) = RequestHandler::new(request);
    loop {
        if let DbAction::Reply(r) = action {
            return r;
        }
        let event = perform(table, action);
        action = handler.resume(event);
    }
}

fn register(t: &mut Vec<User>, email: &str, key: u8, vault: &str) -> Result<String, ApiError> {
    serve(t, Request::Register {
        email: Email(email.to_string()),
        auth_key: AuthKey([key; 32]),
        vault: Vault(vault.to_string()),
    })
}

fn retrieve(t: &mut Vec<User>, key: u8) -> Result<String, ApiError> {
    serve(t, Request::RetrieveVault { auth_key: AuthKey([key; 32]) })
}

fn authenticate(t: &mut Vec<User>, key: u8) -> Result<String, ApiError> {
    serve(t, Request::Authenticate { auth_key: AuthKey([key; 32]) })
}

#[test]
fn register_then_read_back() {
    let mut t = Vec::new();
    assert_eq!(register(&mut t, "alice@example.com", 1, "00ff"), Ok("Success".to_string()));
    assert_eq!(t.len(), 1);
    assert_eq!(t[0].key, "01".repeat(32));
    assert_eq!(retrieve(&mut t, 1), Ok("00ff".to_string()));
    assert_eq!(authenticate(&mut t, 1), Ok("1".to_string()));
    assert_eq!(authenticate(&mut t, 2), Ok("0".to_string()));
}

#[test]
fn register_twice_refused() {
    let mut t = Vec::new();
    register(&mut t, "alice@example.com", 1, "00").unwrap();
    assert_eq!(register(&mut t, "alice@example.com", 2, "11"), Err(ApiError::UserExists));
    assert_eq!(t.len(), 1);
    assert_eq!(retrieve(&mut t, 2), Err(ApiError::UserNoExists));
}

#[test]
fn update_vault_then_read_back() {
    let mut t = Vec::new();
    register(&mut t, "alice@example.com", 1, "00").unwrap();
    register(&mut t, "bob@example.com", 2, "22").unwrap();
    let r = serve(&mut t, Request::UpdateVault { auth_key: AuthKey([1; 32]), vault: Vault("abcd".to_string()) });
    assert_eq!(r, Ok("Success".to_string()));
    assert_eq!(retrieve(&mut t, 1), Ok("abcd".to_string()));
    assert_eq!(retrieve(&mut t, 2), Ok("22".to_string()));
}

#[test]
fn update_key_moves_access() {
    let mut t = Vec::new();
    register(&mut t, "alice@example.com", 1, "00").unwrap();
    let r = serve(&mut t, Request::UpdateKey {
        old_auth_key: AuthKey([1; 32]),
        new_auth_key: NewAuthKey([7; 32]),
        vault: Vault("77".to_string()),
    });
    assert_eq!(r, Ok("Success".to_string()));
    assert_eq!(authenticate(&mut t, 1), Ok("0".to_string()));
    assert_eq!(retrieve(&mut t, 1), Err(ApiError::UserNoExists));
    assert_eq!(authenticate(&mut t, 7), Ok("1".to_string()));
    assert_eq!(retrieve(&mut t, 7), Ok("77".to_string()));
}

#[test]
fn unknown_key_changes_nothing() {
    let mut t = Vec::new();
    register(&mut t, "alice@example.com", 1, "00").unwrap();
    let before = t.clone();
    assert_eq!(authenticate(&mut t, 5), Ok("0".to_string()));
    assert_eq!(retrieve(&mut t, 5), Err(ApiError::UserNoExists));
    let r = serve(&mut t, Request::UpdateVault { auth_key: AuthKey([5; 32]), vault: Vault("ff".to_string()) });
    assert_eq!(r, Err(ApiError::UserNoExists));
    let r = serve(&mut t, Request::UpdateKey {
        old_auth_key: AuthKey([5; 32]),
        new_auth_key: NewAuthKey([6; 32]),
        vault: Vault("ff".to_string()),
    });
    assert_eq!(r, Err(ApiError::UserNoExists));
    assert_eq!(t, before);
}

#[test]
fn shared_key_is_an_internal_error() {
    // Registration checks only the e-mail, so two users can end up with one
    // key; lookups by that key then report an internal error.
    let mut t = Vec::new();
    register(&mut t, "alice@example.com", 1, "00").unwrap();
    assert_eq!(register(&mut t, "bob@example.com", 1, "11"), Ok("Success".to_string()));
    assert_eq!(authenticate(&mut t, 1), Err(ApiError::InternalError));
    assert_eq!(retrieve(&mut t, 1), Err(ApiError::InternalError));
}

#[test]
fn reads_leave_the_table_alone() {
    let mut t = Vec::new();
    register(&mut t, "alice@example.com", 1, "00").unwrap();
    let before = t.clone();
    assert_eq!(authenticate(&mut t, 1), Ok("1".to_string()));
    assert_eq!(retrieve(&mut t, 1), Ok("00".to_string()));
    assert_eq!(t, before);
}

#[test]
fn fresh_keys_keep_users_apart() {
    let mut t = Vec::new();
    register(&mut t, "alice@example.com", 1, "00").unwrap();
    register(&mut t, "bob@example.com", 2, "11").unwrap();
    serve(&mut t, Request::UpdateKey {
        old_auth_key: AuthKey([2; 32]),
        new_auth_key: NewAuthKey([3; 32]),
        vault: Vault("33".to_string()),
    })
    .unwrap();
    let mut keys: Vec<&String> = t.iter().map(|u| &u.key).collect();
    keys.sort();
    keys.dedup();
    assert_eq!(keys.len(), 2);
    assert_eq!(retrieve(&mut t, 1), Ok("00".to_string()));
    assert_eq!(retrieve(&mut t, 3), Ok("33".to_string()));
}

#[test]
fn distinct_keys_distinct_text() {
    assert_ne!(AuthKey([1; 32]).to_hex(), AuthKey([2; 32]).to_hex());
    let mut a = [0u8; 32];
    a[31] = 1;
    assert_ne!(AuthKey(a).to_hex(), AuthKey([0; 32]).to_hex());
}
