use password_manager::guards::{AuthKey, Email, NewAuthKey, Vault};
use password_manager::handler::{
    authenticate_key, check_email_exists, check_user_exists, read_vault, DbAction, DbEvent,
    Request, RequestHandler, Stage,
};
use password_manager::models::{NewUser, User};
use password_manager::ApiError;

fn user(id: i32, email: &str, key: &str, vault: &str) -> User {
    User { id, email: email.to_string(), key: key.to_string(), vault: vault.to_string() }
}

fn reply(action: DbAction) -> Result<String, ApiError> {
    match action {
        DbAction::Reply(r) => r,
        _ => panic!("expected a reply"),
    }
}

#[test]
fn lookup_decisions() {
    let none: Vec<User> = vec![];
    let one = vec![user(1, "a@b.c", "k", "v")];
    let two = vec![user(1, "a@b.c", "k", "v"), user(2, "d@e.f", "k", "w")];
    assert_eq!(check_user_exists(&none), Ok(false));
    assert_eq!(check_user_exists(&one), Ok(true));
    assert_eq!(check_user_exists(&two), Err(ApiError::InternalError));
    assert_eq!(check_email_exists(&none), Ok(false));
    assert_eq!(check_email_exists(&one), Ok(true));
    assert_eq!(check_email_exists(&two), Err(ApiError::InternalError));
    assert_eq!(authenticate_key(&none), Ok("0".to_string()));
    assert_eq!(authenticate_key(&one), Ok("1".to_string()));
    assert_eq!(authenticate_key(&two), Err(ApiError::InternalError));
    assert_eq!(read_vault(none), Err(ApiError::UserNoExists));
    assert_eq!(read_vault(one), Ok("v".to_string()));
    assert_eq!(read_vault(two), Err(ApiError::InternalError));
}

#[test]
fn authenticate_selects_by_stored_key() {
    let (mut h, first) = RequestHandler::new(Request::Authenticate { auth_key: AuthKey([0x1f; 32]) });
    assert_eq!(h.stage(), Stage::Lookup);
    match first {
        DbAction::SelectByKey(k) => assert_eq!(k, "1f".repeat(32)),
        _ => panic!("expected a select by key"),
    }
    let r = reply(h.resume(DbEvent::Rows(vec![user(3, "a@b.c", &"1f".repeat(32), "00")])));
    assert_eq!(r, Ok("1".to_string()));
    assert_eq!(h.stage(), Stage::Done);
}

#[test]
fn register_flow() {
    let req = Request::Register {
        email: Email("alice@example.com".to_string()),
        auth_key: AuthKey([0xab; 32]),
        vault: Vault("beef".to_string()),
    };
    let (mut h, first) = RequestHandler::new(req);
    match first {
        DbAction::SelectByEmail(e) => assert_eq!(e, "alice@example.com"),
        _ => panic!("expected a select by e-mail"),
    }
    match h.resume(DbEvent::Rows(vec![])) {
        DbAction::Insert(NewUser { email, key, vault }) => {
            assert_eq!(email, "alice@example.com");
            assert_eq!(key, "ab".repeat(32));
            assert_eq!(vault, "beef");
        }
        _ => panic!("expected an insert"),
    }
    assert_eq!(h.stage(), Stage::Write);
    let r = reply(h.resume(DbEvent::Written(user(1, "alice@example.com", &"ab".repeat(32), "beef"))));
    assert_eq!(r, Ok("Success".to_string()));
    assert_eq!(h.stage(), Stage::Done);
}

#[test]
fn register_refusals() {
    let req = || Request::Register {
        email: Email("alice@example.com".to_string()),
        auth_key: AuthKey([1; 32]),
        vault: Vault("00".to_string()),
    };
    let (mut h, _) = RequestHandler::new(req());
    let r = reply(h.resume(DbEvent::Rows(vec![user(1, "alice@example.com", "x", "00")])));
    assert_eq!(r, Err(ApiError::UserExists));

    let (mut h, _) = RequestHandler::new(req());
    let r = reply(h.resume(DbEvent::Rows(vec![
        user(1, "alice@example.com", "x", "00"),
        user(2, "alice@example.com", "y", "00"),
    ])));
    assert_eq!(r, Err(ApiError::InternalError));

    let (mut h, _) = RequestHandler::new(req());
    assert_eq!(reply(h.resume(DbEvent::ReadFailed)), Err(ApiError::DatabaseRead));

    let (mut h, _) = RequestHandler::new(req());
    h.resume(DbEvent::Rows(vec![]));
    assert_eq!(reply(h.resume(DbEvent::WriteFailed)), Err(ApiError::DatabaseWrite));
}

#[test]
fn update_key_flow() {
    let req = Request::UpdateKey {
        old_auth_key: AuthKey([0x01; 32]),
        new_auth_key: NewAuthKey([0x02; 32]),
        vault: Vault("cafe".to_string()),
    };
    let (mut h, first) = RequestHandler::new(req);
    match first {
        DbAction::SelectByKey(k) => assert_eq!(k, "01".repeat(32)),
        _ => panic!("expected a select by key"),
    }
    match h.resume(DbEvent::Rows(vec![user(1, "a@b.c", &"01".repeat(32), "00")])) {
        DbAction::UpdateKeyAndVault { key, new_key, vault } => {
            assert_eq!(key, "01".repeat(32));
            assert_eq!(new_key, "02".repeat(32));
            assert_eq!(vault, "cafe");
        }
        _ => panic!("expected an update"),
    }
    let r = reply(h.resume(DbEvent::Written(user(1, "a@b.c", &"02".repeat(32), "cafe"))));
    assert_eq!(r, Ok("Success".to_string()));
}

#[test]
fn update_vault_flow() {
    let req = Request::UpdateVault { auth_key: AuthKey([0x03; 32]), vault: Vault("ff".to_string()) };
    let (mut h, _) = RequestHandler::new(req);
    match h.resume(DbEvent::Rows(vec![user(1, "a@b.c", &"03".repeat(32), "00")])) {
        DbAction::UpdateVault { key, vault } => {
            assert_eq!(key, "03".repeat(32));
            assert_eq!(vault, "ff");
        }
        _ => panic!("expected an update"),
    }
    assert_eq!(reply(h.resume(DbEvent::WriteFailed)), Err(ApiError::DatabaseWrite));
}

#[test]
fn unknown_user_refusals() {
    for req in [
        Request::RetrieveVault { auth_key: AuthKey([9; 32]) },
        Request::UpdateVault { auth_key: AuthKey([9; 32]), vault: Vault("00".to_string()) },
        Request::UpdateKey {
            old_auth_key: AuthKey([9; 32]),
            new_auth_key: NewAuthKey([8; 32]),
            vault: Vault("00".to_string()),
        },
    ] {
        let (mut h, _) = RequestHandler::new(req);
        assert_eq!(reply(h.resume(DbEvent::Rows(vec![]))), Err(ApiError::UserNoExists));
    }
}

#[test]
fn out_of_turn_answers() {
    let (mut h, _) = RequestHandler::new(Request::RetrieveVault { auth_key: AuthKey([9; 32]) });
    assert_eq!(reply(h.resume(DbEvent::WriteFailed)), Err(ApiError::InternalError));
    assert_eq!(reply(h.resume(DbEvent::Rows(vec![]))), Err(ApiError::InternalError));
    assert_eq!(h.stage(), Stage::Done);

    let (mut h, _) = RequestHandler::new(Request::UpdateVault {
        auth_key: AuthKey([9; 32]),
        vault: Vault("00".to_string()),
    });
    h.resume(DbEvent::Rows(vec![user(1, "a@b.c", &"09".repeat(32), "00")]));
    assert_eq!(reply(h.resume(DbEvent::Rows(vec![]))), Err(ApiError::InternalError));
}
