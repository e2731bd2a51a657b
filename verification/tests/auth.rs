use passe::auth::{
    Authentication, EpochSeconds, LoginRequest, Password, User, UserDB, EXPIRY_SECONDS,
};
use passe::error::Error;
use passe::storage::Persistence;

/// An in-memory store that counts every write.
struct MemStore {
    saves: usize,
    stored: Option<Vec<(String, User)>>,
}

impl MemStore {
    fn empty() -> MemStore {
        MemStore { saves: 0, stored: None }
    }
}

impl Persistence for MemStore {
    fn load_users(&mut self) -> Result<Option<Vec<(String, User)>>, Error> {
        Ok(self.stored.take())
    }

    fn save_users(&mut self, _users: &Vec<(String, User)>) -> Result<(), Error> {
        self.saves += 1;
        Ok(())
    }
}

fn request(user: &str, password: &str) -> LoginRequest {
    LoginRequest { user: String::from(user), password: String::from(password) }
}

#[test]
fn password_validates_its_own_input() {
    let p = Password::new("correct horse").unwrap();
    assert!(p.validate("correct horse").unwrap());
    assert!(!p.validate("battery staple").unwrap());
}

#[test]
fn empty_password_is_a_hash_failure() {
    assert!(matches!(Password::new(""), Err(Error::HashFailure)));
}

#[test]
fn token_lifecycle_over_a_user() {
    let now = EpochSeconds(1_000);
    let mut user = User::new(Password::new("pw").unwrap());
    let token = user.login("pw", now).unwrap();
    assert_eq!(token.expires.0, now.0 + EXPIRY_SECONDS);
    assert_eq!(token.value.len(), 88);

    // Valid immediately after issuance.
    assert!(user.validate_token(token.value.as_str(), now).is_ok());

    // Still valid just before expiry.
    let almost = EpochSeconds(now.0 + EXPIRY_SECONDS - 1);
    assert!(user.validate_token(token.value.as_str(), almost).is_ok());

    // Invalid once the expiry has passed; the sweep removed it.
    let after = EpochSeconds(now.0 + EXPIRY_SECONDS + 1);
    assert!(matches!(
        user.validate_token(token.value.as_str(), after),
        Err(Error::AuthFailure)
    ));
    assert!(user.tokens.is_empty());

    // Removal is permanent: even back at the original time it is gone.
    assert!(matches!(
        user.validate_token(token.value.as_str(), now),
        Err(Error::AuthFailure)
    ));
}

#[test]
fn expire_tokens_keeps_only_live_tokens() {
    let now = EpochSeconds(5_000);
    let mut user = User::new(Password::new("pw").unwrap());
    let early = user.login("pw", EpochSeconds(1_000)).unwrap();
    let late = user.login("pw", now).unwrap();
    assert_eq!(user.tokens.len(), 2);

    // At a time past the first expiry but not the second, only the
    // second survives a sweep.
    let between = EpochSeconds(1_000 + EXPIRY_SECONDS + 1);
    user.expire_tokens(between);
    assert_eq!(user.tokens.len(), 1);
    assert_eq!(user.tokens[0].value, late.value);
    assert_ne!(user.tokens[0].value, early.value);
}

#[test]
fn scenario_register_login_authenticate() {
    let now = EpochSeconds(42);
    let mut db = UserDB::new(MemStore::empty()).unwrap();
    db.register(&request("alice", "pw1")).unwrap();

    let token = db.login(&request("alice", "pw1"), now).unwrap();
    let auth = Authentication { user: String::from("alice"), token: token.value.clone() };
    assert!(db.validate(&auth, now).is_ok());

    let tampered = Authentication {
        user: String::from("alice"),
        token: format!("{}x", token.value),
    };
    assert!(matches!(db.validate(&tampered, now), Err(Error::AuthFailure)));

    assert!(matches!(
        db.login(&request("alice", "wrong"), now),
        Err(Error::AuthFailure)
    ));
}

#[test]
fn duplicate_registration_is_a_conflict() {
    let mut db = UserDB::new(MemStore::empty()).unwrap();
    db.register(&request("alice", "pw1")).unwrap();
    assert!(db.get_mut("alice").is_ok());
    assert!(matches!(
        db.register(&request("alice", "pw2")),
        Err(Error::ConflictFailure)
    ));
}

#[test]
fn unknown_user_fails_uniformly() {
    let now = EpochSeconds(42);
    let mut db = UserDB::new(MemStore::empty()).unwrap();
    assert!(matches!(
        db.login(&request("nobody", "pw"), now),
        Err(Error::AuthFailure)
    ));
    let auth = Authentication { user: String::from("nobody"), token: String::from("t") };
    assert!(matches!(db.validate(&auth, now), Err(Error::AuthFailure)));
    assert!(matches!(db.get_mut("nobody"), Err(Error::AuthFailure)));
}

#[test]
fn dirty_persistence_writes_once_per_state_change() {
    let now = EpochSeconds(42);
    let mut db = UserDB::new(MemStore::empty()).unwrap();
    assert_eq!(db.persistence.saves, 0);

    // Registration changes state: exactly one write.
    db.register(&request("alice", "pw1")).unwrap();
    assert_eq!(db.persistence.saves, 1);

    // A login adds a token: exactly one further write.
    let token = db.login(&request("alice", "pw1"), now).unwrap();
    assert_eq!(db.persistence.saves, 2);

    // Read-only validation never writes, repeated or not.
    let auth = Authentication { user: String::from("alice"), token: token.value };
    assert!(db.validate(&auth, now).is_ok());
    assert!(db.validate(&auth, now).is_ok());
    assert_eq!(db.persistence.saves, 2);

    // A clean database does not write.
    assert!(!db.is_dirty());
    assert!(!db.autosave().unwrap());
    assert_eq!(db.persistence.saves, 2);
}

#[test]
fn database_reloads_what_was_stored() {
    let mut db = UserDB::new(MemStore::empty()).unwrap();
    db.register(&request("alice", "pw1")).unwrap();
    let users = std::mem::take(&mut db.users);

    let mut db2 = UserDB::new(MemStore { saves: 0, stored: Some(users) }).unwrap();
    assert!(!db2.is_dirty());
    assert!(db2.login(&request("alice", "pw1"), EpochSeconds(1)).is_ok());
}
