use passe::auth::Authentication;
use passe::error::{Error, HttpError};
use passe::prompt::{apply_edit, edit_prompt, resolve_user, user_prompt};
use passe::sync::{SyncCommand, SyncOutcome, SyncResponse, SyncSession};

fn auth(user: &str, token: &str) -> Authentication {
    Authentication { user: String::from(user), token: String::from(token) }
}

#[test]
fn cached_credential_is_reused() {
    let (_session, command) = SyncSession::begin(Some(auth("alice", "t1")));
    match command {
        SyncCommand::Send(a) => {
            assert_eq!(a.user, "alice");
            assert_eq!(a.token, "t1");
        }
        SyncCommand::Login => panic!("cached credential must be sent first"),
    }
}

#[test]
fn missing_credential_asks_for_login_first() {
    let (_session, command) = SyncSession::begin(None);
    assert!(matches!(command, SyncCommand::Login));
}

#[test]
fn unauthorized_is_recovered_exactly_once() {
    let (mut session, _command) = SyncSession::begin(Some(auth("alice", "stale")));

    // First rejection: log in and retry.
    match session.on_response(SyncResponse::Unauthorized) {
        SyncOutcome::Command(SyncCommand::Login) => {}
        _ => panic!("first rejection must prompt a login"),
    }
    match session.on_login(auth("alice", "fresh")) {
        SyncCommand::Send(a) => assert_eq!(a.token, "fresh"),
        SyncCommand::Login => panic!("a fresh credential must be sent"),
    }

    // Second rejection: surface the authentication failure.
    match session.on_response(SyncResponse::Unauthorized) {
        SyncOutcome::Failed(Error::AuthFailure) => {}
        _ => panic!("a second rejection must fail"),
    }
}

#[test]
fn success_completes_the_exchange() {
    let (mut session, _command) = SyncSession::begin(Some(auth("alice", "t1")));
    assert!(matches!(session.on_response(SyncResponse::Success), SyncOutcome::Done));
}

#[test]
fn other_failures_are_surfaced_unmodified() {
    let (mut session, _command) = SyncSession::begin(Some(auth("alice", "t1")));
    assert!(matches!(
        session.on_response(SyncResponse::Failure),
        SyncOutcome::Failed(Error::TransportFailure)
    ));
}

#[test]
fn prompts_name_the_remembered_user() {
    let name = String::from("alice");
    assert_eq!(user_prompt(Some(&name)), "User: [alice]");
    assert_eq!(user_prompt(None), "User: ");
    let current = String::from("old");
    assert_eq!(edit_prompt("Note", Some(&current)), "Note: [old] ");
    assert_eq!(edit_prompt("Note", None), "Note: ");
}

#[test]
fn empty_user_reply_falls_back() {
    let typed = resolve_user(String::from("bob"), Some(String::from("alice"))).unwrap();
    assert_eq!(typed, "bob");
    let fallback = resolve_user(String::new(), Some(String::from("alice"))).unwrap();
    assert_eq!(fallback, "alice");
    assert!(matches!(
        resolve_user(String::new(), None),
        Err(Error::AuthFailure)
    ));
}

#[test]
fn empty_edit_reply_keeps_the_value() {
    assert_eq!(
        apply_edit(Some(String::from("keep")), String::new()).as_deref(),
        Some("keep")
    );
    assert_eq!(
        apply_edit(Some(String::from("old")), String::from("new")).as_deref(),
        Some("new")
    );
    assert_eq!(apply_edit(None, String::new()), None);
}

#[test]
fn error_statuses_follow_the_taxonomy() {
    assert_eq!(HttpError(Error::AuthFailure).status(), 401);
    assert_eq!(HttpError(Error::ConflictFailure).status(), 409);
    assert_eq!(HttpError(Error::ValidationFailure).status(), 500);
    assert_eq!(HttpError(Error::TransportFailure).status(), 500);
    assert_eq!(HttpError(Error::PersistenceFailure).status(), 500);
    assert_eq!(HttpError(Error::HashFailure).status(), 500);
    assert_eq!(HttpError::from(Error::AuthFailure).status(), 401);
}
