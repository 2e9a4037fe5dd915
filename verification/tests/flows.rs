use auth_core::auth_session::AuthSession;
use auth_core::flows::{login, logout, signup, signup_with_hash, AuthError, SignupPolicy};
use auth_core::hasher::hash_password;
use auth_core::session::Session;
use auth_core::user_store::UserStore;

fn open_policy() -> SignupPolicy {
    SignupPolicy {
        open_registration: true,
        allowed_usernames: Vec::new(),
        rejection_path: "/closed".to_owned(),
    }
}

fn fresh_auth() -> AuthSession {
    AuthSession::new(Session::anonymous())
}

fn store_with_alice() -> UserStore {
    let mut store = UserStore::new();
    let hash = hash_password("correct-pw".as_bytes()).unwrap();
    store.insert("alice".to_owned(), "Alice".to_owned(), hash).unwrap();
    store
}

#[test]
fn login_with_correct_password_authenticates_and_redirects_home() {
    let store = store_with_alice();
    let mut auth = fresh_auth();
    let red = login(&store, &mut auth, "alice".to_owned(), "correct-pw".to_owned(), None).unwrap();
    assert_eq!(red.path, "/");
    let alice = store.get_by_username(&"alice".to_owned()).unwrap();
    assert_eq!(auth.session().user_id, Some(alice.id));
    assert!(auth.session().store_flag);
    assert!(!auth.session().remembered_flag);
    let current = auth.current_user(&store).unwrap();
    assert_eq!(current.id, alice.id);
    assert_eq!(current.username, "alice");
}

#[test]
fn login_with_wrong_password_fails_generically_and_stays_anonymous() {
    let store = store_with_alice();
    let mut auth = fresh_auth();
    let err =
        login(&store, &mut auth, "alice".to_owned(), "wrong-pw".to_owned(), None).unwrap_err();
    assert_eq!(err, AuthError::InvalidCredentials);
    assert_eq!(auth.session().user_id, None);
    assert!(auth.current_user(&store).is_none());
}

#[test]
fn login_with_unknown_username_gives_the_same_error_as_a_wrong_password() {
    let store = store_with_alice();
    let mut auth = fresh_auth();
    let unknown =
        login(&store, &mut auth, "mallory".to_owned(), "correct-pw".to_owned(), None).unwrap_err();
    let wrong =
        login(&store, &mut auth, "alice".to_owned(), "wrong-pw".to_owned(), None).unwrap_err();
    assert_eq!(unknown, wrong);
    assert_eq!(unknown.message(), wrong.message());
    assert_eq!(unknown.message(), "invalid credentials");
}

#[test]
fn login_with_remember_sets_the_long_lived_flag() {
    let store = store_with_alice();
    let mut auth = fresh_auth();
    login(&store, &mut auth, "alice".to_owned(), "correct-pw".to_owned(), Some("on".to_owned()))
        .unwrap();
    assert!(auth.session().remembered_flag);
}

#[test]
fn signup_with_mismatched_confirmation_inserts_nothing_and_stays_anonymous() {
    let mut store = UserStore::new();
    let mut auth = fresh_auth();
    let err = signup(
        &mut store,
        &mut auth,
        &open_policy(),
        "bob".to_owned(),
        "Bob".to_owned(),
        "pw1".to_owned(),
        "pw2".to_owned(),
        None,
    )
    .unwrap_err();
    assert_eq!(err, AuthError::PasswordMismatch);
    assert_eq!(store.len(), 0);
    assert!(store.get_by_username(&"bob".to_owned()).is_none());
    assert_eq!(auth.session().user_id, None);
}

#[test]
fn signup_inserts_logs_in_and_redirects_home() {
    let mut store = UserStore::new();
    let mut auth = fresh_auth();
    let red = signup(
        &mut store,
        &mut auth,
        &open_policy(),
        "bob".to_owned(),
        "Bob".to_owned(),
        "pw".to_owned(),
        "pw".to_owned(),
        Some("on".to_owned()),
    )
    .unwrap();
    assert_eq!(red.path, "/");
    let bob = store.get_by_username(&"bob".to_owned()).unwrap();
    assert_eq!(bob.display_name, "Bob");
    assert_eq!(auth.session().user_id, Some(bob.id));
    assert!(auth.session().remembered_flag);
    assert_ne!(bob.credential_hash, "pw");
    assert!(auth_core::hasher::verify_password(&bob.credential_hash, "pw".as_bytes()).is_ok());
}

#[test]
fn duplicate_signup_fails_and_the_table_keeps_one_row() {
    let mut store = UserStore::new();
    let mut first = fresh_auth();
    let mut second = fresh_auth();
    signup(
        &mut store,
        &mut first,
        &open_policy(),
        "carol".to_owned(),
        "Carol".to_owned(),
        "pw".to_owned(),
        "pw".to_owned(),
        None,
    )
    .unwrap();
    let err = signup(
        &mut store,
        &mut second,
        &open_policy(),
        "carol".to_owned(),
        "Caroline".to_owned(),
        "pw2".to_owned(),
        "pw2".to_owned(),
        None,
    )
    .unwrap_err();
    assert_eq!(err, AuthError::DuplicateUsername);
    assert_eq!(store.len(), 1);
    assert_eq!(second.session().user_id, None);
    let carol = store.get_by_username(&"carol".to_owned()).unwrap();
    assert_eq!(carol.display_name, "Carol");
}

#[test]
fn signup_refused_by_the_policy_redirects_without_inserting() {
    let policy = SignupPolicy {
        open_registration: false,
        allowed_usernames: vec!["founder".to_owned()],
        rejection_path: "/closed".to_owned(),
    };
    let mut store = UserStore::new();
    let mut auth = fresh_auth();
    let red = signup(
        &mut store,
        &mut auth,
        &policy,
        "dave".to_owned(),
        "Dave".to_owned(),
        "pw".to_owned(),
        "pw".to_owned(),
        None,
    )
    .unwrap();
    assert_eq!(red.path, "/closed");
    assert_eq!(store.len(), 0);
    assert_eq!(auth.session().user_id, None);
}

#[test]
fn signup_of_an_allowed_username_passes_closed_registration() {
    let policy = SignupPolicy {
        open_registration: false,
        allowed_usernames: vec!["founder".to_owned()],
        rejection_path: "/closed".to_owned(),
    };
    let mut store = UserStore::new();
    let mut auth = fresh_auth();
    let red = signup(
        &mut store,
        &mut auth,
        &policy,
        "founder".to_owned(),
        "Founder".to_owned(),
        "pw".to_owned(),
        "pw".to_owned(),
        None,
    )
    .unwrap();
    assert_eq!(red.path, "/");
    assert_eq!(store.len(), 1);
    assert!(auth.session().user_id.is_some());
}

#[test]
fn logout_on_an_anonymous_session_succeeds_and_stays_anonymous() {
    let mut auth = fresh_auth();
    let red = logout(&mut auth).unwrap();
    assert_eq!(red.path, "/");
    assert_eq!(auth.session().user_id, None);
    assert!(!auth.session().store_flag);
}

#[test]
fn logout_after_login_clears_the_session_and_its_persistence() {
    let store = store_with_alice();
    let mut auth = fresh_auth();
    login(&store, &mut auth, "alice".to_owned(), "correct-pw".to_owned(), None).unwrap();
    assert!(auth.session().user_id.is_some());
    let red = logout(&mut auth).unwrap();
    assert_eq!(red.path, "/");
    assert_eq!(auth.session().user_id, None);
    assert!(!auth.session().store_flag);
    assert!(auth.current_user(&store).is_none());
}

#[test]
fn signup_with_hash_reports_a_taken_username_exactly() {
    let mut store = UserStore::new();
    let mut first = fresh_auth();
    let h = hash_password("pw".as_bytes()).unwrap();
    signup_with_hash(&mut store, &mut first, "gail".to_owned(), "Gail".to_owned(), h.clone(), None)
        .unwrap();
    let mut second = fresh_auth();
    let err =
        signup_with_hash(&mut store, &mut second, "gail".to_owned(), "G.".to_owned(), h, None)
            .unwrap_err();
    assert_eq!(err, AuthError::DuplicateUsername);
    assert_eq!(store.len(), 1);
    assert_eq!(second.session().user_id, None);
}

#[test]
fn error_messages_are_stable_texts() {
    assert_eq!(AuthError::InvalidCredentials.message(), "invalid credentials");
    assert_eq!(AuthError::PasswordMismatch.message(), "passwords did not match");
    assert_eq!(AuthError::DuplicateUsername.message(), "username is already taken");
    assert_eq!(AuthError::Internal.message(), "internal server error");
}
