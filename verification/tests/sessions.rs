use auth_core::auth_session::AuthSession;
use auth_core::hasher::hash_password;
use auth_core::session::{Session, SessionStore};
use auth_core::user::TokenSetEvaluator;
use auth_core::user_store::UserStore;

#[test]
fn open_session_creates_an_anonymous_entry_on_first_contact() {
    let mut sessions = SessionStore::new();
    let s = sessions.open_session(7, 100);
    assert_eq!(s, Session::anonymous());
    assert_eq!(sessions.len(), 1);
    let again = sessions.open_session(7, 200);
    assert_eq!(again, s);
    assert_eq!(sessions.len(), 1);
}

#[test]
fn save_then_load_round_trips_and_leaves_other_sessions_alone() {
    let mut sessions = SessionStore::new();
    let mut a = Session::anonymous();
    a.user_id = Some(1);
    sessions.save(10, a, 100);
    let mut b = Session::anonymous();
    b.remembered_flag = true;
    sessions.save(11, b, 100);
    assert_eq!(sessions.load(10), Some(a));
    assert_eq!(sessions.load(11), Some(b));
    let mut a2 = a;
    a2.store_flag = true;
    sessions.save(10, a2, 150);
    assert_eq!(sessions.load(10), Some(a2));
    assert_eq!(sessions.load(11), Some(b));
    assert_eq!(sessions.len(), 2);
}

#[test]
fn destroy_removes_only_the_named_session() {
    let mut sessions = SessionStore::new();
    sessions.save(1, Session::anonymous(), 100);
    sessions.save(2, Session::anonymous(), 100);
    sessions.destroy(1);
    assert!(sessions.load(1).is_none());
    assert!(sessions.load(2).is_some());
    assert_eq!(sessions.len(), 1);
    // destroying an absent id is harmless
    sessions.destroy(1);
    assert_eq!(sessions.len(), 1);
}

#[test]
fn sweep_drops_expired_entries_and_keeps_live_ones() {
    let mut sessions = SessionStore::new();
    sessions.save(1, Session::anonymous(), 50);
    sessions.save(2, Session::anonymous(), 150);
    sessions.save(3, Session::anonymous(), 100);
    sessions.sweep_expired(100);
    assert!(sessions.load(1).is_none());
    assert!(sessions.load(2).is_some());
    // an entry expiring exactly now is gone
    assert!(sessions.load(3).is_none());
    assert_eq!(sessions.len(), 1);
}

#[test]
fn login_then_current_user_returns_that_user_and_logout_clears_it() {
    let mut users = UserStore::new();
    let hash = hash_password("pw".as_bytes()).unwrap();
    users.insert("alice".to_owned(), "Alice".to_owned(), hash).unwrap();
    let alice = users.get_by_username(&"alice".to_owned()).unwrap();
    let mut auth = AuthSession::new(Session::anonymous());
    auth.login_user(alice.id);
    let current = auth.current_user(&users).unwrap();
    assert_eq!(current.id, alice.id);
    assert_eq!(current.username, "alice");
    auth.logout_user();
    assert!(auth.current_user(&users).is_none());
}

#[test]
fn a_session_bound_to_a_missing_account_resolves_to_no_user() {
    let users = UserStore::new();
    let mut auth = AuthSession::new(Session::anonymous());
    auth.login_user(999);
    assert!(auth.current_user(&users).is_none());
}

#[test]
fn anonymous_session_has_no_permission_whatever_the_token() {
    let users = UserStore::new();
    let mut auth = AuthSession::new(Session::anonymous());
    let eval = TokenSetEvaluator;
    assert!(!auth.has_permission(&users, &eval, &"admin".to_owned()));
    assert!(!auth.has_permission(&users, &eval, &"".to_owned()));
    assert!(!auth.has_permission(&users, &eval, &"todos.read".to_owned()));
}

#[test]
fn permissions_are_membership_of_the_granted_set() {
    let mut users = UserStore::new();
    let hash = hash_password("pw".as_bytes()).unwrap();
    users
        .insert_with_permissions(
            "erin".to_owned(),
            "Erin".to_owned(),
            hash,
            vec!["todos.read".to_owned(), "todos.write".to_owned()],
        )
        .unwrap();
    let erin = users.get_by_username(&"erin".to_owned()).unwrap();
    let mut auth = AuthSession::new(Session::anonymous());
    auth.login_user(erin.id);
    let eval = TokenSetEvaluator;
    assert!(auth.has_permission(&users, &eval, &"todos.read".to_owned()));
    assert!(auth.has_permission(&users, &eval, &"todos.write".to_owned()));
    assert!(!auth.has_permission(&users, &eval, &"todos.admin".to_owned()));
}

#[test]
fn logout_keeps_a_remembered_session_persisted_until_the_flow_clears_it() {
    let mut auth = AuthSession::new(Session::anonymous());
    auth.set_store(true);
    auth.remember_user(true);
    auth.login_user(1);
    auth.logout_user();
    // the state machine alone honors remember-me for the store flag
    assert!(auth.session().store_flag);
    assert!(auth.session().remembered_flag);
    assert_eq!(auth.session().user_id, None);
}

#[test]
fn logout_drops_persistence_of_a_session_that_was_not_remembered() {
    let mut auth = AuthSession::new(Session::anonymous());
    auth.set_store(true);
    auth.login_user(1);
    auth.logout_user();
    assert!(!auth.session().store_flag);
}
