//! The three authentication flows — login, signup and logout — orchestrating
//! the hasher, the user table and the session state machine. Each flow ends
//! in a client redirect or a stable, non-leaking error.
use vstd::prelude::*;
use crate::auth_session::AuthSession;
use crate::hasher::{hash_password, phc_matches, phc_parses, spec_verify, verify_password};
use crate::user::UserView;
use crate::user_store::{find_by_username, lemma_find_by_username_spec, InsertError, UserStore};

verus! {

/// The UTF-8 bytes a password contributes to hashing.
pub open spec fn password_bytes(password: Seq<char>) -> Seq<u8> {
    vstd::utf8::encode_utf8(password)
}

/// A client redirect issued when a flow completes.
#[derive(Debug)]
pub struct Redirect {
    /// Where the client is sent.
    pub path: String,
}

/// Why a flow failed. What a variant tells the client is stable and says no
/// more than the variant itself.
#[derive(Debug, PartialEq, Eq)]
pub enum AuthError {
    /// The username or the password is wrong — which of the two is
    /// deliberately not said, so a guesser learns nothing.
    InvalidCredentials,
    /// The password and its confirmation differ.
    PasswordMismatch,
    /// The username is already taken.
    DuplicateUsername,
    /// The hashing or storage subsystem failed; reported generically — the
    /// detail belongs in a server-side log only.
    Internal,
}

impl AuthError {
    /// The stable client-facing message.
    pub fn message(&self) -> (r: String)
        ensures
            *self == AuthError::InvalidCredentials ==> r@ == "invalid credentials"@,
            *self == AuthError::PasswordMismatch ==> r@ == "passwords did not match"@,
            *self == AuthError::DuplicateUsername ==> r@ == "username is already taken"@,
            *self == AuthError::Internal ==> r@ == "internal server error"@,
    {
        match self {
            AuthError::InvalidCredentials => "invalid credentials".to_owned(),
            AuthError::PasswordMismatch => "passwords did not match".to_owned(),
            AuthError::DuplicateUsername => "username is already taken".to_owned(),
            AuthError::Internal => "internal server error".to_owned(),
        }
    }
}

/// Who may register. This is deployment policy, injected rather than
/// hard-coded: registration is either open, or restricted to a list of
/// permitted usernames; a signup the policy refuses is redirected, not
/// inserted.
pub struct SignupPolicy {
    /// Whether any username may register.
    pub open_registration: bool,
    /// Usernames permitted to register even while registration is closed.
    pub allowed_usernames: Vec<String>,
    /// Where a refused signup is redirected.
    pub rejection_path: String,
}

impl SignupPolicy {
    /// Whether the policy lets the username register.
    pub open spec fn spec_permits(self, name: Seq<char>) -> bool {
        self.open_registration || exists|i: int|
            0 <= i < self.allowed_usernames@.len() && self.allowed_usernames@[i]@ == name
    }

    /// Decide the policy on a username.
    pub fn permits(&self, username: &String) -> (r: bool)
        ensures
            r == self.spec_permits(username@),
    {
        if self.open_registration {
            return true;
        }
        let mut i: usize = 0;
        while i < self.allowed_usernames.len()
            invariant
                i <= self.allowed_usernames@.len(),
                forall|j: int| 0 <= j < i ==> self.allowed_usernames@[j]@ != username@,
            decreases self.allowed_usernames@.len() - i,
        {
            if self.allowed_usernames[i].eq(username) {
                proof {
                    assert(self.allowed_usernames@[i as int]@ == username@);
                }
                return true;
            }
            i = i + 1;
        }
        false
    }
}

/// Log a user in. Success — the username has an account and the password
/// verifies against its stored hash — authenticates the session as that
/// account, persists it, honors remember-me, and redirects the client home.
/// An unknown username and a wrong password fail alike, with one generic
/// error and the session untouched.
pub fn login(
    store: &UserStore,
    auth: &mut AuthSession,
    username: String,
    password: String,
    remember: Option<String>,
) -> (r: Result<Redirect, AuthError>)
    requires
        store.wf(),
        old(auth).wf(),
    ensures
        final(auth).wf(),
        (match find_by_username(store@, username@) {
            Some(u) => spec_verify(u.credential_hash, password_bytes(password@)) is Err,
            None => true,
        }) <==> r is Err,
        r is Err ==> r == Err::<Redirect, AuthError>(AuthError::InvalidCredentials) && *final(auth)
            == *old(auth),
        r matches Ok(red) ==> (match find_by_username(store@, username@) {
            Some(u) => {
                &&& spec_verify(u.credential_hash, password_bytes(password@)) is Ok
                &&& final(auth)@.session.user_id == Some(u.id)
                &&& final(auth)@.session.store_flag
                &&& final(auth)@.session.remembered_flag == (remember is Some)
                &&& final(auth)@.cached is None
                &&& red.path@ == "/"@
            },
            None => false,
        }),
{
    let user = match store.get_by_username(&username) {
        Some(u) => u,
        None => {
            return Err(AuthError::InvalidCredentials);
        },
    };
    match verify_password(user.credential_hash.as_str(), password.as_str().as_bytes()) {
        Ok(()) => {
            auth.login_user(user.id);
            auth.set_store(true);
            auth.remember_user(remember.is_some());
            Ok(Redirect { path: "/".to_owned() })
        },
        Err(_) => Err(AuthError::InvalidCredentials),
    }
}

/// Complete a signup whose password is already hashed: insert the account
/// and log it in, atomically — on any failure neither table nor session
/// moves. Success is owed exactly when the username is free and an id is
/// left to assign; a taken username is reported as such, if and only if.
pub fn signup_with_hash(
    store: &mut UserStore,
    auth: &mut AuthSession,
    username: String,
    display_name: String,
    credential_hash: String,
    remember: Option<String>,
) -> (r: Result<Redirect, AuthError>)
    requires
        old(store).wf(),
        old(auth).wf(),
    ensures
        final(store).wf(),
        final(auth).wf(),
        r is Ok <==> find_by_username(old(store)@, username@) is None && old(store).spec_next_id()
            < i64::MAX,
        r == Err::<Redirect, AuthError>(AuthError::DuplicateUsername) <==> find_by_username(
            old(store)@,
            username@,
        ) is Some,
        r == Err::<Redirect, AuthError>(AuthError::Internal) <==> find_by_username(
            old(store)@,
            username@,
        ) is None && old(store).spec_next_id() == i64::MAX,
        r is Err ==> *final(store) == *old(store) && *final(auth) == *old(auth),
        r matches Ok(red) ==> {
            &&& final(store)@ == old(store)@.push(
                UserView {
                    id: old(store).spec_next_id(),
                    username: username@,
                    display_name: display_name@,
                    credential_hash: credential_hash@,
                    permissions: Seq::<Seq<char>>::empty(),
                },
            )
            &&& final(store).spec_next_id() == old(store).spec_next_id() + 1
            &&& final(auth)@.session.user_id == Some(old(store).spec_next_id())
            &&& final(auth)@.session.remembered_flag == (remember is Some)
            &&& final(auth)@.session.store_flag == old(auth)@.session.store_flag
            &&& final(auth)@.cached is None
            &&& red.path@ == "/"@
        },
{
    match store.insert(username.clone(), display_name, credential_hash) {
        Ok(()) => {},
        Err(InsertError::DuplicateUsername) => {
            return Err(AuthError::DuplicateUsername);
        },
        Err(InsertError::IdsExhausted) => {
            return Err(AuthError::Internal);
        },
    }
    let user = match store.get_by_username(&username) {
        Some(u) => u,
        None => {
            proof {
                lemma_find_by_username_spec(store@, username@);
                assert(store@[store@.len() - 1].username == username@);
                assert(false);
            }
            return Err(AuthError::Internal);
        },
    };
    proof {
        lemma_find_by_username_spec(store@, username@);
        let k = choose|k: int| 0 <= k < store@.len() && store@[k] == user@;
        assert(store@[k].username == username@);
        assert(store@[store@.len() - 1].username == username@);
        assert(k == store@.len() - 1);
    }
    auth.login_user(user.id);
    auth.remember_user(remember.is_some());
    Ok(Redirect { path: "/".to_owned() })
}

/// Sign a new user up. The confirmation must repeat the password and the
/// policy must admit the username; then the password is hashed, the
/// account inserted — storage rejects a taken username — and the fresh
/// account logged in, with the client redirected home. Every failure leaves
/// the table and the session exactly as they were.
pub fn signup(
    store: &mut UserStore,
    auth: &mut AuthSession,
    policy: &SignupPolicy,
    username: String,
    display_name: String,
    password: String,
    password_confirmation: String,
    remember: Option<String>,
) -> (r: Result<Redirect, AuthError>)
    requires
        old(store).wf(),
        old(auth).wf(),
    ensures
        final(store).wf(),
        final(auth).wf(),
        password@ != password_confirmation@ ==> r == Err::<Redirect, AuthError>(
            AuthError::PasswordMismatch,
        ) && *final(store) == *old(store) && *final(auth) == *old(auth),
        password@ == password_confirmation@ && !policy.spec_permits(username@) ==> (r matches Ok(
            red,
        ) && red.path@ == policy.rejection_path@) && *final(store) == *old(store) && *final(auth)
            == *old(auth),
        password@ == password_confirmation@ && policy.spec_permits(username@) ==> match r {
            Ok(red) => {
                &&& find_by_username(old(store)@, username@) is None
                &&& final(store)@.len() == old(store)@.len() + 1
                &&& final(store)@.drop_last() == old(store)@
                &&& final(store)@.last().username == username@
                &&& final(store)@.last().display_name == display_name@
                &&& phc_parses(final(store)@.last().credential_hash)
                &&& phc_matches(
                    final(store)@.last().credential_hash,
                    password_bytes(password@),
                )
                &&& final(store)@.last().permissions == Seq::<Seq<char>>::empty()
                &&& final(auth)@.session.user_id == Some(final(store)@.last().id)
                &&& final(auth)@.session.remembered_flag == (remember is Some)
                &&& final(auth)@.session.store_flag == old(auth)@.session.store_flag
                &&& final(auth)@.cached is None
                &&& red.path@ == "/"@
            },
            Err(e) => {
                &&& *final(store) == *old(store)
                &&& *final(auth) == *old(auth)
                &&& (e == AuthError::DuplicateUsername || e == AuthError::Internal)
                &&& (e == AuthError::DuplicateUsername ==> find_by_username(
                    old(store)@,
                    username@,
                ) is Some)
            },
        },
{
    if !password.eq(&password_confirmation) {
        return Err(AuthError::PasswordMismatch);
    }
    if !policy.permits(&username) {
        return Ok(Redirect { path: policy.rejection_path.clone() });
    }
    let hashed = match hash_password(password.as_str().as_bytes()) {
        Ok(h) => h,
        Err(_) => {
            return Err(AuthError::Internal);
        },
    };
    let r = signup_with_hash(store, auth, username, display_name, hashed, remember);
    proof {
        if r is Ok {
            assert(store@.drop_last() =~= old(store)@);
        }
    }
    r
}

/// Log out. Always succeeds, even on an already anonymous session: the
/// session returns to Anonymous, stops being persisted, and the client is
/// redirected home.
pub fn logout(auth: &mut AuthSession) -> (r: Result<Redirect, AuthError>)
    requires
        old(auth).wf(),
    ensures
        final(auth).wf(),
        r matches Ok(red) && red.path@ == "/"@,
        final(auth)@.session.user_id is None,
        !final(auth)@.session.store_flag,
        final(auth)@.session.remembered_flag == old(auth)@.session.remembered_flag,
        final(auth)@.cached is None,
{
    auth.logout_user();
    auth.set_store(false);
    Ok(Redirect { path: "/".to_owned() })
}

} // verus!
