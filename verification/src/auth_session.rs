//! The per-request authentication session: a state machine over the session
//! attributes — anonymous or authenticated under an account id — that lazily
//! resolves and caches the account for the request's duration.
use vstd::prelude::*;
use crate::session::Session;
use crate::user::{PermissionEvaluator, User, UserView};
use crate::user_store::{find_by_id, lemma_find_by_id_spec, UserStore};

verus! {

/// Mathematical image of an auth session: the bound attributes and what the
/// request has resolved so far (nothing; no account; or an account).
pub ghost struct AuthSessionView {
    pub session: Session,
    pub cached: Option<Option<UserView>>,
}

impl AuthSessionView {
    /// A held cache entry can only name the very account the session is
    /// authenticated as.
    pub open spec fn wf(self) -> bool {
        match self.cached {
            Some(Some(u)) => self.session.user_id == Some(u.id),
            _ => true,
        }
    }
}

/// The view of a resolved optional account.
pub open spec fn opt_user_view(u: Option<User>) -> Option<UserView> {
    match u {
        Some(user) => Some(user@),
        None => None,
    }
}

/// The account the session resolves to: the cached answer if one is held,
/// otherwise the table row under the bound id. A bound id whose row is gone
/// resolves to no account — the session fails closed, not fatally.
pub open spec fn spec_current(v: AuthSessionView, users: Seq<UserView>) -> Option<UserView> {
    match v.cached {
        Some(c) => c,
        None => match v.session.user_id {
            Some(id) => find_by_id(users, id),
            None => None,
        },
    }
}

/// What a permission query answers: the evaluator's verdict on the resolved
/// account, and false without one — absence of identity is absence of
/// permission, not a fault.
pub open spec fn spec_has_permission<E: PermissionEvaluator>(
    eval: E,
    v: AuthSessionView,
    users: Seq<UserView>,
    token: Seq<char>,
) -> bool {
    match spec_current(v, users) {
        Some(u) => eval.spec_allows(u, token),
        None => false,
    }
}

/// The state after logging an account in: bound to the id, the resolution
/// cache dropped, the persistence flags kept.
pub open spec fn spec_after_login(v: AuthSessionView, user_id: i64) -> AuthSessionView {
    AuthSessionView {
        session: Session {
            store_flag: v.session.store_flag,
            remembered_flag: v.session.remembered_flag,
            user_id: Some(user_id),
        },
        cached: None,
    }
}

/// The state after logging out: anonymous, the cache dropped, and no longer
/// persisted unless remember-me was set.
pub open spec fn spec_after_logout(v: AuthSessionView) -> AuthSessionView {
    AuthSessionView {
        session: Session {
            store_flag: v.session.store_flag && v.session.remembered_flag,
            remembered_flag: v.session.remembered_flag,
            user_id: None,
        },
        cached: None,
    }
}

/// One request's authentication state, wrapped around the session attributes
/// that came from the session store.
pub struct AuthSession {
    session: Session,
    cached: Option<Option<User>>,
}

impl View for AuthSession {
    type V = AuthSessionView;

    closed spec fn view(&self) -> AuthSessionView {
        AuthSessionView {
            session: self.session,
            cached: match self.cached {
                None => None,
                Some(None) => Some(None),
                Some(Some(u)) => Some(Some(u@)),
            },
        }
    }
}

impl AuthSession {
    /// Well-formed session: see the view's condition.
    pub open spec fn wf(self) -> bool {
        self@.wf()
    }

    /// Wrap the attributes loaded for the request; nothing is resolved yet.
    pub fn new(session: Session) -> (s: AuthSession)
        ensures
            s.wf(),
            s@.session == session,
            s@.cached is None,
    {
        AuthSession { session, cached: None }
    }

    /// The session attributes as they stand now.
    pub fn session(&self) -> (s: Session)
        ensures
            s == self@.session,
    {
        self.session
    }

    /// Bind the session to an authenticated account id. Idempotent for the
    /// id already bound; overwrites a different one — the caller has already
    /// verified credentials, none are re-checked here.
    pub fn login_user(&mut self, user_id: i64)
        ensures
            final(self)@ == spec_after_login(old(self)@, user_id),
            final(self).wf(),
    {
        self.session.user_id = Some(user_id);
        self.cached = None;
    }

    /// Return to the anonymous state: the bound account and the cached
    /// resolution are cleared, and the session stops being persisted unless
    /// remember-me was set.
    pub fn logout_user(&mut self)
        ensures
            final(self)@ == spec_after_logout(old(self)@),
            final(self).wf(),
    {
        self.session.user_id = None;
        self.session.store_flag = self.session.store_flag && self.session.remembered_flag;
        self.cached = None;
    }

    /// Set the long-lived-session flag; authentication state is untouched.
    pub fn remember_user(&mut self, flag: bool)
        ensures
            final(self)@ == (AuthSessionView {
                session: Session {
                    store_flag: old(self)@.session.store_flag,
                    remembered_flag: flag,
                    user_id: old(self)@.session.user_id,
                },
                cached: old(self)@.cached,
            }),
            old(self).wf() ==> final(self).wf(),
    {
        self.session.remembered_flag = flag;
    }

    /// Set whether the session is written to durable storage at all;
    /// authentication state is untouched.
    pub fn set_store(&mut self, flag: bool)
        ensures
            final(self)@ == (AuthSessionView {
                session: Session {
                    store_flag: flag,
                    remembered_flag: old(self)@.session.remembered_flag,
                    user_id: old(self)@.session.user_id,
                },
                cached: old(self)@.cached,
            }),
            old(self).wf() ==> final(self).wf(),
    {
        self.session.store_flag = flag;
    }

    /// Resolve the account the session is bound to, caching the answer —
    /// one table lookup per request, and none at all for anonymous sessions
    /// once the empty answer is cached.
    pub fn current_user(&mut self, store: &UserStore) -> (r: Option<User>)
        requires
            old(self).wf(),
            store.wf(),
        ensures
            final(self).wf(),
            final(self)@.session == old(self)@.session,
            opt_user_view(r) == spec_current(old(self)@, store@),
            final(self)@.cached == Some(spec_current(old(self)@, store@)),
    {
        let resolved: Option<User> = match &self.cached {
            Some(Some(u)) => Some(u.clone()),
            Some(None) => None,
            None => match self.session.user_id {
                Some(id) => {
                    let row = store.get_by_id(id);
                    proof {
                        lemma_find_by_id_spec(store@, id);
                    }
                    row
                },
                None => None,
            },
        };
        let copy: Option<User> = match &resolved {
            Some(u) => Some(u.clone()),
            None => None,
        };
        self.cached = Some(copy);
        resolved
    }

    /// Answer a capability query for the session: the evaluator's verdict on
    /// the resolved account, and false — never an error — while anonymous.
    pub fn has_permission<E: PermissionEvaluator>(
        &mut self,
        store: &UserStore,
        eval: &E,
        token: &String,
    ) -> (r: bool)
        requires
            old(self).wf(),
            store.wf(),
        ensures
            r == spec_has_permission(*eval, old(self)@, store@, token@),
            final(self).wf(),
            final(self)@.session == old(self)@.session,
            final(self)@.cached == Some(spec_current(old(self)@, store@)),
    {
        match self.current_user(store) {
            Some(u) => eval.allows(&u, token),
            None => false,
        }
    }
}

/// Law: logging an account in and then resolving the current account yields
/// exactly the table row under the id that was logged in, and logging out
/// resolves to no account.
pub proof fn lemma_login_then_current(v: AuthSessionView, users: Seq<UserView>, user_id: i64)
    ensures
        spec_current(spec_after_login(v, user_id), users) == find_by_id(users, user_id),
        spec_current(spec_after_logout(v), users) is None,
{
}

/// Law: an anonymous session holds no permission, whatever the token, the
/// table and the evaluator.
pub proof fn lemma_anonymous_has_no_permission<E: PermissionEvaluator>(
    eval: E,
    v: AuthSessionView,
    users: Seq<UserView>,
    token: Seq<char>,
)
    requires
        v.wf(),
        v.session.user_id is None,
    ensures
        !spec_has_permission(eval, v, users, token),
{
}

} // verus!
