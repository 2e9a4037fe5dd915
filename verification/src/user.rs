//! User accounts and the capability-set permission model.
use vstd::prelude::*;

verus! {

/// Mathematical image of an account: every field as a plain spec value.
pub ghost struct UserView {
    pub id: i64,
    pub username: Seq<char>,
    pub display_name: Seq<char>,
    pub credential_hash: Seq<char>,
    pub permissions: Seq<Seq<char>>,
}

/// The views of a list of permission tokens.
pub open spec fn tokens_view(tokens: Seq<String>) -> Seq<Seq<char>> {
    Seq::new(tokens.len(), |i: int| tokens[i]@)
}

/// An account record: identity, stored credential hash and granted
/// permission tokens.
#[derive(Debug)]
pub struct User {
    /// Stable numeric identifier; unique in the store, immutable.
    pub id: i64,
    /// Unique, case-sensitive login name.
    pub username: String,
    /// Human-readable label; no uniqueness constraint.
    pub display_name: String,
    /// Salted password hash in the self-describing encoded format — never
    /// the plaintext password.
    pub credential_hash: String,
    /// Permission tokens granted to the account; membership-tested only.
    pub permissions: Vec<String>,
}

impl View for User {
    type V = UserView;

    open spec fn view(&self) -> UserView {
        UserView {
            id: self.id,
            username: self.username@,
            display_name: self.display_name@,
            credential_hash: self.credential_hash@,
            permissions: tokens_view(self.permissions@),
        }
    }
}

impl UserView {
    /// Whether the account holds the permission token.
    pub open spec fn has_token(self, token: Seq<char>) -> bool {
        exists|i: int| 0 <= i < self.permissions.len() && self.permissions[i] == token
    }
}

impl Clone for User {
    /// A clone carries the account over field by field.
    fn clone(&self) -> (res: Self)
        ensures
            res@ == self@,
    {
        let mut perms: Vec<String> = Vec::new();
        let mut i: usize = 0;
        while i < self.permissions.len()
            invariant
                i <= self.permissions@.len(),
                perms@.len() == i,
                forall|j: int| 0 <= j < i ==> perms@[j] == self.permissions@[j],
            decreases self.permissions@.len() - i,
        {
            perms.push(self.permissions[i].clone());
            i = i + 1;
        }
        let res = User {
            id: self.id,
            username: self.username.clone(),
            display_name: self.display_name.clone(),
            credential_hash: self.credential_hash.clone(),
            permissions: perms,
        };
        proof {
            assert(tokens_view(res.permissions@) =~= tokens_view(self.permissions@));
        }
        res
    }
}

/// Decides whether an authenticated account may perform the action a
/// permission token names. The evaluator stands behind an interface of its
/// own so that a richer policy model can replace the flat capability set
/// without touching call sites.
pub trait PermissionEvaluator {
    /// What the evaluator grants, stated over the account's view.
    spec fn spec_allows(&self, user: UserView, token: Seq<char>) -> bool;

    /// Whether the account may perform the action the token names.
    fn allows(&self, user: &User, token: &String) -> (r: bool)
        ensures
            r == self.spec_allows(user@, token@),
    ;
}

/// The flat capability-set policy: a token is granted exactly when it is a
/// member of the account's permission set — no hierarchy, no wildcards.
pub struct TokenSetEvaluator;

impl PermissionEvaluator for TokenSetEvaluator {
    open spec fn spec_allows(&self, user: UserView, token: Seq<char>) -> bool {
        user.has_token(token)
    }

    fn allows(&self, user: &User, token: &String) -> (r: bool) {
        let mut i: usize = 0;
        while i < user.permissions.len()
            invariant
                i <= user.permissions@.len(),
                forall|j: int| 0 <= j < i ==> user@.permissions[j] != token@,
            decreases user.permissions@.len() - i,
        {
            if user.permissions[i].eq(token) {
                proof {
                    assert(user@.permissions[i as int] == token@);
                }
                return true;
            }
            i = i + 1;
        }
        false
    }
}

} // verus!
