//! The user table: accounts looked up by id or by username, inserted under a
//! storage-level uniqueness constraint on usernames.
use vstd::prelude::*;
use crate::user::{tokens_view, User, UserView};

verus! {

/// Why an insert was refused.
#[derive(Debug, PartialEq, Eq)]
pub enum InsertError {
    /// The username is already taken. This is user-facing — the signup flow
    /// reports it — not a server fault.
    DuplicateUsername,
    /// Every assignable id is in use; an infrastructure fault.
    IdsExhausted,
}

/// First account in the table that carries the username, if any.
pub open spec fn find_by_username(users: Seq<UserView>, name: Seq<char>) -> Option<UserView>
    decreases users.len(),
{
    if users.len() == 0 {
        None
    } else if users[0].username == name {
        Some(users[0])
    } else {
        find_by_username(users.drop_first(), name)
    }
}

/// First account in the table that carries the id, if any.
pub open spec fn find_by_id(users: Seq<UserView>, id: i64) -> Option<UserView>
    decreases users.len(),
{
    if users.len() == 0 {
        None
    } else if users[0].id == id {
        Some(users[0])
    } else {
        find_by_id(users.drop_first(), id)
    }
}

/// A lookup by username returns a row of the table carrying that username,
/// and returns nothing exactly when no row carries it.
pub proof fn lemma_find_by_username_spec(users: Seq<UserView>, name: Seq<char>)
    ensures
        match find_by_username(users, name) {
            Some(u) => u.username == name && exists|i: int|
                0 <= i < users.len() && users[i] == u,
            None => forall|i: int| 0 <= i < users.len() ==> (#[trigger] users[i]).username != name,
        },
    decreases users.len(),
{
    if users.len() > 0 && users[0].username != name {
        lemma_find_by_username_spec(users.drop_first(), name);
        match find_by_username(users, name) {
            Some(u) => {
                let i = choose|i: int|
                    0 <= i < users.drop_first().len() && users.drop_first()[i] == u;
                assert(users[i + 1] == u);
            },
            None => {
                assert forall|i: int| 0 <= i < users.len() implies (#[trigger] users[i]).username
                    != name by {
                    if i > 0 {
                        assert(users.drop_first()[i - 1] == users[i]);
                    }
                }
            },
        }
    }
}

/// A lookup by id returns a row of the table carrying that id, and returns
/// nothing exactly when no row carries it.
pub proof fn lemma_find_by_id_spec(users: Seq<UserView>, id: i64)
    ensures
        match find_by_id(users, id) {
            Some(u) => u.id == id && exists|i: int| 0 <= i < users.len() && users[i] == u,
            None => forall|i: int| 0 <= i < users.len() ==> (#[trigger] users[i]).id != id,
        },
    decreases users.len(),
{
    if users.len() > 0 && users[0].id != id {
        lemma_find_by_id_spec(users.drop_first(), id);
        match find_by_id(users, id) {
            Some(u) => {
                let i = choose|i: int|
                    0 <= i < users.drop_first().len() && users.drop_first()[i] == u;
                assert(users[i + 1] == u);
            },
            None => {
                assert forall|i: int| 0 <= i < users.len() implies (#[trigger] users[i]).id
                    != id by {
                    if i > 0 {
                        assert(users.drop_first()[i - 1] == users[i]);
                    }
                }
            },
        }
    }
}

/// Durable table of user accounts. Usernames and ids are unique; fresh ids
/// are assigned from a counter the rows never reach.
pub struct UserStore {
    users: Vec<User>,
    next_id: i64,
}

impl View for UserStore {
    type V = Seq<UserView>;

    closed spec fn view(&self) -> Seq<UserView> {
        Seq::new(self.users@.len(), |i: int| self.users@[i]@)
    }
}

impl UserStore {
    /// The id the next inserted account will receive.
    pub closed spec fn spec_next_id(self) -> i64 {
        self.next_id
    }

    /// Well-formed table: every id is positive and below the next fresh id,
    /// and no two rows share an id or a username.
    pub open spec fn wf(self) -> bool {
        &&& 1 <= self.spec_next_id()
        &&& forall|i: int| 0 <= i < self@.len() ==> 1 <= (#[trigger] self@[i]).id
            < self.spec_next_id()
        &&& forall|i: int, j: int| 0 <= i < j < self@.len() ==> self@[i].id != self@[j].id
        &&& forall|i: int, j: int|
            0 <= i < j < self@.len() ==> self@[i].username != self@[j].username
    }

    /// An empty table.
    pub fn new() -> (s: UserStore)
        ensures
            s.wf(),
            s@ == Seq::<UserView>::empty(),
    {
        let s = UserStore { users: Vec::new(), next_id: 1 };
        proof {
            assert(s@ =~= Seq::<UserView>::empty());
        }
        s
    }

    /// How many accounts the table holds.
    pub fn len(&self) -> (n: usize)
        ensures
            n == self@.len(),
    {
        self.users.len()
    }

    /// Look an account up by id; absence is a valid outcome, not an error.
    pub fn get_by_id(&self, id: i64) -> (r: Option<User>)
        requires
            self.wf(),
        ensures
            match r {
                Some(u) => find_by_id(self@, id) == Some(u@),
                None => find_by_id(self@, id) is None,
            },
    {
        let mut i: usize = 0;
        while i < self.users.len()
            invariant
                self.wf(),
                i <= self.users@.len(),
                self@.len() == self.users@.len(),
                forall|j: int| 0 <= j < i ==> (#[trigger] self@[j]).id != id,
            decreases self.users@.len() - i,
        {
            if self.users[i].id == id {
                let u = self.users[i].clone();
                proof {
                    lemma_find_by_id_spec(self@, id);
                    assert(self@[i as int] == u@);
                    match find_by_id(self@, id) {
                        Some(w) => {
                            let k = choose|k: int| 0 <= k < self@.len() && self@[k] == w;
                            assert(self@[k].id == id && self@[i as int].id == id);
                            assert(k == i as int);
                        },
                        None => {
                            assert(false);
                        },
                    }
                }
                return Some(u);
            }
            i = i + 1;
        }
        proof {
            lemma_find_by_id_spec(self@, id);
        }
        None
    }

    /// Look an account up by username; absence is a valid outcome.
    pub fn get_by_username(&self, username: &String) -> (r: Option<User>)
        requires
            self.wf(),
        ensures
            match r {
                Some(u) => find_by_username(self@, username@) == Some(u@),
                None => find_by_username(self@, username@) is None,
            },
    {
        let mut i: usize = 0;
        while i < self.users.len()
            invariant
                self.wf(),
                i <= self.users@.len(),
                self@.len() == self.users@.len(),
                forall|j: int| 0 <= j < i ==> (#[trigger] self@[j]).username != username@,
            decreases self.users@.len() - i,
        {
            if self.users[i].username.eq(username) {
                let u = self.users[i].clone();
                proof {
                    lemma_find_by_username_spec(self@, username@);
                    assert(self@[i as int] == u@);
                    match find_by_username(self@, username@) {
                        Some(w) => {
                            let k = choose|k: int| 0 <= k < self@.len() && self@[k] == w;
                            assert(self@[k].username == username@);
                            assert(self@[i as int].username == username@);
                            assert(k == i as int);
                        },
                        None => {
                            assert(false);
                        },
                    }
                }
                return Some(u);
            }
            i = i + 1;
        }
        proof {
            lemma_find_by_username_spec(self@, username@);
        }
        None
    }

    /// Insert a full row: the account receives the next fresh id and the
    /// permission tokens given. This is how rows loaded from storage are
    /// seeded; signup inserts with an empty permission set.
    pub fn insert_with_permissions(
        &mut self,
        username: String,
        display_name: String,
        credential_hash: String,
        permissions: Vec<String>,
    ) -> (r: Result<(), InsertError>)
        requires
            old(self).wf(),
        ensures
            final(self).wf(),
            find_by_username(old(self)@, username@) is Some ==> r == Err::<(), InsertError>(
                InsertError::DuplicateUsername,
            ) && *final(self) == *old(self),
            find_by_username(old(self)@, username@) is None && old(self).spec_next_id()
                == i64::MAX ==> r == Err::<(), InsertError>(InsertError::IdsExhausted) && *final(self)
                == *old(self),
            find_by_username(old(self)@, username@) is None && old(self).spec_next_id()
                < i64::MAX ==> r == Ok::<(), InsertError>(()) && final(self).spec_next_id() == old(
                self,
            ).spec_next_id() + 1 && final(self)@ == old(self)@.push(
                UserView {
                    id: old(self).spec_next_id(),
                    username: username@,
                    display_name: display_name@,
                    credential_hash: credential_hash@,
                    permissions: tokens_view(permissions@),
                },
            ),
    {
        let ghost pre = self@;
        let mut i: usize = 0;
        while i < self.users.len()
            invariant
                self.wf(),
                self@ == pre,
                i <= self.users@.len(),
                self@.len() == self.users@.len(),
                forall|j: int| 0 <= j < i ==> (#[trigger] self@[j]).username != username@,
            decreases self.users@.len() - i,
        {
            if self.users[i].username.eq(&username) {
                proof {
                    assert(self@[i as int].username == username@);
                    lemma_find_by_username_spec(self@, username@);
                    assert(find_by_username(old(self)@, username@) is Some);
                }
                return Err(InsertError::DuplicateUsername);
            }
            i = i + 1;
        }
        proof {
            lemma_find_by_username_spec(self@, username@);
        }
        if self.next_id == i64::MAX {
            return Err(InsertError::IdsExhausted);
        }
        let id = self.next_id;
        self.next_id = self.next_id + 1;
        let user = User { id, username, display_name, credential_hash, permissions };
        let ghost uv = user@;
        self.users.push(user);
        proof {
            assert(self@ =~= pre.push(uv));
        }
        Ok(())
    }

    /// Insert a new account: the username must be free, the credential hash
    /// is stored in the account's stead of the password, and no permission
    /// token is granted.
    pub fn insert(&mut self, username: String, display_name: String, credential_hash: String) -> (r:
        Result<(), InsertError>)
        requires
            old(self).wf(),
        ensures
            final(self).wf(),
            find_by_username(old(self)@, username@) is Some ==> r == Err::<(), InsertError>(
                InsertError::DuplicateUsername,
            ) && *final(self) == *old(self),
            find_by_username(old(self)@, username@) is None && old(self).spec_next_id()
                == i64::MAX ==> r == Err::<(), InsertError>(InsertError::IdsExhausted) && *final(self)
                == *old(self),
            find_by_username(old(self)@, username@) is None && old(self).spec_next_id()
                < i64::MAX ==> r == Ok::<(), InsertError>(()) && final(self).spec_next_id() == old(
                self,
            ).spec_next_id() + 1 && final(self)@ == old(self)@.push(
                UserView {
                    id: old(self).spec_next_id(),
                    username: username@,
                    display_name: display_name@,
                    credential_hash: credential_hash@,
                    permissions: Seq::<Seq<char>>::empty(),
                },
            ),
    {
        let perms: Vec<String> = Vec::new();
        proof {
            assert(tokens_view(perms@) =~= Seq::<Seq<char>>::empty());
        }
        self.insert_with_permissions(username, display_name, credential_hash, perms)
    }

    /// Law: the table never holds two rows with one username — were two
    /// signups racing on a name, at most one row ends up stored.
    pub proof fn lemma_one_row_per_username(self, name: Seq<char>, i: int, j: int)
        requires
            self.wf(),
            0 <= i < self@.len(),
            0 <= j < self@.len(),
            self@[i].username == name,
            self@[j].username == name,
        ensures
            i == j,
    {
    }
}

} // verus!
