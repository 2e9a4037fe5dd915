//! Server-side sessions: the per-client attribute record, and the store that
//! persists such records under opaque session ids with a time-based expiry.
use vstd::prelude::*;
use vstd::pervasive::VecAdditionalExecFns;

verus! {

/// The attributes a session carries across requests.
#[derive(Clone, Copy, Debug, PartialEq, Eq)]
pub struct Session {
    /// Whether the session is written to durable storage at all; an
    /// ephemeral anonymous session need not be.
    pub store_flag: bool,
    /// Whether the session outlives a single browser session.
    pub remembered_flag: bool,
    /// The authenticated account, if any; absent means anonymous.
    pub user_id: Option<i64>,
}

impl Session {
    /// A fresh session: anonymous, ephemeral, not remembered.
    pub open spec fn spec_anonymous() -> Session {
        Session { store_flag: false, remembered_flag: false, user_id: None }
    }

    /// Build the fresh anonymous session.
    pub fn anonymous() -> (s: Session)
        ensures
            s == Session::spec_anonymous(),
    {
        Session { store_flag: false, remembered_flag: false, user_id: None }
    }
}

/// One stored session: the opaque id, the attributes, and when the entry
/// expires (the store's sweep removes it once that instant has passed).
#[derive(Clone, Copy, Debug, PartialEq, Eq)]
pub struct SessionEntry {
    pub id: u64,
    pub session: Session,
    pub expires_at: u64,
}

/// First stored entry under the session id, if any.
pub open spec fn find_session(entries: Seq<SessionEntry>, id: u64) -> Option<SessionEntry>
    decreases entries.len(),
{
    if entries.len() == 0 {
        None
    } else if entries[0].id == id {
        Some(entries[0])
    } else {
        find_session(entries.drop_first(), id)
    }
}

/// A lookup returns a stored entry carrying the id, and returns nothing
/// exactly when no entry carries it.
pub proof fn lemma_find_session_spec(entries: Seq<SessionEntry>, id: u64)
    ensures
        match find_session(entries, id) {
            Some(e) => e.id == id && exists|i: int| 0 <= i < entries.len() && entries[i] == e,
            None => forall|i: int| 0 <= i < entries.len() ==> (#[trigger] entries[i]).id != id,
        },
    decreases entries.len(),
{
    if entries.len() > 0 && entries[0].id != id {
        lemma_find_session_spec(entries.drop_first(), id);
        match find_session(entries, id) {
            Some(e) => {
                let i = choose|i: int|
                    0 <= i < entries.drop_first().len() && entries.drop_first()[i] == e;
                assert(entries[i + 1] == e);
            },
            None => {
                assert forall|i: int| 0 <= i < entries.len() implies (#[trigger] entries[i]).id
                    != id by {
                    if i > 0 {
                        assert(entries.drop_first()[i - 1] == entries[i]);
                    }
                }
            },
        }
    }
}

/// No two entries share an id.
pub open spec fn distinct_ids(entries: Seq<SessionEntry>) -> bool {
    forall|i: int, j: int| 0 <= i < j < entries.len() ==> entries[i].id != entries[j].id
}

/// Appending an entry leaves every earlier lookup in place; an id found
/// nowhere before is found in the appended entry alone.
proof fn lemma_find_session_push(entries: Seq<SessionEntry>, e: SessionEntry, q: u64)
    ensures
        find_session(entries.push(e), q) == if find_session(entries, q) is Some {
            find_session(entries, q)
        } else if q == e.id {
            Some(e)
        } else {
            None::<SessionEntry>
        },
    decreases entries.len(),
{
    let p = entries.push(e);
    if entries.len() == 0 {
        assert(p[0] == e);
        assert(p.drop_first() =~= Seq::<SessionEntry>::empty());
        assert(find_session(entries, q) == None::<SessionEntry>);
        if q == e.id {
            assert(find_session(p, q) == Some(e));
        } else {
            assert(find_session(p, q) == find_session(p.drop_first(), q));
            assert(find_session(p.drop_first(), q) == None::<SessionEntry>);
        }
    } else {
        assert(p[0] == entries[0]);
        if entries[0].id == q {
            assert(find_session(p, q) == Some(entries[0]));
            assert(find_session(entries, q) == Some(entries[0]));
        } else {
            lemma_find_session_push(entries.drop_first(), e, q);
            assert(p.drop_first() =~= entries.drop_first().push(e));
            assert(find_session(p, q) == find_session(entries.drop_first().push(e), q));
            assert(find_session(entries, q) == find_session(entries.drop_first(), q));
        }
    }
}

/// Overwriting the entry that holds an id changes that id's lookup to the
/// new entry and no other lookup.
proof fn lemma_find_session_update(entries: Seq<SessionEntry>, i: int, e: SessionEntry, q: u64)
    requires
        distinct_ids(entries),
        0 <= i < entries.len(),
        entries[i].id == e.id,
    ensures
        find_session(entries.update(i, e), q) == if q == e.id {
            Some(e)
        } else {
            find_session(entries, q)
        },
    decreases i,
{
    let u = entries.update(i, e);
    if i == 0 {
        if q != e.id {
            assert(u.drop_first() =~= entries.drop_first());
        }
    } else {
        assert(u[0] == entries[0]);
        assert(entries[0].id != entries[i].id);
        if entries[0].id == q {
        } else {
            assert(u.drop_first() =~= entries.drop_first().update(i - 1, e));
            assert forall|a: int, b: int|
                0 <= a < b < entries.drop_first().len() implies entries.drop_first()[a].id
                != entries.drop_first()[b].id by {
                assert(entries[a + 1].id != entries[b + 1].id);
            }
            lemma_find_session_update(entries.drop_first(), i - 1, e, q);
        }
    }
}

/// Removing the entry that holds an id empties that id's lookup and leaves
/// every other lookup in place.
proof fn lemma_find_session_remove(entries: Seq<SessionEntry>, i: int, q: u64)
    requires
        distinct_ids(entries),
        0 <= i < entries.len(),
    ensures
        find_session(entries.remove(i), q) == if q == entries[i].id {
            None::<SessionEntry>
        } else {
            find_session(entries, q)
        },
    decreases i,
{
    let u = entries.remove(i);
    if i == 0 {
        assert(u =~= entries.drop_first());
        if q == entries[0].id {
            lemma_find_session_spec(entries.drop_first(), q);
            assert forall|k: int| 0 <= k < entries.drop_first().len() implies (
            #[trigger] entries.drop_first()[k]).id != q by {
                assert(entries[k + 1].id != entries[0].id);
            }
        }
    } else {
        assert(u[0] == entries[0]);
        if entries[0].id == q {
            assert(entries[0].id != entries[i].id);
        } else {
            assert(u.drop_first() =~= entries.drop_first().remove(i - 1));
            assert forall|a: int, b: int|
                0 <= a < b < entries.drop_first().len() implies entries.drop_first()[a].id
                != entries.drop_first()[b].id by {
                assert(entries[a + 1].id != entries[b + 1].id);
            }
            assert(entries.drop_first()[i - 1] == entries[i]);
            lemma_find_session_remove(entries.drop_first(), i - 1, q);
        }
    }
}

/// Persistence backend for sessions, keyed by the opaque session id. Writes
/// to one id replace that id's entry and touch no other (last writer wins);
/// a sweep drops every entry whose expiry has passed.
pub struct SessionStore {
    entries: Vec<SessionEntry>,
}

impl View for SessionStore {
    type V = Seq<SessionEntry>;

    closed spec fn view(&self) -> Seq<SessionEntry> {
        self.entries@
    }
}

impl SessionStore {
    /// Well-formed store: each session id holds at most one entry.
    pub open spec fn wf(self) -> bool {
        distinct_ids(self@)
    }

    /// An empty store.
    pub fn new() -> (s: SessionStore)
        ensures
            s.wf(),
            s@ == Seq::<SessionEntry>::empty(),
    {
        SessionStore { entries: Vec::new() }
    }

    /// How many sessions are stored.
    pub fn len(&self) -> (n: usize)
        ensures
            n == self@.len(),
    {
        self.entries.len()
    }

    /// Find the index of an id's entry, if one is stored.
    fn position_of(&self, id: u64) -> (r: Option<usize>)
        ensures
            match r {
                Some(i) => i < self@.len() && self@[i as int].id == id,
                None => forall|j: int| 0 <= j < self@.len() ==> (#[trigger] self@[j]).id != id,
            },
    {
        let mut i: usize = 0;
        while i < self.entries.len()
            invariant
                i <= self@.len(),
                forall|j: int| 0 <= j < i ==> (#[trigger] self@[j]).id != id,
            decreases self@.len() - i,
        {
            if self.entries[i].id == id {
                return Some(i);
            }
            i = i + 1;
        }
        None
    }

    /// Load the session stored under an id; absence is a valid outcome.
    pub fn load(&self, id: u64) -> (r: Option<Session>)
        requires
            self.wf(),
        ensures
            match r {
                Some(s) => find_session(self@, id) matches Some(e) && e.session == s,
                None => find_session(self@, id) is None,
            },
    {
        proof {
            lemma_find_session_spec(self@, id);
        }
        match self.position_of(id) {
            Some(i) => {
                proof {
                    match find_session(self@, id) {
                        Some(e) => {
                            let k = choose|k: int| 0 <= k < self@.len() && self@[k] == e;
                            assert(self@[k].id == id && self@[i as int].id == id);
                            assert(k == i as int);
                        },
                        None => {
                            assert(false);
                        },
                    }
                }
                Some(self.entries[i].session)
            },
            None => None,
        }
    }

    /// Save (upsert) a session under an id: that id now maps to exactly the
    /// given attributes and expiry, and every other id is untouched.
    pub fn save(&mut self, id: u64, session: Session, expires_at: u64)
        requires
            old(self).wf(),
        ensures
            final(self).wf(),
            find_session(final(self)@, id) == Some(SessionEntry { id, session, expires_at }),
            forall|q: u64| q != id ==> find_session(final(self)@, q) == find_session(old(self)@, q),
    {
        let entry = SessionEntry { id, session, expires_at };
        match self.position_of(id) {
            Some(i) => {
                self.entries.set(i, entry);
                proof {
                    assert forall|q: u64| true implies find_session(self@, q) == (if q == id {
                        Some(entry)
                    } else {
                        find_session(old(self)@, q)
                    }) by {
                        lemma_find_session_update(old(self)@, i as int, entry, q);
                    }
                }
            },
            None => {
                self.entries.push(entry);
                proof {
                    lemma_find_session_spec(old(self)@, id);
                    assert forall|q: u64| true implies find_session(self@, q) == (if q == id {
                        Some(entry)
                    } else {
                        find_session(old(self)@, q)
                    }) by {
                        lemma_find_session_push(old(self)@, entry, q);
                        if q == id {
                            match find_session(old(self)@, q) {
                                Some(e) => {
                                    let k = choose|k: int|
                                        0 <= k < old(self)@.len() && old(self)@[k] == e;
                                    assert(false);
                                },
                                None => {},
                            }
                        }
                    }
                    assert forall|a: int, b: int| 0 <= a < b < self@.len() implies self@[a].id
                        != self@[b].id by {
                        if b == self@.len() - 1 {
                            assert(self@[a] == old(self)@[a]);
                        }
                    }
                }
            },
        }
    }

    /// Destroy the session stored under an id, if any; every other id is
    /// untouched.
    pub fn destroy(&mut self, id: u64)
        requires
            old(self).wf(),
        ensures
            final(self).wf(),
            find_session(final(self)@, id) is None,
            forall|q: u64| q != id ==> find_session(final(self)@, q) == find_session(old(self)@, q),
    {
        match self.position_of(id) {
            Some(i) => {
                self.entries.remove(i);
                proof {
                    assert forall|q: u64| true implies find_session(self@, q) == (if q == id {
                        None::<SessionEntry>
                    } else {
                        find_session(old(self)@, q)
                    }) by {
                        lemma_find_session_remove(old(self)@, i as int, q);
                    }
                    assert forall|a: int, b: int| 0 <= a < b < self@.len() implies self@[a].id
                        != self@[b].id by {
                        let pre = old(self)@;
                        assert(self@ =~= pre.subrange(0, i as int) + pre.subrange(
                            i as int + 1,
                            pre.len() as int,
                        ));
                    }
                }
            },
            None => {
                proof {
                    lemma_find_session_spec(self@, id);
                    match find_session(self@, id) {
                        Some(e) => {
                            let k = choose|k: int| 0 <= k < self@.len() && self@[k] == e;
                            assert(false);
                        },
                        None => {},
                    }
                }
            },
        }
    }

    /// Load the session under an id, creating a fresh anonymous one on first
    /// contact with an unrecognized id.
    pub fn open_session(&mut self, id: u64, expires_at: u64) -> (s: Session)
        requires
            old(self).wf(),
        ensures
            final(self).wf(),
            match find_session(old(self)@, id) {
                Some(e) => s == e.session && *final(self) == *old(self),
                None => {
                    &&& s == Session::spec_anonymous()
                    &&& find_session(final(self)@, id) == Some(
                        SessionEntry { id, session: Session::spec_anonymous(), expires_at },
                    )
                    &&& forall|q: u64|
                        q != id ==> find_session(final(self)@, q) == find_session(old(self)@, q)
                },
            },
    {
        match self.load(id) {
            Some(s) => s,
            None => {
                let s = Session::anonymous();
                self.save(id, s, expires_at);
                s
            },
        }
    }

    /// Drop every entry whose expiry has passed; the entries still alive at
    /// the given instant all stay, under their ids, and nothing else remains.
    pub fn sweep_expired(&mut self, now: u64)
        requires
            old(self).wf(),
        ensures
            final(self).wf(),
            forall|k: int|
                0 <= k < final(self)@.len() ==> (#[trigger] final(self)@[k]).expires_at > now
                    && old(self)@.contains(final(self)@[k]),
            forall|k: int|
                0 <= k < old(self)@.len() ==> ((#[trigger] old(self)@[k]).expires_at > now
                    ==> final(self)@.contains(old(self)@[k])),
    {
        let ghost pre = self@;
        let mut kept: Vec<SessionEntry> = Vec::new();
        let mut i: usize = 0;
        while i < self.entries.len()
            invariant
                self@ == pre,
                distinct_ids(pre),
                i <= pre.len(),
                self@.len() == pre.len(),
                forall|k: int|
                    0 <= k < kept@.len() ==> (#[trigger] kept@[k]).expires_at > now && exists|j: int|
                        0 <= j < i && pre[j] == kept@[k],
                forall|j: int| 0 <= j < i ==> ((#[trigger] pre[j]).expires_at > now ==> kept@.contains(pre[j])),
                distinct_ids(kept@),
            decreases pre.len() - i,
        {
            let e = self.entries[i];
            let ghost kold = kept@;
            if e.expires_at > now {
                proof {
                    assert forall|k: int| 0 <= k < kept@.len() implies (#[trigger] kept@[k]).id
                        != e.id by {
                        let j = choose|j: int| 0 <= j < i && pre[j] == kept@[k];
                        assert(pre[j].id != pre[i as int].id);
                    }
                }
                kept.push(e);
                proof {
                    assert(e == pre[i as int]);
                    assert(kept@[kept@.len() - 1] == e);
                }
            }
            proof {
                assert forall|j: int|
                    0 <= j < i + 1 implies ((#[trigger] pre[j]).expires_at > now
                    ==> kept@.contains(pre[j])) by {
                    if pre[j].expires_at > now {
                        if j < i {
                            let w = choose|w: int| 0 <= w < kold.len() && kold[w] == pre[j];
                            assert(kept@[w] == pre[j]);
                        } else {
                            assert(kept@[kept@.len() - 1] == pre[j]);
                        }
                    }
                }
            }
            i = i + 1;
        }
        self.entries = kept;
        proof {
            assert forall|k: int| 0 <= k < self@.len() implies (#[trigger] self@[k]).expires_at
                > now && pre.contains(self@[k]) by {
                let j = choose|j: int| 0 <= j < pre.len() && pre[j] == self@[k];
            }
        }
    }
}

} // verus!
