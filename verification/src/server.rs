//! The verifier's session store and protocol state machine.
//!
//! [`AuthImpl`] keeps one record per registered user and one binding per
//! issued challenge token.  Its observable state is a pair of maps: user
//! name to [`UserRecord`] and authentication token to user name.  The
//! three operations mirror the protocol: `register` stores (or silently
//! overwrites) a user's public values, `create_authentication_challenge`
//! issues a random challenge for a registered user, and
//! `verify_authentication` checks a response and hands out a session id.
//!
//! Callers that serve several connections are expected to guard the whole
//! store with one lock; every operation is a short, non-blocking critical
//! section.

use crate::bytes::be_val;
use crate::zkp::{
    alpha_value, beta_value, is_alphanumeric_char, p_value, q_value, spec_verify, ZKP,
};
use vstd::pervasive::VecAdditionalExecFns;
use vstd::prelude::*;

verus! {

/// One user's record: registration values, the latest challenge, and the
/// session granted on successful verification.
#[derive(Debug)]
pub struct UserInfo {
    /// The unique key of the record.
    pub user_name: String,
    /// `alpha ^ x mod p`, submitted at registration.
    pub y1: Vec<u8>,
    /// `beta ^ x mod p`, submitted at registration.
    pub y2: Vec<u8>,
    /// `alpha ^ k mod p`, the first commitment of the latest challenge.
    pub r1: Vec<u8>,
    /// `beta ^ k mod p`, the second commitment of the latest challenge.
    pub r2: Vec<u8>,
    /// The random challenge of the latest challenge round.
    pub c: Vec<u8>,
    /// The response of the latest successful verification.
    pub s: Vec<u8>,
    /// The session granted by the latest successful verification.
    pub session_id: String,
}

/// The abstract value of a [`UserInfo`].
pub struct UserRecord {
    /// The unique key of the record.
    pub user_name: Seq<char>,
    /// `alpha ^ x mod p`, submitted at registration.
    pub y1: Seq<u8>,
    /// `beta ^ x mod p`, submitted at registration.
    pub y2: Seq<u8>,
    /// The first commitment of the latest challenge.
    pub r1: Seq<u8>,
    /// The second commitment of the latest challenge.
    pub r2: Seq<u8>,
    /// The random challenge of the latest challenge round.
    pub c: Seq<u8>,
    /// The response of the latest successful verification.
    pub s: Seq<u8>,
    /// The session granted by the latest successful verification.
    pub session_id: Seq<char>,
}

impl View for UserInfo {
    type V = UserRecord;

    open spec fn view(&self) -> UserRecord {
        UserRecord {
            user_name: self.user_name@,
            y1: self.y1@,
            y2: self.y2@,
            r1: self.r1@,
            r2: self.r2@,
            c: self.c@,
            s: self.s@,
            session_id: self.session_id@,
        }
    }
}

/// The record stored by a fresh registration: the submitted values, with
/// every challenge field empty.  Re-registration thus also clears any
/// pending challenge.
pub open spec fn registered_record(name: Seq<char>, y1: Seq<u8>, y2: Seq<u8>) -> UserRecord {
    UserRecord {
        user_name: name,
        y1: y1,
        y2: y2,
        r1: Seq::empty(),
        r2: Seq::empty(),
        c: Seq::empty(),
        s: Seq::empty(),
        session_id: Seq::empty(),
    }
}

/// The record after a fresh challenge: the commitments and the challenge
/// replaced, everything else kept.
pub open spec fn challenged_record(u: UserRecord, r1: Seq<u8>, r2: Seq<u8>, c: Seq<u8>) -> UserRecord {
    UserRecord { r1: r1, r2: r2, c: c, ..u }
}

/// The record after a successful verification: the accepted response and
/// a fresh session id stored, everything else kept.
pub open spec fn verified_record(u: UserRecord, s: Seq<u8>, session_id: Seq<char>) -> UserRecord {
    UserRecord { s: s, session_id: session_id, ..u }
}

/// Why an operation was refused.
#[derive(Debug)]
pub enum AuthError {
    /// The named user, or the given authentication token, is not known.
    NotFound,
    /// The response failed verification; carries the token of the failed
    /// attempt, and no secret material.
    PermissionDenied {
        /// The authentication token whose response was rejected.
        auth_id: String,
    },
}

/// A binding from an issued challenge token to the user it belongs to.
#[derive(Debug)]
struct AuthBinding {
    auth_id: String,
    user_name: String,
}

/// The verifier's store: user records keyed by name, challenge bindings
/// keyed by token.
#[derive(Debug)]
pub struct AuthImpl {
    users: Vec<UserInfo>,
    auth_ids: Vec<AuthBinding>,
}

/// The map denoted by a sequence of user records, later entries winning.
spec fn user_seq_map(s: Seq<UserInfo>) -> Map<Seq<char>, UserRecord>
    decreases s.len(),
{
    if s.len() == 0 {
        Map::empty()
    } else {
        user_seq_map(s.drop_last()).insert(s.last().user_name@, s.last()@)
    }
}

/// The map denoted by a sequence of challenge bindings.
spec fn auth_seq_map(s: Seq<AuthBinding>) -> Map<Seq<char>, Seq<char>>
    decreases s.len(),
{
    if s.len() == 0 {
        Map::empty()
    } else {
        auth_seq_map(s.drop_last()).insert(s.last().auth_id@, s.last().user_name@)
    }
}

/// A key is in the user map exactly when some entry carries it.
proof fn lemma_user_map_contains(s: Seq<UserInfo>, k: Seq<char>)
    ensures
        user_seq_map(s).contains_key(k) <==> exists|i: int|
            0 <= i < s.len() && s[i].user_name@ == k,
    decreases s.len(),
{
    if s.len() > 0 {
        lemma_user_map_contains(s.drop_last(), k);
        if s.last().user_name@ == k {
            assert(s[s.len() - 1].user_name@ == k);
        } else if user_seq_map(s).contains_key(k) {
            let i = choose|i: int| 0 <= i < s.drop_last().len() && s.drop_last()[i].user_name@
                == k;
            assert(s[i].user_name@ == k);
        } else if exists|i: int| 0 <= i < s.len() && s[i].user_name@ == k {
            let i = choose|i: int| 0 <= i < s.len() && s[i].user_name@ == k;
            assert(s.drop_last()[i].user_name@ == k);
        }
    }
}

/// With pairwise distinct names, each entry is the value of its key.
proof fn lemma_user_map_index(s: Seq<UserInfo>, i: int)
    requires
        distinct_user_names(s),
        0 <= i < s.len(),
    ensures
        user_seq_map(s).contains_key(s[i].user_name@),
        user_seq_map(s)[s[i].user_name@] == s[i]@,
    decreases s.len(),
{
    if i < s.len() - 1 {
        lemma_user_map_index(s.drop_last(), i);
        assert(s.drop_last()[i] == s[i]);
        assert(s[i].user_name@ != s.last().user_name@);
    }
}

/// Replacing the entry at `i` by one with the same name turns the map
/// into an insert at that name.
proof fn lemma_user_map_update(s: Seq<UserInfo>, i: int, u: UserInfo)
    requires
        distinct_user_names(s),
        0 <= i < s.len(),
        u.user_name@ == s[i].user_name@,
    ensures
        user_seq_map(s.update(i, u)) == user_seq_map(s).insert(u.user_name@, u@),
    decreases s.len(),
{
    let t = s.update(i, u);
    if i == s.len() - 1 {
        assert(t.drop_last() =~= s.drop_last());
        assert(t.last() == u);
        assert(user_seq_map(t) =~= user_seq_map(s).insert(u.user_name@, u@));
    } else {
        assert(t.drop_last() =~= s.drop_last().update(i, u));
        assert(t.last() == s.last());
        assert(s.drop_last()[i] == s[i]);
        lemma_user_map_update(s.drop_last(), i, u);
        assert(s[i].user_name@ != s.last().user_name@);
        assert(user_seq_map(t) =~= user_seq_map(s).insert(u.user_name@, u@));
    }
}

/// Appending an entry turns the map into an insert at its name.
proof fn lemma_user_map_push(s: Seq<UserInfo>, u: UserInfo)
    ensures
        user_seq_map(s.push(u)) == user_seq_map(s).insert(u.user_name@, u@),
{
    assert(s.push(u).drop_last() =~= s);
    assert(s.push(u).last() == u);
}

/// A key is in the binding map exactly when some binding carries it.
proof fn lemma_auth_map_contains(s: Seq<AuthBinding>, k: Seq<char>)
    ensures
        auth_seq_map(s).contains_key(k) <==> exists|i: int|
            0 <= i < s.len() && s[i].auth_id@ == k,
    decreases s.len(),
{
    if s.len() > 0 {
        lemma_auth_map_contains(s.drop_last(), k);
        if s.last().auth_id@ == k {
            assert(s[s.len() - 1].auth_id@ == k);
        } else if auth_seq_map(s).contains_key(k) {
            let i = choose|i: int| 0 <= i < s.drop_last().len() && s.drop_last()[i].auth_id@ == k;
            assert(s[i].auth_id@ == k);
        } else if exists|i: int| 0 <= i < s.len() && s[i].auth_id@ == k {
            let i = choose|i: int| 0 <= i < s.len() && s[i].auth_id@ == k;
            assert(s.drop_last()[i].auth_id@ == k);
        }
    }
}

/// With pairwise distinct tokens, each binding is the value of its key.
proof fn lemma_auth_map_index(s: Seq<AuthBinding>, i: int)
    requires
        distinct_auth_ids(s),
        0 <= i < s.len(),
    ensures
        auth_seq_map(s).contains_key(s[i].auth_id@),
        auth_seq_map(s)[s[i].auth_id@] == s[i].user_name@,
    decreases s.len(),
{
    if i < s.len() - 1 {
        lemma_auth_map_index(s.drop_last(), i);
        assert(s.drop_last()[i] == s[i]);
        assert(s[i].auth_id@ != s.last().auth_id@);
    }
}

/// Replacing the binding at `i` by one with the same token turns the map
/// into an insert at that token.
proof fn lemma_auth_map_update(s: Seq<AuthBinding>, i: int, b: AuthBinding)
    requires
        distinct_auth_ids(s),
        0 <= i < s.len(),
        b.auth_id@ == s[i].auth_id@,
    ensures
        auth_seq_map(s.update(i, b)) == auth_seq_map(s).insert(b.auth_id@, b.user_name@),
    decreases s.len(),
{
    let t = s.update(i, b);
    if i == s.len() - 1 {
        assert(t.drop_last() =~= s.drop_last());
        assert(t.last() == b);
        assert(auth_seq_map(t) =~= auth_seq_map(s).insert(b.auth_id@, b.user_name@));
    } else {
        assert(t.drop_last() =~= s.drop_last().update(i, b));
        assert(t.last() == s.last());
        assert(s.drop_last()[i] == s[i]);
        lemma_auth_map_update(s.drop_last(), i, b);
        assert(s[i].auth_id@ != s.last().auth_id@);
        assert(auth_seq_map(t) =~= auth_seq_map(s).insert(b.auth_id@, b.user_name@));
    }
}

/// Appending a binding turns the map into an insert at its token.
proof fn lemma_auth_map_push(s: Seq<AuthBinding>, b: AuthBinding)
    ensures
        auth_seq_map(s.push(b)) == auth_seq_map(s).insert(b.auth_id@, b.user_name@),
{
    assert(s.push(b).drop_last() =~= s);
    assert(s.push(b).last() == b);
}

/// No two entries share a user name.
spec fn distinct_user_names(s: Seq<UserInfo>) -> bool {
    forall|i: int, j: int|
        0 <= i < j < s.len() ==> s[i].user_name@ != s[j].user_name@
}

/// No two bindings share a token.
spec fn distinct_auth_ids(s: Seq<AuthBinding>) -> bool {
    forall|i: int, j: int|
        0 <= i < j < s.len() ==> s[i].auth_id@ != s[j].auth_id@
}

/// A clone of a byte vector denotes the same bytes.
fn clone_bytes(v: &Vec<u8>) -> (r: Vec<u8>)
    ensures
        r@ == v@,
{
    let r = v.clone();
    proof {
        assert(r@ =~= v@);
    }
    r
}

impl AuthImpl {
    /// The store's user records, keyed by user name.
    pub closed spec fn users_map(self) -> Map<Seq<char>, UserRecord> {
        user_seq_map(self.users@)
    }

    /// The store's challenge bindings, token to user name.
    pub closed spec fn auth_map(self) -> Map<Seq<char>, Seq<char>> {
        auth_seq_map(self.auth_ids@)
    }

    /// Internal consistency: keys are unique, and every issued token
    /// names a registered user.
    pub closed spec fn wf(self) -> bool {
        &&& distinct_user_names(self.users@)
        &&& distinct_auth_ids(self.auth_ids@)
        &&& forall|i: int|
            0 <= i < self.auth_ids@.len() ==> self.users_map().contains_key(
                #[trigger] self.auth_ids@[i].user_name@,
            )
    }

    /// An empty store.
    pub fn new() -> (r: AuthImpl)
        ensures
            r.wf(),
            r.users_map() == Map::<Seq<char>, UserRecord>::empty(),
            r.auth_map() == Map::<Seq<char>, Seq<char>>::empty(),
    {
        AuthImpl { users: Vec::new(), auth_ids: Vec::new() }
    }

    /// The index of the record with the given name, if any.
    fn find_user(&self, name: &String) -> (r: Option<usize>)
        ensures
            match r {
                Some(i) => i < self.users@.len() && self.users@[i as int].user_name@ == name@,
                None => forall|i: int|
                    0 <= i < self.users@.len() ==> self.users@[i].user_name@ != name@,
            },
    {
        let n = self.users.len();
        let mut j: usize = 0;
        while j < n
            invariant
                n == self.users@.len(),
                j <= n,
                forall|i: int| 0 <= i < j ==> self.users@[i].user_name@ != name@,
            decreases n - j,
        {
            if self.users[j].user_name == *name {
                return Some(j);
            }
            j = j + 1;
        }
        None
    }

    /// The index of the binding with the given token, if any.
    fn find_auth(&self, auth_id: &String) -> (r: Option<usize>)
        ensures
            match r {
                Some(i) => i < self.auth_ids@.len() && self.auth_ids@[i as int].auth_id@
                    == auth_id@,
                None => forall|i: int|
                    0 <= i < self.auth_ids@.len() ==> self.auth_ids@[i].auth_id@ != auth_id@,
            },
    {
        let n = self.auth_ids.len();
        let mut j: usize = 0;
        while j < n
            invariant
                n == self.auth_ids@.len(),
                j <= n,
                forall|i: int| 0 <= i < j ==> self.auth_ids@[i].auth_id@ != auth_id@,
            decreases n - j,
        {
            if self.auth_ids[j].auth_id == *auth_id {
                return Some(j);
            }
            j = j + 1;
        }
        None
    }

    /// Stores the user's registration values.  Last write wins: an
    /// existing record under the same name is silently overwritten, which
    /// also clears any pending challenge for that user.  Registration
    /// never fails.
    pub fn register(&mut self, user_name: String, y1: Vec<u8>, y2: Vec<u8>)
        requires
            old(self).wf(),
        ensures
            final(self).wf(),
            final(self).users_map() == old(self).users_map().insert(
                user_name@,
                registered_record(user_name@, y1@, y2@),
            ),
            final(self).auth_map() == old(self).auth_map(),
    {
        let user = UserInfo {
            user_name: user_name,
            y1: y1,
            y2: y2,
            r1: Vec::new(),
            r2: Vec::new(),
            c: Vec::new(),
            s: Vec::new(),
            session_id: String::new(),
        };
        let ghost name = user.user_name@;
        match self.find_user(&user.user_name) {
            Some(i) => {
                proof {
                    lemma_user_map_update(self.users@, i as int, user);
                }
                self.users.set(i, user);
            },
            None => {
                proof {
                    lemma_user_map_push(self.users@, user);
                }
                self.users.push(user);
            },
        }
        proof {
            self.lemma_wf_after_users_insert(*old(self), name);
        }
    }

    /// After the user sequence changed so that the map became an insert
    /// and names stayed distinct, the store is well formed again.
    proof fn lemma_wf_after_users_insert(self, prev: AuthImpl, name: Seq<char>)
        requires
            prev.wf(),
            self.auth_ids@ == prev.auth_ids@,
            distinct_user_names(self.users@),
            forall|k: Seq<char>|
                prev.users_map().contains_key(k) ==> #[trigger] self.users_map().contains_key(k),
        ensures
            self.wf(),
    {
    }

    /// Issues a challenge for a registered user: fresh random token and
    /// challenge value, commitments stored in the user's record, token
    /// bound to the user.  Returns `NotFound`, and changes nothing, when
    /// the user is not registered.
    pub fn create_authentication_challenge(
        &mut self,
        user_name: String,
        r1: Vec<u8>,
        r2: Vec<u8>,
    ) -> (res: Result<(String, Vec<u8>), AuthError>)
        requires
            old(self).wf(),
        ensures
            final(self).wf(),
            match res {
                Ok(ac) => {
                    &&& old(self).users_map().contains_key(user_name@)
                    &&& ac.0@.len() == 12
                    &&& forall|i: int|
                        0 <= i < ac.0@.len() ==> is_alphanumeric_char(#[trigger] ac.0@[i])
                    &&& be_val(ac.1@) < q_value()
                    &&& final(self).users_map() == old(self).users_map().insert(
                        user_name@,
                        challenged_record(old(self).users_map()[user_name@], r1@, r2@, ac.1@),
                    )
                    &&& final(self).auth_map() == old(self).auth_map().insert(ac.0@, user_name@)
                },
                Err(e) => {
                    &&& e is NotFound
                    &&& !old(self).users_map().contains_key(user_name@)
                    &&& final(self).users_map() == old(self).users_map()
                    &&& final(self).auth_map() == old(self).auth_map()
                },
            },
    {
        let ghost uname = user_name@;
        proof {
            lemma_user_map_contains(self.users@, user_name@);
        }
        match self.find_user(&user_name) {
            Some(i) => {
                let (_alpha, _beta, _p, q) = ZKP::get_constants();
                let auth_id = ZKP::generate_random_string(12);
                let c = ZKP::generate_random_below(&q);
                proof {
                    lemma_user_map_index(self.users@, i as int);
                }
                let u = &self.users[i];
                let updated = UserInfo {
                    user_name: u.user_name.clone(),
                    y1: clone_bytes(&u.y1),
                    y2: clone_bytes(&u.y2),
                    r1: r1,
                    r2: r2,
                    c: clone_bytes(&c),
                    s: clone_bytes(&u.s),
                    session_id: u.session_id.clone(),
                };
                proof {
                    lemma_user_map_update(self.users@, i as int, updated);
                }
                self.users.set(i, updated);
                proof {
                    self.lemma_wf_after_users_insert(*old(self), user_name@);
                }
                let binding = AuthBinding { auth_id: auth_id.clone(), user_name: user_name };
                let ghost mid = *self;
                match self.find_auth(&binding.auth_id) {
                    Some(j) => {
                        proof {
                            lemma_auth_map_update(self.auth_ids@, j as int, binding);
                        }
                        self.auth_ids.set(j, binding);
                    },
                    None => {
                        proof {
                            lemma_auth_map_push(self.auth_ids@, binding);
                        }
                        self.auth_ids.push(binding);
                    },
                }
                proof {
                    self.lemma_wf_after_auth_insert(mid, auth_id@, uname);
                }
                Ok((auth_id, c))
            },
            None => Err(AuthError::NotFound),
        }
    }

    /// After one binding was inserted whose user is registered, and
    /// tokens stayed distinct, the store is well formed again.
    proof fn lemma_wf_after_auth_insert(self, prev: AuthImpl, token: Seq<char>, name: Seq<char>)
        requires
            prev.wf(),
            self.users@ == prev.users@,
            distinct_auth_ids(self.auth_ids@),
            prev.users_map().contains_key(name),
            forall|i: int|
                0 <= i < self.auth_ids@.len() ==> (#[trigger] self.auth_ids@[i].user_name@
                    == name || exists|j: int|
                    0 <= j < prev.auth_ids@.len() && prev.auth_ids@[j].user_name@
                        == self.auth_ids@[i].user_name@),
        ensures
            self.wf(),
    {
        assert forall|i: int| 0 <= i < self.auth_ids@.len() implies self.users_map().contains_key(
            #[trigger] self.auth_ids@[i].user_name@,
        ) by {
            if self.auth_ids@[i].user_name@ != name {
                let j = choose|j: int|
                    0 <= j < prev.auth_ids@.len() && prev.auth_ids@[j].user_name@
                        == self.auth_ids@[i].user_name@;
                assert(prev.users_map().contains_key(prev.auth_ids@[j].user_name@));
            }
        }
    }

    /// Verifies a response.  An unknown token gives `NotFound`; a known
    /// token whose response fails the verification equation gives
    /// `PermissionDenied` carrying that token; a valid response earns a
    /// fresh random session id, stored in the user's record and returned.
    /// The challenge is not invalidated in any case: the binding and the
    /// stored commitments survive, so a verified response may be played
    /// again.  A hardened deployment would mark challenges single-use;
    /// that would change the observable behavior stated here.
    pub fn verify_authentication(&mut self, auth_id: String, s: Vec<u8>) -> (res: Result<
        String,
        AuthError,
    >)
        requires
            old(self).wf(),
        ensures
            final(self).wf(),
            match res {
                Ok(session_id) => {
                    let name = old(self).auth_map()[auth_id@];
                    let u = old(self).users_map()[name];
                    &&& old(self).auth_map().contains_key(auth_id@)
                    &&& spec_verify(
                        p_value(),
                        alpha_value(),
                        beta_value(),
                        be_val(u.r1),
                        be_val(u.r2),
                        be_val(u.y1),
                        be_val(u.y2),
                        be_val(u.c),
                        be_val(s@),
                    )
                    &&& session_id@.len() == 12
                    &&& forall|i: int|
                        0 <= i < session_id@.len() ==> is_alphanumeric_char(
                            #[trigger] session_id@[i],
                        )
                    &&& final(self).users_map() == old(self).users_map().insert(
                        name,
                        verified_record(u, s@, session_id@),
                    )
                    &&& final(self).auth_map() == old(self).auth_map()
                },
                Err(e) => {
                    &&& final(self).users_map() == old(self).users_map()
                    &&& final(self).auth_map() == old(self).auth_map()
                    &&& match e {
                        AuthError::NotFound => !old(self).auth_map().contains_key(auth_id@),
                        AuthError::PermissionDenied { auth_id: t } => {
                            let name = old(self).auth_map()[auth_id@];
                            let u = old(self).users_map()[name];
                            &&& t@ == auth_id@
                            &&& old(self).auth_map().contains_key(auth_id@)
                            &&& !spec_verify(
                                p_value(),
                                alpha_value(),
                                beta_value(),
                                be_val(u.r1),
                                be_val(u.r2),
                                be_val(u.y1),
                                be_val(u.y2),
                                be_val(u.c),
                                be_val(s@),
                            )
                        },
                    }
                },
            },
    {
        proof {
            lemma_auth_map_contains(self.auth_ids@, auth_id@);
        }
        match self.find_auth(&auth_id) {
            None => Err(AuthError::NotFound),
            Some(j) => {
                proof {
                    lemma_auth_map_index(self.auth_ids@, j as int);
                }
                let user_name = self.auth_ids[j].user_name.clone();
                proof {
                    lemma_user_map_contains(self.users@, user_name@);
                }
                let found = self.find_user(&user_name);
                let i = match found {
                    Some(i) => i,
                    None => {
                        proof {
                            assert(false);
                        }
                        return Err(AuthError::NotFound);
                    },
                };
                proof {
                    lemma_user_map_index(self.users@, i as int);
                }
                let (alpha, beta, p, q) = ZKP::get_constants();
                let zkp = ZKP { p: p, q: q, alpha: alpha, beta: beta };
                let u = &self.users[i];
                let ok = zkp.verify(&u.r1, &u.r2, &u.y1, &u.y2, &u.c, &s);
                if ok {
                    let session_id = ZKP::generate_random_string(12);
                    let updated = UserInfo {
                        user_name: u.user_name.clone(),
                        y1: clone_bytes(&u.y1),
                        y2: clone_bytes(&u.y2),
                        r1: clone_bytes(&u.r1),
                        r2: clone_bytes(&u.r2),
                        c: clone_bytes(&u.c),
                        s: s,
                        session_id: session_id.clone(),
                    };
                    proof {
                        lemma_user_map_update(self.users@, i as int, updated);
                    }
                    self.users.set(i, updated);
                    proof {
                        self.lemma_wf_after_users_insert(*old(self), user_name@);
                    }
                    Ok(session_id)
                } else {
                    Err(AuthError::PermissionDenied { auth_id: auth_id })
                }
            },
        }
    }
}

impl Default for AuthImpl {
    /// An empty store.
    fn default() -> (r: AuthImpl)
        ensures
            r.wf(),
            r.users_map() == Map::<Seq<char>, UserRecord>::empty(),
            r.auth_map() == Map::<Seq<char>, Seq<char>>::empty(),
    {
        AuthImpl::new()
    }
}

} // verus!
