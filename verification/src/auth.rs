use vstd::prelude::*;

use crate::catalog::{Catalog, CatalogView};
use crate::errors::ApiError;
use crate::records::{Session, User};
use crate::rng::{is_token_char, random_token, TOKEN_LEN};
use crate::table::{unique_names, Resource};

verus! {

/// How many tokens an authentication draws before giving up. Collisions
/// in the 62^8 token space are a safety net, not a throughput path, so
/// the bound only turns an astronomically unlikely run of collisions
/// into an `Internal` failure instead of an endless loop.
pub const MAX_TOKEN_DRAWS: u64 = 64;

/// A well-formed token representation: exactly the issued length, only
/// alphanumeric ASCII. Anything else is rejected before any lookup.
pub open spec fn token_wf(t: Seq<char>) -> bool {
    t.len() == TOKEN_LEN as nat && forall|i: int| 0 <= i < t.len() ==> is_token_char(#[trigger] t[i])
}

/// Some live session carries the token.
pub open spec fn has_token(sessions: Seq<Session>, t: Seq<char>) -> bool {
    exists|i: int| 0 <= i < sessions.len() && sessions[i].token@ == t
}

/// The index of the session carrying the token; meaningful under
/// `has_token`.
pub open spec fn token_index(sessions: Seq<Session>, t: Seq<char>) -> int {
    choose|i: int| 0 <= i < sessions.len() && sessions[i].token@ == t
}

/// The user the token was issued to; meaningful under `has_token`.
pub open spec fn token_user(sessions: Seq<Session>, t: Seq<char>) -> u64 {
    sessions[token_index(sessions, t)].user
}

/// No two live sessions ever share a token.
pub open spec fn unique_tokens(sessions: Seq<Session>) -> bool {
    forall|i: int, j: int|
        0 <= i < j < sessions.len() ==> #[trigger] sessions[i].token@ != #[trigger] sessions[j].token@
}

/// Soundness of the session set: tokens unique and well-formed.
pub open spec fn sessions_wf(sessions: Seq<Session>) -> bool {
    unique_tokens(sessions) && forall|i: int|
        0 <= i < sessions.len() ==> token_wf(#[trigger] sessions[i].token@)
}

/// Some account matches the presented username and password.
pub open spec fn credentials_valid(users: Seq<User>, username: Seq<char>, password: Seq<char>) -> bool {
    exists|i: int|
        0 <= i < users.len() && users[i].username@ == username && users[i].password@ == password
}

/// The index of the matching account; meaningful under
/// `credentials_valid`.
pub open spec fn credential_index(users: Seq<User>, username: Seq<char>, password: Seq<char>) -> int {
    choose|i: int|
        0 <= i < users.len() && users[i].username@ == username && users[i].password@ == password
}

/// The id of the matching account; meaningful under `credentials_valid`.
pub open spec fn credential_user(users: Seq<User>, username: Seq<char>, password: Seq<char>) -> u64 {
    users[credential_index(users, username, password)].id
}

/// Under unique usernames, the account found at `i` is the account the
/// credentials resolve to.
pub proof fn lemma_credential_at(users: Seq<User>, i: int, username: Seq<char>, password: Seq<char>)
    requires
        unique_names(users),
        0 <= i < users.len(),
        users[i].username@ == username,
        users[i].password@ == password,
    ensures
        credentials_valid(users, username, password),
        credential_user(users, username, password) == users[i].id,
{
    assert(credentials_valid(users, username, password));
    let j = credential_index(users, username, password);
    assert(0 <= j < users.len() && users[j].username@ == username);
    if i < j {
        assert(users[i].spec_name() != users[j].spec_name());
    } else if j < i {
        assert(users[j].spec_name() != users[i].spec_name());
    }
}

/// Under unique tokens, the session found at `i` is the session the
/// token resolves to.
pub proof fn lemma_token_at(sessions: Seq<Session>, i: int)
    requires
        unique_tokens(sessions),
        0 <= i < sessions.len(),
    ensures
        has_token(sessions, sessions[i].token@),
        token_index(sessions, sessions[i].token@) == i,
        token_user(sessions, sessions[i].token@) == sessions[i].user,
{
    let t = sessions[i].token@;
    assert(has_token(sessions, t));
    let j = token_index(sessions, t);
    assert(0 <= j < sessions.len() && sessions[j].token@ == t);
    if i < j {
        assert(sessions[i].token@ != sessions[j].token@);
    } else if j < i {
        assert(sessions[j].token@ != sessions[i].token@);
    }
}

/// What removing session `i` does to token lookups.
pub proof fn lemma_session_remove_effects(s0: Seq<Session>, i: int)
    requires
        sessions_wf(s0),
        0 <= i < s0.len(),
    ensures
        sessions_wf(s0.remove(i)),
        !has_token(s0.remove(i), s0[i].token@),
        forall|t: Seq<char>|
            t != s0[i].token@ ==> (has_token(s0.remove(i), t) <==> has_token(s0, t)),
{
    let s1 = s0.remove(i);
    s0.remove_ensures(i);
    assert forall|j: int| 0 <= j < s1.len() implies #[trigger] s1[j] == (if j < i {
        s0[j]
    } else {
        s0[j + 1]
    }) by {}
    assert forall|a: int, b: int| 0 <= a < b < s1.len() implies #[trigger] s1[a].token@
        != #[trigger] s1[b].token@ by {
        let a0 = if a < i { a } else { a + 1 };
        let b0 = if b < i { b } else { b + 1 };
        assert(s1[a] == s0[a0] && s1[b] == s0[b0]);
        assert(a0 < b0);
    }
    assert forall|j: int| 0 <= j < s1.len() implies token_wf(#[trigger] s1[j].token@) by {
        let j0 = if j < i { j } else { j + 1 };
        assert(s1[j] == s0[j0]);
    }
    assert forall|j: int| 0 <= j < s1.len() implies #[trigger] s1[j].token@ != s0[i].token@ by {
        let j0 = if j < i { j } else { j + 1 };
        assert(s1[j] == s0[j0]);
        if j0 < i {
            assert(s0[j0].token@ != s0[i].token@);
        } else {
            assert(s0[i].token@ != s0[j0].token@);
        }
    }
    assert forall|t: Seq<char>| t != s0[i].token@ && has_token(s0, t) implies has_token(s1, t) by {
        let j0 = choose|j: int| 0 <= j < s0.len() && s0[j].token@ == t;
        assert(j0 != i);
        if j0 < i {
            assert(s1[j0] == s0[j0]);
        } else {
            assert(s1[j0 - 1] == s0[j0]);
        }
    }
}

/// Is the presented token representation well-formed: exactly the
/// issued length, only alphanumeric ASCII?
pub fn token_well_formed(token: &String) -> (r: bool)
    ensures
        r == token_wf(token@),
{
    let s = token.as_str();
    let n = s.unicode_len();
    if n != TOKEN_LEN {
        return false;
    }
    let mut i: usize = 0;
    while i < n
        invariant
            i <= n,
            n == token@.len(),
            s@ == token@,
            forall|k: int| 0 <= k < i ==> is_token_char(#[trigger] token@[k]),
        decreases n - i,
    {
        let c = s.get_char(i);
        let v = c as u32;
        if !((48 <= v && v <= 57) || (65 <= v && v <= 90) || (97 <= v && v <= 122)) {
            return false;
        }
        i = i + 1;
    }
    true
}

impl Catalog {
    /// Looks an account up by username and password; the one credential
    /// check of authentication.
    fn find_user(&self, username: &String, password: &String) -> (r: Option<u64>)
        requires
            self.wf(),
        ensures
            r is Some <==> credentials_valid(self@.users, username@, password@),
            r is Some ==> r->Some_0 == credential_user(self@.users, username@, password@),
    {
        let n = self.users.rows.len();
        let mut i: usize = 0;
        while i < n
            invariant
                self.wf(),
                n == self@.users.len(),
                i <= n,
                forall|k: int|
                    0 <= k < i ==> !(#[trigger] self@.users[k].username@ == username@
                        && self@.users[k].password@ == password@),
            decreases n - i,
        {
            if self.users.rows[i].username == *username && self.users.rows[i].password
                == *password {
                proof {
                    lemma_credential_at(self@.users, i as int, username@, password@);
                }
                return Option::Some(self.users.rows[i].id);
            }
            i = i + 1;
        }
        Option::None
    }

    /// Looks a token up among the live sessions.
    fn find_session(&self, token: &String) -> (r: Option<usize>)
        ensures
            match r {
                Option::Some(i) => i < self@.sessions.len() && self@.sessions[i as int].token@
                    == token@,
                Option::None => !has_token(self@.sessions, token@),
            },
    {
        let n = self.sessions.len();
        let mut i: usize = 0;
        while i < n
            invariant
                n == self@.sessions.len(),
                i <= n,
                forall|k: int| 0 <= k < i ==> #[trigger] self@.sessions[k].token@ != token@,
            decreases n - i,
        {
            if self.sessions[i].token == *token {
                return Option::Some(i);
            }
            i = i + 1;
        }
        Option::None
    }

    /// Inserts a session for the token unless the token is malformed or
    /// already live; the single collision-checked persistence step of
    /// authentication. Returns whether the session was inserted.
    pub fn try_issue_session(&mut self, user: u64, token: String) -> (r: bool)
        requires
            old(self).wf(),
        ensures
            final(self).wf(),
            r == (token_wf(token@) && !has_token(old(self)@.sessions, token@)),
            r ==> final(self)@ == (CatalogView {
                sessions: old(self)@.sessions.push(Session { token, user }),
                ..old(self)@
            }),
            !r ==> final(self)@ == old(self)@,
    {
        if !token_well_formed(&token) {
            return false;
        }
        match self.find_session(&token) {
            Option::Some(i) => {
                proof {
                    assert(has_token(self@.sessions, token@));
                }
                false
            },
            Option::None => {
                proof {
                    let s0 = self@.sessions;
                    let s1 = s0.push(Session { token: token, user });
                    assert forall|a: int, b: int| 0 <= a < b < s1.len() implies #[trigger] s1[a].token@
                        != #[trigger] s1[b].token@ by {
                        if b < s0.len() {
                            assert(s1[a] == s0[a] && s1[b] == s0[b]);
                        } else {
                            assert(s1[a] == s0[a]);
                            if s0[a].token@ == token@ {
                                assert(has_token(s0, token@));
                            }
                        }
                    }
                    assert forall|j: int| 0 <= j < s1.len() implies token_wf(
                        #[trigger] s1[j].token@,
                    ) by {
                        if j < s0.len() {
                            assert(s1[j] == s0[j]);
                        }
                    }
                }
                self.sessions.push(Session { token, user });
                true
            },
        }
    }

    /// Authenticates by username and password. On success a fresh token
    /// is drawn, re-drawn while it collides with a live session
    /// (bounded by entropy), persisted, and returned. Bad credentials
    /// are `Unauthorized`; exhausted draws are `Internal`.
    pub fn authenticate(&mut self, username: &String, password: &String) -> (r: Result<
        String,
        ApiError,
    >)
        requires
            old(self).wf(),
        ensures
            final(self).wf(),
            match r {
                Result::Ok(token) => credentials_valid(old(self)@.users, username@, password@)
                    && token_wf(token@) && !has_token(old(self)@.sessions, token@) && final(self)@
                    == (CatalogView {
                    sessions: old(self)@.sessions.push(
                        Session {
                            token,
                            user: credential_user(old(self)@.users, username@, password@),
                        },
                    ),
                    ..old(self)@
                }),
                Result::Err(e) => final(self)@ == old(self)@ && match e {
                    ApiError::Unauthorized => !credentials_valid(
                        old(self)@.users,
                        username@,
                        password@,
                    ),
                    ApiError::Internal => credentials_valid(old(self)@.users, username@, password@),
                    _ => false,
                },
            },
    {
        let user = match self.find_user(username, password) {
            Option::Some(u) => u,
            Option::None => {
                return Result::Err(ApiError::Unauthorized);
            },
        };
        let mut draws: u64 = 0;
        while draws < MAX_TOKEN_DRAWS
            invariant
                self@ == old(self)@,
                self.wf(),
                credentials_valid(old(self)@.users, username@, password@),
                user == credential_user(old(self)@.users, username@, password@),
            decreases MAX_TOKEN_DRAWS - draws,
        {
            let token = random_token();
            let issued = token.clone();
            if self.try_issue_session(user, token) {
                return Result::Ok(issued);
            }
            draws = draws + 1;
        }
        Result::Err(ApiError::Internal)
    }

    /// Validates a presented token: malformed representations are
    /// `BadRequest` before any lookup; an unknown token is
    /// `Unauthorized`, indistinguishably of why it is unknown. Returns
    /// the session the token belongs to.
    pub fn validate(&self, token: &String) -> (r: Result<&Session, ApiError>)
        requires
            self.wf(),
        ensures
            match r {
                Result::Ok(session) => token_wf(token@) && has_token(self@.sessions, token@)
                    && *session == self@.sessions[token_index(self@.sessions, token@)]
                    && session.user == token_user(self@.sessions, token@),
                Result::Err(e) => match e {
                    ApiError::BadRequest => !token_wf(token@),
                    ApiError::Unauthorized => token_wf(token@) && !has_token(
                        self@.sessions,
                        token@,
                    ),
                    _ => false,
                },
            },
    {
        if !token_well_formed(token) {
            return Result::Err(ApiError::BadRequest);
        }
        match self.find_session(token) {
            Option::Some(i) => {
                proof {
                    lemma_token_at(self@.sessions, i as int);
                }
                Result::Ok(&self.sessions[i])
            },
            Option::None => Result::Err(ApiError::Unauthorized),
        }
    }

    /// Revokes a live session. A malformed token is `BadRequest`; an
    /// unknown or already-revoked token is `Unauthorized`, and nothing
    /// is mutated then. A revoked token never validates again.
    pub fn revoke(&mut self, token: &String) -> (r: Result<(), ApiError>)
        requires
            old(self).wf(),
        ensures
            final(self).wf(),
            match r {
                Result::Ok(()) => token_wf(token@) && has_token(old(self)@.sessions, token@)
                    && final(self)@ == (CatalogView {
                    sessions: old(self)@.sessions.remove(token_index(old(self)@.sessions, token@)),
                    ..old(self)@
                }) && !has_token(final(self)@.sessions, token@) && forall|t: Seq<char>|
                    t != token@ ==> (has_token(final(self)@.sessions, t) <==> has_token(
                        old(self)@.sessions,
                        t,
                    )),
                Result::Err(e) => final(self)@ == old(self)@ && match e {
                    ApiError::BadRequest => !token_wf(token@),
                    ApiError::Unauthorized => token_wf(token@) && !has_token(
                        old(self)@.sessions,
                        token@,
                    ),
                    _ => false,
                },
            },
    {
        if !token_well_formed(token) {
            return Result::Err(ApiError::BadRequest);
        }
        match self.find_session(token) {
            Option::Some(i) => {
                proof {
                    lemma_token_at(self@.sessions, i as int);
                    lemma_session_remove_effects(self@.sessions, i as int);
                }
                self.sessions.remove(i);
                Result::Ok(())
            },
            Option::None => Result::Err(ApiError::Unauthorized),
        }
    }
}

} // verus!
