//! The user directory: a table of accounts unique by id, name and email,
//! together with registration, authentication and deletion.

pub mod util;

use vstd::prelude::*;
use vstd::string::StringSliceAdditionalSpecFns;
use crate::auth::{DeleteUserForm, SignInForm, SignUpForm};
use crate::hash;
use crate::hash::argon2_verify_result;
use self::util::{
    credentials_error_cause, email_error_cause, email_len_ok, email_shape_ok, password_len_ok,
    username_len_ok, validate_credentials, validate_email,
};

verus! {

/// One stored account.
#[derive(Debug)]
pub struct User {
    pub id: u32,
    pub name: String,
    pub email: String,
    pub password_hash: String,
    pub language_code: Option<String>,
    pub role: u8,
    pub status: Option<String>,
}

impl Clone for User {
    fn clone(&self) -> (r: User)
        ensures
            r == *self,
    {
        User {
            id: self.id,
            name: self.name.clone(),
            email: self.email.clone(),
            password_hash: self.password_hash.clone(),
            language_code: match &self.language_code {
                Some(s) => Some(s.clone()),
                None => None,
            },
            role: self.role,
            status: match &self.status {
                Some(s) => Some(s.clone()),
                None => None,
            },
        }
    }
}

/// The class of a database error.
#[derive(Clone, Copy, Debug, PartialEq, Eq, Structural)]
pub enum DbErrorType {
    BadRequest,
    Unauthorized,
    InternalServerError,
}

/// A database error: its class and a cause for the client.
#[derive(Debug)]
pub struct DbError {
    pub err_type: DbErrorType,
    pub cause: String,
}

/// Some stored account carries this name.
pub open spec fn contains_name(s: Seq<User>, n: Seq<char>) -> bool {
    exists|i: int| 0 <= i < s.len() && s[i].name@ == n
}

/// Some stored account carries this email address.
pub open spec fn contains_email(s: Seq<User>, e: Seq<char>) -> bool {
    exists|i: int| 0 <= i < s.len() && s[i].email@ == e
}

/// Some stored account carries this id.
pub open spec fn contains_id(s: Seq<User>, id: u32) -> bool {
    exists|i: int| 0 <= i < s.len() && s[i].id == id
}

/// The stored account carrying this name; meaningful only when
/// `contains_name` holds and names are unique.
pub open spec fn user_named(s: Seq<User>, n: Seq<char>) -> User {
    s[choose|i: int| 0 <= i < s.len() && s[i].name@ == n]
}

/// The stored account carrying this email address; meaningful only when
/// `contains_email` holds and email addresses are unique.
pub open spec fn user_with_email(s: Seq<User>, e: Seq<char>) -> User {
    s[choose|i: int| 0 <= i < s.len() && s[i].email@ == e]
}

/// The account with this email address is the one at position `i`.
pub proof fn lemma_user_with_email_unique(s: Seq<User>, e: Seq<char>, i: int)
    requires
        users_unique(s),
        0 <= i < s.len(),
        s[i].email@ == e,
        e.len() > 0,
    ensures
        contains_email(s, e),
        user_with_email(s, e) == s[i],
{
    assert(contains_email(s, e));
    let j = choose|j: int| 0 <= j < s.len() && s[j].email@ == e;
    if j < i {
        assert(s[j].email@ != s[i].email@);
    } else if i < j {
        assert(s[i].email@ != s[j].email@);
    }
}

/// No two stored accounts share an id or a name, and no two share a
/// non-empty email address; accounts registered without one hold the
/// empty string there.
pub open spec fn users_unique(s: Seq<User>) -> bool {
    forall|i: int, j: int|
        0 <= i < j < s.len() ==> s[i].id != s[j].id && s[i].name@ != s[j].name@ && (s[i].email@
            != s[j].email@ || s[i].email@.len() == 0)
}

/// The user directory. A relational store of accounts in which id, name
/// and email are each unique.
pub struct UserDirectory {
    users: Vec<User>,
}

impl UserDirectory {
    /// The stored accounts, in insertion order.
    pub closed spec fn view(&self) -> Seq<User> {
        self.users@
    }

    /// The directory's invariant: ids, names and email addresses unique.
    pub open spec fn wf(&self) -> bool {
        users_unique(self@)
    }

    /// An empty directory.
    pub fn new() -> (r: UserDirectory)
        ensures
            r@ == Seq::<User>::empty(),
            r.wf(),
    {
        UserDirectory { users: Vec::new() }
    }

    /// How many accounts are stored.
    pub fn len(&self) -> (n: usize)
        ensures
            n == self@.len(),
    {
        self.users.len()
    }

    /// Finds the position of the account with this name.
    pub(crate) fn find_index_by_name(&self, name: &str) -> (r: Option<usize>)
        ensures
            match r {
                Some(i) => i < self@.len() && self@[i as int].name@ == name@,
                None => !contains_name(self@, name@),
            },
    {
        let n = self.users.len();
        let mut i: usize = 0;
        while i < n
            invariant
                n == self@.len(),
                i <= n,
                forall|k: int| 0 <= k < i ==> self@[k].name@ != name@,
            decreases n - i,
        {
            if crate::strutil::str_eq(self.users[i].name.as_str(), name) {
                return Some(i);
            }
            i += 1;
        }
        None
    }

    /// Finds the position of the account with this email address.
    pub(crate) fn find_index_by_email(&self, email: &str) -> (r: Option<usize>)
        ensures
            match r {
                Some(i) => i < self@.len() && self@[i as int].email@ == email@,
                None => !contains_email(self@, email@),
            },
    {
        let n = self.users.len();
        let mut i: usize = 0;
        while i < n
            invariant
                n == self@.len(),
                i <= n,
                forall|k: int| 0 <= k < i ==> self@[k].email@ != email@,
            decreases n - i,
        {
            if crate::strutil::str_eq(self.users[i].email.as_str(), email) {
                return Some(i);
            }
            i += 1;
        }
        None
    }

    /// The account at position `i`.
    pub(crate) fn get_user(&self, i: usize) -> (r: &User)
        requires
            i < self@.len(),
        ensures
            *r == self@[i as int],
    {
        &self.users[i]
    }

    /// Appends an account whose id and name are fresh, and whose email
    /// is fresh or empty.
    pub(crate) fn push_new_user(&mut self, u: User)
        requires
            old(self).wf(),
            !contains_name(old(self)@, u.name@),
            !contains_id(old(self)@, u.id),
            u.email@.len() == 0 || !contains_email(old(self)@, u.email@),
        ensures
            final(self).wf(),
            final(self)@ == old(self)@.push(u),
    {
        let ghost old_users = self@;
        self.users.push(u);
        proof {
            assert forall|i: int, j: int| 0 <= i < j < self@.len() implies self@[i].id
                != self@[j].id && self@[i].name@ != self@[j].name@ && (self@[i].email@
                != self@[j].email@ || self@[i].email@.len() == 0) by {
                if j < old_users.len() {
                } else {
                    assert(self@[j] == u);
                    assert(self@[i] == old_users[i]);
                    if self@[i].name@ == u.name@ {
                        assert(contains_name(old_users, u.name@));
                    }
                    if self@[i].id == u.id {
                        assert(contains_id(old_users, u.id));
                    }
                    if u.email@.len() != 0 && self@[i].email@ == u.email@ {
                        assert(contains_email(old_users, u.email@));
                    }
                }
            }
        }
    }

    /// Whether some account carries this id.
    pub(crate) fn contains_id_exec(&self, id: u32) -> (b: bool)
        ensures
            b == contains_id(self@, id),
    {
        let n = self.users.len();
        let mut i: usize = 0;
        while i < n
            invariant
                n == self@.len(),
                i <= n,
                forall|k: int| 0 <= k < i ==> self@[k].id != id,
            decreases n - i,
        {
            if self.users[i].id == id {
                return true;
            }
            i += 1;
        }
        false
    }
}

/// Relies on `rand::random`: a value drawn from the standard distribution.
pub assume_specification<T>[ rand::random::<T> ]() -> (r: T)
    where
        rand::distributions::Standard: rand::distributions::Distribution<T>,
;

/// The account with this name is the one at position `i`.
pub proof fn lemma_user_named_unique(s: Seq<User>, n: Seq<char>, i: int)
    requires
        users_unique(s),
        0 <= i < s.len(),
        s[i].name@ == n,
    ensures
        contains_name(s, n),
        user_named(s, n) == s[i],
{
    assert(contains_name(s, n));
    let j = choose|j: int| 0 <= j < s.len() && s[j].name@ == n;
    if j < i {
        assert(s[j].name@ != s[i].name@);
    } else if i < j {
        assert(s[i].name@ != s[j].name@);
    }
}

/// How a sign-in request is answered, given the stored accounts, the
/// session counts, and the form's name and password.
pub open spec fn spec_authenticate(
    s: Seq<User>,
    counts: Seq<(u32, u32)>,
    name: Seq<char>,
    password: Seq<char>,
) -> Result<User, (DbErrorType, Seq<char>)> {
    if !(username_len_ok(name) && password_len_ok(password)) {
        Err((DbErrorType::BadRequest, credentials_error_cause(name, password)))
    } else if !contains_name(s, name) {
        Err((DbErrorType::Unauthorized, "unable to locate user"@))
    } else if contains_count(counts, user_named(s, name).id) && count_of(
        counts,
        user_named(s, name).id,
    ) > 4 {
        Err((DbErrorType::Unauthorized, "you have too many active sessions"@))
    } else {
        match argon2_verify_result(
            user_named(s, name).password_hash@,
            vstd::utf8::encode_utf8(password),
        ) {
            None => Err((DbErrorType::InternalServerError, "Failed to verify password"@)),
            Some(false) => Err((DbErrorType::Unauthorized, "wrong password"@)),
            Some(true) => Ok(user_named(s, name)),
        }
    }
}

/// An executable result agrees with a spec-level outcome.
pub open spec fn db_result_matches(
    r: Result<User, DbError>,
    m: Result<User, (DbErrorType, Seq<char>)>,
) -> bool {
    match (r, m) {
        (Ok(u), Ok(mu)) => u == mu,
        (Err(e), Err((t, c))) => e.err_type == t && e.cause@ == c,
        _ => false,
    }
}

/// Validates a sign-in form against the directory and returns the stored
/// account on success.
///
/// The outcome is exactly `spec_authenticate`: bad lengths are rejected
/// first, then an unknown name, then too many active sessions, and last
/// the password comparison.
pub fn authenticate_user(data: &SignInForm, dir: &UserDirectory, sessions: &LoginCount) -> (r:
    Result<User, DbError>)
    requires
        dir.wf(),
        sessions.wf(),
    ensures
        db_result_matches(
            r,
            spec_authenticate(dir@, sessions@, data.user_name@, data.password@),
        ),
{
    if let Err(e) = validate_credentials(data.user_name.as_str(), data.password.as_str()) {
        return Err(e);
    }
    let i = match dir.find_index_by_name(data.user_name.as_str()) {
        Some(i) => i,
        None => {
            return Err(
                DbError {
                    err_type: DbErrorType::Unauthorized,
                    cause: String::from_str("unable to locate user"),
                },
            );
        },
    };
    proof {
        lemma_user_named_unique(dir@, data.user_name@, i as int);
    }
    let user = dir.get_user(i);
    if let Some(count) = sessions.get(user.id) {
        if count > 4 {
            return Err(
                DbError {
                    err_type: DbErrorType::Unauthorized,
                    cause: String::from_str("you have too many active sessions"),
                },
            );
        }
    }
    match hash::compare_passwords(data.password.as_str().as_bytes(), user.password_hash.as_str()) {
        Err(_) => Err(
            DbError {
                err_type: DbErrorType::InternalServerError,
                cause: String::from_str("Failed to verify password"),
            },
        ),
        Ok(false) => Err(
            DbError {
                err_type: DbErrorType::Unauthorized,
                cause: String::from_str("wrong password"),
            },
        ),
        Ok(true) => Ok(user.clone()),
    }
}

/// The rejection, if any, that a sign-up form earns before an account is
/// created: validation first, then the two distinguishable conflicts.
pub open spec fn spec_add_user_error(
    s: Seq<User>,
    name: Seq<char>,
    password: Seq<char>,
    email: Seq<char>,
) -> Option<(DbErrorType, Seq<char>)> {
    if !(username_len_ok(name) && password_len_ok(password)) {
        Some((DbErrorType::BadRequest, credentials_error_cause(name, password)))
    } else if !(email_len_ok(email) && email_shape_ok(email)) {
        Some((DbErrorType::BadRequest, email_error_cause(email)))
    } else if contains_name(s, name) {
        Some((DbErrorType::BadRequest, "user name is already taken!"@))
    } else if contains_email(s, email) {
        Some((DbErrorType::BadRequest, "email address is already taken!"@))
    } else {
        None
    }
}

/// Registers a new account.
///
/// The name and password lengths and the email shape are checked first; a
/// name or email already stored is a conflict, and the two conflicts are
/// reported apart. A fresh account gets an id used by nobody else, role 0,
/// and a salted hash of the password; the directory grows by exactly that
/// account. A validated password always hashes, so only the random id
/// allocation can fail internally, and the directory is unchanged on
/// every error.
pub fn add_user(data: &SignUpForm, dir: &mut UserDirectory) -> (r: Result<User, DbError>)
    requires
        old(dir).wf(),
    ensures
        final(dir).wf(),
        match spec_add_user_error(old(dir)@, data.user_name@, data.password@, data.email@) {
            Some((t, c)) => final(dir)@ == old(dir)@ && (r matches Err(e) && e.err_type == t
                && e.cause@ == c),
            None => match r {
                Ok(u) => {
                    &&& final(dir)@ == old(dir)@.push(u)
                    &&& u.name@ == data.user_name@
                    &&& u.email@ == data.email@
                    &&& u.role == 0
                    &&& u.language_code is None
                    &&& u.status is None
                    &&& !contains_id(old(dir)@, u.id)
                    &&& argon2_verify_result(
                        u.password_hash@,
                        vstd::utf8::encode_utf8(data.password@),
                    ) == Some(true)
                },
                Err(e) => final(dir)@ == old(dir)@ && e.err_type
                    == DbErrorType::InternalServerError && e.cause@
                    == "unable to allocate a user id"@,
            },
        },
{
    if let Err(e) = validate_credentials(data.user_name.as_str(), data.password.as_str()) {
        return Err(e);
    }
    if let Err(e) = validate_email(data.email.as_str()) {
        return Err(e);
    }
    proof {
        // a validated password has at most 32 characters, so its UTF-8
        // form fits the hash function's input bound and hashing succeeds
        hash::lemma_encode_utf8_len(data.password@);
    }
    if dir.find_index_by_name(data.user_name.as_str()).is_some() {
        return Err(
            DbError {
                err_type: DbErrorType::BadRequest,
                cause: String::from_str("user name is already taken!"),
            },
        );
    }
    if dir.find_index_by_email(data.email.as_str()).is_some() {
        return Err(
            DbError {
                err_type: DbErrorType::BadRequest,
                cause: String::from_str("email address is already taken!"),
            },
        );
    }
    // Draw fresh random ids until one is unused; give up only if the id
    // space looks exhausted.
    let mut candidate: Option<u32> = None;
    let mut attempts: u32 = 0;
    while attempts < 100 && candidate.is_none()
        invariant
            candidate matches Some(id) ==> !contains_id(dir@, id),
        decreases 100 - attempts,
    {
        let c: u32 = rand::random();
        if !dir.contains_id_exec(c) {
            candidate = Some(c);
        }
        attempts += 1;
    }
    let id = match candidate {
        Some(id) => id,
        None => {
            return Err(
                DbError {
                    err_type: DbErrorType::InternalServerError,
                    cause: String::from_str("unable to allocate a user id"),
                },
            );
        },
    };
    let password_hash = match hash::from_password(data.password.as_str()) {
        Ok(h) => h,
        Err(_) => {
            return Err(
                DbError {
                    err_type: DbErrorType::InternalServerError,
                    cause: String::from_str("Failed to create hash"),
                },
            );
        },
    };
    let user = User {
        id,
        name: data.user_name.clone(),
        email: data.email.clone(),
        password_hash,
        language_code: None,
        role: 0,
        status: None,
    };
    let result = user.clone();
    dir.push_new_user(user);
    Ok(result)
}

/// How an account-deletion request is answered: validation, then lookup,
/// then the password comparison.
pub open spec fn spec_delete_outcome(
    s: Seq<User>,
    name: Seq<char>,
    password: Seq<char>,
) -> Result<User, (DbErrorType, Seq<char>)> {
    if !(username_len_ok(name) && password_len_ok(password)) {
        Err((DbErrorType::BadRequest, credentials_error_cause(name, password)))
    } else if !contains_name(s, name) {
        Err((DbErrorType::Unauthorized, "unable to locate user"@))
    } else {
        match argon2_verify_result(
            user_named(s, name).password_hash@,
            vstd::utf8::encode_utf8(password),
        ) {
            None => Err((DbErrorType::InternalServerError, "Failed to verify password"@)),
            Some(false) => Err((DbErrorType::Unauthorized, "wrong password"@)),
            Some(true) => Ok(user_named(s, name)),
        }
    }
}

/// Deletes an account after re-authenticating it with its current
/// password; the caller must also purge the account's storage root.
///
/// On success the returned account has left the directory and nothing
/// else changed; on every error the directory is unchanged.
pub fn delete_user(data: &DeleteUserForm, dir: &mut UserDirectory) -> (r: Result<User, DbError>)
    requires
        old(dir).wf(),
    ensures
        final(dir).wf(),
        db_result_matches(r, spec_delete_outcome(old(dir)@, data.user_name@, data.password@)),
        match spec_delete_outcome(old(dir)@, data.user_name@, data.password@) {
            Ok(u) => exists|i: int|
                0 <= i < old(dir)@.len() && old(dir)@[i] == u && final(dir)@ == old(dir)@.remove(
                    i,
                ),
            Err(_) => final(dir)@ == old(dir)@,
        },
{
    if let Err(e) = validate_credentials(data.user_name.as_str(), data.password.as_str()) {
        return Err(e);
    }
    let i = match dir.find_index_by_name(data.user_name.as_str()) {
        Some(i) => i,
        None => {
            return Err(
                DbError {
                    err_type: DbErrorType::Unauthorized,
                    cause: String::from_str("unable to locate user"),
                },
            );
        },
    };
    proof {
        lemma_user_named_unique(dir@, data.user_name@, i as int);
    }
    let verdict = {
        let user = dir.get_user(i);
        hash::compare_passwords(data.password.as_str().as_bytes(), user.password_hash.as_str())
    };
    match verdict {
        Err(_) => Err(
            DbError {
                err_type: DbErrorType::InternalServerError,
                cause: String::from_str("Failed to verify password"),
            },
        ),
        Ok(false) => Err(
            DbError {
                err_type: DbErrorType::Unauthorized,
                cause: String::from_str("wrong password"),
            },
        ),
        Ok(true) => {
            let ghost old_users = dir@;
            let removed = dir.users.remove(i);
            proof {
                assert forall|a: int, b: int|
                    0 <= a < b < dir@.len() implies dir@[a].id != dir@[b].id && dir@[a].name@
                    != dir@[b].name@ && (dir@[a].email@ != dir@[b].email@ || dir@[a].email@.len()
                    == 0) by {
                    let a0 = if a < i { a } else { a + 1 };
                    let b0 = if b < i { b } else { b + 1 };
                    assert(dir@[a] == old_users[a0]);
                    assert(dir@[b] == old_users[b0]);
                }
            }
            Ok(removed)
        },
    }
}

/// In-memory session counting: a map from user id to the number of
/// active sessions, with unique keys.
pub struct LoginCount {
    counts: Vec<(u32, u32)>,
}

/// Some entry carries this user id.
pub open spec fn contains_count(s: Seq<(u32, u32)>, id: u32) -> bool {
    exists|i: int| 0 <= i < s.len() && s[i].0 == id
}

/// The position of the entry carrying this user id.
pub open spec fn count_index(s: Seq<(u32, u32)>, id: u32) -> int {
    choose|i: int| 0 <= i < s.len() && s[i].0 == id
}

/// The count stored for this user id; meaningful only when
/// `contains_count` holds and keys are unique.
pub open spec fn count_of(s: Seq<(u32, u32)>, id: u32) -> u32 {
    s[choose|i: int| 0 <= i < s.len() && s[i].0 == id].1
}

impl LoginCount {
    /// The stored entries.
    pub closed spec fn view(&self) -> Seq<(u32, u32)> {
        self.counts@
    }

    /// The counter's invariant: one entry per user id.
    pub open spec fn wf(&self) -> bool {
        forall|i: int, j: int| 0 <= i < j < self@.len() ==> self@[i].0 != self@[j].0
    }

    /// An empty counter.
    pub fn new() -> (r: LoginCount)
        ensures
            r@ == Seq::<(u32, u32)>::empty(),
            r.wf(),
    {
        LoginCount { counts: Vec::new() }
    }

    /// The number of active sessions recorded for this user id.
    pub fn get(&self, id: u32) -> (r: Option<u32>)
        requires
            self.wf(),
        ensures
            match r {
                Some(c) => contains_count(self@, id) && c == count_of(self@, id),
                None => !contains_count(self@, id),
            },
    {
        let n = self.counts.len();
        let mut i: usize = 0;
        while i < n
            invariant
                self.wf(),
                n == self@.len(),
                i <= n,
                forall|k: int| 0 <= k < i ==> self@[k].0 != id,
            decreases n - i,
        {
            if self.counts[i].0 == id {
                proof {
                    let j = choose|j: int| 0 <= j < self@.len() && self@[j].0 == id;
                    if j < i as int {
                        assert(self@[j].0 != self@[i as int].0);
                    } else if (i as int) < j {
                        assert(self@[i as int].0 != self@[j].0);
                    }
                }
                return Some(self.counts[i].1);
            }
            i += 1;
        }
        None
    }

    /// Records one more active session for this user id; a count already
    /// at the ceiling stays there.
    pub fn increment(&mut self, id: u32)
        requires
            old(self).wf(),
        ensures
            final(self).wf(),
            ({
                let v = old(self)@;
                if contains_count(v, id) {
                    final(self)@ == v.update(
                        count_index(v, id),
                        (
                            id,
                            if count_of(v, id) < u32::MAX {
                                (count_of(v, id) + 1) as u32
                            } else {
                                count_of(v, id)
                            },
                        ),
                    )
                } else {
                    final(self)@ == v.push((id, 1u32))
                }
            }),
    {
        let ghost old_view = self@;
        let n = self.counts.len();
        let mut i: usize = 0;
        while i < n
            invariant
                old_view == old(self)@,
                old_view == self@,
                self.wf(),
                n == self@.len(),
                i <= n,
                forall|k: int| 0 <= k < i ==> self@[k].0 != id,
            decreases n - i,
        {
            if self.counts[i].0 == id {
                proof {
                    lemma_count_index_unique(old_view, id, i as int);
                }
                let c = self.counts[i].1;
                let c2 = if c < u32::MAX {
                    c + 1
                } else {
                    c
                };
                self.counts.set(i, (id, c2));
                proof {
                    assert(self@ =~= old_view.update(i as int, (id, c2)));
                    assert forall|a: int, b: int| 0 <= a < b < self@.len() implies self@[a].0
                        != self@[b].0 by {
                        assert(self@[a].0 == old_view[a].0);
                        assert(self@[b].0 == old_view[b].0);
                    }
                }
                return ;
            }
            i += 1;
        }
        self.counts.push((id, 1));
        proof {
            assert(self@ =~= old_view.push((id, 1u32)));
            assert forall|a: int, b: int| 0 <= a < b < self@.len() implies self@[a].0
                != self@[b].0 by {
                if b < old_view.len() {
                } else {
                    assert(self@[b].0 == id);
                    assert(self@[a] == old_view[a]);
                }
            }
        }
    }
}

/// The counter entry carrying `id` is the one at position `i`.
proof fn lemma_count_index_unique(s: Seq<(u32, u32)>, id: u32, i: int)
    requires
        forall|a: int, b: int| 0 <= a < b < s.len() ==> s[a].0 != s[b].0,
        0 <= i < s.len(),
        s[i].0 == id,
    ensures
        contains_count(s, id),
        count_of(s, id) == s[i].1,
{
    assert(contains_count(s, id));
    let j = choose|j: int| 0 <= j < s.len() && s[j].0 == id;
    if j < i {
        assert(s[j].0 != s[i].0);
    } else if i < j {
        assert(s[i].0 != s[j].0);
    }
}

} // verus!
