//! Authentication endpoints of the v1 API: registration and login over
//! the user directory, with the same account store underneath.

use vstd::prelude::*;
use vstd::string::StringSliceAdditionalSpecFns;
use crate::errors::ServiceError;
use crate::errors::ServiceResult;
use crate::database::users::{
    contains_email, contains_name, lemma_user_named_unique, lemma_user_with_email_unique,
    user_named, user_with_email, User, UserDirectory,
};
use crate::database::users::util::{email_len_ok, email_shape_ok, password_len_ok, username_len_ok};
use crate::hash;
use crate::hash::argon2_verify_result;
use crate::strutil::contains_char;

verus! {

/// The paths under which authentication serves.
pub struct Auth {
    pub logout: &'static str,
    pub login: &'static str,
    pub register: &'static str,
}

impl Auth {
    /// The route table of the authentication endpoints.
    pub fn new() -> (r: Auth)
        ensures
            r.login@ == "/api/v1/signin"@,
            r.logout@ == "/logout"@,
            r.register@ == "/api/v1/signup"@,
    {
        let login = "/api/v1/signin";
        let logout = "/logout";
        let register = "/api/v1/signup";
        Auth { logout, login, register }
    }
}

/// The body of a registration request.
pub struct Register {
    pub username: String,
    pub password: String,
    pub confirm_password: String,
    pub email: Option<String>,
}

/// The body of a login request. The login field accepts both a user name
/// and an email address.
pub struct Login {
    pub login: String,
    pub password: String,
}

/// A bare password, as sent along with requests that re-authenticate.
pub struct Password {
    pub password: String,
}

/// The rejection, if any, that a registration earns: the two passwords
/// must agree, name and password must have valid lengths, a given email
/// must have a valid shape, and name and email must be free — the two
/// conflicts kept apart.
pub open spec fn spec_register_error(
    s: Seq<User>,
    username: Seq<char>,
    password: Seq<char>,
    confirm: Seq<char>,
    email: Option<Seq<char>>,
) -> Option<ServiceError> {
    if password != confirm {
        Some(ServiceError::PasswordsDontMatch)
    } else if !(username_len_ok(username) && password_len_ok(password)) {
        Some(ServiceError::BadRequest)
    } else if email matches Some(e) && !(email_len_ok(e) && email_shape_ok(e)) {
        Some(ServiceError::NotAnEmail)
    } else if contains_name(s, username) {
        Some(ServiceError::UsernameTaken)
    } else if email matches Some(e) && contains_email(s, e) {
        Some(ServiceError::EmailTaken)
    } else {
        None
    }
}

/// Registers an account from a registration form.
///
/// Succeeds exactly when `spec_register_error` finds nothing wrong and
/// hashing succeeds; the new account carries the form's name and email,
/// role 0, and a salted hash of the password. The directory is unchanged
/// on every error.
pub fn register_runner(payload: &Register, dir: &mut UserDirectory) -> (r: ServiceResult<()>)
    requires
        old(dir).wf(),
    ensures
        final(dir).wf(),
        match spec_register_error(
            old(dir)@,
            payload.username@,
            payload.password@,
            payload.confirm_password@,
            match payload.email {
                Some(e) => Some(e@),
                None => None,
            },
        ) {
            Some(se) => final(dir)@ == old(dir)@ && r == Err::<(), ServiceError>(se),
            None => match r {
                Ok(()) => final(dir)@.len() == old(dir)@.len() + 1 && final(dir)@ == old(
                    dir,
                )@.push(final(dir)@.last()) && final(dir)@.last().name@ == payload.username@
                    && final(dir)@.last().role == 0 && argon2_verify_result(
                    final(dir)@.last().password_hash@,
                    vstd::utf8::encode_utf8(payload.password@),
                ) == Some(true) && (payload.email matches Some(e) ==> final(dir)@.last().email@ == e@),
                Err(e) => final(dir)@ == old(dir)@ && e == ServiceError::InternalServerError,
            },
        },
{
    if !crate::strutil::str_eq(payload.password.as_str(), payload.confirm_password.as_str()) {
        return Err(ServiceError::PasswordsDontMatch);
    }
    if crate::database::users::util::validate_credentials(
        payload.username.as_str(),
        payload.password.as_str(),
    ).is_err() {
        return Err(ServiceError::BadRequest);
    }
    if let Some(email) = &payload.email {
        if crate::database::users::util::validate_email(email.as_str()).is_err() {
            return Err(ServiceError::NotAnEmail);
        }
    }
    if dir.find_index_by_name(payload.username.as_str()).is_some() {
        return Err(ServiceError::UsernameTaken);
    }
    if let Some(email) = &payload.email {
        if dir.find_index_by_email(email.as_str()).is_some() {
            return Err(ServiceError::EmailTaken);
        }
    }
    let email_value = match &payload.email {
        Some(e) => e.clone(),
        None => String::new(),
    };
    let mut candidate: Option<u32> = None;
    let mut attempts: u32 = 0;
    while attempts < 100 && candidate.is_none()
        invariant
            candidate matches Some(id) ==> !crate::database::users::contains_id(dir@, id),
        decreases 100 - attempts,
    {
        let c: u32 = rand::random();
        if !dir.contains_id_exec(c) {
            candidate = Some(c);
        }
        attempts += 1;
    }
    let id = match candidate {
        Some(id) => id,
        None => {
            return Err(ServiceError::InternalServerError);
        },
    };
    let password_hash = match hash::from_password(payload.password.as_str()) {
        Ok(h) => h,
        Err(_) => {
            return Err(ServiceError::InternalServerError);
        },
    };
    let user = User {
        id,
        name: payload.username.clone(),
        email: email_value,
        password_hash,
        language_code: None,
        role: 0,
        status: None,
    };
    dir.push_new_user(user);
    Ok(())
}

/// Registering a user name a second time conflicts: once some stored
/// account carries the name, a registration under it is answered
/// `UsernameTaken`, whatever else a validation-passing form says.
pub proof fn lemma_register_username_conflict(
    s: Seq<User>,
    username: Seq<char>,
    password: Seq<char>,
    email: Option<Seq<char>>,
)
    requires
        username_len_ok(username),
        password_len_ok(password),
        email matches Some(e) ==> email_len_ok(e) && email_shape_ok(e),
        contains_name(s, username),
    ensures
        spec_register_error(s, username, password, password, email) == Some(
            ServiceError::UsernameTaken,
        ),
{
}

/// Registering an email address a second time conflicts: once some
/// stored account carries the address, a registration giving it under a
/// fresh name is answered `EmailTaken`.
pub proof fn lemma_register_email_conflict(
    s: Seq<User>,
    username: Seq<char>,
    password: Seq<char>,
    email: Seq<char>,
)
    requires
        username_len_ok(username),
        password_len_ok(password),
        email_len_ok(email),
        email_shape_ok(email),
        !contains_name(s, username),
        contains_email(s, email),
    ensures
        spec_register_error(s, username, password, password, Some(email)) == Some(
            ServiceError::EmailTaken,
        ),
{
}

/// How a login is answered: lookup by email where the login field holds
/// an `@`, by name otherwise; an unknown identifier is not found, a
/// wrong password is invalid credentials, and success hands the user
/// name back.
pub open spec fn spec_login_outcome(s: Seq<User>, login: Seq<char>, password: Seq<char>) -> Result<
    Seq<char>,
    ServiceError,
> {
    if login.contains('@') {
        if !contains_email(s, login) {
            Err(ServiceError::AccountNotFound)
        } else {
            match argon2_verify_result(
                user_with_email(s, login).password_hash@,
                vstd::utf8::encode_utf8(password),
            ) {
                None => Err(ServiceError::InternalServerError),
                Some(false) => Err(ServiceError::InvalidCredentials),
                Some(true) => Ok(user_with_email(s, login).name@),
            }
        }
    } else {
        if !contains_name(s, login) {
            Err(ServiceError::AccountNotFound)
        } else {
            match argon2_verify_result(
                user_named(s, login).password_hash@,
                vstd::utf8::encode_utf8(password),
            ) {
                None => Err(ServiceError::InternalServerError),
                Some(false) => Err(ServiceError::InvalidCredentials),
                Some(true) => Ok(login),
            }
        }
    }
}

/// Authenticates a login form and returns the account's user name.
pub fn login_runner(payload: &Login, dir: &UserDirectory) -> (r: ServiceResult<String>)
    requires
        dir.wf(),
    ensures
        match (r, spec_login_outcome(dir@, payload.login@, payload.password@)) {
            (Ok(name), Ok(sname)) => name@ == sname,
            (Err(e), Err(se)) => e == se,
            _ => false,
        },
{
    let by_email = contains_char(payload.login.as_str(), '@');
    let i = if by_email {
        match dir.find_index_by_email(payload.login.as_str()) {
            Some(i) => i,
            None => {
                return Err(ServiceError::AccountNotFound);
            },
        }
    } else {
        match dir.find_index_by_name(payload.login.as_str()) {
            Some(i) => i,
            None => {
                return Err(ServiceError::AccountNotFound);
            },
        }
    };
    proof {
        if by_email {
            assert(payload.login@.len() > 0);
            lemma_user_with_email_unique(dir@, payload.login@, i as int);
        } else {
            lemma_user_named_unique(dir@, payload.login@, i as int);
        }
    }
    let user = dir.get_user(i);
    match hash::compare_passwords(
        payload.password.as_str().as_bytes(),
        user.password_hash.as_str(),
    ) {
        Err(_) => Err(ServiceError::InternalServerError),
        Ok(false) => Err(ServiceError::InvalidCredentials),
        Ok(true) => {
            if by_email {
                Ok(user.name.clone())
            } else {
                Ok(payload.login.clone())
            }
        },
    }
}

} // verus!
