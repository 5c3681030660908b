//! Sign-in, sign-up and account deletion: the request forms and the
//! decisions taken on them.

use vstd::prelude::*;
use vstd::string::StringSliceAdditionalSpecFns;
use crate::database::users::{
    spec_add_user_error, spec_authenticate, DbError, DbErrorType, LoginCount, UserDirectory,
    add_user,
    authenticate_user,
};
use crate::jwt;
use crate::jwt::{jwt_decoding, jwt_encoding, Claims, TOKEN_TTL_SECONDS};

verus! {

/// The body of a sign-in request.
pub struct SignInForm {
    pub user_name: String,
    pub password: String,
}

/// The body of a sign-up request.
pub struct SignUpForm {
    pub user_name: String,
    pub password: String,
    pub email: String,
}

/// The body of an account-deletion request. Deletion requires the current
/// password, to keep unprivileged hands off accounts.
pub struct DeleteUserForm {
    pub user_name: String,
    pub password: String,
}

/// Signs a user in: authenticates the form against the directory and, on
/// success, issues a token whose claims carry the user's name, id and
/// role, expiring a fixed TTL after `now`. Authentication succeeding,
/// issuance is owed.
pub fn sign_in(
    form: &SignInForm,
    dir: &UserDirectory,
    sessions: &LoginCount,
    secret: &str,
    now: u64,
) -> (r: Result<String, DbError>)
    requires
        dir.wf(),
        sessions.wf(),
        now + TOKEN_TTL_SECONDS <= u64::MAX,
    ensures
        match spec_authenticate(dir@, sessions@, form.user_name@, form.password@) {
            Err((t, c)) => r matches Err(e) && e.err_type == t && e.cause@ == c,
            Ok(u) => r matches Ok(token) && token@ == jwt_encoding(
                u.name@,
                u.id as u64,
                u.role as u64,
                (now + TOKEN_TTL_SECONDS) as u64,
                secret.spec_bytes(),
            ) && jwt_decoding(token@, secret.spec_bytes()) == Some(
                (u.name@, u.id as u64, u.role as u64, (now + TOKEN_TTL_SECONDS) as u64),
            ),
        },
{
    let user = match authenticate_user(form, dir, sessions) {
        Ok(u) => u,
        Err(e) => {
            return Err(e);
        },
    };
    let claims = Claims {
        sub: user.name,
        id: user.id,
        role: user.role,
        exp: now + TOKEN_TTL_SECONDS,
    };
    match jwt::encode_claims(&claims, secret) {
        Ok(token) => Ok(token),
        Err(_) => Err(
            DbError {
                err_type: DbErrorType::InternalServerError,
                cause: String::from_str("JWTs generation failed"),
            },
        ),
    }
}

/// Signs a user up: registers the form's account in the directory.
pub fn sign_up(form: &SignUpForm, dir: &mut UserDirectory) -> (r: Result<(), DbError>)
    requires
        old(dir).wf(),
    ensures
        final(dir).wf(),
        match spec_add_user_error(old(dir)@, form.user_name@, form.password@, form.email@) {
            Some((t, c)) => final(dir)@ == old(dir)@ && (r matches Err(e) && e.err_type == t
                && e.cause@ == c),
            None => match r {
                Ok(()) => final(dir)@.len() == old(dir)@.len() + 1 && final(dir)@ == old(
                    dir,
                )@.push(final(dir)@.last()) && final(dir)@.last().name@ == form.user_name@
                    && final(dir)@.last().email@ == form.email@ && final(dir)@.last().role == 0,
                Err(e) => final(dir)@ == old(dir)@ && e.err_type
                    == DbErrorType::InternalServerError && e.cause@
                    == "unable to allocate a user id"@,
            },
        },
{
    match add_user(form, dir) {
        Ok(_) => Ok(()),
        Err(e) => Err(e),
    }
}

} // verus!
