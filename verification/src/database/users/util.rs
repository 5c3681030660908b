//! Syntactic validation of user names, passwords and email addresses.

use vstd::prelude::*;
use crate::database::users::{DbError, DbErrorType};
use crate::strutil::{contains_seq, contains_char, contains_substr, find_char, rfind_char};

verus! {

/// A user name must have between 5 and 40 characters.
pub open spec fn username_len_ok(u: Seq<char>) -> bool {
    5 <= u.len() <= 40
}

/// A password must have between 8 and 32 characters.
pub open spec fn password_len_ok(p: Seq<char>) -> bool {
    8 <= p.len() <= 32
}

/// The cause reported for a pair of credentials that fails validation.
pub open spec fn credentials_error_cause(u: Seq<char>, p: Seq<char>) -> Seq<char> {
    if u.len() > 40 {
        "Username is too long"@
    } else if u.len() < 5 {
        "Username is too short"@
    } else if p.len() > 32 {
        "Password is too long"@
    } else {
        "Password is too short"@
    }
}

/// Checks that the user name and the password have a reasonable length.
///
/// Succeeds exactly when the user name has 5 to 40 characters and the
/// password 8 to 32; otherwise the error names the first bound violated.
pub fn validate_credentials(username: &str, password: &str) -> (r: Result<(), DbError>)
    ensures
        r is Ok <==> username_len_ok(username@) && password_len_ok(password@),
        r matches Err(e) ==> e.err_type == DbErrorType::BadRequest && e.cause@
            == credentials_error_cause(username@, password@),
{
    let ulen = username.unicode_len();
    let plen = password.unicode_len();
    if ulen > 40 {
        Err(DbError {
            err_type: DbErrorType::BadRequest,
            cause: String::from_str("Username is too long"),
        })
    } else if ulen < 5 {
        Err(DbError {
            err_type: DbErrorType::BadRequest,
            cause: String::from_str("Username is too short"),
        })
    } else if plen > 32 {
        Err(DbError {
            err_type: DbErrorType::BadRequest,
            cause: String::from_str("Password is too long"),
        })
    } else if plen < 8 {
        Err(DbError {
            err_type: DbErrorType::BadRequest,
            cause: String::from_str("Password is too short"),
        })
    } else {
        Ok(())
    }
}

/// An email address must have between 5 and 40 characters.
pub open spec fn email_len_ok(s: Seq<char>) -> bool {
    5 <= s.len() <= 40
}

/// The minimal syntactic shape of an email address: exactly one `@`, at
/// least one `.`, no consecutive dots, and a `.` after the `@`.
pub open spec fn email_shape_ok(s: Seq<char>) -> bool {
    &&& s.contains('@')
    &&& s.contains('.')
    &&& !contains_seq(s, seq!['.', '.'])
    &&& s.index_of_first('@') == s.index_of_last('@')
    &&& match (s.index_of_first('@'), s.index_of_last('.')) {
        (Some(a), Some(d)) => a <= d,
        _ => false,
    }
}

/// The cause reported for an email address that fails validation.
pub open spec fn email_error_cause(s: Seq<char>) -> Seq<char> {
    if s.len() > 40 {
        "Email address is too long"@
    } else if s.len() < 5 {
        "Email address is too short"@
    } else {
        "Incorrect email address"@
    }
}

/// Checks the length and the minimal syntactic shape of an email address.
///
/// Succeeds exactly when the address has 5 to 40 characters, exactly one
/// `@`, at least one `.`, no two consecutive dots, and its last `.` after
/// its `@`.
pub fn validate_email(email: &str) -> (r: Result<(), DbError>)
    ensures
        r is Ok <==> email_len_ok(email@) && email_shape_ok(email@),
        r matches Err(e) ==> e.err_type == DbErrorType::BadRequest && e.cause@
            == email_error_cause(email@),
{
    let elen = email.unicode_len();
    if elen > 40 {
        return Err(DbError {
            err_type: DbErrorType::BadRequest,
            cause: String::from_str("Email address is too long"),
        });
    }
    if elen < 5 {
        return Err(DbError {
            err_type: DbErrorType::BadRequest,
            cause: String::from_str("Email address is too short"),
        });
    }
    let shape_ok = email_shape(email);
    if !shape_ok {
        Err(DbError {
            err_type: DbErrorType::BadRequest,
            cause: String::from_str("Incorrect email address"),
        })
    } else {
        Ok(())
    }
}

/// Decides `email_shape_ok` on the view of `email`.
fn email_shape(email: &str) -> (b: bool)
    ensures
        b == email_shape_ok(email@),
{
    proof {
        email@.index_of_first_ensures('@');
        email@.index_of_last_ensures('@');
        email@.index_of_last_ensures('.');
    }
    let at_first = find_char(email, '@');
    let at_last = rfind_char(email, '@');
    let dot_last = rfind_char(email, '.');
    let has_dotdot = contains_substr(email, "..");
    proof {
        reveal_strlit("..");
        assert(".."@ =~= seq!['.', '.']);
    }
    match (at_first, at_last, dot_last) {
        (Some(a), Some(a2), Some(d)) => {
            assert(email@.index_of_first('@') == Some(a as int));
            assert(email@.index_of_last('@') == Some(a2 as int));
            assert(email@.index_of_last('.') == Some(d as int));
            !has_dotdot && a == a2 && a <= d
        },
        _ => {
            false
        },
    }
}

} // verus!
