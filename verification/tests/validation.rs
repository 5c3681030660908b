use triox::api::v1::auth::{register_runner, Login, Register};
use triox::auth::{DeleteUserForm, SignInForm, SignUpForm};
use triox::database::users::util::{validate_credentials, validate_email};
use triox::database::users::{
    add_user, authenticate_user, delete_user, DbErrorType, LoginCount, UserDirectory,
};
use triox::errors::ServiceError;

fn sign_up_form(name: &str, password: &str, email: &str) -> SignUpForm {
    SignUpForm {
        user_name: name.to_string(),
        password: password.to_string(),
        email: email.to_string(),
    }
}

#[test]
fn short_username() {
    let err = validate_credentials("user", "decent password").unwrap_err();
    assert!(matches!(err.err_type, DbErrorType::BadRequest));
    assert_eq!(err.cause, "Username is too short");
}

#[test]
fn long_username() {
    let err = validate_credentials("01234567890123456789012345678901234567890", "decent password")
        .unwrap_err();
    assert!(matches!(err.err_type, DbErrorType::BadRequest));
    assert_eq!(err.cause, "Username is too long");
}

#[test]
fn short_password() {
    let err = validate_credentials("decent user name", "1234").unwrap_err();
    assert!(matches!(err.err_type, DbErrorType::BadRequest));
    assert_eq!(err.cause, "Password is too short");
}

#[test]
fn long_password() {
    let err = validate_credentials("decent user name", "01234567890123456789012345678901234567890")
        .unwrap_err();
    assert!(matches!(err.err_type, DbErrorType::BadRequest));
    assert_eq!(err.cause, "Password is too long");
}

#[test]
fn username_length_bounds() {
    // 4 characters is one too few; 5 and 40 pass; 41 is one too many.
    assert!(validate_credentials("abcd", "password").is_err());
    assert!(validate_credentials("abcde", "password").is_ok());
    assert!(validate_credentials(&"a".repeat(40), "password").is_ok());
    assert!(validate_credentials(&"a".repeat(41), "password").is_err());
}

#[test]
fn password_length_bounds() {
    // 7 characters is one too few; 8 and 32 pass; 33 is one too many.
    assert!(validate_credentials("decent user", "abcdefg").is_err());
    assert!(validate_credentials("decent user", "abcdefgh").is_ok());
    assert!(validate_credentials("decent user", &"p".repeat(32)).is_ok());
    assert!(validate_credentials("decent user", &"p".repeat(33)).is_err());
}

#[test]
fn email_shapes() {
    assert!(validate_email("a@b.c").is_ok());
    assert!(validate_email("user@example.com").is_ok());
    let too_short = validate_email("a@b.").unwrap_err();
    assert_eq!(too_short.cause, "Email address is too short");
    let too_long = validate_email(&format!("{}@example.com", "a".repeat(40))).unwrap_err();
    assert_eq!(too_long.cause, "Email address is too long");
    assert_eq!(validate_email("no-at-sign.com").unwrap_err().cause, "Incorrect email address");
    assert_eq!(validate_email("two@@signs.com").unwrap_err().cause, "Incorrect email address");
    assert_eq!(validate_email("a..b@c.d").unwrap_err().cause, "Incorrect email address");
    assert_eq!(validate_email("dot.after@none").unwrap_err().cause, "Incorrect email address");
    // The only dot sits before the @.
    assert_eq!(validate_email("a.b@cdef").unwrap_err().cause, "Incorrect email address");
}

#[test]
fn unknown_username() {
    let dir = UserDirectory::new();
    let sessions = LoginCount::new();
    let form = SignInForm {
        user_name: "unknown user".to_string(),
        password: "decent password".to_string(),
    };
    let err = authenticate_user(&form, &dir, &sessions).unwrap_err();
    assert!(matches!(err.err_type, DbErrorType::Unauthorized));
    assert_eq!(err.cause, "unable to locate user");
}

#[test]
fn duplicate_username_conflicts() {
    let mut dir = UserDirectory::new();
    let form = sign_up_form("fileuser", "randompassword", "fileuser@test.com");
    add_user(&form, &mut dir).expect("first registration should pass");
    let second = sign_up_form("fileuser", "otherpassword", "other@test.com");
    let err = add_user(&second, &mut dir).unwrap_err();
    assert!(matches!(err.err_type, DbErrorType::BadRequest));
    assert_eq!(err.cause, "user name is already taken!");
}

#[test]
fn duplicate_email_conflicts() {
    let mut dir = UserDirectory::new();
    let form = sign_up_form("fileuser", "randompassword", "fileuser@test.com");
    add_user(&form, &mut dir).expect("first registration should pass");
    let second = sign_up_form("otheruser", "otherpassword", "fileuser@test.com");
    let err = add_user(&second, &mut dir).unwrap_err();
    assert!(matches!(err.err_type, DbErrorType::BadRequest));
    assert_eq!(err.cause, "email address is already taken!");
}

#[test]
fn register_runner_conflicts_are_distinguishable() {
    let mut dir = UserDirectory::new();
    let first = Register {
        username: "aliceuser".to_string(),
        password: "password123".to_string(),
        confirm_password: "password123".to_string(),
        email: Some("alice@test.com".to_string()),
    };
    register_runner(&first, &mut dir).expect("first registration should pass");
    let same_name = Register {
        username: "aliceuser".to_string(),
        password: "password456".to_string(),
        confirm_password: "password456".to_string(),
        email: Some("new@test.com".to_string()),
    };
    assert_eq!(register_runner(&same_name, &mut dir), Err(ServiceError::UsernameTaken));
    let same_email = Register {
        username: "bobby-tables".to_string(),
        password: "password456".to_string(),
        confirm_password: "password456".to_string(),
        email: Some("alice@test.com".to_string()),
    };
    assert_eq!(register_runner(&same_email, &mut dir), Err(ServiceError::EmailTaken));
}

#[test]
fn register_runner_rejects_bad_forms() {
    let mut dir = UserDirectory::new();
    let mismatch = Register {
        username: "aliceuser".to_string(),
        password: "password123".to_string(),
        confirm_password: "password124".to_string(),
        email: None,
    };
    assert_eq!(register_runner(&mismatch, &mut dir), Err(ServiceError::PasswordsDontMatch));
    let short = Register {
        username: "al".to_string(),
        password: "password123".to_string(),
        confirm_password: "password123".to_string(),
        email: None,
    };
    assert_eq!(register_runner(&short, &mut dir), Err(ServiceError::BadRequest));
    let bad_email = Register {
        username: "aliceuser".to_string(),
        password: "password123".to_string(),
        confirm_password: "password123".to_string(),
        email: Some("not-an-email".to_string()),
    };
    assert_eq!(register_runner(&bad_email, &mut dir), Err(ServiceError::NotAnEmail));
}

#[test]
fn login_runner_by_name_and_email() {
    let mut dir = UserDirectory::new();
    let form = Register {
        username: "aliceuser".to_string(),
        password: "password123".to_string(),
        confirm_password: "password123".to_string(),
        email: Some("alice@test.com".to_string()),
    };
    register_runner(&form, &mut dir).expect("registration should pass");
    let by_name = Login { login: "aliceuser".to_string(), password: "password123".to_string() };
    assert_eq!(triox::api::v1::auth::login_runner(&by_name, &dir).unwrap(), "aliceuser");
    let by_email =
        Login { login: "alice@test.com".to_string(), password: "password123".to_string() };
    assert_eq!(triox::api::v1::auth::login_runner(&by_email, &dir).unwrap(), "aliceuser");
    let wrong = Login { login: "aliceuser".to_string(), password: "password1234".to_string() };
    assert_eq!(
        triox::api::v1::auth::login_runner(&wrong, &dir),
        Err(ServiceError::InvalidCredentials)
    );
    let unknown = Login { login: "nobody@test.com".to_string(), password: "password123".to_string() };
    assert_eq!(
        triox::api::v1::auth::login_runner(&unknown, &dir),
        Err(ServiceError::AccountNotFound)
    );
}

#[test]
fn sign_up_and_sign_in() {
    let mut dir = UserDirectory::new();
    let sessions = LoginCount::new();
    let creds = sign_up_form("randomuser", "randompassword12345", "randomuser@test.com");
    add_user(&creds, &mut dir).expect("request should not throw an error");

    let form = SignInForm {
        user_name: "randomuser".to_string(),
        password: "randompassword12345".to_string(),
    };
    let user = authenticate_user(&form, &dir, &sessions).expect("request should not throw an error");
    assert_eq!(user.name, "randomuser");
    assert_eq!(user.role, 0);

    let delete = DeleteUserForm {
        user_name: "randomuser".to_string(),
        password: "randompassword12345".to_string(),
    };
    delete_user(&delete, &mut dir).expect("request should not throw an error");

    let err = authenticate_user(&form, &dir, &sessions).expect_err("request should throw an error");
    assert!(matches!(err.err_type, DbErrorType::Unauthorized));
    assert_eq!(err.cause, "unable to locate user");
}

#[test]
fn too_many_sessions_are_rejected() {
    let mut dir = UserDirectory::new();
    let mut sessions = LoginCount::new();
    let creds = sign_up_form("randomuser", "randompassword12345", "randomuser@test.com");
    let user = add_user(&creds, &mut dir).expect("registration should pass");
    let form = SignInForm {
        user_name: "randomuser".to_string(),
        password: "randompassword12345".to_string(),
    };
    // up to four recorded sessions, signing in still passes
    for _ in 0..4 {
        sessions.increment(user.id);
    }
    assert!(authenticate_user(&form, &dir, &sessions).is_ok());
    // the fifth active session crosses the cap
    sessions.increment(user.id);
    let err = authenticate_user(&form, &dir, &sessions).unwrap_err();
    assert!(matches!(err.err_type, DbErrorType::Unauthorized));
    assert_eq!(err.cause, "you have too many active sessions");
}

#[test]
fn wrong_password_is_rejected() {
    let mut dir = UserDirectory::new();
    let sessions = LoginCount::new();
    let creds = sign_up_form("randomuser", "randompassword12345", "randomuser@test.com");
    add_user(&creds, &mut dir).expect("registration should pass");
    let form = SignInForm {
        user_name: "randomuser".to_string(),
        password: "not the password".to_string(),
    };
    let err = authenticate_user(&form, &dir, &sessions).unwrap_err();
    assert!(matches!(err.err_type, DbErrorType::Unauthorized));
    assert_eq!(err.cause, "wrong password");
}
