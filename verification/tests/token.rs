use triox::auth::{sign_in, SignInForm, SignUpForm};
use triox::database::users::{add_user, LoginCount, UserDirectory};
use triox::errors::ServiceError;
use triox::hash::{compare_passwords, from_password};
use triox::jwt::{
    encode_claims, extract_claims, extract_jwt_from_authorization_header,
    extract_jwt_from_cookie_header, Claims, JWT,
};

const SECRET: &str = "an unremarkable but long enough test secret";

fn claims() -> Claims {
    Claims { sub: "aliceuser".to_string(), id: 42, role: 0, exp: 1_000_000 + 7200 }
}

#[test]
fn password_hash_round_trip() {
    let hash = from_password("password123").expect("hashing should pass");
    assert!(!hash.is_empty());
    assert_eq!(compare_passwords(b"password123", &hash), Ok(true));
    assert_eq!(compare_passwords(b"password124", &hash), Ok(false));
    assert!(compare_passwords(b"password123", "not an encoded hash").is_err());
}

#[test]
fn token_round_trip() {
    let token = encode_claims(&claims(), SECRET).expect("encoding should pass");
    let back = extract_claims(&token, SECRET, 1_000_000).expect("verification should pass");
    assert_eq!(back.sub, "aliceuser");
    assert_eq!(back.id, 42);
    assert_eq!(back.role, 0);
    assert_eq!(back.exp, 1_000_000 + 7200);
}

#[test]
fn token_expiry() {
    let issued_at: u64 = 1_000_000;
    let token = encode_claims(&claims(), SECRET).expect("encoding should pass");
    // An hour in, the token still passes.
    assert!(extract_claims(&token, SECRET, issued_at + 3600).is_ok());
    // Past the two-hour TTL it is expired, and the failure says so.
    assert_eq!(
        extract_claims(&token, SECRET, issued_at + 7201).unwrap_err(),
        ServiceError::TokenExpired
    );
}

#[test]
fn token_tampering_is_invalid() {
    let token = encode_claims(&claims(), SECRET).expect("encoding should pass");
    let mut tampered = token.clone();
    tampered.push('x');
    assert_eq!(
        extract_claims(&tampered, SECRET, 1_000_000).unwrap_err(),
        ServiceError::TokenInvalid
    );
    assert_eq!(
        extract_claims(&token, "a completely different secret value", 1_000_000).unwrap_err(),
        ServiceError::TokenInvalid
    );
    assert_eq!(
        extract_claims("not a token at all", SECRET, 1_000_000).unwrap_err(),
        ServiceError::TokenInvalid
    );
}

#[test]
fn sign_in_issues_verifiable_token() {
    let mut dir = UserDirectory::new();
    let sessions = LoginCount::new();
    let form = SignUpForm {
        user_name: "aliceuser".to_string(),
        password: "password123".to_string(),
        email: "alice@test.com".to_string(),
    };
    let user = add_user(&form, &mut dir).expect("registration should pass");
    let now: u64 = 1_700_000_000;
    let signin = SignInForm {
        user_name: "aliceuser".to_string(),
        password: "password123".to_string(),
    };
    let token = sign_in(&signin, &dir, &sessions, SECRET, now).expect("sign-in should pass");
    let back = extract_claims(&token, SECRET, now + 60).expect("verification should pass");
    assert_eq!(back.sub, "aliceuser");
    assert_eq!(back.id, user.id);
    assert_eq!(back.exp, now + 7200);
}

#[test]
fn bearer_extraction() {
    match extract_jwt_from_authorization_header(Some("Bearer  abc.def.ghi ")) {
        Some(Ok(JWT(token))) => assert_eq!(token, "abc.def.ghi"),
        other => panic!("unexpected extraction outcome: {:?}", other.map(|r| r.map(|j| j.0))),
    }
    match extract_jwt_from_authorization_header(Some("Basic dXNlcjpwYXNz")) {
        Some(Err(e)) => assert_eq!(e, ServiceError::TokenInvalid),
        other => panic!("unexpected extraction outcome: {:?}", other.map(|r| r.map(|j| j.0))),
    }
    assert!(extract_jwt_from_authorization_header(None).is_none());
}

#[test]
fn cookie_extraction() {
    match extract_jwt_from_cookie_header(Some("theme=dark; triox_jwt=abc.def.ghi")) {
        Some(Ok(JWT(token))) => assert_eq!(token, "abc.def.ghi"),
        other => panic!("unexpected extraction outcome: {:?}", other.map(|r| r.map(|j| j.0))),
    }
    match extract_jwt_from_cookie_header(Some("theme=dark; lang=en")) {
        Some(Err(e)) => assert_eq!(e, ServiceError::TokenMissing),
        other => panic!("unexpected extraction outcome: {:?}", other.map(|r| r.map(|j| j.0))),
    }
    assert!(extract_jwt_from_cookie_header(None).is_none());
}

#[test]
fn token_transport_precedence() {
    let from_custom =
        JWT::from_request(Some(" zzz "), Some("Bearer aaa"), Some("triox_jwt=bbb")).unwrap();
    assert_eq!(from_custom.0, "zzz");
    let from_auth = JWT::from_request(None, Some("Bearer aaa"), Some("triox_jwt=bbb")).unwrap();
    assert_eq!(from_auth.0, "aaa");
    let from_cookie = JWT::from_request(None, None, Some("triox_jwt=bbb")).unwrap();
    assert_eq!(from_cookie.0, "bbb");
    assert_eq!(JWT::from_request(None, None, None).unwrap_err(), ServiceError::TokenMissing);
}
