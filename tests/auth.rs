use filecore::encrypt::{Bcrypt, HashError};
use filecore::gate::{
    authenticate_basic, authenticate_bearer, get_client_ip, parse_basic_header,
    parse_bearer_header, AuthError,
};
use filecore::session::{
    compose_session_key, find_session_by_id, new_session_key, open_session, session_infos,
    verify_session,
    Session,
};
use filecore::user::{validate_create_user_input, CreateUserRequest, User, ValidationError};

const PYTHON_DIGEST: &str = "$2b$04$EGdrhbKUv8Oc9vGiXX0HQOxSg445d458Muh7DAHskb6QbtCvdxcie";

fn user_with_digest(digest: &str) -> User {
    User {
        id: "u1".to_string(),
        email: "a@x.com".to_string(),
        password_hash: digest.to_string(),
        icon_url: None,
        created_at: 0,
    }
}

fn session_from(ip: Option<&str>) -> Session {
    Session::new(
        "s1".to_string(),
        "u1".to_string(),
        "key1".to_string(),
        ip.map(|s| s.to_string()),
        Some("agent".to_string()),
        100,
    )
}

#[test]
fn hash_rejects_short_and_empty_passwords() {
    assert_eq!(Bcrypt::hash(""), Err(HashError::InvalidInput));
    assert_eq!(Bcrypt::hash("short12"), Err(HashError::InvalidInput));
}

#[test]
fn hash_round_trip_and_login_from_other_ip_fails() {
    // register u1, log in with the right password, then use the session elsewhere
    let digest = Bcrypt::hash("password1").unwrap();
    assert_eq!(digest.len(), 60);
    assert!(digest.starts_with("$2b$12$"));
    assert_ne!(digest, "password1");
    assert_eq!(Bcrypt::verify("password1", &digest), Ok(true));
    assert_eq!(Bcrypt::verify("password2", &digest), Ok(false));

    let u1 = user_with_digest(&digest);
    assert_eq!(authenticate_basic(Some(&u1), "password1"), Ok("u1".to_string()));
    let session = Session::new(
        "s1".to_string(),
        u1.id.clone(),
        new_session_key("12345").unwrap(),
        Some("10.0.0.1".to_string()),
        None,
        5,
    );
    let elsewhere = authenticate_bearer(Some(session), "10.0.0.2");
    assert!(matches!(elsewhere, Err(AuthError::AuthFailed)));
}

#[test]
fn verify_known_digest() {
    assert_eq!(Bcrypt::verify("correctbatteryhorsestapler", PYTHON_DIGEST), Ok(true));
    assert_eq!(Bcrypt::verify("wrong", PYTHON_DIGEST), Ok(false));
}

#[test]
fn verify_rejects_empty_and_malformed_input() {
    assert_eq!(Bcrypt::verify("", PYTHON_DIGEST), Err(HashError::InvalidInput));
    assert_eq!(Bcrypt::verify("password1", ""), Err(HashError::InvalidInput));
    assert_eq!(Bcrypt::verify("password1", "not-a-digest"), Err(HashError::MalformedDigest));
}

#[test]
fn basic_header_is_decoded() {
    // base64 of "a@x.com:password1"
    let c = parse_basic_header(Some("Basic YUB4LmNvbTpwYXNzd29yZDE=")).ok().unwrap();
    assert_eq!(c.email, "a@x.com");
    assert_eq!(c.password, "password1");
}

#[test]
fn malformed_basic_headers_are_rejected() {
    let bad = [
        None,
        Some("Bearer YUB4LmNvbTpwYXNzd29yZDE="),
        Some("Basic !!!"),
        // base64 of bytes that are not UTF-8
        Some("Basic //79"),
        // base64 of "nocolon"
        Some("Basic bm9jb2xvbg=="),
        // base64 of "a:b:c"
        Some("Basic YTpiOmM="),
    ];
    for h in bad.iter() {
        assert!(matches!(parse_basic_header(*h), Err(AuthError::MalformedCredentials)));
    }
}

#[test]
fn basic_authentication_checks_user_and_password() {
    let u = user_with_digest(PYTHON_DIGEST);
    assert_eq!(authenticate_basic(Some(&u), "correctbatteryhorsestapler"), Ok("u1".to_string()));
    assert_eq!(authenticate_basic(Some(&u), "wrong"), Err(AuthError::AuthFailed));
    assert_eq!(authenticate_basic(None, "correctbatteryhorsestapler"), Err(AuthError::AuthFailed));
}

#[test]
fn bearer_header_is_parsed() {
    assert_eq!(parse_bearer_header(Some("Bearer abc123")), Ok("abc123".to_string()));
    assert_eq!(parse_bearer_header(Some("Basic abc123")), Err(AuthError::MalformedCredentials));
    assert_eq!(parse_bearer_header(None), Err(AuthError::MalformedCredentials));
}

#[test]
fn session_verifies_only_from_its_ip() {
    assert!(verify_session(Some(session_from(Some("1.2.3.4"))), "1.2.3.4").is_some());
    assert!(verify_session(Some(session_from(Some("1.2.3.4"))), "1.2.3.5").is_none());
    assert!(verify_session(Some(session_from(None)), "1.2.3.4").is_none());
    assert!(verify_session(None, "1.2.3.4").is_none());
    let ok = authenticate_bearer(Some(session_from(Some("1.2.3.4"))), "1.2.3.4");
    assert_eq!(ok.ok().unwrap().id, "s1");
}

#[test]
fn session_touch_updates_access_time_only() {
    let mut s = session_from(Some("1.2.3.4"));
    assert_eq!(s.created_at, 100);
    assert_eq!(s.last_accessed_at, 100);
    s.touch(250);
    assert_eq!(s.created_at, 100);
    assert_eq!(s.last_accessed_at, 250);
}

#[test]
fn client_ip_follows_header_priority() {
    assert_eq!(get_client_ip(Some(" 9.9.9.9 , 8.8.8.8"), Some("7.7.7.7"), Some("6.6.6.6")), "9.9.9.9");
    assert_eq!(get_client_ip(None, Some("7.7.7.7"), Some("6.6.6.6")), "7.7.7.7");
    assert_eq!(get_client_ip(None, None, Some("6.6.6.6")), "6.6.6.6");
    assert_eq!(get_client_ip(None, None, None), "unknown");
}

#[test]
fn session_key_has_no_hyphens() {
    assert_eq!(compose_session_key("a-b", "12", "c-d-e"), "ab12cde");
    let k = new_session_key("777").unwrap();
    assert!(!k.contains('-'));
    assert!(k[..32].chars().all(|c| c.is_ascii_hexdigit() && !c.is_ascii_uppercase()));
    assert_ne!(k, new_session_key("777").unwrap());
    assert_eq!(k.len(), 32 + 3 + 32);
    assert!(k.contains("777"));
}

#[test]
fn session_listing_and_lookup_by_id() {
    let mut a = session_from(Some("1.1.1.1"));
    a.id = "a".to_string();
    let mut b = session_from(None);
    b.id = "b".to_string();
    let infos = session_infos(&vec![a, b]);
    assert_eq!(infos.len(), 2);
    assert_eq!(infos[0].id, "a");
    assert_eq!(infos[0].ip_address, Some("1.1.1.1".to_string()));
    assert_eq!(infos[1].ip_address, None);

    let mut a = session_from(None);
    a.id = "a".to_string();
    let mut b = session_from(None);
    b.id = "b".to_string();
    b.session_key = "kb".to_string();
    let found = find_session_by_id(vec![a, b], "b").unwrap();
    assert_eq!(found.session_key, "kb");
    assert!(find_session_by_id(vec![session_from(None)], "zzz").is_none());
}

#[test]
fn registration_input_is_validated_in_order() {
    let req = |t: &str, e: &str, p: &str| CreateUserRequest {
        email: e.to_string(),
        password: p.to_string(),
        turnstile: t.to_string(),
    };
    assert_eq!(validate_create_user_input(&req("", "", "")), Err(ValidationError::MissingTurnstile));
    assert_eq!(validate_create_user_input(&req("t", "", "")), Err(ValidationError::MissingEmail));
    assert_eq!(validate_create_user_input(&req("t", "a@x.com", "")), Err(ValidationError::MissingPassword));
    let weak = validate_create_user_input(&req("t", "a@x.com", "abc"));
    assert_eq!(weak, Err(ValidationError::WeakPassword(3)));
    assert_eq!(weak.unwrap_err().code(), "WEAK_PASSWORD");
    assert_eq!(ValidationError::MissingEmail.code(), "INVALID_INPUT");
    assert_eq!(ValidationError::MissingEmail.message(), "Email is required");
    assert_eq!(validate_create_user_input(&req("t", "a@x.com", "password1")), Ok(()));
}

#[test]
fn login_session_is_bound_to_login_ip() {
    let s = open_session("s9".to_string(), "u1".to_string(), "4242", "10.0.0.1".to_string(), None, 77)
        .unwrap();
    assert_eq!(s.ip_address, Some("10.0.0.1".to_string()));
    assert_eq!(s.created_at, 77);
    assert_eq!(s.last_accessed_at, 77);
    assert_eq!(s.session_key.len(), 64 + 4);
    let key = s.session_key.clone();
    assert_eq!(authenticate_bearer(Some(s), "10.0.0.2").err(), Some(AuthError::AuthFailed));
    let s = open_session("s9".to_string(), "u1".to_string(), "4242", "10.0.0.1".to_string(), None, 77)
        .unwrap();
    assert_ne!(s.session_key, key);
    assert!(authenticate_bearer(Some(s), "10.0.0.1").is_ok());
}
