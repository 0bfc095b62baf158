use predmarket::auth::{constant_eq, Claims, JwtService, PasswordService, JWT_HEADER};
use predmarket::error::AppError;
use predmarket::types::UserId;

fn service() -> JwtService {
    JwtService::new(b"test-secret-key", 3600)
}

#[test]
fn constant_eq_compares_whole_strings() {
    assert!(constant_eq(b"abc", b"abc"));
    assert!(!constant_eq(b"abc", b"abd"));
    assert!(!constant_eq(b"abc", b"ab"));
    assert!(constant_eq(b"", b""));
}

#[test]
fn new_keeps_secret_and_ttl() {
    let s = service();
    assert_eq!(s.secret, b"test-secret-key".to_vec());
    assert_eq!(s.ttl_secs, 3600);
}

#[test]
fn token_round_trip_gives_payload_back() {
    let s = service();
    let payload = br#"{"sub":"x","iat":1,"exp":2,"is_admin":false}"#;
    let token = s.token_for(payload);
    assert_eq!(token.matches('.').count(), 2);
    assert!(!token.contains('='));
    let back = s.signed_payload(&token).unwrap();
    assert_eq!(back, payload.to_vec());
}

#[test]
fn token_header_is_the_hs256_header() {
    let s = service();
    let token = s.token_for(b"{}");
    let head = token.split('.').next().unwrap();
    assert_eq!(head, "eyJhbGciOiJIUzI1NiIsInR5cCI6IkpXVCJ9");
    assert_eq!(JWT_HEADER, "{\"alg\":\"HS256\",\"typ\":\"JWT\"}");
}

#[test]
fn token_payload_part_is_base64_of_payload() {
    let s = service();
    let token = s.token_for(b"hello");
    let body = token.split('.').nth(1).unwrap();
    assert_eq!(body, "aGVsbG8");
}

#[test]
fn tampered_signature_is_refused() {
    let s = service();
    let token = s.token_for(b"{}");
    let mut bad = token.clone();
    let last = bad.pop().unwrap();
    bad.push(if last == 'A' { 'B' } else { 'A' });
    assert_eq!(s.signed_payload(&bad), Err(AppError::Unauthorized));
}

#[test]
fn other_secret_is_refused() {
    let token = service().token_for(b"{}");
    let other = JwtService::new(b"another-secret", 3600);
    assert_eq!(other.signed_payload(&token), Err(AppError::Unauthorized));
}

#[test]
fn token_without_two_dots_is_refused() {
    let s = service();
    assert_eq!(s.signed_payload("abc"), Err(AppError::Unauthorized));
    assert_eq!(s.signed_payload("abc.def"), Err(AppError::Unauthorized));
}

#[test]
fn claims_name_the_user_and_expire_after_ttl() {
    let s = service();
    let u = UserId(0x1234_5678_9abc_def0_1234_5678_9abc_def0);
    let c = s.claims_at(u, true, 1_700_000_000);
    assert_eq!(c.sub, "12345678-9abc-def0-1234-56789abcdef0");
    assert_eq!(c.iat, 1_700_000_000);
    assert_eq!(c.exp, 1_700_003_600);
    assert!(c.is_admin);
    assert_eq!(c.user_id(), Ok(u));
}

#[test]
fn claims_with_bad_subject_are_unauthorized() {
    let c = Claims { sub: "not-a-uuid".to_string(), iat: 0, exp: 10, is_admin: false };
    assert_eq!(c.user_id(), Err(AppError::Unauthorized));
}

#[test]
fn expiry_is_strictly_before_now() {
    let c = Claims { sub: String::new(), iat: 0, exp: 100, is_admin: false };
    assert!(!c.is_expired_at(100));
    assert!(c.is_expired_at(101));
    assert!(matches!(JwtService::accept_claims_at(c.clone(), 100), Ok(_)));
    assert_eq!(
        JwtService::accept_claims_at(c, 101).map(|c| c.exp),
        Err(AppError::Unauthorized)
    );
}

#[test]
fn claims_far_in_the_past_are_expired_by_the_clock() {
    let c = Claims { sub: String::new(), iat: 0, exp: 1, is_admin: false };
    assert!(c.is_expired());
}

#[test]
fn password_hash_then_verify() {
    let h = PasswordService::hash("correct horse").unwrap();
    assert!(h.starts_with("$argon2"));
    assert_eq!(PasswordService::verify("correct horse", &h), Ok(()));
    assert_eq!(PasswordService::verify("wrong horse", &h), Err(AppError::Unauthorized));
}

#[test]
fn password_verify_with_garbage_hash_is_internal() {
    assert_eq!(
        PasswordService::verify("pw", "not a hash"),
        Err(AppError::Internal("invalid hash".to_string()))
    );
}
