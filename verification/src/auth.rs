//! Signed session tokens (HS256 over URL-safe base64 text) and password
//! hashing.
//!
//! A token is `header.payload.signature`: the fixed header and the claims'
//! JSON bytes, each in URL-safe base64 without padding, then the HMAC-SHA256
//! of the first two parts under the service's secret.  The claims' JSON
//! encoding itself is left to the caller; this module frames, signs and
//! checks the bytes.
use crate::clock::secs_of;
use crate::error::AppError;
use crate::types::{UserId, uuid_parse, parse_uuid, uuid_text, uuid_to_string};
use argon2::password_hash::{PasswordHasher, PasswordVerifier};
use base64::Engine;
use hmac::Mac;
use vstd::prelude::*;
use vstd::utf8::encode_utf8;

verus! {

/// The token header.
pub const JWT_HEADER: &'static str = "{\"alg\":\"HS256\",\"typ\":\"JWT\"}";

/// The latest second `chrono` can represent (the end of year 262142).
pub const LATEST_TIMESTAMP: i64 = 8_210_266_876_799i64;

/// The earliest second `chrono` can represent (the start of year -262143).
pub const EARLIEST_TIMESTAMP: i64 = -8_334_601_315_200i64;

/// The URL-safe base64 text (no padding) of some bytes.
pub uninterp spec fn b64url_text(bytes: Seq<u8>) -> Seq<char>;

/// The bytes a URL-safe base64 text (no padding) decodes to, if it is one.
pub uninterp spec fn b64url_decoded(text: Seq<char>) -> Option<Seq<u8>>;

/// The HMAC-SHA256 tag of a message under a key.
pub uninterp spec fn hmac_sha256_of(key: Seq<u8>, msg: Seq<u8>) -> Seq<u8>;

/// Whether a password matches a PHC-format hash (`None` where the hash
/// text does not parse).
pub uninterp spec fn argon2_check_of(password: Seq<u8>, hash: Seq<char>) -> Option<bool>;

/// The characters of the URL-safe base64 alphabet.
pub open spec fn url_safe_char(c: char) -> bool {
    ('A' <= c && c <= 'Z') || ('a' <= c && c <= 'z') || ('0' <= c && c <= '9') || c == '-' || c
        == '_'
}

pub open spec fn url_safe(s: Seq<char>) -> bool {
    forall|i: int| 0 <= i < s.len() ==> url_safe_char(#[trigger] s[i])
}

/// Calls `URL_SAFE_NO_PAD.encode` (base64).  Trusted: the text is named; it
/// is drawn from the URL-safe alphabet, and decoding it gives the bytes back
/// (the crate's documented round trip).
#[verifier::external_body]
fn b64url_encode(bytes: &[u8]) -> (r: String)
    ensures
        r@ == b64url_text(bytes@),
        url_safe(r@),
        b64url_decoded(r@) == Some(bytes@),
{
    base64::engine::general_purpose::URL_SAFE_NO_PAD.encode(bytes)
}

/// Calls `URL_SAFE_NO_PAD.decode` (base64).  Trusted: the outcome is named;
/// any decoding error is reported as `None`.
#[verifier::external_body]
fn b64url_decode(text: &str) -> (r: Option<Vec<u8>>)
    ensures
        match r {
            Some(v) => b64url_decoded(text@) == Some(v@),
            None => b64url_decoded(text@) is None,
        },
{
    base64::engine::general_purpose::URL_SAFE_NO_PAD.decode(text).ok()
}

/// Calls `Hmac::<Sha256>::new_from_slice`, `update` and `finalize`.
/// Trusted: the tag is named.  The crate accepts keys of any length (long
/// keys are hashed), so the key setup never fails; `None` would report its
/// error.
#[verifier::external_body]
fn hmac_sha256(key: &[u8], msg: &[u8]) -> (r: Option<Vec<u8>>)
    ensures
        r.is_some(),
        r.unwrap()@ == hmac_sha256_of(key@, msg@),
{
    let mut mac = match <hmac::Hmac<sha2::Sha256> as Mac>::new_from_slice(key) {
        Ok(m) => m,
        Err(_) => return None,
    };
    mac.update(msg);
    Some(mac.finalize().into_bytes().to_vec())
}

/// Calls `SaltString::generate(&mut OsRng)` and
/// `Argon2::default().hash_password`, rendering the hash in PHC text.
/// Trusted: the salt is random, so only what holds of every outcome is
/// stated: a produced hash verifies against the same password.  An error is
/// handed back as its text.
#[verifier::external_body]
fn argon2_hash(password: &[u8]) -> (r: Result<String, String>)
    ensures
        r matches Ok(h) ==> argon2_check_of(password@, h@) == Some(true),
{
    let salt = argon2::password_hash::SaltString::generate(
        &mut argon2::password_hash::rand_core::OsRng,
    );
    match argon2::Argon2::default().hash_password(password, &salt) {
        Ok(h) => Ok(h.to_string()),
        Err(e) => Err(e.to_string()),
    }
}

/// Calls `PasswordHash::new` and `Argon2::default().verify_password`.
/// Trusted: the verdict is named (`None` where the hash does not parse).
#[verifier::external_body]
fn argon2_check(password: &[u8], hash: &str) -> (r: Option<bool>)
    ensures
        r == argon2_check_of(password@, hash@),
{
    match argon2::password_hash::PasswordHash::new(hash) {
        Ok(parsed) => Some(argon2::Argon2::default().verify_password(password, &parsed).is_ok()),
        Err(_) => None,
    }
}

/// Compares two byte strings, always reading all of both when the lengths
/// agree.
pub fn constant_eq(a: &[u8], b: &[u8]) -> (r: bool)
    ensures
        r == (a@ == b@),
{
    if a.len() != b.len() {
        return false;
    }
    let mut acc: u8 = 0;
    let mut i: usize = 0;
    assert(a@.take(0) =~= b@.take(0));
    while i < a.len()
        invariant
            i <= a@.len(),
            a@.len() == b@.len(),
            (acc == 0) == (a@.take(i as int) == b@.take(i as int)),
        decreases a.len() - i,
    {
        let x = a[i];
        let y = b[i];
        let n: u8 = acc | (x ^ y);
        assert((n == 0) == (acc == 0 && x == y)) by (bit_vector)
            requires
                n == acc | (x ^ y),
        ;
        proof {
            assert(a@.take(i + 1) == a@.take(i as int).push(x));
            assert(b@.take(i + 1) == b@.take(i as int).push(y));
            if a@.take(i + 1) == b@.take(i + 1) {
                assert(a@.take(i + 1).drop_last() == a@.take(i as int));
                assert(b@.take(i + 1).drop_last() == b@.take(i as int));
                assert(a@.take(i + 1)[i as int] == x);
                assert(b@.take(i + 1)[i as int] == y);
            }
        }
        acc = n;
        i = i + 1;
    }
    assert(a@.take(a@.len() as int) == a@);
    assert(b@.take(b@.len() as int) == b@);
    acc == 0
}

/// The claims a token carries.
#[derive(Debug, Clone)]
pub struct Claims {
    pub sub: String,
    pub iat: i64,
    pub exp: i64,
    pub is_admin: bool,
}

impl Claims {
    /// The user the claims name, if `sub` is a UUID.
    pub fn user_id(&self) -> (r: Result<UserId, AppError>)
        ensures
            match uuid_parse(self.sub@) {
                Some(u) => r == Ok::<UserId, AppError>(UserId(u)),
                None => r == Err::<UserId, AppError>(AppError::Unauthorized),
            },
    {
        match parse_uuid(self.sub.as_str()) {
            Some(u) => Ok(UserId(u)),
            None => Err(AppError::Unauthorized),
        }
    }

    /// Whether the claims expired before second `now`.
    pub fn is_expired_at(&self, now: i64) -> (r: bool)
        ensures
            r == (self.exp < now),
    {
        self.exp < now
    }

    /// Whether the claims have expired, by the clock: whether they expired
    /// before the second of a clock reading.
    pub fn is_expired(&self) -> (r: bool)
        ensures
            exists|ms: i64| r == (self.exp < #[trigger] secs_of(ms)),
    {
        let now = crate::clock::now_secs();
        let r = self.is_expired_at(now);
        proof {
            let ms = choose|ms: i64| now == #[trigger] secs_of(ms);
            assert(r == (self.exp < secs_of(ms)));
        }
        r
    }
}

/// The text `s` as its parts around the first two dots, if it has two.
pub open spec fn dot_at(s: Seq<char>, from: int, i: int) -> bool {
    &&& from <= i < s.len()
    &&& s[i] == '.'
    &&& forall|k: int| from <= k < i ==> s[k] != '.'
}

/// `i` and `j` are the positions of the first and the second dot of `s`.
pub open spec fn dot_pair(s: Seq<char>, i: int, j: int) -> bool {
    dot_at(s, 0, i) && dot_at(s, i + 1, j)
}

pub open spec fn token_parts(s: Seq<char>) -> Option<(Seq<char>, Seq<char>, Seq<char>)> {
    if exists|i: int, j: int| #[trigger] dot_pair(s, i, j) {
        let (i, j) = choose|i: int, j: int| #[trigger] dot_pair(s, i, j);
        Some((s.subrange(0, i), s.subrange(i + 1, j), s.subrange(j + 1, s.len() as int)))
    } else {
        None
    }
}

/// The signature text of `head.body` under `secret`.
pub open spec fn signature_text(secret: Seq<u8>, head: Seq<char>, body: Seq<char>) -> Seq<char> {
    b64url_text(hmac_sha256_of(secret, encode_utf8(head + seq!['.'] + body)))
}

/// The token for some payload bytes under `secret`.
pub open spec fn token_text(secret: Seq<u8>, payload: Seq<u8>) -> Seq<char> {
    let h = b64url_text(encode_utf8(JWT_HEADER@));
    let p = b64url_text(payload);
    h + seq!['.'] + p + seq!['.'] + signature_text(secret, h, p)
}

/// The payload bytes of a token whose signature checks, if it does.
pub open spec fn verified_payload(secret: Seq<u8>, token: Seq<char>) -> Option<Seq<u8>> {
    match token_parts(token) {
        None => None,
        Some((h, p, sig)) => if encode_utf8(sig) == encode_utf8(signature_text(secret, h, p)) {
            b64url_decoded(p)
        } else {
            None
        },
    }
}

/// The first dot at or after `from`, if any.
fn find_dot(s: &str, from: usize) -> (r: Option<usize>)
    requires
        from <= s@.len(),
    ensures
        match r {
            Some(i) => dot_at(s@, from as int, i as int),
            None => forall|k: int| from <= k < s@.len() ==> s@[k] != '.',
        },
{
    let n = s.unicode_len();
    let mut i = from;
    while i < n
        invariant
            from <= i <= n,
            n == s@.len(),
            forall|k: int| from <= k < i ==> s@[k] != '.',
        decreases n - i,
    {
        if s.get_char(i) == '.' {
            return Some(i);
        }
        i = i + 1;
    }
    None
}

proof fn lemma_first_dot_unique(s: Seq<char>, from: int, i: int, i2: int)
    requires
        dot_at(s, from, i),
        dot_at(s, from, i2),
    ensures
        i == i2,
{
    if i < i2 {
        assert(s[i] != '.');
    } else if i2 < i {
        assert(s[i2] != '.');
    }
}

proof fn lemma_token_parts_at(s: Seq<char>, i: int, j: int)
    requires
        dot_at(s, 0, i),
        dot_at(s, i + 1, j),
    ensures
        token_parts(s) == Some((s.subrange(0, i), s.subrange(i + 1, j), s.subrange(j + 1, s.len() as int))),
{
    assert(dot_pair(s, i, j));
    let (i2, j2) = choose|i: int, j: int| #[trigger] dot_pair(s, i, j);
    lemma_first_dot_unique(s, 0, i, i2);
    lemma_first_dot_unique(s, i + 1, j, j2);
}

/// The issuer and checker of session tokens.
#[derive(Clone)]
pub struct JwtService {
    pub secret: Vec<u8>,
    pub ttl_secs: i64,
}

impl JwtService {
    pub fn new(secret: &[u8], ttl_secs: i64) -> (r: JwtService)
        ensures
            r.secret@ == secret@,
            r.ttl_secs == ttl_secs,
    {
        JwtService { secret: vstd::slice::slice_to_vec(secret), ttl_secs }
    }

    /// The claims of a token issued at second `now` for `user_id`: the
    /// user's UUID text, issued at `now`, expiring `ttl_secs` later.
    pub fn claims_at(&self, user_id: UserId, is_admin: bool, now: i64) -> (r: Claims)
        requires
            -(i64::MAX / 1000) <= self.ttl_secs <= i64::MAX / 1000,
            EARLIEST_TIMESTAMP <= now + self.ttl_secs <= LATEST_TIMESTAMP,
        ensures
            r.sub@ == uuid_text(user_id.0),
            uuid_parse(r.sub@) == Some(user_id.0),
            r.iat == now,
            r.exp == now + self.ttl_secs,
            r.is_admin == is_admin,
    {
        Claims { sub: uuid_to_string(user_id.0), iat: now, exp: now + self.ttl_secs, is_admin }
    }

    /// The URL-safe base64 HMAC-SHA256 of `input` under the secret.
    fn sign(&self, input: &[u8]) -> (r: Result<String, AppError>)
        ensures
            r matches Ok(s) && s@ == b64url_text(hmac_sha256_of(self.secret@, input@)),
    {
        match hmac_sha256(self.secret.as_slice(), input) {
            Some(tag) => Ok(b64url_encode(tag.as_slice())),
            None => Err(AppError::Internal(String::from_str("hmac init failed"))),
        }
    }

    /// The token carrying `payload` (the claims' JSON bytes).  Under the
    /// same secret the token passes `signed_payload`, which gives back
    /// exactly `payload`.
    pub fn token_for(&self, payload: &[u8]) -> (r: String)
        ensures
            r@ == token_text(self.secret@, payload@),
            verified_payload(self.secret@, r@) == Some(payload@),
    {
        let header = b64url_encode(JWT_HEADER.as_bytes());
        let body = b64url_encode(payload);
        let mut input = header.clone();
        input.append(".");
        input.append(body.as_str());
        proof {
            reveal_strlit(".");
            assert(input@ == header@ + seq!['.'] + body@);
        }
        let sig = match self.sign(input.as_str().as_bytes()) {
            Ok(s) => s,
            Err(_) => {
                return input;
            },
        };
        let mut token = input;
        token.append(".");
        token.append(sig.as_str());
        proof {
            lemma_token_round_trip(self.secret@, payload@);
        }
        token
    }

    /// The payload bytes of `token` if its signature is the secret's and its
    /// payload part decodes; `Unauthorized` otherwise.
    pub fn signed_payload(&self, token: &str) -> (r: Result<Vec<u8>, AppError>)
        ensures
            match r {
                Ok(v) => verified_payload(self.secret@, token@) == Some(v@),
                Err(e) => verified_payload(self.secret@, token@) is None && e == AppError::Unauthorized,
            },
    {
        let n = token.unicode_len();
        let i = match find_dot(token, 0) {
            Some(i) => i,
            None => {
                return Err(AppError::Unauthorized);
            },
        };
        let j = match find_dot(token, i + 1) {
            Some(j) => j,
            None => {
                return Err(AppError::Unauthorized);
            },
        };
        proof {
            lemma_token_parts_at(token@, i as int, j as int);
        }
        let head = token.substring_char(0, i);
        let body = token.substring_char(i + 1, j);
        let sig = token.substring_char(j + 1, n);
        let mut input = head.to_owned();
        input.append(".");
        input.append(body);
        proof {
            reveal_strlit(".");
            assert(input@ == head@ + seq!['.'] + body@);
        }
        let expected = match self.sign(input.as_str().as_bytes()) {
            Ok(s) => s,
            Err(_) => {
                return Err(AppError::Unauthorized);
            },
        };
        if !constant_eq(sig.as_bytes(), expected.as_str().as_bytes()) {
            return Err(AppError::Unauthorized);
        }
        match b64url_decode(body) {
            Some(v) => Ok(v),
            None => Err(AppError::Unauthorized),
        }
    }

    /// The claims, unless they expired before second `now`.
    pub fn accept_claims_at(claims: Claims, now: i64) -> (r: Result<Claims, AppError>)
        ensures
            claims.exp < now ==> r == Err::<Claims, AppError>(AppError::Unauthorized),
            claims.exp >= now ==> (r matches Ok(c) && c.sub@ == claims.sub@ && c.iat == claims.iat
                && c.exp == claims.exp && c.is_admin == claims.is_admin),
    {
        if claims.is_expired_at(now) {
            Err(AppError::Unauthorized)
        } else {
            Ok(claims)
        }
    }
}

proof fn lemma_token_round_trip(secret: Seq<u8>, payload: Seq<u8>)
    requires
        url_safe(b64url_text(encode_utf8(JWT_HEADER@))),
        url_safe(b64url_text(payload)),
        b64url_decoded(b64url_text(payload)) == Some(payload),
    ensures
        verified_payload(secret, token_text(secret, payload)) == Some(payload),
{
    let h = b64url_text(encode_utf8(JWT_HEADER@));
    let p = b64url_text(payload);
    let sig = signature_text(secret, h, p);
    let t = token_text(secret, payload);
    let i = h.len() as int;
    let j = i + 1 + p.len();
    assert(t == h + seq!['.'] + p + seq!['.'] + sig);
    assert(t[i] == '.');
    assert forall|k: int| 0 <= k < i implies t[k] != '.' by {
        assert(t[k] == h[k]);
        assert(url_safe_char(h[k]));
    }
    assert(t[j] == '.');
    assert forall|k: int| i + 1 <= k < j implies t[k] != '.' by {
        assert(t[k] == p[k - i - 1]);
        assert(url_safe_char(p[k - i - 1]));
    }
    lemma_token_parts_at(t, i, j);
    assert(t.subrange(0, i) == h);
    assert(t.subrange(i + 1, j) == p);
    assert(t.subrange(j + 1, t.len() as int) == sig);
}

/// Password hashing with Argon2 (default parameters, random salt).
pub struct PasswordService;

impl PasswordService {
    /// The PHC text of a fresh salted hash of `password`; a hash produced
    /// verifies against the same password.
    pub fn hash(password: &str) -> (r: Result<String, AppError>)
        ensures
            match r {
                Ok(h) => argon2_check_of(encode_utf8(password@), h@) == Some(true),
                Err(e) => e matches AppError::Internal(m) && exists|t: Seq<char>| m@ == "password hash failed: "@ + t,
            },
    {
        match argon2_hash(password.as_bytes()) {
            Ok(h) => Ok(h),
            Err(e) => {
                let mut s = String::from_str("password hash failed: ");
                s.append(e.as_str());
                assert(s@ == "password hash failed: "@ + e@);
                Err(AppError::Internal(s))
            },
        }
    }

    /// Checks `password` against a stored hash: `Ok` where it matches,
    /// `Unauthorized` where it does not, and `Internal("invalid hash")`
    /// where the hash does not parse.
    pub fn verify(password: &str, hash: &str) -> (r: Result<(), AppError>)
        ensures
            match argon2_check_of(encode_utf8(password@), hash@) {
                None => r matches Err(AppError::Internal(m)) && m@ == "invalid hash"@,
                Some(true) => r is Ok,
                Some(false) => r == Err::<(), AppError>(AppError::Unauthorized),
            },
    {
        match argon2_check(password.as_bytes(), hash) {
            None => Err(AppError::Internal(String::from_str("invalid hash"))),
            Some(true) => Ok(()),
            Some(false) => Err(AppError::Unauthorized),
        }
    }
}

} // verus!
