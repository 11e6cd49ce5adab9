use vstd::prelude::*;

use crate::json::{insert_unsigned, members, unsigned_json};

verus! {

/// The failure of a token operation.
#[verifier::external_type_specification]
#[verifier::external_body]
pub struct ExJwtError(jsonwebtoken::errors::Error);

/// The failure of a password operation.
#[verifier::external_type_specification]
#[verifier::external_body]
pub struct ExBcryptError(bcrypt::BcryptError);

/// The `expiresIn` option of `jwt.sign`.
#[derive(Debug)]
pub enum ExpiresIn {
    /// A number of seconds.
    Seconds(u64),
    /// A duration such as `30s`, `15m`, `1h` or `7d`.
    Text(String),
    /// Absent, or of a type that sets no expiry.
    Unset,
}

pub open spec fn is_digit(c: char) -> bool {
    '0' <= c && c <= '9'
}

pub open spec fn digit_value(c: char) -> int {
    (c as u32) as int - ('0' as u32) as int
}

/// The number that a string of decimal digits writes.
pub open spec fn decimal(s: Seq<char>) -> int
    decreases s.len(),
{
    if s.len() == 0 {
        0
    } else {
        decimal(s.drop_last()) * 10 + digit_value(s.last())
    }
}

/// Seconds per unit of a duration suffix.
pub open spec fn unit_seconds(c: char) -> Option<int> {
    if c == 's' {
        Some(1)
    } else if c == 'm' {
        Some(60)
    } else if c == 'h' {
        Some(3600)
    } else if c == 'd' {
        Some(86400)
    } else {
        None
    }
}

/// The seconds that a duration string gives: one or more decimal digits
/// followed by one of the units `s`, `m`, `h`, `d`.
pub open spec fn duration_seconds(s: Seq<char>) -> Option<int> {
    let digits = s.drop_last();
    if s.len() >= 2 && (forall|i: int| 0 <= i < digits.len() ==> is_digit(#[trigger] digits[i]))
        && unit_seconds(s.last()) is Some {
        Some(decimal(digits) * unit_seconds(s.last())->0)
    } else {
        None
    }
}

/// The seconds an `expiresIn` option asks for, where it asks for a number of
/// seconds that fits in 64 bits.
pub open spec fn expiry_seconds_of(e: ExpiresIn) -> Option<u64> {
    match e {
        ExpiresIn::Seconds(n) => Some(n),
        ExpiresIn::Text(s) => match duration_seconds(s@) {
            Some(v) => if v <= u64::MAX {
                Some(v as u64)
            } else {
                None
            },
            None => None,
        },
        ExpiresIn::Unset => None,
    }
}

/// The `exp` claim for a token signed at `now`: now plus the duration, held
/// at the largest timestamp where the sum would not fit.
pub open spec fn expiry_claim_of(now: u64, e: ExpiresIn) -> Option<u64> {
    match expiry_seconds_of(e) {
        Some(sec) => Some(
            if now + sec <= u64::MAX {
                (now + sec) as u64
            } else {
                u64::MAX
            },
        ),
        None => None,
    }
}

proof fn lemma_decimal_grows(s: Seq<char>, i: int, j: int)
    requires
        0 <= i <= j <= s.len(),
        forall|k: int| 0 <= k < j ==> is_digit(#[trigger] s[k]),
    ensures
        decimal(s.take(j)) >= decimal(s.take(i)),
        decimal(s.take(j)) >= 0,
    decreases j,
{
    if j > 0 {
        assert(s.take(j).drop_last() =~= s.take(j - 1));
        if i < j {
            lemma_decimal_grows(s, i, j - 1);
        } else {
            lemma_decimal_grows(s, 0, j - 1);
        }
    } else {
        assert(s.take(0) =~= Seq::<char>::empty());
    }
}

/// Reads a duration string such as `30s`, `15m`, `1h` or `7d` as seconds.
pub fn parse_expires_in(s: &str) -> (r: Option<u64>)
    ensures
        match duration_seconds(s@) {
            Some(v) => if v <= u64::MAX {
                r == Some(v as u64)
            } else {
                r is None
            },
            None => r is None,
        },
{
    let n = s.unicode_len();
    if n < 2 {
        return None;
    }
    let unit = s.get_char(n - 1);
    let per: u64 = if unit == 's' {
        1
    } else if unit == 'm' {
        60
    } else if unit == 'h' {
        3600
    } else if unit == 'd' {
        86400
    } else {
        return None;
    };
    let ghost digits = s@.drop_last();
    assert(unit_seconds(s@.last()) == Some(per as int));
    let mut value: u64 = 0;
    let mut i: usize = 0;
    assert(digits.take(0) =~= Seq::<char>::empty());
    while i < n - 1
        invariant
            n == s@.len(),
            n >= 2,
            digits == s@.drop_last(),
            unit_seconds(s@.last()) == Some(per as int),
            per >= 1,
            i <= n - 1,
            forall|k: int| 0 <= k < i ==> is_digit(#[trigger] digits[k]),
            value as int == decimal(digits.take(i as int)),
        decreases n - 1 - i,
    {
        let c = s.get_char(i);
        assert(digits[i as int] == c);
        if !('0' <= c && c <= '9') {
            return None;
        }
        let d = (c as u32 - '0' as u32) as u64;
        assert(digits.take(i + 1).drop_last() =~= digits.take(i as int));
        let next = match value.checked_mul(10) {
            Some(v) => v.checked_add(d),
            None => None,
        };
        match next {
            Some(v) => {
                value = v;
            },
            None => {
                proof {
                    if forall|k: int| 0 <= k < digits.len() ==> is_digit(#[trigger] digits[k]) {
                        lemma_decimal_grows(digits, i + 1, digits.len() as int);
                        assert(digits.take(digits.len() as int) =~= digits);
                        let dv = decimal(digits);
                        assert(dv * (per as int) >= dv) by (nonlinear_arith)
                            requires
                                dv >= 0,
                                per >= 1,
                        ;
                    }
                }
                return None;
            },
        }
        i = i + 1;
    }
    assert(digits.take((n - 1) as int) =~= digits);
    value.checked_mul(per)
}

/// The seconds that an `expiresIn` option asks for.
pub fn expiry_seconds(e: &ExpiresIn) -> (r: Option<u64>)
    ensures
        r == expiry_seconds_of(*e),
{
    match e {
        ExpiresIn::Seconds(n) => Some(*n),
        ExpiresIn::Text(s) => parse_expires_in(s.as_str()),
        ExpiresIn::Unset => None,
    }
}

/// The `exp` claim of a token signed at `now` with the option `e`, if any.
pub fn expiry_claim(now: u64, e: &ExpiresIn) -> (r: Option<u64>)
    ensures
        r == expiry_claim_of(now, *e),
{
    match expiry_seconds(e) {
        Some(sec) => Some(now.saturating_add(sec)),
        None => None,
    }
}

/// The members of the claims signed for `payload`: the payload's, with `exp`
/// set to the expiry claim where one is asked for.
pub open spec fn claim_members(
    payload: serde_json::Map<String, serde_json::Value>,
    expires_in: ExpiresIn,
    now: u64,
) -> Map<Seq<char>, serde_json::Value> {
    match expiry_claim_of(now, expires_in) {
        None => members(payload),
        Some(exp) => members(payload).insert("exp"@, unsigned_json(exp)),
    }
}

/// The claims to sign: the payload, with `exp` set where an expiry is asked
/// for; every other member stays as it was.
pub fn claims_with_expiry(
    payload: serde_json::Map<String, serde_json::Value>,
    expires_in: &ExpiresIn,
    now: u64,
) -> (r: serde_json::Map<String, serde_json::Value>)
    ensures
        members(r) == claim_members(payload, *expires_in, now),
        expiry_claim_of(now, *expires_in) is None ==> r == payload,
{
    let mut claims = payload;
    match expiry_claim(now, expires_in) {
        Some(exp) => {
            insert_unsigned(&mut claims, "exp", exp);
        },
        None => {},
    }
    claims
}

/// The HS256 token (default header) that claims with these members give under
/// an HMAC key made from `secret`.
pub uninterp spec fn hs256_token(claims: Map<Seq<char>, serde_json::Value>, secret: Seq<char>) -> Seq<char>;

/// Whether `token` is three dot-separated parts whose header names HS256 and
/// whose signature is the HMAC-SHA256 of the first two under `secret`.
pub uninterp spec fn hs256_signed(token: Seq<char>, secret: Seq<char>) -> bool;

/// Relies on `jsonwebtoken::encode` with the default header (HS256) and an
/// HMAC key made from the secret's bytes. It cannot fail there: the key and
/// the algorithm are both HMAC, serialising a JSON object and HMAC signing do
/// not fail. serde_json keeps an object's members sorted by name, so the token
/// depends on the members and the secret alone, and its signature checks out
/// under the same secret.
#[verifier::external_body]
fn encode_token(
    claims: &serde_json::Map<String, serde_json::Value>,
    secret: &str,
) -> (r: Result<String, jsonwebtoken::errors::Error>)
    ensures
        r is Ok,
        r is Ok ==> r->Ok_0@ == hs256_token(members(*claims), secret@),
        r is Ok ==> hs256_signed(r->Ok_0@, secret@),
{
    jsonwebtoken::encode(
        &jsonwebtoken::Header::default(),
        claims,
        &jsonwebtoken::EncodingKey::from_secret(secret.as_bytes()),
    )
}

/// Relies on `jsonwebtoken::decode` with the default validation (HS256; the
/// signature checked, and an `exp` claim required and not past, with 60
/// seconds of leeway) and an HMAC key made from the secret's bytes; the claims
/// come back as JSON. A token whose signature does not check out under the
/// secret is refused.
#[verifier::external_body]
fn decode_token(token: &str, secret: &str) -> (r: Result<serde_json::Value, jsonwebtoken::errors::Error>)
    ensures
        !hs256_signed(token@, secret@) ==> r is Err,
{
    jsonwebtoken::decode::<serde_json::Value>(
        token,
        &jsonwebtoken::DecodingKey::from_secret(secret.as_bytes()),
        &jsonwebtoken::Validation::default(),
    ).map(|data| data.claims)
}

/// Relies on the `Display` text of a `jsonwebtoken` error.
#[verifier::external_body]
fn token_error_text(e: &jsonwebtoken::errors::Error) -> (r: String) {
    e.to_string()
}

/// Signs claims with `secret`.
pub fn sign_claims(
    claims: &serde_json::Map<String, serde_json::Value>,
    secret: &str,
) -> (r: Result<String, String>)
    ensures
        r is Ok,
        r is Ok ==> r->Ok_0@ == hs256_token(members(*claims), secret@),
        r is Ok ==> hs256_signed(r->Ok_0@, secret@),
{
    match encode_token(claims, secret) {
        Ok(token) => Ok(token),
        Err(e) => Err(token_error_text(&e)),
    }
}

/// `jwt.sign(payload, secret, {expiresIn})`: the token for the payload with
/// its expiry merged in.
pub fn sign_token(
    payload: serde_json::Map<String, serde_json::Value>,
    secret: &str,
    expires_in: &ExpiresIn,
    now: u64,
) -> (r: Result<String, String>)
    ensures
        r is Ok,
        r is Ok ==> r->Ok_0@ == hs256_token(claim_members(payload, *expires_in, now), secret@),
        r is Ok ==> hs256_signed(r->Ok_0@, secret@),
{
    let claims = claims_with_expiry(payload, expires_in, now);
    sign_claims(&claims, secret)
}

pub open spec fn invalid_token_prefix() -> Seq<char> {
    "Invalid or expired JWT: "@
}

/// The message for a token that failed verification.
pub fn invalid_token_message(detail: &str) -> (r: String)
    ensures
        r@ == invalid_token_prefix() + detail@,
{
    let mut m = "Invalid or expired JWT: ".to_owned();
    m.append(detail);
    m
}

/// Checks the token's signature against `secret` and its expiry, giving its
/// claims; any failure gives an error message and no claims.
pub fn verify_token(token: &str, secret: &str) -> (r: Result<serde_json::Value, String>)
    ensures
        !hs256_signed(token@, secret@) ==> r is Err,
        r matches Err(m) ==> m@.len() >= invalid_token_prefix().len() && m@.take(
            invalid_token_prefix().len() as int,
        ) == invalid_token_prefix(),
{
    match decode_token(token, secret) {
        Ok(claims) => Ok(claims),
        Err(e) => {
            let detail = token_error_text(&e);
            let m = invalid_token_message(detail.as_str());
            assert(m@.take(invalid_token_prefix().len() as int) =~= invalid_token_prefix());
            Err(m)
        },
    }
}

/// Whether bcrypt accepts `password` against `hash`, or `None` where `hash`
/// cannot be read as a bcrypt hash.
pub uninterp spec fn bcrypt_verdict(password: Seq<char>, hash: Seq<char>) -> Option<bool>;

/// Relies on `bcrypt::hash` at its default cost of 12: on success the result
/// is `$2b$12$` followed by 22 characters of salt and 31 of hash. The salt is
/// drawn at random.
#[verifier::external_body]
fn bcrypt_hash(password: &str) -> (r: Result<String, bcrypt::BcryptError>)
    ensures
        r matches Ok(h) ==> h@.len() == 60 && h@.take(7) == "$2b$12$"@,
{
    bcrypt::hash(password, bcrypt::DEFAULT_COST)
}

/// Relies on `bcrypt::verify`: its answer depends on the two strings alone,
/// and a hash that holds no `$` cannot be split into its parts.
#[verifier::external_body]
fn bcrypt_check(password: &str, hash: &str) -> (r: Result<bool, bcrypt::BcryptError>)
    ensures
        r matches Ok(b) ==> bcrypt_verdict(password@, hash@) == Some(b),
        r is Err ==> bcrypt_verdict(password@, hash@) is None,
        !hash@.contains('$') ==> r is Err,
{
    bcrypt::verify(password, hash)
}

/// Relies on the `Display` text of a `bcrypt` error.
#[verifier::external_body]
fn password_error_text(e: &bcrypt::BcryptError) -> (r: String) {
    e.to_string()
}

/// Hashes a password with a fresh random salt; two calls on one password give
/// different strings, each of which `password_verify` accepts.
pub fn password_hash(password: &str) -> (r: Result<String, String>)
    ensures
        r matches Ok(h) ==> h@.len() == 60 && h@.take(7) == "$2b$12$"@,
{
    match bcrypt_hash(password) {
        Ok(h) => Ok(h),
        Err(e) => Err(password_error_text(&e)),
    }
}

/// Whether `password` matches `hash`; a malformed hash gives `false`.
pub fn password_verify(password: &str, hash: &str) -> (r: bool)
    ensures
        r == (bcrypt_verdict(password@, hash@) == Some(true)),
        !hash@.contains('$') ==> !r,
{
    match bcrypt_check(password, hash) {
        Ok(b) => b,
        Err(_) => false,
    }
}

} // verus!
