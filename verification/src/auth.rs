//! Account registration and login: validation, password hashing and
//! verification, token claims, and the bearer-credential extraction the
//! authentication middleware performs.
//!
//! Password hashing and verification call into the argon2 crate through
//! trusted wrappers; what a hash is stays opaque, but verification is a
//! function of password and hash alone, and a freshly produced hash
//! verifies against the password it was made from.

use vstd::prelude::*;

use crate::error::AppError;

verus! {

/// Body of a registration request.
pub struct RegisterRequest {
    pub email: String,
    pub name: String,
    pub password: String,
}

/// Body of a login request.
pub struct LoginRequest {
    pub email: String,
    pub password: String,
}

/// A signed credential and the account it names.
pub struct AuthResponse {
    pub token: String,
    pub user: UserResponse,
}

/// The public shape of one account.
pub struct UserResponse {
    pub id: String,
    pub email: String,
    pub name: String,
}

/// The claims carried inside a signed token.
pub struct Claims {
    pub sub: String,
    pub email: String,
    pub name: String,
    pub exp: usize,
}

/// The identity the middleware attaches to an authenticated request.
pub struct AuthUser {
    pub id: String,
    pub email: String,
    pub name: String,
}

/// How long a token stays valid, in seconds: seven days.
pub const TOKEN_LIFETIME_SECS: usize = 604800;

/// Whether argon2 verification of this password against this PHC hash
/// string succeeds; a function of the two values alone.
pub uninterp spec fn argon2_matches(password: Seq<char>, hash: Seq<char>) -> bool;

/// Whether this string parses as a PHC password-hash string.
pub uninterp spec fn phc_parses(hash: Seq<char>) -> bool;

/// Relies on argon2::password_hash::SaltString::generate and
/// argon2::Argon2::hash_password: whatever salt is drawn, a hash produced
/// from a password is a well-formed PHC string that verifies against that
/// same password.
#[verifier::external_body]
fn argon2_hash(password: &str) -> (r: Result<String, ()>)
    ensures
        r matches Ok(h) ==> phc_parses(h@) && argon2_matches(password@, h@),
{
    let salt = argon2::password_hash::SaltString::generate(
        &mut argon2::password_hash::rand_core::OsRng,
    );
    match argon2::password_hash::PasswordHasher::hash_password(
        &argon2::Argon2::default(),
        password.as_bytes(),
        &salt,
    ) {
        Ok(h) => Ok(h.to_string()),
        Err(_) => Err(()),
    }
}

/// Relies on argon2::password_hash::PasswordHash::new and
/// argon2::Argon2::verify_password: parsing succeeds exactly on
/// well-formed PHC strings, and verification decides the same way for the
/// same password and hash.
#[verifier::external_body]
fn argon2_verify(password: &str, hash: &str) -> (r: Result<bool, ()>)
    ensures
        r is Ok <==> phc_parses(hash@),
        r matches Ok(b) ==> b == argon2_matches(password@, hash@),
{
    match argon2::password_hash::PasswordHash::new(hash) {
        Ok(parsed) => Ok(
            argon2::password_hash::PasswordVerifier::verify_password(
                &argon2::Argon2::default(),
                password.as_bytes(),
                &parsed,
            ).is_ok(),
        ),
        Err(_) => Err(()),
    }
}

/// Hash a password for storage. On success the returned PHC string
/// verifies against the password it was made from.
pub fn hash_password(password: &str) -> (r: Result<String, AppError>)
    ensures
        r matches Ok(h) ==> phc_parses(h@) && argon2_matches(password@, h@),
        r matches Err(e) ==> e is Internal,
{
    match argon2_hash(password) {
        Ok(h) => Ok(h),
        Err(_) => Err(AppError::Internal("Failed to hash password".to_owned())),
    }
}

/// Check a password against a stored PHC hash string. A malformed stored
/// hash is an internal error; otherwise the answer is exactly whether the
/// password matches.
pub fn verify_password(password: &str, hash: &str) -> (r: Result<bool, AppError>)
    ensures
        r is Ok <==> phc_parses(hash@),
        r matches Ok(b) ==> b == argon2_matches(password@, hash@),
        r matches Err(e) ==> e is Internal,
{
    match argon2_verify(password, hash) {
        Ok(b) => Ok(b),
        Err(_) => Err(AppError::Internal("Invalid password hash".to_owned())),
    }
}

/// A registration is accepted exactly when the email is non-empty and
/// holds an `@`, the name is non-empty, and the password has at least
/// eight characters; the first failing rule, in that order, names the
/// rejection.
pub fn validate_registration(req: &RegisterRequest) -> (r: Result<(), AppError>)
    ensures
        r is Ok <==> req.email@.len() > 0 && req.email@.contains('@') && req.name@.len() > 0
            && req.password@.len() >= 8,
        !(req.email@.len() > 0 && req.email@.contains('@')) ==> (r matches Err(e)
            && e is Validation),
        req.email@.len() > 0 && req.email@.contains('@') && req.name@.len() == 0 ==> (
        r matches Err(e) && e is Validation),
        req.email@.len() > 0 && req.email@.contains('@') && req.name@.len() > 0
            && req.password@.len() < 8 ==> (r matches Err(e) && e is Validation),
{
    let email_len = req.email.as_str().unicode_len();
    let at = crate::text::find_char(req.email.as_str(), '@');
    proof {
        crate::text::lemma_first_index_of(req.email@, '@');
        if at < email_len {
            assert(req.email@.contains('@'));
        } else {
            assert(!req.email@.contains('@')) by {
                if req.email@.contains('@') {
                    let w = choose|i: int|
                        0 <= i < req.email@.len() && req.email@[i] == '@';
                    assert(req.email@[w] != '@');
                }
            }
        }
    }
    if email_len == 0 || at == email_len {
        return Err(AppError::Validation("Invalid email address".to_owned()));
    }
    if req.name.as_str().unicode_len() == 0 {
        return Err(AppError::Validation("Name is required".to_owned()));
    }
    if req.password.as_str().unicode_len() < 8 {
        return Err(AppError::Validation(
            "Password must be at least 8 characters".to_owned(),
        ));
    }
    Ok(())
}

/// Assemble the claims of a fresh token: the account identity, expiring
/// [`TOKEN_LIFETIME_SECS`] after `now_ts` (seconds since the epoch).
pub fn token_claims(user_id: &str, email: &str, name: &str, now_ts: usize) -> (r: Claims)
    requires
        now_ts + TOKEN_LIFETIME_SECS <= usize::MAX,
    ensures
        r.sub@ == user_id@,
        r.email@ == email@,
        r.name@ == name@,
        r.exp == now_ts + TOKEN_LIFETIME_SECS,
{
    Claims {
        sub: user_id.to_owned(),
        email: email.to_owned(),
        name: name.to_owned(),
        exp: now_ts + TOKEN_LIFETIME_SECS,
    }
}

/// The identity a set of verified claims names.
pub fn auth_user_of_claims(c: Claims) -> (r: AuthUser)
    ensures
        r.id@ == c.sub@,
        r.email@ == c.email@,
        r.name@ == c.name@,
{
    AuthUser { id: c.sub, email: c.email, name: c.name }
}

/// The scheme prefix of a bearer credential.
pub open spec fn bearer_prefix() -> Seq<char> {
    seq!['B', 'e', 'a', 'r', 'e', 'r', ' ']
}

/// The credential carried by an authorization header: the part after the
/// `Bearer ` scheme prefix, or nothing when the prefix is absent.
pub fn bearer_token(header: &str) -> (r: Option<&str>)
    ensures
        header@.len() >= 7 && header@.take(7) == bearer_prefix() ==> (r matches Some(t) && t@
            == header@.skip(7)),
        !(header@.len() >= 7 && header@.take(7) == bearer_prefix()) ==> r is None,
{
    let n = header.unicode_len();
    if n < 7 {
        return None;
    }
    let ok = header.get_char(0) == 'B' && header.get_char(1) == 'e' && header.get_char(2) == 'a'
        && header.get_char(3) == 'r' && header.get_char(4) == 'e' && header.get_char(5) == 'r'
        && header.get_char(6) == ' ';
    if ok {
        proof {
            assert(header@.take(7) =~= bearer_prefix());
        }
        Some(header.substring_char(7, n))
    } else {
        proof {
            if header@.take(7) == bearer_prefix() {
                assert(header@[0] == 'B' && header@[1] == 'e' && header@[2] == 'a' && header@[3]
                    == 'r' && header@[4] == 'e' && header@[5] == 'r' && header@[6] == ' ') by {
                    assert(forall|k: int| 0 <= k < 7 ==> header@.take(7)[k] == header@[k]);
                }
            }
        }
        None
    }
}

} // verus!
