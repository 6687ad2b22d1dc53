//! Authentication configuration, development users and authentication
//! errors.

use vstd::prelude::*;
use vstd::string::*;
use std::collections::hash_map::DefaultHasher;
use std::hash::RandomState;
use std::hash::Hasher;
use crate::text::{alnum, chars_of, is_alnum, lit, push_char, utf8_len, utf8_longer_than};

verus! {

broadcast use vstd::string::group_string_axioms;

/// User roles.
#[derive(Debug, Clone, Copy, PartialEq, Eq, Structural)]
pub enum Role {
    /// Administrator.
    Admin,
    /// Regular user.
    User,
}

// ---------------------------------------------------------------------------
// Password hashing (bcrypt)
// ---------------------------------------------------------------------------

/// Whether `bcrypt::verify` accepts `password` for `hash`.
pub uninterp spec fn bcrypt_verifies(password: Seq<char>, hash: Seq<char>) -> bool;

/// Hash a password with `bcrypt::hash` at `bcrypt::DEFAULT_COST` (12) and a
/// fresh random salt. The result is `$2b$12$`, a 22-character salt and a
/// 31-character digest, 60 characters in all, and `bcrypt::verify` accepts
/// the password against it (it recomputes the digest with the stored salt
/// and cost). The salt is random, so nothing more is said of the result.
/// `bcrypt::hash` fails only for a cost outside 4..=31, which 12 is not, or
/// when the operating system gives no randomness; then this panics, since no
/// hash can be made without a salt.
#[verifier::external_body]
fn bcrypt_hash_default(password: &str) -> (r: String)
    ensures
        bcrypt_verifies(password@, r@),
        r@.len() == 60,
        r@[0] == '$' && r@[1] == '2' && r@[2] == 'b' && r@[3] == '$',
{
    bcrypt::hash(password, bcrypt::DEFAULT_COST).expect("Failed to hash password")
}

/// `bcrypt::verify(password, hash)`, with a malformed hash counted as a
/// mismatch.
#[verifier::external_body]
fn bcrypt_verify(password: &str, hash: &str) -> (r: bool)
    ensures
        r == bcrypt_verifies(password@, hash@),
{
    bcrypt::verify(password, hash).unwrap_or(false)
}

// ---------------------------------------------------------------------------
// Development users
// ---------------------------------------------------------------------------

/// Development user configuration.
#[derive(Debug, Clone)]
pub struct DevUser {
    /// User ID.
    pub id: String,
    /// Display name.
    pub name: String,
    /// Email address.
    pub email: String,
    /// Password hash (bcrypt).
    pub password_hash: String,
    /// Role.
    pub role: Role,
}

impl DevUser {
    /// A dev user with a pre-hashed password.
    pub fn new(id: &str, name: &str, email: &str, password_hash: &str, role: Role) -> (r: Self)
        ensures
            r.id@ == id@,
            r.name@ == name@,
            r.email@ == email@,
            r.password_hash@ == password_hash@,
            r.role == role,
    {
        DevUser {
            id: lit(id),
            name: lit(name),
            email: lit(email),
            password_hash: lit(password_hash),
            role,
        }
    }

    /// A dev user whose password is given in plain text and stored as a
    /// bcrypt hash.
    pub fn new_with_plaintext(id: &str, name: &str, email: &str, password: &str, role: Role) -> (r:
        Self)
        ensures
            r.id@ == id@,
            r.name@ == name@,
            r.email@ == email@,
            r.role == role,
            bcrypt_verifies(password@, r.password_hash@),
            r.password_hash@.len() == 60,
            r.password_hash@[0] == '$' && r.password_hash@[1] == '2',
    {
        DevUser {
            id: lit(id),
            name: lit(name),
            email: lit(email),
            password_hash: bcrypt_hash_default(password),
            role,
        }
    }

    /// Whether `password` matches this user's hash.
    pub fn verify_password(&self, password: &str) -> (r: bool)
        ensures
            r == bcrypt_verifies(password@, self.password_hash@),
    {
        bcrypt_verify(password, self.password_hash.as_str())
    }
}

// ---------------------------------------------------------------------------
// Configuration
// ---------------------------------------------------------------------------

/// Authentication configuration.
#[derive(Debug, Clone)]
pub struct AuthConfig {
    /// Enable development mode (bypass JWT validation).
    pub dev_mode: bool,
    /// JWT secret for HS256; required when `dev_mode` is false.
    pub jwt_secret: Option<String>,
    /// OIDC issuer URL (for RS256 with JWKS).
    pub oidc_issuer: Option<String>,
    /// OIDC audience.
    pub oidc_audience: Option<String>,
    /// Development users (only used in dev mode).
    pub dev_users: Vec<DevUser>,
    /// Allowed CORS origins. If empty in production, CORS is disabled.
    pub allowed_origins: Vec<String>,
}

/// Configuration validation errors.
#[derive(Debug, Clone, Copy, PartialEq, Eq, Structural)]
pub enum ConfigValidationError {
    /// JWT secret is required in production mode.
    MissingJwtSecret,
    /// JWT secret is the insecure default value.
    InsecureJwtSecret,
    /// JWT secret is too short (minimum 32 bytes).
    JwtSecretTooShort,
}

/// The problem `AuthConfig::validate` reports, if any.
pub open spec fn config_problem(c: AuthConfig) -> Option<ConfigValidationError> {
    if c.dev_mode {
        None
    } else {
        match c.jwt_secret {
            None => Some(ConfigValidationError::MissingJwtSecret),
            Some(s) => if s@ == "dev-secret-change-in-production"@ {
                Some(ConfigValidationError::InsecureJwtSecret)
            } else if utf8_len(s@) < 32 {
                Some(ConfigValidationError::JwtSecretTooShort)
            } else {
                None
            },
        }
    }
}

/// The message of a configuration validation error.
pub open spec fn config_problem_message(e: ConfigValidationError) -> Seq<char> {
    match e {
        ConfigValidationError::MissingJwtSecret =>
            "JWT secret is required when dev_mode is false. Set AUTH_JWT_SECRET environment variable or jwt_secret in config."@,
        ConfigValidationError::InsecureJwtSecret =>
            "JWT secret cannot be the default insecure value in production. Please configure a secure secret."@,
        ConfigValidationError::JwtSecretTooShort =>
            "JWT secret must be at least 32 characters long for security."@,
    }
}

impl ConfigValidationError {
    /// The message shown to operators.
    pub fn message(&self) -> (r: String)
        ensures
            r@ == config_problem_message(*self),
    {
        match self {
            ConfigValidationError::MissingJwtSecret => lit(
                "JWT secret is required when dev_mode is false. Set AUTH_JWT_SECRET environment variable or jwt_secret in config.",
            ),
            ConfigValidationError::InsecureJwtSecret => lit(
                "JWT secret cannot be the default insecure value in production. Please configure a secure secret.",
            ),
            ConfigValidationError::JwtSecretTooShort => lit(
                "JWT secret must be at least 32 characters long for security.",
            ),
        }
    }
}

impl AuthConfig {
    /// Check the configuration for the current mode: outside dev mode a JWT
    /// secret is required, must not be the known insecure default and must be at least
    /// 32 bytes long.
    pub fn validate(&self) -> (r: Result<(), ConfigValidationError>)
        ensures
            match config_problem(*self) {
                None => r is Ok,
                Some(e) => r == Err::<(), ConfigValidationError>(e),
            },
    {
        if !self.dev_mode {
            match &self.jwt_secret {
                None => {
                    return Err(ConfigValidationError::MissingJwtSecret);
                },
                Some(secret) => {
                    if *secret == lit("dev-secret-change-in-production") {
                        return Err(ConfigValidationError::InsecureJwtSecret);
                    }
                    let v = chars_of(secret.as_str());
                    if !utf8_longer_than(&v, 31) {
                        return Err(ConfigValidationError::JwtSecretTooShort);
                    }
                },
            }
        }
        Ok(())
    }

    /// A random 64-character JWT secret: for each character, a hasher
    /// freshly seeded at random is fed the current time in nanoseconds (0
    /// when the clock reads before 1970), and its hash picks the character
    /// (see `jwt_secret_of`).
    pub fn generate_jwt_secret() -> (r: String)
        ensures
            exists|d: Seq<u64>| d.len() == 64 && r@ == jwt_secret_of(d),
            r@.len() == 64,
            forall|i: int| 0 <= i < 64 ==> is_alnum(#[trigger] r@[i]),
    {
        let mut draws: Vec<u64> = Vec::new();
        let mut k: usize = 0;
        while k < 64
            invariant
                k <= 64,
                draws@.len() == k,
            decreases 64 - k,
        {
            let state = new_random_state();
            let mut h = build_hasher(&state);
            let nanos: u128 = match unix_time_nanos() {
                Some(n) => n,
                None => 0,
            };
            hasher_write_u64(&mut h, nanos as u64);
            draws.push(h.finish());
            k = k + 1;
        }
        let r = jwt_secret_from_draws(&draws);
        proof {
            lemma_jwt_alphabet();
            assert forall|i: int| 0 <= i < 64 implies is_alnum(#[trigger] r@[i]) by {
                assert(r@[i] == jwt_alphabet()[(draws@[i] % 62) as int]);
            }
        }
        r
    }
}

/// The characters a JWT secret is made of.
pub open spec fn jwt_alphabet() -> Seq<char> {
    "ABCDEFGHIJKLMNOPQRSTUVWXYZabcdefghijklmnopqrstuvwxyz0123456789"@
}

/// The secret drawn: each draw picks the alphabet's character at the draw
/// modulo 62.
pub open spec fn jwt_secret_of(d: Seq<u64>) -> Seq<char> {
    Seq::new(d.len(), |i: int| jwt_alphabet()[(d[i] % 62) as int])
}

proof fn lemma_jwt_alphabet()
    ensures
        jwt_alphabet().len() == 62,
        forall|i: int| 0 <= i < 62 ==> is_alnum(#[trigger] jwt_alphabet()[i]),
{
    reveal_strlit("ABCDEFGHIJKLMNOPQRSTUVWXYZabcdefghijklmnopqrstuvwxyz0123456789");
}

/// The secret for a list of draws (see `jwt_secret_of`).
pub fn jwt_secret_from_draws(draws: &Vec<u64>) -> (r: String)
    ensures
        r@ == jwt_secret_of(draws@),
{
    let alphabet = chars_of("ABCDEFGHIJKLMNOPQRSTUVWXYZabcdefghijklmnopqrstuvwxyz0123456789");
    proof {
        lemma_jwt_alphabet();
    }
    let mut result = String::new();
    let mut k: usize = 0;
    while k < draws.len()
        invariant
            k <= draws@.len(),
            alphabet@ == jwt_alphabet(),
            alphabet@.len() == 62,
            result@ == jwt_secret_of(draws@).subrange(0, k as int),
        decreases draws.len() - k,
    {
        let idx = (draws[k] % 62) as usize;
        push_char(&mut result, alphabet[idx]);
        k = k + 1;
        assert(result@ =~= jwt_secret_of(draws@).subrange(0, k as int));
    }
    assert(jwt_secret_of(draws@).subrange(0, k as int) =~= jwt_secret_of(draws@));
    result
}

/// A fresh randomly seeded hasher state (`RandomState::new`); each one is
/// seeded differently, so nothing is said of it.
#[verifier::external_body]
fn new_random_state() -> (r: RandomState) {
    RandomState::new()
}

/// A hasher from `state` (`BuildHasher::build_hasher`).
#[verifier::external_body]
fn build_hasher(state: &RandomState) -> (r: DefaultHasher) {
    std::hash::BuildHasher::build_hasher(state)
}

/// Feed a `u64` to a hasher (`Hasher::write_u64`).
#[verifier::external_body]
fn hasher_write_u64(h: &mut DefaultHasher, x: u64) {
    std::hash::Hasher::write_u64(h, x)
}

/// Nanoseconds since the Unix epoch (`SystemTime::now`, then
/// `duration_since(UNIX_EPOCH)` and `as_nanos`), as the clock reads them;
/// `None` when the clock is set before 1970, where `duration_since` fails.
/// The reading itself depends on the clock, so nothing more is said of it.
#[verifier::external_body]
pub(crate) fn unix_time_nanos() -> (r: Option<u128>) {
    match std::time::SystemTime::now().duration_since(std::time::UNIX_EPOCH) {
        Ok(d) => Some(d.as_nanos()),
        Err(_) => None,
    }
}

impl Default for AuthConfig {
    /// Dev mode with no JWT secret, two development users (`dev`, an
    /// administrator, and `user`) and the local front-end origins.
    fn default() -> (r: Self)
        ensures
            r.dev_mode,
            r.jwt_secret is None,
            r.oidc_issuer is None,
            r.oidc_audience is None,
            r.dev_users@.len() == 2,
            r.dev_users@[0].id@ == "dev"@,
            r.dev_users@[0].role == Role::Admin,
            bcrypt_verifies("devpassword123"@, r.dev_users@[0].password_hash@),
            r.dev_users@[1].id@ == "user"@,
            r.dev_users@[1].role == Role::User,
            bcrypt_verifies("userpassword123"@, r.dev_users@[1].password_hash@),
            r.allowed_origins@.len() == 2,
            r.allowed_origins@[0]@ == "http://localhost:3000"@,
            r.allowed_origins@[1]@ == "http://localhost:8080"@,
    {
        AuthConfig {
            dev_mode: true,
            jwt_secret: None,
            oidc_issuer: None,
            oidc_audience: None,
            dev_users: vec![
                DevUser::new_with_plaintext(
                    "dev",
                    "Developer",
                    "dev@localhost",
                    "devpassword123",
                    Role::Admin,
                ),
                DevUser::new_with_plaintext(
                    "user",
                    "Test User",
                    "user@localhost",
                    "userpassword123",
                    Role::User,
                ),
            ],
            allowed_origins: vec![lit("http://localhost:3000"), lit("http://localhost:8080")],
        }
    }
}

// ---------------------------------------------------------------------------
// Errors
// ---------------------------------------------------------------------------

/// Authentication errors.
#[derive(Debug, Clone)]
pub enum AuthError {
    /// Missing authorization header.
    MissingAuthHeader,
    /// Invalid authorization header format.
    InvalidAuthHeader,
    /// Invalid token.
    InvalidToken(String),
    /// Token expired.
    TokenExpired,
    /// Insufficient permissions.
    InsufficientPermissions(String),
    /// User not found.
    UserNotFound,
    /// Invalid credentials.
    InvalidCredentials,
    /// Internal error.
    Internal(String),
}

/// Error response body.
#[derive(Debug, Clone)]
pub struct AuthErrorResponse {
    pub error: String,
    pub error_code: String,
}

/// The message of an authentication error.
pub open spec fn auth_error_message(e: AuthError) -> Seq<char> {
    match e {
        AuthError::MissingAuthHeader => "missing authorization header"@,
        AuthError::InvalidAuthHeader => "invalid authorization header format"@,
        AuthError::InvalidToken(m) => "invalid token: "@ + m@,
        AuthError::TokenExpired => "token expired"@,
        AuthError::InsufficientPermissions(m) => "insufficient permissions: "@ + m@,
        AuthError::UserNotFound => "user not found"@,
        AuthError::InvalidCredentials => "invalid credentials"@,
        AuthError::Internal(m) => "internal auth error: "@ + m@,
    }
}

/// The HTTP status and machine-readable code of an authentication error.
pub open spec fn auth_error_status(e: AuthError) -> (u16, Seq<char>) {
    match e {
        AuthError::MissingAuthHeader => (401, "missing_auth_header"@),
        AuthError::InvalidAuthHeader => (401, "invalid_auth_header"@),
        AuthError::InvalidToken(_) => (401, "invalid_token"@),
        AuthError::TokenExpired => (401, "token_expired"@),
        AuthError::InsufficientPermissions(_) => (403, "insufficient_permissions"@),
        AuthError::UserNotFound => (404, "user_not_found"@),
        AuthError::InvalidCredentials => (401, "invalid_credentials"@),
        AuthError::Internal(_) => (500, "internal_error"@),
    }
}

impl AuthError {
    /// The message shown to clients.
    pub fn message(&self) -> (r: String)
        ensures
            r@ == auth_error_message(*self),
    {
        match self {
            AuthError::MissingAuthHeader => lit("missing authorization header"),
            AuthError::InvalidAuthHeader => lit("invalid authorization header format"),
            AuthError::InvalidToken(m) => {
                let mut s = lit("invalid token: ");
                s.append(m.as_str());
                s
            },
            AuthError::TokenExpired => lit("token expired"),
            AuthError::InsufficientPermissions(m) => {
                let mut s = lit("insufficient permissions: ");
                s.append(m.as_str());
                s
            },
            AuthError::UserNotFound => lit("user not found"),
            AuthError::InvalidCredentials => lit("invalid credentials"),
            AuthError::Internal(m) => {
                let mut s = lit("internal auth error: ");
                s.append(m.as_str());
                s
            },
        }
    }

    /// The HTTP status and the response body sent for this error.
    pub fn response(&self) -> (r: (u16, AuthErrorResponse))
        ensures
            r.0 == auth_error_status(*self).0,
            r.1.error_code@ == auth_error_status(*self).1,
            r.1.error@ == auth_error_message(*self),
    {
        let (status, code) = match self {
            AuthError::MissingAuthHeader => (401u16, lit("missing_auth_header")),
            AuthError::InvalidAuthHeader => (401u16, lit("invalid_auth_header")),
            AuthError::InvalidToken(_) => (401u16, lit("invalid_token")),
            AuthError::TokenExpired => (401u16, lit("token_expired")),
            AuthError::InsufficientPermissions(_) => (403u16, lit("insufficient_permissions")),
            AuthError::UserNotFound => (404u16, lit("user_not_found")),
            AuthError::InvalidCredentials => (401u16, lit("invalid_credentials")),
            AuthError::Internal(_) => (500u16, lit("internal_error")),
        };
        (status, AuthErrorResponse { error: self.message(), error_code: code })
    }
}

} // verus!
