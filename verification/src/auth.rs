//! App-level authentication state: whether the user is signed in, the
//! session token, and the count of failed attempts.

use vstd::prelude::*;
use std::time::Duration;
use crate::text::concat_strs;

verus! {

/// Overwrites the token with zeroes (`zeroize`'s `Zeroize` for byte arrays,
/// which writes the default value, 0, to every element in a way that the
/// compiler does not remove).
#[verifier::external_body]
fn wipe(token: &mut [u8; 32])
    ensures
        final(token)@ == Seq::new(32, |i: int| 0u8),
{
    zeroize::Zeroize::zeroize(token);
}

/// Authentication errors.
pub enum AuthError {
    /// Invalid PIN provided
    InvalidPin,
    /// Biometric authentication failed
    BiometricFailed,
    /// Biometrics not available on this platform
    BiometricsUnavailable,
    /// Too many failed attempts, locked out for the given time
    RateLimited(Duration),
    /// Session has expired
    SessionExpired,
    /// Not authenticated
    NotAuthenticated,
}

/// The text std's `Debug` writes for a duration (such as `300s`). A
/// `Duration` is a plain count of seconds and nanoseconds, and that text
/// depends on those alone.
pub uninterp spec fn duration_debug_text(d: Duration) -> Seq<char>;

/// std's `Debug` text of a duration, as `format!("{:?}", d)` writes it.
#[verifier::external_body]
fn duration_debug(d: &Duration) -> (r: String)
    ensures
        r@ == duration_debug_text(*d),
{
    format!("{:?}", d)
}

/// The message of each error but the lockout, which also names the time.
pub open spec fn auth_error_text(e: AuthError) -> Seq<char> {
    match e {
        AuthError::InvalidPin => "invalid PIN"@,
        AuthError::BiometricFailed => "biometric authentication failed"@,
        AuthError::BiometricsUnavailable => "biometrics not available"@,
        AuthError::RateLimited(_) => "too many failed attempts, locked for "@,
        AuthError::SessionExpired => "session expired"@,
        AuthError::NotAuthenticated => "not authenticated"@,
    }
}

impl AuthError {
    /// The error's message. For the lockout it is the text above followed
    /// by the lockout time as std's `Debug` writes a `Duration`.
    pub fn message(&self) -> (r: String)
        ensures
            !(self is RateLimited) ==> r@ == auth_error_text(*self),
            self matches AuthError::RateLimited(d) ==> r@ == auth_error_text(*self)
                + duration_debug_text(*d),
    {
        match self {
            AuthError::InvalidPin => "invalid PIN".to_string(),
            AuthError::BiometricFailed => "biometric authentication failed".to_string(),
            AuthError::BiometricsUnavailable => "biometrics not available".to_string(),
            AuthError::RateLimited(d) => {
                let t = duration_debug(d);
                concat_strs("too many failed attempts, locked for ", t.as_str())
            },
            AuthError::SessionExpired => "session expired".to_string(),
            AuthError::NotAuthenticated => "not authenticated".to_string(),
        }
    }
}

/// Authentication state.
pub struct AuthState {
    /// Whether the user is authenticated
    authenticated: bool,
    /// Session token, wiped in place on lock
    session_token: [u8; 32],
    /// Whether `session_token` holds a token
    has_session_token: bool,
    /// Failed attempt count
    failed_attempts: u32,
}

impl AuthState {
    /// Whether the user is authenticated.
    pub closed spec fn authenticated(&self) -> bool {
        self.authenticated
    }

    /// Whether a session token is held.
    pub closed spec fn has_token(&self) -> bool {
        self.has_session_token
    }

    /// The bytes of the token store.
    pub closed spec fn token_bytes(&self) -> Seq<u8> {
        self.session_token@
    }

    /// The number of failed attempts.
    pub closed spec fn failures(&self) -> u32 {
        self.failed_attempts
    }

    /// A new state: not authenticated, no token, no failed attempt.
    pub fn new() -> (r: Self)
        ensures
            !r.authenticated(),
            !r.has_token(),
            r.failures() == 0,
    {
        AuthState {
            authenticated: false,
            session_token: [0u8; 32],
            has_session_token: false,
            failed_attempts: 0,
        }
    }

    /// Whether the user is authenticated.
    pub fn is_authenticated(&self) -> (r: bool)
        ensures
            r == self.authenticated(),
    {
        self.authenticated
    }

    /// The number of failed attempts.
    pub fn failed_attempts(&self) -> (r: u32)
        ensures
            r == self.failures(),
    {
        self.failed_attempts
    }

    /// Locks the session: the user is no longer authenticated and the
    /// session token is overwritten with zeroes where it is stored and
    /// dropped; the failed attempts stay.
    pub fn lock(&mut self)
        ensures
            !final(self).authenticated(),
            !final(self).has_token(),
            final(self).token_bytes() == Seq::new(32, |i: int| 0u8),
            final(self).failures() == old(self).failures(),
    {
        self.authenticated = false;
        wipe(&mut self.session_token);
        self.has_session_token = false;
    }
}

impl Default for AuthState {
    /// The same state as `new`.
    fn default() -> (r: Self)
        ensures
            !r.authenticated(),
            !r.has_token(),
            r.failures() == 0,
    {
        AuthState::new()
    }
}

} // verus!
