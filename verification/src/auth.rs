//! Shared password authentication, signed-cookie payloads, and bounded state.
pub mod jobs;
pub mod key;
pub mod limiter;
pub mod password;
pub mod sessions;
pub mod tokens;
pub mod viewer_tokens;
use vstd::prelude::*;

verus! {

/// Required size of both configured and persisted master signing keys.
pub const MASTER_KEY_BYTES: usize = 32;

/// Browser and server lifetime of admin sessions, in seconds: thirty days.
pub const SESSION_LIFETIME: u64 = 2_592_000;

/// Browser and server lifetime of pre-login challenges, in seconds: fifteen minutes.
pub const CHALLENGE_LIFETIME: u64 = 900;

/// Browser and server lifetime of viewer grants, in seconds: seven days.
pub const VIEWER_GRANT_LIFETIME: u64 = 604_800;

/// Browser and server lifetime of slug-bound unlock challenges, in seconds.
pub const VIEWER_CHALLENGE_LIFETIME: u64 = CHALLENGE_LIFETIME;

}
