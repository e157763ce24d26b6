//! Login sessions: their lifetime and the check of a presented token.
use vstd::prelude::*;

use crate::calendar::{parse_rfc3339, rfc3339_instant};
use crate::crypto::{generate_session_token, hash_session_token, is_token_text, token_hash_text};
use crate::error::{failure_of, internal, internal_failure, AppError, AppResult};
use crate::time::{Timestamp, MAX_TIMESTAMP};

verus! {

/// Longest session lifetime, in seconds, that the time library takes.
pub const MAX_TTL_SECONDS: u64 = 9_223_372_036_854_775;

/// The instant `secs` whole seconds after `at` (a leap second counts as the
/// second before it once left).
pub open spec fn later_by(at: Timestamp, secs: int) -> Timestamp {
    if secs > 0 && at.nanos >= 1_000_000_000 {
        Timestamp { secs: (at.secs + secs) as i64, nanos: (at.nanos - 1_000_000_000) as u32 }
    } else {
        Timestamp { secs: (at.secs + secs) as i64, nanos: at.nanos }
    }
}

/// When a session opened at `now` with a lifetime of `ttl_secs` seconds ends;
/// a lifetime the time library cannot take is an internal error.
pub fn session_expiry(now: Timestamp, ttl_secs: u64) -> (r: AppResult<Timestamp>)
    requires
        now.wf(),
        ttl_secs <= MAX_TTL_SECONDS ==> now.secs + ttl_secs <= MAX_TIMESTAMP,
    ensures
        ttl_secs > MAX_TTL_SECONDS ==> (r matches Err(e) && failure_of(e) == internal_failure(
            "SESSION_TTL ungültig"@,
        )),
        ttl_secs <= MAX_TTL_SECONDS ==> r == Ok::<Timestamp, AppError>(later_by(now, ttl_secs as int)),
        r matches Ok(t) ==> t.wf(),
{
    if ttl_secs > MAX_TTL_SECONDS {
        return Err(internal("SESSION_TTL ungültig"));
    }
    let secs = now.secs + ttl_secs as i64;
    if ttl_secs > 0 && now.nanos >= 1_000_000_000 {
        Ok(Timestamp { secs, nanos: now.nanos - 1_000_000_000 })
    } else {
        proof {
            if now.nanos >= 1_000_000_000 {
                assert(ttl_secs == 0);
            }
        }
        Ok(Timestamp { secs, nanos: now.nanos })
    }
}

/// A new session: the token handed to the client, the hash stored for it, and
/// when it ends.
pub struct NewSession {
    pub token: String,
    pub token_hash: String,
    pub expires_at: Timestamp,
}

/// Opens a session at `now`: a fresh random token, its stored hash, and the end
/// of its lifetime.
pub fn open_session(now: Timestamp, ttl_secs: u64) -> (r: AppResult<NewSession>)
    requires
        now.wf(),
        ttl_secs <= MAX_TTL_SECONDS ==> now.secs + ttl_secs <= MAX_TIMESTAMP,
    ensures
        ttl_secs > MAX_TTL_SECONDS ==> (r matches Err(e) && failure_of(e) == internal_failure(
            "SESSION_TTL ungültig"@,
        )),
        ttl_secs <= MAX_TTL_SECONDS ==> (r matches Ok(s) && is_token_text(s.token@) && s.token_hash@
            == token_hash_text(s.token@) && s.expires_at == later_by(now, ttl_secs as int)),
{
    let token = generate_session_token();
    let token_hash = hash_session_token(token.as_str());
    let expires_at = session_expiry(now, ttl_secs)?;
    Ok(NewSession { token, token_hash, expires_at })
}

/// What a presented token gives: the user of a live session, or an expired
/// session that is then deleted.
#[derive(Debug, Clone, Copy, PartialEq, Eq)]
pub enum SessionCheck {
    Active(i64),
    Expired,
}

/// What the stored session of a token (its user and end, if the token is known)
/// gives at `now`, or why it gives nothing: an unknown token is refused, an
/// unreadable end is an internal error.
pub open spec fn session_check(stored: Option<(i64, Seq<char>)>, now: Timestamp) -> Result<
    SessionCheck,
    (int, Seq<char>),
> {
    match stored {
        None => Err(crate::error::unauthorized_failure()),
        Some((user_id, end)) => match rfc3339_instant(end) {
            None => Err(internal_failure("Session-Ablauf ungültig"@)),
            Some(t) => if now.precedes(t) {
                Ok(SessionCheck::Active(user_id))
            } else {
                Ok(SessionCheck::Expired)
            },
        },
    }
}

/// Checks the stored session of a presented token.
pub fn check_session(stored: &Option<(i64, String)>, now: Timestamp) -> (r: AppResult<SessionCheck>)
    ensures
        match session_check(
            match stored {
                Some((u, e)) => Some((*u, e@)),
                None => None,
            },
            now,
        ) {
            Ok(c) => r == Ok::<SessionCheck, AppError>(c),
            Err(f) => r matches Err(e) && failure_of(e) == f,
        },
{
    let (user_id, end) = match stored {
        None => return Err(AppError::Unauthorized),
        Some((u, e)) => (*u, e),
    };
    let expires = match parse_rfc3339(end.as_str()) {
        Ok(t) => t,
        Err(_) => return Err(internal("Session-Ablauf ungültig")),
    };
    if now.is_before(&expires) {
        Ok(SessionCheck::Active(user_id))
    } else {
        Ok(SessionCheck::Expired)
    }
}

} // verus!
