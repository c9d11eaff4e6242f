//! Session tokens and their validity window.

use vstd::prelude::*;
use vstd::string::*;

use crate::ids::{id_text, uuid_text};
use crate::store::StoreModel;

verus! {

/// Days a session stays valid after it is issued.
pub const SESSION_DAYS: i64 = 90;

/// Seconds in a day of UTC.
pub const SECONDS_PER_DAY: i64 = 86400;

/// The text every session token starts with.
pub const TOKEN_PREFIX: &'static str = "trackr-";

/// The expiry of a session issued at `issued` (seconds since the epoch).
pub open spec fn expiry_of(issued: int) -> int {
    issued + SESSION_DAYS * SECONDS_PER_DAY
}

/// The token of the session with this id.
pub open spec fn session_token(id: u128) -> Seq<char> {
    TOKEN_PREFIX@ + uuid_text(id)
}

/// The expiry of a session issued at `now`; `None` when it does not fit an `i64`.
pub fn session_expiry(now: i64) -> (r: Option<i64>)
    ensures
        r is Some <==> expiry_of(now as int) <= i64::MAX,
        r matches Some(e) ==> e == expiry_of(now as int),
{
    now.checked_add(SESSION_DAYS * SECONDS_PER_DAY)
}

/// A session that expires at `expires_at` is live at `now` strictly before its expiry.
pub fn is_live(expires_at: i64, now: i64) -> (r: bool)
    ensures
        r == (now < expires_at),
{
    now < expires_at
}

/// The bearer token of the session with this id.
pub fn token_for(id: u128) -> (r: String)
    ensures
        r@ == session_token(id),
{
    let prefix = String::from_str(TOKEN_PREFIX);
    let text = id_text(id);
    prefix.concat(text.as_str())
}

/// Every session token starts with `TOKEN_PREFIX`.
pub proof fn lemma_token_prefix(id: u128)
    ensures
        session_token(id).len() >= TOKEN_PREFIX@.len(),
        session_token(id).subrange(0, TOKEN_PREFIX@.len() as int) == TOKEN_PREFIX@,
{
    assert(session_token(id).subrange(0, TOKEN_PREFIX@.len() as int) =~= TOKEN_PREFIX@);
}

/// A session's token validates exactly while the time is strictly before
/// that session's expiry, and fails from the expiry on.
pub proof fn lemma_token_window(m: StoreModel, k: int, now: i64)
    requires
        m.wf(),
        0 <= k < m.sessions.len(),
    ensures
        m.token_valid(m.sessions[k].token@, now) <==> now < m.sessions[k].expires_at,
{
    if m.token_valid(m.sessions[k].token@, now) {
        let i = choose|i: int| m.live_session(m.sessions[k].token@, now, i);
        assert(m.sessions[i].token@ == m.sessions[k].token@);
        assert(i == k);
    }
    if now < m.sessions[k].expires_at {
        assert(m.live_session(m.sessions[k].token@, now, k));
    }
}

} // verus!
