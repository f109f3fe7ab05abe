//! Expiry arithmetic: the derived lifecycle state of a record and the
//! target times the engine writes into the store.
//!
//! Timestamps are seconds, durations whole days; a day is 86400 seconds.

use vstd::prelude::*;

verus! {

/// The derived state of a workspace record, relative to a moment `now`.
#[derive(Clone, Copy, Debug, PartialEq, Eq, Structural)]
pub enum WsState {
    /// `now` is before the expiration time.
    Active,
    /// Expired, but still within the filesystem's retention window; the
    /// volume is kept read-only.
    Grace,
    /// The retention window has elapsed; the next sweep may destroy the
    /// volume and remove the record.
    Deletable,
}

/// The state of a record with expiration time `exp` on a filesystem
/// retaining expired workspaces for `retention_days`, as of `now`.
pub open spec fn state_spec(exp: i64, retention_days: i64, now: i64) -> WsState {
    if now < exp {
        WsState::Active
    } else if now < exp + retention_days * 86400 {
        WsState::Grace
    } else {
        WsState::Deletable
    }
}

/// Whether a sweep at `now` both selects the record (already expired) and
/// may destroy it (retention elapsed).
pub open spec fn sweep_deletable_spec(exp: i64, retention_days: i64, now: i64) -> bool {
    exp < now && state_spec(exp, retention_days, now) == WsState::Deletable
}

/// The larger of two times; `extend` moves an expiration forward to this.
pub open spec fn later(a: i64, b: i64) -> i64 {
    if a >= b {
        a
    } else {
        b
    }
}

/// The smaller of two times; `expire` moves an expiration back to this.
pub open spec fn earlier(a: i64, b: i64) -> i64 {
    if a <= b {
        a
    } else {
        b
    }
}

/// Classifies a record; the wide intermediate type keeps
/// `exp + retention_days * 86400` exact for every `i64` input.
pub fn classify(exp: i64, retention_days: i64, now: i64) -> (s: WsState)
    ensures
        s == state_spec(exp, retention_days, now),
{
    if now < exp {
        WsState::Active
    } else {
        let bound: i128 = (exp as i128) + (retention_days as i128) * 86400;
        if (now as i128) < bound {
            WsState::Grace
        } else {
            WsState::Deletable
        }
    }
}

/// Whether a sweep at `now` may destroy the record outright.
pub fn sweep_deletable(exp: i64, retention_days: i64, now: i64) -> (b: bool)
    ensures
        b == sweep_deletable_spec(exp, retention_days, now),
{
    exp < now && matches!(classify(exp, retention_days, now), WsState::Deletable)
}

/// The whole days left on a record's countdown: until expiry while it is
/// active, until deletion while it is in its grace window, none once the
/// sweep may take it.
pub open spec fn report_days(exp: i64, retention_days: i64, now: i64) -> int {
    if state_spec(exp, retention_days, now) == WsState::Active {
        (exp - now) / 86400
    } else if state_spec(exp, retention_days, now) == WsState::Grace {
        (exp + retention_days * 86400 - now) / 86400
    } else {
        0
    }
}

/// Computes the countdown of `report_days`; the quotient fits an `i64`
/// because a grace countdown never exceeds the retention itself.
pub fn report_days_exec(exp: i64, retention_days: i64, now: i64) -> (d: i64)
    ensures
        d == report_days(exp, retention_days, now),
{
    match classify(exp, retention_days, now) {
        WsState::Active => {
            let num: i128 = (exp as i128) - (now as i128);
            let q: u128 = (num as u128) / 86400;
            proof {
                assert(0 < num <= 0x2_0000_0000_0000_0000);
                assert(num as u128 == num as int);
                vstd::arithmetic::div_mod::lemma_div_is_ordered(
                    num as int,
                    0x2_0000_0000_0000_0000,
                    86400,
                );
                assert(q == (exp - now) / 86400);
            }
            q as i64
        },
        WsState::Grace => {
            let num: i128 = (exp as i128) + (retention_days as i128) * 86400 - (now as i128);
            let q: u128 = (num as u128) / 86400;
            proof {
                assert(0 < num);
                assert(num <= retention_days * 86400);
                assert(num as u128 == num as int);
                vstd::arithmetic::div_mod::lemma_div_is_ordered(
                    num as int,
                    retention_days * 86400,
                    86400,
                );
                vstd::arithmetic::div_mod::lemma_div_multiples_vanish(retention_days as int, 86400);
                assert((86400 * retention_days) / 86400 == retention_days as int);
                assert(retention_days * 86400 == 86400 * retention_days);
                assert(q <= retention_days);
                assert(q == (exp + retention_days * 86400 - now) / 86400);
            }
            q as i64
        },
        WsState::Deletable => 0,
    }
}

/// The expiration time `duration_days` days after `now`.
pub fn target_time(now: i64, duration_days: i64) -> (t: i64)
    requires
        i64::MIN <= now + duration_days * 86400 <= i64::MAX,
    ensures
        t == now + duration_days * 86400,
{
    ((now as i128) + (duration_days as i128) * 86400) as i64
}

} // verus!
