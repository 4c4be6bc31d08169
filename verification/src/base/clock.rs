//! Instants and days.
use vstd::prelude::*;

verus! {

/// The seconds in a day.
pub const DAY_SECS: i64 = 86_400;

/// The earliest second that has a calendar day.
pub const MIN_INSTANT: i64 = -8_334_601_228_800;

/// The latest second that has a calendar day.
pub const MAX_INSTANT: i64 = 8_210_266_876_799;

/// The instant that `chrono::DateTime::parse_from_rfc3339` reads from a text:
/// whole seconds since the epoch, and nanoseconds.
pub uninterp spec fn rfc3339_instant(s: Seq<char>) -> Option<(i64, u32)>;

/// `chrono::DateTime::parse_from_rfc3339` reads an instant from a text that is
/// written as RFC 3339 says; what it reads depends on the text alone.
#[verifier::external_body]
pub(crate) fn parse_rfc3339(s: &str) -> (r: Option<(i64, u32)>)
    ensures
        r == rfc3339_instant(s@),
{
    match chrono::DateTime::parse_from_rfc3339(s) {
        Ok(t) => Some((t.timestamp(), t.timestamp_subsec_nanos())),
        Err(_) => None,
    }
}

/// The first second of the UTC day that holds `ts`.
pub open spec fn day_floor(ts: int) -> int {
    ts - ts % 86_400
}

/// `chrono::DateTime::from_timestamp` gives the calendar instant of a second
/// since the epoch, or nothing outside the years that it can hold; the midnight
/// of that instant's UTC date is the last multiple of a day not after it.
#[verifier::external_body]
pub(crate) fn utc_midnight(ts: i64) -> (r: Option<i64>)
    ensures
        r == if MIN_INSTANT <= ts <= MAX_INSTANT {
            Some(day_floor(ts as int) as i64)
        } else {
            None
        },
{
    let at = chrono::DateTime::<chrono::Utc>::from_timestamp(ts, 0)?;
    let midnight = at.date_naive().and_hms_opt(0, 0, 0)?;
    Some(midnight.and_utc().timestamp())
}

/// The quotient of a number by a positive one, rounded towards zero.
pub open spec fn toward_zero(n: int, d: int) -> int {
    if n >= 0 {
        n / d
    } else {
        -((-n) / d)
    }
}

/// Divides by a positive number and rounds towards zero.
pub fn div_toward_zero(n: i64, d: i64) -> (r: i64)
    requires
        d > 0,
    ensures
        r == toward_zero(n as int, d as int),
{
    let m: i128 = n as i128;
    let k: i128 = d as i128;
    proof {
        if n < 0 {
            assert((-(n as int)) / (d as int) <= -(n as int)) by (nonlinear_arith)
                requires
                    n < 0,
                    d > 0,
            ;
            assert((-(n as int)) / (d as int) >= 0) by (nonlinear_arith)
                requires
                    n < 0,
                    d > 0,
            ;
        } else {
            assert((n as int) / (d as int) <= n as int) by (nonlinear_arith)
                requires
                    n >= 0,
                    d > 0,
            ;
            assert((n as int) / (d as int) >= 0) by (nonlinear_arith)
                requires
                    n >= 0,
                    d > 0,
            ;
        }
    }
    if m >= 0 {
        (m / k) as i64
    } else {
        (-((-m) / k)) as i64
    }
}

/// `a - b < limit`, over the integers.
pub fn less_than_apart(a: i64, b: i64, limit: i64) -> (r: bool)
    ensures
        r == (a - b < limit),
{
    (a as i128) - (b as i128) < (limit as i128)
}

/// `a - b > limit`, over the integers.
pub fn more_than_apart(a: i64, b: i64, limit: i64) -> (r: bool)
    ensures
        r == (a - b > limit),
{
    (a as i128) - (b as i128) > (limit as i128)
}

/// Division towards zero leaves a rest that is smaller than the divisor and lies on the
/// side of the number.
pub proof fn law_division_leaves_a_small_rest(n: i64, d: i64, r: i64)
    requires
        d > 0,
        call_ensures(div_toward_zero, (n, d), r),
    ensures
        n >= 0 ==> 0 <= n - r * d < d,
        n <= 0 ==> -d < n - r * d <= 0,
{
    assert((n as int) >= 0 ==> 0 <= n - ((n as int) / (d as int)) * d < d) by (nonlinear_arith)
        requires
            d > 0,
    ;
    assert((n as int) <= 0 ==> 0 <= -n - ((-(n as int)) / (d as int)) * d < d) by (nonlinear_arith)
        requires
            d > 0,
    ;
    if n < 0 {
        assert((-((-(n as int)) / (d as int))) * d == -(((-(n as int)) / (d as int)) * d)) by (nonlinear_arith);
    }
}

/// Two instants are less than a limit apart, exactly that far, or more.
pub proof fn law_instants_lie_apart(a: i64, b: i64, limit: i64, less: bool, more: bool)
    requires
        call_ensures(less_than_apart, (a, b, limit), less),
        call_ensures(more_than_apart, (a, b, limit), more),
    ensures
        less <==> a < b + limit,
        more <==> a > b + limit,
        !less && !more ==> a == b + limit,
{
}

} // verus!
