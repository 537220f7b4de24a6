//! Unix timestamps as ISO 8601 UTC text, and back: pure calendar arithmetic,
//! with the current time supplied by one trusted call.

use vstd::prelude::*;
use vstd::string::{StrSliceExecFns, StringExecFns};
use crate::digits::{all_digits, dec_value, padded_dec, parse_u64, u64_to_padded_string};
use crate::text::is_space;

verus! {

/// The Gregorian leap-year rule.
pub open spec fn spec_is_leap(y: int) -> bool {
    (y % 4 == 0 && y % 100 != 0) || y % 400 == 0
}

/// Whether year `y` is a leap year.
pub fn is_leap(y: u64) -> (r: bool)
    ensures
        r == spec_is_leap(y as int),
{
    (y % 4 == 0 && y % 100 != 0) || y % 400 == 0
}

/// Days in year `y`.
pub open spec fn days_in_year(y: int) -> int {
    if spec_is_leap(y) {
        366
    } else {
        365
    }
}

/// Days in month `m` (1-based) of a non-leap year.
pub open spec fn month_len(m: int) -> int {
    if m == 1 {
        31
    } else if m == 2 {
        28
    } else if m == 3 {
        31
    } else if m == 4 {
        30
    } else if m == 5 {
        31
    } else if m == 6 {
        30
    } else if m == 7 {
        31
    } else if m == 8 {
        31
    } else if m == 9 {
        30
    } else if m == 10 {
        31
    } else if m == 11 {
        30
    } else {
        31
    }
}

/// Days in month `m` of a year whose leapness is `leap`.
pub open spec fn month_len_in(m: int, leap: bool) -> int {
    if m == 2 && leap {
        29
    } else {
        month_len(m)
    }
}

fn month_len_exec(m: u64, leap: bool) -> (r: u64)
    requires
        1 <= m <= 12,
    ensures
        r == month_len_in(m as int, leap),
{
    if m == 2 {
        if leap {
            29
        } else {
            28
        }
    } else if m == 4 || m == 6 || m == 9 || m == 11 {
        30
    } else {
        31
    }
}

/// The year that day `days` (counted from the start of year `y`) falls in,
/// and the day's offset into that year.
pub open spec fn year_of(days: int, y: int) -> (int, int)
    recommends
        days >= 0,
    decreases days,
{
    if days < days_in_year(y) || days <= 0 {
        (y, days)
    } else {
        year_of(days - days_in_year(y), y + 1)
    }
}

/// The month that day `rem` (counted from the start of a year with leapness
/// `leap`, starting the search at month `m`) falls in, and the day's offset
/// into that month.
pub open spec fn month_of(rem: int, m: int, leap: bool) -> (int, int)
    decreases 12 - m,
{
    if m >= 12 || rem < month_len_in(m, leap) {
        (m, rem)
    } else {
        month_of(rem - month_len_in(m, leap), m + 1, leap)
    }
}

/// `secs` since the Unix epoch, as ISO 8601 UTC text
/// (`YYYY-MM-DDTHH:MM:SSZ`).
pub open spec fn spec_format_timestamp(secs: u64) -> Seq<char> {
    let sec = secs as int % 60;
    let min = (secs as int / 60) % 60;
    let hour = (secs as int / 3600) % 24;
    let days = secs as int / 86400;
    let (year, rem) = year_of(days, 1970);
    let (month, mrem) = month_of(rem, 1, spec_is_leap(year));
    let day = mrem + 1;
    padded_dec(year as nat, 4) + "-"@ + padded_dec(month as nat, 2) + "-"@ + padded_dec(
        day as nat,
        2,
    ) + "T"@ + padded_dec(hour as nat, 2) + ":"@ + padded_dec(min as nat, 2) + ":"@ + padded_dec(
        sec as nat,
        2,
    ) + "Z"@
}

/// Format `secs` since the Unix epoch as ISO 8601 UTC text, such as
/// `2025-06-15T10:30:00Z`.
pub fn format_timestamp(secs: u64) -> (r: String)
    ensures
        r@ == spec_format_timestamp(secs),
{
    let sec = secs % 60;
    let min = (secs / 60) % 60;
    let hour = (secs / 3600) % 24;
    let mut days = secs / 86400;
    let ghost days0 = days as int;

    let mut year: u64 = 1970;
    loop
        invariant_except_break
            0 <= days <= days0,
            1970 <= year,
            year - 1970 + days <= days0,
            days0 <= u64::MAX / 86400,
            year_of(days0, 1970) == year_of(days as int, year as int),
        ensures
            year_of(days0, 1970) == (year as int, days as int),
            days < days_in_year(year as int),
            1970 <= year,
        decreases days,
    {
        let diy: u64 = if is_leap(year) {
            366
        } else {
            365
        };
        if days < diy {
            proof {
                assert(year_of(days as int, year as int) == (year as int, days as int));
            }
            break;
        }
        days = days - diy;
        year = year + 1;
    }

    let leap = is_leap(year);
    let mut month: u64 = 1;
    let ghost mrem0 = days as int;
    loop
        invariant_except_break
            1 <= month <= 12,
            0 <= days <= 366,
            leap == spec_is_leap(year as int),
            month_of(mrem0, 1, leap) == month_of(days as int, month as int, leap),
        ensures
            1 <= month <= 12,
            days <= 366,
            month_of(mrem0, 1, leap) == (month as int, days as int),
        decreases 12 - month,
    {
        let ml = month_len_exec(month, leap);
        if month >= 12 || days < ml {
            proof {
                assert(month_of(days as int, month as int, leap) == (month as int, days as int));
            }
            break;
        }
        days = days - ml;
        month = month + 1;
    }
    let day = days + 1;

    let mut out = u64_to_padded_string(year, 4);
    out.append("-");
    let m_s = u64_to_padded_string(month, 2);
    out.append(m_s.as_str());
    out.append("-");
    let d_s = u64_to_padded_string(day, 2);
    out.append(d_s.as_str());
    out.append("T");
    let h_s = u64_to_padded_string(hour, 2);
    out.append(h_s.as_str());
    out.append(":");
    let mi_s = u64_to_padded_string(min, 2);
    out.append(mi_s.as_str());
    out.append(":");
    let s_s = u64_to_padded_string(sec, 2);
    out.append(s_s.as_str());
    out.append("Z");
    proof {
        assert(out@ =~= spec_format_timestamp(secs));
    }
    out
}

/// Days from year 0 to the start of year `y` (Gregorian, proleptic):
/// 365 per year, plus one for each leap year strictly before `y`.
pub open spec fn days_from_year(y: int) -> int {
    if y == 0 {
        0
    } else {
        365 * y + (y - 1) / 4 - (y - 1) / 100 + (y - 1) / 400
    }
}

/// `s` without leading ASCII whitespace.
pub open spec fn spec_trim_start(s: Seq<char>) -> Seq<char>
    decreases s.len(),
{
    if s.len() > 0 && is_space(s[0]) {
        spec_trim_start(s.skip(1))
    } else {
        s
    }
}

/// `s` without trailing ASCII whitespace.
pub open spec fn spec_trim_end(s: Seq<char>) -> Seq<char>
    decreases s.len(),
{
    if s.len() > 0 && is_space(s.last()) {
        spec_trim_end(s.drop_last())
    } else {
        s
    }
}

/// `s` without leading or trailing ASCII whitespace.
pub open spec fn spec_trim(s: Seq<char>) -> Seq<char> {
    spec_trim_end(spec_trim_start(s))
}

/// The six numeric fields of an ISO 8601 UTC timestamp at their fixed
/// positions: year, month, day, hour, minute, second.
pub open spec fn iso_fields(t: Seq<char>) -> (Seq<char>, Seq<char>, Seq<char>, Seq<char>, Seq<
    char,
>, Seq<char>) {
    (
        t.subrange(0, 4),
        t.subrange(5, 7),
        t.subrange(8, 10),
        t.subrange(11, 13),
        t.subrange(14, 16),
        t.subrange(17, 19),
    )
}

/// Days into the year before the start of month `m` of a non-leap year.
pub open spec fn month_prefix_days(m: int) -> int
    decreases m,
{
    if m <= 0 {
        0
    } else {
        month_prefix_days(m - 1) + month_len(m)
    }
}

/// The Unix timestamp of the given civil UTC time.
pub open spec fn spec_civil_to_unix(
    year: int,
    month: int,
    day: int,
    hour: int,
    min: int,
    sec: int,
) -> int {
    let doy = day - 1 + month_prefix_days(month - 1) + if spec_is_leap(year) && month > 2 {
        1int
    } else {
        0int
    };
    let days = days_from_year(year) - days_from_year(1970) + doy;
    days * 86400 + hour * 3600 + min * 60 + sec
}

/// The Unix timestamp denoted by `s`, read as ISO 8601 UTC
/// (`YYYY-MM-DDTHH:MM:SSZ`, ignoring surrounding whitespace): the numeric
/// fields stand at their fixed positions, the text is at least 20 characters,
/// ends with `Z`, and the month is between 1 and 12. Anything else is `None`.
pub open spec fn spec_parse_iso8601(s: Seq<char>) -> Option<i64> {
    let t = spec_trim(s);
    if t.len() < 20 || t.last() != 'Z' {
        None
    } else {
        let (y, mo, d, h, mi, se) = iso_fields(t);
        if all_digits(y) && all_digits(mo) && all_digits(d) && all_digits(h) && all_digits(mi)
            && all_digits(se) && 1 <= dec_value(mo) <= 12 {
            Some(
                spec_civil_to_unix(
                    dec_value(y),
                    dec_value(mo),
                    dec_value(d),
                    dec_value(h),
                    dec_value(mi),
                    dec_value(se),
                ) as i64,
            )
        } else {
            None
        }
    }
}

proof fn lemma_trim_start_at(s: Seq<char>, a: int)
    requires
        0 <= a <= s.len(),
        forall|k: int| 0 <= k < a ==> is_space(s[k]),
        a < s.len() ==> !is_space(s[a]),
    ensures
        spec_trim_start(s) =~= s.skip(a),
    decreases a,
{
    if a == 0 {
        if s.len() > 0 {
            assert(!is_space(s[0]));
        }
        assert(s.skip(0) =~= s);
    } else {
        assert(is_space(s[0]));
        assert(forall|k: int| 0 <= k < s.len() - 1 ==> #[trigger] s.skip(1)[k] == s[k + 1]);
        lemma_trim_start_at(s.skip(1), a - 1);
        assert(s.skip(1).skip(a - 1) =~= s.skip(a));
    }
}

proof fn lemma_trim_end_at(s: Seq<char>, b: int)
    requires
        0 <= b <= s.len(),
        forall|k: int| b <= k < s.len() ==> is_space(s[k]),
        b > 0 ==> !is_space(s[b - 1]),
    ensures
        spec_trim_end(s) =~= s.take(b),
    decreases s.len(),
{
    if b == s.len() {
        if s.len() > 0 {
            assert(!is_space(s.last()));
        }
        assert(s.take(b) =~= s);
    } else {
        assert(is_space(s.last()));
        assert(forall|k: int| 0 <= k < s.len() - 1 ==> #[trigger] s.drop_last()[k] == s[k]);
        lemma_trim_end_at(s.drop_last(), b);
        assert(s.drop_last().take(b) =~= s.take(b));
    }
}

/// Strip leading and trailing ASCII whitespace off `s`.
fn trim(s: &str) -> (r: String)
    ensures
        r@ == spec_trim(s@),
{
    let n = s.unicode_len();
    let mut a: usize = 0;
    loop
        invariant_except_break
            n == s@.len(),
            0 <= a <= n,
            forall|k: int| 0 <= k < a ==> is_space(s@[k]),
        ensures
            n == s@.len(),
            0 <= a <= n,
            forall|k: int| 0 <= k < a ==> is_space(s@[k]),
            a < n ==> !is_space(s@[a as int]),
        decreases n - a,
    {
        if a == n {
            break;
        }
        let c = s.get_char(a);
        if !(c == ' ' || c == '\t' || c == '\n' || c == '\r') {
            break;
        }
        a = a + 1;
    }
    let mut b: usize = n;
    loop
        invariant_except_break
            n == s@.len(),
            a <= b <= n,
            forall|k: int| b <= k < n ==> is_space(s@[k]),
        ensures
            n == s@.len(),
            a <= b <= n,
            forall|k: int| b <= k < n ==> is_space(s@[k]),
            b > a ==> !is_space(s@[b - 1]),
        decreases b,
    {
        if b == a {
            break;
        }
        let c = s.get_char(b - 1);
        if !(c == ' ' || c == '\t' || c == '\n' || c == '\r') {
            break;
        }
        b = b - 1;
    }
    proof {
        lemma_trim_start_at(s@, a as int);
        let t = s@.skip(a as int);
        assert(forall|k: int| 0 <= k < t.len() ==> t[k] == s@[k + a]);
        lemma_trim_end_at(t, b - a);
        assert(s@.skip(a as int).take(b - a) =~= s@.subrange(a as int, b as int));
    }
    let r = s.substring_char(a, b).to_owned();
    r
}

/// Read an ISO 8601 UTC timestamp (such as `2025-06-15T10:30:00Z`) as a Unix
/// timestamp in seconds.
pub fn parse_iso8601_to_unix(s: &str) -> (r: Option<i64>)
    ensures
        r == spec_parse_iso8601(s@),
{
    let t = trim(s);
    let n = t.as_str().unicode_len();
    if n < 20 {
        return None;
    }
    if t.as_str().get_char(n - 1) != 'Z' {
        return None;
    }
    let year = parse_field(t.as_str(), 0, 4);
    let month = parse_field(t.as_str(), 5, 7);
    let day = parse_field(t.as_str(), 8, 10);
    let hour = parse_field(t.as_str(), 11, 13);
    let min = parse_field(t.as_str(), 14, 16);
    let sec = parse_field(t.as_str(), 17, 19);
    match (year, month, day, hour, min, sec) {
        (Some(y), Some(mo), Some(d), Some(h), Some(mi), Some(se)) => {
            if mo < 1 || mo > 12 {
                return None;
            }
            let doy_extra: i64 = if is_leap(y) && mo > 2 {
                1
            } else {
                0
            };
            let doy = d as i64 - 1 + month_prefix_exec(mo - 1) as i64 + doy_extra;
            proof {
                assert(doy == d - 1 + month_prefix_days(mo as int - 1) + if spec_is_leap(y as int)
                    && mo > 2 {
                    1int
                } else {
                    0int
                });
            }
            let dfy = days_from_year_exec(y);
            let days = dfy as i64 - 719527 + doy;
            proof {
                assert(days_from_year(1970) == 719527);
                assert(days == days_from_year(y as int) - days_from_year(1970) + doy);
            }
            let total = days * 86400 + (h as i64) * 3600 + (mi as i64) * 60 + (se as i64);
            Some(total)
        },
        _ => None,
    }
}

/// A 4-digit field holds at most 9999, so every intermediate fits easily.
fn parse_field(t: &str, a: usize, b: usize) -> (r: Option<u64>)
    requires
        a < b <= t@.len(),
        b - a <= 4,
    ensures
        match r {
            Some(v) => all_digits(t@.subrange(a as int, b as int)) && v == dec_value(
                t@.subrange(a as int, b as int),
            ) && v <= 9999,
            None => !all_digits(t@.subrange(a as int, b as int)),
        },
{
    let f = t.substring_char(a, b);
    match parse_u64(f) {
        Some(v) => {
            proof {
                lemma_small_dec_value(t@.subrange(a as int, b as int));
            }
            Some(v)
        },
        None => {
            proof {
                if all_digits(t@.subrange(a as int, b as int)) {
                    lemma_small_dec_value(t@.subrange(a as int, b as int));
                }
            }
            None
        },
    }
}

/// A digit string of at most 4 characters denotes at most 9999.
proof fn lemma_small_dec_value(s: Seq<char>)
    requires
        all_digits(s),
        s.len() <= 4,
    ensures
        dec_value(s) <= 9999,
        dec_value(s) >= 0,
    decreases s.len(),
{
    lemma_dec_value_bounds(s);
}

/// A digit string denotes a value between 0 and 10^len - 1.
proof fn lemma_dec_value_bounds(s: Seq<char>)
    requires
        forall|i: int| 0 <= i < s.len() ==> crate::digits::is_digit_char(#[trigger] s[i]),
    ensures
        0 <= dec_value(s),
        s.len() <= 4 ==> dec_value(s) <= 9999,
    decreases s.len(),
{
    if s.len() > 0 {
        assert(forall|i: int|
            0 <= i < s.len() - 1 ==> crate::digits::is_digit_char(#[trigger] s.drop_last()[i]));
        lemma_dec_value_bounds(s.drop_last());
        assert(0 <= crate::digits::digit_val(s.last()) <= 9);
        if s.len() <= 4 {
            assert(s.drop_last().len() <= 3);
            lemma_dec_value_small(s.drop_last(), 3);
        }
    }
}

/// A digit string of at most `k` characters denotes less than 10^k.
proof fn lemma_dec_value_small(s: Seq<char>, k: int)
    requires
        forall|i: int| 0 <= i < s.len() ==> crate::digits::is_digit_char(#[trigger] s[i]),
        0 <= k <= 3,
        s.len() <= k,
    ensures
        dec_value(s) <= if k == 0 {
            0int
        } else if k == 1 {
            9int
        } else if k == 2 {
            99int
        } else {
            999int
        },
    decreases s.len(),
{
    if s.len() > 0 {
        assert(forall|i: int|
            0 <= i < s.len() - 1 ==> crate::digits::is_digit_char(#[trigger] s.drop_last()[i]));
        lemma_dec_value_small(s.drop_last(), k - 1);
        assert(0 <= crate::digits::digit_val(s.last()) <= 9);
    }
}

fn month_prefix_exec(m: u64) -> (r: u64)
    requires
        m <= 12,
    ensures
        r == month_prefix_days(m as int),
        r <= 372,
{
    let mut r: u64 = 0;
    let mut i: u64 = 0;
    while i < m
        invariant
            0 <= i <= m <= 12,
            r == month_prefix_days(i as int),
            r <= 31 * i,
        decreases m - i,
    {
        let ml = month_len_exec(i + 1, false);
        r = r + ml;
        i = i + 1;
    }
    r
}

fn days_from_year_exec(y: u64) -> (r: u64)
    requires
        y <= 9999,
    ensures
        r == days_from_year(y as int),
{
    if y == 0 {
        0
    } else {
        365 * y + (y - 1) / 4 - (y - 1) / 100 + (y - 1) / 400
    }
}

/// Relies on std::time::SystemTime::now (converted through duration_since and
/// as_secs): the current Unix time in seconds. Nothing is assumed of the
/// value.
#[verifier::external_body]
pub fn unix_timestamp() -> u64 {
    std::time::SystemTime::now().duration_since(std::time::UNIX_EPOCH).unwrap_or_default().as_secs()
}

/// The current Unix time in seconds, as a signed value.
pub fn now_unix() -> i64 {
    let t = unix_timestamp();
    if t > i64::MAX as u64 {
        i64::MAX
    } else {
        t as i64
    }
}

// ---------------------------------------------------------------------------
// The round trip: parsing what the formatter wrote gives the time back.

proof fn lemma_div_step_by(y: int, k: int)
    requires
        y >= 1,
        k >= 2,
    ensures
        y / k - (y - 1) / k == if y % k == 0 {
            1int
        } else {
            0int
        },
{
    vstd::arithmetic::div_mod::lemma_fundamental_div_mod(y, k);
    vstd::arithmetic::div_mod::lemma_mod_bound(y, k);
    let q = y / k;
    let r = y % k;
    if r == 0 {
        assert(y - 1 == (q - 1) * k + (k - 1)) by (nonlinear_arith)
            requires
                y == k * q + r,
                r == 0,
        ;
        vstd::arithmetic::div_mod::lemma_fundamental_div_mod_converse_div(y - 1, k, q - 1, k - 1);
    } else {
        assert(y - 1 == q * k + (r - 1)) by (nonlinear_arith)
            requires
                y == k * q + r,
        ;
        vstd::arithmetic::div_mod::lemma_fundamental_div_mod_converse_div(y - 1, k, q, r - 1);
    }
}

proof fn lemma_divides_through(y: int, a: int, b: int)
    requires
        y >= 0,
        a >= 1,
        b >= 1,
        y % (a * b) == 0,
    ensures
        y % b == 0,
{
    assert(a * b >= 1) by (nonlinear_arith)
        requires
            a >= 1,
            b >= 1,
    ;
    vstd::arithmetic::div_mod::lemma_fundamental_div_mod(y, a * b);
    let q = y / (a * b);
    assert(y == (a * q) * b) by (nonlinear_arith)
        requires
            y == (a * b) * q + 0,
    ;
    vstd::arithmetic::div_mod::lemma_mod_multiples_basic(a * q, b);
}

proof fn lemma_dfy_step(y: int)
    requires
        y >= 1,
    ensures
        days_from_year(y + 1) == days_from_year(y) + days_in_year(y),
{
    lemma_div_step_by(y, 4);
    lemma_div_step_by(y, 100);
    lemma_div_step_by(y, 400);
    if y % 400 == 0 {
        lemma_divides_through(y, 4, 100);
        lemma_divides_through(y, 100, 4);
    } else if y % 100 == 0 {
        lemma_divides_through(y, 25, 4);
    }
}

proof fn lemma_dfy_mono(a: int, b: int)
    requires
        1 <= a <= b,
    ensures
        days_from_year(a) <= days_from_year(b),
    decreases b - a,
{
    if a < b {
        lemma_dfy_step(b - 1);
        lemma_dfy_mono(a, b - 1);
    }
}

proof fn lemma_year_of_inverse(days: int, y: int)
    requires
        days >= 0,
        y >= 1,
    ensures
        ({
            let (fy, rem) = year_of(days, y);
            &&& y <= fy
            &&& 0 <= rem < days_in_year(fy)
            &&& days_from_year(fy) - days_from_year(y) + rem == days
        }),
    decreases days,
{
    if days < days_in_year(y) {
    } else {
        lemma_dfy_step(y);
        lemma_year_of_inverse(days - days_in_year(y), y + 1);
    }
}

/// Days in the months before month `m` of a year with leapness `leap`.
spec fn month_cum(m: int, leap: bool) -> int
    decreases m,
{
    if m <= 1 {
        0
    } else {
        month_cum(m - 1, leap) + month_len_in(m - 1, leap)
    }
}

proof fn lemma_month_of_inverse(rem: int, m: int, leap: bool)
    requires
        1 <= m <= 12,
        0 <= rem,
    ensures
        ({
            let (fm, md) = month_of(rem, m, leap);
            &&& m <= fm <= 12
            &&& 0 <= md
            &&& month_cum(fm, leap) - month_cum(m, leap) + md == rem
            &&& fm < 12 ==> md < month_len_in(fm, leap)
        }),
    decreases 12 - m,
{
    if m >= 12 || rem < month_len_in(m, leap) {
    } else {
        lemma_month_of_inverse(rem - month_len_in(m, leap), m + 1, leap);
        assert(month_cum(m + 1, leap) == month_cum(m, leap) + month_len_in(m, leap));
    }
}

proof fn lemma_cum_prefix(m: int, leap: bool)
    requires
        1 <= m <= 13,
    ensures
        month_cum(m, leap) == month_prefix_days(m - 1) + if leap && m > 2 {
            1int
        } else {
            0int
        },
    decreases m,
{
    if m > 1 {
        lemma_cum_prefix(m - 1, leap);
        assert(month_cum(m, leap) == month_cum(m - 1, leap) + month_len_in(m - 1, leap));
        assert(month_prefix_days(m - 1) == month_prefix_days(m - 2) + month_len(m - 1));
    }
}

proof fn lemma_month_cum_12(leap: bool)
    ensures
        month_cum(12, leap) == 334 + if leap {
            1int
        } else {
            0int
        },
{
    assert(month_cum(1, leap) == 0);
    assert(month_cum(2, leap) == 31);
    assert(month_cum(3, leap) == 59 + if leap { 1int } else { 0int });
    assert(month_cum(4, leap) == 90 + if leap { 1int } else { 0int });
    assert(month_cum(5, leap) == 120 + if leap { 1int } else { 0int });
    assert(month_cum(6, leap) == 151 + if leap { 1int } else { 0int });
    assert(month_cum(7, leap) == 181 + if leap { 1int } else { 0int });
    assert(month_cum(8, leap) == 212 + if leap { 1int } else { 0int });
    assert(month_cum(9, leap) == 243 + if leap { 1int } else { 0int });
    assert(month_cum(10, leap) == 273 + if leap { 1int } else { 0int });
    assert(month_cum(11, leap) == 304 + if leap { 1int } else { 0int });
}

proof fn lemma_time_split(t: int)
    requires
        t >= 0,
    ensures
        t == (t / 86400) * 86400 + ((t / 3600) % 24) * 3600 + ((t / 60) % 60) * 60 + t % 60,
{
    vstd::arithmetic::div_mod::lemma_fundamental_div_mod(t, 60);
    vstd::arithmetic::div_mod::lemma_fundamental_div_mod(t / 60, 60);
    vstd::arithmetic::div_mod::lemma_div_denominator(t, 60, 60);
    vstd::arithmetic::div_mod::lemma_fundamental_div_mod(t / 3600, 24);
    vstd::arithmetic::div_mod::lemma_div_denominator(t, 3600, 24);
    assert(t == (t / 86400) * 86400 + ((t / 3600) % 24) * 3600 + ((t / 60) % 60) * 60 + t % 60)
        by (nonlinear_arith)
        requires
            t == 60 * (t / 60) + t % 60,
            t / 60 == 60 * ((t / 60) / 60) + (t / 60) % 60,
            (t / 60) / 60 == t / 3600,
            t / 3600 == 24 * ((t / 3600) / 24) + (t / 3600) % 24,
            (t / 3600) / 24 == t / 86400,
    ;
}

/// The formatter and the parser are inverse: parsing the text written for
/// any time up to the last second of year 9999 yields that time again.
/// (Later times print a five-digit year, which the fixed-width parser does
/// not read.)
pub proof fn lemma_format_parse_round_trip(t: u64)
    requires
        t <= 253402300799,
    ensures
        spec_parse_iso8601(spec_format_timestamp(t)) == Some(t as i64),
{
    let ti = t as int;
    let sec = ti % 60;
    let min = (ti / 60) % 60;
    let hour = (ti / 3600) % 24;
    let days = ti / 86400;
    vstd::arithmetic::div_mod::lemma_mod_bound(ti, 60);
    vstd::arithmetic::div_mod::lemma_mod_bound(ti / 60, 60);
    vstd::arithmetic::div_mod::lemma_mod_bound(ti / 3600, 24);
    vstd::arithmetic::div_mod::lemma_div_pos_is_pos(ti, 86400);
    vstd::arithmetic::div_mod::lemma_div_is_ordered(ti, 253402300799, 86400);
    assert(0 <= days <= 2932896);
    lemma_time_split(ti);

    let (year, rem) = year_of(days, 1970);
    lemma_year_of_inverse(days, 1970);
    assert(days_from_year(1970) == 719527);
    assert(1970 <= year);
    assert(year <= 9999) by {
        if year >= 10000 {
            lemma_dfy_mono(10000, year);
            assert(days_from_year(10000) == 3652424);
        }
    }
    let leap = spec_is_leap(year);
    let (month, mrem) = month_of(rem, 1, leap);
    lemma_month_of_inverse(rem, 1, leap);
    assert(1 <= month <= 12);
    assert(mrem < month_len_in(month, leap)) by {
        if month == 12 {
            lemma_month_cum_12(leap);
        }
    }
    assert(0 <= mrem <= 30);
    let day = mrem + 1;

    // the text and its pieces
    let p_y = padded_dec(year as nat, 4);
    let p_mo = padded_dec(month as nat, 2);
    let p_d = padded_dec(day as nat, 2);
    let p_h = padded_dec(hour as nat, 2);
    let p_mi = padded_dec(min as nat, 2);
    let p_s = padded_dec(sec as nat, 2);
    crate::digits::lemma_padded_dec_props(year as nat, 4);
    crate::digits::lemma_padded_dec_props(month as nat, 2);
    crate::digits::lemma_padded_dec_props(day as nat, 2);
    crate::digits::lemma_padded_dec_props(hour as nat, 2);
    crate::digits::lemma_padded_dec_props(min as nat, 2);
    crate::digits::lemma_padded_dec_props(sec as nat, 2);
    crate::digits::lemma_dec_digits_len(year as nat);
    crate::digits::lemma_dec_digits_len(month as nat);
    crate::digits::lemma_dec_digits_len(day as nat);
    crate::digits::lemma_dec_digits_len(hour as nat);
    crate::digits::lemma_dec_digits_len(min as nat);
    crate::digits::lemma_dec_digits_len(sec as nat);
    assert(p_y.len() == 4);
    assert(p_mo.len() == 2 && p_d.len() == 2 && p_h.len() == 2 && p_mi.len() == 2 && p_s.len()
        == 2);

    reveal_strlit("-");
    reveal_strlit("T");
    reveal_strlit(":");
    reveal_strlit("Z");
    let text = spec_format_timestamp(t);
    assert(text == p_y + "-"@ + p_mo + "-"@ + p_d + "T"@ + p_h + ":"@ + p_mi + ":"@ + p_s + "Z"@);
    assert(text.len() == 20);

    // the text trims to itself
    assert(text[0] == p_y[0]);
    assert(crate::digits::is_digit_char(text[0]));
    assert(!is_space(text[0]));
    assert(spec_trim_start(text) == text);
    assert(text.last() == 'Z');
    assert(!is_space(text.last()));
    assert(spec_trim_end(text) == text);
    assert(spec_trim(text) == text);

    // the fields are the padded numbers
    assert(text.subrange(0, 4) =~= p_y);
    assert(text.subrange(5, 7) =~= p_mo);
    assert(text.subrange(8, 10) =~= p_d);
    assert(text.subrange(11, 13) =~= p_h);
    assert(text.subrange(14, 16) =~= p_mi);
    assert(text.subrange(17, 19) =~= p_s);

    // the parsed civil time is the formatted one
    assert(crate::digits::dec_value(p_mo) == month);
    lemma_cum_prefix(month, leap);
    assert(month_cum(1, leap) == 0);
    let doy = day - 1 + month_prefix_days(month - 1) + if leap && month > 2 {
        1int
    } else {
        0int
    };
    assert(doy == rem);
    assert(spec_civil_to_unix(year, month, day, hour, min, sec) == days * 86400 + hour * 3600 + min
        * 60 + sec);
    assert(spec_civil_to_unix(year, month, day, hour, min, sec) == ti);
    assert(spec_parse_iso8601(text) == Some(
        spec_civil_to_unix(year, month, day, hour, min, sec) as i64,
    ));
}

} // verus!
