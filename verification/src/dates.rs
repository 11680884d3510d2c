//! Timestamps in the canonical timezone.
//!
//! A `Timestamp` is a count of seconds since the Unix epoch, always
//! read as UTC, restricted to the years 1 through 9999.  The civil
//! calendar arithmetic (leap years, month lengths, day counts) is
//! verified; only the parsing of the source tool's date formats is
//! delegated to an outside crate behind trusted wrappers.

use vstd::prelude::*;

use vstd::string::StringExecFns;

use chrono::TimeZone;

verus! {

/// The first second of 0001-01-01 UTC.
pub const MIN_EPOCH_SECS: i64 = -62135596800;

/// The last second of 9999-12-31 UTC.
pub const MAX_EPOCH_SECS: i64 = 253402300799;

/// Days from 0001-01-01 to 1970-01-01.
pub const EPOCH_DAYS: u64 = 719162;

/// The Gregorian leap-year rule.
pub open spec fn spec_is_leap_year(y: int) -> bool {
    y % 4 == 0 && (y % 100 != 0 || y % 400 == 0)
}

/// Decides whether `y` is a leap year.
pub fn is_leap_year(y: u64) -> (r: bool)
    ensures
        r == spec_is_leap_year(y as int),
{
    y % 4 == 0 && (y % 100 != 0 || y % 400 == 0)
}

/// The number of days in year `y`.
pub open spec fn spec_days_in_year(y: int) -> int {
    if spec_is_leap_year(y) {
        366
    } else {
        365
    }
}

/// The number of days in month `m` of year `y`.
pub open spec fn spec_days_in_month(y: int, m: int) -> int {
    if m == 2 {
        if spec_is_leap_year(y) {
            29
        } else {
            28
        }
    } else if m == 4 || m == 6 || m == 9 || m == 11 {
        30
    } else {
        31
    }
}

/// Computes the number of days in month `m` of year `y`.
pub fn days_in_month(y: u64, m: u64) -> (r: u64)
    ensures
        r as int == spec_days_in_month(y as int, m as int),
{
    if m == 2 {
        if is_leap_year(y) {
            29
        } else {
            28
        }
    } else if m == 4 || m == 6 || m == 9 || m == 11 {
        30
    } else {
        31
    }
}

/// The days of all years before `y`, counted from 0001-01-01.
pub open spec fn spec_days_before_year(y: int) -> int
    decreases y,
{
    if y <= 1 {
        0
    } else {
        spec_days_before_year(y - 1) + spec_days_in_year(y - 1)
    }
}

proof fn lemma_days_before_year_bound(y: int)
    requires
        1 <= y,
    ensures
        0 <= spec_days_before_year(y) <= 366 * (y - 1),
    decreases y,
{
    if y > 1 {
        lemma_days_before_year_bound(y - 1);
    }
}

/// The days of all months of year `y` before month `m`.
pub open spec fn spec_days_before_month(y: int, m: int) -> int
    decreases m,
{
    if m <= 1 {
        0
    } else {
        spec_days_before_month(y, m - 1) + spec_days_in_month(y, m - 1)
    }
}

proof fn lemma_days_before_month_bound(y: int, m: int)
    requires
        1 <= m <= 13,
    ensures
        0 <= spec_days_before_month(y, m) <= 31 * (m - 1),
    decreases m,
{
    if m > 1 {
        lemma_days_before_month_bound(y, m - 1);
    }
}

/// One step of integer division: dividing `y` is dividing `y - 1`,
/// plus one exactly when `d` divides `y`.
proof fn lemma_div_step(y: int, d: int)
    requires
        y >= 1,
        d >= 1,
    ensures
        y / d == (y - 1) / d + if y % d == 0 {
            1int
        } else {
            0int
        },
{
    vstd::arithmetic::div_mod::lemma_fundamental_div_mod(y, d);
    let q = y / d;
    let r = y % d;
    assert(y == d * q + r);
    if r == 0 {
        assert(y - 1 == (q - 1) * d + (d - 1)) by (nonlinear_arith)
            requires
                y == d * q + r,
                r == 0,
        ;
        vstd::arithmetic::div_mod::lemma_fundamental_div_mod_converse(y - 1, d, q - 1, d - 1);
    } else {
        assert(y - 1 == q * d + (r - 1)) by (nonlinear_arith)
            requires
                y == d * q + r,
        ;
        vstd::arithmetic::div_mod::lemma_fundamental_div_mod_converse(y - 1, d, q, r - 1);
    }
}

/// The number of leap years before year `y`.
pub open spec fn spec_leaps_before(y: int) -> int {
    (y - 1) / 4 - (y - 1) / 100 + (y - 1) / 400
}

/// The exact day count of the years before `y`: 365 per year plus one
/// for each leap year among them.
proof fn lemma_days_before_year_exact(y: int)
    requires
        1 <= y,
    ensures
        spec_days_before_year(y) == 365 * (y - 1) + spec_leaps_before(y),
    decreases y,
{
    if y > 1 {
        lemma_days_before_year_exact(y - 1);
        lemma_div_step(y - 1, 4);
        lemma_div_step(y - 1, 100);
        lemma_div_step(y - 1, 400);
    }
}

/// Months never sum past one year: eleven months of days stay at or
/// under 334, or 335 in a leap year.
proof fn lemma_days_before_month_tight(y: int, m: int)
    requires
        1 <= m <= 12,
    ensures
        spec_days_before_month(y, m) <= 334 + if spec_is_leap_year(y) {
            1int
        } else {
            0int
        },
{
    reveal_with_fuel(spec_days_before_month, 13);
}

/// The day number of a valid date never exceeds the last supported
/// day.
proof fn lemma_days_from_civil_bound(y: int, m: int, d: int)
    requires
        spec_valid_ymd(y, m, d),
    ensures
        0 <= spec_days_from_civil(y, m, d) <= 3652058,
{
    lemma_days_before_year_bound(y);
    lemma_days_before_month_bound(y, m);
    lemma_days_before_year_exact(y);
    lemma_days_before_month_tight(y, m);
    if y == 9999 {
        assert(!spec_is_leap_year(9999));
        assert(spec_leaps_before(9999) == 2424);
        assert(spec_days_before_year(9999) == 3651694);
        assert(spec_days_before_month(y, m) <= 334);
        assert(d <= 31);
    } else {
        lemma_days_before_year_exact(9999);
        assert(spec_days_before_year(y) <= spec_days_before_year(9999) - 365) by {
            lemma_days_before_year_monotonic(y + 1, 9999);
        }
    }
}

/// More years hold more days.
proof fn lemma_days_before_year_monotonic(a: int, b: int)
    requires
        1 <= a <= b,
    ensures
        spec_days_before_year(a) <= spec_days_before_year(b),
    decreases b,
{
    if a < b {
        lemma_days_before_year_monotonic(a, b - 1);
    }
}

/// The date `y-m-d` is a real calendar date within the supported
/// years.
pub open spec fn spec_valid_ymd(y: int, m: int, d: int) -> bool {
    1 <= y <= 9999 && 1 <= m <= 12 && 1 <= d <= spec_days_in_month(y, m)
}

/// Days from 0001-01-01 to the date `y-m-d`.
pub open spec fn spec_days_from_civil(y: int, m: int, d: int) -> int {
    spec_days_before_year(y) + spec_days_before_month(y, m) + d - 1
}

/// Computes the day number of `y-m-d`, counted from 0001-01-01.
pub fn days_from_civil(y: u64, m: u64, d: u64) -> (r: u64)
    requires
        spec_valid_ymd(y as int, m as int, d as int),
    ensures
        r as int == spec_days_from_civil(y as int, m as int, d as int),
        r <= 3652058,
{
    let mut acc: u64 = 0;
    let mut i: u64 = 1;
    while i < y
        invariant
            1 <= i <= y <= 9999,
            acc as int == spec_days_before_year(i as int),
            acc <= 366 * (i - 1),
        decreases y - i,
    {
        if is_leap_year(i) {
            acc += 366;
        } else {
            acc += 365;
        }
        i += 1;
    }
    let mut j: u64 = 1;
    while j < m
        invariant
            1 <= j <= m <= 12,
            1 <= y <= 9999,
            acc as int == spec_days_before_year(y as int) + spec_days_before_month(
                y as int,
                j as int,
            ),
            acc <= 366 * (y - 1) + 31 * (j - 1),
        decreases m - j,
    {
        proof {
            lemma_days_before_year_bound(y as int);
            lemma_days_before_month_bound(y as int, j as int);
        }
        acc += days_in_month(y, j);
        j += 1;
    }
    proof {
        lemma_days_before_year_bound(y as int);
        lemma_days_before_month_bound(y as int, m as int);
        lemma_days_from_civil_bound(y as int, m as int, d as int);
    }
    acc + d - 1
}

/// A point in time, in seconds since the Unix epoch, read as UTC.
#[derive(Clone, Copy, PartialEq, Eq, Structural, Debug)]
pub struct Timestamp {
    /// Seconds since 1970-01-01 00:00:00 UTC; negative before it.
    pub secs: i64,
}

impl Timestamp {
    /// The timestamp lies within the supported years 1 through 9999.
    pub open spec fn wf(&self) -> bool {
        MIN_EPOCH_SECS <= self.secs <= MAX_EPOCH_SECS
    }

    /// The epoch seconds of `y-m-d h:mi:s` UTC.
    pub open spec fn spec_from_ymd_hms(y: int, m: int, d: int, h: int, mi: int, s: int) -> int {
        (spec_days_from_civil(y, m, d) - EPOCH_DAYS) * 86400 + h * 3600 + mi * 60 + s
    }

    /// Builds the timestamp of `y-m-d h:mi:s` UTC.
    pub fn from_ymd_hms(y: u64, m: u64, d: u64, h: u64, mi: u64, s: u64) -> (r: Timestamp)
        requires
            spec_valid_ymd(y as int, m as int, d as int),
            h < 24,
            mi < 60,
            s < 60,
        ensures
            r.secs as int == Timestamp::spec_from_ymd_hms(
                y as int,
                m as int,
                d as int,
                h as int,
                mi as int,
                s as int,
            ),
            r.wf(),
    {
        let days = days_from_civil(y, m, d);
        proof {
            lemma_days_before_year_bound(y as int);
            lemma_days_before_month_bound(y as int, m as int);
        }
        let secs: i64 = (days as i64 - EPOCH_DAYS as i64) * 86400 + (h as i64) * 3600 + (mi
            as i64) * 60 + (s as i64);
        Timestamp { secs }
    }

    /// Builds the first second of the day `y-m-d`.
    pub fn from_ymd(y: u64, m: u64, d: u64) -> (r: Timestamp)
        requires
            spec_valid_ymd(y as int, m as int, d as int),
        ensures
            r.secs as int == Timestamp::spec_from_ymd_hms(y as int, m as int, d as int, 0, 0, 0),
            r.wf(),
    {
        Timestamp::from_ymd_hms(y, m, d, 0, 0, 0)
    }

    /// Builds the last second of the day `y-m-d`: the end used for an
    /// inclusive date upper bound.
    pub fn from_ymd_end(y: u64, m: u64, d: u64) -> (r: Timestamp)
        requires
            spec_valid_ymd(y as int, m as int, d as int),
        ensures
            r.secs as int == Timestamp::spec_from_ymd_hms(y as int, m as int, d as int, 23, 59, 59),
            r.wf(),
    {
        Timestamp::from_ymd_hms(y, m, d, 23, 59, 59)
    }
}

// ---------------------------------------------------------------------
// Parsing the `YYYY-MM-DD` form
// ---------------------------------------------------------------------

/// `c` is a decimal digit.
pub open spec fn spec_is_digit(c: char) -> bool {
    48 <= c as u32 <= 57
}

/// The value of the digit `c`.
pub open spec fn spec_digit_val(c: char) -> int {
    c as u32 - 48
}

/// The text has the exact shape `YYYY-MM-DD`.
pub open spec fn spec_ymd_shape(s: Seq<char>) -> bool {
    &&& s.len() == 10
    &&& spec_is_digit(s[0]) && spec_is_digit(s[1]) && spec_is_digit(s[2]) && spec_is_digit(s[3])
    &&& s[4] == '-'
    &&& spec_is_digit(s[5]) && spec_is_digit(s[6])
    &&& s[7] == '-'
    &&& spec_is_digit(s[8]) && spec_is_digit(s[9])
}

/// The year of a `YYYY-MM-DD` text.
pub open spec fn spec_ymd_year(s: Seq<char>) -> int {
    spec_digit_val(s[0]) * 1000 + spec_digit_val(s[1]) * 100 + spec_digit_val(s[2]) * 10
        + spec_digit_val(s[3])
}

/// The month of a `YYYY-MM-DD` text.
pub open spec fn spec_ymd_month(s: Seq<char>) -> int {
    spec_digit_val(s[5]) * 10 + spec_digit_val(s[6])
}

/// The day of a `YYYY-MM-DD` text.
pub open spec fn spec_ymd_day(s: Seq<char>) -> int {
    spec_digit_val(s[8]) * 10 + spec_digit_val(s[9])
}

/// A `YYYY-MM-DD` text names a real calendar date.
pub open spec fn spec_parse_ymd(s: Seq<char>) -> Option<(int, int, int)> {
    if spec_ymd_shape(s) && spec_valid_ymd(spec_ymd_year(s), spec_ymd_month(s), spec_ymd_day(s)) {
        Some((spec_ymd_year(s), spec_ymd_month(s), spec_ymd_day(s)))
    } else {
        None
    }
}

/// Reads one digit.
fn digit_val(c: char) -> (r: u64)
    requires
        spec_is_digit(c),
    ensures
        r as int == spec_digit_val(c),
{
    (c as u32 - 48) as u64
}

/// Decides whether `c` is a decimal digit.
fn is_digit(c: char) -> (r: bool)
    ensures
        r == spec_is_digit(c),
{
    let u = c as u32;
    48 <= u && u <= 57
}

/// Parses a strict `YYYY-MM-DD` date; the result is `Some` exactly on
/// texts of that shape that name a real calendar date within the
/// supported years.
pub fn parse_ymd(v: &Vec<char>) -> (r: Option<(u64, u64, u64)>)
    ensures
        r is Some <==> spec_parse_ymd(v@) is Some,
        r matches Some((y, m, d)) ==> spec_parse_ymd(v@) == Some((y as int, m as int, d as int)),
{
    if v.len() != 10 {
        return None;
    }
    if !(is_digit(v[0]) && is_digit(v[1]) && is_digit(v[2]) && is_digit(v[3])) {
        return None;
    }
    if v[4] != '-' || v[7] != '-' {
        return None;
    }
    if !(is_digit(v[5]) && is_digit(v[6]) && is_digit(v[8]) && is_digit(v[9])) {
        return None;
    }
    let y = digit_val(v[0]) * 1000 + digit_val(v[1]) * 100 + digit_val(v[2]) * 10 + digit_val(
        v[3],
    );
    let m = digit_val(v[5]) * 10 + digit_val(v[6]);
    let d = digit_val(v[8]) * 10 + digit_val(v[9]);
    if y < 1 || m < 1 || m > 12 || d < 1 || d > days_in_month(y, m) {
        return None;
    }
    Some((y, m, d))
}

// ---------------------------------------------------------------------
// Rendering a timestamp
// ---------------------------------------------------------------------

/// Strips whole years off a day count: the year that day `days`
/// (counted from 0001-01-01) falls in, and the remaining day of year.
pub open spec fn spec_year_split(y: int, days: int) -> (int, int)
    decreases days,
{
    if days >= spec_days_in_year(y) {
        spec_year_split(y + 1, days - spec_days_in_year(y))
    } else {
        (y, days)
    }
}

/// Computes the number of days in year `y`.
pub fn days_in_year(y: u64) -> (r: u64)
    ensures
        r as int == spec_days_in_year(y as int),
{
    if is_leap_year(y) {
        366
    } else {
        365
    }
}

/// Strips whole months off a day-of-year count.
pub open spec fn spec_month_split(y: int, m: int, days: int) -> (int, int)
    decreases 12 - m,
{
    if m < 12 && days >= spec_days_in_month(y, m) {
        spec_month_split(y, m + 1, days - spec_days_in_month(y, m))
    } else {
        (m, days)
    }
}

/// The decimal digits of `n`.
pub open spec fn spec_dec(n: int) -> Seq<char>
    decreases n,
{
    if n < 0 {
        Seq::empty()
    } else if n < 10 {
        seq![((n + 48) as u8) as char]
    } else {
        spec_dec(n / 10).push(((n % 10 + 48) as u8) as char)
    }
}

/// `s` left-padded with zeros to `w` characters.
pub open spec fn spec_pad(s: Seq<char>, w: int) -> Seq<char>
    decreases w - s.len(),
{
    if s.len() >= w {
        s
    } else {
        spec_pad(seq!['0'] + s, w)
    }
}

/// Writes `n` in decimal.
pub fn dec_chars(n: u64) -> (r: Vec<char>)
    ensures
        r@ == spec_dec(n as int),
        r@.len() >= 1,
    decreases n,
{
    if n < 10 {
        let c = ((n + 48) as u8) as char;
        vec![c]
    } else {
        let mut v = dec_chars(n / 10);
        let c = ((n % 10 + 48) as u8) as char;
        v.push(c);
        v
    }
}

/// Left-pads with zeros to `w` characters.
pub fn pad_zeros(v: Vec<char>, w: usize) -> (r: Vec<char>)
    requires
        w <= 8,
    ensures
        r@ == spec_pad(v@, w as int),
    decreases w - v@.len(),
{
    if v.len() >= w {
        proof {
            assert(spec_pad(v@, w as int) == v@);
        }
        v
    } else {
        let mut nv: Vec<char> = vec!['0'];
        let mut i: usize = 0;
        let ghost vg = v@;
        while i < v.len()
            invariant
                i <= vg.len(),
                v@ == vg,
                nv@ == seq!['0'] + vg.take(i as int),
            decreases vg.len() - i,
        {
            nv.push(v[i]);
            i += 1;
            proof {
                assert(nv@ =~= seq!['0'] + vg.take(i as int));
            }
        }
        proof {
            assert(vg.take(vg.len() as int) =~= vg);
            assert(nv@ =~= seq!['0'] + vg);
        }
        pad_zeros(nv, w)
    }
}

/// The canonical rendering of a timestamp:
/// `YYYY-MM-DD HH:MM:SS UTC`.
pub open spec fn spec_timestamp_text(secs: int) -> Seq<char> {
    let off = secs - MIN_EPOCH_SECS;
    let du = off / 86400;
    let sod = off % 86400;
    let (y, doy) = spec_year_split(1, du);
    let (m, dom) = spec_month_split(y, 1, doy);
    spec_pad(spec_dec(y), 4) + seq!['-'] + spec_pad(spec_dec(m), 2) + seq!['-'] + spec_pad(
        spec_dec(dom + 1),
        2,
    ) + seq![' '] + spec_pad(spec_dec(sod / 3600), 2) + seq![':'] + spec_pad(
        spec_dec((sod / 60) % 60),
        2,
    ) + seq![':'] + spec_pad(spec_dec(sod % 60), 2) + seq![' ', 'U', 'T', 'C']
}

impl Timestamp {
    /// Renders the timestamp as `YYYY-MM-DD HH:MM:SS UTC`.
    pub fn display(&self) -> (r: String)
        requires
            self.wf(),
        ensures
            r@ == spec_timestamp_text(self.secs as int),
    {
        let off: i64 = self.secs - MIN_EPOCH_SECS;
        let offu: u64 = off as u64;
        let mut du: u64 = offu / 86400;
        let sod: u64 = offu % 86400;
        proof {
            assert(du as int == (self.secs - MIN_EPOCH_SECS) / 86400);
            assert(sod as int == (self.secs - MIN_EPOCH_SECS) % 86400);
        }
        let ghost du0 = du as int;
        let mut y: u64 = 1;
        while du >= days_in_year(y)
            invariant
                1 <= y,
                du <= du0 <= 3652059,
                365 * (y - 1) <= du0 - du,
                spec_year_split(1, du0) == spec_year_split(y as int, du as int),
            decreases du,
        {
            du -= days_in_year(y);
            y += 1;
        }
        proof {
            assert(spec_year_split(y as int, du as int) == (y as int, du as int));
        }
        let ghost doy0 = du as int;
        let mut m: u64 = 1;
        while m < 12 && du >= days_in_month(y, m)
            invariant
                1 <= m <= 12,
                du <= doy0 <= 3652059,
                spec_month_split(y as int, 1, doy0) == spec_month_split(y as int, m as int, du as int),
            decreases 12 - m,
        {
            du -= days_in_month(y, m);
            m += 1;
        }
        proof {
            assert(spec_month_split(y as int, m as int, du as int) == (m as int, du as int));
        }
        let mut out: Vec<char> = Vec::new();
        let ypart = pad_zeros(dec_chars(y), 4);
        let mpart = pad_zeros(dec_chars(m), 2);
        let dpart = pad_zeros(dec_chars(du + 1), 2);
        let hpart = pad_zeros(dec_chars(sod / 3600), 2);
        let mipart = pad_zeros(dec_chars((sod / 60) % 60), 2);
        let spart = pad_zeros(dec_chars(sod % 60), 2);
        let mut s = crate::text::chars_to_string(&ypart);
        s.append("-");
        let t = crate::text::chars_to_string(&mpart);
        s.append(t.as_str());
        s.append("-");
        let t = crate::text::chars_to_string(&dpart);
        s.append(t.as_str());
        s.append(" ");
        let t = crate::text::chars_to_string(&hpart);
        s.append(t.as_str());
        s.append(":");
        let t = crate::text::chars_to_string(&mipart);
        s.append(t.as_str());
        s.append(":");
        let t = crate::text::chars_to_string(&spart);
        s.append(t.as_str());
        s.append(" UTC");
        proof {
            reveal_strlit("-");
            reveal_strlit(" ");
            reveal_strlit(":");
            reveal_strlit(" UTC");
            assert(s@ =~= spec_timestamp_text(self.secs as int));
        }
        s
    }
}

// ---------------------------------------------------------------------
// Trusted date parsing and formatting
// ---------------------------------------------------------------------

/// The epoch seconds that the RFC 2822 parser reads out of `s`, if it
/// accepts `s`.
pub uninterp spec fn rfc2822_epoch_of(s: Seq<char>) -> Option<int>;

/// Parses an RFC 2822 date such as the history tool emits.
///
/// Relies on `chrono::DateTime::parse_from_rfc2822` to read the text
/// and on `chrono::DateTime::timestamp` to convert the parsed moment
/// to epoch seconds; the result depends on the text alone.
#[verifier::external_body]
fn parse_rfc2822_epoch(s: &str) -> (r: Option<i64>)
    ensures
        r is Some <==> rfc2822_epoch_of(s@) is Some,
        r matches Some(t) ==> rfc2822_epoch_of(s@) == Some(t as int),
{
    match chrono::DateTime::parse_from_rfc2822(s) {
        Ok(dt) => Some(dt.timestamp()),
        Err(_) => None,
    }
}

/// The epoch seconds that the RFC 3339 parser reads out of `s`, if it
/// accepts `s`.
pub uninterp spec fn rfc3339_epoch_of(s: Seq<char>) -> Option<int>;

/// Parses an RFC 3339 date such as the issue tool emits.
///
/// Relies on the `FromStr` parse of `chrono::DateTime<chrono::Utc>`
/// and on `chrono::DateTime::timestamp`; the result depends on the
/// text alone.
#[verifier::external_body]
fn parse_rfc3339_epoch(s: &str) -> (r: Option<i64>)
    ensures
        r is Some <==> rfc3339_epoch_of(s@) is Some,
        r matches Some(t) ==> rfc3339_epoch_of(s@) == Some(t as int),
{
    match s.parse::<chrono::DateTime<chrono::Utc>>() {
        Ok(dt) => Some(dt.timestamp()),
        Err(_) => None,
    }
}

/// The RFC 2822 rendering of the epoch second `t`.
pub uninterp spec fn rfc2822_text_of(t: int) -> Seq<char>;

/// Renders a timestamp in RFC 2822 form, as the history tool would.
///
/// Relies on `chrono::TimeZone::timestamp_opt` on `chrono::Utc`, which
/// maps an in-range epoch second to exactly one moment, and on
/// `chrono::DateTime::to_rfc2822`; the result depends on the second
/// alone.
#[verifier::external_body]
fn format_rfc2822(t: i64) -> (r: String)
    requires
        MIN_EPOCH_SECS <= t <= MAX_EPOCH_SECS,
    ensures
        r@ == rfc2822_text_of(t as int),
{
    match chrono::Utc.timestamp_opt(t, 0) {
        chrono::LocalResult::Single(dt) => dt.to_rfc2822(),
        _ => String::new(),
    }
}

impl Timestamp {
    /// Parses an RFC 2822 date into a timestamp; dates outside the
    /// supported years are rejected like unreadable text.
    pub fn parse_rfc2822(s: &str) -> (r: Option<Timestamp>)
        ensures
            r matches Some(ts) ==> ts.wf() && rfc2822_epoch_of(s@) == Some(ts.secs as int),
            r is None <==> (rfc2822_epoch_of(s@) is None || (rfc2822_epoch_of(s@)
                matches Some(t) && !(MIN_EPOCH_SECS <= t <= MAX_EPOCH_SECS))),
    {
        match parse_rfc2822_epoch(s) {
            Some(t) => {
                if MIN_EPOCH_SECS <= t && t <= MAX_EPOCH_SECS {
                    Some(Timestamp { secs: t })
                } else {
                    None
                }
            },
            None => None,
        }
    }

    /// Parses an RFC 3339 date into a timestamp; dates outside the
    /// supported years are rejected like unreadable text.
    pub fn parse_rfc3339(s: &str) -> (r: Option<Timestamp>)
        ensures
            r matches Some(ts) ==> ts.wf() && rfc3339_epoch_of(s@) == Some(ts.secs as int),
            r is None <==> (rfc3339_epoch_of(s@) is None || (rfc3339_epoch_of(s@)
                matches Some(t) && !(MIN_EPOCH_SECS <= t <= MAX_EPOCH_SECS))),
    {
        match parse_rfc3339_epoch(s) {
            Some(t) => {
                if MIN_EPOCH_SECS <= t && t <= MAX_EPOCH_SECS {
                    Some(Timestamp { secs: t })
                } else {
                    None
                }
            },
            None => None,
        }
    }

    /// Renders the timestamp in RFC 2822 form.
    pub fn to_rfc2822(&self) -> (r: String)
        requires
            self.wf(),
        ensures
            r@ == rfc2822_text_of(self.secs as int),
    {
        format_rfc2822(self.secs)
    }
}

} // verus!
