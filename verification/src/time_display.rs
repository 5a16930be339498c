//! Display of UTC timestamps: `YYYY-MM-DD-HH-MM-SS` for files, `HH:MM:SS`,
//! and `MM-DD HH:MM:SS.mmm` for logs.

use crate::text::{
    all_decimal, decimal, decimal_digit_value, decimal_padded, decimal_value, push_decimal, push_signed, push_str,
    signed_decimal,
};
use chrono::{DateTime, Datelike, NaiveDateTime, Timelike, Utc};
use vstd::prelude::*;

verus! {

/// The calendar fields of a UTC date and time.
#[derive(Clone, Copy, PartialEq, Eq, Structural, Debug)]
pub struct UtcFields {
    pub year: i32,
    pub month: u32,
    pub day: u32,
    pub hour: u32,
    pub minute: u32,
    pub second: u32,
    pub nanos: u32,
}

/// The year, month and day of the proleptic Gregorian calendar that is
/// `z` days after 1970-01-01 (days before it being negative).
pub open spec fn civil_from_days(z: int) -> (int, int, int) {
    let z = z + 719468;
    let era = z / 146097;
    let doe = z - era * 146097;
    let yoe = (doe - doe / 1460 + doe / 36524 - doe / 146096) / 365;
    let y = yoe + era * 400;
    let doy = doe - (365 * yoe + yoe / 4 - yoe / 100);
    let mp = (5 * doy + 2) / 153;
    let d = doy - (153 * mp + 2) / 5 + 1;
    let m = if mp < 10 {
        mp + 3
    } else {
        mp - 9
    };
    (if m <= 2 {
        y + 1
    } else {
        y
    }, m, d)
}

/// The years that chrono's dates reach.
pub open spec fn chrono_year_range(y: int) -> bool {
    -262143 <= y <= 262142
}

/// The UTC calendar fields (year, month, day, hour, minute, second,
/// nanoseconds) of a UNIX timestamp: the date of the day the seconds fall
/// in, the time within that day, and the nanoseconds as given, which may
/// exceed a second only in the last second of a minute (a leap second).
/// `None` for a date beyond the years chrono reaches, for two seconds or
/// more of nanoseconds, and for a leap second elsewhere.
pub open spec fn utc_datetime(secs: i64, nsecs: u32) -> Option<(i32, u32, u32, u32, u32, u32, u32)> {
    let days = secs / 86400;
    let sod = secs % 86400;
    let (y, m, d) = civil_from_days(days);
    if !chrono_year_range(y) || nsecs >= 2_000_000_000 || (nsecs >= 1_000_000_000 && sod % 60
        != 59) {
        None
    } else {
        Some((y as i32, m as u32, d as u32, (sod / 3600) as u32, ((sod / 60) % 60) as u32, (sod
            % 60) as u32, nsecs))
    }
}

/// `NaiveDateTime::from_timestamp_opt` read as a `DateTime<Utc>`, then its
/// `year`, `month`, `day`, `hour`, `minute`, `second` and
/// `timestamp_subsec_nanos`: the fields that `utc_datetime` gives, as
/// chrono's source computes them (`DateTime::from_timestamp`,
/// `NaiveDate::from_num_days_from_ce_opt`,
/// `NaiveTime::from_num_seconds_from_midnight_opt`), with the ranges that
/// chrono documents for month (1 to 12), day (1 to 31), hour (0 to 23),
/// minute and second (0 to 59).
#[verifier::external_body]
fn chrono_utc_fields(secs: i64, nsecs: u32) -> (r: Option<UtcFields>)
    ensures
        match r {
            Some(f) => utc_datetime(secs, nsecs) == Some(
                (f.year, f.month, f.day, f.hour, f.minute, f.second, f.nanos),
            ) && 1 <= f.month <= 12 && 1 <= f.day <= 31 && f.hour <= 23 && f.minute <= 59
                && f.second <= 59,
            None => utc_datetime(secs, nsecs) is None,
        },
{
    #[allow(deprecated)]
    let naive = NaiveDateTime::from_timestamp_opt(secs, nsecs);
    match naive {
        Some(datetime) => {
            let d = DateTime::<Utc>::from_naive_utc_and_offset(datetime, Utc);
            Some(UtcFields { year: d.year(), month: d.month(), day: d.day(), hour: d.hour(),
                minute: d.minute(), second: d.second(), nanos: d.timestamp_subsec_nanos() })
        },
        None => None,
    }
}

/// `YYYY-MM-DD-HH-MM-SS`, the year unpadded and the others on two digits.
pub open spec fn file_time_text(f: (i32, u32, u32, u32, u32, u32, u32)) -> Seq<char> {
    signed_decimal(f.0 as int) + seq!['-'] + decimal_padded(f.1 as nat, 2) + seq!['-'] + decimal_padded(f.2 as nat, 2)
        + seq!['-'] + decimal_padded(f.3 as nat, 2) + seq!['-'] + decimal_padded(f.4 as nat, 2)
        + seq!['-'] + decimal_padded(f.5 as nat, 2)
}

/// `HH:MM:SS`.
pub open spec fn hms_text(f: (i32, u32, u32, u32, u32, u32, u32)) -> Seq<char> {
    decimal_padded(f.3 as nat, 2) + seq![':'] + decimal_padded(f.4 as nat, 2) + seq![':']
        + decimal_padded(f.5 as nat, 2)
}

/// The first three characters of a text, or all of a shorter one.
pub open spec fn at_most_three(s: Seq<char>) -> Seq<char> {
    if s.len() <= 3 {
        s
    } else {
        s.take(3)
    }
}

/// `MM-DD HH:MM:SS.nnn`, where `nnn` is the first (at most three) digits of
/// the nanoseconds.
pub open spec fn log_time_text(f: (i32, u32, u32, u32, u32, u32, u32)) -> Seq<char> {
    decimal_padded(f.1 as nat, 2) + seq!['-'] + decimal_padded(f.2 as nat, 2) + seq![' ']
        + hms_text(f) + seq!['.'] + at_most_three(decimal(f.6 as nat))
}

/// The time of day of a UTC date-time is the timestamp's seconds within
/// its day, as hours (0 to 23), minutes and seconds (0 to 59), and its
/// nanoseconds are those given.
pub proof fn lemma_utc_time_of_day(secs: i64, nsecs: u32)
    requires
        utc_datetime(secs, nsecs) is Some,
    ensures
        ({
            let f = utc_datetime(secs, nsecs).unwrap();
            &&& f.3 <= 23
            &&& f.4 <= 59
            &&& f.5 <= 59
            &&& f.3 * 3600 + f.4 * 60 + f.5 == secs % 86400
            &&& f.6 == nsecs
        }),
{
    let sod = secs % 86400;
    assert(0 <= sod < 86400);
    let h = sod / 3600;
    let mi = (sod / 60) % 60;
    let se = sod % 60;
    assert(0 <= h <= 23 && 0 <= mi <= 59 && 0 <= se <= 59 && h * 3600 + mi * 60 + se == sod) by (nonlinear_arith)
        requires
            0 <= sod < 86400,
            h == sod / 3600,
            mi == (sod / 60) % 60,
            se == sod % 60,
    ;
}

/// The two characters of `t` at `k` are decimal digits that write `v`.
pub open spec fn two_digits_at(t: Seq<char>, k: int, v: nat) -> bool {
    &&& 0 <= k
    &&& k + 2 <= t.len()
    &&& all_decimal(t.subrange(k, k + 2))
    &&& decimal_value(t.subrange(k, k + 2)) == v
}

/// A number below 100 padded to two digits is two decimal digits that
/// write it.
proof fn lemma_two_digits(n: nat)
    requires
        n < 100,
    ensures
        decimal_padded(n, 2).len() == 2,
        two_digits_at(decimal_padded(n, 2), 0, n),
{
    let t = decimal_padded(n, 2);
    let hi = n / 10;
    let lo = n % 10;
    let c1 = ('0' as u8 + hi as u8) as char;
    let c2 = ('0' as u8 + lo as u8) as char;
    assert(c1 as nat == 48 + hi);
    assert(c2 as nat == 48 + lo);
    if n < 10 {
        assert(decimal(n) == seq![c2]);
        assert(t =~= seq!['0', c2]);
        assert(c1 == '0');
    } else {
        assert(decimal(hi) == seq![c1]);
        assert(decimal(n) =~= seq![c1, c2]);
        assert(t =~= seq![c1, c2]);
    }
    let u = t.subrange(0, 2);
    assert(u =~= seq![c1, c2]);
    assert(decimal_digit_value(c1) == Some(hi));
    assert(decimal_digit_value(c2) == Some(lo));
    assert(u.drop_last() =~= seq![c1]);
    assert(seq![c1].drop_last() =~= Seq::<char>::empty());
    assert(decimal_value(Seq::<char>::empty()) == 0);
    assert(seq![c1].last() == c1);
    assert(decimal_value(seq![c1]) == hi);
    assert(u.last() == c2);
    assert(decimal_value(u) == hi * 10 + lo);
    assert(all_decimal(u)) by {
        assert forall|i: int| 0 <= i < u.len() implies (#[trigger] decimal_digit_value(u[i])).is_some() by {
            if i == 0 {
                assert(u[i] == c1);
            } else {
                assert(u[i] == c2);
            }
        }
    }
}

/// Two digits at `k` of `a` stay two digits at `p.len() + k` of `p + a + q`.
proof fn lemma_two_digits_shift(p: Seq<char>, a: Seq<char>, q: Seq<char>, k: int, v: nat)
    requires
        two_digits_at(a, k, v),
    ensures
        two_digits_at(p + a + q, p.len() + k, v),
{
    assert((p + a + q).subrange(p.len() + k, p.len() + k + 2) =~= a.subrange(k, k + 2));
}

/// The log text of calendar fields (month 1 to 12, day 1 to 31, hour 0
/// to 23, minute and second 0 to 59) reads, from its start: the month on
/// two digits, `-`, the day on two digits, a space, the hour, `:`, the
/// minute, `:`, the second, each on two digits, `.`, and then the first
/// (at most three) digits of the nanoseconds.
pub proof fn lemma_log_time_fields(f: (i32, u32, u32, u32, u32, u32, u32))
    requires
        1 <= f.1 <= 12,
        1 <= f.2 <= 31,
        f.3 <= 23,
        f.4 <= 59,
        f.5 <= 59,
    ensures
        ({
            let t = log_time_text(f);
            let n = decimal(f.6 as nat);
            &&& two_digits_at(t, 0, f.1 as nat)
            &&& t[2] == '-'
            &&& two_digits_at(t, 3, f.2 as nat)
            &&& t[5] == ' '
            &&& two_digits_at(t, 6, f.3 as nat)
            &&& t[8] == ':'
            &&& two_digits_at(t, 9, f.4 as nat)
            &&& t[11] == ':'
            &&& two_digits_at(t, 12, f.5 as nat)
            &&& t[14] == '.'
            &&& t.len() == 15 + (if n.len() < 3 { n.len() } else { 3 })
            &&& t.subrange(15, t.len() as int) == n.take(t.len() - 15)
        }),
{
    let t = log_time_text(f);
    let n = decimal(f.6 as nat);
    let mo = decimal_padded(f.1 as nat, 2);
    let dy = decimal_padded(f.2 as nat, 2);
    let h = decimal_padded(f.3 as nat, 2);
    let mi = decimal_padded(f.4 as nat, 2);
    let se = decimal_padded(f.5 as nat, 2);
    lemma_two_digits(f.1 as nat);
    lemma_two_digits(f.2 as nat);
    lemma_two_digits(f.3 as nat);
    lemma_two_digits(f.4 as nat);
    lemma_two_digits(f.5 as nat);
    let tail = at_most_three(n);
    let e = Seq::<char>::empty();
    assert(t =~= mo + seq!['-'] + dy + seq![' '] + h + seq![':'] + mi + seq![':'] + se
        + seq!['.'] + tail);
    lemma_two_digits_shift(e, mo, t.subrange(2, t.len() as int), 0, f.1 as nat);
    assert(e + mo + t.subrange(2, t.len() as int) =~= t);
    lemma_two_digits_shift(t.take(3), dy, t.subrange(5, t.len() as int), 0, f.2 as nat);
    assert(t.take(3) + dy + t.subrange(5, t.len() as int) =~= t);
    lemma_two_digits_shift(t.take(6), h, t.subrange(8, t.len() as int), 0, f.3 as nat);
    assert(t.take(6) + h + t.subrange(8, t.len() as int) =~= t);
    lemma_two_digits_shift(t.take(9), mi, t.subrange(11, t.len() as int), 0, f.4 as nat);
    assert(t.take(9) + mi + t.subrange(11, t.len() as int) =~= t);
    lemma_two_digits_shift(t.take(12), se, t.subrange(14, t.len() as int), 0, f.5 as nat);
    assert(t.take(12) + se + t.subrange(14, t.len() as int) =~= t);
    assert(t.subrange(15, t.len() as int) =~= tail);
    assert(tail =~= n.take(tail.len() as int));
}

/// The time text of calendar fields (hour 0 to 23, minute and second 0
/// to 59) is the hour, `:`, the minute, `:` and the second, each on two
/// digits.
pub proof fn lemma_hms_fields(f: (i32, u32, u32, u32, u32, u32, u32))
    requires
        f.3 <= 23,
        f.4 <= 59,
        f.5 <= 59,
    ensures
        ({
            let t = hms_text(f);
            &&& t.len() == 8
            &&& two_digits_at(t, 0, f.3 as nat)
            &&& t[2] == ':'
            &&& two_digits_at(t, 3, f.4 as nat)
            &&& t[5] == ':'
            &&& two_digits_at(t, 6, f.5 as nat)
        }),
{
    let t = hms_text(f);
    let h = decimal_padded(f.3 as nat, 2);
    let mi = decimal_padded(f.4 as nat, 2);
    let se = decimal_padded(f.5 as nat, 2);
    lemma_two_digits(f.3 as nat);
    lemma_two_digits(f.4 as nat);
    lemma_two_digits(f.5 as nat);
    let e = Seq::<char>::empty();
    assert(t =~= h + seq![':'] + mi + seq![':'] + se);
    lemma_two_digits_shift(e, h, t.subrange(2, 8), 0, f.3 as nat);
    assert(e + h + t.subrange(2, 8) =~= t);
    lemma_two_digits_shift(t.take(3), mi, t.subrange(5, 8), 0, f.4 as nat);
    assert(t.take(3) + mi + t.subrange(5, 8) =~= t);
    lemma_two_digits_shift(t.take(6), se, e, 0, f.5 as nat);
    assert(t.take(6) + se + e =~= t);
}

/// The file-name text of calendar fields (month 1 to 12, day 1 to 31,
/// hour 0 to 23, minute and second 0 to 59) is the year, then `-` and the
/// month, day, hour, minute and second in that order, each on two digits.
pub proof fn lemma_file_time_fields(f: (i32, u32, u32, u32, u32, u32, u32))
    requires
        1 <= f.1 <= 12,
        1 <= f.2 <= 31,
        f.3 <= 23,
        f.4 <= 59,
        f.5 <= 59,
    ensures
        ({
            let t = file_time_text(f);
            let y = signed_decimal(f.0 as int);
            let k = y.len() as int;
            &&& t.len() == k + 15
            &&& t.take(k) == y
            &&& t[k] == '-'
            &&& two_digits_at(t, k + 1, f.1 as nat)
            &&& t[k + 3] == '-'
            &&& two_digits_at(t, k + 4, f.2 as nat)
            &&& t[k + 6] == '-'
            &&& two_digits_at(t, k + 7, f.3 as nat)
            &&& t[k + 9] == '-'
            &&& two_digits_at(t, k + 10, f.4 as nat)
            &&& t[k + 12] == '-'
            &&& two_digits_at(t, k + 13, f.5 as nat)
        }),
{
    let t = file_time_text(f);
    let y = signed_decimal(f.0 as int);
    let k = y.len() as int;
    let mo = decimal_padded(f.1 as nat, 2);
    let dy = decimal_padded(f.2 as nat, 2);
    let h = decimal_padded(f.3 as nat, 2);
    let mi = decimal_padded(f.4 as nat, 2);
    let se = decimal_padded(f.5 as nat, 2);
    lemma_two_digits(f.1 as nat);
    lemma_two_digits(f.2 as nat);
    lemma_two_digits(f.3 as nat);
    lemma_two_digits(f.4 as nat);
    lemma_two_digits(f.5 as nat);
    let e = Seq::<char>::empty();
    assert(t =~= y + seq!['-'] + mo + seq!['-'] + dy + seq!['-'] + h + seq!['-'] + mi + seq!['-'] + se);
    assert(t.take(k) =~= y);
    lemma_two_digits_shift(t.take(k + 1), mo, t.subrange(k + 3, t.len() as int), 0, f.1 as nat);
    assert(t.take(k + 1) + mo + t.subrange(k + 3, t.len() as int) =~= t);
    lemma_two_digits_shift(t.take(k + 4), dy, t.subrange(k + 6, t.len() as int), 0, f.2 as nat);
    assert(t.take(k + 4) + dy + t.subrange(k + 6, t.len() as int) =~= t);
    lemma_two_digits_shift(t.take(k + 7), h, t.subrange(k + 9, t.len() as int), 0, f.3 as nat);
    assert(t.take(k + 7) + h + t.subrange(k + 9, t.len() as int) =~= t);
    lemma_two_digits_shift(t.take(k + 10), mi, t.subrange(k + 12, t.len() as int), 0, f.4 as nat);
    assert(t.take(k + 10) + mi + t.subrange(k + 12, t.len() as int) =~= t);
    lemma_two_digits_shift(t.take(k + 13), se, e, 0, f.5 as nat);
    assert(t.take(k + 13) + se + e =~= t);
}

/// A UNIX timestamp: seconds and nanoseconds since the epoch.
pub struct TimeDisplay {
    secs: i64,
    nsecs: u32,
}

impl TimeDisplay {
    /// The seconds since the epoch.
    pub closed spec fn spec_secs(&self) -> i64 {
        self.secs
    }

    /// The nanoseconds within the second.
    pub closed spec fn spec_nsecs(&self) -> u32 {
        self.nsecs
    }

    /// The timestamp with the given seconds and nanoseconds.
    pub fn new(secs: i64, nsecs: u32) -> (r: TimeDisplay)
        ensures
            r.spec_secs() == secs,
            r.spec_nsecs() == nsecs,
    {
        TimeDisplay { secs, nsecs }
    }

    /// The date and time in UTC as `YYYY-MM-DD-HH-MM-SS`, or
    /// `INVALID-TIMESTAMP` when the timestamp has no UTC date.
    pub fn utc_display(&self) -> (r: String)
        ensures
            match utc_datetime(self.spec_secs(), self.spec_nsecs()) {
                Some(f) => r@ == file_time_text(f),
                None => r@ == "INVALID-TIMESTAMP"@,
            },
    {
        let mut s = String::new();
        match chrono_utc_fields(self.secs, self.nsecs) {
            Some(f) => {
                push_signed(&mut s, f.year);
                s.push('-');
                push_decimal(&mut s, f.month as u64, 2);
                s.push('-');
                push_decimal(&mut s, f.day as u64, 2);
                s.push('-');
                push_decimal(&mut s, f.hour as u64, 2);
                s.push('-');
                push_decimal(&mut s, f.minute as u64, 2);
                s.push('-');
                push_decimal(&mut s, f.second as u64, 2);
                assert(s@ =~= file_time_text(
                    (f.year, f.month, f.day, f.hour, f.minute, f.second, f.nanos),
                ));
            },
            None => {
                push_str(&mut s, "INVALID-TIMESTAMP");
                assert(s@ =~= "INVALID-TIMESTAMP"@);
            },
        }
        s
    }

    /// The time in UTC as `HH:MM:SS`, or `INVALID` when the timestamp has no
    /// UTC date.
    pub fn utc_display_hms(&self) -> (r: String)
        ensures
            match utc_datetime(self.spec_secs(), self.spec_nsecs()) {
                Some(f) => r@ == hms_text(f),
                None => r@ == "INVALID"@,
            },
    {
        let mut s = String::new();
        match chrono_utc_fields(self.secs, self.nsecs) {
            Some(f) => {
                push_decimal(&mut s, f.hour as u64, 2);
                s.push(':');
                push_decimal(&mut s, f.minute as u64, 2);
                s.push(':');
                push_decimal(&mut s, f.second as u64, 2);
                assert(s@ =~= hms_text(
                    (f.year, f.month, f.day, f.hour, f.minute, f.second, f.nanos),
                ));
            },
            None => {
                push_str(&mut s, "INVALID");
                assert(s@ =~= "INVALID"@);
            },
        }
        s
    }

    /// The date and time in UTC for logs as `MM-DD HH:MM:SS.nnn`, or
    /// `INVALID-TIMESTAMP` when the timestamp has no UTC date.
    pub fn utc_display_log(&self) -> (r: String)
        ensures
            match utc_datetime(self.spec_secs(), self.spec_nsecs()) {
                Some(f) => r@ == log_time_text(f),
                None => r@ == "INVALID-TIMESTAMP"@,
            },
    {
        let mut s = String::new();
        match chrono_utc_fields(self.secs, self.nsecs) {
            Some(f) => {
                push_decimal(&mut s, f.month as u64, 2);
                s.push('-');
                push_decimal(&mut s, f.day as u64, 2);
                s.push(' ');
                push_decimal(&mut s, f.hour as u64, 2);
                s.push(':');
                push_decimal(&mut s, f.minute as u64, 2);
                s.push(':');
                push_decimal(&mut s, f.second as u64, 2);
                s.push('.');
                let digits = crate::text::decimal_chars(f.nanos as u64);
                let ghost before = s@;
                let n = if digits.len() <= 3 {
                    digits.len()
                } else {
                    3
                };
                let mut i: usize = 0;
                while i < n
                    invariant
                        i <= n <= digits@.len(),
                        n == (if digits@.len() <= 3 { digits@.len() } else { 3 }),
                        s@ == before + digits@.take(i as int),
                    decreases n - i,
                {
                    s.push(digits[i]);
                    i = i + 1;
                    assert(s@ =~= before + digits@.take(i as int));
                }
                assert(digits@.take(n as int) =~= at_most_three(digits@));
                assert(s@ =~= log_time_text(
                    (f.year, f.month, f.day, f.hour, f.minute, f.second, f.nanos),
                ));
            },
            None => {
                push_str(&mut s, "INVALID-TIMESTAMP");
                assert(s@ =~= "INVALID-TIMESTAMP"@);
            },
        }
        s
    }
}

} // verus!
