//! Civil UTC timestamps with the fixed display form
//! `"YYYY-MM-DD HH:MM:SS.fffffffff UTC"` (nine fractional digits).
//!
//! The decoder renders timestamps in this form and the record store parses
//! them back; both directions are verified against the same specification,
//! and `lemma_render_parse` shows that parsing recovers what was rendered.

use vstd::prelude::*;
use vstd::string::*;
use vstd::arithmetic::div_mod::{
    lemma_breakdown, lemma_div_pos_is_pos, lemma_mod_bound, lemma_small_mod,
};

verus! {

/// Ten to the power `k`.
pub open spec fn pow10(k: nat) -> int
    decreases k,
{
    if k == 0 {
        1
    } else {
        10 * pow10((k - 1) as nat)
    }
}

/// The decimal digit of `v` with weight ten to the `i`.
pub open spec fn digit_at(v: int, i: nat) -> int {
    v / pow10(i) % 10
}

/// A character is a decimal digit.
pub open spec fn is_digit(c: char) -> bool {
    48 <= c as u32 && c as u32 <= 57
}

/// The numeric value of a decimal digit character.
pub open spec fn digit_of(c: char) -> int {
    c as u32 - 48
}

/// The character for one decimal digit.
pub open spec fn digit_char(d: int) -> char {
    if d == 0 {
        '0'
    } else if d == 1 {
        '1'
    } else if d == 2 {
        '2'
    } else if d == 3 {
        '3'
    } else if d == 4 {
        '4'
    } else if d == 5 {
        '5'
    } else if d == 6 {
        '6'
    } else if d == 7 {
        '7'
    } else if d == 8 {
        '8'
    } else {
        '9'
    }
}

proof fn lemma_digit_char(d: int)
    requires
        0 <= d < 10,
    ensures
        is_digit(digit_char(d)),
        digit_of(digit_char(d)) == d,
{
}

proof fn lemma_pow10_pos(k: nat)
    ensures
        pow10(k) >= 1,
    decreases k,
{
    if k > 0 {
        lemma_pow10_pos((k - 1) as nat);
    }
}

proof fn lemma_digit_at_bound(v: int, i: nat)
    requires
        v >= 0,
    ensures
        0 <= digit_at(v, i) < 10,
{
    lemma_pow10_pos(i);
    lemma_div_pos_is_pos(v, pow10(i));
    lemma_mod_bound(v / pow10(i), 10);
}

/// One timestamp in civil (calendar) form, implicitly in UTC: the store
/// never holds a timezone offset, every value is normalized before storage.
#[derive(Clone, Copy, Debug, PartialEq, Eq, Structural)]
pub struct Timestamp {
    pub year: u16,
    pub month: u8,
    pub day: u8,
    pub hour: u8,
    pub minute: u8,
    pub second: u8,
    pub nanos: u32,
}

/// The leap-year rule of the Gregorian calendar.
pub open spec fn is_leap_year(y: int) -> bool {
    (y % 4 == 0 && y % 100 != 0) || y % 400 == 0
}

/// Days in one month of the Gregorian calendar; zero for an invalid month.
pub open spec fn days_in_month(y: int, m: int) -> int {
    if m == 1 || m == 3 || m == 5 || m == 7 || m == 8 || m == 10 || m == 12 {
        31
    } else if m == 4 || m == 6 || m == 9 || m == 11 {
        30
    } else if m == 2 {
        if is_leap_year(y) {
            29
        } else {
            28
        }
    } else {
        0
    }
}

impl Timestamp {
    /// The timestamp is a real calendar date and time, renderable with four
    /// year digits and nine fractional digits.
    pub open spec fn valid(self) -> bool {
        &&& self.year <= 9999
        &&& 1 <= self.month <= 12
        &&& 1 <= self.day <= days_in_month(self.year as int, self.month as int)
        &&& self.hour <= 23
        &&& self.minute <= 59
        &&& self.second <= 59
        &&& self.nanos < 1000000000
    }

    /// Strict chronological order: lexicographic on the civil fields.
    pub open spec fn before(self, other: Timestamp) -> bool {
        if self.year != other.year {
            self.year < other.year
        } else if self.month != other.month {
            self.month < other.month
        } else if self.day != other.day {
            self.day < other.day
        } else if self.hour != other.hour {
            self.hour < other.hour
        } else if self.minute != other.minute {
            self.minute < other.minute
        } else if self.second != other.second {
            self.second < other.second
        } else {
            self.nanos < other.nanos
        }
    }

    pub fn is_valid(&self) -> (b: bool)
        ensures
            b == self.valid(),
    {
        self.year <= 9999 && 1 <= self.month && self.month <= 12 && 1 <= self.day
            && self.day <= days_in_month_x(self.year, self.month) && self.hour <= 23
            && self.minute <= 59 && self.second <= 59 && self.nanos < 1000000000
    }

    pub fn is_before(&self, other: &Timestamp) -> (b: bool)
        ensures
            b == self.before(*other),
    {
        if self.year != other.year {
            self.year < other.year
        } else if self.month != other.month {
            self.month < other.month
        } else if self.day != other.day {
            self.day < other.day
        } else if self.hour != other.hour {
            self.hour < other.hour
        } else if self.minute != other.minute {
            self.minute < other.minute
        } else if self.second != other.second {
            self.second < other.second
        } else {
            self.nanos < other.nanos
        }
    }
}

pub fn days_in_month_x(y: u16, m: u8) -> (d: u8)
    ensures
        d as int == days_in_month(y as int, m as int),
{
    if m == 1 || m == 3 || m == 5 || m == 7 || m == 8 || m == 10 || m == 12 {
        31
    } else if m == 4 || m == 6 || m == 9 || m == 11 {
        30
    } else if m == 2 {
        if (y % 4 == 0 && y % 100 != 0) || y % 400 == 0 {
            29
        } else {
            28
        }
    } else {
        0
    }
}

/// The fixed display form: `YYYY-MM-DD HH:MM:SS.fffffffff UTC`, each numeric
/// field zero-padded, nine fractional digits, 33 characters in all.
pub open spec fn render_spec(t: Timestamp) -> Seq<char> {
    seq![
        digit_char(digit_at(t.year as int, 3)),
        digit_char(digit_at(t.year as int, 2)),
        digit_char(digit_at(t.year as int, 1)),
        digit_char(digit_at(t.year as int, 0)),
        '-',
        digit_char(digit_at(t.month as int, 1)),
        digit_char(digit_at(t.month as int, 0)),
        '-',
        digit_char(digit_at(t.day as int, 1)),
        digit_char(digit_at(t.day as int, 0)),
        ' ',
        digit_char(digit_at(t.hour as int, 1)),
        digit_char(digit_at(t.hour as int, 0)),
        ':',
        digit_char(digit_at(t.minute as int, 1)),
        digit_char(digit_at(t.minute as int, 0)),
        ':',
        digit_char(digit_at(t.second as int, 1)),
        digit_char(digit_at(t.second as int, 0)),
        '.',
        digit_char(digit_at(t.nanos as int, 8)),
        digit_char(digit_at(t.nanos as int, 7)),
        digit_char(digit_at(t.nanos as int, 6)),
        digit_char(digit_at(t.nanos as int, 5)),
        digit_char(digit_at(t.nanos as int, 4)),
        digit_char(digit_at(t.nanos as int, 3)),
        digit_char(digit_at(t.nanos as int, 2)),
        digit_char(digit_at(t.nanos as int, 1)),
        digit_char(digit_at(t.nanos as int, 0)),
        ' ',
        'U',
        'T',
        'C',
    ]
}

/// What a display-form string means: `Some` exactly when the string has the
/// shape above and its fields make a valid timestamp.
pub open spec fn parse_spec(s: Seq<char>) -> Option<Timestamp> {
    if s.len() == 33 && is_digit(s[0]) && is_digit(s[1]) && is_digit(s[2]) && is_digit(s[3])
        && s[4] == '-' && is_digit(s[5]) && is_digit(s[6]) && s[7] == '-' && is_digit(s[8])
        && is_digit(s[9]) && s[10] == ' ' && is_digit(s[11]) && is_digit(s[12]) && s[13] == ':'
        && is_digit(s[14]) && is_digit(s[15]) && s[16] == ':' && is_digit(s[17]) && is_digit(
        s[18],
    ) && s[19] == '.' && is_digit(s[20]) && is_digit(s[21]) && is_digit(s[22]) && is_digit(s[23])
        && is_digit(s[24]) && is_digit(s[25]) && is_digit(s[26]) && is_digit(s[27]) && is_digit(
        s[28],
    ) && s[29] == ' ' && s[30] == 'U' && s[31] == 'T' && s[32] == 'C' {
        let t = Timestamp {
            year: (digit_of(s[0]) * 1000 + digit_of(s[1]) * 100 + digit_of(s[2]) * 10 + digit_of(
                s[3],
            )) as u16,
            month: (digit_of(s[5]) * 10 + digit_of(s[6])) as u8,
            day: (digit_of(s[8]) * 10 + digit_of(s[9])) as u8,
            hour: (digit_of(s[11]) * 10 + digit_of(s[12])) as u8,
            minute: (digit_of(s[14]) * 10 + digit_of(s[15])) as u8,
            second: (digit_of(s[17]) * 10 + digit_of(s[18])) as u8,
            nanos: (digit_of(s[20]) * 100000000 + digit_of(s[21]) * 10000000 + digit_of(s[22])
                * 1000000 + digit_of(s[23]) * 100000 + digit_of(s[24]) * 10000 + digit_of(s[25])
                * 1000 + digit_of(s[26]) * 100 + digit_of(s[27]) * 10 + digit_of(s[28])) as u32,
        };
        if t.valid() {
            Some(t)
        } else {
            None
        }
    } else {
        None
    }
}

fn digit_str(d: u32) -> (r: &'static str)
    requires
        d < 10,
    ensures
        r@ == seq![digit_char(d as int)],
{
    proof {
        reveal_strlit("0");
        reveal_strlit("1");
        reveal_strlit("2");
        reveal_strlit("3");
        reveal_strlit("4");
        reveal_strlit("5");
        reveal_strlit("6");
        reveal_strlit("7");
        reveal_strlit("8");
        reveal_strlit("9");
    }
    let r: &'static str = if d == 0 {
        "0"
    } else if d == 1 {
        "1"
    } else if d == 2 {
        "2"
    } else if d == 3 {
        "3"
    } else if d == 4 {
        "4"
    } else if d == 5 {
        "5"
    } else if d == 6 {
        "6"
    } else if d == 7 {
        "7"
    } else {
        "8"
    };
    let r: &'static str = if d == 9 {
        "9"
    } else {
        r
    };
    proof {
        assert(r@ =~= seq![digit_char(d as int)]);
    }
    r
}

fn push_digit(out: &mut String, d: u32)
    requires
        d < 10,
    ensures
        final(out)@ == old(out)@ + seq![digit_char(d as int)],
{
    out.append(digit_str(d));
}

/// Renders a timestamp in the fixed display form.
#[verifier::rlimit(30)]
pub fn render(t: &Timestamp) -> (s: String)
    ensures
        s@ == render_spec(*t),
{
    proof {
        reveal_with_fuel(pow10, 10);
    }
    let mut s = String::new();
    push_digit(&mut s, ((t.year / 1000) % 10) as u32);
    push_digit(&mut s, ((t.year / 100) % 10) as u32);
    push_digit(&mut s, ((t.year / 10) % 10) as u32);
    push_digit(&mut s, (t.year % 10) as u32);
    s.append("-");
    push_digit(&mut s, ((t.month / 10) % 10) as u32);
    push_digit(&mut s, (t.month % 10) as u32);
    s.append("-");
    push_digit(&mut s, ((t.day / 10) % 10) as u32);
    push_digit(&mut s, (t.day % 10) as u32);
    s.append(" ");
    push_digit(&mut s, ((t.hour / 10) % 10) as u32);
    push_digit(&mut s, (t.hour % 10) as u32);
    s.append(":");
    push_digit(&mut s, ((t.minute / 10) % 10) as u32);
    push_digit(&mut s, (t.minute % 10) as u32);
    s.append(":");
    push_digit(&mut s, ((t.second / 10) % 10) as u32);
    push_digit(&mut s, (t.second % 10) as u32);
    s.append(".");
    push_digit(&mut s, (t.nanos / 100000000) % 10);
    push_digit(&mut s, (t.nanos / 10000000) % 10);
    push_digit(&mut s, (t.nanos / 1000000) % 10);
    push_digit(&mut s, (t.nanos / 100000) % 10);
    push_digit(&mut s, (t.nanos / 10000) % 10);
    push_digit(&mut s, (t.nanos / 1000) % 10);
    push_digit(&mut s, (t.nanos / 100) % 10);
    push_digit(&mut s, (t.nanos / 10) % 10);
    push_digit(&mut s, t.nanos % 10);
    s.append(" UTC");
    proof {
        reveal_strlit("-");
        reveal_strlit(" ");
        reveal_strlit(":");
        reveal_strlit(".");
        reveal_strlit(" UTC");
        assert(s@ =~= render_spec(*t));
    }
    s
}

fn digit_value(c: char) -> (r: Option<u32>)
    ensures
        match r {
            Some(d) => is_digit(c) && d == digit_of(c) && d < 10,
            None => !is_digit(c),
        },
{
    let u = c as u32;
    if 48 <= u && u <= 57 {
        Some(u - 48)
    } else {
        None
    }
}

fn read2(s: &str, i: usize) -> (r: Option<u32>)
    requires
        i + 2 <= s@.len(),
        s@.len() <= usize::MAX,
    ensures
        match r {
            Some(v) => is_digit(s@[i as int]) && is_digit(s@[i + 1]) && v == digit_of(
                s@[i as int],
            ) * 10 + digit_of(s@[i + 1]) && v < 100,
            None => !(is_digit(s@[i as int]) && is_digit(s@[i + 1])),
        },
{
    let d0 = match digit_value(s.get_char(i)) {
        Some(d) => d,
        None => {
            return None;
        },
    };
    let d1 = match digit_value(s.get_char(i + 1)) {
        Some(d) => d,
        None => {
            return None;
        },
    };
    Some(d0 * 10 + d1)
}

fn read4(s: &str, i: usize) -> (r: Option<u32>)
    requires
        i + 4 <= s@.len(),
        s@.len() <= usize::MAX,
    ensures
        match r {
            Some(v) => is_digit(s@[i as int]) && is_digit(s@[i + 1]) && is_digit(s@[i + 2])
                && is_digit(s@[i + 3]) && v == digit_of(s@[i as int]) * 1000 + digit_of(s@[i + 1])
                * 100 + digit_of(s@[i + 2]) * 10 + digit_of(s@[i + 3]) && v < 10000,
            None => !(is_digit(s@[i as int]) && is_digit(s@[i + 1]) && is_digit(s@[i + 2])
                && is_digit(s@[i + 3])),
        },
{
    let hi = match read2(s, i) {
        Some(v) => v,
        None => {
            return None;
        },
    };
    let lo = match read2(s, i + 2) {
        Some(v) => v,
        None => {
            return None;
        },
    };
    Some(hi * 100 + lo)
}

fn read9(s: &str, i: usize) -> (r: Option<u32>)
    requires
        i + 9 <= s@.len(),
        s@.len() <= usize::MAX,
    ensures
        match r {
            Some(v) => (forall|k: int| i <= k < i + 9 ==> is_digit(s@[k])) && v == digit_of(
                s@[i as int],
            ) * 100000000 + digit_of(s@[i + 1]) * 10000000 + digit_of(s@[i + 2]) * 1000000
                + digit_of(s@[i + 3]) * 100000 + digit_of(s@[i + 4]) * 10000 + digit_of(s@[i + 5])
                * 1000 + digit_of(s@[i + 6]) * 100 + digit_of(s@[i + 7]) * 10 + digit_of(
                s@[i + 8],
            ) && v < 1000000000,
            None => !(forall|k: int| i <= k < i + 9 ==> is_digit(s@[k])),
        },
{
    let a = match read4(s, i) {
        Some(v) => v,
        None => {
            return None;
        },
    };
    let b = match read4(s, i + 4) {
        Some(v) => v,
        None => {
            return None;
        },
    };
    let c = match digit_value(s.get_char(i + 8)) {
        Some(d) => d,
        None => {
            return None;
        },
    };
    Some(a * 100000 + b * 10 + c)
}

/// Parses a string in the fixed display form; `None` on any other form.
pub fn parse_time_string(s: &str) -> (r: Option<Timestamp>)
    ensures
        r == parse_spec(s@),
{
    if s.unicode_len() != 33 {
        return None;
    }
    let y = match read4(s, 0) {
        Some(v) => v,
        None => {
            return None;
        },
    };
    if s.get_char(4) != '-' {
        return None;
    }
    let mo = match read2(s, 5) {
        Some(v) => v,
        None => {
            return None;
        },
    };
    if s.get_char(7) != '-' {
        return None;
    }
    let d = match read2(s, 8) {
        Some(v) => v,
        None => {
            return None;
        },
    };
    if s.get_char(10) != ' ' {
        return None;
    }
    let h = match read2(s, 11) {
        Some(v) => v,
        None => {
            return None;
        },
    };
    if s.get_char(13) != ':' {
        return None;
    }
    let mi = match read2(s, 14) {
        Some(v) => v,
        None => {
            return None;
        },
    };
    if s.get_char(16) != ':' {
        return None;
    }
    let sec = match read2(s, 17) {
        Some(v) => v,
        None => {
            return None;
        },
    };
    if s.get_char(19) != '.' {
        return None;
    }
    let n = match read9(s, 20) {
        Some(v) => v,
        None => {
            return None;
        },
    };
    if s.get_char(29) != ' ' || s.get_char(30) != 'U' || s.get_char(31) != 'T' || s.get_char(32)
        != 'C' {
        return None;
    }
    let t = Timestamp {
        year: y as u16,
        month: mo as u8,
        day: d as u8,
        hour: h as u8,
        minute: mi as u8,
        second: sec as u8,
        nanos: n,
    };
    if t.is_valid() {
        Some(t)
    } else {
        None
    }
}

proof fn lemma_recompose2(v: int)
    requires
        0 <= v < 100,
    ensures
        digit_at(v, 1) * 10 + digit_at(v, 0) == v,
{
    reveal_with_fuel(pow10, 3);
    lemma_breakdown(v, 10, 10);
    lemma_small_mod(v as nat, 100);
}

proof fn lemma_recompose4(v: int)
    requires
        0 <= v < 10000,
    ensures
        digit_at(v, 3) * 1000 + digit_at(v, 2) * 100 + digit_at(v, 1) * 10 + digit_at(v, 0) == v,
{
    reveal_with_fuel(pow10, 5);
    lemma_breakdown(v, 1000, 10);
    lemma_breakdown(v, 100, 10);
    lemma_breakdown(v, 10, 10);
    lemma_small_mod(v as nat, 10000);
}

proof fn lemma_recompose9(v: int)
    requires
        0 <= v < 1000000000,
    ensures
        digit_at(v, 8) * 100000000 + digit_at(v, 7) * 10000000 + digit_at(v, 6) * 1000000
            + digit_at(v, 5) * 100000 + digit_at(v, 4) * 10000 + digit_at(v, 3) * 1000 + digit_at(
            v,
            2,
        ) * 100 + digit_at(v, 1) * 10 + digit_at(v, 0) == v,
{
    reveal_with_fuel(pow10, 10);
    lemma_breakdown(v, 100000000, 10);
    lemma_breakdown(v, 10000000, 10);
    lemma_breakdown(v, 1000000, 10);
    lemma_breakdown(v, 100000, 10);
    lemma_breakdown(v, 10000, 10);
    lemma_breakdown(v, 1000, 10);
    lemma_breakdown(v, 100, 10);
    lemma_breakdown(v, 10, 10);
    lemma_small_mod(v as nat, 1000000000);
}

proof fn lemma_digit_roundtrip(v: int, i: nat)
    requires
        v >= 0,
    ensures
        is_digit(digit_char(digit_at(v, i))),
        digit_of(digit_char(digit_at(v, i))) == digit_at(v, i),
{
    lemma_digit_at_bound(v, i);
    lemma_digit_char(digit_at(v, i));
}

/// Round trip: parsing a rendered valid timestamp recovers it exactly.
#[verifier::rlimit(100)]
pub proof fn lemma_render_parse(t: Timestamp)
    requires
        t.valid(),
    ensures
        parse_spec(render_spec(t)) == Some(t),
{
    let s = render_spec(t);
    lemma_digit_roundtrip(t.year as int, 3);
    lemma_digit_roundtrip(t.year as int, 2);
    lemma_digit_roundtrip(t.year as int, 1);
    lemma_digit_roundtrip(t.year as int, 0);
    lemma_digit_roundtrip(t.month as int, 1);
    lemma_digit_roundtrip(t.month as int, 0);
    lemma_digit_roundtrip(t.day as int, 1);
    lemma_digit_roundtrip(t.day as int, 0);
    lemma_digit_roundtrip(t.hour as int, 1);
    lemma_digit_roundtrip(t.hour as int, 0);
    lemma_digit_roundtrip(t.minute as int, 1);
    lemma_digit_roundtrip(t.minute as int, 0);
    lemma_digit_roundtrip(t.second as int, 1);
    lemma_digit_roundtrip(t.second as int, 0);
    lemma_digit_roundtrip(t.nanos as int, 8);
    lemma_digit_roundtrip(t.nanos as int, 7);
    lemma_digit_roundtrip(t.nanos as int, 6);
    lemma_digit_roundtrip(t.nanos as int, 5);
    lemma_digit_roundtrip(t.nanos as int, 4);
    lemma_digit_roundtrip(t.nanos as int, 3);
    lemma_digit_roundtrip(t.nanos as int, 2);
    lemma_digit_roundtrip(t.nanos as int, 1);
    lemma_digit_roundtrip(t.nanos as int, 0);
    lemma_recompose4(t.year as int);
    lemma_recompose2(t.month as int);
    lemma_recompose2(t.day as int);
    lemma_recompose2(t.hour as int);
    lemma_recompose2(t.minute as int);
    lemma_recompose2(t.second as int);
    lemma_recompose9(t.nanos as int);
    assert(parse_spec(s) == Some(t));
}

/// The timestamp, in UTC civil form, that chrono's RFC 3339 parser reads
/// from a string; `None` where chrono rejects the string.
pub uninterp spec fn rfc3339_utc(s: Seq<char>) -> Option<Timestamp>;

/// Relies on chrono's `DateTime::parse_from_rfc3339`, `with_timezone(&Utc)`
/// and the `Datelike`/`Timelike` accessors: the result is a function of the
/// input text alone. Field values outside `Timestamp`'s renderable range
/// (a leap-second nanosecond count, for one) are filtered by callers, which
/// check `valid` before using the result.
#[verifier::external_body]
pub(crate) fn parse_rfc3339(s: &str) -> (r: Option<Timestamp>)
    ensures
        r == rfc3339_utc(s@),
{
    match chrono::DateTime::parse_from_rfc3339(s) {
        Ok(dt) => {
            let u = dt.with_timezone(&chrono::Utc);
            Some(Timestamp {
                year: chrono::Datelike::year(&u) as u16, month: chrono::Datelike::month(&u) as u8,
                day: chrono::Datelike::day(&u) as u8, hour: chrono::Timelike::hour(&u) as u8,
                minute: chrono::Timelike::minute(&u) as u8,
                second: chrono::Timelike::second(&u) as u8,
                nanos: chrono::Timelike::nanosecond(&u),
            })
        },
        Err(_) => None,
    }
}

} // verus!
