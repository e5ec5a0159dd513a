use vstd::prelude::*;

use crate::digits::{all_digits, digit_char, digits_val, is_digit};

verus! {

/// A wall-clock timestamp in the device's local time, second precision,
/// as carried by the fixed `YYYY-MM-DD HH:MM:SS` text format.
#[derive(Clone, Copy, Debug, PartialEq, Eq, Structural)]
pub struct DateTime {
    pub year: u16,
    pub month: u8,
    pub day: u8,
    pub hour: u8,
    pub minute: u8,
    pub second: u8,
}

/// Whether a year is a leap year in the proleptic Gregorian calendar.
pub open spec fn spec_is_leap_year(y: int) -> bool {
    y % 4 == 0 && (y % 100 != 0 || y % 400 == 0)
}

/// Number of days in a month of a given year.
pub open spec fn spec_days_in_month(y: int, m: int) -> int
    recommends
        1 <= m <= 12,
{
    if m == 2 {
        if spec_is_leap_year(y) {
            29
        } else {
            28
        }
    } else if m == 4 || m == 6 || m == 9 || m == 11 {
        30
    } else {
        31
    }
}

/// A timestamp is valid when its fields denote a real calendar date and a
/// real time of day, with a four-digit year.
pub open spec fn spec_valid_datetime(dt: DateTime) -> bool {
    &&& dt.year <= 9999
    &&& 1 <= dt.month <= 12
    &&& 1 <= dt.day <= spec_days_in_month(dt.year as int, dt.month as int)
    &&& dt.hour <= 23
    &&& dt.minute <= 59
    &&& dt.second <= 59
}

/// Executable leap-year test.
pub fn is_leap_year(y: u16) -> (r: bool)
    ensures
        r == spec_is_leap_year(y as int),
{
    y % 4 == 0 && (y % 100 != 0 || y % 400 == 0)
}

/// Executable days-in-month table.
pub fn days_in_month(y: u16, m: u8) -> (r: u8)
    requires
        1 <= m <= 12,
    ensures
        r == spec_days_in_month(y as int, m as int),
{
    if m == 2 {
        if is_leap_year(y) {
            29
        } else {
            28
        }
    } else if m == 4 || m == 6 || m == 9 || m == 11 {
        30
    } else {
        31
    }
}

/// Executable validity test for a timestamp.
pub fn is_valid_datetime(dt: &DateTime) -> (r: bool)
    ensures
        r == spec_valid_datetime(*dt),
{
    dt.year <= 9999 && 1 <= dt.month && dt.month <= 12 && 1 <= dt.day && dt.day <= days_in_month(
        dt.year,
        dt.month,
    ) && dt.hour <= 23 && dt.minute <= 59 && dt.second <= 59
}

/// A number rendered in decimal and left-padded with zeros to a width.
pub open spec fn spec_zero_pad(n: nat, width: nat) -> Seq<char>
    decreases width,
{
    if width == 0 {
        Seq::empty()
    } else {
        spec_zero_pad(n / 10, (width - 1) as nat).push(digit_char(n % 10))
    }
}

/// A zero-padded rendering is all digits and, when the number fits the
/// width, reads back as the same number.
pub proof fn lemma_zero_pad_val(n: nat, width: nat)
    ensures
        spec_zero_pad(n, width).len() == width,
        all_digits(spec_zero_pad(n, width)),
        n < pow10(width) ==> digits_val(spec_zero_pad(n, width)) == n,
    decreases width,
{
    if width > 0 {
        lemma_zero_pad_val(n / 10, (width - 1) as nat);
        crate::digits::lemma_digit_char_val(n % 10);
        let s = spec_zero_pad(n, width);
        assert(s.drop_last() =~= spec_zero_pad(n / 10, (width - 1) as nat));
        assert(s.last() == digit_char(n % 10));
        assert(digits_val(s) == digits_val(s.drop_last()) * 10 + crate::digits::digit_val(
            digit_char(n % 10),
        ));
        if n < pow10(width) {
            assert(pow10(width) == pow10((width - 1) as nat) * 10);
            assert(n / 10 < pow10((width - 1) as nat)) by {
                if n / 10 >= pow10((width - 1) as nat) {
                    assert(n >= (n / 10) * 10);
                    assert((n / 10) * 10 >= pow10((width - 1) as nat) * 10) by (nonlinear_arith)
                        requires
                            n / 10 >= pow10((width - 1) as nat),
                    ;
                }
            }
            assert(n == (n / 10) * 10 + (n % 10));
        }
    } else {
        assert(spec_zero_pad(n, width) =~= Seq::<char>::empty());
    }
}

/// Ten to a natural power.
pub open spec fn pow10(e: nat) -> nat
    decreases e,
{
    if e == 0 {
        1
    } else {
        pow10((e - 1) as nat) * 10
    }
}

/// The `YYYY-MM-DD HH:MM:SS` rendering of a timestamp.
pub open spec fn spec_format_datetime(dt: DateTime) -> Seq<char> {
    spec_zero_pad(dt.year as nat, 4) + seq!['-'] + spec_zero_pad(dt.month as nat, 2) + seq!['-']
        + spec_zero_pad(dt.day as nat, 2) + seq![' '] + spec_zero_pad(dt.hour as nat, 2)
        + seq![':'] + spec_zero_pad(dt.minute as nat, 2) + seq![':'] + spec_zero_pad(
        dt.second as nat,
        2,
    )
}

/// What parsing `YYYY-MM-DD HH:MM:SS` yields: `Some` exactly for a
/// nineteen-character text with digits and separators in the fixed
/// positions whose fields form a valid timestamp.
pub open spec fn spec_parse_datetime(s: Seq<char>) -> Option<DateTime> {
    if s.len() == 19 && s[4] == '-' && s[7] == '-' && s[10] == ' ' && s[13] == ':' && s[16] == ':'
        && all_digits(s.subrange(0, 4)) && all_digits(s.subrange(5, 7)) && all_digits(
        s.subrange(8, 10),
    ) && all_digits(s.subrange(11, 13)) && all_digits(s.subrange(14, 16)) && all_digits(
        s.subrange(17, 19),
    ) {
        let dt = DateTime {
            year: digits_val(s.subrange(0, 4)) as u16,
            month: digits_val(s.subrange(5, 7)) as u8,
            day: digits_val(s.subrange(8, 10)) as u8,
            hour: digits_val(s.subrange(11, 13)) as u8,
            minute: digits_val(s.subrange(14, 16)) as u8,
            second: digits_val(s.subrange(17, 19)) as u8,
        };
        if spec_valid_datetime(dt) {
            Some(dt)
        } else {
            None
        }
    } else {
        None
    }
}

/// A run of digits is worth less than ten to its length.
pub proof fn lemma_digits_val_bound(s: Seq<char>)
    requires
        all_digits(s),
    ensures
        digits_val(s) < pow10(s.len() as nat),
    decreases s.len(),
{
    if s.len() > 0 {
        lemma_digits_val_bound(s.drop_last());
        assert(digits_val(s) == digits_val(s.drop_last()) * 10 + crate::digits::digit_val(
            s.last(),
        ));
        assert(digits_val(s.drop_last()) * 10 <= (pow10((s.len() - 1) as nat) - 1) * 10)
            by (nonlinear_arith)
            requires
                digits_val(s.drop_last()) <= pow10((s.len() - 1) as nat) - 1,
        ;
    }
}

/// Reads a fixed all-digit field out of a string, or reports the first
/// non-digit in it.
fn parse_num_field(s: &str, from: usize, to: usize) -> (r: Option<u16>)
    requires
        from <= to <= s@.len(),
        to - from <= 4,
    ensures
        (r is Some) == all_digits(s@.subrange(from as int, to as int)),
        r is Some ==> r->0 == digits_val(s@.subrange(from as int, to as int)),
{
    let ghost field = s@.subrange(from as int, to as int);
    let mut acc: u16 = 0;
    let mut i: usize = from;
    while i < to
        invariant
            from <= i <= to <= s@.len(),
            to - from <= 4,
            field == s@.subrange(from as int, to as int),
            all_digits(field.subrange(0, i - from)),
            acc == digits_val(field.subrange(0, i - from)),
            acc < pow10((i - from) as nat),
        decreases to - i,
    {
        let c = s.get_char(i);
        let ghost prefix = field.subrange(0, i - from);
        assert(field.subrange(0, i + 1 - from).drop_last() =~= prefix);
        assert(field.subrange(0, i + 1 - from).last() == s@[i as int]);
        if c < '0' || c > '9' {
            assert(!is_digit(field[i - from]));
            return None;
        }
        let d: u16 = (c as u32 - 48) as u16;
        assert(d == crate::digits::digit_val(c));
        proof {
            assert(pow10((i + 1 - from) as nat) == pow10((i - from) as nat) * 10);
            assert(acc * 10 + d < pow10((i - from) as nat) * 10) by (nonlinear_arith)
                requires
                    acc < pow10((i - from) as nat),
                    d < 10,
            ;
            lemma_pow10_small();
            assert(pow10((i + 1 - from) as nat) <= pow10(4)) by {
                lemma_pow10_le((i + 1 - from) as nat, 4);
            }
        }
        acc = acc * 10 + d;
        i = i + 1;
    }
    assert(field.subrange(0, to - from) =~= field);
    Some(acc)
}

/// The low powers of ten, unfolded.
proof fn lemma_pow10_small()
    ensures
        pow10(0) == 1,
        pow10(1) == 10,
        pow10(2) == 100,
        pow10(3) == 1000,
        pow10(4) == 10000,
{
    assert(pow10(0) == 1);
    assert(pow10(1) == pow10(0) * 10);
    assert(pow10(2) == pow10(1) * 10);
    assert(pow10(3) == pow10(2) * 10);
    assert(pow10(4) == pow10(3) * 10);
}

/// `pow10` grows with its exponent.
proof fn lemma_pow10_le(a: nat, b: nat)
    requires
        a <= b,
    ensures
        pow10(a) <= pow10(b),
    decreases b,
{
    if a < b {
        lemma_pow10_le(a, (b - 1) as nat);
        assert(pow10(b) == pow10((b - 1) as nat) * 10);
    }
}

/// Parses the fixed `YYYY-MM-DD HH:MM:SS` format, exactly as
/// `spec_parse_datetime` describes: strict widths, strict separators,
/// and calendar validity.
pub fn parse_datetime(s: &str) -> (r: Option<DateTime>)
    ensures
        r == spec_parse_datetime(s@),
{
    let n = s.unicode_len();
    if n != 19 {
        return None;
    }
    if s.get_char(4) != '-' || s.get_char(7) != '-' || s.get_char(10) != ' ' || s.get_char(13)
        != ':' || s.get_char(16) != ':' {
        return None;
    }
    let year = match parse_num_field(s, 0, 4) {
        Some(v) => v,
        None => {
            return None;
        },
    };
    let month = match parse_num_field(s, 5, 7) {
        Some(v) => v,
        None => {
            return None;
        },
    };
    let day = match parse_num_field(s, 8, 10) {
        Some(v) => v,
        None => {
            return None;
        },
    };
    let hour = match parse_num_field(s, 11, 13) {
        Some(v) => v,
        None => {
            return None;
        },
    };
    let minute = match parse_num_field(s, 14, 16) {
        Some(v) => v,
        None => {
            return None;
        },
    };
    let second = match parse_num_field(s, 17, 19) {
        Some(v) => v,
        None => {
            return None;
        },
    };
    proof {
        lemma_digits_val_bound(s@.subrange(5, 7));
        lemma_digits_val_bound(s@.subrange(8, 10));
        lemma_digits_val_bound(s@.subrange(11, 13));
        lemma_digits_val_bound(s@.subrange(14, 16));
        lemma_digits_val_bound(s@.subrange(17, 19));
        lemma_pow10_small();
    }
    let dt = DateTime {
        year,
        month: month as u8,
        day: day as u8,
        hour: hour as u8,
        minute: minute as u8,
        second: second as u8,
    };
    if is_valid_datetime(&dt) {
        Some(dt)
    } else {
        None
    }
}

/// Renders a number zero-padded to a width, exactly as `spec_zero_pad`.
fn zero_pad(n: u16, width: usize) -> (r: String)
    ensures
        r@ == spec_zero_pad(n as nat, width as nat),
    decreases width,
{
    if width == 0 {
        let r = String::new();
        assert(r@ =~= spec_zero_pad(n as nat, 0));
        r
    } else {
        let mut r = zero_pad(n / 10, width - 1);
        let d = crate::digits::digit_str((n % 10) as usize);
        r.append(d);
        assert(r@ =~= spec_zero_pad(n as nat, width as nat));
        r
    }
}

/// Renders a timestamp as `YYYY-MM-DD HH:MM:SS`, exactly as
/// `spec_format_datetime`.
pub fn format_datetime(dt: &DateTime) -> (r: String)
    ensures
        r@ == spec_format_datetime(*dt),
{
    let mut r = zero_pad(dt.year, 4);
    r.append("-");
    let part = zero_pad(dt.month as u16, 2);
    r.append(part.as_str());
    r.append("-");
    let part = zero_pad(dt.day as u16, 2);
    r.append(part.as_str());
    r.append(" ");
    let part = zero_pad(dt.hour as u16, 2);
    r.append(part.as_str());
    r.append(":");
    let part = zero_pad(dt.minute as u16, 2);
    r.append(part.as_str());
    r.append(":");
    let part = zero_pad(dt.second as u16, 2);
    r.append(part.as_str());
    proof {
        reveal_strlit("-");
        reveal_strlit(" ");
        reveal_strlit(":");
        assert(r@ =~= spec_format_datetime(*dt));
    }
    r
}

/// Round trip: rendering a valid timestamp and parsing the rendering gives
/// the timestamp back.
pub proof fn lemma_datetime_roundtrip(dt: DateTime)
    requires
        spec_valid_datetime(dt),
    ensures
        spec_parse_datetime(spec_format_datetime(dt)) == Some(dt),
{
    let s = spec_format_datetime(dt);
    lemma_zero_pad_val(dt.year as nat, 4);
    lemma_zero_pad_val(dt.month as nat, 2);
    lemma_zero_pad_val(dt.day as nat, 2);
    lemma_zero_pad_val(dt.hour as nat, 2);
    lemma_zero_pad_val(dt.minute as nat, 2);
    lemma_zero_pad_val(dt.second as nat, 2);
    lemma_pow10_small();
    assert(s.len() == 19);
    assert(s.subrange(0, 4) =~= spec_zero_pad(dt.year as nat, 4));
    assert(s[4] == '-');
    assert(s.subrange(5, 7) =~= spec_zero_pad(dt.month as nat, 2));
    assert(s[7] == '-');
    assert(s.subrange(8, 10) =~= spec_zero_pad(dt.day as nat, 2));
    assert(s[10] == ' ');
    assert(s.subrange(11, 13) =~= spec_zero_pad(dt.hour as nat, 2));
    assert(s[13] == ':');
    assert(s.subrange(14, 16) =~= spec_zero_pad(dt.minute as nat, 2));
    assert(s[16] == ':');
    assert(s.subrange(17, 19) =~= spec_zero_pad(dt.second as nat, 2));
}

} // verus!
