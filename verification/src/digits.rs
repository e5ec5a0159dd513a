use vstd::prelude::*;

verus! {

/// Whether a character is an ASCII decimal digit.
pub open spec fn is_digit(c: char) -> bool {
    '0' <= c && c <= '9'
}

/// Numeric value of an ASCII decimal digit.
pub open spec fn digit_val(c: char) -> nat
    recommends
        is_digit(c),
{
    (c as nat - '0' as nat) as nat
}

/// Whether every character of a sequence is an ASCII decimal digit.
pub open spec fn all_digits(s: Seq<char>) -> bool {
    forall|i: int| 0 <= i < s.len() ==> is_digit(s[i])
}

/// Value of a sequence of decimal digits, most significant first.
pub open spec fn digits_val(s: Seq<char>) -> nat
    decreases s.len(),
{
    if s.len() == 0 {
        0
    } else {
        digits_val(s.drop_last()) * 10 + digit_val(s.last())
    }
}

/// A digit sequence is worth at least as much as any of its prefixes.
pub proof fn lemma_digits_val_prefix_le(s: Seq<char>, i: int)
    requires
        0 <= i <= s.len(),
    ensures
        digits_val(s.subrange(0, i)) <= digits_val(s),
    decreases s.len(),
{
    if i < s.len() {
        assert(s.drop_last() == s.subrange(0, s.len() - 1));
        lemma_digits_val_prefix_le(s.drop_last(), i);
        assert(s.drop_last().subrange(0, i) == s.subrange(0, i));
    } else {
        assert(s.subrange(0, i) == s);
    }
}

/// The meaning that `str::parse::<usize>` gives a string: an optional leading
/// `+`, then at least one decimal digit, with a value that fits in `usize`.
pub open spec fn spec_parse_usize(s: Seq<char>) -> Option<usize> {
    let digits = if s.len() > 0 && s[0] == '+' {
        s.subrange(1, s.len() as int)
    } else {
        s
    };
    if digits.len() > 0 && all_digits(digits) && digits_val(digits) <= usize::MAX {
        Some(digits_val(digits) as usize)
    } else {
        None
    }
}

/// Parses a non-negative decimal integer exactly as `str::parse::<usize>`
/// reads it: an optional leading `+`, then one or more digits; anything
/// else, or a value over `usize::MAX`, is rejected.
pub fn parse_usize_str(s: &str) -> (r: Option<usize>)
    ensures
        r == spec_parse_usize(s@),
{
    let n = s.unicode_len();
    let start: usize = if n > 0 && s.get_char(0) == '+' {
        1
    } else {
        0
    };
    let ghost digits: Seq<char> = if s@.len() > 0 && s@[0] == '+' {
        s@.subrange(1, s@.len() as int)
    } else {
        s@
    };
    assert(digits =~= s@.subrange(start as int, n as int));
    if start == n {
        return None;
    }
    let mut acc: usize = 0;
    let mut i: usize = start;
    while i < n
        invariant
            start <= i <= n,
            n == s@.len(),
            digits == (if s@.len() > 0 && s@[0] == '+' {
                s@.subrange(1, s@.len() as int)
            } else {
                s@
            }),
            digits == s@.subrange(start as int, n as int),
            all_digits(digits.subrange(0, i - start)),
            acc == digits_val(digits.subrange(0, i - start)),
        decreases n - i,
    {
        let c = s.get_char(i);
        let ghost prefix = digits.subrange(0, i - start);
        assert(digits.subrange(0, i + 1 - start).drop_last() == prefix);
        assert(digits.subrange(0, i + 1 - start).last() == s@[i as int]);
        if c < '0' || c > '9' {
            assert(!is_digit(digits[i - start]));
            return None;
        }
        let d: usize = (c as u32 - 48) as usize;
        assert(d == digit_val(c));
        let shifted = match acc.checked_mul(10) {
            Some(v) => v,
            None => {
                proof {
                    assert(digits_val(digits.subrange(0, i + 1 - start)) > usize::MAX);
                    lemma_digits_val_prefix_le(digits, i + 1 - start);
                }
                return None;
            },
        };
        acc = match shifted.checked_add(d) {
            Some(v) => v,
            None => {
                proof {
                    assert(digits_val(digits.subrange(0, i + 1 - start)) > usize::MAX);
                    lemma_digits_val_prefix_le(digits, i + 1 - start);
                }
                return None;
            },
        };
        i = i + 1;
    }
    assert(digits.subrange(0, n - start) =~= digits);
    Some(acc)
}

/// The decimal rendering of a natural number, most significant digit first,
/// with no leading zeros (a single `0` for zero).
pub open spec fn spec_format_nat(n: nat) -> Seq<char>
    decreases n,
{
    if n < 10 {
        seq![digit_char(n)]
    } else {
        spec_format_nat(n / 10).push(digit_char(n % 10))
    }
}

/// The ASCII character for a decimal digit value.
pub open spec fn digit_char(d: nat) -> char
    recommends
        d < 10,
{
    seq!['0', '1', '2', '3', '4', '5', '6', '7', '8', '9'][d as int]
}

/// Rendering a digit value gives back a digit character of that value.
pub proof fn lemma_digit_char_val(d: nat)
    requires
        d < 10,
    ensures
        is_digit(digit_char(d)),
        digit_val(digit_char(d)) == d,
{
}

/// The decimal rendering of a number is all digits and reads back as the
/// same number.
pub proof fn lemma_format_nat_val(n: nat)
    ensures
        spec_format_nat(n).len() > 0,
        all_digits(spec_format_nat(n)),
        digits_val(spec_format_nat(n)) == n,
    decreases n,
{
    if n < 10 {
        lemma_digit_char_val(n);
        assert(spec_format_nat(n).drop_last() =~= Seq::<char>::empty());
        assert(digits_val(Seq::<char>::empty()) == 0);
        assert(spec_format_nat(n).last() == digit_char(n));
        assert(digits_val(spec_format_nat(n)) == 0 * 10 + digit_val(digit_char(n)));
    } else {
        lemma_format_nat_val(n / 10);
        lemma_digit_char_val(n % 10);
        assert(spec_format_nat(n).drop_last() =~= spec_format_nat(n / 10));
        assert(spec_format_nat(n).last() == digit_char(n % 10));
        assert(digits_val(spec_format_nat(n)) == digits_val(spec_format_nat(n / 10)) * 10
            + digit_val(digit_char(n % 10)));
        assert(n == (n / 10) * 10 + (n % 10));
    }
}

/// Round trip: rendering a byte count in decimal and parsing the rendering
/// gives the byte count back.
pub proof fn lemma_usize_roundtrip(n: usize)
    ensures
        spec_parse_usize(spec_format_nat(n as nat)) == Some(n),
{
    lemma_format_nat_val(n as nat);
    let s = spec_format_nat(n as nat);
    assert(is_digit(s[0]));
    assert(s[0] != '+');
}

/// The one-character string for a decimal digit value.
pub fn digit_str(d: usize) -> (r: &'static str)
    requires
        d < 10,
    ensures
        r@ =~= seq![digit_char(d as nat)],
{
    let table = "0123456789";
    proof {
        reveal_strlit("0123456789");
        assert(table@ =~= seq!['0', '1', '2', '3', '4', '5', '6', '7', '8', '9']);
    }
    let r = table.substring_ascii(d, d + 1);
    proof {
        assert(r@ =~= seq![digit_char(d as nat)]);
    }
    r
}

/// Renders a `usize` in decimal, exactly as `spec_format_nat` describes.
pub fn format_usize(n: usize) -> (r: String)
    ensures
        r@ == spec_format_nat(n as nat),
    decreases n,
{
    let d: usize = n % 10;
    let digit = digit_str(d);
    if n < 10 {
        let r = digit.to_owned();
        assert(r@ =~= spec_format_nat(n as nat));
        r
    } else {
        let mut r = format_usize(n / 10);
        r.append(digit);
        assert(r@ =~= spec_format_nat(n as nat));
        r
    }
}

} // verus!
