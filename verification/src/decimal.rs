//! Integers as decimal text, written and read back.

use vstd::prelude::*;

verus! {

/// The character of a decimal digit.
pub open spec fn digit_char(d: int) -> char {
    if d == 0 {
        '0'
    } else if d == 1 {
        '1'
    } else if d == 2 {
        '2'
    } else if d == 3 {
        '3'
    } else if d == 4 {
        '4'
    } else if d == 5 {
        '5'
    } else if d == 6 {
        '6'
    } else if d == 7 {
        '7'
    } else if d == 8 {
        '8'
    } else {
        '9'
    }
}

/// The digit that a character stands for, if it is a decimal digit.
pub open spec fn digit_value(c: char) -> Option<int> {
    if c == '0' {
        Some(0)
    } else if c == '1' {
        Some(1)
    } else if c == '2' {
        Some(2)
    } else if c == '3' {
        Some(3)
    } else if c == '4' {
        Some(4)
    } else if c == '5' {
        Some(5)
    } else if c == '6' {
        Some(6)
    } else if c == '7' {
        Some(7)
    } else if c == '8' {
        Some(8)
    } else if c == '9' {
        Some(9)
    } else {
        None
    }
}

/// A natural number in decimal, without leading zeros.
pub open spec fn decimal(n: nat) -> Seq<char>
    decreases n,
{
    if n < 10 {
        seq![digit_char(n as int)]
    } else {
        decimal(n / 10).push(digit_char((n % 10) as int))
    }
}

/// An integer in decimal, with a minus sign in front of a negative one.
pub open spec fn int_text(i: int) -> Seq<char> {
    if i < 0 {
        seq!['-'] + decimal((-i) as nat)
    } else {
        decimal(i as nat)
    }
}

/// Whether every character of `s` is a decimal digit.
pub open spec fn is_digits(s: Seq<char>) -> bool {
    forall|i: int| 0 <= i < s.len() ==> (#[trigger] digit_value(s[i])) is Some
}

/// The number that a run of digits denotes, leading zeros allowed.
pub open spec fn digits_value(s: Seq<char>) -> nat
    decreases s.len(),
{
    if s.len() == 0 {
        0
    } else {
        (digits_value(s.drop_last()) * 10 + digit_value(s.last()).unwrap()) as nat
    }
}

/// Whether `s` opens with a sign: a plus, or a minus where `signed` allows
/// negative numbers.
pub open spec fn has_sign(s: Seq<char>, signed: bool) -> bool {
    s.len() > 0 && (s[0] == '+' || (signed && s[0] == '-'))
}

/// The digits of `s`, after its sign if it has one.
pub open spec fn digits_part(s: Seq<char>, signed: bool) -> Seq<char> {
    if has_sign(s, signed) {
        s.skip(1)
    } else {
        s
    }
}

/// The integer that `s` denotes: an optional sign and then at least one
/// digit, nothing else. A minus is a sign only where `signed` holds.
pub open spec fn parsed_int(s: Seq<char>, signed: bool) -> Option<int> {
    let digits = digits_part(s, signed);
    if digits.len() == 0 || !is_digits(digits) {
        None
    } else if signed && s[0] == '-' {
        Some(-(digits_value(digits) as int))
    } else {
        Some(digits_value(digits) as int)
    }
}

/// The integer that `s` denotes, if it lies between `low` and `high`.
pub open spec fn parsed_within(s: Seq<char>, signed: bool, low: int, high: int) -> Option<int> {
    match parsed_int(s, signed) {
        Some(v) => if low <= v <= high {
            Some(v)
        } else {
            None
        },
        None => None,
    }
}

/// Decimal text holds digits only, and denotes the number it was written for.
pub proof fn lemma_decimal_digits(n: nat)
    ensures
        decimal(n).len() > 0,
        is_digits(decimal(n)),
        digits_value(decimal(n)) == n,
    decreases n,
{
    if n < 10 {
        assert(digits_value(decimal(n).drop_last()) == 0);
    } else {
        lemma_decimal_digits(n / 10);
        assert(decimal(n).drop_last() =~= decimal(n / 10));
    }
}

/// Reading the text of an integer gives the integer back, provided that a
/// negative one is read as signed.
pub proof fn lemma_int_text_parses(i: int, signed: bool)
    requires
        i >= 0 || signed,
    ensures
        parsed_int(int_text(i), signed) == Some(i),
{
    if i < 0 {
        lemma_decimal_digits((-i) as nat);
        assert(int_text(i).skip(1) =~= decimal((-i) as nat));
    } else {
        lemma_decimal_digits(i as nat);
        assert(digit_value(int_text(i)[0]) is Some);
    }
}

fn digit_of(d: u128) -> (c: char)
    requires
        d < 10,
    ensures
        c == digit_char(d as int),
{
    if d == 0 {
        '0'
    } else if d == 1 {
        '1'
    } else if d == 2 {
        '2'
    } else if d == 3 {
        '3'
    } else if d == 4 {
        '4'
    } else if d == 5 {
        '5'
    } else if d == 6 {
        '6'
    } else if d == 7 {
        '7'
    } else if d == 8 {
        '8'
    } else {
        '9'
    }
}

fn value_of(c: char) -> (d: Option<u128>)
    ensures
        match d {
            Some(v) => digit_value(c) == Some(v as int) && v < 10,
            None => digit_value(c) is None,
        },
{
    if c == '0' {
        Some(0)
    } else if c == '1' {
        Some(1)
    } else if c == '2' {
        Some(2)
    } else if c == '3' {
        Some(3)
    } else if c == '4' {
        Some(4)
    } else if c == '5' {
        Some(5)
    } else if c == '6' {
        Some(6)
    } else if c == '7' {
        Some(7)
    } else if c == '8' {
        Some(8)
    } else if c == '9' {
        Some(9)
    } else {
        None
    }
}

/// Appends the decimal text of `n` to `out`.
pub fn push_decimal(out: &mut String, n: u128)
    ensures
        final(out)@ == old(out)@ + decimal(n as nat),
    decreases n,
{
    if n >= 10 {
        push_decimal(out, n / 10);
    }
    let c = digit_of(n % 10);
    out.push(c);
}

/// The decimal text of an unsigned integer.
pub fn format_unsigned(n: u128) -> (r: String)
    ensures
        r@ == int_text(n as int),
{
    let mut out = String::new();
    push_decimal(&mut out, n);
    out
}

/// The decimal text of a signed integer.
pub fn format_signed(n: i128) -> (r: String)
    ensures
        r@ == int_text(n as int),
{
    let mut out = String::new();
    if n < 0 {
        out.push('-');
        let magnitude: u128 = if n == i128::MIN {
            0x8000_0000_0000_0000_0000_0000_0000_0000u128
        } else {
            (-n) as u128
        };
        push_decimal(&mut out, magnitude);
    } else {
        push_decimal(&mut out, n as u128);
    }
    out
}

/// Reads the integer that `s` denotes, as a sign and a magnitude. A minus is
/// taken for a sign only where `signed` holds; the magnitude may be as large
/// as `high` without a minus and as large as `low_magnitude` after one.
pub fn parse_magnitude(s: &str, signed: bool, low_magnitude: u128, high: u128) -> (r: Option<
    (bool, u128),
>)
    ensures
        match r {
            Some((negative, m)) => {
                &&& parsed_int(s@, signed) == Some(
                    if negative {
                        -(m as int)
                    } else {
                        m as int
                    },
                )
                &&& negative == (signed && s@[0] == '-')
                &&& m <= if negative {
                    low_magnitude
                } else {
                    high
                }
            },
            None => parsed_within(s@, signed, -(low_magnitude as int), high as int) is None,
        },
{
    let mut signed_start = false;
    let mut negative = false;
    let mut seen: usize = 0;
    let mut acc: u128 = 0;
    let mut over = false;
    for c in it: s.chars()
        invariant
            it.seq() == s@,
            seen == if it.index() < 2 { it.index() as int } else { 2 },
            it.index() == 0 ==> !signed_start && !negative,
            it.index() > 0 ==> signed_start == has_sign(s@, signed),
            it.index() > 0 ==> negative == (signed && s@[0] == '-'),
            negative ==> signed_start,
            signed_start ==> it.index() >= 1,
            is_digits(s@.subrange(if signed_start { 1int } else { 0int }, it.index() as int)),
            !over ==> acc == digits_value(
                s@.subrange(if signed_start { 1int } else { 0int }, it.index() as int),
            ),
            !over ==> acc <= if negative { low_magnitude } else { high },
            over ==> digits_value(
                s@.subrange(if signed_start { 1int } else { 0int }, it.index() as int),
            ) > if negative { low_magnitude } else { high },
    {
        if seen == 0 && (c == '+' || (signed && c == '-')) {
            signed_start = true;
            negative = c == '-';
            seen = 1;
        } else {
            let limit: u128 = if negative { low_magnitude } else { high };
            proof {
                let start = if signed_start { 1int } else { 0int };
                let at = it.index() as int;
                assert(s@.subrange(start, at + 1).drop_last() =~= s@.subrange(start, at));
            }
            match value_of(c) {
                None => {
                    return None;
                },
                Some(d) => {
                    if !over {
                        if d > limit || acc > (limit - d) / 10 {
                            over = true;
                        } else {
                            acc = acc * 10 + d;
                        }
                    }
                },
            }
            if seen < 2 {
                seen += 1;
            }
        }
    }
    proof {
        let start = if signed_start { 1int } else { 0int };
        assert(s@.subrange(start, s@.len() as int) =~= digits_part(s@, signed));
    }
    if seen == 0 || (signed_start && seen == 1) || over {
        None
    } else {
        Some((negative, acc))
    }
}

} // verus!
