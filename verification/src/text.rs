//! Characters and numbers in the text of a record.

use vstd::prelude::*;

verus! {

/// The characters of a text, one by one.
pub fn chars_of(text: &str) -> (chars: Vec<char>)
    ensures
        chars@ == text@,
{
    let mut chars: Vec<char> = Vec::new();
    for c in it: text.chars()
        invariant
            chars@ == it.seq().take(it.index()),
            it.seq() == text@,
    {
        chars.push(c);
    }
    chars
}

/// The value of a character as a digit, up to base 36: `0` to `9`, then the
/// letters in either case. Any other character has the value 36.
pub open spec fn digit_value(c: char) -> int {
    if '0' <= c && c <= '9' {
        c as int - '0' as int
    } else if 'a' <= c && c <= 'z' {
        c as int - 'a' as int + 10
    } else if 'A' <= c && c <= 'Z' {
        c as int - 'A' as int + 10
    } else {
        36
    }
}

/// Every character is a digit of the base.
pub open spec fn all_digits(s: Seq<char>, radix: int) -> bool {
    forall|i: int| 0 <= i < s.len() ==> digit_value(#[trigger] s[i]) < radix
}

/// The number that the digits write in the base, most significant first.
pub open spec fn number(s: Seq<char>, radix: int) -> int
    decreases s.len(),
{
    if s.len() == 0 {
        0
    } else {
        number(s.drop_last(), radix) * radix + digit_value(s.last())
    }
}

/// The number that `s` writes without a sign: at least one digit, digits
/// only, and a value of at most `limit`.
pub open spec fn unsigned_number(s: Seq<char>, radix: int, limit: int) -> Option<int> {
    if s.len() > 0 && all_digits(s, radix) && number(s, radix) <= limit {
        Some(number(s, radix))
    } else {
        None
    }
}

/// The `i32` that `s` writes in decimal: an optional `+` or `-`, then at
/// least one digit and digits only, with a value that fits.
pub open spec fn signed_decimal(s: Seq<char>) -> Option<i32> {
    if s.len() > 0 && s[0] == '-' {
        match unsigned_number(s.drop_first(), 10, 0x8000_0000) {
            Some(v) => Some((-v) as i32),
            None => None,
        }
    } else if s.len() > 0 && s[0] == '+' {
        match unsigned_number(s.drop_first(), 10, 0x7fff_ffff) {
            Some(v) => Some(v as i32),
            None => None,
        }
    } else {
        match unsigned_number(s, 10, 0x7fff_ffff) {
            Some(v) => Some(v as i32),
            None => None,
        }
    }
}

/// The `u32` that `s` writes in hexadecimal: an optional `+`, then at least
/// one digit and digits only, with a value that fits.
pub open spec fn unsigned_hex(s: Seq<char>) -> Option<u32> {
    let digits = if s.len() > 0 && s[0] == '+' {
        s.drop_first()
    } else {
        s
    };
    match unsigned_number(digits, 16, 0xffff_ffff) {
        Some(v) => Some(v as u32),
        None => None,
    }
}

/// A number does not shrink when digits are appended.
pub proof fn lemma_number_grows(s: Seq<char>, radix: int, n: int)
    requires
        radix >= 1,
        0 <= n <= s.len(),
    ensures
        0 <= number(s.take(n), radix) <= number(s, radix),
    decreases s.len() - n,
{
    lemma_number_nonnegative(s.take(n), radix);
    if n < s.len() {
        lemma_number_grows(s, radix, n + 1);
        let longer = s.take(n + 1);
        assert(longer.drop_last() =~= s.take(n));
        let v = number(s.take(n), radix);
        assert(v * radix >= v) by (nonlinear_arith)
            requires
                v >= 0,
                radix >= 1,
        ;
    } else {
        assert(s.take(n) =~= s);
    }
}

/// A number is not negative.
pub proof fn lemma_number_nonnegative(s: Seq<char>, radix: int)
    requires
        radix >= 1,
    ensures
        number(s, radix) >= 0,
    decreases s.len(),
{
    if s.len() > 0 {
        lemma_number_nonnegative(s.drop_last(), radix);
        let v = number(s.drop_last(), radix);
        assert(v * radix >= 0) by (nonlinear_arith)
            requires
                v >= 0,
                radix >= 1,
        ;
    }
}

/// The value of a character as a digit.
pub fn digit_of(c: char) -> (v: u32)
    ensures
        v == digit_value(c),
        v <= 36,
{
    if '0' <= c && c <= '9' {
        c as u32 - '0' as u32
    } else if 'a' <= c && c <= 'z' {
        c as u32 - 'a' as u32 + 10
    } else if 'A' <= c && c <= 'Z' {
        c as u32 - 'A' as u32 + 10
    } else {
        36
    }
}

/// Reads the characters from `from` up to `to` as a number without a sign.
pub fn parse_unsigned(chars: &Vec<char>, from: usize, to: usize, radix: u32, limit: u32) -> (r:
    Option<u32>)
    requires
        from <= to <= chars@.len(),
        2 <= radix <= 36,
    ensures
        r is Some <==> unsigned_number(chars@.subrange(from as int, to as int), radix as int, limit as int) is Some,
        r is Some ==> r->Some_0 == unsigned_number(
            chars@.subrange(from as int, to as int),
            radix as int,
            limit as int,
        )->Some_0,
{
    let ghost s = chars@.subrange(from as int, to as int);
    if from == to {
        return None;
    }
    let mut value: u64 = 0;
    let mut at: usize = from;
    while at < to
        invariant
            from <= at <= to <= chars@.len(),
            2 <= radix <= 36,
            s == chars@.subrange(from as int, to as int),
            all_digits(s.take(at - from), radix as int),
            value == number(s.take(at - from), radix as int),
            value <= limit,
        decreases to - at,
    {
        let d = digit_of(chars[at]);
        let ghost longer = s.take(at - from + 1);
        proof {
            assert(longer.drop_last() =~= s.take(at - from));
            assert(s[at - from] == chars@[at as int]);
        }
        if d >= radix {
            return None;
        }
        assert(value * radix + d <= 0xffff_ffff * 36 + 36) by (nonlinear_arith)
            requires
                value <= 0xffff_ffff,
                radix <= 36,
                d <= 36,
        ;
        value = value * radix as u64 + d as u64;
        if value > limit as u64 {
            proof {
                lemma_number_grows(s, radix as int, at - from + 1);
            }
            return None;
        }
        at = at + 1;
    }
    proof {
        assert(s.take(to - from) =~= s);
    }
    Some(value as u32)
}

/// Reads the characters from `from` up to `to` as a decimal `i32`.
pub fn parse_i32(chars: &Vec<char>, from: usize, to: usize) -> (r: Option<i32>)
    requires
        from <= to <= chars@.len(),
    ensures
        r == signed_decimal(chars@.subrange(from as int, to as int)),
{
    let ghost s = chars@.subrange(from as int, to as int);
    if from < to && chars[from] == '-' {
        proof {
            assert(s.drop_first() =~= chars@.subrange(from + 1, to as int));
        }
        match parse_unsigned(chars, from + 1, to, 10, 0x8000_0000) {
            Some(v) => Some((-(v as i64)) as i32),
            None => None,
        }
    } else if from < to && chars[from] == '+' {
        proof {
            assert(s.drop_first() =~= chars@.subrange(from + 1, to as int));
        }
        match parse_unsigned(chars, from + 1, to, 10, 0x7fff_ffff) {
            Some(v) => Some(v as i32),
            None => None,
        }
    } else {
        match parse_unsigned(chars, from, to, 10, 0x7fff_ffff) {
            Some(v) => Some(v as i32),
            None => None,
        }
    }
}

/// Reads the characters from `from` up to `to` as a hexadecimal `u32`.
pub fn parse_hex_u32(chars: &Vec<char>, from: usize, to: usize) -> (r: Option<u32>)
    requires
        from <= to <= chars@.len(),
    ensures
        r == unsigned_hex(chars@.subrange(from as int, to as int)),
{
    let ghost s = chars@.subrange(from as int, to as int);
    if from < to && chars[from] == '+' {
        proof {
            assert(s.drop_first() =~= chars@.subrange(from + 1, to as int));
        }
        parse_unsigned(chars, from + 1, to, 16, 0xffff_ffff)
    } else {
        parse_unsigned(chars, from, to, 16, 0xffff_ffff)
    }
}

} // verus!
