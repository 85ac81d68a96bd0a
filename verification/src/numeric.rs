//! Decimal and hexadecimal rendering and parsing of unsigned integers.
//!
//! The parsing rules follow `from_str_radix` of the unsigned integer types:
//! an optional leading `+`, at least one digit of the radix, no other
//! character, and a value that fits the target type.
use vstd::prelude::*;
use crate::text::push_char;

verus! {

pub open spec fn digit_char(d: nat) -> char {
    if d < 10 {
        (('0' as u32) + d) as char
    } else {
        (('a' as u32) + d - 10) as char
    }
}

/// Lowercase digits of `n` in base `radix` (2..=16), most significant first.
pub open spec fn radix_digits(n: nat, radix: nat) -> Seq<char>
    decreases n,
{
    if radix < 2 || n < radix {
        seq![digit_char(n)]
    } else {
        proof {
            assert(n / radix < n) by (nonlinear_arith)
                requires
                    radix >= 2,
                    n >= radix,
            ;
        }
        radix_digits(n / radix, radix).push(digit_char(n % radix))
    }
}

/// Decimal rendering, as `Display` writes an unsigned integer.
pub open spec fn decimal(n: nat) -> Seq<char> {
    radix_digits(n, 10)
}

/// Lowercase hexadecimal rendering, as `{:x}` writes an unsigned integer.
pub open spec fn hex(n: nat) -> Seq<char> {
    radix_digits(n, 16)
}

/// Decimal rendering of a signed integer, as `Display` writes it.
pub open spec fn signed_decimal(n: int) -> Seq<char> {
    if n < 0 {
        seq!['-'] + decimal((-n) as nat)
    } else {
        decimal(n as nat)
    }
}

/// Value of one digit character in base `radix`, if it is one.
pub open spec fn digit_value(c: char, radix: nat) -> Option<nat> {
    let v: int = if '0' <= c && c <= '9' {
        (c as u32) - ('0' as u32)
    } else if 'a' <= c && c <= 'z' {
        (c as u32) - ('a' as u32) + 10
    } else if 'A' <= c && c <= 'Z' {
        (c as u32) - ('A' as u32) + 10
    } else {
        radix as int
    };
    if v < radix {
        Some(v as nat)
    } else {
        None
    }
}

/// Value of a non-empty run of digits, if every character is a digit.
pub open spec fn digits_value(s: Seq<char>, radix: nat) -> Option<nat>
    decreases s.len(),
{
    if s.len() == 0 {
        Some(0)
    } else {
        match (digits_value(s.drop_last(), radix), digit_value(s.last(), radix)) {
            (Some(high), Some(low)) => Some(high * radix + low),
            _ => None,
        }
    }
}

/// `from_str_radix` for an unsigned type whose largest value is `max`.
pub open spec fn parse_unsigned(s: Seq<char>, radix: nat, max: nat) -> Option<nat> {
    let body = if s.len() > 0 && s[0] == '+' {
        s.drop_first()
    } else {
        s
    };
    if body.len() == 0 {
        None
    } else {
        match digits_value(body, radix) {
            Some(v) => if v <= max {
                Some(v)
            } else {
                None
            },
            None => None,
        }
    }
}


proof fn lemma_digit_char_value(d: nat, radix: nat)
    requires
        d < radix,
        2 <= radix <= 16,
    ensures
        digit_value(digit_char(d), radix) == Some(d),
{
}

/// The digits of `n` are never empty and never start with `+`.
pub proof fn lemma_radix_digits_shape(n: nat, radix: nat)
    requires
        2 <= radix <= 16,
    ensures
        radix_digits(n, radix).len() >= 1,
        radix_digits(n, radix)[0] != '+',
        n >= radix ==> radix_digits(n, radix).len() >= 2,
    decreases n,
{
    if n >= radix {
        assert(n / radix < n) by (nonlinear_arith)
            requires
                radix >= 2,
                n >= radix,
        ;
        lemma_radix_digits_shape(n / radix, radix);
        assert(radix_digits(n, radix)[0] == radix_digits(n / radix, radix)[0]);
    } else {
        assert(digit_char(n) != '+');
    }
}

/// Reading back the digits of `n` gives `n`.
pub proof fn lemma_radix_digits_value(n: nat, radix: nat)
    requires
        2 <= radix <= 16,
    ensures
        digits_value(radix_digits(n, radix), radix) == Some(n),
    decreases n,
{
    let s = radix_digits(n, radix);
    if n >= radix {
        assert(n / radix < n) by (nonlinear_arith)
            requires
                radix >= 2,
                n >= radix,
        ;
        lemma_radix_digits_value(n / radix, radix);
        assert(s.drop_last() == radix_digits(n / radix, radix));
        lemma_digit_char_value(n % radix, radix);
        assert(s.last() == digit_char(n % radix));
        assert(digits_value(s, radix) == Some((n / radix) * radix + n % radix));
        assert((n / radix) * radix + n % radix == n) by (nonlinear_arith)
            requires
                radix >= 2,
        ;
    } else {
        lemma_digit_char_value(n, radix);
        assert(s.drop_last() =~= Seq::<char>::empty());
        assert(digits_value(s.drop_last(), radix) == Some(0nat));
        assert(s.last() == digit_char(n));
        assert(0 * radix == 0) by (nonlinear_arith);
        assert(digits_value(s, radix) == Some(0 * radix + n));
    }
}

/// Parsing the rendering of `n` gives back `n` whenever it fits the type.
pub proof fn lemma_parse_rendered(n: nat, radix: nat, max: nat)
    requires
        2 <= radix <= 16,
        n <= max,
    ensures
        parse_unsigned(radix_digits(n, radix), radix, max) == Some(n),
{
    lemma_radix_digits_shape(n, radix);
    lemma_radix_digits_value(n, radix);
}

/// Different numbers have different renderings.
pub proof fn lemma_radix_digits_injective(n: nat, m: nat, radix: nat)
    requires
        2 <= radix <= 16,
        radix_digits(n, radix) == radix_digits(m, radix),
    ensures
        n == m,
{
    lemma_radix_digits_value(n, radix);
    lemma_radix_digits_value(m, radix);
}

fn digit_of(d: u64) -> (c: char)
    requires
        d < 16,
    ensures
        c == digit_char(d as nat),
{
    if d < 10 {
        let b = (48 + d) as u8;
        b as char
    } else {
        let b = (97 + d - 10) as u8;
        b as char
    }
}

/// Appends the digits of `n` in base `radix`.
pub fn push_radix(out: &mut String, n: u64, radix: u64)
    requires
        2 <= radix <= 16,
    ensures
        final(out)@ == old(out)@ + radix_digits(n as nat, radix as nat),
    decreases n,
{
    if n >= radix {
        assert(n / radix < n) by (nonlinear_arith)
            requires
                radix >= 2,
                n >= radix,
        ;
        push_radix(out, n / radix, radix);
    }
    push_char(out, digit_of(n % radix));
    proof {
        if n >= radix {
            assert(radix_digits(n as nat, radix as nat) == radix_digits(
                (n / radix) as nat,
                radix as nat,
            ).push(digit_char((n % radix) as nat)));
        } else {
            assert(n % radix == n) by (nonlinear_arith)
                requires
                    n < radix,
                    radix >= 2,
            ;
        }
    }
}

/// Appends the decimal rendering of `n`.
pub fn push_decimal(out: &mut String, n: u64)
    ensures
        final(out)@ == old(out)@ + decimal(n as nat),
{
    push_radix(out, n, 10);
}

/// Appends the decimal rendering of a signed `n`.
pub fn push_signed_decimal(out: &mut String, n: i64)
    ensures
        final(out)@ == old(out)@ + signed_decimal(n as int),
{
    if n < 0 {
        push_char(out, '-');
        let magnitude: u64 = if n == i64::MIN {
            9223372036854775808u64
        } else {
            (-n) as u64
        };
        push_decimal(out, magnitude);
        assert(old(out)@.push('-') + decimal(magnitude as nat) == old(out)@ + (seq!['-']
            + decimal(magnitude as nat)));
    } else {
        push_decimal(out, n as u64);
    }
}

/// Appends the lowercase hexadecimal rendering of `n`.
pub fn push_hex(out: &mut String, n: u64)
    ensures
        final(out)@ == old(out)@ + hex(n as nat),
{
    push_radix(out, n, 16);
}

/// The value of one digit character.
pub fn digit_value_exec(c: char, radix: u32) -> (r: Option<u32>)
    requires
        2 <= radix <= 36,
    ensures
        match digit_value(c, radix as nat) {
            Some(v) => r == Some(v as u32),
            None => r is None,
        },
{
    let v: u32 = if '0' <= c && c <= '9' {
        (c as u32) - 48
    } else if 'a' <= c && c <= 'z' {
        (c as u32) - 97 + 10
    } else if 'A' <= c && c <= 'Z' {
        (c as u32) - 65 + 10
    } else {
        radix
    };
    if v < radix {
        Some(v)
    } else {
        None
    }
}

/// `from_str_radix` on the characters `s` for an unsigned type whose largest
/// value is `max`.
pub fn parse_unsigned_chars(s: &Vec<char>, radix: u32, max: u128) -> (r: Option<u128>)
    requires
        2 <= radix <= 36,
    ensures
        match parse_unsigned(s@, radix as nat, max as nat) {
            Some(v) => r == Some(v as u128),
            None => r is None,
        },
{
    let start: usize = if s.len() > 0 && s[0] == '+' {
        1
    } else {
        0
    };
    let ghost body = if s@.len() > 0 && s@[0] == '+' {
        s@.drop_first()
    } else {
        s@
    };
    assert(body == s@.subrange(start as int, s@.len() as int));
    if start == s.len() {
        return None;
    }
    let mut acc: u128 = 0;
    let mut i: usize = start;
    assert(s@.subrange(start as int, start as int) =~= Seq::<char>::empty());
    while i < s.len()
        invariant
            start <= i <= s.len(),
            2 <= radix <= 36,
            body == s@.subrange(start as int, s@.len() as int),
            body == (if s@.len() > 0 && s@[0] == '+' {
                s@.drop_first()
            } else {
                s@
            }),
            digits_value(s@.subrange(start as int, i as int), radix as nat) == Some(acc as nat),
            acc <= max,
        decreases s.len() - i,
    {
        let ghost prefix = s@.subrange(start as int, i as int);
        let ghost next = s@.subrange(start as int, i + 1);
        assert(next.drop_last() == prefix);
        assert(next.last() == s@[i as int]);
        match digit_value_exec(s[i], radix) {
            None => {
                proof {
                    lemma_digits_value_none_extends(s@, start as int, i as int, radix as nat);
                    assert(digits_value(body, radix as nat) is None);
                }
                return None;
            },
            Some(d) => {
                let r = radix as u128;
                let dd = d as u128;
                if dd > max || acc > (max - dd) / r {
                    proof {
                        assert(acc * r + dd > max) by (nonlinear_arith)
                            requires
                                dd > max || acc > (max - dd) as int / r as int,
                                r >= 2,
                                dd < r,
                        ;
                        lemma_digits_value_exceeds_extends(
                            s@,
                            start as int,
                            i as int,
                            radix as nat,
                            max as nat,
                        );
                        assert(body.len() > 0);
                    }
                    return None;
                }
                assert(acc * r + dd <= max) by (nonlinear_arith)
                    requires
                        acc <= (max - dd) as int / r as int,
                        dd <= max,
                        r >= 2,
                ;
                acc = acc * r + dd;
            },
        }
        i = i + 1;
    }
    assert(s@.subrange(start as int, s@.len() as int) == body);
    Some(acc)
}

proof fn lemma_digits_value_none_extends(s: Seq<char>, start: int, i: int, radix: nat)
    requires
        0 <= start <= i < s.len(),
        digit_value(s[i], radix) is None,
    ensures
        digits_value(s.subrange(start, s.len() as int), radix) is None,
    decreases s.len() - i,
{
    let full = s.subrange(start, s.len() as int);
    if i == s.len() - 1 {
        assert(full.last() == s[i]);
    } else {
        lemma_digits_value_none_extends(s.drop_last(), start, i, radix);
        assert(full.drop_last() == s.drop_last().subrange(start, s.drop_last().len() as int));
    }
}

proof fn lemma_digits_value_exceeds_extends(
    s: Seq<char>,
    start: int,
    i: int,
    radix: nat,
    max: nat,
)
    requires
        0 <= start <= i < s.len(),
        radix >= 2,
        match digits_value(s.subrange(start, i + 1), radix) {
            Some(v) => v > max,
            None => true,
        },
    ensures
        match digits_value(s.subrange(start, s.len() as int), radix) {
            Some(v) => v > max,
            None => true,
        },
    decreases s.len() - i,
{
    if i + 1 == s.len() {
    } else {
        lemma_digits_value_exceeds_extends_step(s, start, i + 1, radix, max);
        lemma_digits_value_exceeds_extends(s, start, i + 1, radix, max);
    }
}

proof fn lemma_digits_value_exceeds_extends_step(
    s: Seq<char>,
    start: int,
    i: int,
    radix: nat,
    max: nat,
)
    requires
        0 <= start <= i < s.len(),
        radix >= 2,
        match digits_value(s.subrange(start, i), radix) {
            Some(v) => v > max,
            None => true,
        },
    ensures
        match digits_value(s.subrange(start, i + 1), radix) {
            Some(v) => v > max,
            None => true,
        },
{
    let longer = s.subrange(start, i + 1);
    assert(longer.drop_last() == s.subrange(start, i));
    match (digits_value(longer.drop_last(), radix), digit_value(longer.last(), radix)) {
        (Some(high), Some(low)) => {
            assert(high * radix + low >= high) by (nonlinear_arith)
                requires
                    radix >= 2,
            ;
        },
        _ => {},
    }
}

} // verus!
