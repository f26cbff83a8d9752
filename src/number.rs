//! Numeric literals of the command language: decimal, or hexadecimal when
//! marked with a leading `&` or `$` or a trailing `h` / `H`.
use vstd::prelude::*;
use vstd::string::*;

verus! {

/// The largest value of a `u32`.
pub open spec fn u32_max() -> nat {
    0xFFFF_FFFF
}

/// The value of a digit character in any radix up to 36, or 36 when it is no digit.
pub open spec fn digit_value(c: char) -> nat {
    let u = c as u32;
    if 0x30 <= u <= 0x39 {
        (u - 0x30) as nat
    } else if 0x61 <= u <= 0x7a {
        (u - 0x61 + 10) as nat
    } else if 0x41 <= u <= 0x5a {
        (u - 0x41 + 10) as nat
    } else {
        36
    }
}

/// Every character of `s` is a digit of the radix.
pub open spec fn all_digits(s: Seq<char>, radix: nat) -> bool {
    forall|i: int| 0 <= i < s.len() ==> digit_value(#[trigger] s[i]) < radix
}

/// The number that the digits of `s` spell in the radix, most significant first.
pub open spec fn digits_value(s: Seq<char>, radix: nat) -> nat
    decreases s.len(),
{
    if s.len() == 0 {
        0
    } else {
        digits_value(s.drop_last(), radix) * radix + digit_value(s.last())
    }
}

/// An unsigned literal in the radix: an optional `+`, then at least one digit,
/// with a value that fits in a `u32`.
pub open spec fn unsigned_value(s: Seq<char>, radix: nat) -> Option<u32> {
    let body = if s.len() > 0 && s[0] == '+' {
        s.drop_first()
    } else {
        s
    };
    if body.len() > 0 && all_digits(body, radix) && digits_value(body, radix) <= u32_max() {
        Some(digits_value(body, radix) as u32)
    } else {
        None
    }
}

/// What a numeric token denotes: hexadecimal after a leading `&` or `$` or
/// before a trailing `h` / `H`, decimal otherwise.
pub open spec fn number_value(s: Seq<char>) -> Option<u32> {
    if s.len() > 0 && (s[0] == '&' || s[0] == '$') {
        unsigned_value(s.drop_first(), 16)
    } else if s.len() > 0 && (s.last() == 'h' || s.last() == 'H') {
        unsigned_value(s.drop_last(), 16)
    } else {
        unsigned_value(s, 10)
    }
}

/// The character for a digit value below 16, in lower case.
pub open spec fn digit_char(d: nat) -> char {
    if d < 10 {
        (0x30 + d) as u8 as char
    } else {
        (0x61 + d - 10) as u8 as char
    }
}

/// The digits of `n` in the radix, most significant first, padded with
/// leading zeros to at least `width` digits.
pub open spec fn radix_digits(n: nat, radix: nat, width: nat) -> Seq<char>
    recommends
        2 <= radix <= 16,
    decreases n + width,
    via radix_digits_decreases
{
    if radix < 2 || (n < radix && width <= 1) {
        seq![digit_char(n)]
    } else {
        radix_digits(n / radix, radix, if width > 0 {
            (width - 1) as nat
        } else {
            0
        }).push(digit_char(n % radix))
    }
}

#[via_fn]
proof fn radix_digits_decreases(n: nat, radix: nat, width: nat) {
    if !(radix < 2 || (n < radix && width <= 1)) {
        assert(n / radix <= n) by (nonlinear_arith)
            requires
                radix >= 2,
        ;
        if n >= radix {
            assert(n / radix < n) by (nonlinear_arith)
                requires
                    radix >= 2,
                    n >= radix,
            ;
        } else {
            assert(n / radix == 0) by (nonlinear_arith)
                requires
                    radix >= 2,
                    n < radix,
            ;
        }
    }
}

/// Lower-case hexadecimal digits of `n`, zero-padded to at least `width` digits.
pub open spec fn hex_digits(n: nat, width: nat) -> Seq<char> {
    radix_digits(n, 16, width)
}

/// Decimal digits of `n`, with no padding.
pub open spec fn dec_digits(n: nat) -> Seq<char> {
    radix_digits(n, 10, 0)
}

proof fn lemma_digit_char(d: nat)
    requires
        d < 16,
    ensures
        digit_value(digit_char(d)) == d,
        digit_char(d) != '+',
        digit_char(d) != '&',
        digit_char(d) != '$',
        digit_char(d) != 'h',
        digit_char(d) != 'H',
{
}

/// The digits of `n` spell `n` back, each is a digit of the radix, and there
/// is at least one.
pub proof fn lemma_radix_digits(n: nat, radix: nat, width: nat)
    requires
        2 <= radix <= 16,
    ensures
        radix_digits(n, radix, width).len() >= 1,
        all_digits(radix_digits(n, radix, width), radix),
        digits_value(radix_digits(n, radix, width), radix) == n,
        radix_digits(n, radix, width)[0] != '+',
        radix_digits(n, radix, width).last() != 'h',
        radix_digits(n, radix, width).last() != 'H',
    decreases n + width,
{
    let s = radix_digits(n, radix, width);
    if n < radix && width <= 1 {
        lemma_digit_char(n);
        assert(s.drop_last() =~= Seq::<char>::empty());
        assert(digits_value(s.drop_last(), radix) == 0);
        assert(0 * radix == 0);
    } else {
        let w = if width > 0 {
            (width - 1) as nat
        } else {
            0
        };
        assert(n / radix <= n) by (nonlinear_arith)
            requires
                radix >= 2,
        ;
        lemma_radix_digits(n / radix, radix, w);
        assert(n % radix < radix) by (nonlinear_arith)
            requires
                radix > 0,
        ;
        lemma_digit_char(n % radix);
        let p = radix_digits(n / radix, radix, w);
        assert(s.drop_last() =~= p);
        assert(s.last() == digit_char(n % radix));
        assert(digits_value(s, radix) == digits_value(p, radix) * radix + (n % radix));
        assert(n == (n / radix) * radix + n % radix) by (nonlinear_arith)
            requires
                radix > 0,
        ;
    }
}

/// The value of one digit character, or 36 for any other character.
fn digit_of(c: char) -> (d: u32)
    ensures
        d as nat == digit_value(c),
{
    let u = c as u32;
    if 0x30 <= u && u <= 0x39 {
        u - 0x30
    } else if 0x61 <= u && u <= 0x7a {
        u - 0x61 + 10
    } else if 0x41 <= u && u <= 0x5a {
        u - 0x41 + 10
    } else {
        36
    }
}

proof fn lemma_digits_grow(v: nat, radix: nat, d: nat)
    requires
        radix >= 1,
    ensures
        v * radix + d >= v,
{
    assert(v * radix >= v) by (nonlinear_arith)
        requires
            radix >= 1,
    ;
}

/// Reads the characters `from .. to` of `s` as an unsigned literal in the radix.
fn radix_value(s: &str, from: usize, to: usize, radix: u32) -> (r: Option<u32>)
    requires
        from <= to <= s@.len(),
        radix == 10 || radix == 16,
    ensures
        r == unsigned_value(s@.subrange(from as int, to as int), radix as nat),
{
    let ghost whole = s@.subrange(from as int, to as int);
    let mut start: usize = from;
    if from < to && s.get_char(from) == '+' {
        start = from + 1;
    }
    let ghost body = s@.subrange(start as int, to as int);
    assert(body =~= (if whole.len() > 0 && whole[0] == '+' {
        whole.drop_first()
    } else {
        whole
    }));
    if start == to {
        return None;
    }
    let mut acc: u64 = 0;
    let mut i: usize = start;
    while i < to
        invariant
            start <= i <= to <= s@.len(),
            body == s@.subrange(start as int, to as int),
            whole == s@.subrange(from as int, to as int),
            body == (if whole.len() > 0 && whole[0] == '+' {
                whole.drop_first()
            } else {
                whole
            }),
            radix == 10 || radix == 16,
            all_digits(s@.subrange(start as int, i as int), radix as nat),
            acc <= u32_max() + 1,
            acc as nat == if digits_value(s@.subrange(start as int, i as int), radix as nat)
                <= u32_max() {
                digits_value(s@.subrange(start as int, i as int), radix as nat)
            } else {
                u32_max() + 1
            },
        decreases to - i,
    {
        let ghost prev = s@.subrange(start as int, i as int);
        let ghost next = s@.subrange(start as int, i + 1);
        let c = s.get_char(i);
        let d = digit_of(c);
        if d >= radix {
            assert(body[i - start] == c);
            assert(!all_digits(body, radix as nat));
            return None;
        }
        assert(next.drop_last() =~= prev);
        assert(next.last() == c);
        let ghost v = digits_value(prev, radix as nat);
        proof {
            lemma_digits_grow(v, radix as nat, d as nat);
        }
        if acc > 0xFFFF_FFFF {
            assert(digits_value(next, radix as nat) >= v);
        } else {
            acc = acc * (radix as u64) + (d as u64);
            if acc > 0xFFFF_FFFF {
                acc = 0x1_0000_0000;
            }
        }
        assert forall|k: int| 0 <= k < next.len() implies digit_value(#[trigger] next[k]) < radix
            as nat by {
            if k < prev.len() {
                assert(next[k] == prev[k]);
            }
        }
        i = i + 1;
    }
    assert(s@.subrange(start as int, i as int) =~= body);
    if acc > 0xFFFF_FFFF {
        None
    } else {
        Some(acc as u32)
    }
}

/// Parses a numeric token: hexadecimal after a leading `&` or `$` or before
/// a trailing `h` / `H`, decimal otherwise. Gives `None` where the rest is
/// no unsigned literal in that radix or does not fit in a `u32`.
pub fn parse_number(s: &str) -> (r: Option<u32>)
    ensures
        r == number_value(s@),
{
    let n = s.unicode_len();
    if n > 0 {
        let first = s.get_char(0);
        if first == '&' || first == '$' {
            assert(s@.subrange(1, n as int) =~= s@.drop_first());
            return radix_value(s, 1, n, 16);
        }
        let last = s.get_char(n - 1);
        if last == 'h' || last == 'H' {
            assert(s@.subrange(0, n - 1) =~= s@.drop_last());
            return radix_value(s, 0, n - 1, 16);
        }
    }
    assert(s@.subrange(0, n as int) =~= s@);
    radix_value(s, 0, n, 10)
}

/// A `u32` written as `&` and its hexadecimal digits parses back to itself.
pub proof fn lemma_hex_literal_round_trip(a: u32)
    ensures
        number_value(seq!['&'] + hex_digits(a as nat, 0)) == Some(a),
{
    let h = hex_digits(a as nat, 0);
    lemma_radix_digits(a as nat, 16, 0);
    let s = seq!['&'] + h;
    assert(s.drop_first() =~= h);
}

/// A `u32` written in decimal, with no marker, parses back to itself.
pub proof fn lemma_decimal_literal_round_trip(a: u32)
    ensures
        number_value(dec_digits(a as nat)) == Some(a),
{
    let s = dec_digits(a as nat);
    lemma_radix_digits(a as nat, 10, 0);
    lemma_digit_char(digit_value(s[0]));
    assert(s[0] != '&' && s[0] != '$') by {
        let d = digit_value(s[0]);
        let u = s[0] as u32;
        assert(u != 0x26 && u != 0x24);
    }
}

} // verus!
