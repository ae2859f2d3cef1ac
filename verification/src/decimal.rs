//! Unsigned numbers in positional notation: writing them, and reading
//! them in decimal.

use vstd::prelude::*;
use crate::text::string_of;

verus! {

/// The character of the digit `d`.
pub open spec fn digit_char(d: int) -> char {
    ((48 + d) as u8) as char
}

/// `n` written to the base `base`, which is from 2 to 10, without
/// leading zeros.
pub open spec fn numeral(n: nat, base: nat) -> Seq<char>
    decreases n,
{
    if n < base || base < 2 {
        seq![digit_char(n as int)]
    } else {
        proof {
            assert(n / base < n) by (nonlinear_arith)
                requires
                    base >= 2,
                    n >= base,
            ;
        }
        numeral(n / base, base).push(digit_char((n % base) as int))
    }
}

/// `n` in decimal notation, without leading zeros.
pub open spec fn decimal(n: nat) -> Seq<char> {
    numeral(n, 10)
}

/// `n` in octal notation, without leading zeros.
pub open spec fn octal(n: nat) -> Seq<char> {
    numeral(n, 8)
}

/// Whether a character is a decimal digit of ASCII.
pub open spec fn is_digit(c: char) -> bool {
    '0' <= c <= '9'
}

/// Whether a text holds decimal digits only.
pub open spec fn all_digits(s: Seq<char>) -> bool {
    forall|i: int| 0 <= i < s.len() ==> is_digit(#[trigger] s[i])
}

/// The number that the decimal digits `s` denote.
pub open spec fn digits_value(s: Seq<char>) -> nat
    decreases s.len(),
{
    if s.len() == 0 {
        0
    } else {
        (digits_value(s.drop_last()) * 10 + (s.last() as u32 - 48)) as nat
    }
}

/// What is left of `s` after one leading plus sign.
pub open spec fn unsigned_body(s: Seq<char>) -> Seq<char> {
    if s.len() > 0 && s[0] == '+' {
        s.drop_first()
    } else {
        s
    }
}

/// The number at most `max` that `s` denotes: an optional plus sign, then
/// one or more decimal digits.
pub open spec fn parsed_unsigned(s: Seq<char>, max: nat) -> Option<nat> {
    let body = unsigned_body(s);
    if body.len() > 0 && all_digits(body) && digits_value(body) <= max {
        Some(digits_value(body))
    } else {
        None
    }
}

/// A longer run of digits denotes no smaller a number than its beginning.
pub proof fn lemma_digits_value_grows(s: Seq<char>, k: int)
    requires
        all_digits(s),
        0 <= k <= s.len(),
    ensures
        digits_value(s.take(k)) <= digits_value(s),
    decreases s.len() - k,
{
    if k < s.len() {
        let t = s.drop_last();
        assert(all_digits(t)) by {
            assert forall|i: int| 0 <= i < t.len() implies is_digit(#[trigger] t[i]) by {
                assert(t[i] == s[i]);
            }
        }
        lemma_digits_value_grows(t, k);
        assert(t.take(k) == s.take(k));
        assert(is_digit(s.last()));
    } else {
        assert(s.take(k) == s);
    }
}

fn digit_of(d: u64) -> (c: char)
    requires
        d < 10,
    ensures
        c == digit_char(d as int),
{
    ((48 + d) as u8) as char
}

/// The characters of `n` written to the base `base`.
fn numeral_chars(n: u64, base: u64) -> (r: Vec<char>)
    requires
        2 <= base <= 10,
    ensures
        r@ == numeral(n as nat, base as nat),
{
    let mut low_first: Vec<char> = Vec::new();
    let mut rest: u64 = n;
    while rest >= base
        invariant
            2 <= base <= 10,
            numeral(n as nat, base as nat) == numeral(rest as nat, base as nat)
                + low_first@.reverse(),
        decreases rest,
    {
        let ghost before = low_first@;
        let ghost digit = digit_char((rest % base) as int);
        low_first.push(digit_of(rest % base));
        assert(low_first@.reverse() == seq![digit] + before.reverse());
        assert(numeral(rest as nat, base as nat) == numeral((rest / base) as nat, base as nat).push(
            digit,
        ));
        assert(numeral((rest / base) as nat, base as nat).push(digit) + before.reverse()
            == numeral((rest / base) as nat, base as nat) + (seq![digit] + before.reverse()));
        rest = rest / base;
    }
    let ghost before = low_first@;
    low_first.push(digit_of(rest));
    assert(low_first@.reverse() == seq![digit_char(rest as int)] + before.reverse());
    let mut r: Vec<char> = Vec::new();
    let mut i: usize = low_first.len();
    while i > 0
        invariant
            i <= low_first@.len(),
            r@ == low_first@.reverse().take(low_first@.len() - i),
        decreases i,
    {
        i -= 1;
        r.push(low_first[i]);
        assert(low_first@.reverse().take(low_first@.len() - i) == low_first@.reverse().take(
            low_first@.len() - i - 1,
        ).push(low_first@.reverse()[low_first@.len() - i - 1]));
    }
    assert(low_first@.reverse().take(low_first@.len() as int) == low_first@.reverse());
    r
}

/// `n` in decimal notation.
pub fn decimal_string(n: u64) -> (r: String)
    ensures
        r@ == decimal(n as nat),
{
    let v = numeral_chars(n, 10);
    string_of(v.as_slice())
}

/// `n` in octal notation.
pub fn octal_string(n: u64) -> (r: String)
    ensures
        r@ == octal(n as nat),
{
    let v = numeral_chars(n, 8);
    string_of(v.as_slice())
}

/// Reads an unsigned number that must not exceed `max`.
pub fn parse_unsigned(v: &[char], max: u64) -> (r: Option<u64>)
    ensures
        match r {
            Some(n) => parsed_unsigned(v@, max as nat) == Some(n as nat),
            None => parsed_unsigned(v@, max as nat) is None,
        },
{
    let size: usize = v.len();
    let start: usize = if size > 0 && v[0] == '+' {
        1
    } else {
        0
    };
    let ghost body = unsigned_body(v@);
    assert(body == v@.skip(start as int));
    if start == size {
        return None;
    }
    let mut acc: u64 = 0;
    let mut i: usize = start;
    while i < size
        invariant
            start <= i <= size == v@.len(),
            body == unsigned_body(v@),
            body == v@.skip(start as int),
            all_digits(body.take(i - start)),
            acc == digits_value(body.take(i - start)),
            acc <= max,
        decreases size - i,
    {
        let c = v[i];
        let ghost next = body.take(i - start + 1);
        proof {
            assert(body[i - start] == c);
            assert(next.drop_last() == body.take(i - start));
            assert(next.last() == c);
        }
        if !(c >= '0' && c <= '9') {
            assert(!is_digit(body[i - start]));
            return None;
        }
        let d: u64 = (c as u64) - 48;
        proof {
            assert(all_digits(next)) by {
                assert forall|k: int| 0 <= k < next.len() implies is_digit(#[trigger] next[k]) by {
                    if k < next.len() - 1 {
                        assert(next[k] == body.take(i - start)[k]);
                    }
                }
            }
            assert(digits_value(next) == acc * 10 + d);
            if all_digits(body) {
                lemma_digits_value_grows(body, i - start + 1);
            }
        }
        if acc > max / 10 {
            return None;
        }
        let tens: u64 = acc * 10;
        if d > max - tens {
            return None;
        }
        acc = tens + d;
        i += 1;
    }
    assert(body.take(size - start) == body);
    Some(acc)
}

} // verus!
