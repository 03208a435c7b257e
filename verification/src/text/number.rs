//! Decimal numerals.

use vstd::prelude::*;

use super::scan::chars_of;

verus! {

/// `c` is one of the ASCII digits.
pub open spec fn digit(c: char) -> bool {
    '0' <= c <= '9'
}

/// The number that the ASCII digit `c` stands for.
pub open spec fn digit_value(c: char) -> nat {
    (c as nat - '0' as nat) as nat
}

/// The ASCII digit for a number below ten.
pub open spec fn digit_char(n: nat) -> char {
    ('0' as nat + n) as char
}

/// The decimal numeral of `n`, without leading zeros.
pub open spec fn decimal(n: nat) -> Seq<char>
    decreases n,
{
    if n < 10 {
        seq![digit_char(n)]
    } else {
        decimal(n / 10).push(digit_char(n % 10))
    }
}

/// The decimal numeral of `n`, with a leading zero below ten.
pub open spec fn decimal2(n: nat) -> Seq<char> {
    if n < 10 {
        seq!['0'] + decimal(n)
    } else {
        decimal(n)
    }
}

/// `s` consists of ASCII digits.
pub open spec fn all_digits(s: Seq<char>) -> bool {
    forall|i: int| 0 <= i < s.len() ==> digit(#[trigger] s[i])
}

/// The number that a sequence of digits stands for.
pub open spec fn digits_value(s: Seq<char>) -> nat
    decreases s.len(),
{
    if s.len() == 0 {
        0
    } else {
        digits_value(s.drop_last()) * 10 + digit_value(s.last())
    }
}

/// `s` without one plus sign at its start.
pub open spec fn without_plus(s: Seq<char>) -> Seq<char> {
    if s.len() > 0 && s[0] == '+' {
        s.skip(1)
    } else {
        s
    }
}

/// The number up to `max` that the numeral `s` stands for: one digit or more,
/// after a plus sign or none.
pub open spec fn parsed(s: Seq<char>, max: nat) -> Option<nat> {
    let d = without_plus(s);
    if d.len() > 0 && all_digits(d) && digits_value(d) <= max {
        Some(digits_value(d))
    } else {
        None
    }
}

/// [`parsed`], or zero where `s` is no such numeral.
pub open spec fn parsed_or_zero(s: Seq<char>, max: nat) -> nat {
    match parsed(s, max) {
        Some(n) => n,
        None => 0,
    }
}

/// A numeral holds digits only, and one of them at least.
pub proof fn lemma_decimal_digits(n: nat)
    ensures
        decimal(n).len() > 0,
        all_digits(decimal(n)),
    decreases n,
{
    if n >= 10 {
        lemma_decimal_digits(n / 10);
        let s = decimal(n);
        assert forall|i: int| 0 <= i < s.len() implies digit(#[trigger] s[i]) by {
            if i < s.len() - 1 {
                assert(s[i] == decimal(n / 10)[i]);
            }
        }
    }
}

/// The value of the numeral of `n` is `n`.
pub proof fn lemma_decimal_value(n: nat)
    ensures
        digits_value(decimal(n)) == n,
    decreases n,
{
    if n >= 10 {
        lemma_decimal_value(n / 10);
        assert(decimal(n).drop_last() == decimal(n / 10));
    } else {
        reveal_with_fuel(digits_value, 2);
        assert(decimal(n).drop_last() == Seq::<char>::empty());
    }
}

/// A leading zero changes no value.
pub proof fn lemma_leading_zero(s: Seq<char>)
    requires
        s.len() > 0,
    ensures
        digits_value(seq!['0'] + s) == digits_value(s),
    decreases s.len(),
{
    let z = seq!['0'] + s;
    assert(z.last() == s.last());
    if s.len() == 1 {
        assert(z.drop_last() == seq!['0']);
        assert(seq!['0'].drop_last() == Seq::<char>::empty());
        assert(s.drop_last() == Seq::<char>::empty());
        reveal_with_fuel(digits_value, 3);
    } else {
        assert(z.drop_last() == seq!['0'] + s.drop_last());
        lemma_leading_zero(s.drop_last());
    }
}

/// Parsing undoes writing.
pub proof fn lemma_parsed_decimal(n: nat, max: nat)
    requires
        n <= max,
    ensures
        parsed(decimal(n), max) == Some(n),
        parsed(decimal2(n), max) == Some(n),
        all_digits(decimal2(n)),
        decimal2(n).len() > 0,
{
    lemma_decimal_digits(n);
    lemma_decimal_value(n);
    assert(digit(decimal(n)[0]));
    lemma_leading_zero(decimal(n));
    let z = seq!['0'] + decimal(n);
    assert forall|i: int| 0 <= i < z.len() implies digit(#[trigger] z[i]) by {
        if i > 0 {
            assert(z[i] == decimal(n)[i - 1]);
        }
    }
    assert(digit(decimal2(n)[0]));
}

/// Writes `n` in decimal.
pub fn to_decimal(n: u32) -> (r: String)
    ensures
        r@ == decimal(n as nat),
    decreases n,
{
    let mut r: String = if n < 10 { String::new() } else { to_decimal(n / 10) };
    let d: u8 = (n % 10) as u8;
    r.push((48 + d) as char);
    assert(r@ =~= decimal(n as nat));
    r
}

/// Writes `n` in decimal with at least two digits.
pub fn to_decimal2(n: u8) -> (r: String)
    ensures
        r@ == decimal2(n as nat),
{
    let mut r: String = String::new();
    if n < 10 {
        r.push('0');
    }
    r.append(to_decimal(n as u32).as_str());
    assert(r@ =~= decimal2(n as nat));
    r
}

/// Reads a decimal numeral.
pub fn parse_u32(s: &str) -> (r: Option<u32>)
    ensures
        match r {
            Some(n) => parsed(s@, u32::MAX as nat) == Some(n as nat),
            None => parsed(s@, u32::MAX as nat) is None,
        },
{
    let v: Vec<char> = chars_of(s);
    let from: usize = if v.len() > 0 && v[0] == '+' { 1 } else { 0 };
    let ghost d = without_plus(v@);
    assert(d == v@.skip(from as int));
    if from == v.len() {
        return None;
    }
    let mut n: u64 = 0;
    let mut big: bool = false;
    let mut i: usize = from;
    assert(d.take(0) == Seq::<char>::empty());
    while i < v.len()
        invariant
            from <= i <= v.len(),
            v@ == s@,
            d == without_plus(s@),
            d == v@.skip(from as int),
            forall|k: int| 0 <= k < i - from ==> digit(#[trigger] d[k]),
            big ==> digits_value(d.take(i - from)) > u32::MAX,
            !big ==> n == digits_value(d.take(i - from)) && n <= u32::MAX,
        decreases v.len() - i,
    {
        let c: char = v[i];
        assert(d[i - from] == c);
        if !('0' <= c && c <= '9') {
            return None;
        }
        assert(d.take(i - from + 1).drop_last() == d.take(i - from));
        let x: u64 = (c as u32 - '0' as u32) as u64;
        if !big {
            n = n * 10 + x;
            if n > 0xffff_ffff {
                big = true;
            }
        }
        i += 1;
    }
    assert(d.take(d.len() as int) == d);
    if big {
        None
    } else {
        Some(n as u32)
    }
}

/// Reads a decimal numeral below 256.
pub fn parse_u8(s: &str) -> (r: Option<u8>)
    ensures
        match r {
            Some(n) => parsed(s@, u8::MAX as nat) == Some(n as nat),
            None => parsed(s@, u8::MAX as nat) is None,
        },
{
    match parse_u32(s) {
        Some(n) => if n <= 255 {
            Some(n as u8)
        } else {
            None
        },
        None => None,
    }
}

/// Why a text is no number of the size wanted.
#[derive(Clone, Copy, Debug, Eq, PartialEq, Structural)]
pub enum NumberError {
    /// A character that is no digit, or no digit at all.
    InvalidDigit,
    /// More than fits.
    TooLarge,
}

/// Read from the left, the digits exceed `max` before a character that is no
/// digit turns up.
pub open spec fn too_large(s: Seq<char>, max: nat) -> bool {
    let d = without_plus(s);
    exists|k: int|
        0 <= k <= d.len() && all_digits(#[trigger] d.take(k)) && digits_value(d.take(k)) > max
}

impl NumberError {
    /// What a user is told.
    pub fn to_string(&self) -> (r: String)
        ensures
            r@ == match *self {
                NumberError::InvalidDigit => "invalid digit found in string"@,
                NumberError::TooLarge => "number too large to fit in target type"@,
            },
    {
        match self {
            NumberError::InvalidDigit => "invalid digit found in string".to_string(),
            NumberError::TooLarge => "number too large to fit in target type".to_string(),
        }
    }
}

/// Why `s` is no number that fits in 32 bits.
pub fn parse_failure(s: &str) -> (r: NumberError)
    requires
        parsed(s@, u32::MAX as nat) is None,
    ensures
        r == NumberError::TooLarge <==> too_large(s@, u32::MAX as nat),
{
    let v: Vec<char> = chars_of(s);
    let from: usize = if v.len() > 0 && v[0] == '+' { 1 } else { 0 };
    let ghost d = without_plus(v@);
    assert(d == v@.skip(from as int));
    let mut n: u64 = 0;
    let mut i: usize = from;
    assert(d.take(0) == Seq::<char>::empty());
    while i < v.len()
        invariant
            from <= i <= v.len(),
            v@ == s@,
            d == without_plus(s@),
            d == v@.skip(from as int),
            forall|k: int| 0 <= k < i - from ==> digit(#[trigger] d[k]),
            n == digits_value(d.take(i - from)),
            forall|k: int| 0 <= k <= i - from ==> digits_value(#[trigger] d.take(k)) <= u32::MAX,
        decreases v.len() - i,
    {
        let c: char = v[i];
        assert(d[i - from] == c);
        if !('0' <= c && c <= '9') {
            assert forall|k: int| 0 <= k <= d.len() && all_digits(
                #[trigger] d.take(k),
            ) implies digits_value(d.take(k)) <= u32::MAX by {
                if k > i - from {
                    assert(d.take(k)[i - from] == c);
                }
            }
            return NumberError::InvalidDigit;
        }
        assert(d.take(i - from + 1).drop_last() == d.take(i - from));
        let x: u64 = (c as u32 - '0' as u32) as u64;
        n = n * 10 + x;
        i += 1;
        if n > 0xffff_ffff {
            assert(all_digits(d.take(i - from)));
            return NumberError::TooLarge;
        }
    }
    NumberError::InvalidDigit
}

/// A numeral is read as its number where that is not too large, with or without
/// a plus sign; no other text is read.
pub proof fn law_parsed(d: Seq<char>, max: nat)
    requires
        d.len() > 0,
        all_digits(d),
    ensures
        parsed(d, max) == if digits_value(d) <= max { Some(digits_value(d)) } else { None },
        parsed(seq!['+'] + d, max) == parsed(d, max),
{
    assert(digit(d[0]));
    assert((seq!['+'] + d).skip(1) =~= d);
}

/// What is read as a number is made of digits alone, after a plus sign or none.
pub proof fn law_parsed_only(s: Seq<char>, max: nat)
    ensures
        parsed(s, max) matches Some(n) ==> n <= max && s.len() > 0 && (digit(s[0]) || s[0] == '+')
            && forall|i: int| 1 <= i < s.len() ==> digit(#[trigger] s[i]),
        parsed(Seq::empty(), max) is None,
        parsed_or_zero(s, max) == if parsed(s, max) is Some { parsed(s, max)->0 } else { 0 },
{
    if parsed(s, max) is Some {
        let d = without_plus(s);
        assert(digit(d[0]));
        assert forall|i: int| 1 <= i < s.len() implies digit(#[trigger] s[i]) by {
            if s[0] == '+' {
                assert(digit(d[i - 1]));
            } else {
                assert(digit(d[i]));
            }
        }
    }
}

/// Another digit at the end of a numeral makes ten times the number and the
/// digit.
pub proof fn law_digits_value(d: Seq<char>, n: nat)
    requires
        n < 10,
    ensures
        digits_value(d.push(digit_char(n))) == digits_value(d) * 10 + n,
        digits_value(Seq::empty()) == 0,
{
    assert(d.push(digit_char(n)).drop_last() =~= d);
}

/// The numeral of a number stands for it and has no zero in front; with two
/// digits at least, it has at most one.
pub proof fn law_decimal(n: nat)
    ensures
        all_digits(decimal(n)),
        decimal(n).len() > 0,
        digits_value(decimal(n)) == n,
        n > 0 ==> decimal(n)[0] != '0',
        n < 10 ==> decimal(n).len() == 1 && decimal2(n) == seq!['0'] + decimal(n),
        n >= 10 ==> decimal(n).len() >= 2 && decimal2(n) == decimal(n),
    decreases n,
{
    lemma_decimal_digits(n);
    lemma_decimal_value(n);
    if n >= 10 {
        law_decimal(n / 10);
        assert(decimal(n)[0] == decimal(n / 10)[0]);
    }
}

/// The digits stand for the numbers from zero to nine, in their order.
pub proof fn law_digits(n: nat)
    requires
        n < 10,
    ensures
        digit_char(n) as nat == '0' as nat + n,
        digit(digit_char(n)),
        digit_value(digit_char(n)) == n,
{
}

/// A numeral is too large exactly where its leading digits are: what follows
/// them does not count, nor does a plus sign before them.
pub proof fn law_too_large(d: Seq<char>, rest: Seq<char>, max: nat)
    requires
        d.len() > 0,
        all_digits(d),
        rest.len() > 0 ==> !digit(rest[0]),
    ensures
        too_large(d + rest, max) <==> digits_value(d) > max,
        too_large(seq!['+'] + (d + rest), max) <==> digits_value(d) > max,
{
    let t = d + rest;
    assert(t[0] == d[0]);
    assert(without_plus(t) == t);
    assert(without_plus(seq!['+'] + t) =~= t);
    assert(t.take(d.len() as int) =~= d);
    if too_large(t, max) {
        let k = choose|k: int|
            0 <= k <= t.len() && all_digits(#[trigger] t.take(k)) && digits_value(t.take(k)) > max;
        if k > d.len() {
            assert(t.take(k)[d.len() as int] == rest[0]);
        }
        assert(t.take(k) =~= d.take(k));
        lemma_prefix_value(d, k);
    }
}

proof fn lemma_prefix_value(d: Seq<char>, k: int)
    requires
        0 <= k <= d.len(),
    ensures
        digits_value(d.take(k)) <= digits_value(d),
    decreases d.len(),
{
    if k == d.len() {
        assert(d.take(k) =~= d);
    } else {
        lemma_prefix_value(d.drop_last(), k);
        assert(d.drop_last().take(k) =~= d.take(k));
    }
}

} // verus!
