//! Marks as exact decimals, read from the text a user types.

use vstd::prelude::*;
use vstd::string::StringExecFns;
use crate::text::{nat_text, padded_text, push_nat, push_padded};

verus! {

/// Significant digits that a mark may have: about what a double holds.
pub const MAX_DIGITS: u32 = 15;

/// 10 to the power `n`.
pub open spec fn pow10(n: nat) -> nat
    decreases n,
{
    if n == 0 {
        1
    } else {
        10 * pow10((n - 1) as nat)
    }
}

pub open spec fn is_digit(c: char) -> bool {
    '0' <= c && c <= '9'
}

pub open spec fn digit_value(c: char) -> int {
    c as int - '0' as int
}

/// How many decimal digits `s` holds.
pub open spec fn digit_count(s: Seq<char>) -> nat
    decreases s.len(),
{
    if s.len() == 0 {
        0
    } else {
        digit_count(s.drop_last()) + if is_digit(s.last()) { 1nat } else { 0nat }
    }
}

/// How many decimal points `s` holds.
pub open spec fn dot_count(s: Seq<char>) -> nat
    decreases s.len(),
{
    if s.len() == 0 {
        0
    } else {
        dot_count(s.drop_last()) + if s.last() == '.' { 1nat } else { 0nat }
    }
}

/// The number that the digits of `s` spell, read left to right, any
/// decimal point left out.
pub open spec fn digits_value(s: Seq<char>) -> nat
    decreases s.len(),
{
    if s.len() == 0 {
        0
    } else if is_digit(s.last()) {
        (digits_value(s.drop_last()) * 10 + digit_value(s.last())) as nat
    } else {
        digits_value(s.drop_last())
    }
}

/// How many digits of `s` stand after a decimal point.
pub open spec fn frac_len(s: Seq<char>) -> nat
    decreases s.len(),
{
    if s.len() == 0 {
        0
    } else if dot_count(s.drop_last()) > 0 && is_digit(s.last()) {
        frac_len(s.drop_last()) + 1
    } else {
        frac_len(s.drop_last())
    }
}

/// Digits with at most one decimal point, and at least one digit.
pub open spec fn is_unsigned_decimal(b: Seq<char>) -> bool {
    &&& forall|i: int| 0 <= i < b.len() ==> is_digit(#[trigger] b[i]) || b[i] == '.'
    &&& dot_count(b) <= 1
    &&& digit_count(b) >= 1
}

pub open spec fn sign_len(s: Seq<char>) -> int {
    if s.len() > 0 && (s[0] == '+' || s[0] == '-') {
        1
    } else {
        0
    }
}

/// What follows the sign, if any.
pub open spec fn unsigned_part(s: Seq<char>) -> Seq<char> {
    s.skip(sign_len(s))
}

pub open spec fn has_minus(s: Seq<char>) -> bool {
    s.len() > 0 && s[0] == '-'
}

/// A decimal number: an optional `+` or `-`, digits, and at most one
/// decimal point anywhere among them (`12`, `-0.5`, `.5`, `3.`).
pub open spec fn is_decimal_text(s: Seq<char>) -> bool {
    is_unsigned_decimal(unsigned_part(s))
}

/// The numerator of the text's value over `10^frac_len`.
pub open spec fn text_numerator(s: Seq<char>) -> int {
    let v = digits_value(unsigned_part(s)) as int;
    if has_minus(s) {
        -v
    } else {
        v
    }
}

/// A count: an optional `+`, then one or more digits.
pub open spec fn is_count_text(s: Seq<char>) -> bool {
    let b = count_digits(s);
    &&& b.len() >= 1
    &&& forall|i: int| 0 <= i < b.len() ==> is_digit(#[trigger] b[i])
}

pub open spec fn count_digits(s: Seq<char>) -> Seq<char> {
    if s.len() > 0 && s[0] == '+' {
        s.skip(1)
    } else {
        s
    }
}

/// Why a piece of input is not a usable number.
#[derive(Debug, Clone, Copy, PartialEq, Eq, Structural)]
pub enum InputError {
    /// The text is not a number of the expected form.
    NotANumber,
    /// The number has more significant digits than a mark may have.
    TooManyDigits,
    /// The count does not fit in 32 bits.
    OutOfRange,
}

/// An exact decimal number, `mantissa / 10^scale`, negated when `negative`.
///
/// It is kept in lowest terms (no trailing zero after the point), so equal
/// numbers have equal representations.
#[derive(Debug, Clone, Copy, PartialEq, Eq, Structural)]
pub struct Decimal {
    pub negative: bool,
    pub mantissa: u64,
    pub scale: u32,
}

impl Decimal {
    pub open spec fn wf(&self) -> bool {
        &&& self.mantissa < pow10(MAX_DIGITS as nat)
        &&& self.scale <= MAX_DIGITS
        &&& (self.scale == 0 || self.mantissa % 10 != 0)
        &&& (self.negative ==> self.mantissa > 0)
    }

    /// The numerator of the value over `den()`.
    pub open spec fn num(&self) -> int {
        if self.negative {
            -(self.mantissa as int)
        } else {
            self.mantissa as int
        }
    }

    /// The power of ten that `num()` is divided by.
    pub open spec fn den(&self) -> nat {
        pow10(self.scale as nat)
    }

    /// The usual text: sign, integer part, and the fraction digits if any.
    pub open spec fn spec_text(&self) -> Seq<char> {
        let d = self.den();
        let sign = if self.negative { seq!['-'] } else { Seq::<char>::empty() };
        let int_part = nat_text(self.mantissa as nat / d);
        if self.scale == 0 {
            sign + int_part
        } else {
            sign + int_part + seq!['.'] + padded_text(self.mantissa as nat % d, self.scale as nat)
        }
    }

    pub fn is_positive(&self) -> (r: bool)
        requires
            self.wf(),
        ensures
            r == (self.num() > 0),
    {
        !self.negative && self.mantissa > 0
    }

    /// The shortest text of the number (`450`, `89.5`, `-0.25`).
    pub fn to_text(&self) -> (r: String)
        requires
            self.wf(),
        ensures
            r@ == self.spec_text(),
    {
        let d = pow10_exec(self.scale);
        proof {
            lemma_pow10_positive(self.scale as nat);
        }
        let mut s = String::new();
        if self.negative {
            s.append("-");
            proof { reveal_strlit("-"); }
        }
        push_nat(&mut s, (self.mantissa as u128) / d);
        if self.scale > 0 {
            s.append(".");
            proof { reveal_strlit("."); }
            push_padded(&mut s, (self.mantissa as u128) % d, self.scale);
        }
        proof {
            assert(s@ =~= self.spec_text());
        }
        s
    }
}

pub proof fn lemma_pow10_positive(n: nat)
    ensures
        pow10(n) >= 1,
    decreases n,
{
    if n > 0 {
        lemma_pow10_positive((n - 1) as nat);
    }
}

pub proof fn lemma_pow10_mono(a: nat, b: nat)
    requires
        a <= b,
    ensures
        pow10(a) <= pow10(b),
    decreases b,
{
    if a < b {
        lemma_pow10_mono(a, (b - 1) as nat);
    }
}

proof fn lemma_pow10_38()
    ensures
        pow10(38) == 100000000000000000000000000000000000000,
{
    reveal_with_fuel(pow10, 39);
}

/// `10^n` for `n` up to 38.
pub fn pow10_exec(n: u32) -> (r: u128)
    requires
        n <= 38,
    ensures
        r == pow10(n as nat),
{
    let mut r: u128 = 1;
    let mut k: u32 = 0;
    while k < n
        invariant
            k <= n <= 38,
            r == pow10(k as nat),
        decreases n - k,
    {
        proof {
            lemma_pow10_mono((k + 1) as nat, 38);
            lemma_pow10_38();
        }
        r = r * 10;
        k = k + 1;
    }
    r
}


proof fn lemma_prefix_step(s: Seq<char>, a: int, i: int)
    requires
        0 <= a <= i < s.len(),
    ensures
        s.subrange(a, i + 1).drop_last() == s.subrange(a, i),
        s.subrange(a, i + 1).last() == s[i],
{
    assert(s.subrange(a, i + 1).drop_last() =~= s.subrange(a, i));
}

proof fn lemma_dot_count_prefix(s: Seq<char>, k: int)
    requires
        0 <= k <= s.len(),
    ensures
        dot_count(s.subrange(0, k)) <= dot_count(s),
    decreases s.len(),
{
    if k < s.len() {
        assert(s.drop_last().subrange(0, k) =~= s.subrange(0, k));
        lemma_dot_count_prefix(s.drop_last(), k);
    } else {
        assert(s.subrange(0, k) =~= s);
    }
}

proof fn lemma_digits_value_bound(s: Seq<char>)
    ensures
        digits_value(s) < pow10(digit_count(s)),
    decreases s.len(),
{
    if s.len() > 0 {
        lemma_digits_value_bound(s.drop_last());
    }
}

/// Reads a mark: an optional sign, digits and at most one decimal point.
///
/// The result is the number that the text spells, in lowest terms:
/// `num / den == text_numerator / 10^frac_len`.
pub fn parse_decimal(s: &str) -> (r: Result<Decimal, InputError>)
    ensures
        r is Ok <==> is_decimal_text(s@) && digit_count(unsigned_part(s@)) <= MAX_DIGITS,
        r == Err::<Decimal, InputError>(InputError::NotANumber) <==> !is_decimal_text(s@),
        r is Err ==> r == Err::<Decimal, InputError>(InputError::NotANumber) || r == Err::<
            Decimal,
            InputError,
        >(InputError::TooManyDigits),
        r matches Ok(d) ==> d.wf() && d.num() * pow10(frac_len(unsigned_part(s@)))
            == text_numerator(s@) * d.den(),
{
    let n = s.unicode_len();
    let ghost sv = s@;
    let mut start: usize = 0;
    let mut negative = false;
    if n > 0 {
        let c = s.get_char(0);
        if c == '+' || c == '-' {
            start = 1;
            negative = c == '-';
        }
    }
    let ghost body = unsigned_part(sv);
    assert(body =~= sv.subrange(start as int, n as int));
    let mut mant: u64 = 0;
    let mut digits: usize = 0;
    let mut dots: usize = 0;
    let mut frac: usize = 0;
    let mut i: usize = start;
    while i < n
        invariant
            n == sv.len(),
            sv == s@,
            start <= i <= n,
            start == sign_len(sv),
            negative == has_minus(sv),
            body == sv.subrange(start as int, n as int),
            forall|j: int| start <= j < i ==> is_digit(#[trigger] sv[j]) || sv[j] == '.',
            dots == dot_count(sv.subrange(start as int, i as int)),
            dots <= 1,
            digits == digit_count(sv.subrange(start as int, i as int)),
            frac == frac_len(sv.subrange(start as int, i as int)),
            frac <= digits,
            digits <= MAX_DIGITS as usize ==> mant == digits_value(sv.subrange(start as int, i as int)),
            digits <= i - start,
        decreases n - i,
    {
        let c = s.get_char(i);
        proof {
            lemma_prefix_step(sv, start as int, i as int);
        }
        if c == '.' {
            if dots == 1 {
                proof {
                    assert(body.subrange(0, i - start + 1) =~= sv.subrange(
                        start as int,
                        i + 1,
                    ));
                    lemma_dot_count_prefix(body, i - start + 1);
                }
                return Err(InputError::NotANumber);
            }
            dots = dots + 1;
        } else if '0' <= c && c <= '9' {
            if digits < MAX_DIGITS as usize {
                proof {
                    lemma_digits_value_bound(sv.subrange(start as int, i as int));
                    lemma_pow10_mono(digits as nat, 14);
                    reveal_with_fuel(pow10, 16);
                }
                mant = mant * 10 + (c as u32 - '0' as u32) as u64;
            }
            if dots > 0 {
                frac = frac + 1;
            }
            digits = digits + 1;
        } else {
            proof {
                assert(body[i - start] == sv[i as int]);
            }
            return Err(InputError::NotANumber);
        }
        i = i + 1;
    }
    assert(sv.subrange(start as int, i as int) == body);
    if digits == 0 {
        return Err(InputError::NotANumber);
    }
    assert(is_decimal_text(sv));
    if digits > MAX_DIGITS as usize {
        return Err(InputError::TooManyDigits);
    }
    let frac: u32 = frac as u32;
    proof {
        lemma_digits_value_bound(body);
        lemma_pow10_mono(digits as nat, MAX_DIGITS as nat);
    }
    let mut m: u64 = mant;
    let mut sc: u32 = frac;
    assert(pow10(0) == 1);
    assert(((frac - sc) as nat) == 0);
    assert(m as int * pow10(0) == mant as int);
    while sc > 0 && m % 10 == 0
        invariant
            sc <= frac <= MAX_DIGITS,
            m <= mant,
            mant == digits_value(body),
            mant < pow10(MAX_DIGITS as nat),
            m as int * pow10((frac - sc) as nat) == mant as int,
        decreases sc,
    {
        proof {
            let k = (frac - sc) as nat;
            assert(pow10(k + 1) == 10 * pow10(k));
            let m2 = m as int / 10;
            assert(m as int == m2 * 10);
            assert(m2 * pow10(k + 1) == m as int * pow10(k)) by (nonlinear_arith)
                requires
                    m as int == m2 * 10,
                    pow10(k + 1) == 10 * pow10(k),
            ;
            assert((frac - (sc - 1)) as nat == k + 1);
        }
        m = m / 10;
        sc = sc - 1;
    }
    let d = Decimal { negative: negative && m > 0, mantissa: m, scale: sc };
    proof {
        let k = (frac - sc) as nat;
        let f = frac as nat;
        let p = pow10(sc as nat);
        assert(pow10(f) == p * pow10(k)) by {
            lemma_pow10_add(sc as nat, k);
        }
        assert(m as int * pow10(f) == mant as int * p) by (nonlinear_arith)
            requires
                pow10(f) == p * pow10(k),
                m as int * pow10(k) == mant as int,
        ;
        if negative {
            assert(-(m as int) * pow10(f) == -(mant as int) * p) by (nonlinear_arith)
                requires
                    m as int * pow10(f) == mant as int * p,
            ;
        }
    }
    Ok(d)
}

pub proof fn lemma_pow10_add(a: nat, b: nat)
    ensures
        pow10(a + b) == pow10(a) * pow10(b),
    decreases a,
{
    if a > 0 {
        let a1 = (a - 1) as nat;
        lemma_pow10_add(a1, b);
        assert(a + b == (a1 + b) + 1);
        assert(pow10(a) == 10 * pow10(a1));
        assert(pow10(a + b) == 10 * pow10(a1 + b));
        assert(10 * (pow10(a1) * pow10(b)) == (10 * pow10(a1)) * pow10(b)) by (nonlinear_arith);
        assert(pow10(a + b) == pow10(a) * pow10(b));
    } else {
        assert(pow10(a) == 1);
        assert(a + b == b);
        assert(pow10(a + b) == pow10(a) * pow10(b));
    }
}

/// Reads a count: an optional `+`, then decimal digits, at most `u32::MAX`.
pub fn parse_count(s: &str) -> (r: Result<u32, InputError>)
    ensures
        r is Ok <==> is_count_text(s@) && digits_value(count_digits(s@)) <= u32::MAX,
        r == Err::<u32, InputError>(InputError::NotANumber) <==> !is_count_text(s@),
        r is Err ==> r == Err::<u32, InputError>(InputError::NotANumber) || r == Err::<
            u32,
            InputError,
        >(InputError::OutOfRange),
        r matches Ok(v) ==> v == digits_value(count_digits(s@)),
{
    let n = s.unicode_len();
    let ghost sv = s@;
    let mut start: usize = 0;
    if n > 0 && s.get_char(0) == '+' {
        start = 1;
    }
    let ghost b = count_digits(sv);
    assert(b =~= sv.subrange(start as int, n as int));
    if start == n {
        return Err(InputError::NotANumber);
    }
    let mut acc: u64 = 0;
    let mut big = false;
    let mut i: usize = start;
    while i < n
        invariant
            n == sv.len(),
            sv == s@,
            start <= i <= n,
            b == sv.subrange(start as int, n as int),
            b == count_digits(sv),
            forall|j: int| start <= j < i ==> is_digit(#[trigger] sv[j]),
            !big ==> acc == digits_value(sv.subrange(start as int, i as int)),
            !big ==> acc <= u32::MAX,
            big ==> digits_value(sv.subrange(start as int, i as int)) > u32::MAX,
        decreases n - i,
    {
        let c = s.get_char(i);
        proof {
            lemma_prefix_step(sv, start as int, i as int);
        }
        if '0' <= c && c <= '9' {
            if !big {
                let v = acc * 10 + (c as u32 - '0' as u32) as u64;
                if v > 4294967295 {
                    big = true;
                } else {
                    acc = v;
                }
            }
        } else {
            proof {
                assert(b[i - start] == sv[i as int]);
                assert(!is_digit(b[i - start]));
                assert(!is_count_text(sv));
            }
            return Err(InputError::NotANumber);
        }
        i = i + 1;
    }
    assert(sv.subrange(start as int, i as int) == b);
    assert(is_count_text(sv));
    if big {
        return Err(InputError::OutOfRange);
    }
    Ok(acc as u32)
}

} // verus!
