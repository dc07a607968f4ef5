//! Average, percentage and letter grade, computed exactly.

use vstd::prelude::*;
use vstd::string::StringExecFns;
use crate::marks::{Decimal, MAX_DIGITS, pow10, lemma_pow10_mono, lemma_pow10_positive};
use crate::text::{nat_text, padded_text, push_nat, push_padded};

verus! {

/// Bound on the size of a ratio's parts: `10^36`.
pub const RATIO_BOUND: i128 = 1_000_000_000_000_000_000_000_000_000_000_000_000;

/// An exact fraction `num / den`, not necessarily in lowest terms.
#[derive(Debug, Clone, Copy, PartialEq, Eq, Structural)]
pub struct Ratio {
    pub num: i128,
    pub den: i128,
}

pub open spec fn abs(x: int) -> nat {
    if x < 0 {
        (-x) as nat
    } else {
        x as nat
    }
}

/// `num / den` rounded to hundredths, halves away from zero, in absolute value.
pub open spec fn rounded_hundredths(num: int, den: int) -> nat
    recommends
        den > 0,
{
    ((abs(num) * 200 + den) / (2 * den)) as nat
}

/// `num / den` written with two decimals (`90.00`, `-0.25`); a result that
/// rounds to zero carries no sign.
pub open spec fn fixed2_text(num: int, den: int) -> Seq<char> {
    let h = rounded_hundredths(num, den);
    let sign = if num < 0 && h > 0 { seq!['-'] } else { Seq::<char>::empty() };
    sign + nat_text(h / 100) + seq!['.'] + padded_text(h % 100, 2)
}

impl Ratio {
    pub open spec fn wf(&self) -> bool {
        &&& 0 < self.den < RATIO_BOUND
        &&& -RATIO_BOUND < self.num < RATIO_BOUND
    }

    /// Whether this fraction equals `n / d`.
    pub open spec fn equals(&self, n: int, d: int) -> bool {
        self.num * d == n * self.den
    }

    /// Whether this fraction is at least the integer `k`.
    pub open spec fn at_least(&self, k: int) -> bool {
        self.num >= k * self.den
    }

    /// Whether this fraction is at most the integer `k`.
    pub open spec fn at_most(&self, k: int) -> bool {
        self.num <= k * self.den
    }

    /// The value written with two decimals, halves rounded away from zero.
    pub fn to_fixed2(&self) -> (r: String)
        requires
            self.wf(),
        ensures
            r@ == fixed2_text(self.num as int, self.den as int),
    {
        let neg = self.num < 0;
        let a: u128 = if neg { (-self.num) as u128 } else { self.num as u128 };
        let d: u128 = self.den as u128;
        let h: u128 = (a * 200 + d) / (2 * d);
        assert(h == rounded_hundredths(self.num as int, self.den as int));
        let mut s = String::new();
        if neg && h > 0 {
            s.append("-");
            proof { reveal_strlit("-"); }
        }
        push_nat(&mut s, h / 100);
        s.append(".");
        proof { reveal_strlit("."); }
        push_padded(&mut s, h % 100, 2);
        proof {
            assert(s@ =~= fixed2_text(self.num as int, self.den as int));
        }
        s
    }
}

/// A letter grade.
#[derive(Debug, Clone, Copy, PartialEq, Eq, Structural)]
pub enum Grade {
    A,
    B,
    C,
    D,
}

impl Grade {
    pub open spec fn spec_letter(&self) -> Seq<char> {
        match self {
            Grade::A => seq!['A'],
            Grade::B => seq!['B'],
            Grade::C => seq!['C'],
            Grade::D => seq!['D'],
        }
    }

    /// The grade as its one-letter text.
    pub fn letter(&self) -> (r: &'static str)
        ensures
            r@ == self.spec_letter(),
    {
        match self {
            Grade::A => {
                proof { reveal_strlit("A"); }
                "A"
            },
            Grade::B => {
                proof { reveal_strlit("B"); }
                "B"
            },
            Grade::C => {
                proof { reveal_strlit("C"); }
                "C"
            },
            Grade::D => {
                proof { reveal_strlit("D"); }
                "D"
            },
        }
    }
}

/// The grade band that a percentage falls in: [90, 100] is A, [75, 90) is
/// B, [60, 75) is C, and anything else is D.
pub open spec fn grade_of(p: Ratio) -> Grade {
    if p.at_least(90) && p.at_most(100) {
        Grade::A
    } else if p.at_least(75) && !p.at_least(90) {
        Grade::B
    } else if p.at_least(60) && !p.at_least(75) {
        Grade::C
    } else {
        Grade::D
    }
}

/// The average as a fraction: `total / subjects`.
pub open spec fn spec_average(total: Decimal, subjects: u32) -> Ratio {
    Ratio { num: total.num() as i128, den: (total.den() * subjects) as i128 }
}

/// The percentage as a fraction: `total / max * 100`.
pub open spec fn spec_percentage(total: Decimal, max: Decimal) -> Ratio {
    Ratio { num: (total.num() * 100 * max.den()) as i128, den: (total.den() * max.num()) as i128 }
}

/// The average mark per subject, `total / subjects`.
pub fn calculate_average(total: Decimal, subjects: u32) -> (r: Ratio)
    requires
        total.wf(),
        subjects > 0,
    ensures
        r.wf(),
        r == spec_average(total, subjects),
        r.equals(total.num(), total.den() * subjects),
        r.num == total.num(),
        r.den == total.den() * subjects,
{
    proof {
        lemma_pow10_positive(total.scale as nat);
        lemma_pow10_mono(total.scale as nat, MAX_DIGITS as nat);
        lemma_pow10_15();
        let td = total.den() as int;
        assert(td * subjects <= 1_000_000_000_000_000 * 4294967295) by (nonlinear_arith)
            requires
                1 <= td <= 1_000_000_000_000_000,
                subjects <= 4294967295,
        ;
        assert(td * subjects >= 1) by (nonlinear_arith)
            requires
                1 <= td,
                1 <= subjects,
        ;
    }
    let num: i128 = if total.negative { -(total.mantissa as i128) } else { total.mantissa as i128 };
    let den: i128 = pow10_i128(total.scale) * subjects as i128;
    Ratio { num, den }
}

/// The percentage of the maximum that the total is, `total / max * 100`.
pub fn calculate_percentage(total: Decimal, max: Decimal) -> (r: Ratio)
    requires
        total.wf(),
        max.wf(),
        max.num() > 0,
    ensures
        r.wf(),
        r == spec_percentage(total, max),
        r.equals(total.num() * 100 * max.den(), total.den() * max.num()),
        r.num == total.num() * 100 * max.den(),
        r.den == total.den() * max.num(),
{
    proof {
        lemma_pow10_positive(total.scale as nat);
        lemma_pow10_positive(max.scale as nat);
        lemma_pow10_mono(total.scale as nat, MAX_DIGITS as nat);
        lemma_pow10_mono(max.scale as nat, MAX_DIGITS as nat);
        lemma_pow10_15();
        let td = total.den() as int;
        let md = max.den() as int;
        let tm = total.mantissa as int;
        let mm = max.mantissa as int;
        assert(tm * 100 * md < 100_000_000_000_000_000_000_000_000_000_000) by (nonlinear_arith)
            requires
                0 <= tm < 1_000_000_000_000_000,
                1 <= md <= 1_000_000_000_000_000,
        ;
        assert(tm * 100 <= 100_000_000_000_000_000) by (nonlinear_arith)
            requires
                0 <= tm < 1_000_000_000_000_000,
        ;
        assert(1 <= td * mm < 1_000_000_000_000_000_000_000_000_000_000) by (nonlinear_arith)
            requires
                1 <= td <= 1_000_000_000_000_000,
                1 <= mm < 1_000_000_000_000_000,
        ;
    }
    let tn: i128 = if total.negative { -(total.mantissa as i128) } else { total.mantissa as i128 };
    let p: i128 = pow10_i128(max.scale);
    let t100: i128 = tn * 100;
    proof {
        assert(-100_000_000_000_000_000_000_000_000_000_000 < t100 * p
            < 100_000_000_000_000_000_000_000_000_000_000) by (nonlinear_arith)
            requires
                -100_000_000_000_000_000 < t100 < 100_000_000_000_000_000,
                1 <= p <= 1_000_000_000_000_000,
        ;
    }
    let num: i128 = t100 * p;
    let den: i128 = pow10_i128(total.scale) * max.mantissa as i128;
    Ratio { num, den }
}

/// The letter grade of a percentage, by the bands of `grade_of`.
pub fn assign_grade(percentage: Ratio) -> (r: Grade)
    requires
        percentage.wf(),
    ensures
        r == grade_of(percentage),
{
    let n = percentage.num;
    let d = percentage.den;
    if n >= 90 * d && n <= 100 * d {
        Grade::A
    } else if n >= 75 * d && n < 90 * d {
        Grade::B
    } else if n >= 60 * d && n < 75 * d {
        Grade::C
    } else {
        Grade::D
    }
}

proof fn lemma_pow10_15()
    ensures
        pow10(15) == 1_000_000_000_000_000,
{
    reveal_with_fuel(pow10, 16);
}

fn pow10_i128(n: u32) -> (r: i128)
    requires
        n <= MAX_DIGITS,
    ensures
        r == pow10(n as nat),
        r <= pow10(MAX_DIGITS as nat),
{
    proof {
        lemma_pow10_mono(n as nat, MAX_DIGITS as nat);
        lemma_pow10_15();
    }
    crate::marks::pow10_exec(n) as i128
}

} // verus!
