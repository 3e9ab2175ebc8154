use crate::error::Error;
use crate::parity::{is_odd, odd};
use crate::products::{factorial, lemma_factorial_run, product};
use vstd::prelude::*;

verus! {

/// The largest degree whose normalisation constants are tabulated.
pub const LAST_TABULATED_DEGREE: u16 = 4;

/// How many units of a [`Decimal`] make 1.
pub const DECIMAL_SCALE: u64 = 100_000_000_000;

/// `1 / (4 pi)` in units of a [`Decimal`].
pub const INV_FOUR_PI_UNITS: u64 = 7_957_747_155;

/// A non-negative decimal number with eleven places: `units / 10^11`.
#[derive(Clone, Copy, Debug, PartialEq, Eq, Structural)]
pub struct Decimal {
    pub units: u64,
}

/// The tabulated magnitude of the normalisation constant of degree `l` and
/// order `a`, for `0 <= a <= l <= 4`, in units of a [`Decimal`].
pub open spec fn tabulated_units(l: nat, a: nat) -> nat {
    if l == 0 {
        28_209_479_200
    } else if l == 1 {
        if a == 0 {
            48_860_251_200
        } else {
            34_549_414_900
        }
    } else if l == 2 {
        if a == 0 {
            63_078_313_100
        } else if a == 1 {
            25_751_613_500
        } else {
            12_875_806_700
        }
    } else if l == 3 {
        if a == 0 {
            74_635_266_500
        } else if a == 1 {
            21_545_345_600
        } else if a == 2 {
            6_813_236_510
        } else {
            2_781_492_160
        }
    } else {
        if a == 0 {
            84_628_437_500
        } else if a == 1 {
            18_923_493_900
        } else if a == 2 {
            4_460_310_290
        } else if a == 3 {
            1_192_068_070
        } else {
            421_459_707
        }
    }
}

/// The tabulated magnitude for `0 <= a <= l <= 4`.
pub fn tabulated_magnitude(l: u16, a: u16) -> (value: Decimal)
    requires
        a <= l <= LAST_TABULATED_DEGREE,
    ensures
        value.units == tabulated_units(l as nat, a as nat),
{
    let units: u64 = match (l, a) {
        (0, _) => 28_209_479_200,
        (1, 0) => 48_860_251_200,
        (1, _) => 34_549_414_900,
        (2, 0) => 63_078_313_100,
        (2, 1) => 25_751_613_500,
        (2, _) => 12_875_806_700,
        (3, 0) => 74_635_266_500,
        (3, 1) => 21_545_345_600,
        (3, 2) => 6_813_236_510,
        (3, _) => 2_781_492_160,
        (_, 0) => 84_628_437_500,
        (_, 1) => 18_923_493_900,
        (_, 2) => 4_460_310_290,
        (_, 3) => 1_192_068_070,
        (_, _) => 421_459_707,
    };
    Decimal { units }
}

/// The Condon-Shortley phase: the constant is negated for the positive odd
/// orders, and for no others.
pub open spec fn phase_negative(m: int) -> bool {
    m > 0 && odd(m)
}

/// Whether the Condon-Shortley phase negates the constant of order `m`.
pub fn condon_shortley_negative(m: i16) -> (negative: bool)
    ensures
        negative == phase_negative(m as int),
{
    m > 0 && is_odd(m as i64)
}

/// The magnitude of a normalisation constant.
#[derive(Debug, PartialEq, Eq)]
pub enum Magnitude {
    /// The tabulated value.
    Tabulated { value: Decimal },
    /// `sqrt(inv_four_pi * weight / (product of factors))`, where `weight`
    /// is `2l + 1` and the product of `factors` is `(l + |m|)! / (l - |m|)!`.
    Computed { inv_four_pi: Decimal, weight: u32, factors: Vec<u64> },
}

impl Magnitude {
    /// The two magnitudes hold the same values, field by field.
    pub open spec fn same_as(&self, other: Magnitude) -> bool {
        match (*self, other) {
            (Magnitude::Tabulated { value }, Magnitude::Tabulated { value: other_value }) => value
                == other_value,
            (
                Magnitude::Computed { inv_four_pi, weight, factors },
                Magnitude::Computed {
                    inv_four_pi: other_pi,
                    weight: other_weight,
                    factors: other_factors,
                },
            ) => inv_four_pi == other_pi && weight == other_weight && factors@ == other_factors@,
            _ => false,
        }
    }
}

/// What an evaluator of the normalisation constant `N_l^m` carries out.
#[derive(Debug, PartialEq, Eq)]
pub struct NormalizationPlan {
    pub magnitude: Magnitude,
    pub negate: bool,
}

impl NormalizationPlan {
    /// This is the plan for degree `l` and order `m`: up to degree 4 the
    /// tabulated magnitude of `(l, |m|)`; above it the general formula, with
    /// the integers from `l - |m| + 1` up to `l + |m|` as factors, in rising
    /// order; in both cases with the Condon-Shortley phase.
    pub open spec fn describes(&self, l: nat, m: int) -> bool {
        let a = vstd::math::abs(m);
        &&& a <= l
        &&& self.negate == phase_negative(m)
        &&& l <= LAST_TABULATED_DEGREE ==> (self.magnitude matches Magnitude::Tabulated { value }
            && value.units == tabulated_units(l, a))
        &&& l > LAST_TABULATED_DEGREE ==> (self.magnitude matches Magnitude::Computed {
            inv_four_pi,
            weight,
            factors,
        } && inv_four_pi.units == INV_FOUR_PI_UNITS && weight == 2 * l + 1 && is_run(
            factors@,
            l - a + 1,
            2 * a as int,
        ))
    }
}

/// `factors` holds the `count` integers that start at `first`, in rising
/// order.
pub open spec fn is_run(factors: Seq<u64>, first: int, count: int) -> bool {
    &&& factors.len() == count
    &&& forall|j: int| 0 <= j < factors.len() ==> (#[trigger] factors[j]) == first + j
}

/// The integers from `l - a + 1` up to `l + a`: the factors that are left of
/// `(l + a)! / (l - a)!` once the numerator is cancelled.
pub fn factorial_ratio_factors(l: u16, a: u16) -> (factors: Vec<u64>)
    requires
        a <= l,
    ensures
        is_run(factors@, l - a + 1, 2 * a),
        factorial((l - a) as nat) * product(factors@) == factorial((l + a) as nat),
{
    let mut factors: Vec<u64> = Vec::new();
    let last: u64 = l as u64 + a as u64;
    let mut i: u64 = (l - a) as u64;
    while i < last
        invariant
            l - a <= i <= last,
            last == l + a,
            is_run(factors@, l - a + 1, i - (l - a)),
        decreases last - i,
    {
        i = i + 1;
        factors.push(i);
    }
    proof {
        lemma_factorial_run((l - a) as nat, factors@);
    }
    factors
}

/// The plan for the normalisation constant `N_l^m`, with `|m| <= l`. An order
/// outside that range is refused.
pub fn ylmnorm(l: u16, m: i16) -> (r: Result<NormalizationPlan, Error>)
    ensures
        r is Err <==> vstd::math::abs(m as int) > l,
        r matches Err(e) ==> e == Error::InvalidArgument,
        r matches Ok(p) ==> p.describes(l as nat, m as int),
{
    let wide: i32 = m as i32;
    let a: i32 = if wide < 0 {
        -wide
    } else {
        wide
    };
    if a > l as i32 {
        return Err(Error::InvalidArgument);
    }
    let a: u16 = a as u16;
    let negate = condon_shortley_negative(m);
    if l <= LAST_TABULATED_DEGREE {
        let value = tabulated_magnitude(l, a);
        return Ok(NormalizationPlan { magnitude: Magnitude::Tabulated { value }, negate });
    }
    let factors = factorial_ratio_factors(l, a);
    let inv_four_pi = Decimal { units: INV_FOUR_PI_UNITS };
    let weight: u32 = 2 * (l as u32) + 1;
    Ok(NormalizationPlan { magnitude: Magnitude::Computed { inv_four_pi, weight, factors }, negate })
}

/// The factors of a computed magnitude cancel the factorial in the
/// numerator: their product is `(l + |m|)! / (l - |m|)!`.
pub proof fn lemma_computed_ratio(p: NormalizationPlan, l: nat, m: int)
    requires
        p.describes(l, m),
        l > LAST_TABULATED_DEGREE,
    ensures
        p.magnitude matches Magnitude::Computed { factors, .. } && factorial(
            (l - vstd::math::abs(m)) as nat,
        ) * product(factors@) == factorial((l + vstd::math::abs(m)) as nat),
{
    let a = vstd::math::abs(m);
    match p.magnitude {
        Magnitude::Computed { factors, .. } => {
            lemma_factorial_run((l - a) as nat, factors@);
        },
        Magnitude::Tabulated { .. } => {},
    }
}

/// The square of the magnitude `units / 10^11` equals
/// `1 / (4 pi) * weight / ratio`, with `1 / (4 pi)` as the general formula
/// holds it, to within one part in `10^8`.
pub open spec fn squares_agree(units: nat, weight: nat, ratio: nat) -> bool {
    let tabulated = units * units * ratio;
    let computed = INV_FOUR_PI_UNITS * weight * DECIMAL_SCALE;
    &&& (tabulated - computed) * 100_000_000 <= computed
    &&& (computed - tabulated) * 100_000_000 <= computed
}

/// The factorials up to `8!`.
proof fn lemma_small_factorials()
    ensures
        factorial(0) == 1,
        factorial(1) == 1,
        factorial(2) == 2,
        factorial(3) == 6,
        factorial(4) == 24,
        factorial(5) == 120,
        factorial(6) == 720,
        factorial(7) == 5040,
        factorial(8) == 40320,
{
    assert(factorial(0) == 1);
    assert(factorial(1) == 1 * factorial(0));
    assert(factorial(2) == 2 * factorial(1));
    assert(factorial(3) == 3 * factorial(2));
    assert(factorial(4) == 4 * factorial(3));
    assert(factorial(5) == 5 * factorial(4));
    assert(factorial(6) == 6 * factorial(5));
    assert(factorial(7) == 7 * factorial(6));
    assert(factorial(8) == 8 * factorial(7));
}

/// Up to degree 4 the table and the general formula agree: each tabulated
/// magnitude, squared, is what the general formula puts under its square
/// root for the same degree and order, to within one part in `10^8`.
pub proof fn lemma_table_agrees_with_formula(l: nat, a: nat, factors: Seq<u64>)
    requires
        a <= l <= LAST_TABULATED_DEGREE,
        is_run(factors, l - a + 1, 2 * a as int),
    ensures
        squares_agree(tabulated_units(l, a), 2 * l + 1, product(factors)),
{
    lemma_small_factorials();
    lemma_factorial_run((l - a) as nat, factors);
    let units = tabulated_units(l, a);
    let weight = 2 * l + 1;
    let ratio = product(factors);
    let below = factorial((l - a) as nat);
    let above = factorial(l + a);
    assert(below * ratio == above);
    if l == 0 && a == 0 {
        assert(ratio == 1) by (nonlinear_arith)
            requires
                below * ratio == above,
                below == 1,
                above == 1,
        ;
        assert(squares_agree(units, weight, ratio)) by (nonlinear_arith)
            requires
                units == 28209479200,
                weight == 1,
                ratio == 1,
        ;
    }
    if l == 1 && a == 0 {
        assert(ratio == 1) by (nonlinear_arith)
            requires
                below * ratio == above,
                below == 1,
                above == 1,
        ;
        assert(squares_agree(units, weight, ratio)) by (nonlinear_arith)
            requires
                units == 48860251200,
                weight == 3,
                ratio == 1,
        ;
    }
    if l == 1 && a == 1 {
        assert(ratio == 2) by (nonlinear_arith)
            requires
                below * ratio == above,
                below == 1,
                above == 2,
        ;
        assert(squares_agree(units, weight, ratio)) by (nonlinear_arith)
            requires
                units == 34549414900,
                weight == 3,
                ratio == 2,
        ;
    }
    if l == 2 && a == 0 {
        assert(ratio == 1) by (nonlinear_arith)
            requires
                below * ratio == above,
                below == 2,
                above == 2,
        ;
        assert(squares_agree(units, weight, ratio)) by (nonlinear_arith)
            requires
                units == 63078313100,
                weight == 5,
                ratio == 1,
        ;
    }
    if l == 2 && a == 1 {
        assert(ratio == 6) by (nonlinear_arith)
            requires
                below * ratio == above,
                below == 1,
                above == 6,
        ;
        assert(squares_agree(units, weight, ratio)) by (nonlinear_arith)
            requires
                units == 25751613500,
                weight == 5,
                ratio == 6,
        ;
    }
    if l == 2 && a == 2 {
        assert(ratio == 24) by (nonlinear_arith)
            requires
                below * ratio == above,
                below == 1,
                above == 24,
        ;
        assert(squares_agree(units, weight, ratio)) by (nonlinear_arith)
            requires
                units == 12875806700,
                weight == 5,
                ratio == 24,
        ;
    }
    if l == 3 && a == 0 {
        assert(ratio == 1) by (nonlinear_arith)
            requires
                below * ratio == above,
                below == 6,
                above == 6,
        ;
        assert(squares_agree(units, weight, ratio)) by (nonlinear_arith)
            requires
                units == 74635266500,
                weight == 7,
                ratio == 1,
        ;
    }
    if l == 3 && a == 1 {
        assert(ratio == 12) by (nonlinear_arith)
            requires
                below * ratio == above,
                below == 2,
                above == 24,
        ;
        assert(squares_agree(units, weight, ratio)) by (nonlinear_arith)
            requires
                units == 21545345600,
                weight == 7,
                ratio == 12,
        ;
    }
    if l == 3 && a == 2 {
        assert(ratio == 120) by (nonlinear_arith)
            requires
                below * ratio == above,
                below == 1,
                above == 120,
        ;
        assert(squares_agree(units, weight, ratio)) by (nonlinear_arith)
            requires
                units == 6813236510,
                weight == 7,
                ratio == 120,
        ;
    }
    if l == 3 && a == 3 {
        assert(ratio == 720) by (nonlinear_arith)
            requires
                below * ratio == above,
                below == 1,
                above == 720,
        ;
        assert(squares_agree(units, weight, ratio)) by (nonlinear_arith)
            requires
                units == 2781492160,
                weight == 7,
                ratio == 720,
        ;
    }
    if l == 4 && a == 0 {
        assert(ratio == 1) by (nonlinear_arith)
            requires
                below * ratio == above,
                below == 24,
                above == 24,
        ;
        assert(squares_agree(units, weight, ratio)) by (nonlinear_arith)
            requires
                units == 84628437500,
                weight == 9,
                ratio == 1,
        ;
    }
    if l == 4 && a == 1 {
        assert(ratio == 20) by (nonlinear_arith)
            requires
                below * ratio == above,
                below == 6,
                above == 120,
        ;
        assert(squares_agree(units, weight, ratio)) by (nonlinear_arith)
            requires
                units == 18923493900,
                weight == 9,
                ratio == 20,
        ;
    }
    if l == 4 && a == 2 {
        assert(ratio == 360) by (nonlinear_arith)
            requires
                below * ratio == above,
                below == 2,
                above == 720,
        ;
        assert(squares_agree(units, weight, ratio)) by (nonlinear_arith)
            requires
                units == 4460310290,
                weight == 9,
                ratio == 360,
        ;
    }
    if l == 4 && a == 3 {
        assert(ratio == 5040) by (nonlinear_arith)
            requires
                below * ratio == above,
                below == 1,
                above == 5040,
        ;
        assert(squares_agree(units, weight, ratio)) by (nonlinear_arith)
            requires
                units == 1192068070,
                weight == 9,
                ratio == 5040,
        ;
    }
    if l == 4 && a == 4 {
        assert(ratio == 40320) by (nonlinear_arith)
            requires
                below * ratio == above,
                below == 1,
                above == 40320,
        ;
        assert(squares_agree(units, weight, ratio)) by (nonlinear_arith)
            requires
                units == 421459707,
                weight == 9,
                ratio == 40320,
        ;
    }
}

/// The plan of a degree and an order is determined: two plans that describe
/// the same pair hold the same values throughout.
pub proof fn lemma_plan_determined(p: NormalizationPlan, q: NormalizationPlan, l: nat, m: int)
    requires
        p.describes(l, m),
        q.describes(l, m),
    ensures
        p.negate == q.negate,
        p.magnitude.same_as(q.magnitude),
{
    match (p.magnitude, q.magnitude) {
        (Magnitude::Computed { factors, .. }, Magnitude::Computed { factors: other, .. }) => {
            assert(factors@ =~= other@);
        },
        _ => {},
    }
}

/// Opposite orders have the same magnitude of the constant; they differ at
/// most in the phase, which negates the constant of the positive order where
/// that order is odd, and never that of the negative order.
pub proof fn lemma_opposite_orders(p: NormalizationPlan, q: NormalizationPlan, l: nat, m: int)
    requires
        p.describes(l, m),
        q.describes(l, -m),
    ensures
        p.magnitude.same_as(q.magnitude),
        m > 0 ==> !q.negate && p.negate == odd(m),
{
    match (p.magnitude, q.magnitude) {
        (Magnitude::Computed { factors, .. }, Magnitude::Computed { factors: other, .. }) => {
            assert(factors@ =~= other@);
        },
        _ => {},
    }
}

} // verus!
