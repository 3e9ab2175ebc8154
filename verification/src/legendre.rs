use crate::error::Error;
use crate::products::product;
use vstd::prelude::*;

verus! {

/// The largest order whose double factorial is tabulated.
pub const LAST_TABULATED: u32 = 13;

/// The largest order whose diagonal value is written out as a product of
/// sines, without a call of a power function.
pub const LAST_CLOSED_FORM: u32 = 4;

/// `(2n - 1)!!`, the product of the odd integers from 1 up to `2n - 1`.
/// For `n = 0` the product is empty.
pub open spec fn odd_double_factorial(n: nat) -> nat
    decreases n,
{
    if n == 0 {
        1
    } else {
        ((2 * n - 1) as nat) * odd_double_factorial((n - 1) as nat)
    }
}

/// The tabulated double factorials are what the definition gives.
pub proof fn lemma_tabulated_values()
    ensures
        odd_double_factorial(0) == 1,
        odd_double_factorial(1) == 1,
        odd_double_factorial(2) == 3,
        odd_double_factorial(3) == 15,
        odd_double_factorial(4) == 105,
        odd_double_factorial(5) == 945,
        odd_double_factorial(6) == 10395,
        odd_double_factorial(7) == 135135,
        odd_double_factorial(8) == 2027025,
        odd_double_factorial(9) == 34459425,
        odd_double_factorial(10) == 654729075,
        odd_double_factorial(11) == 13749310575,
        odd_double_factorial(12) == 316234143225,
        odd_double_factorial(13) == 7905853580625,
{
    assert(odd_double_factorial(0) == 1);
    assert(odd_double_factorial(1) == 1 * odd_double_factorial(0));
    assert(odd_double_factorial(2) == 3 * odd_double_factorial(1));
    assert(odd_double_factorial(3) == 5 * odd_double_factorial(2));
    assert(odd_double_factorial(4) == 7 * odd_double_factorial(3));
    assert(odd_double_factorial(5) == 9 * odd_double_factorial(4));
    assert(odd_double_factorial(6) == 11 * odd_double_factorial(5));
    assert(odd_double_factorial(7) == 13 * odd_double_factorial(6));
    assert(odd_double_factorial(8) == 15 * odd_double_factorial(7));
    assert(odd_double_factorial(9) == 17 * odd_double_factorial(8));
    assert(odd_double_factorial(10) == 19 * odd_double_factorial(9));
    assert(odd_double_factorial(11) == 21 * odd_double_factorial(10));
    assert(odd_double_factorial(12) == 23 * odd_double_factorial(11));
    assert(odd_double_factorial(13) == 25 * odd_double_factorial(12));
}

/// `(2n - 1)!!` for the tabulated orders.
pub fn tabulated_double_factorial(n: u32) -> (value: u64)
    requires
        n <= LAST_TABULATED,
    ensures
        value == odd_double_factorial(n as nat),
{
    proof {
        lemma_tabulated_values();
    }
    match n {
        0 => 1,
        1 => 1,
        2 => 3,
        3 => 15,
        4 => 105,
        5 => 945,
        6 => 10395,
        7 => 135135,
        8 => 2027025,
        9 => 34459425,
        10 => 654729075,
        11 => 13749310575,
        12 => 316234143225,
        _ => 7905853580625,
    }
}

/// How the diagonal value `P_m^m` is obtained.
#[derive(Clone, Copy, Debug, PartialEq, Eq, Structural)]
pub enum DiagonalRule {
    /// Order 0: the value is 1.
    Unit,
    /// Orders 1 to 4: the coefficient times the sine multiplied out.
    ClosedForm,
    /// Orders 5 to 13: the tabulated coefficient times a power of the sine.
    Tabulated,
    /// Larger orders: the last tabulated coefficient, multiplied by the
    /// remaining odd integers, times a power of the sine.
    Accumulated,
}

/// The rule that applies to an order.
pub open spec fn rule_for(m: nat) -> DiagonalRule {
    if m == 0 {
        DiagonalRule::Unit
    } else if m <= LAST_CLOSED_FORM {
        DiagonalRule::ClosedForm
    } else if m <= LAST_TABULATED {
        DiagonalRule::Tabulated
    } else {
        DiagonalRule::Accumulated
    }
}

/// The rule that applies to an order.
pub fn diagonal_rule(m: u32) -> (rule: DiagonalRule)
    ensures
        rule == rule_for(m as nat),
{
    if m == 0 {
        DiagonalRule::Unit
    } else if m <= LAST_CLOSED_FORM {
        DiagonalRule::ClosedForm
    } else if m <= LAST_TABULATED {
        DiagonalRule::Tabulated
    } else {
        DiagonalRule::Accumulated
    }
}

/// The diagonal value `P_m^m(cos t) = (2m - 1)!! sin(t)^m`, as integers:
/// `base` times the product of `factors` is the coefficient, `power` the
/// exponent of the sine.
#[derive(Debug, PartialEq, Eq)]
pub struct Diagonal {
    pub rule: DiagonalRule,
    pub base: u64,
    pub factors: Vec<u64>,
    pub power: u32,
}

impl Diagonal {
    /// The coefficient of the power of the sine.
    pub open spec fn coefficient(&self) -> nat {
        (self.base as nat) * product(self.factors@)
    }

    /// This is the diagonal of order `m`: up to the last tabulated order the
    /// coefficient is `base` alone; beyond it `base` is the last tabulated
    /// value and `factors` holds the odd integers from 27 up to `2m - 1`, in
    /// rising order.
    pub open spec fn describes(&self, m: nat) -> bool {
        &&& self.rule == rule_for(m)
        &&& self.power == m
        &&& m <= LAST_TABULATED ==> self.base == odd_double_factorial(m) && self.factors@.len()
            == 0
        &&& m > LAST_TABULATED ==> self.base == odd_double_factorial(LAST_TABULATED as nat)
            && self.factors@.len() == m - LAST_TABULATED
        &&& forall|j: int|
            0 <= j < self.factors@.len() ==> (#[trigger] self.factors@[j]) == 2 * (
            LAST_TABULATED + 1 + j) - 1
    }
}

/// Multiplying the last tabulated double factorial by the odd integers that
/// follow it, up to `2m - 1`, gives `(2m - 1)!!`.
pub proof fn lemma_accumulated(factors: Seq<u64>)
    requires
        forall|j: int|
            0 <= j < factors.len() ==> (#[trigger] factors[j]) == 2 * (LAST_TABULATED + 1 + j) - 1,
    ensures
        odd_double_factorial(LAST_TABULATED as nat) * product(factors) == odd_double_factorial(
            LAST_TABULATED as nat + factors.len(),
        ),
    decreases factors.len(),
{
    if factors.len() > 0 {
        let shorter = factors.drop_last();
        lemma_accumulated(shorter);
        let n = LAST_TABULATED as nat + factors.len();
        let base = odd_double_factorial(LAST_TABULATED as nat);
        let f = factors.last() as nat;
        assert(f == 2 * n - 1);
        assert(odd_double_factorial(n) == f * odd_double_factorial((n - 1) as nat));
        assert(product(factors) == product(shorter) * f);
        assert(base * (product(shorter) * f) == f * (base * product(shorter)))
            by (nonlinear_arith);
    } else {
        assert(product(factors) == 1);
    }
}

/// A diagonal that describes order `m` has the coefficient `(2m - 1)!!`.
pub proof fn lemma_diagonal_coefficient(d: Diagonal, m: nat)
    requires
        d.describes(m),
    ensures
        d.coefficient() == odd_double_factorial(m),
{
    if m > LAST_TABULATED {
        lemma_accumulated(d.factors@);
    } else {
        assert(product(d.factors@) == 1);
    }
}

/// The diagonal of order `m`.
pub fn diagonal(m: u32) -> (d: Diagonal)
    ensures
        d.describes(m as nat),
        d.coefficient() == odd_double_factorial(m as nat),
{
    let mut factors: Vec<u64> = Vec::new();
    let base: u64 = if m <= LAST_TABULATED {
        tabulated_double_factorial(m)
    } else {
        tabulated_double_factorial(LAST_TABULATED)
    };
    let mut i: u32 = LAST_TABULATED;
    while i < m
        invariant
            LAST_TABULATED <= i,
            i == LAST_TABULATED || i <= m,
            factors@.len() == i - LAST_TABULATED,
            forall|j: int|
                0 <= j < factors@.len() ==> (#[trigger] factors@[j]) == 2 * (LAST_TABULATED + 1
                    + j) - 1,
        decreases m - i,
    {
        i = i + 1;
        let odd: u64 = 2 * (i as u64) - 1;
        factors.push(odd);
    }
    let d = Diagonal { rule: diagonal_rule(m), base, factors, power: m };
    proof {
        lemma_diagonal_coefficient(d, m as nat);
    }
    d
}

/// One step of the recurrence in the degree,
/// `P_i^m = (lead cos(t) P_{i-1}^m - trail P_{i-2}^m) / divisor`.
#[derive(Clone, Copy, Debug, PartialEq, Eq, Structural)]
pub struct RecurrenceStep {
    pub degree: u32,
    pub lead: u64,
    pub trail: u64,
    pub divisor: u32,
}

impl RecurrenceStep {
    /// This is the step that reaches degree `i` at order `m`:
    /// `lead = 2i - 1`, `trail = i + m - 1`, `divisor = i - m`.
    pub open spec fn reaches(&self, i: int, m: int) -> bool {
        &&& self.degree == i
        &&& self.lead == 2 * i - 1
        &&& self.trail == i + m - 1
        &&& self.divisor == i - m
    }
}

/// What an evaluator of `P_l^m(cos t)` carries out: the diagonal value
/// `P_m^m`; then, where `l > m`, the value `P_{m+1}^m = ascent cos(t) P_m^m`;
/// then the steps of the recurrence, from degree `m + 2` up to `l`.
#[derive(Debug, PartialEq, Eq)]
pub struct LegendrePlan {
    pub diagonal: Diagonal,
    pub ascent: Option<u64>,
    pub steps: Vec<RecurrenceStep>,
}

impl LegendrePlan {
    /// This is the plan for degree `l` and order `m`.
    pub open spec fn describes(&self, l: nat, m: nat) -> bool {
        &&& m <= l
        &&& self.diagonal.describes(m)
        &&& self.ascent == (if l > m {
            Some((2 * m + 1) as u64)
        } else {
            None
        })
        &&& self.steps@.len() == (if l > m + 1 {
            l - m - 1
        } else {
            0
        })
        &&& forall|j: int|
            0 <= j < self.steps@.len() ==> (#[trigger] self.steps@[j]).reaches(m + 2 + j, m as int)
    }

    /// The two plans hold the same values, field by field.
    pub open spec fn same_as(&self, other: LegendrePlan) -> bool {
        &&& self.diagonal.rule == other.diagonal.rule
        &&& self.diagonal.base == other.diagonal.base
        &&& self.diagonal.factors@ == other.diagonal.factors@
        &&& self.diagonal.power == other.diagonal.power
        &&& self.ascent == other.ascent
        &&& self.steps@ == other.steps@
    }
}

/// The plan for a degree and an order that may lie beyond 16 bits, as the
/// derivatives need it.
pub(crate) fn plan_for(l: u32, m: u32) -> (r: Result<LegendrePlan, Error>)
    ensures
        r is Err <==> m > l,
        r matches Ok(p) ==> p.describes(l as nat, m as nat),
{
    if m > l {
        return Err(Error::InvalidArgument);
    }
    let diagonal = diagonal(m);
    let mut steps: Vec<RecurrenceStep> = Vec::new();
    if l == m {
        return Ok(LegendrePlan { diagonal, ascent: None, steps });
    }
    let wide_m: u64 = m as u64;
    let ascent: u64 = 2 * wide_m + 1;
    let mut i: u32 = m + 1;
    while i < l
        invariant
            m < i <= l,
            wide_m == m,
            steps@.len() == i - m - 1,
            forall|j: int|
                0 <= j < steps@.len() ==> (#[trigger] steps@[j]).reaches(m + 2 + j, m as int),
        decreases l - i,
    {
        i = i + 1;
        let wide_i: u64 = i as u64;
        steps.push(
            RecurrenceStep {
                degree: i,
                lead: 2 * wide_i - 1,
                trail: wide_i + wide_m - 1,
                divisor: i - m,
            },
        );
    }
    Ok(LegendrePlan { diagonal, ascent: Some(ascent), steps })
}

/// The plan for `P_l^m(cos t)`, with `0 <= m <= l`. An order above the degree
/// is refused.
pub fn plmcos(l: u16, m: u16) -> (r: Result<LegendrePlan, Error>)
    ensures
        r is Err <==> m > l,
        r matches Err(e) ==> e == Error::InvalidArgument,
        r matches Ok(p) ==> p.describes(l as nat, m as nat),
{
    plan_for(l as u32, m as u32)
}

/// On the diagonal `l = m` the plan is the diagonal value alone, with the
/// coefficient `(2l - 1)!!` and the sine to the power `l`: no step brings the
/// cosine in.
pub proof fn lemma_diagonal_plan(p: LegendrePlan, l: nat)
    requires
        p.describes(l, l),
    ensures
        p.ascent is None,
        p.steps@.len() == 0,
        p.diagonal.coefficient() == odd_double_factorial(l),
        p.diagonal.power == l,
{
    lemma_diagonal_coefficient(p.diagonal, l);
}

/// The plan of a degree and an order is determined: two plans that describe
/// the same pair hold the same values throughout.
pub proof fn lemma_plan_determined(p: LegendrePlan, q: LegendrePlan, l: nat, m: nat)
    requires
        p.describes(l, m),
        q.describes(l, m),
    ensures
        p.same_as(q),
{
    assert(p.diagonal.factors@ =~= q.diagonal.factors@);
    assert forall|j: int| 0 <= j < p.steps@.len() implies p.steps@[j] == q.steps@[j] by {
        assert(p.steps@[j].reaches(m + 2 + j, m as int));
        assert(q.steps@[j].reaches(m + 2 + j, m as int));
    }
    assert(p.steps@ =~= q.steps@);
}

/// No step of a plan divides by zero: each divisor is at least 2.
pub proof fn lemma_divisors_positive(p: LegendrePlan, l: nat, m: nat)
    requires
        p.describes(l, m),
    ensures
        forall|j: int| 0 <= j < p.steps@.len() ==> (#[trigger] p.steps@[j]).divisor >= 2,
{
    assert forall|j: int| 0 <= j < p.steps@.len() implies (#[trigger] p.steps@[j]).divisor
        >= 2 by {
        assert(p.steps@[j].reaches(m + 2 + j, m as int));
    }
}

} // verus!
