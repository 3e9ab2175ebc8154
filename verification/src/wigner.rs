use crate::error::Error;
use crate::parity::{is_odd, odd};
use vstd::prelude::*;

verus! {

/// The first index of the sum for `d^l_{km}`: `max(0, -m - k)`.
pub open spec fn lower_index(k: int, m: int) -> int {
    if -m - k > 0 {
        -m - k
    } else {
        0
    }
}

/// The last index of the sum for `d^l_{km}`: `min(l - k, l - m)`.
pub open spec fn upper_index(l: int, k: int, m: int) -> int {
    if l - m > l - k {
        l - k
    } else {
        l - m
    }
}

/// The orders `k` and `m` are admissible for the degree `l`.
pub open spec fn admissible(l: int, k: int, m: int) -> bool {
    -l <= k <= l && -l <= m <= l
}

/// One term of the sum for `d^l_{km}`:
/// `sign * C(first_upper, first_lower) * C(second_upper, second_lower)
///  * cos(angle / 2)^cos_power * sin(angle / 2)^sin_power`,
/// where `C` is the binomial coefficient and `sign` is `-1` where `negative`
/// is set.
#[derive(Clone, Copy, Debug, PartialEq, Eq, Structural)]
pub struct WignerTerm {
    pub index: i64,
    pub first_upper: i64,
    pub first_lower: i64,
    pub second_upper: i64,
    pub second_lower: i64,
    pub cos_power: i64,
    pub sin_power: i64,
    pub negative: bool,
}

impl WignerTerm {
    /// This is the term of index `r` in the sum for `d^l_{km}`.
    pub open spec fn is_term(&self, l: int, k: int, m: int, r: int) -> bool {
        &&& self.index == r
        &&& self.first_upper == l + m
        &&& self.first_lower == l - k - r
        &&& self.second_upper == l - m
        &&& self.second_lower == r
        &&& self.cos_power == k + m + 2 * r
        &&& self.sin_power == 2 * l - m - k - 2 * r
        &&& self.negative == odd(l - m - r)
    }
}

/// Two arguments of the logarithm of the factorial.
#[derive(Clone, Copy, Debug, PartialEq, Eq, Structural)]
pub struct FactorialPair {
    pub first: i64,
    pub second: i64,
}

/// What an evaluator of `d^l_{km}(angle)` carries out: the sum of the terms,
/// times the exponential of half of
/// `lnfac(gain.first) + lnfac(gain.second) - lnfac(loss.first) - lnfac(loss.second)`.
#[derive(Debug, PartialEq, Eq)]
pub struct WignerPlan {
    pub gain: FactorialPair,
    pub loss: FactorialPair,
    pub terms: Vec<WignerTerm>,
}

impl WignerPlan {
    /// This is the plan for `d^l_{km}`: the factorials of `l + k` and `l - k`
    /// over those of `l + m` and `l - m`, and one term for each index from
    /// the first to the last, in rising order.
    pub open spec fn describes(&self, l: int, k: int, m: int) -> bool {
        &&& admissible(l, k, m)
        &&& self.gain.first == l + k
        &&& self.gain.second == l - k
        &&& self.loss.first == l + m
        &&& self.loss.second == l - m
        &&& self.terms@.len() == upper_index(l, k, m) - lower_index(k, m) + 1
        &&& forall|j: int|
            0 <= j < self.terms@.len() ==> (#[trigger] self.terms@[j]).is_term(
                l,
                k,
                m,
                lower_index(k, m) + j,
            )
    }
}

/// The term of index `r` in the sum for `d^l_{km}`.
pub fn wigner_term(l: u32, k: i32, m: i32, r: i64) -> (term: WignerTerm)
    requires
        admissible(l as int, k as int, m as int),
        lower_index(k as int, m as int) <= r <= upper_index(l as int, k as int, m as int),
    ensures
        term.is_term(l as int, k as int, m as int, r as int),
{
    let l: i64 = l as i64;
    let k: i64 = k as i64;
    let m: i64 = m as i64;
    WignerTerm {
        index: r,
        first_upper: l + m,
        first_lower: l - k - r,
        second_upper: l - m,
        second_lower: r,
        cos_power: k + m + 2 * r,
        sin_power: 2 * l - m - k - 2 * r,
        negative: is_odd(l - m - r),
    }
}

/// The plan for `d^l_{km}(angle)`, with `|k| <= l` and `|m| <= l`. An order
/// outside that range is refused.
pub fn dlkm(l: u32, k: i32, m: i32) -> (r: Result<WignerPlan, Error>)
    ensures
        r is Err <==> !admissible(l as int, k as int, m as int),
        r matches Err(e) ==> e == Error::InvalidArgument,
        r matches Ok(p) ==> p.describes(l as int, k as int, m as int),
{
    let wide_l: i64 = l as i64;
    let wide_k: i64 = k as i64;
    let wide_m: i64 = m as i64;
    if wide_k > wide_l || wide_k < -wide_l || wide_m > wide_l || wide_m < -wide_l {
        return Err(Error::InvalidArgument);
    }
    let lower: i64 = if -wide_m - wide_k > 0 {
        -wide_m - wide_k
    } else {
        0
    };
    let upper: i64 = if wide_l - wide_m > wide_l - wide_k {
        wide_l - wide_k
    } else {
        wide_l - wide_m
    };
    let mut terms: Vec<WignerTerm> = Vec::new();
    let mut r: i64 = lower;
    while r <= upper
        invariant
            admissible(l as int, k as int, m as int),
            lower == lower_index(k as int, m as int),
            upper == upper_index(l as int, k as int, m as int),
            lower <= r <= upper + 1,
            terms@.len() == r - lower,
            forall|j: int|
                0 <= j < terms@.len() ==> (#[trigger] terms@[j]).is_term(
                    l as int,
                    k as int,
                    m as int,
                    lower + j,
                ),
        decreases upper + 1 - r,
    {
        terms.push(wigner_term(l, k, m, r));
        r = r + 1;
    }
    Ok(
        WignerPlan {
            gain: FactorialPair { first: wide_l + wide_k, second: wide_l - wide_k },
            loss: FactorialPair { first: wide_l + wide_m, second: wide_l - wide_m },
            terms,
        },
    )
}

/// The plan of a degree and two orders is determined: two plans that
/// describe the same triple hold the same values throughout.
pub proof fn lemma_plan_determined(p: WignerPlan, q: WignerPlan, l: int, k: int, m: int)
    requires
        p.describes(l, k, m),
        q.describes(l, k, m),
    ensures
        p.gain == q.gain,
        p.loss == q.loss,
        p.terms@ == q.terms@,
{
    assert forall|j: int| 0 <= j < p.terms@.len() implies p.terms@[j] == q.terms@[j] by {
        assert(p.terms@[j].is_term(l, k, m, lower_index(k, m) + j));
        assert(q.terms@[j].is_term(l, k, m, lower_index(k, m) + j));
    }
    assert(p.terms@ =~= q.terms@);
}

/// Every plan is well formed: no factorial is taken of a negative number;
/// the sum has at least one term; and in every term both binomial
/// coefficients choose between nothing and everything, no power is negative,
/// and the two powers add up to `2l`.
pub proof fn lemma_terms_well_formed(p: WignerPlan, l: int, k: int, m: int)
    requires
        p.describes(l, k, m),
    ensures
        p.gain.first >= 0 && p.gain.second >= 0,
        p.loss.first >= 0 && p.loss.second >= 0,
        p.terms@.len() >= 1,
        forall|j: int|
            0 <= j < p.terms@.len() ==> {
                let t = #[trigger] p.terms@[j];
                &&& 0 <= t.first_lower <= t.first_upper
                &&& 0 <= t.second_lower <= t.second_upper
                &&& 0 <= t.cos_power
                &&& 0 <= t.sin_power
                &&& t.cos_power + t.sin_power == 2 * l
            },
{
    assert forall|j: int| 0 <= j < p.terms@.len() implies {
        let t = #[trigger] p.terms@[j];
        &&& 0 <= t.first_lower <= t.first_upper
        &&& 0 <= t.second_lower <= t.second_upper
        &&& 0 <= t.cos_power
        &&& 0 <= t.sin_power
        &&& t.cos_power + t.sin_power == 2 * l
    } by {
        assert(p.terms@[j].is_term(l, k, m, lower_index(k, m) + j));
    }
}

/// At the identity rotation the sine of the half angle vanishes, and a term
/// survives only where its power of the sine is zero. For `k != m` no term
/// has that power. For `k == m` exactly the last term has it; there both
/// binomial coefficients are 1, the sign is positive and the cosine carries
/// the power `2l`, and the factorials of the prefactor cancel.
pub proof fn lemma_identity_rotation(p: WignerPlan, l: int, k: int, m: int)
    requires
        p.describes(l, k, m),
    ensures
        forall|j: int|
            0 <= j < p.terms@.len() ==> ((#[trigger] p.terms@[j]).sin_power == 0 <==> k == m && j
                == p.terms@.len() - 1),
        k == m ==> {
            let t = p.terms@[p.terms@.len() - 1];
            &&& t.first_lower == 0
            &&& t.second_lower == t.second_upper
            &&& t.cos_power == 2 * l
            &&& !t.negative
            &&& p.gain == p.loss
        },
{
    assert forall|j: int| 0 <= j < p.terms@.len() implies ((#[trigger] p.terms@[j]).sin_power == 0
        <==> k == m && j == p.terms@.len() - 1) by {
        assert(p.terms@[j].is_term(l, k, m, lower_index(k, m) + j));
    }
    if k == m {
        let last = p.terms@.len() - 1;
        assert(p.terms@[last].is_term(l, k, m, lower_index(k, m) + last));
    }
}

/// For `k = m = 0` the sum is that of the Legendre polynomial of degree `l`
/// in the half angle: it runs over `r = 0, ..., l`, its term of index `r` is
/// `(-1)^(l - r) C(l, r)^2 cos(angle / 2)^(2r) sin(angle / 2)^(2l - 2r)`
/// (with `C(l, l - r)` written for one of the two equal coefficients), and
/// the factorials of the prefactor cancel.
pub proof fn lemma_zero_orders(p: WignerPlan, l: int)
    requires
        p.describes(l, 0, 0),
    ensures
        p.terms@.len() == l + 1,
        p.gain == p.loss,
        forall|r: int|
            0 <= r <= l ==> {
                let t = #[trigger] p.terms@[r];
                &&& t.first_upper == l
                &&& t.first_lower == l - r
                &&& t.second_upper == l
                &&& t.second_lower == r
                &&& t.cos_power == 2 * r
                &&& t.sin_power == 2 * l - 2 * r
                &&& t.negative == odd(l - r)
            },
{
    assert forall|r: int| 0 <= r <= l implies {
        let t = #[trigger] p.terms@[r];
        &&& t.first_upper == l
        &&& t.first_lower == l - r
        &&& t.second_upper == l
        &&& t.second_lower == r
        &&& t.cos_power == 2 * r
        &&& t.sin_power == 2 * l - 2 * r
        &&& t.negative == odd(l - r)
    } by {
        assert(p.terms@[r].is_term(l, 0, 0, lower_index(0, 0) + r));
    }
}

} // verus!
