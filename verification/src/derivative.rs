use crate::error::Error;
use crate::legendre::{lemma_plan_determined, plan_for, LegendrePlan};
use vstd::prelude::*;

verus! {

/// What an evaluator of the first derivative of `P_l^m(cos t)` with respect
/// to `t` carries out:
/// `(-current_weight cos(t) P_l^m + next_weight P_{l+1}^m) / sin(t)`,
/// with `current` the plan for `P_l^m` and `next` that for `P_{l+1}^m`.
///
/// The plan does not depend on the angle. Where `sin(t)` is zero the formula
/// divides by zero: it is meant for the other angles only.
#[derive(Debug, PartialEq, Eq)]
pub struct FirstDerivativePlan {
    pub current: LegendrePlan,
    pub next: LegendrePlan,
    pub current_weight: u32,
    pub next_weight: u32,
}

impl FirstDerivativePlan {
    /// This is the plan for degree `l` and order `m`:
    /// `current_weight = l + 1` and `next_weight = l - m + 1`.
    pub open spec fn describes(&self, l: nat, m: nat) -> bool {
        &&& self.current.describes(l, m)
        &&& self.next.describes(l + 1, m)
        &&& self.current_weight == l + 1
        &&& self.next_weight == l - m + 1
    }
}

/// What an evaluator of the second derivative of `P_l^m(cos t)` with respect
/// to `t` carries out, with `c = cos(t)` and `s = sin(t)`:
/// `degree_up (1 + degree_up_two c^2 / s^2) P_l^m
///  - 2 gap_up degree_up_two c / s^2 P_{l+1}^m
///  + gap_up gap_up_two / s^2 P_{l+2}^m`,
/// with `current`, `next` and `second` the plans for the three functions.
///
/// The plan does not depend on the angle. Where `sin(t)` is zero the formula
/// divides by zero: it is meant for the other angles only.
#[derive(Debug, PartialEq, Eq)]
pub struct SecondDerivativePlan {
    pub current: LegendrePlan,
    pub next: LegendrePlan,
    pub second: LegendrePlan,
    pub degree_up: u32,
    pub degree_up_two: u32,
    pub gap_up: u32,
    pub gap_up_two: u32,
}

impl SecondDerivativePlan {
    /// This is the plan for degree `l` and order `m`: `degree_up = l + 1`,
    /// `degree_up_two = l + 2`, `gap_up = l - m + 1`, `gap_up_two = l - m + 2`.
    pub open spec fn describes(&self, l: nat, m: nat) -> bool {
        &&& self.current.describes(l, m)
        &&& self.next.describes(l + 1, m)
        &&& self.second.describes(l + 2, m)
        &&& self.degree_up == l + 1
        &&& self.degree_up_two == l + 2
        &&& self.gap_up == l - m + 1
        &&& self.gap_up_two == l - m + 2
    }
}

/// The plan for the first derivative of `P_l^m(cos t)` with respect to `t`,
/// with `0 <= m <= l`. An order above the degree is refused.
pub fn deriv1_plmcos_dtheta(l: u16, m: u16) -> (r: Result<FirstDerivativePlan, Error>)
    ensures
        r is Err <==> m > l,
        r matches Err(e) ==> e == Error::InvalidArgument,
        r matches Ok(p) ==> p.describes(l as nat, m as nat),
{
    let degree: u32 = l as u32;
    let order: u32 = m as u32;
    let current = match plan_for(degree, order) {
        Ok(plan) => plan,
        Err(e) => {
            return Err(e);
        },
    };
    let next = match plan_for(degree + 1, order) {
        Ok(plan) => plan,
        Err(e) => {
            return Err(e);
        },
    };
    Ok(
        FirstDerivativePlan {
            current,
            next,
            current_weight: degree + 1,
            next_weight: degree - order + 1,
        },
    )
}

/// The plan for the second derivative of `P_l^m(cos t)` with respect to `t`,
/// with `0 <= m <= l`. An order above the degree is refused.
pub fn deriv2_plmcos_dtheta(l: u16, m: u16) -> (r: Result<SecondDerivativePlan, Error>)
    ensures
        r is Err <==> m > l,
        r matches Err(e) ==> e == Error::InvalidArgument,
        r matches Ok(p) ==> p.describes(l as nat, m as nat),
{
    let degree: u32 = l as u32;
    let order: u32 = m as u32;
    let current = match plan_for(degree, order) {
        Ok(plan) => plan,
        Err(e) => {
            return Err(e);
        },
    };
    let next = match plan_for(degree + 1, order) {
        Ok(plan) => plan,
        Err(e) => {
            return Err(e);
        },
    };
    let second = match plan_for(degree + 2, order) {
        Ok(plan) => plan,
        Err(e) => {
            return Err(e);
        },
    };
    Ok(
        SecondDerivativePlan {
            current,
            next,
            second,
            degree_up: degree + 1,
            degree_up_two: degree + 2,
            gap_up: degree - order + 1,
            gap_up_two: degree - order + 2,
        },
    )
}

/// The plan of a first derivative is determined: two plans that describe the
/// same degree and order hold the same weights and the same Legendre plans.
pub proof fn lemma_first_determined(p: FirstDerivativePlan, q: FirstDerivativePlan, l: nat, m: nat)
    requires
        p.describes(l, m),
        q.describes(l, m),
    ensures
        p.current_weight == q.current_weight,
        p.next_weight == q.next_weight,
        p.current.same_as(q.current),
        p.next.same_as(q.next),
{
    lemma_plan_determined(p.current, q.current, l, m);
    lemma_plan_determined(p.next, q.next, l + 1, m);
}

/// The plan of a second derivative is determined: two plans that describe
/// the same degree and order hold the same weights and the same Legendre
/// plans.
pub proof fn lemma_second_determined(
    p: SecondDerivativePlan,
    q: SecondDerivativePlan,
    l: nat,
    m: nat,
)
    requires
        p.describes(l, m),
        q.describes(l, m),
    ensures
        p.degree_up == q.degree_up,
        p.degree_up_two == q.degree_up_two,
        p.gap_up == q.gap_up,
        p.gap_up_two == q.gap_up_two,
        p.current.same_as(q.current),
        p.next.same_as(q.next),
        p.second.same_as(q.second),
{
    lemma_plan_determined(p.current, q.current, l, m);
    lemma_plan_determined(p.next, q.next, l + 1, m);
    lemma_plan_determined(p.second, q.second, l + 2, m);
}

} // verus!
