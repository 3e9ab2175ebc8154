use sphericalharmonics::error::Error;
use sphericalharmonics::legendre::{
    diagonal, diagonal_rule, plmcos, tabulated_double_factorial, DiagonalRule, LegendrePlan,
    RecurrenceStep,
};

fn evaluate(plan: &LegendrePlan, sintheta: f64, costheta: f64) -> f64 {
    let d = &plan.diagonal;
    let mut pmm = d.base as f64;
    for f in d.factors.iter() {
        pmm *= *f as f64;
    }
    match d.rule {
        DiagonalRule::Unit => {}
        DiagonalRule::ClosedForm => {
            for _ in 0..d.power {
                pmm *= sintheta;
            }
        }
        DiagonalRule::Tabulated | DiagonalRule::Accumulated => {
            pmm *= sintheta.powf(f64::from(d.power));
        }
    }
    let ascent = match plan.ascent {
        None => return pmm,
        Some(a) => a,
    };
    let mut pm1 = costheta * pmm * ascent as f64;
    for s in plan.steps.iter() {
        let next = (costheta * s.lead as f64 * pm1 - s.trail as f64 * pmm) / f64::from(s.divisor);
        pmm = pm1;
        pm1 = next;
    }
    pm1
}

fn plmcos_value(l: u16, m: u16, sintheta: f64, costheta: f64) -> f64 {
    let plan = plmcos(l, m).expect("plmcos: m > l");
    evaluate(&plan, sintheta, costheta)
}

fn close(a: f64, b: f64, eps: f64) -> bool {
    (a - b).abs() < eps
}

#[test]
fn test_plmcos() {
    let theta: f64 = 2.6;
    let (sintheta, costheta) = (theta.sin(), theta.cos());
    let computed = plmcos_value(4, 4, sintheta, costheta);
    let expected = 105.0 * theta.sin().powf(4.0);
    assert!(close(computed, expected, 1.0e-10));

    let theta: f64 = -0.34;
    let (sintheta, costheta) = (theta.sin(), theta.cos());
    let computed = plmcos_value(3, 2, sintheta, costheta);
    let expected = 15.0 * theta.cos() * theta.sin() * theta.sin();
    assert!(close(computed, expected, 1.0e-10));
}

#[test]
#[should_panic]
fn test_plmcos_panic() {
    let theta: f64 = 2.6;
    let (sintheta, costheta) = (theta.sin(), theta.cos());
    plmcos_value(4, 5, sintheta, costheta);
}

#[test]
fn order_above_degree_is_refused() {
    assert_eq!(plmcos(4, 5), Err(Error::InvalidArgument));
    assert_eq!(plmcos(0, 1), Err(Error::InvalidArgument));
    assert_eq!(plmcos(65534, 65535), Err(Error::InvalidArgument));
    assert!(plmcos(5, 5).is_ok());
    assert!(plmcos(0, 0).is_ok());
}

#[test]
fn tabulated_double_factorials() {
    let expected: [u64; 14] = [
        1,
        1,
        3,
        15,
        105,
        945,
        10395,
        135135,
        2027025,
        34459425,
        654729075,
        13749310575,
        316234143225,
        7905853580625,
    ];
    let mut running: u64 = 1;
    for n in 0..14u32 {
        if n > 0 {
            running *= u64::from(2 * n - 1);
        }
        assert_eq!(tabulated_double_factorial(n), expected[n as usize]);
        assert_eq!(tabulated_double_factorial(n), running);
    }
}

#[test]
fn diagonal_rules_by_order() {
    assert_eq!(diagonal_rule(0), DiagonalRule::Unit);
    assert_eq!(diagonal_rule(1), DiagonalRule::ClosedForm);
    assert_eq!(diagonal_rule(4), DiagonalRule::ClosedForm);
    assert_eq!(diagonal_rule(5), DiagonalRule::Tabulated);
    assert_eq!(diagonal_rule(13), DiagonalRule::Tabulated);
    assert_eq!(diagonal_rule(14), DiagonalRule::Accumulated);
    assert_eq!(diagonal_rule(u32::MAX), DiagonalRule::Accumulated);
}

#[test]
fn diagonal_within_the_table() {
    let d = diagonal(0);
    assert_eq!((d.rule, d.base, d.power), (DiagonalRule::Unit, 1, 0));
    assert!(d.factors.is_empty());
    let d = diagonal(4);
    assert_eq!((d.rule, d.base, d.power), (DiagonalRule::ClosedForm, 105, 4));
    assert!(d.factors.is_empty());
    let d = diagonal(13);
    assert_eq!((d.rule, d.base, d.power), (DiagonalRule::Tabulated, 7905853580625, 13));
    assert!(d.factors.is_empty());
}

#[test]
fn diagonal_beyond_the_table() {
    let d = diagonal(14);
    assert_eq!((d.rule, d.base, d.power), (DiagonalRule::Accumulated, 7905853580625, 14));
    assert_eq!(d.factors, vec![27]);
    let d = diagonal(17);
    assert_eq!(d.base, 7905853580625);
    assert_eq!(d.factors, vec![27, 29, 31, 33]);
    assert_eq!(d.power, 17);
    let coefficient: u64 = d.factors.iter().fold(d.base, |acc, f| acc * f);
    assert_eq!(coefficient, 6332659870762850625);
}

#[test]
fn diagonal_plan_has_no_steps() {
    for l in 0..40u16 {
        let plan = plmcos(l, l).unwrap();
        assert_eq!(plan.ascent, None);
        assert!(plan.steps.is_empty());
        assert_eq!(plan.diagonal.power, u32::from(l));
        let mut expected: f64 = 1.0;
        for n in 1..=u32::from(l) {
            expected *= f64::from(2 * n - 1);
        }
        let mut coefficient = plan.diagonal.base as f64;
        for f in plan.diagonal.factors.iter() {
            coefficient *= *f as f64;
        }
        assert_eq!(coefficient, expected);
    }
}

#[test]
fn diagonal_value_ignores_the_cosine() {
    let sintheta: f64 = 0.6;
    for l in [0u16, 1, 2, 3, 4, 5, 9, 13, 14, 20] {
        let first = plmcos_value(l, l, sintheta, 0.8);
        let second = plmcos_value(l, l, sintheta, -0.25);
        assert_eq!(first.to_bits(), second.to_bits());
        let mut coefficient: f64 = 1.0;
        for n in 1..=u32::from(l) {
            coefficient *= f64::from(2 * n - 1);
        }
        let expected = coefficient * sintheta.powi(i32::from(l));
        assert!(close(first / expected, 1.0, 1.0e-12));
    }
}

#[test]
fn large_order_keeps_the_power_of_the_sine() {
    let theta: f64 = 1.1;
    let computed = plmcos_value(15, 15, theta.sin(), theta.cos());
    let expected = 7905853580625.0 * 27.0 * 29.0 * theta.sin().powf(15.0);
    assert!(close(computed / expected, 1.0, 1.0e-12));
}

#[test]
fn first_step_off_the_diagonal() {
    let plan = plmcos(3, 2).unwrap();
    assert_eq!(plan.ascent, Some(5));
    assert!(plan.steps.is_empty());
    let plan = plmcos(1, 0).unwrap();
    assert_eq!(plan.ascent, Some(1));
    assert!(plan.steps.is_empty());
}

#[test]
fn recurrence_steps_exact() {
    let plan = plmcos(5, 2).unwrap();
    assert_eq!(plan.ascent, Some(5));
    assert_eq!(
        plan.steps,
        vec![
            RecurrenceStep { degree: 4, lead: 7, trail: 5, divisor: 2 },
            RecurrenceStep { degree: 5, lead: 9, trail: 6, divisor: 3 },
        ]
    );
    let plan = plmcos(65535, 65533).unwrap();
    assert_eq!(plan.ascent, Some(131067));
    assert_eq!(
        plan.steps,
        vec![RecurrenceStep { degree: 65535, lead: 131069, trail: 131067, divisor: 2 }]
    );
}

#[test]
fn legendre_polynomials_of_low_degree() {
    for theta in [0.3f64, 1.2, 2.6, -0.34] {
        let (s, c) = (theta.sin(), theta.cos());
        assert!(close(plmcos_value(0, 0, s, c), 1.0, 1.0e-12));
        assert!(close(plmcos_value(1, 0, s, c), c, 1.0e-12));
        assert!(close(plmcos_value(2, 0, s, c), 0.5 * (3.0 * c * c - 1.0), 1.0e-12));
        assert!(close(plmcos_value(3, 0, s, c), 0.5 * (5.0 * c * c * c - 3.0 * c), 1.0e-12));
        assert!(close(plmcos_value(2, 1, s, c), 3.0 * c * s, 1.0e-12));
        assert!(close(plmcos_value(3, 1, s, c), 1.5 * (5.0 * c * c - 1.0) * s, 1.0e-12));
    }
}

#[test]
fn plans_repeat() {
    for (l, m) in [(0u16, 0u16), (3, 2), (20, 15), (40, 0)] {
        assert_eq!(plmcos(l, m), plmcos(l, m));
    }
    assert_eq!(plmcos(2, 3), plmcos(2, 3));
}
