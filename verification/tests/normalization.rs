use sphericalharmonics::error::Error;
use sphericalharmonics::normalization::{
    condon_shortley_negative, factorial_ratio_factors, tabulated_magnitude, ylmnorm, Decimal,
    Magnitude, NormalizationPlan, DECIMAL_SCALE, INV_FOUR_PI_UNITS,
};

fn decimal(d: Decimal) -> f64 {
    d.units as f64 / DECIMAL_SCALE as f64
}

fn evaluate(plan: &NormalizationPlan) -> f64 {
    let magnitude = match &plan.magnitude {
        Magnitude::Tabulated { value } => decimal(*value),
        Magnitude::Computed { inv_four_pi, weight, factors } => {
            let mut fac_division: f64 = 1.0;
            if !factors.is_empty() {
                for f in factors.iter() {
                    fac_division *= *f as f64;
                }
                fac_division = 1.0 / fac_division;
            }
            (decimal(*inv_four_pi) * f64::from(*weight) * fac_division).sqrt()
        }
    };
    if plan.negate {
        -magnitude
    } else {
        magnitude
    }
}

fn ylmnorm_value(l: u16, m: i16) -> f64 {
    evaluate(&ylmnorm(l, m).expect("ylmnorm: |m| > l"))
}

fn close(a: f64, b: f64, eps: f64) -> bool {
    (a - b).abs() < eps
}

#[test]
fn constant_of_degree_zero() {
    assert!(close(ylmnorm_value(0, 0), 0.282094792, 1.0e-12));
    let exact = 1.0 / (4.0 * std::f64::consts::PI).sqrt();
    assert!(close(ylmnorm_value(0, 0), exact, 1.0e-9));
}

#[test]
fn phase_of_degree_one() {
    assert!(close(ylmnorm_value(1, 1), -0.345494149, 1.0e-12));
    assert!(close(ylmnorm_value(1, -1), 0.345494149, 1.0e-12));
    assert!(close(ylmnorm_value(1, 0), 0.488602512, 1.0e-12));
}

#[test]
fn decimals_convert_exactly() {
    assert_eq!(decimal(tabulated_magnitude(0, 0)).to_bits(), 0.282094792f64.to_bits());
    assert_eq!(decimal(tabulated_magnitude(3, 2)).to_bits(), 0.0681323651f64.to_bits());
    assert_eq!(decimal(tabulated_magnitude(4, 4)).to_bits(), 0.00421459707f64.to_bits());
    assert_eq!(decimal(Decimal { units: INV_FOUR_PI_UNITS }).to_bits(), 0.07957747155f64.to_bits());
}

#[test]
fn table_entries() {
    let expected: [[f64; 5]; 5] = [
        [0.282094792, 0.0, 0.0, 0.0, 0.0],
        [0.488602512, 0.345494149, 0.0, 0.0, 0.0],
        [0.630783131, 0.257516135, 0.128758067, 0.0, 0.0],
        [0.746352665, 0.215453456, 0.0681323651, 0.0278149216, 0.0],
        [0.846284375, 0.189234939, 0.0446031029, 0.0119206807, 0.00421459707],
    ];
    for l in 0..=4u16 {
        for a in 0..=l {
            let value = decimal(tabulated_magnitude(l, a));
            assert_eq!(value.to_bits(), expected[l as usize][a as usize].to_bits());
        }
    }
}

#[test]
fn phase_by_order() {
    assert!(!condon_shortley_negative(0));
    assert!(condon_shortley_negative(1));
    assert!(!condon_shortley_negative(2));
    assert!(condon_shortley_negative(3));
    assert!(!condon_shortley_negative(-1));
    assert!(!condon_shortley_negative(-2));
    assert!(!condon_shortley_negative(-3));
    assert!(condon_shortley_negative(i16::MAX));
    assert!(!condon_shortley_negative(i16::MIN));
}

#[test]
fn table_agrees_with_the_general_formula() {
    for l in 0..=4u16 {
        for a in 0..=l {
            let tabulated = decimal(tabulated_magnitude(l, a));
            let mut product: f64 = 1.0;
            for f in factorial_ratio_factors(l, a) {
                product *= f as f64;
            }
            let inv_four_pi = decimal(Decimal { units: INV_FOUR_PI_UNITS });
            let computed = (inv_four_pi * f64::from(2 * l + 1) / product).sqrt();
            assert!(close(tabulated / computed, 1.0, 1.0e-8));
        }
    }
}

#[test]
fn factors_of_the_ratio() {
    assert_eq!(factorial_ratio_factors(6, 2), vec![5, 6, 7, 8]);
    assert_eq!(factorial_ratio_factors(5, 5), vec![1, 2, 3, 4, 5, 6, 7, 8, 9, 10]);
    assert!(factorial_ratio_factors(9, 0).is_empty());
    assert_eq!(factorial_ratio_factors(65535, 1), vec![65535, 65536]);
}

#[test]
fn computed_plan_exact() {
    let plan = ylmnorm(6, -2).unwrap();
    assert!(!plan.negate);
    assert_eq!(
        plan.magnitude,
        Magnitude::Computed {
            inv_four_pi: Decimal { units: 7_957_747_155 },
            weight: 13,
            factors: vec![5, 6, 7, 8],
        }
    );
    let plan = ylmnorm(7, 3).unwrap();
    assert!(plan.negate);
    assert_eq!(
        plan.magnitude,
        Magnitude::Computed {
            inv_four_pi: Decimal { units: 7_957_747_155 },
            weight: 15,
            factors: vec![5, 6, 7, 8, 9, 10],
        }
    );
}

#[test]
fn tabulated_plan_exact() {
    let plan = ylmnorm(4, -3).unwrap();
    assert!(!plan.negate);
    assert_eq!(plan.magnitude, Magnitude::Tabulated { value: Decimal { units: 1_192_068_070 } });
    let plan = ylmnorm(4, 3).unwrap();
    assert!(plan.negate);
    assert_eq!(plan.magnitude, Magnitude::Tabulated { value: Decimal { units: 1_192_068_070 } });
}

#[test]
fn general_formula_values() {
    let pi = std::f64::consts::PI;
    assert!(close(ylmnorm_value(5, 0), (11.0 / (4.0 * pi)).sqrt(), 1.0e-9));
    assert!(close(ylmnorm_value(5, 1), -(11.0 / (4.0 * pi) / 30.0).sqrt(), 1.0e-9));
    assert!(close(ylmnorm_value(5, -1), (11.0 / (4.0 * pi) / 30.0).sqrt(), 1.0e-9));
    assert!(close(ylmnorm_value(6, 2), (13.0 / (4.0 * pi) / 1680.0).sqrt(), 1.0e-9));
}

#[test]
fn order_outside_the_degree_is_refused() {
    assert_eq!(ylmnorm(5, 6), Err(Error::InvalidArgument));
    assert_eq!(ylmnorm(5, -6), Err(Error::InvalidArgument));
    assert_eq!(ylmnorm(0, 1), Err(Error::InvalidArgument));
    assert_eq!(ylmnorm(32767, i16::MIN), Err(Error::InvalidArgument));
    assert!(ylmnorm(32768, i16::MIN).is_ok());
    assert!(ylmnorm(5, -5).is_ok());
    assert!(ylmnorm(5, 5).is_ok());
}

#[test]
fn opposite_orders_share_the_magnitude() {
    for l in 0..12u16 {
        for m in 0..=(l as i16) {
            let plus = ylmnorm_value(l, m);
            let minus = ylmnorm_value(l, -m);
            assert_eq!(plus.abs().to_bits(), minus.to_bits());
            assert_eq!(plus < 0.0, m % 2 == 1);
        }
    }
}

#[test]
fn constants_repeat() {
    for (l, m) in [(0u16, 0i16), (4, -3), (7, 3), (30, -29)] {
        assert_eq!(ylmnorm(l, m), ylmnorm(l, m));
        assert_eq!(ylmnorm_value(l, m).to_bits(), ylmnorm_value(l, m).to_bits());
    }
}
