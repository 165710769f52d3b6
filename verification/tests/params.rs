use curvy::curve::{Curve, CurveParams, MAX_Y_CNT};
use curvy::decimal::{Decimal, MathError, DECIMAL_UNIT};
use curvy::error::{CurvyError, InvalidParamsReason};
use curvy::utils::{bytes_eq, str_to_array};

fn params(x0: u32, x_step: u32, y_count: u8, decimals: u8) -> CurveParams {
    CurveParams {
        name: str_to_array("n", 16),
        formula: str_to_array("f", 16),
        x0,
        x_step,
        y_count,
        decimals,
        y: vec![0u32; MAX_Y_CNT],
    }
}

#[test]
fn validator_accepts_sound_geometry() {
    assert!(Curve::check_params(&params(0, 2, 5, 2)).is_ok());
    assert!(Curve::check_params(&params(u32::MAX - 4, 2, 3, 9)).is_ok());
}

#[test]
fn validator_rejects_zero_step() {
    assert_eq!(
        Curve::check_params(&params(0, 0, 5, 2)),
        Err(CurvyError::InvalidParams(InvalidParamsReason::ZeroStep))
    );
}

#[test]
fn validator_rejects_zero_count() {
    assert_eq!(
        Curve::check_params(&params(0, 2, 0, 2)),
        Err(CurvyError::InvalidParams(InvalidParamsReason::ZeroCount))
    );
}

#[test]
fn validator_rejects_large_decimals() {
    assert_eq!(
        Curve::check_params(&params(0, 2, 5, 10)),
        Err(CurvyError::InvalidParams(
            InvalidParamsReason::DecimalsTooLarge
        ))
    );
}

#[test]
fn validator_rejects_unrepresentable_max_x() {
    // x0 + x_step * (y_count - 1) = u32::MAX + 1
    assert_eq!(
        Curve::check_params(&params(u32::MAX - 3, 2, 3, 2)),
        Err(CurvyError::InvalidParams(InvalidParamsReason::MaxXTooLarge))
    );
}

#[test]
fn validator_rejects_degenerate_range() {
    // a single sample does not advance past x0
    assert_eq!(
        Curve::check_params(&params(5, 2, 1, 2)),
        Err(CurvyError::InvalidParams(
            InvalidParamsReason::DegenerateRange
        ))
    );
}

#[test]
fn curve_params_new_pads_labels() {
    let p = CurveParams::new("test curve", "y=f(x)", 1, 2, 5, 6, vec![0u32; MAX_Y_CNT]);
    assert_eq!(&p.name[0..10], b"test curve");
    assert_eq!(&p.name[10..], &[0u8; 6]);
    assert_eq!(&p.formula[0..6], b"y=f(x)");
    assert_eq!((p.x0, p.x_step, p.y_count, p.decimals), (1, 2, 5, 6));
    assert_eq!(p.y.len(), MAX_Y_CNT);
}

#[test]
fn record_reports_tag_and_version() {
    let record = Curve::from_init_params(&params(0, 2, 5, 2), &vec![0u8; 32]);
    assert_eq!(record.discriminator().as_slice(), b"CURVE___");
    assert_eq!(record.version(), 1);
}

#[test]
fn str_to_array_zero_pads() {
    let a = str_to_array("abc", 16);
    assert_eq!(a.len(), 16);
    assert_eq!(&a[0..3], b"abc");
    assert_eq!(&a[3..], &[0u8; 13]);
}

#[test]
fn bytes_eq_compares_contents() {
    assert!(bytes_eq(&vec![1, 2, 3], &vec![1, 2, 3]));
    assert!(!bytes_eq(&vec![1, 2, 3], &vec![1, 2, 4]));
    assert!(!bytes_eq(&vec![1, 2], &vec![1, 2, 3]));
}

#[test]
fn set_params_keeps_owner() {
    let mut owner = vec![0u8; 32];
    owner[0] = 7;
    let mut record = Curve::from_init_params(&params(0, 2, 5, 2), &owner);
    record.set_params(&params(1, 3, 4, 6));
    assert_eq!(record.owner, owner);
    assert_eq!(record.x0, 1);
    assert_eq!(record.x_step, 3);
    assert_eq!(record.y_count, 4);
    assert_eq!(record.decimals, 6);
    assert_eq!(record.version, 1);
}

#[test]
fn decimal_from_scale_is_exact() {
    let d = Decimal::from_i128_with_scale(250, 2).unwrap();
    assert_eq!(d.units, 250 * DECIMAL_UNIT / 100);
    let d = Decimal::from_i128_with_scale(-1, 2).unwrap();
    assert_eq!(d.units, -(DECIMAL_UNIT / 100));
    assert_eq!(
        Decimal::from_i128_with_scale(1, 13),
        Err(MathError::ScaleTooLarge)
    );
    assert_eq!(
        Decimal::from_i128_with_scale(i128::MAX, 0),
        Err(MathError::Overflow)
    );
}

#[test]
fn decimal_arithmetic_is_checked_and_truncating() {
    let a = Decimal::from_i128_with_scale(15, 1).unwrap();
    let b = Decimal::from_i128_with_scale(15, 1).unwrap();
    // 1.5 * 1.5 = 2.25
    assert_eq!(
        a.checked_mul(&b).unwrap(),
        Decimal::from_i128_with_scale(225, 2).unwrap()
    );
    // 1 / 3 truncates toward zero at twelve digits
    let one = Decimal::from_i128_with_scale(1, 0).unwrap();
    let three = Decimal::from_i128_with_scale(3, 0).unwrap();
    assert_eq!(one.checked_div(&three).unwrap().units, 333_333_333_333);
    // addition and subtraction
    assert_eq!(
        a.checked_add(&b).unwrap(),
        Decimal::from_i128_with_scale(3, 0).unwrap()
    );
    assert_eq!(a.checked_sub(&b).unwrap(), Decimal::zero());
    // division by zero is refused
    assert_eq!(
        one.checked_div(&Decimal::zero()),
        Err(MathError::DivisionByZero)
    );
    // overflow is an error, never a wrap
    let big = Decimal { units: i128::MAX };
    assert_eq!(big.checked_add(&one), Err(MathError::Overflow));
    assert_eq!(big.checked_mul(&big), Err(MathError::Overflow));
}

#[test]
fn decimal_pow_and_floor() {
    let ten = Decimal::from_i128_with_scale(10, 0).unwrap();
    assert_eq!(
        ten.checked_pow(3).unwrap(),
        Decimal::from_i128_with_scale(1000, 0).unwrap()
    );
    assert_eq!(ten.checked_pow(0).unwrap(), Decimal::from_i128_with_scale(1, 0).unwrap());
    let d = Decimal::from_i128_with_scale(73, 1).unwrap();
    assert_eq!(d.floor().unwrap(), 7);
    let neg = Decimal::from_i128_with_scale(-1, 0).unwrap();
    assert_eq!(neg.floor(), Err(MathError::OutOfRange));
}
