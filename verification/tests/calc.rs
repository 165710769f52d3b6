use curvy::calc::{calc_y, calc_y_raw, calc_y_with_params, CalcError};
use curvy::codec::CURVE_SIZE;
use curvy::curve::{Curve, CurveParams, MAX_Y_CNT};
use curvy::decimal::{Decimal, MathError};
use curvy::error::LayoutError;
use curvy::utils::str_to_array;

fn sample_curve() -> Curve {
    let mut y = vec![0u32; MAX_Y_CNT];
    let samples = [200u32, 300, 400, 700, 1_000_000_000];
    for (i, v) in samples.iter().enumerate() {
        y[i] = *v;
    }
    let params = CurveParams {
        name: str_to_array("test curve", 16),
        formula: str_to_array("y=f(x)", 16),
        x0: 0,
        x_step: 2,
        y_count: samples.len() as u8,
        decimals: 2,
        y,
    };
    Curve::from_init_params(&params, &vec![0u8; 32])
}

#[test]
fn calc() {
    let mut y = vec![0u32; MAX_Y_CNT];
    let samples = [200u32, 300, 400, 700, 1_000_000_000];
    for (i, v) in samples.iter().enumerate() {
        y[i] = *v;
    }

    let x_max = Decimal::from_i128_with_scale(8, 2).unwrap();

    // X range is 0 - 0.08. This is points 0; 0.02; 0.04; 0.06; 0.08;
    let params = CurveParams {
        name: str_to_array("test curve", 16),
        formula: str_to_array("y=f(x)", 16),
        x0: 0,
        x_step: 2,
        y_count: samples.len() as u8,
        decimals: 2,
        y,
    };

    let curve = Curve::from_init_params(&params, &vec![0u8; 32]);

    // check first value of function
    let x = Decimal::zero();
    let res = calc_y(x, &curve).unwrap();
    assert_eq!(
        res,
        Decimal::from_i128_with_scale(200, 2).unwrap(),
        "precounted first value is not matching with function result"
    );

    // check last value of function. X - is like human perceive it i.e. 0.08
    let res = calc_y(x_max, &curve).unwrap();
    assert_eq!(
        res,
        Decimal::from_i128_with_scale(1_000_000_000, 2).unwrap(),
        "precounted last value is not matching with function result"
    );

    // check bound before first. x = -0.01
    let x = Decimal::from_i128_with_scale(-1, 2).unwrap();
    let res = calc_y(x, &curve);
    assert!(res.is_err(), "out of bounds (before first)");

    // check bound after last. x = 0.11
    let x = Decimal::from_i128_with_scale(8 + 1, 2).unwrap();
    let res = calc_y(x, &curve);
    assert!(res.is_err(), "out of bounds (after last)");

    // Value in the middle of X0-X1 should give y = (200+300) / 2
    let x = Decimal::from_i128_with_scale(1, 2).unwrap();
    let res = calc_y(x, &curve).unwrap();
    assert_eq!(res, Decimal::from_i128_with_scale(250, 2).unwrap());

    // Value in the middle of X3-X4 should give y = (700+1_000_000_000) / 2
    let x = Decimal::from_i128_with_scale(7, 2).unwrap();
    let res = calc_y(x, &curve).unwrap();
    assert_eq!(
        res,
        Decimal::from_i128_with_scale((700 + 1_000_000_000) / 2, 2).unwrap()
    );
}

#[test]
fn grid_points_have_no_drift() {
    let curve = sample_curve();
    let expected = [200u32, 300, 400, 700, 1_000_000_000];
    for (i, v) in expected.iter().enumerate() {
        let x = Decimal::from_i128_with_scale(2 * i as i128, 2).unwrap();
        let res = calc_y(x, &curve).unwrap();
        assert_eq!(res, Decimal::from_i128_with_scale(*v as i128, 2).unwrap());
    }
}

#[test]
fn out_of_range_is_range_error() {
    let curve = sample_curve();
    let x = Decimal::from_i128_with_scale(-1, 2).unwrap();
    assert_eq!(calc_y(x, &curve), Err(CalcError::OutOfRange));
    let x = Decimal::from_i128_with_scale(11, 2).unwrap();
    assert_eq!(calc_y(x, &curve), Err(CalcError::OutOfRange));
}

#[test]
fn empty_sample_slice_is_arithmetic_error() {
    let x0 = Decimal::zero();
    let x = Decimal::zero();
    let res = calc_y_with_params(&[], 2, 2, x0, x);
    assert_eq!(res, Err(CalcError::Math(MathError::Overflow)));
}

#[test]
fn full_size_curve_is_supported() {
    // all 130 samples meaningful, at decimals 0
    let mut y = vec![0u32; MAX_Y_CNT];
    for (i, slot) in y.iter_mut().enumerate() {
        *slot = (i as u32) * 3 + 1;
    }
    let params = CurveParams {
        name: str_to_array("big", 16),
        formula: str_to_array("f", 16),
        x0: 10,
        x_step: 5,
        y_count: 130,
        decimals: 0,
        y,
    };
    assert!(curvy::curve::Curve::check_params(&params).is_ok());
    let curve = Curve::from_init_params(&params, &vec![0u8; 32]);
    // last grid point: x = 10 + 129 * 5 = 655
    let x = Decimal::from_i128_with_scale(655, 0).unwrap();
    assert_eq!(
        calc_y(x, &curve).unwrap(),
        Decimal::from_i128_with_scale(129 * 3 + 1, 0).unwrap()
    );
    // one step beyond fails
    let x = Decimal::from_i128_with_scale(656, 0).unwrap();
    assert_eq!(calc_y(x, &curve), Err(CalcError::OutOfRange));
    // two fifths into the first segment: y = 1 + 3 * 0.4
    let x = Decimal::from_i128_with_scale(12, 0).unwrap();
    assert_eq!(
        calc_y(x, &curve).unwrap(),
        Decimal::from_i128_with_scale(22, 1).unwrap()
    );
}

#[test]
fn geometry_at_the_representable_ceiling() {
    let mut y = vec![0u32; MAX_Y_CNT];
    y[0] = 1;
    y[1] = u32::MAX;
    let params = CurveParams {
        name: str_to_array("edge", 16),
        formula: str_to_array("f", 16),
        x0: u32::MAX - 1,
        x_step: 1,
        y_count: 2,
        decimals: 9,
        y,
    };
    assert!(curvy::curve::Curve::check_params(&params).is_ok());
    let curve = Curve::from_init_params(&params, &vec![0u8; 32]);
    let x = Decimal::from_i128_with_scale((u32::MAX - 1) as i128, 9).unwrap();
    assert_eq!(
        calc_y(x, &curve).unwrap(),
        Decimal::from_i128_with_scale(1, 9).unwrap()
    );
    let x = Decimal::from_i128_with_scale(u32::MAX as i128, 9).unwrap();
    assert_eq!(
        calc_y(x, &curve).unwrap(),
        Decimal::from_i128_with_scale(u32::MAX as i128, 9).unwrap()
    );
}

#[test]
fn calc_y_raw_reads_encoded_record() {
    let curve = sample_curve();
    let bytes = curve.to_bytes();
    assert_eq!(bytes.len(), CURVE_SIZE);
    let x = Decimal::from_i128_with_scale(1, 2).unwrap();
    let res = calc_y_raw(x, &bytes).unwrap();
    assert_eq!(res, Decimal::from_i128_with_scale(250, 2).unwrap());
}

#[test]
fn calc_y_raw_rejects_malformed_bytes() {
    let x = Decimal::zero();
    assert_eq!(
        calc_y_raw(x, &[0u8; 10]),
        Err(CalcError::Record(LayoutError::Size))
    );
    let mut curve = sample_curve();
    curve.y_count = 200;
    let bytes = curve.to_bytes();
    assert_eq!(
        calc_y_raw(x, &bytes),
        Err(CalcError::Record(LayoutError::SampleCount))
    );
}
