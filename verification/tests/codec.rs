use curvy::codec::CURVE_SIZE;
use curvy::curve::{Curve, CurveParams, MAX_Y_CNT};
use curvy::error::{CurvyError, LayoutError};
use curvy::instruction::{CurvyInstruction, PARAMS_SIZE};
use curvy::utils::str_to_array;

fn sample_params() -> CurveParams {
    let mut y = vec![0u32; MAX_Y_CNT];
    y[0] = 11;
    y[1] = 22;
    y[2] = 4_000_000_000;
    CurveParams {
        name: str_to_array("round trip", 16),
        formula: str_to_array("f", 16),
        x0: 5,
        x_step: 7,
        y_count: 3,
        decimals: 4,
        y,
    }
}

fn owner_key() -> Vec<u8> {
    let mut k = vec![0u8; 32];
    k[0] = 9;
    k[31] = 1;
    k
}

#[test]
fn record_round_trip_is_identity() {
    let record = Curve::from_init_params(&sample_params(), &owner_key());
    let bytes = record.to_bytes();
    assert_eq!(bytes.len(), CURVE_SIZE);
    let back = Curve::try_from_bytes(&bytes).unwrap();
    assert_eq!(back.discriminator, record.discriminator);
    assert_eq!(back.version, record.version);
    assert_eq!(back.name, record.name);
    assert_eq!(back.formula, record.formula);
    assert_eq!(back.owner, record.owner);
    assert_eq!(back.x0, record.x0);
    assert_eq!(back.x_step, record.x_step);
    assert_eq!(back.y_count, record.y_count);
    assert_eq!(back.decimals, record.decimals);
    assert_eq!(back.y, record.y);
    // and the re-encoded bytes are identical, zeroed padding included
    assert_eq!(back.to_bytes(), bytes);
}

#[test]
fn record_layout_is_fixed() {
    let record = Curve::from_init_params(&sample_params(), &owner_key());
    let bytes = record.to_bytes();
    // discriminator: the bytes of CURVE___
    assert_eq!(&bytes[0..8], b"CURVE___");
    // version, then zero padding
    assert_eq!(bytes[8], 1);
    assert_eq!(&bytes[9..16], &[0u8; 7]);
    // labels and owner
    assert_eq!(&bytes[16..26], b"round trip");
    assert_eq!(&bytes[32..33], b"f");
    assert_eq!(&bytes[48..80], owner_key().as_slice());
    // x0 and x_step, little endian
    assert_eq!(&bytes[80..84], &[5, 0, 0, 0]);
    assert_eq!(&bytes[84..88], &[7, 0, 0, 0]);
    // y_count, decimals, zero padding
    assert_eq!(bytes[88], 3);
    assert_eq!(bytes[89], 4);
    assert_eq!(&bytes[90..96], &[0u8; 6]);
    // first samples, little endian
    assert_eq!(&bytes[96..100], &[11, 0, 0, 0]);
    assert_eq!(&bytes[100..104], &[22, 0, 0, 0]);
    assert_eq!(&bytes[104..108], &[0, 40, 107, 238]);
}

#[test]
fn record_decode_rejects_wrong_size() {
    assert_eq!(
        Curve::try_from_bytes(&[0u8; 10]).err(),
        Some(CurvyError::Record(LayoutError::Size))
    );
}

#[test]
fn record_decode_rejects_wrong_discriminator() {
    let record = Curve::from_init_params(&sample_params(), &owner_key());
    let mut bytes = record.to_bytes();
    bytes[0] = b'X';
    assert_eq!(
        Curve::try_from_bytes(&bytes).err(),
        Some(CurvyError::Record(LayoutError::Discriminator))
    );
}

#[test]
fn record_decode_rejects_wrong_version() {
    let record = Curve::from_init_params(&sample_params(), &owner_key());
    let mut bytes = record.to_bytes();
    bytes[8] = 2;
    assert_eq!(
        Curve::try_from_bytes(&bytes).err(),
        Some(CurvyError::Record(LayoutError::Version))
    );
}

#[test]
fn instruction_round_trip_create() {
    let ix = CurvyInstruction::CreateCurve {
        params: sample_params(),
    };
    let bytes = ix.to_bytes();
    assert_eq!(bytes.len(), 1 + PARAMS_SIZE);
    assert_eq!(bytes[0], 0);
    match CurvyInstruction::try_from_slice(&bytes).unwrap() {
        CurvyInstruction::CreateCurve { params } => {
            assert_eq!(params.name, sample_params().name);
            assert_eq!(params.x0, 5);
            assert_eq!(params.x_step, 7);
            assert_eq!(params.y_count, 3);
            assert_eq!(params.decimals, 4);
            assert_eq!(params.y, sample_params().y);
        }
        _ => panic!("wrong instruction"),
    }
}

#[test]
fn instruction_round_trip_alter_and_delete() {
    let ix = CurvyInstruction::AlterCurve {
        params: sample_params(),
    };
    let bytes = ix.to_bytes();
    assert_eq!(bytes[0], 1);
    assert!(matches!(
        CurvyInstruction::try_from_slice(&bytes),
        Ok(CurvyInstruction::AlterCurve { .. })
    ));

    let ix = CurvyInstruction::DeleteCurve;
    let bytes = ix.to_bytes();
    assert_eq!(bytes, vec![2u8]);
    assert!(matches!(
        CurvyInstruction::try_from_slice(&bytes),
        Ok(CurvyInstruction::DeleteCurve)
    ));
}

#[test]
fn instruction_decode_rejects_bad_input() {
    assert_eq!(
        CurvyInstruction::try_from_slice(&[]).err(),
        Some(CurvyError::Instruction(LayoutError::Size))
    );
    assert_eq!(
        CurvyInstruction::try_from_slice(&[9u8]).err(),
        Some(CurvyError::Instruction(LayoutError::Tag))
    );
    assert_eq!(
        CurvyInstruction::try_from_slice(&[0u8, 1, 2]).err(),
        Some(CurvyError::Instruction(LayoutError::Size))
    );
    assert_eq!(
        CurvyInstruction::try_from_slice(&[2u8, 0]).err(),
        Some(CurvyError::Instruction(LayoutError::Size))
    );
}
