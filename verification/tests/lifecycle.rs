use curvy::calc::calc_y_raw;
use curvy::curve::{Curve, CurveParams, MAX_Y_CNT};
use curvy::decimal::{Decimal, MathError};
use curvy::error::{CurvyError, InvalidParamsReason, LayoutError, ProgramError};
use curvy::instruction::{
    AlterCurveAccountIndexes, CreateCurveAccountIndexes, CurvyInstruction,
    DeleteCurveAccountIndexes,
};
use curvy::processor::{
    alter_curve, create_curve, curvy_program_id_bytes, delete_curve, process_instruction,
    system_program_id_bytes, transfer_lamports, AccountState,
};
use curvy::utils::str_to_array;

fn params(x0: u32, x_step: u32, y_count: u8, decimals: u8) -> CurveParams {
    let mut y = vec![0u32; MAX_Y_CNT];
    y[0] = 200;
    y[1] = 300;
    y[2] = 400;
    y[3] = 700;
    y[4] = 1_000_000_000;
    CurveParams {
        name: str_to_array("test curve", 16),
        formula: str_to_array("y=f(x)", 16),
        x0,
        x_step,
        y_count,
        decimals,
        y,
    }
}

fn owner_key() -> Vec<u8> {
    vec![7u8; 32]
}

fn empty_curve_account() -> AccountState {
    AccountState {
        key: vec![1u8; 32],
        is_signer: true,
        is_writable: true,
        owner_program: system_program_id_bytes(),
        lamports: 0,
        data: Vec::new(),
    }
}

fn owner_account(lamports: u64) -> AccountState {
    AccountState {
        key: owner_key(),
        is_signer: true,
        is_writable: true,
        owner_program: system_program_id_bytes(),
        lamports,
        data: Vec::new(),
    }
}

fn system_account() -> AccountState {
    AccountState {
        key: system_program_id_bytes(),
        is_signer: false,
        is_writable: false,
        owner_program: system_program_id_bytes(),
        lamports: 0,
        data: Vec::new(),
    }
}

fn populated_curve_account(p: &CurveParams, lamports: u64) -> AccountState {
    let record = Curve::from_init_params(p, &owner_key());
    AccountState {
        key: vec![1u8; 32],
        is_signer: false,
        is_writable: true,
        owner_program: curvy_program_id_bytes(),
        lamports,
        data: record.to_bytes(),
    }
}

#[test]
fn create_initializes_slot_and_moves_rent() {
    let mut curve = empty_curve_account();
    let mut owner = owner_account(100);
    let system = system_account();
    let pid = curvy_program_id_bytes();
    let p = params(0, 2, 5, 2);
    let r = create_curve(&mut curve, &mut owner, &system, &pid, 40, &p);
    assert!(r.is_ok());
    assert_eq!(curve.owner_program, pid);
    assert_eq!(curve.lamports, 40);
    assert_eq!(owner.lamports, 60);
    let expected = Curve::from_init_params(&p, &owner_key()).to_bytes();
    assert_eq!(curve.data, expected);
}

#[test]
fn create_requires_both_signatures() {
    let pid = curvy_program_id_bytes();
    let p = params(0, 2, 5, 2);

    let mut curve = empty_curve_account();
    curve.is_signer = false;
    let mut owner = owner_account(100);
    let r = create_curve(&mut curve, &mut owner, &system_account(), &pid, 40, &p);
    assert_eq!(r, Err(CurvyError::MissingSignature));
    assert_eq!(curve.data.len(), 0);
    assert_eq!(owner.lamports, 100);

    let mut curve = empty_curve_account();
    let mut owner = owner_account(100);
    owner.is_signer = false;
    let r = create_curve(&mut curve, &mut owner, &system_account(), &pid, 40, &p);
    assert_eq!(r, Err(CurvyError::MissingSignature));
    assert_eq!(curve.data.len(), 0);
    assert_eq!(owner.lamports, 100);
}

#[test]
fn create_rejects_nonempty_slot() {
    let pid = curvy_program_id_bytes();
    let p = params(0, 2, 5, 2);
    let mut curve = empty_curve_account();
    curve.data = vec![0u8; 4];
    let mut owner = owner_account(100);
    let r = create_curve(&mut curve, &mut owner, &system_account(), &pid, 40, &p);
    assert_eq!(r, Err(CurvyError::InvalidAccount));
    assert_eq!(curve.data, vec![0u8; 4]);
}

#[test]
fn create_rejects_invalid_params_before_any_effect() {
    let pid = curvy_program_id_bytes();
    let mut curve = empty_curve_account();
    let mut owner = owner_account(100);
    let r = create_curve(
        &mut curve,
        &mut owner,
        &system_account(),
        &pid,
        40,
        &params(0, 0, 5, 2),
    );
    assert_eq!(
        r,
        Err(CurvyError::InvalidParams(InvalidParamsReason::ZeroStep))
    );
    assert_eq!(curve.data.len(), 0);
    assert_eq!(curve.lamports, 0);
    assert_eq!(owner.lamports, 100);
}

#[test]
fn alter_replaces_wholesale_and_is_idempotent() {
    let pid = curvy_program_id_bytes();
    let mut curve = populated_curve_account(&params(0, 2, 5, 2), 10);
    let owner = AccountState {
        is_writable: false,
        ..owner_account(0)
    };
    let p2 = params(1, 3, 4, 6);
    assert!(alter_curve(&mut curve, &owner, &pid, &p2).is_ok());
    let once = curve.data.clone();
    let record = Curve::try_from_bytes(&once).unwrap();
    assert_eq!(record.x0, 1);
    assert_eq!(record.x_step, 3);
    assert_eq!(record.owner, owner_key());
    // applying the identical valid params again yields an identical record
    assert!(alter_curve(&mut curve, &owner, &pid, &p2).is_ok());
    assert_eq!(curve.data, once);
}

#[test]
fn alter_by_non_owner_changes_nothing() {
    let pid = curvy_program_id_bytes();
    let mut curve = populated_curve_account(&params(0, 2, 5, 2), 10);
    let before = curve.data.clone();
    let mut intruder = owner_account(0);
    intruder.key = vec![8u8; 32];
    let r = alter_curve(&mut curve, &intruder, &pid, &params(1, 3, 4, 6));
    assert_eq!(r, Err(CurvyError::InvalidKey));
    assert_eq!(curve.data, before);
}

#[test]
fn alter_rejects_invalid_params() {
    let pid = curvy_program_id_bytes();
    let mut curve = populated_curve_account(&params(0, 2, 5, 2), 10);
    let before = curve.data.clone();
    let owner = owner_account(0);
    let r = alter_curve(&mut curve, &owner, &pid, &params(0, 2, 1, 2));
    assert_eq!(
        r,
        Err(CurvyError::InvalidParams(InvalidParamsReason::DegenerateRange))
    );
    assert_eq!(curve.data, before);
}

#[test]
fn delete_returns_balance_and_releases_slot() {
    let pid = curvy_program_id_bytes();
    let mut curve = populated_curve_account(&params(0, 2, 5, 2), 55);
    let mut owner = owner_account(10);
    assert!(delete_curve(&mut curve, &mut owner, &pid).is_ok());
    assert_eq!(owner.lamports, 65);
    assert_eq!(curve.lamports, 0);
    assert_eq!(curve.data.len(), 0);
    assert_eq!(curve.owner_program, system_program_id_bytes());
}

#[test]
fn delete_absent_slot_changes_nothing() {
    let pid = curvy_program_id_bytes();
    let mut curve = empty_curve_account();
    curve.owner_program = curvy_program_id_bytes();
    let mut owner = owner_account(10);
    let r = delete_curve(&mut curve, &mut owner, &pid);
    assert_eq!(r, Err(CurvyError::Record(LayoutError::Size)));
    assert_eq!(owner.lamports, 10);
    assert_eq!(curve.lamports, 0);
    assert_eq!(curve.data.len(), 0);
}

#[test]
fn delete_by_non_owner_changes_nothing() {
    let pid = curvy_program_id_bytes();
    let mut curve = populated_curve_account(&params(0, 2, 5, 2), 55);
    let before = curve.data.clone();
    let mut intruder = owner_account(10);
    intruder.key = vec![8u8; 32];
    let r = delete_curve(&mut curve, &mut intruder, &pid);
    assert_eq!(r, Err(CurvyError::InvalidKey));
    assert_eq!(curve.data, before);
    assert_eq!(curve.lamports, 55);
    assert_eq!(intruder.lamports, 10);
}

#[test]
fn process_instruction_runs_full_create_flow() {
    let pid = curvy_program_id_bytes();
    let mut accounts = vec![empty_curve_account(), owner_account(100), system_account()];
    let input = CurvyInstruction::CreateCurve {
        params: params(0, 2, 5, 2),
    }
    .to_bytes();
    let r = process_instruction(&pid, &mut accounts, &input, 40);
    assert!(r.is_ok());
    assert_eq!(accounts[0].lamports, 40);
    assert_eq!(accounts[1].lamports, 60);
    // the stored bytes answer lookups
    let x = Decimal::from_i128_with_scale(1, 2).unwrap();
    let res = calc_y_raw(x, &accounts[0].data).unwrap();
    assert_eq!(res, Decimal::from_i128_with_scale(250, 2).unwrap());
}

#[test]
fn process_instruction_runs_alter_and_delete_flows() {
    let pid = curvy_program_id_bytes();
    let mut accounts = vec![empty_curve_account(), owner_account(100), system_account()];
    let input = CurvyInstruction::CreateCurve {
        params: params(0, 2, 5, 2),
    }
    .to_bytes();
    assert!(process_instruction(&pid, &mut accounts, &input, 40).is_ok());

    // alter consumes only the curve and owner accounts
    let mut accounts = vec![accounts.remove(0), accounts.remove(0)];
    accounts[0].is_signer = false;
    accounts[1].is_writable = false;
    let input = CurvyInstruction::AlterCurve {
        params: params(10, 3, 4, 1),
    }
    .to_bytes();
    assert!(process_instruction(&pid, &mut accounts, &input, 0).is_ok());
    let record = Curve::try_from_bytes(&accounts[0].data).unwrap();
    assert_eq!(record.x0, 10);
    assert_eq!(record.x_step, 3);
    assert_eq!(record.y_count, 4);
    assert_eq!(record.owner, owner_key());

    let input = CurvyInstruction::DeleteCurve.to_bytes();
    assert!(process_instruction(&pid, &mut accounts, &input, 0).is_ok());
    assert_eq!(accounts[0].data.len(), 0);
    assert_eq!(accounts[0].lamports, 0);
    assert_eq!(accounts[1].lamports, 100);
}

#[test]
fn process_instruction_rejects_foreign_program() {
    let mut accounts = vec![empty_curve_account(), owner_account(100), system_account()];
    let input = CurvyInstruction::DeleteCurve.to_bytes();
    let r = process_instruction(&vec![9u8; 32], &mut accounts, &input, 0);
    assert_eq!(r, Err(ProgramError::IncorrectProgramId));
}

#[test]
fn process_instruction_requires_enough_accounts() {
    let pid = curvy_program_id_bytes();
    let mut accounts = vec![empty_curve_account()];
    let input = CurvyInstruction::DeleteCurve.to_bytes();
    let r = process_instruction(&pid, &mut accounts, &input, 0);
    assert_eq!(r, Err(ProgramError::Custom(10)));
}

#[test]
fn process_instruction_reports_decode_errors() {
    let pid = curvy_program_id_bytes();
    let mut accounts = vec![empty_curve_account(), owner_account(100), system_account()];
    let r = process_instruction(&pid, &mut accounts, &[9u8], 0);
    assert_eq!(r, Err(ProgramError::Custom(4)));
}

#[test]
fn transfer_lamports_is_defensive() {
    let mut from = owner_account(50);
    let mut to = owner_account(5);
    assert!(transfer_lamports(&mut from, &mut to, 20).is_ok());
    assert_eq!(from.lamports, 30);
    assert_eq!(to.lamports, 25);

    let r = transfer_lamports(&mut from, &mut to, 31);
    assert_eq!(r, Err(CurvyError::OperationCanNotBePerformed));
    assert_eq!(from.lamports, 30);
    assert_eq!(to.lamports, 25);

    let mut rich = owner_account(u64::MAX);
    let r = transfer_lamports(&mut from, &mut rich, 1);
    assert_eq!(r, Err(CurvyError::OperationCanNotBePerformed));
    assert_eq!(from.lamports, 30);
    assert_eq!(rich.lamports, u64::MAX);
}

#[test]
fn error_codes_match_the_wire_protocol() {
    assert_eq!(CurvyError::Math(MathError::Overflow).error_code(), 3);
    assert_eq!(CurvyError::Instruction(LayoutError::Tag).error_code(), 4);
    assert_eq!(CurvyError::Record(LayoutError::Size).error_code(), 6);
    assert_eq!(CurvyError::InvalidKey.error_code(), 8);
    assert_eq!(CurvyError::InvalidAccount.error_code(), 9);
    assert_eq!(CurvyError::NotEnoughAccountKeys.error_code(), 10);
    assert_eq!(CurvyError::MissingSignature.error_code(), 11);
    assert_eq!(CurvyError::OperationCanNotBePerformed.error_code(), 25);
    assert_eq!(
        CurvyError::InvalidParams(InvalidParamsReason::ZeroStep).error_code(),
        29
    );
    assert_eq!(
        CurvyError::InvalidKey.to_program_error(),
        ProgramError::Custom(8)
    );
}

#[test]
fn account_indexes_follow_submission_order() {
    let c = CreateCurveAccountIndexes::new_direct_order();
    assert_eq!((c.curve, c.owner, c.system_program), (0, 1, 2));
    let a = AlterCurveAccountIndexes::new_direct_order();
    assert_eq!((a.curve, a.owner), (0, 1));
    let d = DeleteCurveAccountIndexes::new_direct_order();
    assert_eq!((d.curve, d.owner), (0, 1));

    let c = CreateCurveAccountIndexes::try_from_indexes(&[4, 5, 6, 7]).unwrap();
    assert_eq!((c.curve, c.owner, c.system_program), (4, 5, 6));
    assert_eq!(CreateCurveAccountIndexes::try_from_indexes(&[4, 5]), Err(2));
    let a = AlterCurveAccountIndexes::try_from_indexes(&[3, 9]).unwrap();
    assert_eq!((a.curve, a.owner), (3, 9));
    assert_eq!(AlterCurveAccountIndexes::try_from_indexes(&[3]), Err(1));
    let d = DeleteCurveAccountIndexes::try_from_indexes(&[1, 0]).unwrap();
    assert_eq!((d.curve, d.owner), (1, 0));
    assert_eq!(DeleteCurveAccountIndexes::try_from_indexes(&[]), Err(0));
}
