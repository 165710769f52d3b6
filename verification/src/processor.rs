//! The lifecycle manager: create, alter and delete of curve slots, with
//! authorization checks, atomic effects, and the instruction dispatcher.
//!
//! A slot is an account: raw data bytes, a balance, an owning program, and
//! the signer/writable flags the host attests. Every transition validates
//! before it mutates, so a failed request leaves every account untouched.

use vstd::prelude::*;
use crate::codec::{record_bytes, record_decode};
use crate::curve::{Curve, CurveParams, ParamsView, init_record_view, params_geometry_error};
use crate::error::{CurvyError, ProgramError, spec_error_code};
use crate::instruction::{CurvyInstruction, InstructionView, instruction_decode};
use crate::utils::{bytes_eq, clone_bytes, zero_bytes};

verus! {

/// Mathematical image of an account slot.
pub struct AccountView {
    pub key: Seq<u8>,
    pub is_signer: bool,
    pub is_writable: bool,
    pub owner_program: Seq<u8>,
    pub lamports: u64,
    pub data: Seq<u8>,
}

/// One account slot as the host hands it to the store.
pub struct AccountState {
    /// The account's address.
    pub key: Vec<u8>,
    /// Whether the account's key co-signed the request.
    pub is_signer: bool,
    /// Whether the host allows writes to the account.
    pub is_writable: bool,
    /// The program that owns the account's data.
    pub owner_program: Vec<u8>,
    /// The account's balance.
    pub lamports: u64,
    /// The account's raw data bytes.
    pub data: Vec<u8>,
}

impl View for AccountState {
    type V = AccountView;

    open spec fn view(&self) -> AccountView {
        AccountView {
            key: self.key@,
            is_signer: self.is_signer,
            is_writable: self.is_writable,
            owner_program: self.owner_program@,
            lamports: self.lamports,
            data: self.data@,
        }
    }
}

impl AccountView {
    /// The fixed key sizes every account carries.
    pub open spec fn wf(self) -> bool {
        &&& self.key.len() == 32
        &&& self.owner_program.len() == 32
    }
}

/// The identity of the system program, which owns all unallocated slots.
pub open spec fn system_program_id() -> Seq<u8> {
    Seq::new(32, |i: int| 0u8)
}

/// The system program identity as a byte vector.
pub fn system_program_id_bytes() -> (r: Vec<u8>)
    ensures
        r@ == system_program_id(),
{
    let r = zero_bytes(32);
    proof {
        assert(r@ =~= system_program_id());
    }
    r
}

/// The identity of the curve store program itself.
pub open spec fn curvy_program_id() -> Seq<u8> {
    seq![
        176u8, 251u8, 55u8, 4u8, 201u8, 136u8, 251u8, 115u8, 238u8, 199u8, 69u8, 78u8, 200u8,
        26u8, 222u8, 42u8, 94u8, 124u8, 251u8, 5u8, 145u8, 40u8, 107u8, 157u8, 241u8, 57u8,
        230u8, 188u8, 83u8, 2u8, 4u8, 134u8,
    ]
}

/// The curve store program identity as a byte vector.
pub fn curvy_program_id_bytes() -> (r: Vec<u8>)
    ensures
        r@ == curvy_program_id(),
{
    let mut r: Vec<u8> = Vec::new();
    r.push(176);
    r.push(251);
    r.push(55);
    r.push(4);
    r.push(201);
    r.push(136);
    r.push(251);
    r.push(115);
    r.push(238);
    r.push(199);
    r.push(69);
    r.push(78);
    r.push(200);
    r.push(26);
    r.push(222);
    r.push(42);
    r.push(94);
    r.push(124);
    r.push(251);
    r.push(5);
    r.push(145);
    r.push(40);
    r.push(107);
    r.push(157);
    r.push(241);
    r.push(57);
    r.push(230);
    r.push(188);
    r.push(83);
    r.push(2);
    r.push(4);
    r.push(134);
    proof {
        assert(r@ =~= curvy_program_id());
    }
    r
}

/// Rejects a key that differs from the expected one.
pub fn verify_key(actual: &Vec<u8>, expected: &Vec<u8>) -> (r: Result<(), CurvyError>)
    ensures
        r is Ok <==> actual@ == expected@,
        r is Err ==> r == Err::<(), CurvyError>(CurvyError::InvalidKey),
{
    if bytes_eq(actual, expected) {
        Ok(())
    } else {
        Err(CurvyError::InvalidKey)
    }
}

/// An account with only its balance replaced.
pub open spec fn with_lamports(a: AccountView, lamports: u64) -> AccountView {
    AccountView {
        key: a.key,
        is_signer: a.is_signer,
        is_writable: a.is_writable,
        owner_program: a.owner_program,
        lamports: lamports,
        data: a.data,
    }
}

/// Outcome of a balance transfer: the new pair of accounts, or a defensive
/// refusal when the source balance is short or the target would overflow.
pub open spec fn transfer_outcome(from: AccountView, to: AccountView, amount: u64) -> Result<
    (AccountView, AccountView),
    CurvyError,
> {
    if from.lamports < amount {
        Err(CurvyError::OperationCanNotBePerformed)
    } else if to.lamports + amount > u64::MAX {
        Err(CurvyError::OperationCanNotBePerformed)
    } else {
        Ok(
            (
                with_lamports(from, (from.lamports - amount) as u64),
                with_lamports(to, (to.lamports + amount) as u64),
            ),
        )
    }
}

/// Moves `amount` lamports between two accounts, refusing (with no state
/// change) a short source balance or a target balance overflow.
pub fn transfer_lamports(
    from_account: &mut AccountState,
    to_account: &mut AccountState,
    amount: u64,
) -> (r: Result<(), CurvyError>)
    ensures
        match transfer_outcome(old(from_account)@, old(to_account)@, amount) {
            Ok(pair) => r == Ok::<(), CurvyError>(()) && final(from_account)@ == pair.0
                && final(to_account)@ == pair.1,
            Err(e) => r == Err::<(), CurvyError>(e) && final(from_account)@ == old(from_account)@
                && final(to_account)@ == old(to_account)@,
        },
{
    if from_account.lamports < amount {
        return Err(CurvyError::OperationCanNotBePerformed);
    }
    match to_account.lamports.checked_add(amount) {
        Some(new_to) => {
            from_account.lamports = from_account.lamports - amount;
            to_account.lamports = new_to;
            Ok(())
        },
        None => Err(CurvyError::OperationCanNotBePerformed),
    }
}

/// The first reason, if any, for which a create is refused: the accounts'
/// flags and emptiness, both required signatures, the parameter validator,
/// and the funding balances, checked in that order before any effect.
pub open spec fn create_check(
    curve: AccountView,
    owner: AccountView,
    system_program: AccountView,
    program_id: Seq<u8>,
    rent: u64,
    p: ParamsView,
) -> Option<CurvyError> {
    if program_id != curvy_program_id() {
        Some(CurvyError::InvalidKey)
    } else if !curve.is_writable {
        Some(CurvyError::InvalidAccount)
    } else if !curve.is_signer {
        Some(CurvyError::MissingSignature)
    } else if curve.owner_program != system_program_id() {
        Some(CurvyError::InvalidKey)
    } else if curve.data.len() != 0 {
        Some(CurvyError::InvalidAccount)
    } else if !owner.is_writable {
        Some(CurvyError::InvalidAccount)
    } else if !owner.is_signer {
        Some(CurvyError::MissingSignature)
    } else if system_program.key != system_program_id() {
        Some(CurvyError::InvalidKey)
    } else if owner.lamports < rent {
        Some(CurvyError::OperationCanNotBePerformed)
    } else if curve.lamports + rent > u64::MAX {
        Some(CurvyError::OperationCanNotBePerformed)
    } else {
        match params_geometry_error(p) {
            Some(reason) => Some(CurvyError::InvalidParams(reason)),
            None => None,
        }
    }
}

/// The curve slot after a successful create: owned by the store, funded
/// with the rent, holding the freshly encoded record.
pub open spec fn create_post_curve(
    curve: AccountView,
    owner: AccountView,
    program_id: Seq<u8>,
    rent: u64,
    p: ParamsView,
) -> AccountView {
    AccountView {
        key: curve.key,
        is_signer: curve.is_signer,
        is_writable: curve.is_writable,
        owner_program: program_id,
        lamports: (curve.lamports + rent) as u64,
        data: record_bytes(init_record_view(p, owner.key)),
    }
}

/// The owner account after a successful create: it funded the rent.
pub open spec fn create_post_owner(owner: AccountView, rent: u64) -> AccountView {
    with_lamports(owner, (owner.lamports - rent) as u64)
}

/// Creates a curve slot: checks the accounts and both signatures, validates
/// the parameters, funds the slot from the owner, and writes the record.
/// Any failure leaves both accounts untouched.
pub fn create_curve(
    curve: &mut AccountState,
    owner: &mut AccountState,
    system_program: &AccountState,
    program_id: &Vec<u8>,
    rent: u64,
    params: &CurveParams,
) -> (r: Result<(), CurvyError>)
    requires
        params@.wf(),
        old(owner)@.wf(),
    ensures
        match create_check(
            old(curve)@,
            old(owner)@,
            system_program@,
            program_id@,
            rent,
            params@,
        ) {
            Some(e) => r == Err::<(), CurvyError>(e) && final(curve)@ == old(curve)@
                && final(owner)@ == old(owner)@,
            None => r == Ok::<(), CurvyError>(()) && final(curve)@ == create_post_curve(
                old(curve)@,
                old(owner)@,
                program_id@,
                rent,
                params@,
            ) && final(owner)@ == create_post_owner(old(owner)@, rent),
        },
{
    let expected_id = curvy_program_id_bytes();
    if !bytes_eq(program_id, &expected_id) {
        return Err(CurvyError::InvalidKey);
    }
    if !curve.is_writable {
        return Err(CurvyError::InvalidAccount);
    }
    if !curve.is_signer {
        return Err(CurvyError::MissingSignature);
    }
    let system_id = system_program_id_bytes();
    if !bytes_eq(&curve.owner_program, &system_id) {
        return Err(CurvyError::InvalidKey);
    }
    if curve.data.len() != 0 {
        return Err(CurvyError::InvalidAccount);
    }
    if !owner.is_writable {
        return Err(CurvyError::InvalidAccount);
    }
    if !owner.is_signer {
        return Err(CurvyError::MissingSignature);
    }
    if !bytes_eq(&system_program.key, &system_id) {
        return Err(CurvyError::InvalidKey);
    }
    if owner.lamports < rent {
        return Err(CurvyError::OperationCanNotBePerformed);
    }
    let new_balance = match curve.lamports.checked_add(rent) {
        Some(v) => v,
        None => {
            return Err(CurvyError::OperationCanNotBePerformed);
        },
    };
    if let Err(e) = Curve::check_params(params) {
        return Err(e);
    }
    owner.lamports = owner.lamports - rent;
    curve.lamports = new_balance;
    curve.owner_program = clone_bytes(program_id);
    let record = Curve::from_init_params(params, &owner.key);
    curve.data = record.to_bytes();
    Ok(())
}

/// Outcome of an alter: the new curve slot, or the first refusal among the
/// account checks, the owner's signature and identity, the record decode,
/// and the parameter validator. The stored owner is never replaced.
pub open spec fn alter_outcome(
    curve: AccountView,
    owner: AccountView,
    program_id: Seq<u8>,
    p: ParamsView,
) -> Result<AccountView, CurvyError> {
    if program_id != curvy_program_id() {
        Err(CurvyError::InvalidKey)
    } else if !curve.is_writable {
        Err(CurvyError::InvalidAccount)
    } else if curve.owner_program != program_id {
        Err(CurvyError::InvalidKey)
    } else if !owner.is_signer {
        Err(CurvyError::MissingSignature)
    } else {
        match record_decode(curve.data) {
            Err(e) => Err(e),
            Ok(rec) => if owner.key != rec.owner {
                Err(CurvyError::InvalidKey)
            } else {
                match params_geometry_error(p) {
                    Some(reason) => Err(CurvyError::InvalidParams(reason)),
                    None => Ok(
                        AccountView {
                            key: curve.key,
                            is_signer: curve.is_signer,
                            is_writable: curve.is_writable,
                            owner_program: curve.owner_program,
                            lamports: curve.lamports,
                            data: record_bytes(init_record_view(p, rec.owner)),
                        },
                    ),
                }
            },
        }
    }
}

/// Alters a curve slot: checks the accounts, the owner's signature and
/// identity against the stored record, re-validates the merged parameters,
/// and replaces the geometry and labels wholesale, owner untouched. Any
/// failure leaves the slot untouched.
pub fn alter_curve(
    curve: &mut AccountState,
    owner: &AccountState,
    program_id: &Vec<u8>,
    params: &CurveParams,
) -> (r: Result<(), CurvyError>)
    requires
        params@.wf(),
    ensures
        match alter_outcome(old(curve)@, owner@, program_id@, params@) {
            Ok(v) => r == Ok::<(), CurvyError>(()) && final(curve)@ == v,
            Err(e) => r == Err::<(), CurvyError>(e) && final(curve)@ == old(curve)@,
        },
{
    let expected_id = curvy_program_id_bytes();
    if !bytes_eq(program_id, &expected_id) {
        return Err(CurvyError::InvalidKey);
    }
    if !curve.is_writable {
        return Err(CurvyError::InvalidAccount);
    }
    if !bytes_eq(&curve.owner_program, program_id) {
        return Err(CurvyError::InvalidKey);
    }
    if !owner.is_signer {
        return Err(CurvyError::MissingSignature);
    }
    let mut record = match Curve::try_from_bytes(curve.data.as_slice()) {
        Ok(c) => c,
        Err(e) => {
            return Err(e);
        },
    };
    if let Err(e) = verify_key(&owner.key, &record.owner) {
        return Err(e);
    }
    if let Err(e) = Curve::check_params(params) {
        return Err(e);
    }
    record.set_params(params);
    curve.data = record.to_bytes();
    Ok(())
}

/// Outcome of a delete: the released curve slot and the refunded owner, or
/// the first refusal among the account checks, the owner's signature and
/// identity, the record decode, and the defensive balance transfer.
pub open spec fn delete_outcome(
    curve: AccountView,
    owner: AccountView,
    program_id: Seq<u8>,
) -> Result<(AccountView, AccountView), CurvyError> {
    if program_id != curvy_program_id() {
        Err(CurvyError::InvalidKey)
    } else if !curve.is_writable {
        Err(CurvyError::InvalidAccount)
    } else if curve.owner_program != program_id {
        Err(CurvyError::InvalidKey)
    } else if !owner.is_signer {
        Err(CurvyError::MissingSignature)
    } else {
        match record_decode(curve.data) {
            Err(e) => Err(e),
            Ok(rec) => if owner.key != rec.owner {
                Err(CurvyError::InvalidKey)
            } else {
                match transfer_outcome(curve, owner, curve.lamports) {
                    Err(e) => Err(e),
                    Ok(pair) => Ok(
                        (
                            AccountView {
                                key: curve.key,
                                is_signer: curve.is_signer,
                                is_writable: curve.is_writable,
                                owner_program: system_program_id(),
                                lamports: 0,
                                data: Seq::empty(),
                            },
                            pair.1,
                        ),
                    ),
                }
            },
        }
    }
}

/// Deletes a curve slot: checks the accounts, the owner's signature and
/// identity against the stored record, transfers the slot's whole balance
/// to the owner, and releases the slot. Any failure leaves both accounts
/// untouched.
pub fn delete_curve(
    curve: &mut AccountState,
    owner: &mut AccountState,
    program_id: &Vec<u8>,
) -> (r: Result<(), CurvyError>)
    ensures
        match delete_outcome(old(curve)@, old(owner)@, program_id@) {
            Ok(pair) => r == Ok::<(), CurvyError>(()) && final(curve)@ == pair.0
                && final(owner)@ == pair.1,
            Err(e) => r == Err::<(), CurvyError>(e) && final(curve)@ == old(curve)@
                && final(owner)@ == old(owner)@,
        },
{
    let expected_id = curvy_program_id_bytes();
    if !bytes_eq(program_id, &expected_id) {
        return Err(CurvyError::InvalidKey);
    }
    if !curve.is_writable {
        return Err(CurvyError::InvalidAccount);
    }
    if !bytes_eq(&curve.owner_program, program_id) {
        return Err(CurvyError::InvalidKey);
    }
    if !owner.is_signer {
        return Err(CurvyError::MissingSignature);
    }
    let record = match Curve::try_from_bytes(curve.data.as_slice()) {
        Ok(c) => c,
        Err(e) => {
            return Err(e);
        },
    };
    if let Err(e) = verify_key(&owner.key, &record.owner) {
        return Err(e);
    }
    let balance = curve.lamports;
    if let Err(e) = transfer_lamports(curve, owner, balance) {
        return Err(e);
    }
    curve.owner_program = system_program_id_bytes();
    curve.data = Vec::new();
    Ok(())
}

/// The account views of a slice of accounts.
pub open spec fn accounts_view(s: Seq<AccountState>) -> Seq<AccountView> {
    s.map_values(|a: AccountState| a@)
}

/// Outcome of a whole request: the accounts after the effect, or the error
/// as the host reports it, with nothing changed.
pub open spec fn spec_process(
    program_id: Seq<u8>,
    accs: Seq<AccountView>,
    input: Seq<u8>,
    rent: u64,
) -> Result<Seq<AccountView>, ProgramError> {
    if program_id != curvy_program_id() {
        Err(ProgramError::IncorrectProgramId)
    } else {
        match instruction_decode(input) {
            Err(e) => Err(ProgramError::Custom(spec_error_code(e))),
            Ok(InstructionView::CreateCurve(p)) => if accs.len() < 3 {
                Err(ProgramError::Custom(spec_error_code(CurvyError::NotEnoughAccountKeys)))
            } else {
                match create_check(accs[0], accs[1], accs[2], program_id, rent, p) {
                    Some(e) => Err(ProgramError::Custom(spec_error_code(e))),
                    None => Ok(
                        accs.update(0, create_post_curve(accs[0], accs[1], program_id, rent, p))
                            .update(1, create_post_owner(accs[1], rent)),
                    ),
                }
            },
            Ok(InstructionView::AlterCurve(p)) => if accs.len() < 2 {
                Err(ProgramError::Custom(spec_error_code(CurvyError::NotEnoughAccountKeys)))
            } else {
                match alter_outcome(accs[0], accs[1], program_id, p) {
                    Err(e) => Err(ProgramError::Custom(spec_error_code(e))),
                    Ok(v) => Ok(accs.update(0, v)),
                }
            },
            Ok(InstructionView::DeleteCurve) => if accs.len() < 2 {
                Err(ProgramError::Custom(spec_error_code(CurvyError::NotEnoughAccountKeys)))
            } else {
                match delete_outcome(accs[0], accs[1], program_id) {
                    Err(e) => Err(ProgramError::Custom(spec_error_code(e))),
                    Ok(pair) => Ok(accs.update(0, pair.0).update(1, pair.1)),
                }
            },
        }
    }
}

/// Handles one request end to end: checks the program identity, decodes the
/// instruction, and applies the named lifecycle transition to the accounts
/// in submission order. `rent` is the host's minimum balance for a slot of
/// the record's size. On any error every account is left untouched.
pub fn process_instruction(
    program_id: &Vec<u8>,
    accounts: &mut Vec<AccountState>,
    input: &[u8],
    rent: u64,
) -> (r: Result<(), ProgramError>)
    requires
        forall|i: int| 0 <= i < old(accounts)@.len() ==> (#[trigger] old(accounts)@[i])@.wf(),
    ensures
        match spec_process(program_id@, accounts_view(old(accounts)@), input@, rent) {
            Ok(views) => r == Ok::<(), ProgramError>(()) && accounts_view(final(accounts)@)
                == views,
            Err(e) => r == Err::<(), ProgramError>(e) && accounts_view(final(accounts)@)
                == accounts_view(old(accounts)@),
        },
{
    let expected_id = curvy_program_id_bytes();
    if !bytes_eq(program_id, &expected_id) {
        return Err(ProgramError::IncorrectProgramId);
    }
    let ix = match CurvyInstruction::try_from_slice(input) {
        Ok(v) => v,
        Err(e) => {
            return Err(e.to_program_error());
        },
    };
    match ix {
        CurvyInstruction::CreateCurve { params } => {
            if accounts.len() < 3 {
                return Err(CurvyError::NotEnoughAccountKeys.to_program_error());
            }
            let mut curve_acc = accounts.remove(0);
            let mut owner_acc = accounts.remove(0);
            let system_acc = accounts.remove(0);
            let r = create_curve(
                &mut curve_acc,
                &mut owner_acc,
                &system_acc,
                program_id,
                rent,
                &params,
            );
            accounts.insert(0, system_acc);
            accounts.insert(0, owner_acc);
            accounts.insert(0, curve_acc);
            proof {
                assert(accounts@ =~= old(accounts)@.update(0, accounts@[0]).update(
                    1,
                    accounts@[1],
                ));
                assert(accounts_view(accounts@) =~= accounts_view(old(accounts)@).update(
                    0,
                    accounts@[0]@,
                ).update(1, accounts@[1]@));
            }
            match r {
                Ok(()) => Ok(()),
                Err(e) => {
                    proof {
                        assert(accounts_view(accounts@) =~= accounts_view(old(accounts)@));
                    }
                    Err(e.to_program_error())
                },
            }
        },
        CurvyInstruction::AlterCurve { params } => {
            if accounts.len() < 2 {
                return Err(CurvyError::NotEnoughAccountKeys.to_program_error());
            }
            let mut curve_acc = accounts.remove(0);
            let owner_acc = accounts.remove(0);
            let r = alter_curve(&mut curve_acc, &owner_acc, program_id, &params);
            accounts.insert(0, owner_acc);
            accounts.insert(0, curve_acc);
            proof {
                assert(accounts@ =~= old(accounts)@.update(0, accounts@[0]));
                assert(accounts_view(accounts@) =~= accounts_view(old(accounts)@).update(
                    0,
                    accounts@[0]@,
                ));
            }
            match r {
                Ok(()) => Ok(()),
                Err(e) => {
                    proof {
                        assert(accounts_view(accounts@) =~= accounts_view(old(accounts)@));
                    }
                    Err(e.to_program_error())
                },
            }
        },
        CurvyInstruction::DeleteCurve => {
            if accounts.len() < 2 {
                return Err(CurvyError::NotEnoughAccountKeys.to_program_error());
            }
            let mut curve_acc = accounts.remove(0);
            let mut owner_acc = accounts.remove(0);
            let r = delete_curve(&mut curve_acc, &mut owner_acc, program_id);
            accounts.insert(0, owner_acc);
            accounts.insert(0, curve_acc);
            proof {
                assert(accounts@ =~= old(accounts)@.update(0, accounts@[0]).update(
                    1,
                    accounts@[1],
                ));
                assert(accounts_view(accounts@) =~= accounts_view(old(accounts)@).update(
                    0,
                    accounts@[0]@,
                ).update(1, accounts@[1]@));
            }
            match r {
                Ok(()) => Ok(()),
                Err(e) => {
                    proof {
                        assert(accounts_view(accounts@) =~= accounts_view(old(accounts)@));
                    }
                    Err(e.to_program_error())
                },
            }
        },
    }
}

/// Alter is idempotent: when an alter with a valid payload succeeds,
/// repeating it with the identical payload succeeds too and leaves the slot
/// exactly as the first one did.
pub proof fn lemma_alter_idempotent(
    curve: AccountView,
    owner: AccountView,
    program_id: Seq<u8>,
    p: ParamsView,
)
    requires
        p.wf(),
        alter_outcome(curve, owner, program_id, p) is Ok,
    ensures
        alter_outcome(curve, owner, program_id, p) matches Ok(v) ==> alter_outcome(
            v,
            owner,
            program_id,
            p,
        ) == Ok::<AccountView, CurvyError>(v),
{
    let rec = match record_decode(curve.data) {
        Ok(rec) => rec,
        Err(_) => arbitrary(),
    };
    let written = init_record_view(p, rec.owner);
    assert(written.wf()) by {
        assert(rec.owner =~= curve.data.subrange(48, 80));
    }
    crate::codec::lemma_record_round_trip(written);
}

/// Delete on an absent slot (one holding no record bytes) always fails; the
/// executable delete then leaves every account untouched.
pub proof fn lemma_delete_absent_fails(
    curve: AccountView,
    owner: AccountView,
    program_id: Seq<u8>,
)
    requires
        curve.data.len() == 0,
    ensures
        delete_outcome(curve, owner, program_id) is Err,
{
}

/// Delete by an identity other than the stored owner always fails; the
/// executable delete then leaves every account untouched.
pub proof fn lemma_delete_non_owner_fails(
    curve: AccountView,
    owner: AccountView,
    program_id: Seq<u8>,
)
    requires
        record_decode(curve.data) matches Ok(rec) && owner.key != rec.owner,
    ensures
        delete_outcome(curve, owner, program_id) is Err,
{
}

} // verus!
