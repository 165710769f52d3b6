//! The instruction set of the curve store: the three lifecycle requests,
//! their tagged wire format, and the account-position helpers.
//!
//! Wire format: one tag byte (0 create, 1 alter, 2 delete); create and alter
//! carry a 562-byte parameter payload: name (16), formula (16), x0 (4,
//! little endian), x_step (4, little endian), y_count (1), decimals (1),
//! y samples (130 x 4, little endian).

use vstd::prelude::*;
use crate::codec::{
    le32, parsed_samples, push_bytes, push_u32_le, read_u32_le, samples_bytes, sub_bytes,
    u32_of_le, lemma_le32_to_u32, lemma_parsed_samples_of_bytes, lemma_samples_bytes_len,
};
use crate::curve::{CurveParams, ParamsView};
use crate::error::{CurvyError, LayoutError};

verus! {

/// Byte length of a serialized parameter payload.
pub const PARAMS_SIZE: usize = 562;

/// A lifecycle request, as submitted to the store.
pub enum CurvyInstruction {
    /// Create a curve record from the payload.
    CreateCurve { params: CurveParams },
    /// Replace an existing record's geometry and labels wholesale.
    AlterCurve { params: CurveParams },
    /// Delete an existing record, returning its balance to the owner.
    DeleteCurve,
}

/// Mathematical image of an instruction.
pub enum InstructionView {
    CreateCurve(ParamsView),
    AlterCurve(ParamsView),
    DeleteCurve,
}

impl View for CurvyInstruction {
    type V = InstructionView;

    open spec fn view(&self) -> InstructionView {
        match self {
            CurvyInstruction::CreateCurve { params } => InstructionView::CreateCurve(params@),
            CurvyInstruction::AlterCurve { params } => InstructionView::AlterCurve(params@),
            CurvyInstruction::DeleteCurve => InstructionView::DeleteCurve,
        }
    }
}

/// The bytes of a parameter payload, fields in declaration order.
pub open spec fn params_bytes(p: ParamsView) -> Seq<u8> {
    p.name + p.formula + le32(p.x0) + le32(p.x_step) + seq![p.y_count, p.decimals]
        + samples_bytes(p.y)
}

/// The payload read from a byte region of the exact payload size.
pub open spec fn params_decode(b: Seq<u8>) -> Result<ParamsView, CurvyError> {
    if b.len() != PARAMS_SIZE {
        Err(CurvyError::Instruction(LayoutError::Size))
    } else {
        Ok(
            ParamsView {
                name: b.subrange(0, 16),
                formula: b.subrange(16, 32),
                x0: u32_of_le(b[32], b[33], b[34], b[35]),
                x_step: u32_of_le(b[36], b[37], b[38], b[39]),
                y_count: b[40],
                decimals: b[41],
                y: parsed_samples(b.subrange(42, 562)),
            },
        )
    }
}

/// The bytes of a whole instruction: a tag byte, then the payload if any.
pub open spec fn instruction_bytes(i: InstructionView) -> Seq<u8> {
    match i {
        InstructionView::CreateCurve(p) => seq![0u8] + params_bytes(p),
        InstructionView::AlterCurve(p) => seq![1u8] + params_bytes(p),
        InstructionView::DeleteCurve => seq![2u8],
    }
}

/// The instruction read from submitted bytes, or the first reason they are
/// rejected: no tag, an unknown tag, or a payload of the wrong size.
pub open spec fn instruction_decode(b: Seq<u8>) -> Result<InstructionView, CurvyError> {
    if b.len() == 0 {
        Err(CurvyError::Instruction(LayoutError::Size))
    } else if b[0] == 0 {
        match params_decode(b.skip(1)) {
            Ok(p) => Ok(InstructionView::CreateCurve(p)),
            Err(e) => Err(e),
        }
    } else if b[0] == 1 {
        match params_decode(b.skip(1)) {
            Ok(p) => Ok(InstructionView::AlterCurve(p)),
            Err(e) => Err(e),
        }
    } else if b[0] == 2 {
        if b.len() == 1 {
            Ok(InstructionView::DeleteCurve)
        } else {
            Err(CurvyError::Instruction(LayoutError::Size))
        }
    } else {
        Err(CurvyError::Instruction(LayoutError::Tag))
    }
}

/// Serializes a parameter payload.
pub fn params_to_bytes(p: &CurveParams) -> (r: Vec<u8>)
    requires
        p@.wf(),
    ensures
        r@ == params_bytes(p@),
        r@.len() == PARAMS_SIZE,
{
    let mut out: Vec<u8> = Vec::new();
    push_bytes(&mut out, &p.name);
    push_bytes(&mut out, &p.formula);
    push_u32_le(&mut out, p.x0);
    push_u32_le(&mut out, p.x_step);
    out.push(p.y_count);
    out.push(p.decimals);
    let ghost prefix = out@;
    let mut i: usize = 0;
    while i < p.y.len()
        invariant
            i <= p.y@.len(),
            out@ =~= prefix + samples_bytes(p.y@.take(i as int)),
        decreases p.y@.len() - i,
    {
        push_u32_le(&mut out, p.y[i]);
        proof {
            crate::codec::lemma_samples_bytes_take(p.y@, i as int);
        }
        i = i + 1;
    }
    proof {
        assert(p.y@.take(p.y@.len() as int) =~= p.y@);
        assert(out@ =~= params_bytes(p@));
        lemma_samples_bytes_len(p.y@);
    }
    out
}

/// Deserializes a parameter payload of the exact payload size.
fn params_from_bytes(b: &Vec<u8>) -> (r: Result<CurveParams, CurvyError>)
    ensures
        match r {
            Ok(p) => params_decode(b@) == Ok::<ParamsView, CurvyError>(p@) && p@.wf(),
            Err(e) => params_decode(b@) == Err::<ParamsView, CurvyError>(e),
        },
{
    if b.len() != PARAMS_SIZE {
        return Err(CurvyError::Instruction(LayoutError::Size));
    }
    let name = sub_bytes(b, 0, 16);
    let formula = sub_bytes(b, 16, 32);
    let x0 = read_u32_le(b, 32);
    let x_step = read_u32_le(b, 36);
    let y_count = b[40];
    let decimals = b[41];
    let mut y: Vec<u32> = Vec::new();
    let mut i: usize = 0;
    while i < 130
        invariant
            i <= 130,
            b@.len() == PARAMS_SIZE,
            y@.len() == i,
            forall|j: int|
                0 <= j < i ==> y@[j] == u32_of_le(
                    b@[42 + 4 * j],
                    b@[42 + 4 * j + 1],
                    b@[42 + 4 * j + 2],
                    b@[42 + 4 * j + 3],
                ),
        decreases 130 - i,
    {
        y.push(read_u32_le(b, 42 + 4 * i));
        i = i + 1;
    }
    let p = CurveParams { name, formula, x0, x_step, y_count, decimals, y };
    proof {
        let region = b@.subrange(42, 562);
        assert forall|j: int| 0 <= j < 130 implies parsed_samples(region)[j] == p.y@[j] by {
            assert(region[4 * j] == b@[42 + 4 * j]);
            assert(region[4 * j + 1] == b@[42 + 4 * j + 1]);
            assert(region[4 * j + 2] == b@[42 + 4 * j + 2]);
            assert(region[4 * j + 3] == b@[42 + 4 * j + 3]);
        }
        assert(parsed_samples(region) =~= p.y@);
        assert(params_decode(b@) == Ok::<ParamsView, CurvyError>(p@));
    }
    Ok(p)
}

impl CurvyInstruction {
    /// Serializes the instruction into its tagged wire format.
    pub fn to_bytes(&self) -> (r: Vec<u8>)
        requires
            self@ matches InstructionView::CreateCurve(p) ==> p.wf(),
            self@ matches InstructionView::AlterCurve(p) ==> p.wf(),
        ensures
            r@ == instruction_bytes(self@),
    {
        let mut out: Vec<u8> = Vec::new();
        match self {
            CurvyInstruction::CreateCurve { params } => {
                out.push(0);
                let body = params_to_bytes(params);
                push_bytes(&mut out, &body);
                proof {
                    assert(out@ =~= instruction_bytes(self@));
                }
            },
            CurvyInstruction::AlterCurve { params } => {
                out.push(1);
                let body = params_to_bytes(params);
                push_bytes(&mut out, &body);
                proof {
                    assert(out@ =~= instruction_bytes(self@));
                }
            },
            CurvyInstruction::DeleteCurve => {
                out.push(2);
                proof {
                    assert(out@ =~= instruction_bytes(self@));
                }
            },
        }
        out
    }

    /// Deserializes an instruction, rejecting unknown tags and payloads of
    /// the wrong size.
    pub fn try_from_slice(input: &[u8]) -> (r: Result<CurvyInstruction, CurvyError>)
        ensures
            match r {
                Ok(ix) => instruction_decode(input@) == Ok::<InstructionView, CurvyError>(ix@)
                    && (ix@ matches InstructionView::CreateCurve(p) ==> p.wf())
                    && (ix@ matches InstructionView::AlterCurve(p) ==> p.wf()),
                Err(e) => instruction_decode(input@) == Err::<InstructionView, CurvyError>(e),
            },
    {
        let b = vstd::slice::slice_to_vec(input);
        if b.len() == 0 {
            return Err(CurvyError::Instruction(LayoutError::Size));
        }
        let tag = b[0];
        if tag == 0 || tag == 1 {
            let body = sub_bytes(&b, 1, b.len());
            proof {
                assert(body@ =~= b@.skip(1));
            }
            let params = match params_from_bytes(&body) {
                Ok(p) => p,
                Err(e) => {
                    return Err(e);
                },
            };
            if tag == 0 {
                Ok(CurvyInstruction::CreateCurve { params })
            } else {
                Ok(CurvyInstruction::AlterCurve { params })
            }
        } else if tag == 2 {
            if b.len() == 1 {
                Ok(CurvyInstruction::DeleteCurve)
            } else {
                Err(CurvyError::Instruction(LayoutError::Size))
            }
        } else {
            Err(CurvyError::Instruction(LayoutError::Tag))
        }
    }
}

/// Reading a serialized payload back yields the original payload.
pub proof fn lemma_params_round_trip(p: ParamsView)
    requires
        p.wf(),
    ensures
        params_decode(params_bytes(p)) == Ok::<ParamsView, CurvyError>(p),
{
    let b = params_bytes(p);
    lemma_samples_bytes_len(p.y);
    assert(b.len() == PARAMS_SIZE);
    assert(b.subrange(0, 16) =~= p.name);
    assert(b.subrange(16, 32) =~= p.formula);
    assert(b[32] == le32(p.x0)[0]);
    assert(b[33] == le32(p.x0)[1]);
    assert(b[34] == le32(p.x0)[2]);
    assert(b[35] == le32(p.x0)[3]);
    lemma_le32_to_u32(p.x0);
    assert(b[36] == le32(p.x_step)[0]);
    assert(b[37] == le32(p.x_step)[1]);
    assert(b[38] == le32(p.x_step)[2]);
    assert(b[39] == le32(p.x_step)[3]);
    lemma_le32_to_u32(p.x_step);
    assert(b[40] == p.y_count);
    assert(b[41] == p.decimals);
    assert(b.subrange(42, 562) =~= samples_bytes(p.y));
    lemma_parsed_samples_of_bytes(p.y);
    let d = params_decode(b);
    assert(d matches Ok(v) && v =~= p);
}

/// Reading a serialized instruction back yields the original instruction.
pub proof fn lemma_instruction_round_trip(i: InstructionView)
    requires
        i matches InstructionView::CreateCurve(p) ==> p.wf(),
        i matches InstructionView::AlterCurve(p) ==> p.wf(),
    ensures
        instruction_decode(instruction_bytes(i)) == Ok::<InstructionView, CurvyError>(i),
{
    let b = instruction_bytes(i);
    match i {
        InstructionView::CreateCurve(p) => {
            lemma_samples_bytes_len(p.y);
            assert(b.skip(1) =~= params_bytes(p));
            lemma_params_round_trip(p);
        },
        InstructionView::AlterCurve(p) => {
            lemma_samples_bytes_len(p.y);
            assert(b.skip(1) =~= params_bytes(p));
            lemma_params_round_trip(p);
        },
        InstructionView::DeleteCurve => {
        },
    }
}

/// Positions of the accounts a create consumes, in submission order.
#[derive(Debug, PartialEq, Eq, Structural)]
pub struct CreateCurveAccountIndexes {
    pub curve: usize,
    pub owner: usize,
    pub system_program: usize,
}

impl CreateCurveAccountIndexes {
    /// The direct submission order: curve, owner, system program.
    pub fn new_direct_order() -> (r: CreateCurveAccountIndexes)
        ensures
            r.curve == 0,
            r.owner == 1,
            r.system_program == 2,
    {
        CreateCurveAccountIndexes { curve: 0, owner: 1, system_program: 2 }
    }

    /// Reads the three positions from a caller-supplied index list; the
    /// error names the first position the list is missing.
    pub fn try_from_indexes(indexes: &[u8]) -> (r: Result<CreateCurveAccountIndexes, usize>)
        ensures
            match r {
                Ok(v) => indexes@.len() >= 3 && v.curve == indexes@[0] && v.owner == indexes@[1]
                    && v.system_program == indexes@[2],
                Err(k) => indexes@.len() < 3 && k == indexes@.len(),
            },
    {
        if indexes.len() < 3 {
            return Err(indexes.len());
        }
        Ok(
            CreateCurveAccountIndexes {
                curve: *vstd::slice::slice_index_get(indexes, 0) as usize,
                owner: *vstd::slice::slice_index_get(indexes, 1) as usize,
                system_program: *vstd::slice::slice_index_get(indexes, 2) as usize,
            },
        )
    }
}

/// Positions of the accounts an alter consumes, in submission order.
#[derive(Debug, PartialEq, Eq, Structural)]
pub struct AlterCurveAccountIndexes {
    pub curve: usize,
    pub owner: usize,
}

impl AlterCurveAccountIndexes {
    /// The direct submission order: curve, owner.
    pub fn new_direct_order() -> (r: AlterCurveAccountIndexes)
        ensures
            r.curve == 0,
            r.owner == 1,
    {
        AlterCurveAccountIndexes { curve: 0, owner: 1 }
    }

    /// Reads the two positions from a caller-supplied index list; the error
    /// names the first position the list is missing.
    pub fn try_from_indexes(indexes: &[u8]) -> (r: Result<AlterCurveAccountIndexes, usize>)
        ensures
            match r {
                Ok(v) => indexes@.len() >= 2 && v.curve == indexes@[0] && v.owner == indexes@[1],
                Err(k) => indexes@.len() < 2 && k == indexes@.len(),
            },
    {
        if indexes.len() < 2 {
            return Err(indexes.len());
        }
        Ok(
            AlterCurveAccountIndexes {
                curve: *vstd::slice::slice_index_get(indexes, 0) as usize,
                owner: *vstd::slice::slice_index_get(indexes, 1) as usize,
            },
        )
    }
}

/// Positions of the accounts a delete consumes, in submission order.
#[derive(Debug, PartialEq, Eq, Structural)]
pub struct DeleteCurveAccountIndexes {
    pub curve: usize,
    pub owner: usize,
}

impl DeleteCurveAccountIndexes {
    /// The direct submission order: curve, owner.
    pub fn new_direct_order() -> (r: DeleteCurveAccountIndexes)
        ensures
            r.curve == 0,
            r.owner == 1,
    {
        DeleteCurveAccountIndexes { curve: 0, owner: 1 }
    }

    /// Reads the two positions from a caller-supplied index list; the error
    /// names the first position the list is missing.
    pub fn try_from_indexes(indexes: &[u8]) -> (r: Result<DeleteCurveAccountIndexes, usize>)
        ensures
            match r {
                Ok(v) => indexes@.len() >= 2 && v.curve == indexes@[0] && v.owner == indexes@[1],
                Err(k) => indexes@.len() < 2 && k == indexes@.len(),
            },
    {
        if indexes.len() < 2 {
            return Err(indexes.len());
        }
        Ok(
            DeleteCurveAccountIndexes {
                curve: *vstd::slice::slice_index_get(indexes, 0) as usize,
                owner: *vstd::slice::slice_index_get(indexes, 1) as usize,
            },
        )
    }
}

} // verus!
