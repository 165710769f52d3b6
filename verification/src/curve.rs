//! The persisted curve record, its transient parameter payload, and the
//! parameter validator that gates every create and alter.

use vstd::prelude::*;
use vstd::string::StringSliceAdditionalSpecFns;
use crate::error::{CurvyError, InvalidParamsReason};
use crate::utils::{clone_bytes, clone_samples};

verus! {

/// Byte length of the fixed, zero-padded name and formula labels.
pub const SYMBOL_MAX_SIZE: usize = 16;

/// Maximum number of `y` samples a curve may carry.
pub const MAX_Y_CNT: usize = 130;

/// Byte length of an authorization identity.
pub const IDENTITY_SIZE: usize = 32;

/// Layout version of the persisted record.
pub const CURVE_VERSION: u8 = 1;

/// An X coordinate on the scaled grid.
pub type CurveX = u32;

/// A Y sample on the scaled grid.
pub type CurveY = u32;

/// The record-type tag of a persisted curve record: the bytes of `CURVE___`.
pub open spec fn curve_discriminator() -> Seq<u8> {
    seq![67u8, 85u8, 82u8, 86u8, 69u8, 95u8, 95u8, 95u8]
}

/// The record-type tag as a byte vector.
pub fn discriminator_bytes() -> (r: Vec<u8>)
    ensures
        r@ == curve_discriminator(),
{
    let mut r: Vec<u8> = Vec::new();
    r.push(67);
    r.push(85);
    r.push(82);
    r.push(86);
    r.push(69);
    r.push(95);
    r.push(95);
    r.push(95);
    proof {
        assert(r@ =~= curve_discriminator());
    }
    r
}

/// Mathematical image of a `CurveParams` value.
pub struct ParamsView {
    pub name: Seq<u8>,
    pub formula: Seq<u8>,
    pub x0: u32,
    pub x_step: u32,
    pub y_count: u8,
    pub decimals: u8,
    pub y: Seq<u32>,
}

/// Geometry and labels of a curve, as submitted for a create or alter.
pub struct CurveParams {
    /// Zero-padded human-readable name.
    pub name: Vec<u8>,
    /// Zero-padded human-readable formula.
    pub formula: Vec<u8>,
    /// Starting X coordinate, at `decimals` scale.
    pub x0: CurveX,
    /// Step between adjacent samples on the X scale, at `decimals` scale.
    pub x_step: CurveX,
    /// Number of meaningful entries of `y`.
    pub y_count: u8,
    /// Number of fractional digits of `x0`, `x_step` and the samples.
    pub decimals: u8,
    /// The sample array; only the first `y_count` entries are meaningful.
    pub y: Vec<CurveY>,
}

impl View for CurveParams {
    type V = ParamsView;

    open spec fn view(&self) -> ParamsView {
        ParamsView {
            name: self.name@,
            formula: self.formula@,
            x0: self.x0,
            x_step: self.x_step,
            y_count: self.y_count,
            decimals: self.decimals,
            y: self.y@,
        }
    }
}

impl ParamsView {
    /// The fixed field sizes every parameter payload carries.
    pub open spec fn wf(self) -> bool {
        &&& self.name.len() == SYMBOL_MAX_SIZE
        &&& self.formula.len() == SYMBOL_MAX_SIZE
        &&& self.y.len() == MAX_Y_CNT
    }
}

/// Mathematical image of a persisted `Curve` record.
pub struct CurveView {
    pub discriminator: Seq<u8>,
    pub version: u8,
    pub name: Seq<u8>,
    pub formula: Seq<u8>,
    pub owner: Seq<u8>,
    pub x0: u32,
    pub x_step: u32,
    pub y_count: u8,
    pub decimals: u8,
    pub y: Seq<u32>,
}

/// One persisted curve record.
pub struct Curve {
    /// Record-type tag.
    pub discriminator: Vec<u8>,
    /// Layout version.
    pub version: u8,
    /// Zero-padded human-readable name.
    pub name: Vec<u8>,
    /// Zero-padded human-readable formula.
    pub formula: Vec<u8>,
    /// Identity with full rights over the record.
    pub owner: Vec<u8>,
    /// Starting X coordinate, at `decimals` scale.
    pub x0: CurveX,
    /// Step between adjacent samples on the X scale, at `decimals` scale.
    pub x_step: CurveX,
    /// Number of meaningful entries of `y`.
    pub y_count: u8,
    /// Number of fractional digits of `x0`, `x_step` and the samples.
    pub decimals: u8,
    /// The sample array; only the first `y_count` entries are meaningful.
    pub y: Vec<CurveY>,
}

impl View for Curve {
    type V = CurveView;

    open spec fn view(&self) -> CurveView {
        CurveView {
            discriminator: self.discriminator@,
            version: self.version,
            name: self.name@,
            formula: self.formula@,
            owner: self.owner@,
            x0: self.x0,
            x_step: self.x_step,
            y_count: self.y_count,
            decimals: self.decimals,
            y: self.y@,
        }
    }
}

impl CurveView {
    /// The parameter payload the record's geometry and labels correspond to.
    pub open spec fn params(self) -> ParamsView {
        ParamsView {
            name: self.name,
            formula: self.formula,
            x0: self.x0,
            x_step: self.x_step,
            y_count: self.y_count,
            decimals: self.decimals,
            y: self.y,
        }
    }

    /// The fixed field sizes every record carries.
    pub open spec fn wf(self) -> bool {
        &&& self.discriminator.len() == 8
        &&& self.name.len() == SYMBOL_MAX_SIZE
        &&& self.formula.len() == SYMBOL_MAX_SIZE
        &&& self.owner.len() == IDENTITY_SIZE
        &&& self.y.len() == MAX_Y_CNT
    }
}

/// A record freshly written from a parameter payload and an owner identity.
pub open spec fn init_record_view(p: ParamsView, owner: Seq<u8>) -> CurveView {
    CurveView {
        discriminator: curve_discriminator(),
        version: CURVE_VERSION,
        name: p.name,
        formula: p.formula,
        owner: owner,
        x0: p.x0,
        x_step: p.x_step,
        y_count: p.y_count,
        decimals: p.decimals,
        y: p.y,
    }
}

/// The first reason, if any, for which the validator rejects a payload.
///
/// The maximum grid coordinate is `x0 + x_step * (y_count - 1)`; both checks
/// on it compare values carried at the same `decimals` scale, so they reduce
/// to comparisons of the raw scaled integers.
pub open spec fn params_geometry_error(p: ParamsView) -> Option<InvalidParamsReason> {
    if p.x_step == 0 {
        Some(InvalidParamsReason::ZeroStep)
    } else if p.y_count == 0 {
        Some(InvalidParamsReason::ZeroCount)
    } else if p.decimals > 9 {
        Some(InvalidParamsReason::DecimalsTooLarge)
    } else if p.x0 + p.x_step * (p.y_count - 1) > u32::MAX {
        Some(InvalidParamsReason::MaxXTooLarge)
    } else if p.x_step * (p.y_count - 1) == 0 {
        Some(InvalidParamsReason::DegenerateRange)
    } else {
        None
    }
}

/// Whether the validator accepts a payload.
pub open spec fn params_valid(p: ParamsView) -> bool {
    params_geometry_error(p) is None
}

impl CurveParams {
    /// Builds a payload from ASCII labels, geometry, and a full sample array.
    pub fn new(
        name: &str,
        formula: &str,
        x0: CurveX,
        x_step: u32,
        y_count: u8,
        decimals: u8,
        y: Vec<CurveY>,
    ) -> (r: CurveParams)
        requires
            name.spec_bytes().len() <= SYMBOL_MAX_SIZE,
            formula.spec_bytes().len() <= SYMBOL_MAX_SIZE,
            y@.len() == MAX_Y_CNT,
        ensures
            r@.wf(),
            r@.x0 == x0,
            r@.x_step == x_step,
            r@.y_count == y_count,
            r@.decimals == decimals,
            r@.y == y@,
            forall|i: int| 0 <= i < name.spec_bytes().len() ==> r@.name[i] == name.spec_bytes()[i],
            forall|i: int| name.spec_bytes().len() <= i < SYMBOL_MAX_SIZE ==> r@.name[i] == 0u8,
            forall|i: int|
                0 <= i < formula.spec_bytes().len() ==> r@.formula[i] == formula.spec_bytes()[i],
            forall|i: int|
                formula.spec_bytes().len() <= i < SYMBOL_MAX_SIZE ==> r@.formula[i] == 0u8,
    {
        CurveParams {
            name: crate::utils::str_to_array(name, SYMBOL_MAX_SIZE),
            formula: crate::utils::str_to_array(formula, SYMBOL_MAX_SIZE),
            x0,
            x_step,
            y_count,
            decimals,
            y,
        }
    }
}

impl Curve {
    /// Checks that `x0`, `x_step`, `y_count` and `decimals` describe a
    /// non-degenerate grid whose maximum X coordinate is representable.
    pub fn check_params(params: &CurveParams) -> (r: Result<(), CurvyError>)
        ensures
            match params_geometry_error(params@) {
                Option::None => r == Ok::<(), CurvyError>(()),
                Option::Some(reason) => r == Err::<(), CurvyError>(
                    CurvyError::InvalidParams(reason),
                ),
            },
    {
        if params.x_step == 0 {
            return Err(CurvyError::InvalidParams(InvalidParamsReason::ZeroStep));
        }
        if params.y_count == 0 {
            return Err(CurvyError::InvalidParams(InvalidParamsReason::ZeroCount));
        }
        if params.decimals > 9 {
            return Err(CurvyError::InvalidParams(InvalidParamsReason::DecimalsTooLarge));
        }
        proof {
            vstd::arithmetic::mul::lemma_mul_upper_bound(
                params.x_step as int,
                u32::MAX as int,
                (params.y_count - 1) as int,
                255,
            );
        }
        let span: u64 = (params.x_step as u64) * ((params.y_count - 1) as u64);
        let max_x: u64 = (params.x0 as u64) + span;
        if max_x > u32::MAX as u64 {
            return Err(CurvyError::InvalidParams(InvalidParamsReason::MaxXTooLarge));
        }
        if span == 0 {
            return Err(CurvyError::InvalidParams(InvalidParamsReason::DegenerateRange));
        }
        Ok(())
    }

    /// Replaces every geometry and label field wholesale, restamping the tag
    /// and version; the owner is left untouched.
    pub fn set_params(&mut self, params: &CurveParams)
        ensures
            final(self)@ == init_record_view(params@, old(self)@.owner),
    {
        self.discriminator = discriminator_bytes();
        self.version = CURVE_VERSION;
        self.name = clone_bytes(&params.name);
        self.formula = clone_bytes(&params.formula);
        self.x0 = params.x0;
        self.x_step = params.x_step;
        self.y_count = params.y_count;
        self.decimals = params.decimals;
        self.y = clone_samples(&params.y);
    }

    /// The record-type tag stored in the record.
    pub fn discriminator(&self) -> (r: &Vec<u8>)
        ensures
            r@ == self@.discriminator,
    {
        &self.discriminator
    }

    /// The layout version stored in the record.
    pub fn version(&self) -> (r: u8)
        ensures
            r == self@.version,
    {
        self.version
    }

    /// A record freshly initialized from a payload and an owner identity.
    pub fn from_init_params(params: &CurveParams, owner: &Vec<u8>) -> (r: Curve)
        ensures
            r@ == init_record_view(params@, owner@),
    {
        Curve {
            discriminator: discriminator_bytes(),
            version: CURVE_VERSION,
            name: clone_bytes(&params.name),
            formula: clone_bytes(&params.formula),
            owner: clone_bytes(owner),
            x0: params.x0,
            x_step: params.x_step,
            y_count: params.y_count,
            decimals: params.decimals,
            y: clone_samples(&params.y),
        }
    }
}

/// Every payload the validator accepts has a representable, strictly
/// advancing grid: `x0 <= x0 + x_step * (y_count - 1) <= u32::MAX`, with the
/// lower bound strict. Both comparisons are of values at `decimals` scale,
/// so they are comparisons of the raw scaled integers.
pub proof fn lemma_validator_bounds(p: ParamsView)
    requires
        params_valid(p),
    ensures
        p.x0 <= p.x0 + p.x_step * (p.y_count - 1) <= u32::MAX,
        p.x0 + p.x_step * (p.y_count - 1) > p.x0,
{
    vstd::arithmetic::mul::lemma_mul_nonnegative(p.x_step as int, p.y_count - 1);
}

} // verus!
