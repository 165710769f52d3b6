//! The fixed binary layout of a persisted curve record, and the byte-level
//! encoder and decoder that gate every reinterpretation of raw slot data.
//!
//! Layout, 616 bytes, 8-byte aligned: discriminator (8), version (1),
//! padding (7), name (16), formula (16), owner (32), x0 (4, little endian),
//! x_step (4, little endian), y_count (1), decimals (1), padding (6),
//! y samples (130 x 4, little endian).

use vstd::prelude::*;
use crate::curve::{Curve, CurveView, CURVE_VERSION, curve_discriminator, discriminator_bytes};
use crate::error::{CurvyError, LayoutError};
use crate::utils::bytes_eq;

verus! {

/// Byte length of a persisted curve record.
pub const CURVE_SIZE: usize = 616;

/// The little-endian bytes of a 32-bit word.
pub open spec fn le32(x: u32) -> Seq<u8> {
    seq![
        (x & 0xff) as u8,
        ((x >> 8) & 0xff) as u8,
        ((x >> 16) & 0xff) as u8,
        ((x >> 24) & 0xff) as u8,
    ]
}

/// The 32-bit word read from four little-endian bytes.
pub open spec fn u32_of_le(b0: u8, b1: u8, b2: u8, b3: u8) -> u32 {
    (b0 as u32) | ((b1 as u32) << 8) | ((b2 as u32) << 16) | ((b3 as u32) << 24)
}

/// `n` zero bytes.
pub open spec fn zero_seq(n: nat) -> Seq<u8> {
    Seq::new(n, |i: int| 0u8)
}

/// The sample array as consecutive little-endian words.
pub open spec fn samples_bytes(ys: Seq<u32>) -> Seq<u8>
    decreases ys.len(),
{
    if ys.len() == 0 {
        Seq::empty()
    } else {
        le32(ys[0]) + samples_bytes(ys.drop_first())
    }
}

/// Consecutive little-endian words read back from a byte region.
pub open spec fn parsed_samples(b: Seq<u8>) -> Seq<u32> {
    Seq::new(b.len() / 4, |i: int| u32_of_le(b[4 * i], b[4 * i + 1], b[4 * i + 2], b[4 * i + 3]))
}

/// The bytes of a whole record, fields in layout order with zero padding.
pub open spec fn record_bytes(c: CurveView) -> Seq<u8> {
    c.discriminator + seq![c.version] + zero_seq(7) + c.name + c.formula + c.owner + le32(c.x0)
        + le32(c.x_step) + seq![c.y_count, c.decimals] + zero_seq(6) + samples_bytes(c.y)
}

/// The record read from a byte region, or the first reason the bytes are
/// rejected: wrong size, wrong record-type tag, or wrong layout version.
pub open spec fn record_decode(b: Seq<u8>) -> Result<CurveView, CurvyError> {
    if b.len() != CURVE_SIZE {
        Err(CurvyError::Record(LayoutError::Size))
    } else if b.subrange(0, 8) != curve_discriminator() {
        Err(CurvyError::Record(LayoutError::Discriminator))
    } else if b[8] != CURVE_VERSION {
        Err(CurvyError::Record(LayoutError::Version))
    } else {
        Ok(
            CurveView {
                discriminator: b.subrange(0, 8),
                version: b[8],
                name: b.subrange(16, 32),
                formula: b.subrange(32, 48),
                owner: b.subrange(48, 80),
                x0: u32_of_le(b[80], b[81], b[82], b[83]),
                x_step: u32_of_le(b[84], b[85], b[86], b[87]),
                y_count: b[88],
                decimals: b[89],
                y: parsed_samples(b.subrange(96, 616)),
            },
        )
    }
}

pub proof fn lemma_le32_to_u32(x: u32)
    ensures
        u32_of_le(
            (x & 0xff) as u8,
            ((x >> 8) & 0xff) as u8,
            ((x >> 16) & 0xff) as u8,
            ((x >> 24) & 0xff) as u8,
        ) == x,
{
    assert((((x & 0xff) as u8) as u32) | (((((x >> 8) & 0xff) as u8) as u32) << 8) | (((((x
        >> 16) & 0xff) as u8) as u32) << 16) | (((((x >> 24) & 0xff) as u8) as u32) << 24)
        == x) by (bit_vector);
}

pub proof fn lemma_u32_to_le32(b0: u8, b1: u8, b2: u8, b3: u8)
    ensures
        le32(u32_of_le(b0, b1, b2, b3)) =~= seq![b0, b1, b2, b3],
{
    let x = u32_of_le(b0, b1, b2, b3);
    assert((((b0 as u32) | ((b1 as u32) << 8) | ((b2 as u32) << 16) | ((b3 as u32) << 24))
        & 0xff) as u8 == b0) by (bit_vector);
    assert(((((b0 as u32) | ((b1 as u32) << 8) | ((b2 as u32) << 16) | ((b3 as u32) << 24))
        >> 8) & 0xff) as u8 == b1) by (bit_vector);
    assert(((((b0 as u32) | ((b1 as u32) << 8) | ((b2 as u32) << 16) | ((b3 as u32) << 24))
        >> 16) & 0xff) as u8 == b2) by (bit_vector);
    assert(((((b0 as u32) | ((b1 as u32) << 8) | ((b2 as u32) << 16) | ((b3 as u32) << 24))
        >> 24) & 0xff) as u8 == b3) by (bit_vector);
}

pub proof fn lemma_samples_bytes_len(ys: Seq<u32>)
    ensures
        samples_bytes(ys).len() == 4 * ys.len(),
    decreases ys.len(),
{
    if ys.len() > 0 {
        lemma_samples_bytes_len(ys.drop_first());
    }
}

/// Each word of the sample array lands at its own four-byte slot.
pub proof fn lemma_samples_bytes_index(ys: Seq<u32>, i: int)
    requires
        0 <= i < ys.len(),
    ensures
        samples_bytes(ys).subrange(4 * i, 4 * i + 4) =~= le32(ys[i]),
    decreases i,
{
    lemma_samples_bytes_len(ys);
    lemma_samples_bytes_len(ys.drop_first());
    if i == 0 {
        assert(samples_bytes(ys).subrange(0, 4) =~= le32(ys[0]));
    } else {
        lemma_samples_bytes_index(ys.drop_first(), i - 1);
        assert(samples_bytes(ys).subrange(4 * i, 4 * i + 4) =~= samples_bytes(
            ys.drop_first(),
        ).subrange(4 * (i - 1), 4 * (i - 1) + 4));
    }
}

/// Reading the sample region back yields the original sample array.
pub proof fn lemma_parsed_samples_of_bytes(ys: Seq<u32>)
    ensures
        parsed_samples(samples_bytes(ys)) =~= ys,
{
    lemma_samples_bytes_len(ys);
    let b = samples_bytes(ys);
    assert forall|i: int| 0 <= i < ys.len() implies parsed_samples(b)[i] == ys[i] by {
        lemma_samples_bytes_index(ys, i);
        assert(b[4 * i] == le32(ys[i])[0]);
        assert(b[4 * i + 1] == le32(ys[i])[1]);
        assert(b[4 * i + 2] == le32(ys[i])[2]);
        assert(b[4 * i + 3] == le32(ys[i])[3]);
        lemma_le32_to_u32(ys[i]);
    }
}

/// Growing the parsed prefix by one word parses one more sample.
pub proof fn lemma_samples_bytes_take(ys: Seq<u32>, i: int)
    requires
        0 <= i < ys.len(),
    ensures
        samples_bytes(ys.take(i + 1)) =~= samples_bytes(ys.take(i)) + le32(ys[i]),
    decreases i,
{
    lemma_samples_bytes_len(ys.take(i + 1));
    lemma_samples_bytes_len(ys.take(i));
    if i == 0 {
        assert(ys.take(1).drop_first() =~= Seq::<u32>::empty());
        assert(samples_bytes(ys.take(1)) =~= le32(ys[0]));
        assert(samples_bytes(ys.take(0)) =~= Seq::<u8>::empty());
    } else {
        let t1 = ys.take(i + 1);
        let t0 = ys.take(i);
        assert(t1.drop_first() =~= ys.drop_first().take(i));
        assert(t0.drop_first() =~= ys.drop_first().take(i - 1));
        lemma_samples_bytes_take(ys.drop_first(), i - 1);
        assert(samples_bytes(t1) =~= le32(ys[0]) + samples_bytes(ys.drop_first().take(i)));
        assert(samples_bytes(t0) =~= le32(ys[0]) + samples_bytes(ys.drop_first().take(i - 1)));
        assert(samples_bytes(ys.take(i + 1)) =~= samples_bytes(ys.take(i)) + le32(ys[i]));
    }
}

/// Appends the little-endian bytes of a 32-bit word.
pub fn push_u32_le(out: &mut Vec<u8>, x: u32)
    ensures
        final(out)@ =~= old(out)@ + le32(x),
{
    out.push((x & 0xff) as u8);
    out.push(((x >> 8) & 0xff) as u8);
    out.push(((x >> 16) & 0xff) as u8);
    out.push(((x >> 24) & 0xff) as u8);
}

/// Appends a whole byte vector.
pub fn push_bytes(out: &mut Vec<u8>, v: &Vec<u8>)
    ensures
        final(out)@ =~= old(out)@ + v@,
{
    let mut i: usize = 0;
    while i < v.len()
        invariant
            i <= v@.len(),
            out@ =~= old(out)@ + v@.take(i as int),
        decreases v@.len() - i,
    {
        out.push(v[i]);
        proof {
            assert(old(out)@ + v@.take(i + 1) =~= (old(out)@ + v@.take(i as int)).push(
                v@[i as int],
            ));
        }
        i = i + 1;
    }
    proof {
        assert(v@.take(v@.len() as int) =~= v@);
    }
}

/// Appends `n` zero bytes.
pub fn push_zeros(out: &mut Vec<u8>, n: usize)
    ensures
        final(out)@ =~= old(out)@ + zero_seq(n as nat),
{
    let mut i: usize = 0;
    while i < n
        invariant
            i <= n,
            out@ =~= old(out)@ + zero_seq(i as nat),
        decreases n - i,
    {
        out.push(0);
        proof {
            assert(old(out)@ + zero_seq((i + 1) as nat) =~= (old(out)@ + zero_seq(i as nat)).push(
                0u8,
            ));
        }
        i = i + 1;
    }
}

/// Reads the 32-bit word stored little endian at `off`.
pub fn read_u32_le(b: &Vec<u8>, off: usize) -> (x: u32)
    requires
        off + 4 <= b@.len(),
    ensures
        x == u32_of_le(b@[off as int], b@[off as int + 1], b@[off as int + 2], b@[off as int + 3]),
        le32(x) =~= b@.subrange(off as int, off as int + 4),
{
    let n = b.len();
    let b0 = b[off];
    let b1 = b[off + 1];
    let b2 = b[off + 2];
    let b3 = b[off + 3];
    let x = (b0 as u32) | ((b1 as u32) << 8) | ((b2 as u32) << 16) | ((b3 as u32) << 24);
    proof {
        lemma_u32_to_le32(b0, b1, b2, b3);
        assert(le32(x) =~= b@.subrange(off as int, off as int + 4));
    }
    x
}

/// A fresh copy of the byte region `[i, j)`.
pub fn sub_bytes(b: &Vec<u8>, i: usize, j: usize) -> (r: Vec<u8>)
    requires
        i <= j <= b@.len(),
    ensures
        r@ == b@.subrange(i as int, j as int),
{
    vstd::slice::slice_to_vec(vstd::slice::slice_subrange(b.as_slice(), i, j))
}

impl Curve {
    /// Serializes the record into its fixed 616-byte layout.
    pub fn to_bytes(&self) -> (r: Vec<u8>)
        requires
            self@.wf(),
        ensures
            r@ == record_bytes(self@),
            r@.len() == CURVE_SIZE,
    {
        let mut out: Vec<u8> = Vec::new();
        push_bytes(&mut out, &self.discriminator);
        out.push(self.version);
        push_zeros(&mut out, 7);
        push_bytes(&mut out, &self.name);
        push_bytes(&mut out, &self.formula);
        push_bytes(&mut out, &self.owner);
        push_u32_le(&mut out, self.x0);
        push_u32_le(&mut out, self.x_step);
        out.push(self.y_count);
        out.push(self.decimals);
        push_zeros(&mut out, 6);
        let ghost prefix = out@;
        let mut i: usize = 0;
        while i < self.y.len()
            invariant
                i <= self.y@.len(),
                out@ =~= prefix + samples_bytes(self.y@.take(i as int)),
            decreases self.y@.len() - i,
        {
            push_u32_le(&mut out, self.y[i]);
            proof {
                lemma_samples_bytes_take(self.y@, i as int);
            }
            i = i + 1;
        }
        proof {
            assert(self.y@.take(self.y@.len() as int) =~= self.y@);
            assert(out@ =~= record_bytes(self@));
            lemma_samples_bytes_len(self.y@);
        }
        out
    }

    /// Deserializes a record, rejecting bytes whose size, record-type tag or
    /// layout version does not match.
    pub fn try_from_bytes(data: &[u8]) -> (r: Result<Curve, CurvyError>)
        ensures
            match r {
                Ok(c) => record_decode(data@) == Ok::<CurveView, CurvyError>(c@) && c@.wf(),
                Err(e) => record_decode(data@) == Err::<CurveView, CurvyError>(e),
            },
    {
        let b = vstd::slice::slice_to_vec(data);
        if b.len() != CURVE_SIZE {
            return Err(CurvyError::Record(LayoutError::Size));
        }
        let disc = sub_bytes(&b, 0, 8);
        if !bytes_eq(&disc, &discriminator_bytes()) {
            return Err(CurvyError::Record(LayoutError::Discriminator));
        }
        let version = b[8];
        if version != CURVE_VERSION {
            return Err(CurvyError::Record(LayoutError::Version));
        }
        let name = sub_bytes(&b, 16, 32);
        let formula = sub_bytes(&b, 32, 48);
        let owner = sub_bytes(&b, 48, 80);
        let x0 = read_u32_le(&b, 80);
        let x_step = read_u32_le(&b, 84);
        let y_count = b[88];
        let decimals = b[89];
        let mut y: Vec<u32> = Vec::new();
        let mut i: usize = 0;
        while i < 130
            invariant
                i <= 130,
                b@.len() == CURVE_SIZE,
                y@.len() == i,
                forall|j: int|
                    0 <= j < i ==> y@[j] == u32_of_le(
                        b@[96 + 4 * j],
                        b@[96 + 4 * j + 1],
                        b@[96 + 4 * j + 2],
                        b@[96 + 4 * j + 3],
                    ),
            decreases 130 - i,
        {
            y.push(read_u32_le(&b, 96 + 4 * i));
            i = i + 1;
        }
        let c = Curve { discriminator: disc, version, name, formula, owner, x0, x_step, y_count, decimals, y };
        proof {
            let region = b@.subrange(96, 616);
            assert forall|j: int| 0 <= j < 130 implies parsed_samples(region)[j] == c.y@[j] by {
                assert(region[4 * j] == b@[96 + 4 * j]);
                assert(region[4 * j + 1] == b@[96 + 4 * j + 1]);
                assert(region[4 * j + 2] == b@[96 + 4 * j + 2]);
                assert(region[4 * j + 3] == b@[96 + 4 * j + 3]);
            }
            assert(parsed_samples(region) =~= c.y@);
            assert(record_decode(data@) == Ok::<CurveView, CurvyError>(c@));
        }
        Ok(c)
    }
}

/// Serializing a well-formed, correctly tagged record and reading the bytes
/// back reproduces the record exactly, zeroed padding included.
pub proof fn lemma_record_round_trip(c: CurveView)
    requires
        c.wf(),
        c.discriminator == curve_discriminator(),
        c.version == CURVE_VERSION,
    ensures
        record_decode(record_bytes(c)) == Ok::<CurveView, CurvyError>(c),
{
    let b = record_bytes(c);
    lemma_samples_bytes_len(c.y);
    assert(b.len() == CURVE_SIZE);
    assert(b.subrange(0, 8) =~= c.discriminator);
    assert(b[8] == c.version);
    assert(b.subrange(16, 32) =~= c.name);
    assert(b.subrange(32, 48) =~= c.formula);
    assert(b.subrange(48, 80) =~= c.owner);
    assert(b[80] == le32(c.x0)[0]);
    assert(b[81] == le32(c.x0)[1]);
    assert(b[82] == le32(c.x0)[2]);
    assert(b[83] == le32(c.x0)[3]);
    lemma_le32_to_u32(c.x0);
    assert(b[84] == le32(c.x_step)[0]);
    assert(b[85] == le32(c.x_step)[1]);
    assert(b[86] == le32(c.x_step)[2]);
    assert(b[87] == le32(c.x_step)[3]);
    lemma_le32_to_u32(c.x_step);
    assert(b[88] == c.y_count);
    assert(b[89] == c.decimals);
    assert(b.subrange(96, 616) =~= samples_bytes(c.y));
    lemma_parsed_samples_of_bytes(c.y);
    let d = record_decode(b);
    assert(d matches Ok(v) && v =~= c);
}

/// Bytes of the right size whose record-type tag or layout version does not
/// match are rejected, never reinterpreted as a record.
pub proof fn lemma_mismatch_rejected(b: Seq<u8>)
    requires
        b.len() == CURVE_SIZE,
    ensures
        b.subrange(0, 8) != curve_discriminator() ==> record_decode(b) == Err::<
            CurveView,
            CurvyError,
        >(CurvyError::Record(LayoutError::Discriminator)),
        b.subrange(0, 8) == curve_discriminator() && b[8] != CURVE_VERSION ==> record_decode(b)
            == Err::<CurveView, CurvyError>(CurvyError::Record(LayoutError::Version)),
{
}

} // verus!
