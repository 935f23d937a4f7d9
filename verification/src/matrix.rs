use vstd::prelude::*;

verus! {

/// A 4x4 matrix of single-precision numbers, held as their IEEE-754
/// encodings: `columns[c][r]` is the encoding of the entry in column `c`
/// and row `r`.
#[derive(Clone, Copy, Debug, PartialEq, Eq)]
pub struct Mat4 {
    pub columns: [[u32; 4]; 4],
}

/// Whether `bits` encodes a NaN: the exponent is all ones and the fraction
/// is not zero.
pub open spec fn is_nan(bits: u32) -> bool {
    bits % 0x8000_0000 > 0x7F80_0000
}

/// The encoding that stands for `bits` in contracts. Every NaN is taken to
/// the one quiet NaN, because arithmetic does not fix which NaN it yields;
/// every other encoding stands for itself.
pub open spec fn canonical(bits: u32) -> u32 {
    if is_nan(bits) {
        0x7FC0_0000
    } else {
        bits
    }
}

impl View for Mat4 {
    type V = Seq<u32>;

    /// The sixteen canonical encodings in column-major order.
    open spec fn view(&self) -> Seq<u32> {
        Seq::new(16, |i: int| canonical(self.columns[i / 4][i % 4]))
    }
}

/// The canonical encodings of the product `a * b` of two 4x4 matrices given
/// by their canonical encodings, as single-precision arithmetic computes it.
pub uninterp spec fn mat4_product(a: Seq<u32>, b: Seq<u32>) -> Seq<u32>;

/// Multiplies two matrices with `nalgebra`'s `Mul` for `Matrix4`
/// (reached through `nalgebra_glm::Mat4x4`). The contract claims that the
/// entries of the result, NaNs taken as one value, depend only on the
/// entries of the operands, NaNs taken as one value: the product is a fixed
/// sequence of single-precision multiplications and additions.
#[verifier::external_body]
pub(crate) fn product(a: &Mat4, b: &Mat4) -> (r: Mat4)
    ensures
        r@ == mat4_product(a@, b@),
{
    let lhs = nalgebra_glm::Mat4x4::from(a.columns.map(|c| c.map(nalgebra_glm::uint_bits_to_float_scalar)));
    let rhs = nalgebra_glm::Mat4x4::from(b.columns.map(|c| c.map(nalgebra_glm::uint_bits_to_float_scalar)));
    let out: [[_; 4]; 4] = (lhs * rhs).into();
    Mat4 { columns: out.map(|c| c.map(nalgebra_glm::float_bits_to_uint)) }
}

} // verus!
