//! What quantization lowering observed of the model, as legalization reads
//! it.
//!
//! The embedding is an `f32` tensor; the library holds no floats, so what
//! lowering observed of it is kept as the text the report prints and the
//! verdict of the Q11.5 bound.

use vstd::prelude::*;

verus! {

/// Facts observed while lowering the program's payloads into the integer
/// model.
#[derive(Clone, Debug, PartialEq, Eq)]
pub struct QuantLoweredModel {
    /// Fraction of zero ternary weights in permille.
    pub weight_zero_permille: u32,
    /// Largest raw Q8.8 row scale over all projections.
    pub max_scale_raw: u16,
    /// `max|embedding|` as `Display` writes the `f32`.
    pub max_abs_embedding_text: String,
    /// `max|embedding| * 32` as `{:.1}` writes it in `f64`.
    pub embedding_q11_5_text: String,
    /// `max|embedding| * 32 <= 32767`, computed in `f64`.
    pub embedding_fits_q11_5: bool,
}

} // verus!
