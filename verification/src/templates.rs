//! The device-side source templates. To the host they are opaque text in
//! which a few bare words stand for names that the synthesizer fills in.

use vstd::prelude::*;

verus! {

/// The raw templates that the synthesizer specializes.
pub struct Templates {
    /// Carry propagation and multiplication helpers shared by every field.
    pub common: String,
    /// Arithmetic of one prime field, written over the word `FIELD`.
    pub field: String,
    /// Arithmetic of a quadratic extension, over `FIELD2` and `FIELD`.
    pub field2: String,
    /// Curve arithmetic, over `FIELD`, `POINT` and `EXPONENT`.
    pub ec: String,
    /// The radix FFT kernel, over `FIELD`.
    pub fft: String,
    /// The multi-scalar multiplication kernel, over `POINT` and `EXPONENT`.
    pub multiexp: String,
    /// The polynomial-commitment round kernel, over `POINT` and `EXPONENT`.
    pub polycommit_round_reduce: String,
}

/// The templates as plain text.
pub struct TemplatesView {
    pub common: Seq<char>,
    pub field: Seq<char>,
    pub field2: Seq<char>,
    pub ec: Seq<char>,
    pub fft: Seq<char>,
    pub multiexp: Seq<char>,
    pub polycommit_round_reduce: Seq<char>,
}

impl View for Templates {
    type V = TemplatesView;

    open spec fn view(&self) -> TemplatesView {
        TemplatesView {
            common: self.common@,
            field: self.field@,
            field2: self.field2@,
            ec: self.ec@,
            fft: self.fft@,
            multiexp: self.multiexp@,
            polycommit_round_reduce: self.polycommit_round_reduce@,
        }
    }
}

} // verus!
