//! Escape-time results and the pixel intensity policy.
//!
//! The escape-time evaluator itself iterates `z = z*z + c` over complex
//! floating-point numbers and therefore lives in the application; it
//! reports its outcome as an [`EscapeResult`].  The policy that turns an
//! outcome into an 8-bit grayscale sample is integer logic and is
//! verified here.

use vstd::prelude::*;

verus! {

/// The iteration budget of the escape-time evaluator: a point that has
/// not left the radius-2 disk after this many iterations counts as
/// bounded.
pub const ESCAPE_LIMIT: u32 = 255;

/// Outcome of the escape-time test for one point of the complex plane:
/// either the iterate left the radius-2 disk at a zero-based iteration
/// index, or it stayed inside for the whole iteration budget.
#[derive(Clone, Copy, PartialEq, Eq, Structural, Debug)]
pub enum EscapeResult {
    /// The point left the disk at this zero-based iteration index.
    Escaped(u32),
    /// The point never left the disk within the iteration budget.
    Bounded,
}

impl EscapeResult {
    /// A result the evaluator can actually report: an escape index is
    /// strictly below the iteration budget.
    pub open spec fn valid(self) -> bool {
        match self {
            EscapeResult::Escaped(i) => i < ESCAPE_LIMIT,
            EscapeResult::Bounded => true,
        }
    }
}

/// The grayscale sample for one escape-time outcome: bounded points are
/// pure black, and an escape at index `i` renders as `255 - i`, so fast
/// escapes are near white and late escapes near black.
pub fn intensity(e: EscapeResult) -> (v: u8)
    requires
        e.valid(),
    ensures
        e == EscapeResult::Bounded ==> v == 0,
        e matches EscapeResult::Escaped(i) ==> v == 255 - i,
{
    match e {
        EscapeResult::Bounded => 0,
        EscapeResult::Escaped(i) => (255 - i) as u8,
    }
}

} // verus!
