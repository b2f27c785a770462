//! Byte classification: a total, pure map from a byte to its semantic
//! category, which drives both color selection and text-glyph substitution.

use vstd::prelude::*;

verus! {

/// The semantic class of a byte.
///
/// The printable range is chosen as 31..=126 inclusive: byte 31 (unit
/// separator) counts as printable, matching the lower bound used by the
/// color scheme this viewer mirrors.
#[derive(Clone, Copy, Debug, PartialEq, Eq, Structural)]
pub enum Category {
    /// Byte values 31..=126: rendered green, text glyph is the byte itself.
    Printable,
    /// Byte values 9, 10 and 13: rendered yellow, text glyph is a dot.
    WhitespaceControl,
    /// Byte value 0: rendered white, text glyph is a dot.
    Null,
    /// Byte value 255: rendered blue, text glyph is a dot.
    HighSentinel,
    /// Every other byte value: rendered red, text glyph is a dot.
    Other,
}

/// The classification rule as a mathematical function.
pub open spec fn spec_classify(b: u8) -> Category {
    if 31 <= b && b <= 126 {
        Category::Printable
    } else if b == 9 || b == 10 || b == 13 {
        Category::WhitespaceControl
    } else if b == 0 {
        Category::Null
    } else if b == 255 {
        Category::HighSentinel
    } else {
        Category::Other
    }
}

/// Classify one byte. Total over the whole byte domain and deterministic:
/// the result is exactly `spec_classify(b)`.
pub fn classify(b: u8) -> (c: Category)
    ensures
        c == spec_classify(b),
{
    if 31 <= b && b <= 126 {
        Category::Printable
    } else if b == 9 || b == 10 || b == 13 {
        Category::WhitespaceControl
    } else if b == 0 {
        Category::Null
    } else if b == 255 {
        Category::HighSentinel
    } else {
        Category::Other
    }
}

/// The five categories partition the byte domain: every byte value falls
/// under exactly one category, and each category is exactly the set of
/// values its rule names, with no overlap.
pub proof fn lemma_classify_partition()
    ensures
        forall|b: u8| spec_classify(b) == Category::Printable <==> 31 <= b <= 126,
        forall|b: u8|
            spec_classify(b) == Category::WhitespaceControl <==> (b == 9 || b == 10 || b == 13),
        forall|b: u8| spec_classify(b) == Category::Null <==> b == 0,
        forall|b: u8| spec_classify(b) == Category::HighSentinel <==> b == 255,
        forall|b: u8|
            spec_classify(b) == Category::Other <==> (1 <= b <= 8 || b == 11 || b == 12 || 14 <= b
                <= 30 || 127 <= b <= 254),
{
}

} // verus!
