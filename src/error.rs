use vstd::prelude::*;

verus! {

/// Everything that can go wrong while building or compositing an image.
#[derive(Debug, Clone, Copy, PartialEq, Eq, Structural)]
pub enum RenderError {
    /// The glyph source has no bitmap for this character.
    UnsupportedCharacter(char),
    /// Two pixel sources of different shapes were combined.
    DimensionMismatch,
    /// The canvas configuration describes no drawable image.
    InvalidConfiguration,
}

} // verus!
