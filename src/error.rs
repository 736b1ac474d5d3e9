use vstd::prelude::*;

verus! {

/// Why a render configuration was refused. Every one of these is found before
/// any pixel is computed.
#[derive(Clone, Copy, Debug, PartialEq, Eq, Structural)]
pub enum ConfigError {
    /// The pattern does not compile.
    PatternError,
    /// A color is not six hex digits, optionally after a `#`.
    ColorFormatError,
    /// The size is not a positive integer, or the canvas would not fit in memory.
    InvalidSizeError,
}

} // verus!
