use vstd::prelude::*;

verus! {

pub type ParseResult<T> = Result<T, ParseError>;

/// Why a text was rejected as a version.
///
/// Parsing is deterministic, so none of these is worth a retry.
#[derive(Debug, Clone, Copy, PartialEq, Eq, Structural)]
pub enum ParseError {
    /// A component that already holds digits met a letter, or the reverse.
    InvalidCharacter(char),
    /// The text gathered for a component is neither a number in range nor a
    /// recognised short token.
    InvalidValue,
    /// A character stood where a separator was due and is neither `.` nor `-`.
    UnsupportedSeparator(char),
    /// The major component ended before it had any content. No text brings
    /// this about, since only a digit starts that component.
    MajorError,
    /// The minor component ended before it had any content.
    MinorError,
    /// A separator came before the patch component had any content.
    PatchError,
    /// The text ended before any major number began.
    InvalidInput,
}

} // verus!
