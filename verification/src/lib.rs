//! Reads version-like texts, such as `v1.2.3-rc.1` or `2023-Nov-02`, and moves
//! them on to the next patch number while every character around the three
//! components stays as it was found.

use vstd::prelude::*;

use errors::{ParseError, ParseResult};
use version_parser::{parse_text, VersionParser};

pub mod charclass;
pub mod decimal;
pub mod errors;
pub mod round_trip;
pub mod separator;
pub mod swap;
pub mod text;
pub mod version;
pub mod version_buff;
pub mod version_parser;

verus! {

/// The text of a version with its patch number raised by one, or the reason
/// why the text holds no version.
pub open spec fn bump_patch_text(text: Seq<char>) -> Result<Seq<char>, ParseError> {
    match parse_text(text) {
        Ok(v) => Ok(v.bumped().display_text()),
        Err(e) => Err(e),
    }
}

/// Whether the patch number of the version in a text, if it holds one, has a
/// successor within the range of `usize`.
pub open spec fn patch_can_grow(text: Seq<char>) -> bool {
    parse_text(text) matches Ok(v) ==> v.patch < usize::MAX
}

/// Bumps the patch number of the version in a text.
///
/// The result is the text of the same version with the next patch number, in
/// the shape of the input: same prefix, same separator, same suffix.
pub fn bump_patch(input: &str) -> (r: ParseResult<String>)
    requires
        patch_can_grow(input@),
    ensures
        match r {
            Ok(s) => bump_patch_text(input@) == Ok::<Seq<char>, ParseError>(s@),
            Err(e) => bump_patch_text(input@) == Err::<Seq<char>, ParseError>(e),
        },
{
    let mut ver = VersionParser::parse(input)?;
    ver.bump_patch();
    Ok(ver.to_string())
}

/// Bumps the patch number of the version in a text wherever that number has a
/// successor, and answers `None` where the patch number is the largest `usize`.
pub fn checked_bump_patch(input: &str) -> (r: Option<ParseResult<String>>)
    ensures
        match r {
            Some(Ok(s)) => patch_can_grow(input@) && bump_patch_text(input@) == Ok::<
                Seq<char>,
                ParseError,
            >(s@),
            Some(Err(e)) => bump_patch_text(input@) == Err::<Seq<char>, ParseError>(e),
            None => !patch_can_grow(input@),
        },
{
    match VersionParser::parse(input) {
        Ok(ver) => {
            if ver.patch() == usize::MAX {
                None
            } else {
                Some(bump_patch(input))
            }
        },
        Err(e) => Some(Err(e)),
    }
}

} // verus!
