use vstd::prelude::*;
use vstd::std_specs::convert::TryFromSpecImpl;

use crate::errors::ParseError;

verus! {

pub const DOT: char = '.';

pub const HYPHEN: char = '-';

/// The character that stands between the components of a version.
#[derive(Debug, Clone, Copy, PartialEq, Eq, Structural)]
pub enum Separator {
    Dot,
    Hyphen,
}

impl Separator {
    /// The separator that a character denotes, or the refusal of that character.
    pub open spec fn spec_from_char(c: char) -> Result<Separator, ParseError> {
        if c == DOT {
            Ok(Separator::Dot)
        } else if c == HYPHEN {
            Ok(Separator::Hyphen)
        } else {
            Err(ParseError::UnsupportedSeparator(c))
        }
    }

    /// The character that renders this separator.
    pub open spec fn spec_to_char(self) -> char {
        match self {
            Separator::Dot => DOT,
            Separator::Hyphen => HYPHEN,
        }
    }

    /// The other separator.
    pub open spec fn other(self) -> Separator {
        match self {
            Separator::Dot => Separator::Hyphen,
            Separator::Hyphen => Separator::Dot,
        }
    }

    /// Reads a separator from a character: `.` and `-` are the only ones.
    pub fn from_char(c: char) -> (r: Result<Separator, ParseError>)
        ensures
            r == Self::spec_from_char(c),
    {
        if c == DOT {
            Ok(Separator::Dot)
        } else if c == HYPHEN {
            Ok(Separator::Hyphen)
        } else {
            Err(ParseError::UnsupportedSeparator(c))
        }
    }

    /// Renders the separator as its character.
    pub fn to_char(&self) -> (c: char)
        ensures
            c == self.spec_to_char(),
            Self::spec_from_char(c) == Ok::<Separator, ParseError>(*self),
    {
        match self {
            Separator::Dot => DOT,
            Separator::Hyphen => HYPHEN,
        }
    }

    /// Rendering is the exact inverse of reading: a rendered separator reads
    /// back as itself, and a character that reads as a separator is the one
    /// that this separator renders to.
    pub proof fn lemma_char_round_trip(c: char, sep: Separator)
        ensures
            Self::spec_from_char(sep.spec_to_char()) == Ok::<Separator, ParseError>(sep),
            Self::spec_from_char(c) == Ok::<Separator, ParseError>(sep) <==> c
                == sep.spec_to_char(),
    {
    }
}

impl TryFrom<char> for Separator {
    type Error = ParseError;

    fn try_from(value: char) -> (r: Result<Self, Self::Error>)
        ensures
            r == Separator::spec_from_char(value),
    {
        Separator::from_char(value)
    }
}

impl TryFromSpecImpl<char> for Separator {
    open spec fn obeys_try_from_spec() -> bool {
        true
    }

    open spec fn try_from_spec(v: char) -> Result<Self, Self::Error> {
        Separator::spec_from_char(v)
    }
}

} // verus!
