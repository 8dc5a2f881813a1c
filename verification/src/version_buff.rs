use vstd::prelude::*;

use crate::decimal::{numeral_value, parse_numeral};
use crate::errors::{ParseError, ParseResult};
use crate::text::text_of;

verus! {

/// The short tokens that a component may hold in place of a number.
pub const MONTHS: [[char; 3]; 12] = [
    ['J', 'a', 'n'],
    ['F', 'e', 'b'],
    ['M', 'a', 'r'],
    ['A', 'p', 'r'],
    ['M', 'a', 'y'],
    ['J', 'u', 'n'],
    ['J', 'u', 'l'],
    ['A', 'u', 'g'],
    ['S', 'e', 'p'],
    ['O', 'c', 't'],
    ['N', 'o', 'v'],
    ['D', 'e', 'c'],
];

/// Whether a text is one of the recognised tokens.
pub open spec fn is_month(text: Seq<char>) -> bool {
    exists|i: int| 0 <= i < 12 && (#[trigger] MONTHS[i])@ == text
}

/// What a component holds: digits, letters, or nothing yet.
#[derive(Debug, Clone, Copy, PartialEq, Eq, Structural)]
pub enum VersionBuffKind {
    Numeric,
    Alphabetic,
    Unknown,
}

impl VersionBuffKind {
    /// Whether a component of this kind takes a character of the proposed kind.
    pub open spec fn admits(self, proposed: VersionBuffKind) -> bool {
        self == VersionBuffKind::Unknown || self == proposed
    }

    /// The kind of a component of this kind once it has taken a character of
    /// the proposed kind.
    pub open spec fn settled(self, proposed: VersionBuffKind) -> VersionBuffKind {
        if self == VersionBuffKind::Unknown {
            proposed
        } else {
            self
        }
    }
}

/// What a component holds, as a value: its characters in the order in which
/// they came, and their kind.
pub struct BuffView {
    pub text: Seq<char>,
    pub kind: VersionBuffKind,
}

impl BuffView {
    /// The component that has not taken any character.
    pub open spec fn empty() -> BuffView {
        BuffView { text: Seq::empty(), kind: VersionBuffKind::Unknown }
    }

    /// The component after it has been offered one more character, proposed
    /// as of the given kind: the first character settles the kind, and a later
    /// one of another kind is refused.
    pub open spec fn push(self, item: char, proposed: VersionBuffKind) -> Result<
        BuffView,
        ParseError,
    > {
        if self.kind.admits(proposed) {
            Ok(BuffView { text: self.text.push(item), kind: self.kind.settled(proposed) })
        } else {
            Err(ParseError::InvalidCharacter(item))
        }
    }

    /// The text that the component stands for.
    ///
    /// A component of no kind stands for `0`, and so does one of digits that
    /// holds none. Digits must denote a number within the range of `usize` and
    /// are kept as written. Letters must spell a recognised token.
    pub open spec fn resolve(self) -> Result<Seq<char>, ParseError> {
        match self.kind {
            VersionBuffKind::Numeric => if self.text.len() == 0 {
                Ok(seq!['0'])
            } else if numeral_value(self.text) is Some {
                Ok(self.text)
            } else {
                Err(ParseError::InvalidValue)
            },
            VersionBuffKind::Alphabetic => if is_month(self.text) {
                Ok(self.text)
            } else {
                Err(ParseError::InvalidValue)
            },
            VersionBuffKind::Unknown => Ok(seq!['0']),
        }
    }
}

/// Gathers the characters of one component and keeps digits and letters apart.
pub struct VersionBuff {
    buff: Vec<char>,
    pub kind: VersionBuffKind,
}

impl View for VersionBuff {
    type V = BuffView;

    closed spec fn view(&self) -> BuffView {
        BuffView { text: self.buff@, kind: self.kind }
    }
}

impl VersionBuff {
    /// An empty component of no kind yet.
    pub fn new() -> (b: Self)
        ensures
            b@ == BuffView::empty(),
    {
        Self { buff: Vec::new(), kind: VersionBuffKind::Unknown }
    }

    /// Takes one character, proposed as of the given kind. The first character
    /// settles the kind of the component; a later one of another kind is
    /// refused and leaves the component as it was.
    pub fn push(&mut self, item: char, kind: VersionBuffKind) -> (r: ParseResult<()>)
        ensures
            match r {
                Ok(_) => old(self)@.push(item, kind) == Ok::<BuffView, ParseError>(final(self)@),
                Err(e) => {
                    &&& old(self)@.push(item, kind) == Err::<BuffView, ParseError>(e)
                    &&& final(self)@ == old(self)@
                },
            },
    {
        if self.kind == kind && self.kind != VersionBuffKind::Unknown {
            self.buff.push(item);
            return Ok(());
        }
        if self.kind == VersionBuffKind::Unknown {
            self.kind = kind;
            self.buff.push(item);
            return Ok(());
        }
        Err(ParseError::InvalidCharacter(item))
    }

    pub fn is_empty(&self) -> (b: bool)
        ensures
            b == (self@.text.len() == 0),
    {
        self.buff.is_empty()
    }

    /// The text that the component stands for, or `InvalidValue` where it
    /// stands for none.
    pub fn try_parse(&self) -> (r: ParseResult<String>)
        ensures
            match r {
                Ok(s) => self@.resolve() == Ok::<Seq<char>, ParseError>(s@),
                Err(e) => self@.resolve() == Err::<Seq<char>, ParseError>(e),
            },
    {
        match self.kind {
            VersionBuffKind::Numeric => {
                if self.buff.is_empty() {
                    return Ok(zero_text());
                }
                match parse_numeral(&self.buff) {
                    Some(_) => Ok(text_of(&self.buff)),
                    None => Err(ParseError::InvalidValue),
                }
            },
            VersionBuffKind::Alphabetic => {
                if spells_month(&self.buff) {
                    Ok(text_of(&self.buff))
                } else {
                    Err(ParseError::InvalidValue)
                }
            },
            VersionBuffKind::Unknown => Ok(zero_text()),
        }
    }
}

/// The text `0`.
fn zero_text() -> (s: String)
    ensures
        s@ == seq!['0'],
{
    proof {
        reveal_strlit("0");
    }
    let s = "0".to_owned();
    assert(s@ =~= seq!['0']);
    s
}

/// Looks a text up among the recognised tokens.
pub fn spells_month(text: &Vec<char>) -> (b: bool)
    ensures
        b == is_month(text@),
{
    if text.len() != 3 {
        assert(forall|i: int| 0 <= i < 12 ==> (#[trigger] MONTHS[i])@.len() == 3);
        return false;
    }
    let mut i: usize = 0;
    while i < 12
        invariant
            i <= 12,
            text@.len() == 3,
            forall|j: int| 0 <= j < i ==> (#[trigger] MONTHS[j])@ != text@,
        decreases 12 - i,
    {
        let m = MONTHS[i];
        if m[0] == text[0] && m[1] == text[1] && m[2] == text[2] {
            assert(m@ =~= text@);
            return true;
        }
        i = i + 1;
    }
    false
}

} // verus!
