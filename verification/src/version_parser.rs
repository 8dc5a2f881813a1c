use vstd::prelude::*;

use crate::charclass::{alphabetic, alphabetic_char, numeric, numeric_char};
use crate::decimal::{numeral_value, parse_numeral};
use crate::errors::{ParseError, ParseResult};
use crate::separator::Separator;
use crate::text::text_of;
use crate::version::{Version, VersionView};
use crate::version_buff::{BuffView, VersionBuff, VersionBuffKind};

verus! {

/// Where in a text the scan stands.
#[derive(Debug, Clone, Copy, PartialEq, Eq, Structural)]
pub enum ParserState {
    Init,
    ParsingPrefix,
    ParsingMajor,
    ParsingMinor,
    ParsingPatch,
    ParsingSuffix,
}

/// A scan in progress, as a value: where it stands and what it has gathered
/// for each part of the version.
pub struct Scan {
    pub state: ParserState,
    pub prefix: Seq<char>,
    pub major: Seq<char>,
    pub minor: BuffView,
    pub patch: Seq<char>,
    pub sep: Option<Separator>,
    pub suffix: Seq<char>,
}

/// The number that the characters gathered for the major or the patch
/// component denote; a component without characters counts as zero.
pub open spec fn component_number(text: Seq<char>) -> Result<nat, ParseError> {
    if text.len() == 0 {
        Ok(0)
    } else {
        match numeral_value(text) {
            Some(n) => Ok(n),
            None => Err(ParseError::InvalidValue),
        }
    }
}

impl Scan {
    /// The scan before the first character.
    pub open spec fn initial() -> Scan {
        Scan {
            state: ParserState::Init,
            prefix: Seq::empty(),
            major: Seq::empty(),
            minor: BuffView::empty(),
            patch: Seq::empty(),
            sep: None,
            suffix: Seq::empty(),
        }
    }

    /// Before the major number: the first numeric character starts it, and
    /// every other character belongs to the prefix.
    pub open spec fn step_before_major(self, c: char) -> Result<Scan, ParseError> {
        if numeric_char(c) {
            Ok(Scan { state: ParserState::ParsingMajor, major: self.major.push(c), ..self })
        } else {
            Ok(Scan { state: ParserState::ParsingPrefix, prefix: self.prefix.push(c), ..self })
        }
    }

    /// In the major number: numeric characters extend it, and the first other
    /// character must be a separator, which is the one this version is written
    /// with.
    pub open spec fn step_major(self, c: char) -> Result<Scan, ParseError> {
        if numeric_char(c) {
            Ok(Scan { major: self.major.push(c), ..self })
        } else {
            match Separator::spec_from_char(c) {
                Ok(sep) => Ok(Scan { state: ParserState::ParsingMinor, sep: Some(sep), ..self }),
                Err(e) => Err(e),
            }
        }
    }

    /// In the minor component: digits and letters extend it, but do not mix.
    /// The first other character must be a separator and must find the
    /// component with content. The version's own separator leads on to the
    /// patch; the other one starts the suffix, and belongs to it.
    pub open spec fn step_minor(self, c: char) -> Result<Scan, ParseError> {
        if numeric_char(c) {
            match self.minor.push(c, VersionBuffKind::Numeric) {
                Ok(minor) => Ok(Scan { minor, ..self }),
                Err(e) => Err(e),
            }
        } else if alphabetic_char(c) {
            match self.minor.push(c, VersionBuffKind::Alphabetic) {
                Ok(minor) => Ok(Scan { minor, ..self }),
                Err(e) => Err(e),
            }
        } else if self.minor.text.len() == 0 {
            Err(ParseError::MinorError)
        } else {
            match Separator::spec_from_char(c) {
                Ok(sep) => if Some(sep) != self.sep {
                    Ok(
                        Scan {
                            state: ParserState::ParsingSuffix,
                            suffix: self.suffix.push(c),
                            ..self
                        },
                    )
                } else {
                    Ok(Scan { state: ParserState::ParsingPatch, ..self })
                },
                Err(e) => Err(e),
            }
        }
    }

    /// In the patch component: digits and letters extend it. The first other
    /// character starts the suffix and belongs to it; a separator, though, must
    /// find the component with content.
    pub open spec fn step_patch(self, c: char) -> Result<Scan, ParseError> {
        if numeric_char(c) || alphabetic_char(c) {
            Ok(Scan { patch: self.patch.push(c), ..self })
        } else if self.patch.len() == 0 && Separator::spec_from_char(c) is Ok {
            Err(ParseError::PatchError)
        } else {
            Ok(Scan { state: ParserState::ParsingSuffix, suffix: self.suffix.push(c), ..self })
        }
    }

    /// In the suffix: every character belongs to it.
    pub open spec fn step_suffix(self, c: char) -> Result<Scan, ParseError> {
        Ok(Scan { suffix: self.suffix.push(c), ..self })
    }

    /// The scan after one more character, or the error that the character
    /// brings.
    pub open spec fn step(self, c: char) -> Result<Scan, ParseError> {
        match self.state {
            ParserState::Init => self.step_before_major(c),
            ParserState::ParsingPrefix => self.step_before_major(c),
            ParserState::ParsingMajor => self.step_major(c),
            ParserState::ParsingMinor => self.step_minor(c),
            ParserState::ParsingPatch => self.step_patch(c),
            ParserState::ParsingSuffix => self.step_suffix(c),
        }
    }

    /// The scan after a whole text, character by character from the left; the
    /// first error ends it.
    pub open spec fn run(self, text: Seq<char>) -> Result<Scan, ParseError>
        decreases text.len(),
    {
        if text.len() == 0 {
            Ok(self)
        } else {
            match self.run(text.drop_last()) {
                Ok(before) => before.step(text.last()),
                Err(e) => Err(e),
            }
        }
    }

    /// The version that a scan has found once the text is at its end. A scan
    /// that never reached a major number has found none. Without a separator
    /// in the text the version is written with dots.
    pub open spec fn finish(self) -> Result<VersionView, ParseError> {
        if self.state == ParserState::Init || self.state == ParserState::ParsingPrefix {
            Err(ParseError::InvalidInput)
        } else {
            match (component_number(self.major), self.minor.resolve(), component_number(self.patch)) {
                (Ok(major), Ok(minor), Ok(patch)) => Ok(
                    VersionView {
                        prefix: self.prefix,
                        major,
                        minor,
                        patch,
                        sep: match self.sep {
                            Some(sep) => sep,
                            None => Separator::Dot,
                        },
                        suffix: self.suffix,
                    },
                ),
                _ => Err(ParseError::InvalidValue),
            }
        }
    }

    /// The version that a scan finds if it goes on through the given text, which
    /// then ends.
    pub open spec fn outcome(self, text: Seq<char>) -> Result<VersionView, ParseError> {
        match self.run(text) {
            Ok(end) => end.finish(),
            Err(e) => Err(e),
        }
    }
}

/// The version that a text holds, or the reason why it holds none.
pub open spec fn parse_text(text: Seq<char>) -> Result<VersionView, ParseError> {
    Scan::initial().outcome(text)
}

/// An error that stops the scan of the first characters of a text stops the
/// scan of the whole text.
pub proof fn lemma_run_error_stays(start: Scan, text: Seq<char>, k: int)
    requires
        0 <= k <= text.len(),
        start.run(text.take(k)) is Err,
    ensures
        start.run(text) == start.run(text.take(k)),
    decreases text.len() - k,
{
    if k == text.len() {
        assert(text.take(k) =~= text);
    } else {
        assert(text.drop_last().take(k) =~= text.take(k));
        lemma_run_error_stays(start, text.drop_last(), k);
    }
}

/// No text is refused with `MajorError`: the scan is in the major number only
/// once a digit has started it, so that component never ends without content.
pub proof fn lemma_major_error_never_comes(start: Scan, text: Seq<char>)
    ensures
        start.run(text) != Err::<Scan, ParseError>(ParseError::MajorError),
        start.outcome(text) != Err::<VersionView, ParseError>(ParseError::MajorError),
    decreases text.len(),
{
    if text.len() > 0 {
        lemma_major_error_never_comes(start, text.drop_last());
    }
}

/// A scanner that reads a version out of a text, one character at a time.
pub struct VersionParser {
    state: ParserState,
    prefix: Vec<char>,
    suffix: Vec<char>,
    major: Vec<char>,
    minor: VersionBuff,
    patch: Vec<char>,
    sep: Option<Separator>,
}

impl View for VersionParser {
    type V = Scan;

    closed spec fn view(&self) -> Scan {
        Scan {
            state: self.state,
            prefix: self.prefix@,
            major: self.major@,
            minor: self.minor@,
            patch: self.patch@,
            sep: self.sep,
            suffix: self.suffix@,
        }
    }
}

impl VersionParser {
    fn new() -> (p: Self)
        ensures
            p@ == Scan::initial(),
    {
        Self {
            state: ParserState::Init,
            prefix: Vec::new(),
            suffix: Vec::new(),
            major: Vec::new(),
            minor: VersionBuff::new(),
            patch: Vec::new(),
            sep: None,
        }
    }

    /// Parses a version.
    ///
    /// The text may carry any prefix before the major number and any suffix
    /// after the patch; the minor and the patch component may be missing.
    pub fn parse(input: &str) -> (r: ParseResult<Version>)
        ensures
            match r {
                Ok(v) => parse_text(input@) == Ok::<VersionView, ParseError>(v@),
                Err(e) => parse_text(input@) == Err::<VersionView, ParseError>(e),
            },
    {
        let mut parser = Self::new();
        parser.parse_inner(input)
    }

    fn parse_inner(&mut self, input: &str) -> (r: ParseResult<Version>)
        ensures
            match r {
                Ok(v) => old(self)@.outcome(input@) == Ok::<VersionView, ParseError>(v@),
                Err(e) => old(self)@.outcome(input@) == Err::<VersionView, ParseError>(e),
            },
    {
        let ghost start = self@;
        for item in it: input.chars()
            invariant
                it.seq() == input@,
                start == old(self)@,
                start.run(input@.take(it.index() as int)) == Ok::<Scan, ParseError>(self@),
        {
            proof {
                let read = input@.take(it.index() + 1);
                assert(read.drop_last() =~= input@.take(it.index() as int));
                assert(start.run(read) == self@.step(item));
                if self@.step(item) is Err {
                    lemma_run_error_stays(start, input@, it.index() + 1);
                }
            }
            match self.state {
                ParserState::Init => self.parse_init_state(item)?,
                ParserState::ParsingPrefix => self.parse_prefix_state(item),
                ParserState::ParsingMajor => self.parse_major_state(item)?,
                ParserState::ParsingMinor => self.parse_minor_state(item)?,
                ParserState::ParsingPatch => self.parse_patch_state(item)?,
                ParserState::ParsingSuffix => self.parse_suffix_state(item),
            }
        }
        assert(input@.take(input@.len() as int) =~= input@);

        match self.state {
            ParserState::Init | ParserState::ParsingPrefix => return Err(ParseError::InvalidInput),
            _ => (),
        }

        let major = self.to_num(&self.major)?;
        let minor = self.minor.try_parse()?;
        let patch = self.to_num(&self.patch)?;

        let sep = match self.sep {
            Some(sep) => sep,
            None => Separator::Dot,
        };

        let prefix = text_of(&self.prefix);
        let suffix = text_of(&self.suffix);

        Ok(Version::new(major, minor.as_str(), patch, sep, prefix.as_str(), suffix.as_str()))
    }

    fn to_num(&self, item: &Vec<char>) -> (r: ParseResult<usize>)
        ensures
            match r {
                Ok(n) => component_number(item@) == Ok::<nat, ParseError>(n as nat),
                Err(e) => component_number(item@) == Err::<nat, ParseError>(e),
            },
    {
        if item.is_empty() {
            return Ok(0);
        }
        match parse_numeral(item) {
            Some(n) => Ok(n),
            None => Err(ParseError::InvalidValue),
        }
    }

    fn parse_init_state(&mut self, item: char) -> (r: ParseResult<()>)
        requires
            old(self)@.state == ParserState::Init,
        ensures
            r is Ok,
            old(self)@.step(item) == Ok::<Scan, ParseError>(final(self)@),
    {
        if numeric(item) {
            self.state = ParserState::ParsingMajor;
            self.major.push(item);
        } else {
            self.state = ParserState::ParsingPrefix;
            self.prefix.push(item);
        }
        Ok(())
    }

    fn parse_prefix_state(&mut self, item: char)
        requires
            old(self)@.state == ParserState::ParsingPrefix,
        ensures
            old(self)@.step(item) == Ok::<Scan, ParseError>(final(self)@),
    {
        if numeric(item) {
            self.state = ParserState::ParsingMajor;
            self.major.push(item);
        } else {
            self.prefix.push(item);
        }
    }

    fn parse_major_state(&mut self, item: char) -> (r: ParseResult<()>)
        requires
            old(self)@.state == ParserState::ParsingMajor,
        ensures
            match r {
                Ok(_) => old(self)@.step(item) == Ok::<Scan, ParseError>(final(self)@),
                Err(e) => old(self)@.step(item) == Err::<Scan, ParseError>(e),
            },
    {
        if numeric(item) {
            self.major.push(item);
            return Ok(());
        }
        let sep = Separator::try_from(item)?;
        self.state = ParserState::ParsingMinor;
        self.sep = Some(sep);
        Ok(())
    }

    fn parse_minor_state(&mut self, item: char) -> (r: ParseResult<()>)
        requires
            old(self)@.state == ParserState::ParsingMinor,
        ensures
            match r {
                Ok(_) => old(self)@.step(item) == Ok::<Scan, ParseError>(final(self)@),
                Err(e) => old(self)@.step(item) == Err::<Scan, ParseError>(e),
            },
    {
        if numeric(item) {
            self.minor.push(item, VersionBuffKind::Numeric)?;
            return Ok(());
        }
        if alphabetic(item) {
            self.minor.push(item, VersionBuffKind::Alphabetic)?;
            return Ok(());
        }
        if self.minor.is_empty() {
            return Err(ParseError::MinorError);
        }
        let sep = Separator::try_from(item)?;

        if Some(sep) != self.sep {
            self.state = ParserState::ParsingSuffix;
            self.suffix.push(item);
            return Ok(());
        }
        self.state = ParserState::ParsingPatch;
        Ok(())
    }

    fn parse_patch_state(&mut self, item: char) -> (r: ParseResult<()>)
        requires
            old(self)@.state == ParserState::ParsingPatch,
        ensures
            match r {
                Ok(_) => old(self)@.step(item) == Ok::<Scan, ParseError>(final(self)@),
                Err(e) => old(self)@.step(item) == Err::<Scan, ParseError>(e),
            },
    {
        if numeric(item) {
            self.patch.push(item);
            return Ok(());
        }
        if alphabetic(item) {
            self.patch.push(item);
            return Ok(());
        }
        if self.patch.is_empty() && Separator::from_char(item).is_ok() {
            return Err(ParseError::PatchError);
        }
        self.suffix.push(item);
        self.state = ParserState::ParsingSuffix;
        Ok(())
    }

    fn parse_suffix_state(&mut self, item: char)
        requires
            old(self)@.state == ParserState::ParsingSuffix,
        ensures
            old(self)@.step(item) == Ok::<Scan, ParseError>(final(self)@),
    {
        self.suffix.push(item);
    }
}

} // verus!
