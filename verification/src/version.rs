use vstd::prelude::*;

use crate::decimal::decimal;
use crate::separator::{Separator, DOT};
use crate::text::push_decimal;

verus! {

/// A version as a value: the decoration before and after it, its three
/// components, and the separator that it is written with.
pub struct VersionView {
    pub prefix: Seq<char>,
    pub major: nat,
    pub minor: Seq<char>,
    pub patch: nat,
    pub sep: Separator,
    pub suffix: Seq<char>,
}

impl VersionView {
    /// The version in its own shape: the prefix, the three components with the
    /// version's separator between them, and the suffix.
    pub open spec fn display_text(self) -> Seq<char> {
        self.prefix + decimal(self.major) + seq![self.sep.spec_to_char()] + self.minor
            + seq![self.sep.spec_to_char()] + decimal(self.patch) + self.suffix
    }

    /// The three components with dots between them, and the suffix; the prefix
    /// is left out.
    pub open spec fn canonical_text(self) -> Seq<char> {
        decimal(self.major) + seq![DOT] + self.minor + seq![DOT] + decimal(self.patch)
            + self.suffix
    }

    /// The same version with the next patch number.
    pub open spec fn bumped(self) -> VersionView {
        VersionView { patch: self.patch + 1, ..self }
    }
}

/// A parsed version. Its minor component is kept as text, since it may be a
/// short token in place of a number.
#[derive(Debug)]
pub struct Version {
    prefix: String,
    suffix: String,
    major: usize,
    minor: String,
    patch: usize,
    sep: Separator,
}

impl View for Version {
    type V = VersionView;

    closed spec fn view(&self) -> VersionView {
        VersionView {
            prefix: self.prefix@,
            major: self.major as nat,
            minor: self.minor@,
            patch: self.patch as nat,
            sep: self.sep,
            suffix: self.suffix@,
        }
    }
}

impl Version {
    pub fn new(
        major: usize,
        minor: &str,
        patch: usize,
        sep: Separator,
        prefix: &str,
        suffix: &str,
    ) -> (v: Self)
        ensures
            v@ == (VersionView {
                prefix: prefix@,
                major: major as nat,
                minor: minor@,
                patch: patch as nat,
                sep,
                suffix: suffix@,
            }),
    {
        Self {
            prefix: prefix.to_owned(),
            suffix: suffix.to_owned(),
            major,
            minor: minor.to_owned(),
            patch,
            sep,
        }
    }

    pub fn major(&self) -> (n: usize)
        ensures
            n == self@.major,
    {
        self.major
    }

    pub fn minor(&self) -> (s: &str)
        ensures
            s@ == self@.minor,
    {
        self.minor.as_str()
    }

    pub fn patch(&self) -> (n: usize)
        ensures
            n == self@.patch,
    {
        self.patch
    }

    /// Moves on to the next patch number and leaves everything else alone.
    pub fn bump_patch(&mut self)
        requires
            old(self)@.patch < usize::MAX,
        ensures
            final(self)@ == old(self)@.bumped(),
    {
        self.patch += 1;
    }

    /// The version in canonical form.
    pub fn semver(&self) -> (s: String)
        ensures
            s@ == self@.canonical_text(),
    {
        let mut s = String::new();
        push_decimal(&mut s, self.major);
        s.push(DOT);
        s.append(self.minor.as_str());
        s.push(DOT);
        push_decimal(&mut s, self.patch);
        s.append(self.suffix.as_str());
        assert(s@ =~= self@.canonical_text());
        s
    }

    /// The version in the shape in which it was found.
    pub fn to_string(&self) -> (s: String)
        ensures
            s@ == self@.display_text(),
    {
        let sep = self.sep.to_char();
        let mut s = self.prefix.clone();
        push_decimal(&mut s, self.major);
        s.push(sep);
        s.append(self.minor.as_str());
        s.push(sep);
        push_decimal(&mut s, self.patch);
        s.append(self.suffix.as_str());
        assert(s@ =~= self@.display_text());
        s
    }
}

} // verus!
