use vstd::prelude::*;

use crate::bump_patch_text;
use crate::charclass::{alphabetic_char, is_ascii_letter, numeric_char};
use crate::decimal::{
    all_digits, decimal, decimal_value, lemma_decimal_denotes, lemma_numeral_of_decimal,
    unsigned_part,
};
use crate::errors::ParseError;
use crate::separator::Separator;
use crate::version::VersionView;
use crate::version_buff::{is_month, BuffView, VersionBuffKind, MONTHS};
use crate::version_parser::{component_number, parse_text, ParserState, Scan};

verus! {

/// Whether a character is neither numeric nor alphabetic.
pub open spec fn plain_char(c: char) -> bool {
    !numeric_char(c) && !alphabetic_char(c)
}

/// Whether every character of a text is of the given kind. A character that
/// is both numeric and alphabetic counts as numeric alone.
pub open spec fn all_of_kind(text: Seq<char>, kind: VersionBuffKind) -> bool {
    match kind {
        VersionBuffKind::Numeric => forall|i: int|
            0 <= i < text.len() ==> numeric_char(#[trigger] text[i]),
        VersionBuffKind::Alphabetic => forall|i: int|
            0 <= i < text.len() ==> alphabetic_char(#[trigger] text[i]) && !numeric_char(text[i]),
        VersionBuffKind::Unknown => text.len() == 0,
    }
}

/// What holds of a scan at every point of every text.
///
/// The prefix holds no numeric character. A minor component of digits holds
/// numeric characters alone, and one of no kind holds nothing. The patch
/// component has no content before the scan has reached it. The suffix has
/// content exactly once the scan has reached it, and starts with a character
/// that is neither numeric nor alphabetic.
pub open spec fn scan_inv(s: Scan) -> bool {
    &&& forall|i: int| 0 <= i < s.prefix.len() ==> !numeric_char(#[trigger] s.prefix[i])
    &&& s.minor.kind == VersionBuffKind::Unknown ==> s.minor.text.len() == 0
    &&& s.minor.kind == VersionBuffKind::Numeric ==> all_of_kind(
        s.minor.text,
        VersionBuffKind::Numeric,
    )
    &&& s.patch.len() > 0 ==> s.state == ParserState::ParsingPatch || s.state
        == ParserState::ParsingSuffix
    &&& s.state == ParserState::ParsingSuffix <==> s.suffix.len() > 0
    &&& s.suffix.len() > 0 ==> plain_char(s.suffix[0])
}

/// The form of every version that a text holds.
///
/// No numeric character stands in the prefix; the major and the patch number
/// are within the range of `usize`; the minor component is a recognised token
/// or a run of digits that denotes a number within that range; and a suffix
/// starts with a character that is neither numeric nor alphabetic.
pub open spec fn parsed_form(v: VersionView) -> bool {
    &&& forall|i: int| 0 <= i < v.prefix.len() ==> !numeric_char(#[trigger] v.prefix[i])
    &&& v.major <= usize::MAX
    &&& v.patch <= usize::MAX
    &&& is_month(v.minor) || (v.minor.len() > 0 && all_digits(v.minor) && decimal_value(v.minor)
        <= usize::MAX)
    &&& v.suffix.len() > 0 ==> plain_char(v.suffix[0])
}

/// A recognised token is three ASCII letters.
pub proof fn lemma_month_letters(text: Seq<char>)
    requires
        is_month(text),
    ensures
        text.len() == 3,
        forall|i: int| 0 <= i < text.len() ==> is_ascii_letter(#[trigger] text[i]),
        all_of_kind(text, VersionBuffKind::Alphabetic),
{
    let k = choose|k: int| 0 <= k < 12 && (#[trigger] MONTHS[k])@ == text;
    assert(MONTHS[k]@.len() == 3);
    assert forall|i: int| 0 <= i < text.len() implies is_ascii_letter(#[trigger] text[i]) by {
        assert(text[i] == MONTHS[k]@[i]);
    }
}

/// One step keeps what holds of a scan at every point.
pub proof fn lemma_step_keeps_inv(s: Scan, c: char)
    requires
        scan_inv(s),
        s.step(c) is Ok,
    ensures
        scan_inv(s.step(c)->Ok_0),
{
    let t = s.step(c)->Ok_0;
    assert forall|i: int| 0 <= i < t.prefix.len() implies !numeric_char(
        #[trigger] t.prefix[i],
    ) by {
        assert(i < s.prefix.len() ==> t.prefix[i] == s.prefix[i]);
    }
    assert forall|i: int|
        t.minor.kind == VersionBuffKind::Numeric && 0 <= i < t.minor.text.len() implies numeric_char(
        #[trigger] t.minor.text[i],
    ) by {
        assert(i < s.minor.text.len() ==> t.minor.text[i] == s.minor.text[i]);
    }
    assert(s.suffix.len() > 0 ==> t.suffix[0] == s.suffix[0]);
}

/// What holds of a scan at every point holds after any text that it gets
/// through.
pub proof fn lemma_run_keeps_inv(start: Scan, text: Seq<char>)
    requires
        scan_inv(start),
        start.run(text) is Ok,
    ensures
        scan_inv(start.run(text)->Ok_0),
    decreases text.len(),
{
    if text.len() > 0 {
        lemma_run_keeps_inv(start, text.drop_last());
        lemma_step_keeps_inv(start.run(text.drop_last())->Ok_0, text.last());
    }
}

/// Every version that a text holds is in parsed form.
pub proof fn lemma_parse_gives_parsed_form(text: Seq<char>)
    requires
        parse_text(text) is Ok,
    ensures
        parsed_form(parse_text(text)->Ok_0),
{
    lemma_run_keeps_inv(Scan::initial(), text);
    let minor = Scan::initial().run(text)->Ok_0.minor;
    if minor.kind == VersionBuffKind::Numeric && minor.text.len() > 0 {
        // A numeric character is no plus sign, so the digits are the whole text.
        assert(numeric_char(minor.text[0]));
        assert(unsigned_part(minor.text) == minor.text);
    } else if minor.kind != VersionBuffKind::Alphabetic {
        lemma_decimal_denotes(0);
        assert(parse_text(text)->Ok_0.minor =~= decimal(0));
    }
}

/// Scanning two texts one after the other is scanning them joined.
pub proof fn lemma_run_joined(start: Scan, head: Seq<char>, tail: Seq<char>)
    ensures
        start.run(head + tail) == match start.run(head) {
            Ok(mid) => mid.run(tail),
            Err(e) => Err(e),
        },
    decreases tail.len(),
{
    if tail.len() == 0 {
        assert(head + tail =~= head);
    } else {
        assert((head + tail).drop_last() =~= head + tail.drop_last());
        lemma_run_joined(start, head, tail.drop_last());
    }
}

/// Scanning a text of one character is one step.
pub proof fn lemma_run_one(start: Scan, c: char)
    ensures
        start.run(seq![c]) == start.step(c),
{
    assert(seq![c].drop_last() =~= Seq::<char>::empty());
    assert(start.run(seq![c].drop_last()) == Ok::<Scan, ParseError>(start));
}

/// Before the major number, characters that are not numeric gather in the
/// prefix.
pub proof fn lemma_run_through_prefix(start: Scan, text: Seq<char>)
    requires
        start.state == ParserState::Init || start.state == ParserState::ParsingPrefix,
        forall|i: int| 0 <= i < text.len() ==> !numeric_char(#[trigger] text[i]),
    ensures
        start.run(text) == Ok::<Scan, ParseError>(
            Scan {
                state: if text.len() == 0 {
                    start.state
                } else {
                    ParserState::ParsingPrefix
                },
                prefix: start.prefix + text,
                ..start
            },
        ),
    decreases text.len(),
{
    if text.len() == 0 {
        assert(start.prefix + text =~= start.prefix);
    } else {
        lemma_run_through_prefix(start, text.drop_last());
        assert(!numeric_char(text[text.len() - 1]));
        assert((start.prefix + text.drop_last()).push(text.last()) =~= start.prefix + text);
    }
}

/// Numeric characters start the major number or extend it.
pub proof fn lemma_run_through_major(start: Scan, text: Seq<char>)
    requires
        start.state == ParserState::Init || start.state == ParserState::ParsingPrefix
            || start.state == ParserState::ParsingMajor,
        text.len() > 0,
        all_of_kind(text, VersionBuffKind::Numeric),
    ensures
        start.run(text) == Ok::<Scan, ParseError>(
            Scan { state: ParserState::ParsingMajor, major: start.major + text, ..start },
        ),
    decreases text.len(),
{
    assert(numeric_char(text[text.len() - 1]));
    if text.len() == 1 {
        assert(text =~= seq![text[0]]);
        lemma_run_one(start, text[0]);
        assert(start.major.push(text[0]) =~= start.major + text);
    } else {
        lemma_run_through_major(start, text.drop_last());
        assert((start.major + text.drop_last()).push(text.last()) =~= start.major + text);
    }
}

/// Characters of one kind gather in a minor component that holds none of the
/// other kind.
pub proof fn lemma_run_through_minor(start: Scan, text: Seq<char>, kind: VersionBuffKind)
    requires
        start.state == ParserState::ParsingMinor,
        kind != VersionBuffKind::Unknown,
        start.minor.kind.admits(kind),
        all_of_kind(text, kind),
    ensures
        start.run(text) == Ok::<Scan, ParseError>(
            Scan {
                minor: BuffView {
                    text: start.minor.text + text,
                    kind: if text.len() == 0 {
                        start.minor.kind
                    } else {
                        kind
                    },
                },
                ..start
            },
        ),
    decreases text.len(),
{
    if text.len() == 0 {
        assert(start.minor.text + text =~= start.minor.text);
    } else {
        lemma_run_through_minor(start, text.drop_last(), kind);
        let c = text[text.len() - 1];
        assert(kind == VersionBuffKind::Numeric ==> numeric_char(c));
        assert(kind == VersionBuffKind::Alphabetic ==> alphabetic_char(c) && !numeric_char(c));
        assert((start.minor.text + text.drop_last()).push(c) =~= start.minor.text + text);
    }
}

/// Digits gather in the patch component.
pub proof fn lemma_run_through_patch(start: Scan, text: Seq<char>)
    requires
        start.state == ParserState::ParsingPatch,
        all_of_kind(text, VersionBuffKind::Numeric),
    ensures
        start.run(text) == Ok::<Scan, ParseError>(Scan { patch: start.patch + text, ..start }),
    decreases text.len(),
{
    if text.len() == 0 {
        assert(start.patch + text =~= start.patch);
    } else {
        lemma_run_through_patch(start, text.drop_last());
        assert(numeric_char(text[text.len() - 1]));
        assert((start.patch + text.drop_last()).push(text.last()) =~= start.patch + text);
    }
}

/// Once in the suffix, a scan takes every character into it.
pub proof fn lemma_run_through_suffix(start: Scan, text: Seq<char>)
    requires
        start.state == ParserState::ParsingSuffix,
    ensures
        start.run(text) == Ok::<Scan, ParseError>(Scan { suffix: start.suffix + text, ..start }),
    decreases text.len(),
{
    if text.len() == 0 {
        assert(start.suffix + text =~= start.suffix);
    } else {
        lemma_run_through_suffix(start, text.drop_last());
        assert((start.suffix + text.drop_last()).push(text.last()) =~= start.suffix + text);
    }
}

/// After a patch component with content, a text that starts with a character
/// neither numeric nor alphabetic is the suffix, whole.
pub proof fn lemma_run_into_suffix(start: Scan, text: Seq<char>)
    requires
        start.state == ParserState::ParsingPatch,
        start.patch.len() > 0,
        text.len() > 0 ==> plain_char(text[0]),
    ensures
        start.run(text) == Ok::<Scan, ParseError>(
            Scan {
                state: if text.len() == 0 {
                    start.state
                } else {
                    ParserState::ParsingSuffix
                },
                suffix: start.suffix + text,
                ..start
            },
        ),
{
    if text.len() == 0 {
        assert(start.suffix + text =~= start.suffix);
    } else {
        let first = seq![text[0]];
        let rest = text.drop_first();
        let mid = Scan {
            state: ParserState::ParsingSuffix,
            suffix: start.suffix.push(text[0]),
            ..start
        };
        assert(first + rest =~= text);
        lemma_run_one(start, text[0]);
        lemma_run_joined(start, first, rest);
        lemma_run_through_suffix(mid, rest);
        assert(start.suffix.push(text[0]) + rest =~= start.suffix + text);
    }
}

/// A run of digits is a run of numeric characters.
pub proof fn lemma_digits_are_numeric(text: Seq<char>)
    requires
        all_digits(text),
    ensures
        all_of_kind(text, VersionBuffKind::Numeric),
{
}

/// A version in parsed form, written out in its own shape, reads back as
/// itself: every component, the separator, the prefix and the suffix.
pub proof fn lemma_parse_of_display(v: VersionView)
    requires
        parsed_form(v),
    ensures
        parse_text(v.display_text()) == Ok::<VersionView, ParseError>(v),
{
    let c = v.sep.spec_to_char();
    let major = decimal(v.major);
    let patch = decimal(v.patch);
    lemma_decimal_denotes(v.major);
    lemma_decimal_denotes(v.patch);
    lemma_numeral_of_decimal(v.major);
    lemma_numeral_of_decimal(v.patch);
    lemma_digits_are_numeric(major);
    lemma_digits_are_numeric(patch);
    let kind = if is_month(v.minor) {
        VersionBuffKind::Alphabetic
    } else {
        VersionBuffKind::Numeric
    };
    if is_month(v.minor) {
        lemma_month_letters(v.minor);
    } else {
        lemma_digits_are_numeric(v.minor);
        assert(unsigned_part(v.minor) == v.minor);
    }

    // The scan, part by part.
    let s0 = Scan::initial();
    let t1 = v.prefix;
    lemma_run_through_prefix(s0, t1);
    let s1 = s0.run(t1)->Ok_0;

    let t2 = t1 + major;
    lemma_run_through_major(s1, major);
    lemma_run_joined(s0, t1, major);
    let s2 = s0.run(t2)->Ok_0;

    let t3 = t2 + seq![c];
    lemma_run_one(s2, c);
    lemma_run_joined(s0, t2, seq![c]);
    let s3 = s0.run(t3)->Ok_0;
    assert(s3.state == ParserState::ParsingMinor && s3.sep == Some(v.sep));

    let t4 = t3 + v.minor;
    lemma_run_through_minor(s3, v.minor, kind);
    lemma_run_joined(s0, t3, v.minor);
    let s4 = s0.run(t4)->Ok_0;
    assert(s4.minor.text =~= v.minor && s4.minor.kind == kind);

    let t5 = t4 + seq![c];
    lemma_run_one(s4, c);
    lemma_run_joined(s0, t4, seq![c]);
    let s5 = s0.run(t5)->Ok_0;
    assert(s5.state == ParserState::ParsingPatch);

    let t6 = t5 + patch;
    lemma_run_through_patch(s5, patch);
    lemma_run_joined(s0, t5, patch);
    let s6 = s0.run(t6)->Ok_0;
    assert(s6.patch =~= patch);

    let t7 = t6 + v.suffix;
    lemma_run_into_suffix(s6, v.suffix);
    lemma_run_joined(s0, t6, v.suffix);
    let s7 = s0.run(t7)->Ok_0;
    assert(t7 == v.display_text());

    // What the scan has gathered is the version.
    assert(s7.prefix =~= v.prefix);
    assert(s7.major =~= major);
    assert(s7.suffix =~= v.suffix);
    assert(component_number(s7.major) == Ok::<nat, ParseError>(v.major));
    assert(component_number(s7.patch) == Ok::<nat, ParseError>(v.patch));
    assert(s7.minor.resolve() == Ok::<Seq<char>, ParseError>(v.minor));
}

/// Rendering is idempotent: the version that a text holds, written out in its
/// own shape, reads back as the same version, and so is written out again as
/// the same text.
pub proof fn lemma_display_is_stable(text: Seq<char>)
    requires
        parse_text(text) is Ok,
    ensures
        ({
            let shown = parse_text(text)->Ok_0.display_text();
            &&& parse_text(shown) == parse_text(text)
            &&& parse_text(shown)->Ok_0.display_text() == shown
        }),
{
    lemma_parse_gives_parsed_form(text);
    lemma_parse_of_display(parse_text(text)->Ok_0);
}

/// Either separator serves: the version that a text holds, written out with
/// the one separator or the other, reads back with the separator it was
/// written with and with every other part as it was.
pub proof fn lemma_separator_is_free(text: Seq<char>, sep: Separator)
    requires
        parse_text(text) is Ok,
    ensures
        ({
            let v = parse_text(text)->Ok_0;
            let w = VersionView { sep, ..v };
            parse_text(w.display_text()) == Ok::<VersionView, ParseError>(w)
        }),
{
    lemma_parse_gives_parsed_form(text);
    let v = parse_text(text)->Ok_0;
    lemma_parse_of_display(VersionView { sep, ..v });
}

/// Bumping a version that was written out in its own shape gives the text of
/// the same version with the next patch number. Where that number is within
/// the range of `usize`, the new text holds a version whose patch number is one
/// more, and whose prefix, separator, suffix, major and minor component are
/// those of the version written out.
pub proof fn lemma_bump_of_display(text: Seq<char>)
    requires
        parse_text(text) is Ok,
    ensures
        ({
            let v = parse_text(text)->Ok_0;
            let next = v.bumped().display_text();
            &&& bump_patch_text(v.display_text()) == Ok::<Seq<char>, ParseError>(next)
            &&& v.patch < usize::MAX ==> {
                &&& parse_text(next) matches Ok(w)
                &&& w.patch == v.patch + 1
                &&& w.prefix == v.prefix
                &&& w.sep == v.sep
                &&& w.suffix == v.suffix
                &&& w.major == v.major
                &&& w.minor == v.minor
            }
        }),
{
    lemma_parse_gives_parsed_form(text);
    let v = parse_text(text)->Ok_0;
    lemma_parse_of_display(v);
    if v.patch < usize::MAX {
        lemma_parse_of_display(v.bumped());
    }
}

} // verus!
