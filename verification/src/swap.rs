use vstd::prelude::*;

use crate::round_trip::{lemma_run_joined, lemma_run_keeps_inv, lemma_run_one, plain_char};
use crate::separator::{Separator, DOT, HYPHEN};
use crate::version::VersionView;
use crate::version_parser::{parse_text, ParserState, Scan};

verus! {

/// The other separator character for a separator character, and any other
/// character as it is.
pub open spec fn swap_char(c: char) -> char {
    if c == DOT {
        HYPHEN
    } else if c == HYPHEN {
        DOT
    } else {
        c
    }
}

/// A text with every dot turned into a hyphen and every hyphen into a dot.
pub open spec fn swap_text(text: Seq<char>) -> Seq<char> {
    text.map_values(|c: char| swap_char(c))
}

/// The other separator, where there is one.
pub open spec fn swap_sep(sep: Option<Separator>) -> Option<Separator> {
    match sep {
        Some(s) => Some(s.other()),
        None => None,
    }
}

/// A scan with dots and hyphens exchanged in all that it has gathered.
pub open spec fn swap_scan(s: Scan) -> Scan {
    Scan { prefix: swap_text(s.prefix), sep: swap_sep(s.sep), suffix: swap_text(s.suffix), ..s }
}

/// One step on the exchanged character leads the exchanged scan where the
/// step on the character itself leads the scan, exchanged; and to the same
/// error.
pub proof fn lemma_step_swapped(s: Scan, c: char)
    ensures
        swap_scan(s).step(swap_char(c)) == match s.step(c) {
            Ok(t) => Ok(swap_scan(t)),
            Err(e) => Err(e),
        },
{
    assert(swap_text(s.prefix.push(c)) =~= swap_text(s.prefix).push(swap_char(c)));
    assert(swap_text(s.suffix.push(c)) =~= swap_text(s.suffix).push(swap_char(c)));
}

/// The scan of an exchanged text is the exchanged scan of the text.
pub proof fn lemma_run_swapped(start: Scan, text: Seq<char>)
    ensures
        swap_scan(start).run(swap_text(text)) == match start.run(text) {
            Ok(end) => Ok(swap_scan(end)),
            Err(e) => Err(e),
        },
    decreases text.len(),
{
    if text.len() > 0 {
        lemma_run_swapped(start, text.drop_last());
        assert(swap_text(text).drop_last() =~= swap_text(text.drop_last()));
        if start.run(text.drop_last()) is Ok {
            lemma_step_swapped(start.run(text.drop_last())->Ok_0, text.last());
        }
    }
}

/// Separator independence: a text with every dot turned into a hyphen and
/// every hyphen into a dot holds a version with the same major, minor and
/// patch component. Its prefix and suffix are those of the first with the
/// same exchange made, and its separator is the other one wherever the text
/// has a separator after the major number. A text that holds no version
/// holds none after the exchange, for the same reason.
pub proof fn lemma_parse_swapped(text: Seq<char>)
    ensures
        parse_text(swap_text(text)) == match parse_text(text) {
            Ok(v) => Ok(
                VersionView {
                    prefix: swap_text(v.prefix),
                    sep: if Scan::initial().run(text)->Ok_0.sep is Some {
                        v.sep.other()
                    } else {
                        v.sep
                    },
                    suffix: swap_text(v.suffix),
                    ..v
                },
            ),
            Err(e) => Err(e),
        },
{
    lemma_run_swapped(Scan::initial(), text);
    assert(swap_scan(Scan::initial()) == Scan::initial()) by {
        assert(swap_text(Seq::<char>::empty()) =~= Seq::<char>::empty());
    }
}

/// How two scans stand to each other that have read the same text but for the
/// separator after the major number, where the one has a dot and the other a
/// hyphen.
///
/// They agree on the prefix, the major and the minor component. Up to the end
/// of the minor component they agree on everything but the separator. The
/// separator that ends it leads the one on to its patch component and is the
/// start of the suffix for the other, which never has a patch component.
pub open spec fn apart_by_separator(a: Scan, b: Scan) -> bool {
    &&& a.prefix == b.prefix
    &&& a.major == b.major
    &&& a.minor == b.minor
    &&& a.sep is Some
    &&& b.sep == swap_sep(a.sep)
    &&& {
        ||| {
            &&& a.state == ParserState::ParsingMinor
            &&& b.state == ParserState::ParsingMinor
            &&& a.patch.len() == 0
            &&& b.patch.len() == 0
            &&& a.suffix == b.suffix
        }
        ||| {
            &&& a.state == ParserState::ParsingSuffix
            &&& a.patch.len() == 0
            &&& b.state == ParserState::ParsingPatch || b.state == ParserState::ParsingSuffix
        }
        ||| {
            &&& b.state == ParserState::ParsingSuffix
            &&& b.patch.len() == 0
            &&& a.state == ParserState::ParsingPatch || a.state == ParserState::ParsingSuffix
        }
    }
}

/// Two scans that stand so to each other still do after any text that both
/// get through; and both are still in the minor component if they were and
/// the text holds numeric and alphabetic characters alone.
pub proof fn lemma_run_apart(a: Scan, b: Scan, text: Seq<char>)
    requires
        apart_by_separator(a, b),
        a.run(text) is Ok,
        b.run(text) is Ok,
    ensures
        apart_by_separator(a.run(text)->Ok_0, b.run(text)->Ok_0),
        a.state == ParserState::ParsingMinor && (forall|i: int|
            0 <= i < text.len() ==> !plain_char(#[trigger] text[i])) ==> a.run(text)->Ok_0.state
            == ParserState::ParsingMinor,
    decreases text.len(),
{
    if text.len() > 0 {
        lemma_run_apart(a, b, text.drop_last());
        assert(forall|i: int|
            0 <= i < text.drop_last().len() ==> text.drop_last()[i] == #[trigger] text[i]);
    }
}

/// A text with the other separator after its major number, and no other
/// change, holds a version with the same prefix, major and minor component,
/// written with the other separator. One of the two versions has no patch
/// component, so their patch numbers are equal only where both are zero; they
/// are where the text ends with the minor component.
///
/// The text is `head`, the separator `c` and `tail`, where `head` ends within
/// the major number.
pub proof fn lemma_first_separator_exchanged(head: Seq<char>, c: char, tail: Seq<char>)
    requires
        Scan::initial().run(head) matches Ok(mid) && mid.state == ParserState::ParsingMajor,
        Separator::spec_from_char(c) is Ok,
        parse_text(head + seq![c] + tail) is Ok,
        parse_text(head + seq![swap_char(c)] + tail) is Ok,
    ensures
        ({
            let v = parse_text(head + seq![c] + tail)->Ok_0;
            let w = parse_text(head + seq![swap_char(c)] + tail)->Ok_0;
            &&& w.prefix == v.prefix
            &&& w.major == v.major
            &&& w.minor == v.minor
            &&& w.sep == v.sep.other()
            &&& w.patch == 0 || v.patch == 0
            &&& (forall|i: int| 0 <= i < tail.len() ==> !plain_char(#[trigger] tail[i])) ==> {
                &&& w.patch == v.patch
                &&& w.suffix == v.suffix
            }
        }),
{
    let start = Scan::initial();
    let mid = start.run(head)->Ok_0;
    lemma_run_keeps_inv(start, head);
    let a = mid.step(c)->Ok_0;
    let b = mid.step(swap_char(c))->Ok_0;
    lemma_run_one(mid, c);
    lemma_run_one(mid, swap_char(c));
    lemma_run_joined(start, head, seq![c]);
    lemma_run_joined(start, head, seq![swap_char(c)]);
    lemma_run_joined(start, head + seq![c], tail);
    lemma_run_joined(start, head + seq![swap_char(c)], tail);
    assert(apart_by_separator(a, b));
    lemma_run_apart(a, b, tail);
}

} // verus!
