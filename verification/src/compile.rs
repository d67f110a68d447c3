//! From a format specification to a pattern: the regular expression that
//! finds its timestamps, and what the specification says of time zones.

use regex::Regex;
use vstd::prelude::*;

use crate::directive::Directive;
use crate::matcher::{
    escaped, find_first, has_default_options, leftmost_match, regex_accepts, regex_pattern,
};
use crate::strftime::{decompose, strftime_items};
use crate::table::{fixed_text, numeric_fragment, numeric_text, WHITESPACE};

verus! {

/// Why a format specification has no pattern.
#[derive(Clone, Copy, Debug, PartialEq, Eq, Structural)]
pub enum CompileError {
    /// A directive of the specification has no fragment in the table.
    UnsupportedDirective,
    /// A part of the specification is no directive at all.
    MalformedSpecification,
    /// The regular expression made of the fragments was not accepted.
    MatcherRejected,
}

impl Directive {
    /// The fragment that finds the text of this directive, or `None` for a
    /// directive that no pattern can hold.
    pub open spec fn fragment(self) -> Option<Seq<char>> {
        match self {
            Directive::Literal(text) => Some(escaped(text@)),
            Directive::Whitespace => Some(WHITESPACE@),
            Directive::Numeric(kind, padding) => numeric_fragment(kind, padding),
            Directive::FixedString(kind) => kind.fragment(),
            Directive::Malformed => None,
        }
    }

    /// The error that a directive without a fragment stands for.
    pub open spec fn rejection(self) -> CompileError {
        if self is Malformed {
            CompileError::MalformedSpecification
        } else {
            CompileError::UnsupportedDirective
        }
    }

    /// Whether text of this directive states its own offset from UTC.
    pub open spec fn carries_offset(self) -> bool {
        self matches Directive::FixedString(kind) && kind.carries_offset()
    }

    /// Whether text of this directive may be a bare `Z`.
    pub open spec fn allows_zulu(self) -> bool {
        self matches Directive::FixedString(kind) && kind.allows_zulu()
    }

    /// The fragment that finds the text of this directive, or the error
    /// that the directive stands for.
    pub fn text(&self) -> (out: Result<String, CompileError>)
        ensures
            out is Ok <==> self.fragment() is Some,
            out matches Ok(text) ==> self.fragment() == Some(text@),
            out matches Err(e) ==> e == self.rejection(),
    {
        match self {
            Directive::Literal(text) => Ok(regex::escape(text.as_str())),
            Directive::Whitespace => Ok(WHITESPACE.to_owned()),
            Directive::Numeric(kind, padding) => match numeric_text(*kind, *padding) {
                Some(text) => Ok(text),
                None => Err(CompileError::UnsupportedDirective),
            },
            Directive::FixedString(kind) => match fixed_text(*kind) {
                Some(text) => Ok(text),
                None => Err(CompileError::UnsupportedDirective),
            },
            Directive::Malformed => Err(CompileError::MalformedSpecification),
        }
    }

    /// Whether text of this directive states its own offset from UTC.
    pub fn has_offset(&self) -> (b: bool)
        ensures
            b == self.carries_offset(),
    {
        match self {
            Directive::FixedString(kind) => kind.has_offset(),
            _ => false,
        }
    }

    /// Whether text of this directive may be a bare `Z`.
    pub fn may_be_zulu(&self) -> (b: bool)
        ensures
            b == self.allows_zulu(),
    {
        match self {
            Directive::FixedString(kind) => kind.may_be_zulu(),
            _ => false,
        }
    }
}

/// The index of the first directive without a fragment.
pub open spec fn first_rejected(items: Seq<Directive>) -> Option<int>
    decreases items.len(),
{
    if items.len() == 0 {
        None
    } else {
        match first_rejected(items.drop_last()) {
            Some(i) => Some(i),
            None => if items.last().fragment() is None {
                Some(items.len() - 1)
            } else {
                None
            },
        }
    }
}

/// The fragments of the directives, one after the other.
pub open spec fn joined(items: Seq<Directive>) -> Seq<char>
    decreases items.len(),
{
    if items.len() == 0 {
        Seq::empty()
    } else {
        joined(items.drop_last()) + match items.last().fragment() {
            Some(text) => text,
            None => Seq::empty(),
        }
    }
}

/// Whether one of the directives states an offset from UTC.
pub open spec fn any_offset(items: Seq<Directive>) -> bool {
    exists|i: int| 0 <= i < items.len() && (#[trigger] items[i]).carries_offset()
}

/// Whether one of the directives may be a bare `Z`.
pub open spec fn any_zulu(items: Seq<Directive>) -> bool {
    exists|i: int| 0 <= i < items.len() && (#[trigger] items[i]).allows_zulu()
}

/// Whether the text of a specification ends in a `Z` that is not the
/// directive `%Z`.
pub open spec fn ends_with_plain_z(fmt: Seq<char>) -> bool {
    &&& fmt.len() >= 1
    &&& fmt[fmt.len() - 1] == 'Z'
    &&& !(fmt.len() >= 2 && fmt[fmt.len() - 2] == '%')
}

/// What a pattern is made of, before the regular expression is compiled.
pub struct Blueprint {
    /// The text of the regular expression.
    pub regex: String,
    /// No directive states an offset: the timestamp is read as UTC.
    pub is_naive: bool,
    /// A timestamp of this pattern may end in `Z`.
    pub zulu: bool,
}

/// A `Blueprint` as plain values.
pub ghost struct Outline {
    pub regex: Seq<char>,
    pub is_naive: bool,
    pub zulu: bool,
}

impl View for Blueprint {
    type V = Outline;

    open spec fn view(&self) -> Outline {
        Outline { regex: self.regex@, is_naive: self.is_naive, zulu: self.zulu }
    }
}

/// What the specification `fmt`, read as the directives `items`, makes a
/// pattern of: the error of the first directive without a fragment, or else
/// the fragments in order and the two marks.
pub open spec fn outline(fmt: Seq<char>, items: Seq<Directive>) -> Result<Outline, CompileError> {
    match first_rejected(items) {
        Some(i) => Err(items[i].rejection()),
        None => Ok(
            Outline {
                regex: joined(items),
                is_naive: !any_offset(items),
                zulu: ends_with_plain_z(fmt) || any_zulu(items),
            },
        ),
    }
}

/// `first_rejected` is the least index of a directive without a fragment.
pub proof fn lemma_first_rejected(items: Seq<Directive>)
    ensures
        match first_rejected(items) {
            Some(i) => {
                &&& 0 <= i < items.len()
                &&& items[i].fragment() is None
                &&& forall|j: int| 0 <= j < i ==> (#[trigger] items[j]).fragment() is Some
            },
            None => forall|j: int| 0 <= j < items.len() ==> (#[trigger] items[j]).fragment() is Some,
        },
    decreases items.len(),
{
    if items.len() > 0 {
        let front = items.drop_last();
        lemma_first_rejected(front);
        assert(forall|j: int| 0 <= j < front.len() ==> front[j] == items[j]);
    }
}

/// A directive without a fragment, after directives that all have one, is
/// the first rejected of the whole sequence.
proof fn lemma_rejected_at(items: Seq<Directive>, i: int)
    requires
        0 <= i < items.len(),
        first_rejected(items.take(i)) is None,
        items[i].fragment() is None,
    ensures
        first_rejected(items) == Some(i),
    decreases items.len() - i,
{
    if i == items.len() - 1 {
        assert(items.drop_last() == items.take(i));
    } else {
        let front = items.drop_last();
        assert(front.take(i) == items.take(i));
        lemma_rejected_at(front, i);
    }
}

/// Whether the text of a specification ends in a `Z` that is not the
/// directive `%Z`.
pub fn has_plain_z_suffix(fmt: &str) -> (b: bool)
    ensures
        b == ends_with_plain_z(fmt@),
{
    let n = fmt.unicode_len();
    if n == 0 {
        return false;
    }
    if fmt.get_char(n - 1) != 'Z' {
        return false;
    }
    n < 2 || fmt.get_char(n - 2) != '%'
}

/// Puts the fragments of `items` together and gathers the two marks.
///
/// `items` are the directives of the specification `fmt`, in its order. The
/// first directive without a fragment ends the work with its error.
pub fn assemble(fmt: &str, items: &Vec<Directive>) -> (out: Result<Blueprint, CompileError>)
    ensures
        match out {
            Ok(blueprint) => outline(fmt@, items@) == Ok::<Outline, CompileError>(blueprint@),
            Err(e) => outline(fmt@, items@) == Err::<Outline, CompileError>(e),
        },
{
    let seed = has_plain_z_suffix(fmt);
    let mut regex = String::new();
    let mut is_naive = true;
    let mut zulu = seed;
    let mut i: usize = 0;
    while i < items.len()
        invariant
            i <= items.len(),
            seed == ends_with_plain_z(fmt@),
            first_rejected(items@.take(i as int)) is None,
            regex@ == joined(items@.take(i as int)),
            is_naive == !any_offset(items@.take(i as int)),
            zulu == (seed || any_zulu(items@.take(i as int))),
        decreases items.len() - i,
    {
        let ghost before = items@.take(i as int);
        let ghost after = items@.take(i + 1);
        proof {
            assert(after.drop_last() == before);
            assert(after.last() == items@[i as int]);
        }
        match items[i].text() {
            Ok(text) => {
                regex.append(text.as_str());
            },
            Err(e) => {
                proof {
                    lemma_rejected_at(items@, i as int);
                }
                return Err(e);
            },
        }
        if items[i].has_offset() {
            is_naive = false;
        }
        if items[i].may_be_zulu() {
            zulu = true;
        }
        proof {
            // A directive of `after` is one of `before` or the one just read.
            assert(forall|j: int| 0 <= j < before.len() ==> before[j] == after[j]);
            if any_offset(before) {
                let j = choose|j: int| 0 <= j < before.len() && (#[trigger] before[j]).carries_offset();
                assert(after[j].carries_offset());
            }
            if any_zulu(before) {
                let j = choose|j: int| 0 <= j < before.len() && (#[trigger] before[j]).allows_zulu();
                assert(after[j].allows_zulu());
            }
        }
        i += 1;
    }
    proof {
        assert(items@.take(i as int) == items@);
    }
    Ok(Blueprint { regex, is_naive, zulu })
}

/// A compiled format specification.
#[derive(Debug)]
pub struct DateTimePattern {
    format: String,
    regex: Regex,
    is_naive: bool,
    zulu: bool,
}

/// A `DateTimePattern` as plain values.
pub ghost struct PatternView {
    /// The format specification.
    pub format: Seq<char>,
    /// The text of the regular expression.
    pub regex: Seq<char>,
    /// No directive states an offset: the timestamp is read as UTC.
    pub is_naive: bool,
    /// A timestamp of this pattern may end in `Z`.
    pub zulu: bool,
}

/// The pattern of the specification `fmt`, or the reason why it has none.
pub open spec fn compiled(fmt: Seq<char>) -> Result<PatternView, CompileError> {
    match outline(fmt, strftime_items(fmt)) {
        Err(e) => Err(e),
        Ok(parts) => if regex_accepts(parts.regex) {
            Ok(
                PatternView {
                    format: fmt,
                    regex: parts.regex,
                    is_naive: parts.is_naive,
                    zulu: parts.zulu,
                },
            )
        } else {
            Err(CompileError::MatcherRejected)
        },
    }
}

/// What is written behind a timestamp that stated no offset: the offset
/// with a colon.
pub const OFFSET_SUFFIX: &'static str = "%:z";

impl PatternView {
    /// This is the pattern of its own format specification.
    pub open spec fn is_compiled(self) -> bool {
        compiled(self.format) == Ok::<PatternView, CompileError>(self)
    }

    /// The format by which the text that was found is read. Where the
    /// pattern states no offset and accepts `Z`, the closing `Z` is a mark
    /// of UTC and no part of the timestamp: the format is taken without it.
    pub open spec fn parse_format(self) -> Seq<char> {
        if self.is_naive && self.zulu {
            self.format.take(self.format.len() - 1)
        } else {
            self.format
        }
    }

    /// The format by which a converted timestamp is written. Where the
    /// pattern states an offset it is the format itself. Where it states
    /// none, the offset is written behind the format for reading.
    pub open spec fn render_format(self) -> Seq<char> {
        if self.is_naive {
            self.parse_format() + OFFSET_SUFFIX@
        } else {
            self.format
        }
    }
}

/// Compiling is a function of the text: two patterns of the same format
/// specification have the same regular expression, which finds the same
/// text in every line, and the same two marks.
pub proof fn lemma_compile_deterministic(first: PatternView, second: PatternView)
    requires
        first.is_compiled(),
        second.is_compiled(),
        first.format == second.format,
    ensures
        first == second,
        forall|line: Seq<char>|
            leftmost_match(first.regex, line) == leftmost_match(second.regex, line),
{
}

/// A pattern is marked as stating no offset exactly when none of its
/// directives states one, and as accepting `Z` exactly when the text of the
/// specification ends in a plain `Z` or one of its directives may be `Z`.
pub proof fn lemma_marks(pattern: PatternView)
    requires
        pattern.is_compiled(),
    ensures
        pattern.is_naive == !any_offset(strftime_items(pattern.format)),
        pattern.zulu == (ends_with_plain_z(pattern.format) || any_zulu(
            strftime_items(pattern.format),
        )),
        pattern.regex == joined(strftime_items(pattern.format)),
        first_rejected(strftime_items(pattern.format)) is None,
{
}

/// The format of a pattern that states no offset and accepts `Z` ends in a
/// plain `Z`.
pub proof fn lemma_naive_zulu(pattern: PatternView)
    requires
        pattern.is_compiled(),
        pattern.is_naive,
        pattern.zulu,
    ensures
        ends_with_plain_z(pattern.format),
{
    let items = strftime_items(pattern.format);
    if any_zulu(items) {
        let i = choose|i: int| 0 <= i < items.len() && (#[trigger] items[i]).allows_zulu();
        assert(items[i].carries_offset());
    }
}

impl View for DateTimePattern {
    type V = PatternView;

    closed spec fn view(&self) -> PatternView {
        PatternView {
            format: self.format@,
            regex: regex_pattern(self.regex),
            is_naive: self.is_naive,
            zulu: self.zulu,
        }
    }
}

impl DateTimePattern {
    #[verifier::type_invariant]
    closed spec fn well_formed(self) -> bool {
        &&& has_default_options(self.regex)
        &&& self@.is_compiled()
    }

    /// The format specification. Every pattern is the pattern of its own
    /// format specification.
    pub fn format(&self) -> (out: &str)
        ensures
            out@ == self@.format,
            self@.is_compiled(),
    {
        proof {
            use_type_invariant(self);
        }
        self.format.as_str()
    }

    /// The text of the regular expression.
    pub fn regex_str(&self) -> (out: &str)
        ensures
            out@ == self@.regex,
    {
        self.regex.as_str()
    }

    /// Whether no directive states an offset.
    pub fn is_naive(&self) -> (out: bool)
        ensures
            out == self@.is_naive,
    {
        self.is_naive
    }

    /// Whether a timestamp of this pattern may end in `Z`.
    pub fn zulu(&self) -> (out: bool)
        ensures
            out == self@.zulu,
    {
        self.zulu
    }

    /// The text of the leftmost match of the pattern in `line`.
    pub fn find(&self, line: &str) -> (found: Option<String>)
        ensures
            found is Some <==> leftmost_match(self@.regex, line@) is Some,
            found matches Some(text) ==> leftmost_match(self@.regex, line@) == Some(text@),
    {
        proof {
            use_type_invariant(self);
        }
        find_first(&self.regex, line)
    }

    /// The format by which the text that was found is read.
    pub fn parse_format(&self) -> (out: &str)
        ensures
            out@ == self@.parse_format(),
    {
        proof {
            use_type_invariant(self);
        }
        if self.is_naive && self.zulu {
            proof {
                lemma_naive_zulu(self@);
            }
            let n = self.format.as_str().unicode_len();
            self.format.as_str().substring_char(0, n - 1)
        } else {
            self.format.as_str()
        }
    }

    /// The format by which a converted timestamp is written.
    pub fn render_format(&self) -> (out: String)
        ensures
            out@ == self@.render_format(),
    {
        let mut out = self.parse_format().to_owned();
        if self.is_naive {
            out.append(OFFSET_SUFFIX);
        }
        out
    }
}

/// Compiles a format specification.
///
/// The specification is read into directives, their fragments are put
/// together, and the regular expression is compiled from that text.
pub fn convert_dt_spec_regex(fmt: &str) -> (out: Result<DateTimePattern, CompileError>)
    ensures
        match out {
            Ok(pattern) => compiled(fmt@) == Ok::<PatternView, CompileError>(pattern@),
            Err(e) => compiled(fmt@) == Err::<PatternView, CompileError>(e),
        },
{
    let items = decompose(fmt);
    let blueprint = match assemble(fmt, &items) {
        Ok(blueprint) => blueprint,
        Err(e) => {
            return Err(e);
        },
    };
    match Regex::new(blueprint.regex.as_str()) {
        Ok(regex) => Ok(
            DateTimePattern {
                format: fmt.to_owned(),
                regex,
                is_naive: blueprint.is_naive,
                zulu: blueprint.zulu,
            },
        ),
        Err(_) => Err(CompileError::MatcherRejected),
    }
}

} // verus!
