//! The rewriting of a line: the first pattern that finds a timestamp in it
//! decides how the timestamp is read, and every occurrence of the text it
//! found is replaced by the timestamp as a clock at the given offset shows
//! it.

use vstd::prelude::*;

use crate::clock::{
    parse_aware, parse_naive, parsed_aware, parsed_naive, render, rendered, Instant, UtcOffset,
};
use crate::compile::{DateTimePattern, PatternView};
use crate::matcher::leftmost_match;
use crate::text::{lemma_replaced_by_itself, lemma_replaced_twice, occurs_at, replace_all, replaced};

verus! {

/// Why a timestamp that was found stays as it is.
#[derive(Clone, Copy, Debug, PartialEq, Eq, Structural)]
pub enum Failure {
    /// The format of the pattern does not read the text that its regular
    /// expression found.
    Unparsed,
    /// The point in time cannot be written by the format.
    Unrendered,
}

/// A timestamp that was found and not converted.
#[derive(Debug)]
pub struct ConversionError {
    /// The place of the pattern in the set.
    pub index: usize,
    /// The text that the pattern found.
    pub matched: String,
    pub failure: Failure,
}

/// What the first pattern with a match found.
#[derive(Debug)]
pub struct Hit {
    /// The place of the pattern in the set.
    pub index: usize,
    /// The text that the pattern found.
    pub matched: String,
}

/// A line, searched and read.
#[derive(Debug)]
pub enum Located {
    /// No pattern finds anything in the line.
    Unmatched,
    /// A pattern found text that its format does not read.
    Unread(Hit),
    /// A pattern found a timestamp, and this is its point in time.
    Read(Hit, Instant),
}

impl PatternView {
    /// The part of the text found that is read as a timestamp: all of it,
    /// but for the closing `Z` that marks UTC where the pattern states no
    /// offset and accepts `Z`.
    pub open spec fn parse_text(self, matched: Seq<char>) -> Seq<char> {
        if self.is_naive && self.zulu && matched.len() > 0 && matched.last() == 'Z' {
            matched.drop_last()
        } else {
            matched
        }
    }

    /// The point in time that `matched` stands for: read as UTC where the
    /// pattern states no offset, and with its own offset where it does.
    pub open spec fn instant(self, matched: Seq<char>) -> Option<Instant> {
        if self.is_naive {
            parsed_naive(self.parse_text(matched), self.parse_format())
        } else {
            parsed_aware(matched, self.format)
        }
    }

    /// The timestamp `matched` as a clock `offset` seconds ahead of UTC
    /// shows it.
    pub open spec fn converted(self, matched: Seq<char>, offset: int) -> Option<Seq<char>> {
        match self.instant(matched) {
            Some(at) => rendered(at, offset, self.render_format()),
            None => None,
        }
    }

    /// The line with every occurrence of `matched` converted, or the line
    /// itself where `matched` cannot be converted.
    pub open spec fn applied(self, line: Seq<char>, matched: Seq<char>, offset: int) -> Seq<char> {
        match self.converted(matched, offset) {
            Some(text) => replaced(line, matched, text),
            None => line,
        }
    }
}

/// The patterns as plain values.
pub open spec fn views(patterns: Seq<DateTimePattern>) -> Seq<PatternView> {
    patterns.map_values(|pattern: DateTimePattern| pattern@)
}

/// The place of the first pattern that finds something in the line.
pub open spec fn first_hit(line: Seq<char>, patterns: Seq<PatternView>) -> Option<int>
    decreases patterns.len(),
{
    if patterns.len() == 0 {
        None
    } else {
        match first_hit(line, patterns.drop_last()) {
            Some(i) => Some(i),
            None => if leftmost_match(patterns.last().regex, line) is Some {
                Some(patterns.len() - 1)
            } else {
                None
            },
        }
    }
}

/// The line as the set of patterns rewrites it for a clock `offset` seconds
/// ahead of UTC.
pub open spec fn rewritten(line: Seq<char>, patterns: Seq<PatternView>, offset: int) -> Seq<char> {
    match first_hit(line, patterns) {
        None => line,
        Some(i) => patterns[i].applied(line, leftmost_match(patterns[i].regex, line)->0, offset),
    }
}

/// `first_hit` is the least place of a pattern that finds something.
pub proof fn lemma_first_hit(line: Seq<char>, patterns: Seq<PatternView>)
    ensures
        match first_hit(line, patterns) {
            Some(i) => {
                &&& 0 <= i < patterns.len()
                &&& leftmost_match(patterns[i].regex, line) is Some
                &&& forall|j: int|
                    0 <= j < i ==> leftmost_match((#[trigger] patterns[j]).regex, line) is None
            },
            None => forall|j: int|
                0 <= j < patterns.len() ==> leftmost_match(
                    (#[trigger] patterns[j]).regex,
                    line,
                ) is None,
        },
    decreases patterns.len(),
{
    if patterns.len() > 0 {
        let front = patterns.drop_last();
        lemma_first_hit(line, front);
        assert(forall|j: int| 0 <= j < front.len() ==> front[j] == patterns[j]);
    }
}

/// A line in which no pattern of the set finds anything is left as it is.
pub proof fn lemma_no_match_identity(line: Seq<char>, patterns: Seq<PatternView>, offset: int)
    requires
        forall|i: int|
            0 <= i < patterns.len() ==> leftmost_match((#[trigger] patterns[i]).regex, line) is None,
    ensures
        rewritten(line, patterns, offset) == line,
{
    lemma_first_hit(line, patterns);
}

/// Of the patterns that find something in a line, the one that stands first
/// in the set decides what becomes of the line, whatever the later ones
/// find.
pub proof fn lemma_first_match_priority(
    line: Seq<char>,
    patterns: Seq<PatternView>,
    offset: int,
    i: int,
)
    requires
        0 <= i < patterns.len(),
        leftmost_match(patterns[i].regex, line) is Some,
        forall|j: int| 0 <= j < i ==> leftmost_match((#[trigger] patterns[j]).regex, line) is None,
    ensures
        first_hit(line, patterns) == Some(i),
        rewritten(line, patterns, offset) == patterns[i].applied(
            line,
            leftmost_match(patterns[i].regex, line)->0,
            offset,
        ),
{
    lemma_first_hit(line, patterns);
}

/// Where the line holds the text that was found at exactly two places, both
/// become the same converted text and the rest of the line stays.
pub proof fn lemma_rewrites_both(
    before: Seq<char>,
    between: Seq<char>,
    after: Seq<char>,
    matched: Seq<char>,
    patterns: Seq<PatternView>,
    offset: int,
    i: int,
)
    requires
        matched.len() > 0,
        first_hit(before + matched + between + matched + after, patterns) == Some(i),
        leftmost_match(patterns[i].regex, before + matched + between + matched + after) == Some(
            matched,
        ),
        patterns[i].converted(matched, offset) is Some,
        forall|k: int|
            occurs_at(before + matched + between + matched + after, matched, k) ==> k
                == before.len() || k == before.len() + matched.len() + between.len(),
    ensures
        rewritten(before + matched + between + matched + after, patterns, offset) == before
            + patterns[i].converted(matched, offset)->0 + between + patterns[i].converted(
            matched,
            offset,
        )->0 + after,
{
    lemma_replaced_twice(
        before,
        between,
        after,
        matched,
        patterns[i].converted(matched, offset)->0,
    );
}

/// Where a timestamp is written back exactly as it was found, the line is
/// left as it is.
pub proof fn lemma_same_text_same_line(line: Seq<char>, patterns: Seq<PatternView>, offset: int)
    requires
        first_hit(line, patterns) matches Some(i) && patterns[i].converted(
            leftmost_match(patterns[i].regex, line)->0,
            offset,
        ) == leftmost_match(patterns[i].regex, line),
    ensures
        rewritten(line, patterns, offset) == line,
{
    let i = first_hit(line, patterns)->0;
    lemma_replaced_by_itself(line, leftmost_match(patterns[i].regex, line)->0);
}

/// Searches the line with each pattern in turn, up to the first that finds
/// something.
pub fn find_timestamp(line: &str, patterns: &[DateTimePattern]) -> (out: Option<Hit>)
    ensures
        match out {
            None => first_hit(line@, views(patterns@)) is None,
            Some(hit) => {
                &&& hit.index < patterns.len()
                &&& first_hit(line@, views(patterns@)) == Some(hit.index as int)
                &&& leftmost_match(patterns[hit.index as int]@.regex, line@) == Some(hit.matched@)
            },
        },
{
    let mut i: usize = 0;
    while i < patterns.len()
        invariant
            i <= patterns.len(),
            first_hit(line@, views(patterns@).take(i as int)) is None,
        decreases patterns.len() - i,
    {
        let ghost all = views(patterns@);
        proof {
            assert(all.take(i + 1).drop_last() == all.take(i as int));
            assert(all.take(i + 1).last() == patterns[i as int]@);
        }
        match patterns[i].find(line) {
            Some(matched) => {
                proof {
                    lemma_hit_at(line@, all, i as int);
                }
                return Some(Hit { index: i, matched });
            },
            None => {},
        }
        i += 1;
    }
    proof {
        assert(views(patterns@).take(i as int) == views(patterns@));
    }
    None
}

/// A pattern that finds something, after patterns that find nothing, is the
/// first hit of the whole set.
proof fn lemma_hit_at(line: Seq<char>, patterns: Seq<PatternView>, i: int)
    requires
        0 <= i < patterns.len(),
        first_hit(line, patterns.take(i)) is None,
        leftmost_match(patterns[i].regex, line) is Some,
    ensures
        first_hit(line, patterns) == Some(i),
    decreases patterns.len() - i,
{
    if i == patterns.len() - 1 {
        assert(patterns.drop_last() == patterns.take(i));
    } else {
        let front = patterns.drop_last();
        assert(front.take(i) == patterns.take(i));
        lemma_hit_at(line, front, i);
    }
}

/// The part of the text found that is read as a timestamp.
pub fn parse_text<'a>(pattern: &DateTimePattern, matched: &'a str) -> (out: &'a str)
    ensures
        out@ == pattern@.parse_text(matched@),
{
    if !(pattern.is_naive() && pattern.zulu()) {
        return matched;
    }
    let n = matched.unicode_len();
    if n > 0 && matched.get_char(n - 1) == 'Z' {
        let out = matched.substring_char(0, n - 1);
        proof {
            assert(matched@.subrange(0, n - 1) == matched@.drop_last());
        }
        out
    } else {
        matched
    }
}

/// Reads the text that a pattern found: as UTC where the pattern states no
/// offset, with its own offset where it does.
pub fn read_instant(pattern: &DateTimePattern, matched: &str) -> (out: Option<Instant>)
    ensures
        out == pattern@.instant(matched@),
{
    let parsed = if pattern.is_naive() {
        parse_naive(parse_text(pattern, matched), pattern.parse_format())
    } else {
        parse_aware(matched, pattern.format())
    };
    match parsed {
        Ok(at) => Some(at),
        Err(_) => None,
    }
}

/// Finds the first timestamp of the line and reads it.
pub fn locate(line: &str, patterns: &[DateTimePattern]) -> (out: Located)
    ensures
        match out {
            Located::Unmatched => first_hit(line@, views(patterns@)) is None,
            Located::Unread(hit) => {
                &&& hit.index < patterns.len()
                &&& first_hit(line@, views(patterns@)) == Some(hit.index as int)
                &&& leftmost_match(patterns[hit.index as int]@.regex, line@) == Some(hit.matched@)
                &&& patterns[hit.index as int]@.instant(hit.matched@) is None
            },
            Located::Read(hit, at) => {
                &&& hit.index < patterns.len()
                &&& first_hit(line@, views(patterns@)) == Some(hit.index as int)
                &&& leftmost_match(patterns[hit.index as int]@.regex, line@) == Some(hit.matched@)
                &&& patterns[hit.index as int]@.instant(hit.matched@) == Some(at)
            },
        },
{
    match find_timestamp(line, patterns) {
        None => Located::Unmatched,
        Some(hit) => match read_instant(&patterns[hit.index], hit.matched.as_str()) {
            Some(at) => Located::Read(hit, at),
            None => Located::Unread(hit),
        },
    }
}

/// Writes the point in time `at` as a clock at `offset` shows it, by the
/// pattern's format for writing, and puts the result in the place of every
/// occurrence of `matched` in the line. `None` where the point in time
/// cannot be written.
pub fn rewrite_found(
    line: &str,
    pattern: &DateTimePattern,
    matched: &str,
    at: Instant,
    offset: UtcOffset,
) -> (out: Option<String>)
    ensures
        match rendered(at, offset@, pattern@.render_format()) {
            Some(text) => out matches Some(result) && result@ == replaced(line@, matched@, text),
            None => out is None,
        },
{
    let format = pattern.render_format();
    match render(at, offset, format.as_str()) {
        Some(text) => Some(replace_all(line, matched, text.as_str())),
        None => None,
    }
}

/// Rewrites the first timestamp of the line, and every other occurrence of
/// its text, for a clock at `offset`.
///
/// A line without a timestamp comes back as it is. A timestamp that cannot
/// be converted is an error that says which pattern found what.
pub fn rewrite(line: &str, patterns: &[DateTimePattern], offset: UtcOffset) -> (out: Result<
    String,
    ConversionError,
>)
    ensures
        match out {
            Ok(text) => {
                &&& text@ == rewritten(line@, views(patterns@), offset@)
                &&& first_hit(line@, views(patterns@)) matches Some(i) ==> views(
                    patterns@,
                )[i].converted(leftmost_match(views(patterns@)[i].regex, line@)->0, offset@) is Some
            },
            Err(e) => {
                &&& e.index < patterns.len()
                &&& first_hit(line@, views(patterns@)) == Some(e.index as int)
                &&& leftmost_match(patterns[e.index as int]@.regex, line@) == Some(e.matched@)
                &&& patterns[e.index as int]@.converted(e.matched@, offset@) is None
                &&& e.failure == Failure::Unparsed <==> patterns[e.index as int]@.instant(
                    e.matched@,
                ) is None
            },
        },
{
    match locate(line, patterns) {
        Located::Unmatched => Ok(line.to_owned()),
        Located::Unread(hit) => Err(
            ConversionError { index: hit.index, matched: hit.matched, failure: Failure::Unparsed },
        ),
        Located::Read(hit, at) => {
            let done = rewrite_found(line, &patterns[hit.index], hit.matched.as_str(), at, offset);
            match done {
                Some(text) => Ok(text),
                None => Err(
                    ConversionError {
                        index: hit.index,
                        matched: hit.matched,
                        failure: Failure::Unrendered,
                    },
                ),
            }
        },
    }
}

/// Rewrites the first timestamp of the line, and every other occurrence of
/// its text, for a clock at `offset`. A line without a timestamp, or with
/// one that cannot be converted, comes back as it is.
pub fn parse_timestamp(line: &str, patterns: &[DateTimePattern], offset: UtcOffset) -> (out: String)
    ensures
        out@ == rewritten(line@, views(patterns@), offset@),
{
    match rewrite(line, patterns, offset) {
        Ok(text) => text,
        Err(_) => line.to_owned(),
    }
}

} // verus!
