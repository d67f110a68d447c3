//! The set of patterns: the caller's format specifications first, the
//! built-in ones behind them, each specification compiled once.

use vstd::prelude::*;

use crate::compile::{compiled, convert_dt_spec_regex, CompileError, DateTimePattern, PatternView};
use crate::rewrite::views;
use crate::text::same_text;

verus! {

/// A format specification that has no pattern.
#[derive(Debug)]
pub struct BuildError {
    /// Whether the specification is one of the caller's.
    pub user_supplied: bool,
    /// The place of the specification in its own list.
    pub index: usize,
    /// The text of the specification.
    pub format: String,
    /// Why it has no pattern.
    pub error: CompileError,
}

/// The texts of the specifications.
pub open spec fn texts(specs: Seq<String>) -> Seq<Seq<char>> {
    specs.map_values(|spec: String| spec@)
}

/// What a list of specifications is built into: the patterns of the
/// specifications in their order, one that stood in the list before left
/// out; or the place and the error of the first that has no pattern.
pub open spec fn built(specs: Seq<Seq<char>>) -> Result<Seq<PatternView>, (int, CompileError)>
    decreases specs.len(),
{
    if specs.len() == 0 {
        Ok(Seq::empty())
    } else {
        match built(specs.drop_last()) {
            Err(e) => Err(e),
            Ok(front) => if specs.drop_last().contains(specs.last()) {
                Ok(front)
            } else {
                match compiled(specs.last()) {
                    Ok(pattern) => Ok(front.push(pattern)),
                    Err(e) => Err((specs.len() - 1, e)),
                }
            },
        }
    }
}

/// Whether one of the patterns has the format specification `fmt`.
pub open spec fn has_format(patterns: Seq<PatternView>, fmt: Seq<char>) -> bool {
    exists|k: int| 0 <= k < patterns.len() && (#[trigger] patterns[k]).format == fmt
}

/// What has been built of a list holds a pattern for every specification of
/// the list and no other, each the pattern of its own specification.
pub proof fn lemma_built_covers(specs: Seq<Seq<char>>)
    requires
        built(specs) is Ok,
    ensures
        forall|k: int|
            0 <= k < built(specs)->Ok_0.len() ==> (#[trigger] built(specs)->Ok_0[k]).is_compiled()
                && specs.contains(built(specs)->Ok_0[k].format),
        forall|j: int| 0 <= j < specs.len() ==> has_format(built(specs)->Ok_0, #[trigger] specs[j]),
    decreases specs.len(),
{
    if specs.len() > 0 {
        let front = specs.drop_last();
        let last = specs.last();
        lemma_built_covers(front);
        let had = built(front)->Ok_0;
        let has = built(specs)->Ok_0;
        assert(forall|j: int| 0 <= j < front.len() ==> front[j] == specs[j]);
        assert forall|k: int| 0 <= k < has.len() implies (#[trigger] has[k]).is_compiled()
            && specs.contains(has[k].format) by {
            if k < had.len() {
                assert(has[k] == had[k]);
                let j = choose|j: int| 0 <= j < front.len() && front[j] == had[k].format;
                assert(specs[j] == had[k].format);
            } else {
                assert(specs[specs.len() - 1] == last);
            }
        }
        assert forall|j: int| 0 <= j < specs.len() implies has_format(has, #[trigger] specs[j]) by {
            if j < front.len() {
                assert(has_format(had, front[j]));
                let k = choose|k: int| 0 <= k < had.len() && (#[trigger] had[k]).format == front[j];
                assert(has[k] == had[k]);
            } else if front.contains(last) {
                let i = choose|i: int| 0 <= i < front.len() && front[i] == last;
                assert(has_format(had, front[i]));
                let k = choose|k: int| 0 <= k < had.len() && (#[trigger] had[k]).format == front[i];
                assert(has[k] == had[k]);
            } else {
                assert(has[has.len() - 1].format == last);
            }
        }
    }
}

/// The patterns of the caller's specifications stand before those of the
/// built-in ones: what is built of both lists begins with what is built of
/// the caller's alone.
pub proof fn lemma_user_first(user: Seq<Seq<char>>, defaults: Seq<Seq<char>>)
    requires
        built(user + defaults) is Ok,
    ensures
        built(user) is Ok,
        built(user)->Ok_0.len() <= built(user + defaults)->Ok_0.len(),
        built(user + defaults)->Ok_0.take(built(user)->Ok_0.len() as int) == built(user)->Ok_0,
    decreases defaults.len(),
{
    if defaults.len() == 0 {
        assert(user + defaults == user);
        assert(built(user)->Ok_0.take(built(user)->Ok_0.len() as int) == built(user)->Ok_0);
    } else {
        let front = defaults.drop_last();
        assert((user + defaults).drop_last() == user + front);
        lemma_user_first(user, front);
        let had = built(user + front)->Ok_0;
        let has = built(user + defaults)->Ok_0;
        let n = built(user)->Ok_0.len() as int;
        assert(has.take(n) == had.take(n));
    }
}

/// Whether one of the patterns is the pattern of the specification `spec`.
fn holds(patterns: &Vec<DateTimePattern>, spec: &str) -> (found: bool)
    ensures
        found == has_format(views(patterns@), spec@),
{
    let mut k: usize = 0;
    while k < patterns.len()
        invariant
            k <= patterns.len(),
            forall|j: int| 0 <= j < k ==> (#[trigger] views(patterns@)[j]).format != spec@,
        decreases patterns.len() - k,
    {
        let format = patterns[k].format();
        let same = same_text(format, spec);
        if same {
            assert(views(patterns@)[k as int].format == spec@);
            return true;
        }
        k += 1;
    }
    false
}

/// Compiles the specifications of one list onto the patterns that are
/// there, leaving out each that has a pattern already. `before` are the
/// specifications that the patterns were built of.
fn extend(
    patterns: &mut Vec<DateTimePattern>,
    specs: &[String],
    Ghost(before): Ghost<Seq<Seq<char>>>,
) -> (out: Result<(), (usize, CompileError)>)
    requires
        built(before) == Ok::<Seq<PatternView>, (int, CompileError)>(views(old(patterns)@)),
    ensures
        match out {
            Ok(_) => built(before + texts(specs@)) == Ok::<Seq<PatternView>, (int, CompileError)>(
                views(final(patterns)@),
            ),
            Err((i, e)) => i < specs.len() && built(before + texts(specs@)) == Err::<
                Seq<PatternView>,
                (int, CompileError),
            >((before.len() + i, e)),
        },
{
    let ghost all = before + texts(specs@);
    let mut i: usize = 0;
    proof {
        assert(all.take(before.len() as int) == before);
    }
    while i < specs.len()
        invariant
            i <= specs.len(),
            all == before + texts(specs@),
            built(all.take(before.len() + i)) == Ok::<Seq<PatternView>, (int, CompileError)>(
                views(patterns@),
            ),
        decreases specs.len() - i,
    {
        let ghost done = all.take(before.len() + i);
        let ghost next = all.take(before.len() + i + 1);
        proof {
            assert(next.drop_last() == done);
            assert(next.last() == specs@[i as int]@);
            lemma_built_covers(done);
        }
        let spec = specs[i].as_str();
        let known = holds(patterns, spec);
        proof {
            if known {
                let k = choose|k: int|
                    0 <= k < patterns.len() && (#[trigger] views(patterns@)[k]).format == spec@;
                assert(done.contains(views(patterns@)[k].format));
            }
            if done.contains(spec@) {
                let j = choose|j: int| 0 <= j < done.len() && done[j] == spec@;
                assert(has_format(views(patterns@), done[j]));
            }
        }
        if !known {
            let ghost had = views(patterns@);
            match convert_dt_spec_regex(spec) {
                Ok(pattern) => {
                    patterns.push(pattern);
                    proof {
                        assert(views(patterns@) == had.push(pattern@));
                    }
                },
                Err(e) => {
                    proof {
                        lemma_built_fails(all, before.len() + i);
                    }
                    return Err((i, e));
                },
            }
        }
        i += 1;
    }
    proof {
        assert(all.take(before.len() + i) == all);
    }
    Ok(())
}

/// Once a front part of a list has failed to build, the whole list fails in
/// the same way.
proof fn lemma_built_fails(specs: Seq<Seq<char>>, i: int)
    requires
        0 <= i < specs.len(),
        built(specs.take(i + 1)) is Err,
    ensures
        built(specs) == built(specs.take(i + 1)),
    decreases specs.len() - i,
{
    if i == specs.len() - 1 {
        assert(specs.take(i + 1) == specs);
    } else {
        let front = specs.drop_last();
        assert(front.take(i + 1) == specs.take(i + 1));
        lemma_built_fails(front, i);
    }
}

/// A list that fails to build fails in the same way with more behind it.
proof fn lemma_built_front_fails(specs: Seq<Seq<char>>, more: Seq<Seq<char>>)
    requires
        built(specs) is Err,
    ensures
        built(specs + more) == built(specs),
{
    if specs.len() > 0 {
        let whole = specs + more;
        assert(whole.take(specs.len() as int) == specs);
        lemma_built_fails(whole, specs.len() - 1);
    }
}

impl BuildError {
    /// The place of the specification, counted through the caller's
    /// specifications and on through the `user_count` built-in ones.
    pub open spec fn place(self, user_count: nat) -> int {
        if self.user_supplied {
            self.index as int
        } else {
            user_count + self.index
        }
    }
}

/// Builds the set of patterns from the caller's specifications and the
/// built-in ones.
///
/// The set holds the patterns in the order of the specifications, the
/// caller's first. A specification that stood in the lists before adds
/// nothing. The first specification that has no pattern ends the work, and
/// the error names it.
pub fn build(user_specs: &[String], default_specs: &[String]) -> (out: Result<
    Vec<DateTimePattern>,
    BuildError,
>)
    ensures
        match out {
            Ok(patterns) => built(texts(user_specs@) + texts(default_specs@)) == Ok::<
                Seq<PatternView>,
                (int, CompileError),
            >(views(patterns@)),
            Err(e) => {
                &&& built(texts(user_specs@) + texts(default_specs@)) == Err::<
                    Seq<PatternView>,
                    (int, CompileError),
                >((e.place(user_specs@.len()), e.error))
                &&& e.user_supplied ==> e.index < user_specs.len() && e.format@
                    == user_specs[e.index as int]@
                &&& !e.user_supplied ==> e.index < default_specs.len() && e.format@
                    == default_specs[e.index as int]@
            },
        },
{
    let mut patterns: Vec<DateTimePattern> = Vec::new();
    let ghost none = Seq::<Seq<char>>::empty();
    let ghost user = texts(user_specs@);
    let ghost defaults = texts(default_specs@);
    proof {
        assert(views(patterns@) == Seq::<PatternView>::empty());
        assert(none + user == user);
    }
    match extend(&mut patterns, user_specs, Ghost(none)) {
        Ok(_) => {},
        Err((index, error)) => {
            proof {
                lemma_built_front_fails(user, defaults);
            }
            return Err(
                BuildError { user_supplied: true, index, format: user_specs[index].clone(), error },
            );
        },
    }
    match extend(&mut patterns, default_specs, Ghost(user)) {
        Ok(_) => Ok(patterns),
        Err((index, error)) => Err(
            BuildError { user_supplied: false, index, format: default_specs[index].clone(), error },
        ),
    }
}

} // verus!
