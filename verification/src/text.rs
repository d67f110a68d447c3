//! Text as a sequence of characters, and the replacement of every
//! occurrence of one text by another.

use vstd::prelude::*;

verus! {

/// `String::push` adds one character at the end of the text.
pub assume_specification[ String::push ](text: &mut String, ch: char)
    ensures
        final(text)@ == old(text)@.push(ch),
;

/// Whether `part` stands in `text` at the position `at`.
pub open spec fn occurs_at(text: Seq<char>, part: Seq<char>, at: int) -> bool {
    &&& 0 <= at
    &&& at + part.len() <= text.len()
    &&& text.subrange(at, at + part.len()) == part
}

/// `text` with every occurrence of `from` replaced by `to`. The occurrences
/// are taken from the left and do not overlap. An empty `from` occurs
/// before every character and at the end.
pub open spec fn replaced(text: Seq<char>, from: Seq<char>, to: Seq<char>) -> Seq<char>
    decreases text.len(),
{
    if text.len() == 0 {
        if from.len() == 0 {
            to
        } else {
            text
        }
    } else if from.len() == 0 {
        to + text.take(1) + replaced(text.skip(1), from, to)
    } else if occurs_at(text, from, 0) {
        to + replaced(text.skip(from.len() as int), from, to)
    } else {
        text.take(1) + replaced(text.skip(1), from, to)
    }
}

/// Text that holds no occurrence of `from` is left as it is.
pub proof fn lemma_replaced_absent(text: Seq<char>, from: Seq<char>, to: Seq<char>)
    requires
        from.len() > 0,
        forall|i: int| !occurs_at(text, from, i),
    ensures
        replaced(text, from, to) == text,
    decreases text.len(),
{
    if text.len() > 0 {
        let rest = text.skip(1);
        assert forall|i: int| !occurs_at(rest, from, i) by {
            if occurs_at(rest, from, i) {
                assert(rest.subrange(i, i + from.len()) == text.subrange(i + 1, i + 1 + from.len()));
                assert(occurs_at(text, from, i + 1));
            }
        }
        lemma_replaced_absent(rest, from, to);
        assert(!occurs_at(text, from, 0));
        assert(text.take(1) + rest == text);
    }
}

/// Up to the first occurrence of `from` the text stays, the occurrence
/// becomes `to`, and the replacement goes on behind it.
pub proof fn lemma_replaced_first(text: Seq<char>, from: Seq<char>, to: Seq<char>, at: int)
    requires
        from.len() > 0,
        occurs_at(text, from, at),
        forall|i: int| 0 <= i < at ==> !occurs_at(text, from, i),
    ensures
        replaced(text, from, to) == text.take(at) + to + replaced(
            text.skip(at + from.len()),
            from,
            to,
        ),
    decreases at,
{
    if at == 0 {
        assert(text.take(0) + to == to);
    } else {
        let rest = text.skip(1);
        assert(!occurs_at(text, from, 0));
        assert(rest.subrange(at - 1, at - 1 + from.len()) == text.subrange(at, at + from.len()));
        assert forall|i: int| 0 <= i < at - 1 implies !occurs_at(rest, from, i) by {
            if occurs_at(rest, from, i) {
                assert(rest.subrange(i, i + from.len()) == text.subrange(i + 1, i + 1 + from.len()));
                assert(occurs_at(text, from, i + 1));
            }
        }
        lemma_replaced_first(rest, from, to, at - 1);
        assert(rest.skip(at - 1 + from.len()) == text.skip(at + from.len()));
        assert(text.take(1) + rest.take(at - 1) == text.take(at));
        assert(text.take(1) + (rest.take(at - 1) + to + replaced(
            text.skip(at + from.len()),
            from,
            to,
        )) == text.take(at) + to + replaced(text.skip(at + from.len()), from, to));
    }
}

/// Where a text holds `part` at exactly two places, both are replaced and
/// the rest stays: every occurrence of the same text is rewritten in the
/// same way in one pass.
pub proof fn lemma_replaced_twice(
    before: Seq<char>,
    between: Seq<char>,
    after: Seq<char>,
    part: Seq<char>,
    to: Seq<char>,
)
    requires
        part.len() > 0,
        forall|i: int|
            occurs_at(before + part + between + part + after, part, i) ==> i == before.len() || i
                == before.len() + part.len() + between.len(),
    ensures
        replaced(before + part + between + part + after, part, to) == before + to + between + to
            + after,
{
    let text = before + part + between + part + after;
    let first = before.len() as int;
    let tail = between + part + after;
    let second = between.len() as int;
    assert(text.subrange(first, first + part.len()) == part);
    assert(text.skip(first + part.len()) == tail);
    assert(text.take(first) == before);
    lemma_replaced_first(text, part, to, first);
    assert(tail.subrange(second, second + part.len()) == part);
    assert forall|i: int| 0 <= i < second implies !occurs_at(tail, part, i) by {
        if occurs_at(tail, part, i) {
            let j = first + part.len() + i;
            assert(tail.subrange(i, i + part.len()) == text.subrange(j, j + part.len()));
            assert(occurs_at(text, part, j));
        }
    }
    lemma_replaced_first(tail, part, to, second);
    assert(tail.take(second) == between);
    assert(tail.skip(second + part.len()) == after);
    assert forall|i: int| !occurs_at(after, part, i) by {
        if occurs_at(after, part, i) {
            let j = first + part.len() + second + part.len() + i;
            assert(after.subrange(i, i + part.len()) == text.subrange(j, j + part.len()));
            assert(occurs_at(text, part, j));
        }
    }
    lemma_replaced_absent(after, part, to);
    assert(before + to + (between + to + after) == before + to + between + to + after);
}

/// To replace a text by itself changes nothing.
pub proof fn lemma_replaced_by_itself(text: Seq<char>, part: Seq<char>)
    ensures
        replaced(text, part, part) == text,
    decreases text.len(),
{
    if text.len() == 0 {
    } else if part.len() == 0 {
        lemma_replaced_by_itself(text.skip(1), part);
        assert(part + text.take(1) + text.skip(1) == text);
    } else if occurs_at(text, part, 0) {
        lemma_replaced_by_itself(text.skip(part.len() as int), part);
        assert(text.subrange(0, part.len() as int) + text.skip(part.len() as int) == text);
    } else {
        lemma_replaced_by_itself(text.skip(1), part);
        assert(text.take(1) + text.skip(1) == text);
    }
}

/// The characters of `text`, in order.
pub fn chars_of(text: &str) -> (out: Vec<char>)
    ensures
        out@ == text@,
{
    let mut out: Vec<char> = Vec::new();
    for c in it: text.chars()
        invariant
            out@ == it.seq().take(it.index() as int),
    {
        out.push(c);
    }
    out
}

/// Whether two texts hold the same characters.
pub fn same_text(left: &str, right: &str) -> (same: bool)
    ensures
        same == (left@ == right@),
{
    let a = chars_of(left);
    let b = chars_of(right);
    if a.len() != b.len() {
        return false;
    }
    let mut i: usize = 0;
    while i < a.len()
        invariant
            i <= a.len(),
            a.len() == b.len(),
            a@ == left@,
            b@ == right@,
            forall|j: int| 0 <= j < i ==> a@[j] == b@[j],
        decreases a.len() - i,
    {
        if a[i] != b[i] {
            assert(a@[i as int] != b@[i as int]);
            return false;
        }
        i += 1;
    }
    proof {
        assert(a@ =~= b@);
    }
    true
}

/// Whether `part` stands in `text` at the position `at`.
pub fn stands_at(text: &Vec<char>, part: &Vec<char>, at: usize) -> (b: bool)
    ensures
        b == occurs_at(text@, part@, at as int),
{
    if at > text.len() || text.len() - at < part.len() {
        return false;
    }
    let mut k: usize = 0;
    while k < part.len()
        invariant
            k <= part.len(),
            at + part.len() <= text.len(),
            forall|j: int| 0 <= j < k ==> text@[at + j] == part@[j],
        decreases part.len() - k,
    {
        if text[at + k] != part[k] {
            proof {
                let found = text@.subrange(at as int, at + part.len());
                assert(found[k as int] == text@[at + k]);
            }
            return false;
        }
        k += 1;
    }
    proof {
        assert(text@.subrange(at as int, at + part.len()) =~= part@);
    }
    true
}

/// `line` with every occurrence of `from` replaced by `to`.
pub fn replace_all(line: &str, from: &str, to: &str) -> (out: String)
    ensures
        out@ == replaced(line@, from@, to@),
{
    let text = chars_of(line);
    let part = chars_of(from);
    let mut out = String::new();
    let mut i: usize = 0;
    proof {
        assert(text@.skip(0) == text@);
        assert(out@ + replaced(text@, from@, to@) == replaced(text@, from@, to@));
    }
    while i < text.len()
        invariant
            i <= text.len(),
            text@ == line@,
            part@ == from@,
            replaced(line@, from@, to@) == out@ + replaced(text@.skip(i as int), from@, to@),
        decreases text.len() - i,
    {
        let ghost rest = text@.skip(i as int);
        let ghost done = out@;
        if part.len() == 0 {
            out.append(to);
            out.push(text[i]);
            proof {
                assert(rest.take(1) == seq![text@[i as int]]);
                assert(rest.skip(1) == text@.skip(i + 1));
                assert(done + (to@ + rest.take(1) + replaced(rest.skip(1), from@, to@)) == (done
                    + to@).push(text@[i as int]) + replaced(rest.skip(1), from@, to@));
            }
            i += 1;
        } else if stands_at(&text, &part, i) {
            out.append(to);
            proof {
                assert(rest.subrange(0, part.len() as int) == text@.subrange(
                    i as int,
                    i + part.len(),
                ));
                assert(rest.skip(part.len() as int) == text@.skip(i + part.len()));
                assert(done + (to@ + replaced(rest.skip(part.len() as int), from@, to@)) == done
                    + to@ + replaced(rest.skip(part.len() as int), from@, to@));
            }
            i += part.len();
        } else {
            out.push(text[i]);
            proof {
                if part.len() <= rest.len() {
                    assert(rest.subrange(0, part.len() as int) == text@.subrange(
                        i as int,
                        i + part.len(),
                    ));
                }
                assert(rest.take(1) == seq![text@[i as int]]);
                assert(rest.skip(1) == text@.skip(i + 1));
                assert(done + (rest.take(1) + replaced(rest.skip(1), from@, to@)) == done.push(
                    text@[i as int],
                ) + replaced(rest.skip(1), from@, to@));
            }
            i += 1;
        }
    }
    if part.len() == 0 {
        out.append(to);
    }
    proof {
        assert(text@.skip(i as int).len() == 0);
        assert(out@ + Seq::<char>::empty() == out@);
    }
    out
}

} // verus!
