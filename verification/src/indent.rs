//! Lines of a text, and a text moved to the right by a margin.
//!
//! A text is cut into lines at its line breaks. A line break ends a line; the
//! text after the last line break is a line of its own unless it is empty.
//! Indenting puts a margin before every line and ends every line with a line
//! break.

use vstd::prelude::*;
use vstd::std_specs::iter::IteratorSpec;
use crate::sink::{delivered, lemma_prefix_extend, write_part, TextSink, WriteError};

verus! {

/// No line break occurs in `s`.
pub open spec fn unbroken(s: Seq<char>) -> bool {
    forall|i: int| 0 <= i < s.len() ==> s[i] != '\n'
}

/// Where the first line of `s` ends: the place of its first line break, or
/// its length where it has none.
pub open spec fn line_end(s: Seq<char>) -> int
    decreases s.len(),
{
    if s.len() == 0 || s[0] == '\n' {
        0
    } else {
        1 + line_end(s.skip(1))
    }
}

/// The lines of `s`, without their line breaks.
pub open spec fn lines(s: Seq<char>) -> Seq<Seq<char>>
    decreases s.len(),
{
    if s.len() == 0 {
        Seq::empty()
    } else if 0 <= line_end(s) < s.len() {
        seq![s.take(line_end(s))] + lines(s.skip(line_end(s) + 1))
    } else {
        seq![s]
    }
}

/// The text made of `lines`, each ended by a line break.
pub open spec fn unlines(lines: Seq<Seq<char>>) -> Seq<char>
    decreases lines.len(),
{
    if lines.len() == 0 {
        Seq::empty()
    } else {
        lines[0] + seq!['\n'] + unlines(lines.drop_first())
    }
}

/// `n` spaces.
pub open spec fn spaces(n: nat) -> Seq<char> {
    Seq::new(n, |i: int| ' ')
}

/// Each of `lines` with `margin` before it.
pub open spec fn with_margin(lines: Seq<Seq<char>>, margin: Seq<char>) -> Seq<Seq<char>> {
    Seq::new(lines.len(), |i: int| margin + lines[i])
}

/// `s` with `margin` before each of its lines, and every line ended by a
/// line break.
pub open spec fn indented(s: Seq<char>, margin: Seq<char>) -> Seq<char> {
    unlines(with_margin(lines(s), margin))
}

/// The number of line breaks in `s`.
pub open spec fn breaks(s: Seq<char>) -> nat
    decreases s.len(),
{
    if s.len() == 0 {
        0
    } else {
        breaks(s.drop_last()) + if s.last() == '\n' {
            1nat
        } else {
            0nat
        }
    }
}

/// Every one of `lines` is without a line break.
pub open spec fn all_unbroken(lines: Seq<Seq<char>>) -> bool {
    forall|i: int| 0 <= i < lines.len() ==> unbroken(#[trigger] lines[i])
}

/// The first line ends within the text, at its first line break.
pub proof fn lemma_line_end(s: Seq<char>)
    ensures
        0 <= line_end(s) <= s.len(),
        unbroken(s.take(line_end(s))),
        line_end(s) < s.len() ==> s[line_end(s)] == '\n',
    decreases s.len(),
{
    if s.len() == 0 || s[0] == '\n' {
    } else {
        let rest = s.skip(1);
        lemma_line_end(rest);
        let end = line_end(s);
        assert forall|i: int| 0 <= i < s.take(end).len() implies s.take(end)[i] != '\n' by {
            if i > 0 {
                assert(s.take(end)[i] == rest.take(end - 1)[i - 1]);
            }
        }
        if end < s.len() {
            assert(s[end] == rest[end - 1]);
        }
    }
}

/// A line without line break, a line break, and anything after it: the first
/// line ends where the line break stands.
pub proof fn lemma_line_end_at_break(line: Seq<char>, rest: Seq<char>)
    requires
        unbroken(line),
    ensures
        line_end(line + seq!['\n'] + rest) == line.len(),
    decreases line.len(),
{
    let s = line + seq!['\n'] + rest;
    if line.len() == 0 {
        assert(s[0] == '\n');
    } else {
        assert(s[0] == line[0]);
        assert(s.skip(1) =~= line.skip(1) + seq!['\n'] + rest);
        assert(unbroken(line.skip(1))) by {
            assert forall|i: int| 0 <= i < line.skip(1).len() implies line.skip(1)[i] != '\n' by {
                assert(line.skip(1)[i] == line[i + 1]);
            }
        }
        lemma_line_end_at_break(line.skip(1), rest);
    }
}

/// A text without line break is one line to its end.
pub proof fn lemma_line_end_unbroken(line: Seq<char>)
    requires
        unbroken(line),
    ensures
        line_end(line) == line.len(),
    decreases line.len(),
{
    if line.len() > 0 {
        assert(unbroken(line.skip(1))) by {
            assert forall|i: int| 0 <= i < line.skip(1).len() implies line.skip(1)[i] != '\n' by {
                assert(line.skip(1)[i] == line[i + 1]);
            }
        }
        lemma_line_end_unbroken(line.skip(1));
    }
}

/// The lines of a text that begins with a whole line are that line and the
/// lines of the rest.
pub proof fn lemma_lines_after_line(line: Seq<char>, rest: Seq<char>)
    requires
        unbroken(line),
    ensures
        lines(line + seq!['\n'] + rest) == seq![line] + lines(rest),
{
    let s = line + seq!['\n'] + rest;
    lemma_line_end_at_break(line, rest);
    assert(s.take(line.len() as int) =~= line);
    assert(s.skip(line.len() as int + 1) =~= rest);
}

/// No line of a text holds a line break.
pub proof fn lemma_lines_unbroken(s: Seq<char>)
    ensures
        all_unbroken(lines(s)),
    decreases s.len(),
{
    lemma_line_end(s);
    if s.len() == 0 {
    } else if line_end(s) < s.len() {
        let first = s.take(line_end(s));
        let rest = s.skip(line_end(s) + 1);
        lemma_lines_unbroken(rest);
        assert forall|i: int| 0 <= i < lines(s).len() implies unbroken(#[trigger] lines(s)[i]) by {
            if i > 0 {
                assert(lines(s)[i] == lines(rest)[i - 1]);
            }
        }
    } else {
        assert(s.take(line_end(s)) =~= s);
    }
}

/// Lines put together and cut again are the same lines, and what follows
/// them is cut as if it stood alone.
pub proof fn lemma_lines_of_unlines(ls: Seq<Seq<char>>, rest: Seq<char>)
    requires
        all_unbroken(ls),
    ensures
        lines(unlines(ls) + rest) == ls + lines(rest),
    decreases ls.len(),
{
    if ls.len() == 0 {
        assert(unlines(ls) + rest =~= rest);
        assert(ls + lines(rest) =~= lines(rest));
    } else {
        let tail = ls.drop_first();
        assert(all_unbroken(tail)) by {
            assert forall|i: int| 0 <= i < tail.len() implies unbroken(#[trigger] tail[i]) by {
                assert(tail[i] == ls[i + 1]);
            }
        }
        lemma_lines_of_unlines(tail, rest);
        assert(unlines(ls) + rest =~= ls[0] + seq!['\n'] + (unlines(tail) + rest));
        lemma_lines_after_line(ls[0], unlines(tail) + rest);
        assert(seq![ls[0]] + (tail + lines(rest)) =~= ls + lines(rest));
    }
}

/// One more line at the end of the lines is one more line at the end of the
/// text.
pub proof fn lemma_unlines_push(ls: Seq<Seq<char>>, line: Seq<char>)
    ensures
        unlines(ls.push(line)) == unlines(ls) + line + seq!['\n'],
    decreases ls.len(),
{
    if ls.len() == 0 {
        assert(ls.push(line).drop_first() =~= ls);
        assert(unlines(ls.push(line)) =~= unlines(ls) + line + seq!['\n']);
    } else {
        let tail = ls.drop_first();
        lemma_unlines_push(tail, line);
        assert(ls.push(line).drop_first() =~= tail.push(line));
        assert(unlines(ls.push(line)) =~= unlines(ls) + line + seq!['\n']);
    }
}

/// The text of some lines and then some more is the two texts one after the
/// other.
pub proof fn lemma_unlines_concat(first: Seq<Seq<char>>, second: Seq<Seq<char>>)
    ensures
        unlines(first + second) == unlines(first) + unlines(second),
    decreases first.len(),
{
    if first.len() == 0 {
        assert(first + second =~= second);
        assert(unlines(first) + unlines(second) =~= unlines(second));
    } else {
        lemma_unlines_concat(first.drop_first(), second);
        assert((first + second).drop_first() =~= first.drop_first() + second);
        assert(unlines(first + second) =~= unlines(first) + unlines(second));
    }
}

/// Indenting is done line by line: where a text begins with whole lines, its
/// indented form begins with these lines, indented.
pub proof fn lemma_indented_begins(ls: Seq<Seq<char>>, rest: Seq<char>, margin: Seq<char>)
    requires
        all_unbroken(ls),
    ensures
        indented(unlines(ls) + rest, margin) == unlines(with_margin(ls, margin)) + indented(
            rest,
            margin,
        ),
        unlines(with_margin(ls, margin)).is_prefix_of(indented(unlines(ls) + rest, margin)),
{
    lemma_lines_of_unlines(ls, rest);
    assert(with_margin(ls + lines(rest), margin) =~= with_margin(ls, margin) + with_margin(
        lines(rest),
        margin,
    ));
    lemma_unlines_concat(with_margin(ls, margin), with_margin(lines(rest), margin));
    let done = unlines(with_margin(ls, margin));
    assert(done.is_prefix_of(done)) by {
        assert(done =~= done.subrange(0, done.len() as int));
    }
    lemma_prefix_extend(done, done, indented(rest, margin));
}

/// The line breaks of two texts add up.
pub proof fn lemma_breaks_concat(a: Seq<char>, b: Seq<char>)
    ensures
        breaks(a + b) == breaks(a) + breaks(b),
    decreases b.len(),
{
    if b.len() == 0 {
        assert(a + b =~= a);
    } else {
        assert((a + b).drop_last() =~= a + b.drop_last());
        lemma_breaks_concat(a, b.drop_last());
    }
}

/// A text without line break has none to count.
pub proof fn lemma_breaks_unbroken(s: Seq<char>)
    requires
        unbroken(s),
    ensures
        breaks(s) == 0,
    decreases s.len(),
{
    if s.len() > 0 {
        assert(unbroken(s.drop_last())) by {
            assert forall|i: int| 0 <= i < s.drop_last().len() implies s.drop_last()[i]
                != '\n' by {
                assert(s.drop_last()[i] == s[i]);
            }
        }
        lemma_breaks_unbroken(s.drop_last());
    }
}

/// Two texts without line break make one.
pub proof fn lemma_unbroken_concat(a: Seq<char>, b: Seq<char>)
    requires
        unbroken(a),
        unbroken(b),
    ensures
        unbroken(a + b),
{
    assert forall|i: int| 0 <= i < (a + b).len() implies (a + b)[i] != '\n' by {
        if i < a.len() {
            assert((a + b)[i] == a[i]);
        } else {
            assert((a + b)[i] == b[i - a.len()]);
        }
    }
}

/// A text has one line for each of its line breaks, and one more for what
/// follows the last of them, if anything does.
pub proof fn lemma_lines_count(s: Seq<char>)
    ensures
        lines(s).len() == breaks(s) + if s.len() == 0 || s.last() == '\n' {
            0nat
        } else {
            1nat
        },
    decreases s.len(),
{
    lemma_line_end(s);
    if s.len() == 0 {
    } else if line_end(s) < s.len() {
        let end = line_end(s);
        let first = s.take(end);
        let rest = s.skip(end + 1);
        lemma_lines_count(rest);
        assert(s =~= first + seq!['\n'] + rest);
        lemma_breaks_unbroken(first);
        lemma_breaks_concat(first, seq!['\n']);
        lemma_breaks_concat(first + seq!['\n'], rest);
        assert(breaks(seq!['\n']) == 1) by {
            assert(seq!['\n'].drop_last() =~= Seq::<char>::empty());
            assert(breaks(seq!['\n'].drop_last()) == 0);
        }
        if rest.len() > 0 {
            assert(rest.last() == s.last());
        }
    } else {
        assert(s.take(line_end(s)) =~= s);
        lemma_breaks_unbroken(s);
    }
}

/// A margin of spaces holds no line break.
pub proof fn lemma_spaces_unbroken(n: nat)
    ensures
        unbroken(spaces(n)),
        spaces(n).len() == n,
{
}

/// Indenting puts the margin before every line and changes nothing else: the
/// lines of the indented text are the lines of the text, each after the
/// margin, and there are as many of them.
pub proof fn lemma_indent_keeps_lines(s: Seq<char>, margin: Seq<char>)
    requires
        unbroken(margin),
    ensures
        lines(indented(s, margin)) == with_margin(lines(s), margin),
        lines(indented(s, margin)).len() == lines(s).len(),
{
    let moved = with_margin(lines(s), margin);
    lemma_lines_unbroken(s);
    assert forall|i: int| 0 <= i < moved.len() implies unbroken(#[trigger] moved[i]) by {
        let line = lines(s)[i];
        assert(unbroken(line));
        assert forall|j: int| 0 <= j < (margin + line).len() implies (margin + line)[j]
            != '\n' by {
            if j < margin.len() {
                assert((margin + line)[j] == margin[j]);
            } else {
                assert((margin + line)[j] == line[j - margin.len()]);
            }
        }
    }
    lemma_lines_of_unlines(moved, Seq::empty());
    assert(unlines(moved) + Seq::<char>::empty() =~= unlines(moved));
    assert(moved + lines(Seq::<char>::empty()) =~= moved);
}

/// The lines of a text put together again are the text, with a line break
/// at its end if it had none.
pub proof fn lemma_unlines_of_lines(s: Seq<char>)
    ensures
        unlines(lines(s)) == if s.len() == 0 || s.last() == '\n' {
            s
        } else {
            s + seq!['\n']
        },
    decreases s.len(),
{
    lemma_line_end(s);
    if s.len() == 0 {
    } else if line_end(s) < s.len() {
        let end = line_end(s);
        let first = s.take(end);
        let rest = s.skip(end + 1);
        lemma_unlines_of_lines(rest);
        assert(lines(s).drop_first() =~= lines(rest));
        assert(lines(s)[0] == first);
        if rest.len() > 0 {
            assert(rest.last() == s.last());
        }
        assert(s =~= first + seq!['\n'] + rest);
        assert(first + seq!['\n'] + (rest + seq!['\n']) =~= s + seq!['\n']);
    } else {
        assert(s.take(line_end(s)) =~= s);
        assert(lines(s).drop_first() =~= Seq::<Seq<char>>::empty());
        assert(unlines(lines(s).drop_first()) =~= Seq::<char>::empty());
        assert(lines(s)[0] == s);
        assert(unlines(lines(s)) =~= s + seq!['\n']);
    }
}

/// With an empty margin a text is left as it is, but for the line break that
/// its last line gets if it had none.
pub proof fn lemma_indent_by_nothing(s: Seq<char>)
    ensures
        indented(s, spaces(0)) == if s.len() == 0 || s.last() == '\n' {
            s
        } else {
            s + seq!['\n']
        },
{
    assert(with_margin(lines(s), spaces(0)) =~= lines(s)) by {
        assert forall|i: int| 0 <= i < lines(s).len() implies with_margin(lines(s), spaces(0))[i]
            == lines(s)[i] by {
            assert(spaces(0) + lines(s)[i] =~= lines(s)[i]);
        }
    }
    lemma_unlines_of_lines(s);
}

/// A string of `n` spaces.
pub fn spaces_string(n: usize) -> (r: String)
    ensures
        r@ == spaces(n as nat),
{
    proof {
        reveal_strlit(" ");
    }
    let mut out = String::new();
    let mut i: usize = 0;
    while i < n
        invariant
            i <= n,
            out@ == spaces(i as nat),
            " "@ == seq![' '],
        decreases n - i,
    {
        out.append(" ");
        i += 1;
        assert(out@ =~= spaces(i as nat));
    }
    out
}

/// `String::push`: the string is what it was, with `ch` put at its end.
pub assume_specification[ String::push ](s: &mut String, ch: char)
    ensures
        final(s)@ == old(s)@.push(ch),
;

/// Writes `line` to `f` with `margin` before it and a line break after it,
/// as the part of `plan` that follows `done`.
fn write_line<S: TextSink>(
    f: &mut S,
    margin: &str,
    line: &str,
    Ghost(start): Ghost<S>,
    Ghost(done): Ghost<Seq<char>>,
    Ghost(plan): Ghost<Seq<char>>,
) -> (r: Result<(), WriteError>)
    requires
        old(f).text() == start.text() + done,
        start.reliable() ==> old(f).reliable(),
        (done + (margin@ + line@ + seq!['\n'])).is_prefix_of(plan),
    ensures
        r is Ok ==> final(f).text() == start.text() + (done + (margin@ + line@ + seq!['\n'])),
        r is Ok ==> (start.reliable() ==> final(f).reliable()),
        r is Err ==> delivered(start, *final(f), plan, false),
{
    proof {
        reveal_strlit("\n");
    }
    let mut piece = String::from_str(margin);
    piece.append(line);
    piece.append("\n");
    write_part(f, piece.as_str(), Ghost(start), Ghost(done), Ghost(plan))
}

/// Writes `text` to `f` with `margin` before each of its lines.
pub fn write_indented<S: TextSink>(f: &mut S, text: &str, margin: &str) -> (r: Result<
    (),
    WriteError,
>)
    ensures
        delivered(*old(f), *final(f), indented(text@, margin@), r is Ok),
{
    let ghost start = *f;
    let ghost plan = indented(text@, margin@);
    let ghost mut whole: Seq<Seq<char>> = Seq::empty();
    let ghost mut from: int = 0;
    let mut line = String::new();
    let chars = text.chars();
    proof {
        broadcast use vstd::string::group_string_axioms;

        assert(chars.remaining() == text@);
        assert(text@.take(0) =~= unlines(whole));
        assert(line@ =~= text@.subrange(0, 0));
        assert(f.text() =~= start.text() + unlines(with_margin(whole, margin@)));
    }
    for c in it: chars
        invariant
            it.seq() == text@,
            start == *old(f),
            plan == indented(text@, margin@),
            0 <= from <= it.index() <= text@.len(),
            all_unbroken(whole),
            text@.take(from) == unlines(whole),
            line@ == text@.subrange(from, it.index()),
            unbroken(line@),
            f.text() == start.text() + unlines(with_margin(whole, margin@)),
            start.reliable() ==> f.reliable(),
    {
        let ghost at = it.index();
        if c == '\n' {
            let ghost done = unlines(with_margin(whole, margin@));
            proof {
                let more = whole.push(line@);
                lemma_unlines_push(whole, line@);
                assert(text@.take(at + 1) =~= text@.take(from) + line@ + seq!['\n']);
                assert(text@ =~= unlines(more) + text@.skip(at + 1));
                lemma_indented_begins(more, text@.skip(at + 1), margin@);
                assert(with_margin(more, margin@) =~= with_margin(whole, margin@).push(
                    margin@ + line@,
                ));
                lemma_unlines_push(with_margin(whole, margin@), margin@ + line@);
                assert(done + (margin@ + line@ + seq!['\n']) =~= unlines(
                    with_margin(more, margin@),
                ));
            }
            write_line(f, margin, line.as_str(), Ghost(start), Ghost(done), Ghost(plan))?;
            proof {
                whole = whole.push(line@);
                from = at + 1;
            }
            line = String::new();
            proof {
                assert(line@ =~= text@.subrange(from, at + 1));
            }
        } else {
            line.push(c);
            proof {
                assert(line@ =~= text@.subrange(from, at + 1));
            }
        }
    }
    let ghost done = unlines(with_margin(whole, margin@));
    if !line.as_str().is_empty() {
        proof {
            let more = whole.push(line@);
            lemma_unlines_push(whole, line@);
            assert(text@ =~= unlines(whole) + line@);
            lemma_lines_of_unlines(whole, line@);
            lemma_line_end_unbroken(line@);
            assert(lines(line@) =~= seq![line@]);
            assert(lines(text@) =~= more);
            assert(with_margin(more, margin@) =~= with_margin(whole, margin@).push(
                margin@ + line@,
            ));
            lemma_unlines_push(with_margin(whole, margin@), margin@ + line@);
            assert(done + (margin@ + line@ + seq!['\n']) =~= plan);
            assert(plan.is_prefix_of(plan)) by {
                assert(plan =~= plan.subrange(0, plan.len() as int));
            }
        }
        write_line(f, margin, line.as_str(), Ghost(start), Ghost(done), Ghost(plan))?;
    } else {
        proof {
            assert(text@ =~= unlines(whole) + line@);
            lemma_lines_of_unlines(whole, line@);
            assert(lines(text@) =~= whole);
        }
    }
    Ok(())
}

} // verus!
