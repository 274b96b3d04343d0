//! Where rendered text goes.
//!
//! A [`TextSink`] takes text piece by piece and may refuse a piece. What it
//! has taken so far is a sequence of characters; a write that succeeds
//! appends the whole piece, and one that fails leaves the sink with at most a
//! part of it.
//!
//! A string is a sink that takes everything. Any other destination is a
//! [`Writer`], of which nothing is known but the answer that it gives to each
//! piece; [`Recorded`] makes a sink of it by keeping the record of the pieces
//! that were handed to it and of those that it took.

use vstd::prelude::*;

verus! {

/// The one error of this library: a sink did not take what was written to it.
#[derive(Debug, Copy, Clone, PartialEq, Eq, Structural)]
pub struct WriteError;

/// A destination for text.
pub trait TextSink {
    /// Everything the sink has taken so far.
    spec fn text(&self) -> Seq<char>;

    /// A reliable sink takes every piece, now and after any number of writes.
    spec fn reliable(&self) -> bool;

    /// Appends `s` to the sink.
    fn write_str(&mut self, s: &str) -> (r: Result<(), WriteError>)
        ensures
            r is Ok ==> final(self).text() == old(self).text() + s@,
            r is Err ==> interrupted(old(self).text(), final(self).text(), s@),
            old(self).reliable() ==> r is Ok && final(self).reliable(),
    ;
}

/// A write of `planned` that began at `before` and failed on the way left
/// `after`: what was there, then some of what was planned, in order.
pub open spec fn interrupted(before: Seq<char>, after: Seq<char>, planned: Seq<char>) -> bool {
    &&& before.is_prefix_of(after)
    &&& after.is_prefix_of(before + planned)
}

/// How a sink stands after `planned` was written to it, piece by piece.
///
/// On success the sink holds all of it. A failure happens only on a piece
/// that was really written, so only if there was something to write, and it
/// leaves a part of `planned`. A reliable sink never fails.
pub open spec fn delivered<S: TextSink>(before: S, after: S, planned: Seq<char>, ok: bool) -> bool {
    &&& ok ==> after.text() == before.text() + planned
    &&& !ok ==> planned.len() > 0 && interrupted(before.text(), after.text(), planned)
    &&& before.reliable() ==> ok && after.reliable()
}

/// A string takes everything.
impl TextSink for String {
    open spec fn text(&self) -> Seq<char> {
        self@
    }

    open spec fn reliable(&self) -> bool {
        true
    }

    fn write_str(&mut self, s: &str) -> (r: Result<(), WriteError>) {
        self.append(s);
        Ok(())
    }
}

/// A destination outside of this library: it is handed a piece and says
/// whether it took it.
pub trait Writer {
    /// Hands `s` to the destination.
    fn write_str(&mut self, s: &str) -> Result<(), WriteError>;
}

/// A writer as a sink: the writer, and the record of the pieces that were
/// handed to it and of those that it took.
pub struct Recorded<W: Writer> {
    writer: W,
    handed: Ghost<Seq<Seq<char>>>,
    taken: Ghost<Seq<char>>,
}

impl<W: Writer> Recorded<W> {
    /// The writer as it stands.
    pub closed spec fn writer(&self) -> W {
        self.writer
    }

    /// The pieces that were handed to the writer, in order, whether it took
    /// them or not.
    pub closed spec fn handed(&self) -> Seq<Seq<char>> {
        self.handed@
    }

    /// A sink for `writer`, to which nothing was handed yet.
    pub fn new(writer: W) -> (r: Self)
        ensures
            r.writer() == writer,
            r.handed() == Seq::<Seq<char>>::empty(),
            r.text() == Seq::<char>::empty(),
    {
        Recorded { writer, handed: Ghost(Seq::empty()), taken: Ghost(Seq::empty()) }
    }

    /// The writer.
    pub fn into_inner(self) -> (r: W)
        ensures
            r == self.writer(),
    {
        self.writer
    }
}

/// The text of the sink is the pieces that the writer took, in order. A piece
/// that the writer refused is not part of it.
impl<W: Writer> TextSink for Recorded<W> {
    closed spec fn text(&self) -> Seq<char> {
        self.taken@
    }

    open spec fn reliable(&self) -> bool {
        false
    }

    /// Hands `s` to the writer, once, and gives the writer's answer: the
    /// piece is part of the text if the writer took it, and the text is as it
    /// was if the writer refused it.
    fn write_str(&mut self, s: &str) -> (r: Result<(), WriteError>)
        ensures
            final(self).handed() == old(self).handed().push(s@),
            r is Err ==> final(self).text() == old(self).text(),
    {
        let ghost before = self.taken@;
        let r = self.writer.write_str(s);
        proof {
            self.handed@ = self.handed@.push(s@);
            if r is Ok {
                self.taken@ = before + s@;
            } else {
                assert(before.is_prefix_of(before)) by {
                    assert(before =~= before.subrange(0, before.len() as int));
                }
                lemma_prefix_extend(before, before, s@);
            }
        }
        r
    }
}

/// What begins a text begins every continuation of it.
pub proof fn lemma_prefix_extend(a: Seq<char>, b: Seq<char>, c: Seq<char>)
    requires
        a.is_prefix_of(b),
    ensures
        a.is_prefix_of(b + c),
{
    assert(a =~= (b + c).subrange(0, a.len() as int));
}

/// Beginning is kept when the same text is put in front.
pub proof fn lemma_prefix_after(a: Seq<char>, b: Seq<char>, c: Seq<char>)
    requires
        b.is_prefix_of(c),
    ensures
        (a + b).is_prefix_of(a + c),
{
    assert((a + b) =~= (a + c).subrange(0, (a + b).len() as int));
}

/// Beginning is transitive.
pub proof fn lemma_prefix_chain(a: Seq<char>, b: Seq<char>, c: Seq<char>)
    requires
        a.is_prefix_of(b),
        b.is_prefix_of(c),
    ensures
        a.is_prefix_of(c),
{
    assert(a =~= c.subrange(0, a.len() as int));
}

/// A failure in the middle of a plan is a failure of the plan: if `done` was
/// written, and the write of `piece` after it was interrupted, then the
/// write of anything that begins with `done + piece` was interrupted.
pub proof fn lemma_interrupted_within(
    start: Seq<char>,
    done: Seq<char>,
    piece: Seq<char>,
    after: Seq<char>,
    plan: Seq<char>,
)
    requires
        interrupted(start + done, after, piece),
        (done + piece).is_prefix_of(plan),
    ensures
        interrupted(start, after, plan),
{
    assert(start.is_prefix_of(start + done)) by {
        assert(start =~= (start + done).subrange(0, start.len() as int));
    }
    lemma_prefix_chain(start, start + done, after);
    lemma_prefix_after(start, done + piece, plan);
    assert(start + done + piece =~= start + (done + piece));
    lemma_prefix_chain(after, start + done + piece, start + plan);
}

/// Writes `piece` to `f`, as the part of `plan` that follows `done`.
pub(crate) fn write_part<S: TextSink>(
    f: &mut S,
    piece: &str,
    Ghost(start): Ghost<S>,
    Ghost(done): Ghost<Seq<char>>,
    Ghost(plan): Ghost<Seq<char>>,
) -> (r: Result<(), WriteError>)
    requires
        old(f).text() == start.text() + done,
        start.reliable() ==> old(f).reliable(),
        (done + piece@).is_prefix_of(plan),
        piece@.len() > 0,
    ensures
        r is Ok ==> final(f).text() == start.text() + (done + piece@),
        r is Ok ==> (start.reliable() ==> final(f).reliable()),
        r is Err ==> delivered(start, *final(f), plan, false),
{
    let r = f.write_str(piece);
    proof {
        if r is Err {
            lemma_interrupted_within(start.text(), done, piece@, f.text(), plan);
        } else {
            assert(start.text() + done + piece@ =~= start.text() + (done + piece@));
        }
    }
    r
}

} // verus!
