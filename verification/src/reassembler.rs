//! Reassembly of text lines from a stream of byte chunks.
//!
//! A chunk boundary may fall anywhere: inside a line, inside a multi-byte
//! character, or right before a terminator. The reassembler holds back the
//! bytes that follow the last terminator and completes them with the next
//! chunk.

use vstd::prelude::*;
use vstd::utf8::*;
use crate::text::decode_text;

verus! {

/// The byte that terminates a line.
pub const LINE_FEED: u8 = 0x0a;

/// The bytes of `stream` that follow its last terminator: the unterminated
/// fragment that is held back.
pub open spec fn pending(stream: Seq<u8>) -> Seq<u8>
    decreases stream.len(),
{
    if stream.len() == 0 {
        stream
    } else if stream.last() == LINE_FEED {
        Seq::empty()
    } else {
        pending(stream.drop_last()).push(stream.last())
    }
}

/// What a terminated span contributes: its text if it is well-formed UTF-8,
/// nothing otherwise.
pub open spec fn span_text(span: Seq<u8>) -> Seq<Seq<char>> {
    if valid_utf8(span) {
        seq![decode_utf8(span)]
    } else {
        Seq::empty()
    }
}

/// The completed lines of `stream`, in stream order. Each terminator closes
/// the span that started after the previous one; spans that are not text are
/// dropped.
pub open spec fn lines_of(stream: Seq<u8>) -> Seq<Seq<char>>
    decreases stream.len(),
{
    if stream.len() == 0 {
        Seq::empty()
    } else if stream.last() == LINE_FEED {
        lines_of(stream.drop_last()) + span_text(pending(stream.drop_last()))
    } else {
        lines_of(stream.drop_last())
    }
}

/// Buffer that turns byte chunks into complete lines.
pub struct LineReassembler {
    held: Vec<u8>,
}

impl View for LineReassembler {
    type V = Seq<u8>;

    closed spec fn view(&self) -> Seq<u8> {
        self.held@
    }
}

impl LineReassembler {
    /// The held bytes never include a terminator: a terminator completes a
    /// line as soon as it is fed.
    pub closed spec fn well_formed(&self) -> bool {
        !self.held@.contains(LINE_FEED)
    }

    /// An empty reassembler.
    pub fn new() -> (r: LineReassembler)
        ensures
            r.well_formed(),
            r@ == Seq::<u8>::empty(),
    {
        LineReassembler { held: Vec::new() }
    }

    /// Takes the next chunk and returns the lines it completes.
    pub fn feed(&mut self, bytes: &[u8]) -> (lines: Vec<String>)
        requires
            old(self).well_formed(),
        ensures
            final(self).well_formed(),
            lines.deep_view() == lines_of(old(self)@ + bytes@),
            final(self)@ == pending(old(self)@ + bytes@),
    {
        proof {
            lemma_unterminated(self.held@);
        }
        let ghost before = self.held@;
        let mut lines: Vec<String> = Vec::new();
        let mut i: usize = 0;
        assert(before + bytes@.subrange(0, 0) =~= before);
        while i < bytes.len()
            invariant
                i <= bytes.len(),
                self.held@ == pending(before + bytes@.subrange(0, i as int)),
                lines.deep_view() == lines_of(before + bytes@.subrange(0, i as int)),
                !self.held@.contains(LINE_FEED),
            decreases bytes.len() - i,
        {
            let b = bytes[i];
            let ghost seen = before + bytes@.subrange(0, i as int);
            assert(before + bytes@.subrange(0, i + 1) =~= seen.push(b));
            assert(seen.push(b).drop_last() =~= seen);
            if b == LINE_FEED {
                let mut span: Vec<u8> = Vec::new();
                core::mem::swap(&mut span, &mut self.held);
                let ghost shown = lines.deep_view();
                match decode_text(span) {
                    Ok(line) => {
                        lines.push(line);
                        assert(lines.deep_view() =~= shown + seq![line@]);
                    },
                    Err(_) => {
                        assert(shown + Seq::<Seq<char>>::empty() =~= shown);
                    },
                }
            } else {
                self.held.push(b);
            }
            i += 1;
        }
        assert(bytes@.subrange(0, bytes@.len() as int) =~= bytes@);
        lines
    }

    /// The bytes held back since the last terminator.
    pub fn remainder(&self) -> (r: &[u8])
        requires
            self.well_formed(),
        ensures
            r@ == self@,
            !r@.contains(LINE_FEED),
    {
        self.held.as_slice()
    }
}

/// A stream without a terminator completes no line and is held back whole.
pub proof fn lemma_unterminated(stream: Seq<u8>)
    requires
        !stream.contains(LINE_FEED),
    ensures
        pending(stream) == stream,
        lines_of(stream) == Seq::<Seq<char>>::empty(),
    decreases stream.len(),
{
    if stream.len() > 0 {
        assert(stream.last() == stream[stream.len() - 1]);
        assert forall|b: u8| stream.drop_last().contains(b) implies stream.contains(b) by {
            let i = choose|i: int| 0 <= i < stream.drop_last().len() && stream.drop_last()[i] == b;
            assert(stream[i] == b);
        }
        lemma_unterminated(stream.drop_last());
        assert(stream.drop_last().push(stream.last()) =~= stream);
    }
}

/// The held-back fragment is the longest suffix of the stream that holds no
/// terminator: it is terminator-free, it ends the stream, and the byte before
/// it, if any, is a terminator.
pub proof fn lemma_pending_is_last_fragment(stream: Seq<u8>)
    ensures
        !pending(stream).contains(LINE_FEED),
        pending(stream).len() <= stream.len(),
        pending(stream) == stream.subrange(stream.len() - pending(stream).len(), stream.len() as int),
        pending(stream).len() < stream.len() ==> stream[stream.len() - pending(stream).len() - 1]
            == LINE_FEED,
    decreases stream.len(),
{
    if stream.len() == 0 {
        assert(stream.subrange(0, 0) =~= stream);
    } else if stream.last() == LINE_FEED {
        assert(stream.subrange(stream.len() as int, stream.len() as int) =~= Seq::<u8>::empty());
    } else {
        let front = stream.drop_last();
        lemma_pending_is_last_fragment(front);
        let kept = pending(front);
        let start = front.len() - kept.len();
        assert(kept.push(stream.last()) =~= stream.subrange(start, stream.len() as int)) by {
            assert(kept == front.subrange(start, front.len() as int));
        }
        assert forall|i: int| 0 <= i < kept.len() + 1 implies kept.push(stream.last())[i]
            != LINE_FEED by {
            if i < kept.len() {
                assert(kept.contains(kept[i]));
            }
        }
        if kept.len() < front.len() {
            assert(stream[start - 1] == front[start - 1]);
        }
    }
}

/// Feeding `first` and then `second` completes the same lines, in the same
/// order, as feeding their concatenation at once, and holds back the same
/// fragment.
pub proof fn lemma_split_invariance(first: Seq<u8>, second: Seq<u8>)
    ensures
        lines_of(first + second) == lines_of(first) + lines_of(pending(first) + second),
        pending(first + second) == pending(pending(first) + second),
    decreases second.len(),
{
    let kept = pending(first);
    if second.len() == 0 {
        lemma_pending_is_last_fragment(first);
        lemma_unterminated(kept);
        assert(first + second =~= first);
        assert(kept + second =~= kept);
        assert(lines_of(first) + Seq::<Seq<char>>::empty() =~= lines_of(first));
    } else {
        let front = second.drop_last();
        lemma_split_invariance(first, front);
        assert((first + second).drop_last() =~= first + front);
        assert((kept + second).drop_last() =~= kept + front);
        assert((first + second).last() == second.last());
        assert((kept + second).last() == second.last());
        if second.last() == LINE_FEED {
            let closed = span_text(pending(kept + front));
            assert((lines_of(first) + lines_of(kept + front)) + closed =~= lines_of(first) + (
            lines_of(kept + front) + closed));
        }
    }
}

/// The chunks joined end to end.
pub open spec fn joined(chunks: Seq<Seq<u8>>) -> Seq<u8>
    decreases chunks.len(),
{
    if chunks.len() == 0 {
        Seq::empty()
    } else {
        joined(chunks.drop_last()) + chunks.last()
    }
}

/// The result of feeding `chunks` one after the other to a reassembler that
/// holds `held`: all lines returned, in order, and the bytes held at the end.
pub open spec fn fed_in_turn(held: Seq<u8>, chunks: Seq<Seq<u8>>) -> (Seq<Seq<char>>, Seq<u8>)
    decreases chunks.len(),
{
    if chunks.len() == 0 {
        (Seq::empty(), held)
    } else {
        let (lines, kept) = fed_in_turn(held, chunks.drop_last());
        (lines + lines_of(kept + chunks.last()), pending(kept + chunks.last()))
    }
}

/// Split invariance: however a byte stream is cut into chunks, feeding the
/// chunks in turn returns the lines that one feed of the whole stream
/// returns, and ends holding the same unterminated fragment.
pub proof fn lemma_chunking_is_irrelevant(held: Seq<u8>, chunks: Seq<Seq<u8>>)
    requires
        !held.contains(LINE_FEED),
    ensures
        fed_in_turn(held, chunks) == (
            lines_of(held + joined(chunks)),
            pending(held + joined(chunks)),
        ),
    decreases chunks.len(),
{
    if chunks.len() == 0 {
        lemma_unterminated(held);
        assert(held + joined(chunks) =~= held);
    } else {
        let front = chunks.drop_last();
        lemma_chunking_is_irrelevant(held, front);
        let whole = held + joined(front);
        lemma_split_invariance(whole, chunks.last());
        assert(held + joined(chunks) =~= whole + chunks.last());
    }
}

} // verus!
