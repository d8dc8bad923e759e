//! The lines of a complete text.
//!
//! A line ends at a line feed, or at a carriage return directly followed by
//! one. The terminator is not part of the line. A last line without a
//! terminator counts if it is not empty, so a text that ends in a
//! terminator has the same lines as the text without it.

use vstd::prelude::*;
use vstd::utf8::*;
use crate::reassembler::{lemma_pending_is_last_fragment, pending, LINE_FEED};

verus! {

/// The carriage return that may precede a line feed.
pub const CARRIAGE_RETURN: u8 = 0x0d;

/// A terminated span without the carriage return that ends it, if one does.
pub open spec fn without_return(span: Seq<u8>) -> Seq<u8> {
    if span.len() > 0 && span.last() == CARRIAGE_RETURN {
        span.drop_last()
    } else {
        span
    }
}

/// The terminated lines of a text, without their terminators.
pub open spec fn terminated_lines(stream: Seq<u8>) -> Seq<Seq<u8>>
    decreases stream.len(),
{
    if stream.len() == 0 {
        Seq::empty()
    } else if stream.last() == LINE_FEED {
        terminated_lines(stream.drop_last()).push(without_return(pending(stream.drop_last())))
    } else {
        terminated_lines(stream.drop_last())
    }
}

/// The lines of a text, as bytes.
pub open spec fn text_lines(stream: Seq<u8>) -> Seq<Seq<u8>> {
    if pending(stream).len() > 0 {
        terminated_lines(stream).push(pending(stream))
    } else {
        terminated_lines(stream)
    }
}

/// The number of lines of a text.
pub open spec fn line_count(stream: Seq<u8>) -> nat {
    text_lines(stream).len()
}

/// The contents of a vector of byte vectors.
pub open spec fn contents(lines: Seq<Vec<u8>>) -> Seq<Seq<u8>> {
    Seq::new(lines.len(), |i: int| lines[i]@)
}

/// Splits a text into its lines.
pub fn split_lines(bytes: &[u8]) -> (lines: Vec<Vec<u8>>)
    ensures
        contents(lines@) == text_lines(bytes@),
{
    let mut lines: Vec<Vec<u8>> = Vec::new();
    let mut line: Vec<u8> = Vec::new();
    let mut i: usize = 0;
    assert(bytes@.subrange(0, 0) =~= Seq::<u8>::empty());
    assert(contents(lines@) =~= Seq::<Seq<u8>>::empty());
    while i < bytes.len()
        invariant
            i <= bytes.len(),
            line@ == pending(bytes@.subrange(0, i as int)),
            contents(lines@) == terminated_lines(bytes@.subrange(0, i as int)),
        decreases bytes.len() - i,
    {
        let b = bytes[i];
        let ghost seen = bytes@.subrange(0, i as int);
        assert(bytes@.subrange(0, i + 1).drop_last() =~= seen);
        assert(bytes@.subrange(0, i + 1).last() == b);
        if b == LINE_FEED {
            let mut span: Vec<u8> = Vec::new();
            core::mem::swap(&mut span, &mut line);
            if span.len() > 0 && span[span.len() - 1] == CARRIAGE_RETURN {
                span.pop();
                assert(span@ =~= without_return(pending(seen)));
            }
            let ghost before = contents(lines@);
            lines.push(span);
            assert(contents(lines@) =~= before.push(span@));
        } else {
            line.push(b);
        }
        i += 1;
    }
    assert(bytes@.subrange(0, bytes@.len() as int) =~= bytes@);
    if line.len() > 0 {
        let ghost before = contents(lines@);
        lines.push(line);
        assert(contents(lines@) =~= before.push(line@));
    }
    lines
}

/// Counts the lines of a text.
pub fn count_lines(bytes: &[u8]) -> (count: usize)
    ensures
        count == line_count(bytes@),
{
    let mut count: usize = 0;
    let mut open: bool = false;
    let mut i: usize = 0;
    assert(bytes@.subrange(0, 0) =~= Seq::<u8>::empty());
    while i < bytes.len()
        invariant
            i <= bytes.len(),
            count == terminated_lines(bytes@.subrange(0, i as int)).len(),
            open == (pending(bytes@.subrange(0, i as int)).len() > 0),
            open ==> count < i,
            count <= i,
        decreases bytes.len() - i,
    {
        let ghost seen = bytes@.subrange(0, i as int);
        assert(bytes@.subrange(0, i + 1).drop_last() =~= seen);
        assert(bytes@.subrange(0, i + 1).last() == bytes@[i as int]);
        if bytes[i] == LINE_FEED {
            count += 1;
            open = false;
        } else {
            open = true;
        }
        i += 1;
    }
    assert(bytes@.subrange(0, bytes@.len() as int) =~= bytes@);
    if open {
        count + 1
    } else {
        count
    }
}

/// Cutting well-formed UTF-8 at a byte of a one-byte character leaves
/// well-formed UTF-8 on both sides.
pub proof fn lemma_cut_at_ascii(text: Seq<u8>, at: int)
    requires
        valid_utf8(text),
        0 <= at < text.len(),
        text[at] < 0x80,
    ensures
        valid_utf8(text.subrange(0, at)),
        valid_utf8(text.subrange(at + 1, text.len() as int)),
{
    is_char_boundary_iff_not_is_continuation_byte(text, at);
    valid_utf8_split(text, at);
    let tail = text.subrange(at, text.len() as int);
    assert(tail[0] == text[at]);
    assert(is_leading_byte_width_1(tail[0]));
    assert(length_of_first_scalar(tail) == 1);
    assert(valid_utf8(pop_first_scalar(tail)));
    assert(pop_first_scalar(tail) =~= text.subrange(at + 1, text.len() as int));
}

/// Every terminated line is the fragment that was pending right before a
/// line feed, without its carriage return.
pub proof fn lemma_terminated_lines_end_at_feeds(stream: Seq<u8>, index: int)
    requires
        0 <= index < terminated_lines(stream).len(),
    ensures
        exists|at: int|
            0 <= at < stream.len() && stream[at] == LINE_FEED && terminated_lines(stream)[index]
                == without_return(pending(#[trigger] stream.subrange(0, at))),
    decreases stream.len(),
{
    let front = stream.drop_last();
    if stream.last() == LINE_FEED && index == terminated_lines(front).len() {
        let at = stream.len() - 1;
        assert(stream.subrange(0, at) =~= front);
    } else {
        lemma_terminated_lines_end_at_feeds(front, index);
        let at = choose|at: int|
            0 <= at < front.len() && front[at] == LINE_FEED && terminated_lines(front)[index]
                == without_return(pending(#[trigger] front.subrange(0, at)));
        assert(stream.subrange(0, at) =~= front.subrange(0, at));
        assert(stream[at] == front[at]);
    }
}

/// The fragment pending at the end of well-formed UTF-8 is well-formed.
pub proof fn lemma_pending_of_text_is_text(text: Seq<u8>)
    requires
        valid_utf8(text),
    ensures
        valid_utf8(pending(text)),
{
    lemma_pending_is_last_fragment(text);
    let start = text.len() - pending(text).len();
    if start == 0 {
        assert(text.subrange(0, text.len() as int) =~= text);
    } else {
        lemma_cut_at_ascii(text, start - 1);
    }
}

/// The lines of well-formed UTF-8 are well-formed UTF-8: a line feed or a
/// carriage return is never part of a longer character.
pub proof fn lemma_lines_of_text_are_text(text: Seq<u8>)
    requires
        valid_utf8(text),
    ensures
        forall|i: int| 0 <= i < text_lines(text).len() ==> valid_utf8(#[trigger] text_lines(text)[i]),
{
    lemma_pending_of_text_is_text(text);
    assert forall|i: int| 0 <= i < terminated_lines(text).len() implies valid_utf8(
        #[trigger] terminated_lines(text)[i],
    ) by {
        lemma_terminated_lines_end_at_feeds(text, i);
        let at = choose|at: int|
            0 <= at < text.len() && text[at] == LINE_FEED && terminated_lines(text)[i]
                == without_return(pending(#[trigger] text.subrange(0, at)));
        lemma_cut_at_ascii(text, at);
        let span = pending(text.subrange(0, at));
        lemma_pending_of_text_is_text(text.subrange(0, at));
        if span.len() > 0 && span.last() == CARRIAGE_RETURN {
            lemma_cut_at_ascii(span, span.len() - 1);
            assert(span.subrange(0, span.len() - 1) =~= span.drop_last());
        }
    }
}

} // verus!
