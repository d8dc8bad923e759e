//! The content of a local file, line by line.
//!
//! The caller reads the file; this module turns its bytes into the text
//! that is shown: the first lines up to an optional limit, each ended by a
//! line feed.

use vstd::prelude::*;
use vstd::string::*;
use vstd::utf8::*;
use crate::failure::{ErrorKind, Failure, FailureView};
use crate::lines::{contents, split_lines, text_lines};
use crate::reader::{FileContent, FileContentView};
use crate::text::decode_text;

verus! {

/// The message when a line is not text.
pub open spec fn malformed_line_message() -> Seq<char> {
    "Error reading line: stream did not contain valid UTF-8"@
}

/// The lines that are read: all of them, or the first `max_lines`.
pub open spec fn first_lines(lines: Seq<Seq<u8>>, max_lines: Option<usize>) -> Seq<Seq<u8>> {
    match max_lines {
        Some(max) => if max < lines.len() {
            lines.take(max as int)
        } else {
            lines
        },
        None => lines,
    }
}

/// The first of `lines` that is not UTF-8 text, if there is one.
pub open spec fn first_malformed(lines: Seq<Seq<u8>>) -> Option<Seq<u8>>
    decreases lines.len(),
{
    if lines.len() == 0 {
        None
    } else {
        match first_malformed(lines.drop_last()) {
            Some(line) => Some(line),
            None => if valid_utf8(lines.last()) {
                None
            } else {
                Some(lines.last())
            },
        }
    }
}

/// The text of `lines`, each followed by a line feed.
pub open spec fn joined_text(lines: Seq<Seq<u8>>) -> Seq<char>
    decreases lines.len(),
{
    if lines.len() == 0 {
        Seq::empty()
    } else {
        joined_text(lines.drop_last()) + decode_utf8(lines.last()) + seq!['\n']
    }
}

/// The failure reported for a line that is not text.
pub open spec fn malformed_line() -> FailureView {
    FailureView { kind: ErrorKind::DecodeError, message: malformed_line_message() }
}

/// What is shown of a file with content `bytes`: the text of its first
/// lines, and how many they are; or a failure if one of those lines is not
/// text. Lines beyond the limit are not looked at.
pub open spec fn local_content_of(bytes: Seq<u8>, max_lines: Option<usize>) -> Result<
    FileContentView,
    FailureView,
> {
    let lines = first_lines(text_lines(bytes), max_lines);
    match first_malformed(lines) {
        Some(_) => Err(malformed_line()),
        None => Ok(FileContentView { content: joined_text(lines), total_lines: lines.len() }),
    }
}

/// Appends a decoded line and its line feed to `content`, or reports the
/// line as not being text. `content` is left as it was in that case.
pub fn append_line(content: &mut String, decoded: Result<String, String>) -> (result: Result<
    (),
    Failure,
>)
    ensures
        match decoded {
            Ok(line) => result is Ok && final(content)@ == old(content)@ + line@ + seq!['\n'],
            Err(_) => final(content)@ == old(content)@ && (result matches Err(failure)
                && failure@ == malformed_line()),
        },
{
    match decoded {
        Ok(line) => {
            proof {
                reveal_strlit("\n");
                assert("\n"@ =~= seq!['\n']);
            }
            content.append(line.as_str());
            content.append("\n");
            Ok(())
        },
        Err(_) => Err(
            Failure {
                kind: ErrorKind::DecodeError,
                message: String::from_str("Error reading line: stream did not contain valid UTF-8"),
            },
        ),
    }
}

/// Produces what is shown of a local file from the bytes of the file.
pub fn local_content(bytes: &[u8], max_lines: Option<usize>) -> (result: Result<
    FileContent,
    Failure,
>)
    ensures
        match local_content_of(bytes@, max_lines) {
            Ok(file) => result matches Ok(got) && got@ == file,
            Err(failure) => result matches Err(got) && got@ == failure,
        },
{
    let mut lines = split_lines(bytes);
    let ghost all = contents(lines@);
    let limit = match max_lines {
        Some(max) => if max < lines.len() {
            max
        } else {
            lines.len()
        },
        None => lines.len(),
    };
    let ghost taken = first_lines(text_lines(bytes@), max_lines);
    assert(taken =~= all.take(limit as int));
    let mut content = String::new();
    let mut i: usize = 0;
    assert(all.take(0) =~= Seq::<Seq<u8>>::empty());
    while i < limit
        invariant
            i <= limit <= lines.len(),
            lines@.len() == all.len(),
            forall|j: int| i <= j < lines@.len() ==> (#[trigger] lines@[j])@ == all[j],
            first_malformed(all.take(i as int)) is None,
            content@ == joined_text(all.take(i as int)),
            taken == all.take(limit as int),
            taken == first_lines(text_lines(bytes@), max_lines),
        decreases limit - i,
    {
        let mut line: Vec<u8> = Vec::new();
        let ghost rest = lines@;
        lines.set_and_swap(i, &mut line);
        assert forall|j: int| i < j < lines@.len() implies (#[trigger] lines@[j])@ == all[j] by {
            assert(lines@[j] == rest[j]);
        }
        let ghost done = all.take(i as int);
        let ghost span = line@;
        assert(all.take(i + 1).drop_last() =~= done);
        assert(all.take(i + 1).last() == span);
        match append_line(&mut content, decode_text(line)) {
            Ok(()) => {},
            Err(failure) => {
                proof {
                    let front = all.take(i + 1);
                    assert(front =~= taken.take(front.len() as int));
                    assert(first_malformed(front) == Some(span));
                    lemma_first_malformed_stays(front, taken);
                }
                return Err(failure);
            },
        }
        i += 1;
    }
    Ok(FileContent { content, total_lines: limit })
}

/// The first malformed line of a prefix is the first malformed line of the
/// whole.
proof fn lemma_first_malformed_stays(front: Seq<Seq<u8>>, lines: Seq<Seq<u8>>)
    requires
        front.len() <= lines.len(),
        front == lines.take(front.len() as int),
        first_malformed(front) is Some,
    ensures
        first_malformed(lines) == first_malformed(front),
    decreases lines.len() - front.len(),
{
    if front.len() < lines.len() {
        let longer = lines.take(front.len() as int + 1);
        assert(longer.drop_last() =~= front);
        assert(longer =~= lines.take(longer.len() as int));
        lemma_first_malformed_stays(longer, lines);
    } else {
        assert(front =~= lines);
    }
}

} // verus!
