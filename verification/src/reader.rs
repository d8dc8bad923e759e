//! Reading a remote file once, to the end.
//!
//! Unlike the tail loop, a one-shot read returns a complete snapshot or
//! fails: bytes that are not text are an error here, not something to skip.

use vstd::prelude::*;
use vstd::string::*;
use vstd::utf8::*;
use crate::failure::{
    prefixed,
    snapshot_decode_prefix,
    snapshot_read_prefix,
    ErrorKind,
    Failure,
    FailureView,
};
use crate::lines::{count_lines, line_count};
use crate::reassembler::joined;
use crate::text::{decode_text, utf8_error_text};

verus! {

/// The most bytes one read of a snapshot asks for.
pub const SNAPSHOT_READ_CHUNK: usize = 8192;

/// What to read and whether the caller means to follow it.
#[derive(Clone, Debug, PartialEq, Eq)]
pub struct LogStreamOptions {
    pub log_file_path: String,
    pub follow: bool,
}

/// A text file's content and the number of its lines.
#[derive(Clone, Debug, PartialEq, Eq)]
pub struct FileContent {
    pub content: String,
    pub total_lines: usize,
}

/// A `FileContent` in contracts.
pub struct FileContentView {
    pub content: Seq<char>,
    pub total_lines: nat,
}

impl View for FileContent {
    type V = FileContentView;

    open spec fn view(&self) -> FileContentView {
        FileContentView { content: self.content@, total_lines: self.total_lines as nat }
    }
}

/// The remote command of a one-shot read: the whole file, or its last
/// thousand lines when the caller hints at following. Neither command
/// follows the file, so both end.
pub open spec fn read_command_of(path: Seq<char>, follow: bool) -> Seq<char> {
    if follow {
        "tail -n 1000 \""@ + path + "\""@
    } else {
        "cat \""@ + path + "\""@
    }
}

/// Builds the remote command of a one-shot read.
pub fn read_command(options: &LogStreamOptions) -> (command: String)
    ensures
        command@ == read_command_of(options.log_file_path@, options.follow),
{
    let mut command = if options.follow {
        String::from_str("tail -n 1000 \"")
    } else {
        String::from_str("cat \"")
    };
    command.append(options.log_file_path.as_str());
    command.append("\"");
    command
}

/// What a snapshot of `bytes` is: the decoded text with its line count, or
/// a decode failure that carries the decoder's description.
pub open spec fn snapshot_of(bytes: Seq<u8>) -> Result<FileContentView, FailureView> {
    if valid_utf8(bytes) {
        Ok(FileContentView { content: decode_utf8(bytes), total_lines: line_count(bytes) })
    } else {
        Err(
            FailureView {
                kind: ErrorKind::DecodeError,
                message: snapshot_decode_prefix() + utf8_error_text(bytes),
            },
        )
    }
}

/// Turns the outcome of decoding into the result of the read: the text with
/// the given line count, or a decode failure whose message ends with the
/// decoder's description.
pub fn finish_snapshot(decoded: Result<String, String>, total_lines: usize) -> (result: Result<
    FileContent,
    Failure,
>)
    ensures
        match decoded {
            Ok(text) => result matches Ok(file) && file@ == (FileContentView {
                content: text@,
                total_lines: total_lines as nat,
            }),
            Err(detail) => result matches Err(failure) && failure@ == (FailureView {
                kind: ErrorKind::DecodeError,
                message: snapshot_decode_prefix() + detail@,
            }),
        },
{
    match decoded {
        Ok(content) => Ok(FileContent { content, total_lines }),
        Err(detail) => Err(
            Failure {
                kind: ErrorKind::DecodeError,
                message: prefixed("解析日志内容失败: ", detail.as_str()),
            },
        ),
    }
}

/// Decodes a complete response in one pass.
pub fn snapshot(bytes: Vec<u8>) -> (result: Result<FileContent, Failure>)
    ensures
        match snapshot_of(bytes@) {
            Ok(file) => result matches Ok(got) && got@ == file,
            Err(failure) => result matches Err(got) && got@ == failure,
        },
{
    let total_lines = count_lines(bytes.as_slice());
    finish_snapshot(decode_text(bytes), total_lines)
}

/// What one read of the response came back with.
#[derive(Clone, Debug, PartialEq, Eq)]
pub enum ChunkRead {
    /// The bytes read; none at the end of the response.
    Bytes(Vec<u8>),
    /// The read failed; the text says how.
    Failed(String),
}

/// What to do after a read.
#[derive(Debug, PartialEq, Eq)]
pub enum SnapshotStep {
    /// Read again.
    ReadMore,
    /// The read is over, with this result.
    Done(Result<FileContent, Failure>),
}

/// The failure of a read that broke off.
pub open spec fn read_failure_of(detail: Seq<char>) -> FailureView {
    FailureView { kind: ErrorKind::ReadFailed, message: snapshot_read_prefix() + detail }
}

/// What the reader holds after a read, given what it held before.
pub open spec fn collected_after(collected: Seq<u8>, read: ChunkRead) -> Seq<u8> {
    match read {
        ChunkRead::Bytes(data) => if data@.len() > 0 {
            collected + data@
        } else {
            Seq::empty()
        },
        ChunkRead::Failed(_) => Seq::empty(),
    }
}

/// The result of a one-shot read after a read, if that read ends it: an
/// empty read ends it with the snapshot of all bytes collected, a failed
/// read with a read failure.
pub open spec fn result_after(collected: Seq<u8>, read: ChunkRead) -> Option<
    Result<FileContentView, FailureView>,
> {
    match read {
        ChunkRead::Bytes(data) => if data@.len() > 0 {
            None
        } else {
            Some(snapshot_of(collected))
        },
        ChunkRead::Failed(detail) => Some(Err(read_failure_of(detail@))),
    }
}

/// Collects the chunks of one response.
pub struct SnapshotReader {
    collected: Vec<u8>,
}

impl View for SnapshotReader {
    type V = Seq<u8>;

    closed spec fn view(&self) -> Seq<u8> {
        self.collected@
    }
}

impl SnapshotReader {
    /// A reader that has collected nothing.
    pub fn new() -> (reader: SnapshotReader)
        ensures
            reader@ == Seq::<u8>::empty(),
    {
        SnapshotReader { collected: Vec::new() }
    }

    /// Takes the outcome of a read and says whether to read again.
    pub fn accept(&mut self, read: ChunkRead) -> (step: SnapshotStep)
        ensures
            final(self)@ == collected_after(old(self)@, read),
            match result_after(old(self)@, read) {
                None => step is ReadMore,
                Some(Ok(file)) => step matches SnapshotStep::Done(Ok(got)) && got@ == file,
                Some(Err(failure)) => step matches SnapshotStep::Done(Err(got)) && got@
                    == failure,
            },
    {
        match read {
            ChunkRead::Bytes(data) => {
                if data.len() > 0 {
                    let mut data = data;
                    self.collected.append(&mut data);
                    SnapshotStep::ReadMore
                } else {
                    let mut all: Vec<u8> = Vec::new();
                    core::mem::swap(&mut all, &mut self.collected);
                    SnapshotStep::Done(snapshot(all))
                }
            },
            ChunkRead::Failed(detail) => {
                self.collected = Vec::new();
                SnapshotStep::Done(
                    Err(
                        Failure {
                            kind: ErrorKind::ReadFailed,
                            message: prefixed("读取日志内容失败: ", detail.as_str()),
                        },
                    ),
                )
            },
        }
    }
}

/// What a reader holds after a run of reads.
pub open spec fn collected_after_all(collected: Seq<u8>, reads: Seq<ChunkRead>) -> Seq<u8>
    decreases reads.len(),
{
    if reads.len() == 0 {
        collected
    } else {
        collected_after(collected_after_all(collected, reads.drop_last()), reads.last())
    }
}

/// The bytes of a run of reads that all delivered some.
pub open spec fn delivered(reads: Seq<ChunkRead>) -> Seq<Seq<u8>> {
    Seq::new(reads.len(), |i: int| reads[i]->Bytes_0@)
}

/// A snapshot does not depend on how the response arrives. After any run
/// of reads that delivered bytes, the empty read that ends the response
/// yields the snapshot of all bytes in the order they came.
pub proof fn lemma_snapshot_of_chunks(reads: Seq<ChunkRead>, last: ChunkRead)
    requires
        forall|i: int|
            0 <= i < reads.len() ==> (#[trigger] reads[i] matches ChunkRead::Bytes(data)
                && data@.len() > 0),
        last matches ChunkRead::Bytes(data) && data@.len() == 0,
    ensures
        collected_after_all(Seq::empty(), reads) == joined(delivered(reads)),
        forall|i: int|
            0 <= i < reads.len() ==> result_after(
                collected_after_all(Seq::empty(), reads.take(i)),
                #[trigger] reads[i],
            ) is None,
        result_after(collected_after_all(Seq::empty(), reads), last) == Some(
            snapshot_of(joined(delivered(reads))),
        ),
    decreases reads.len(),
{
    if reads.len() > 0 {
        let front = reads.drop_last();
        lemma_snapshot_of_chunks(front, last);
        assert(delivered(reads).drop_last() =~= delivered(front));
        assert(delivered(reads).last() == reads.last()->Bytes_0@);
        assert forall|i: int| 0 <= i < reads.len() implies result_after(
            collected_after_all(Seq::empty(), reads.take(i)),
            #[trigger] reads[i],
        ) is None by {
            if i < front.len() {
                assert(reads.take(i) =~= front.take(i));
                assert(reads[i] == front[i]);
            }
        }
    }
}

} // verus!
