//! Finding candidate log files on a remote host.
//!
//! A fixed list of conventional log directories is searched, one remote
//! command per directory. Each search stands alone: a directory whose
//! search cannot be started, or breaks off before its output has ended, is
//! skipped and contributes nothing; the other directories are searched all
//! the same.

use vstd::prelude::*;
use vstd::slice::slice_to_vec;
use vstd::string::*;
use vstd::utf8::*;
use crate::reader::{delivered, ChunkRead};
use crate::lines::{lemma_lines_of_text_are_text, split_lines, text_lines};
use crate::reassembler::joined;
use crate::text::decode_text;

verus! {

/// The most bytes one read of a listing asks for.
pub const LISTING_READ_CHUNK: usize = 4096;

/// The number of directories that are searched.
pub const DIRECTORY_COUNT: usize = 7;

/// A file that looks like a log.
#[derive(Clone, Debug, PartialEq, Eq)]
pub struct LogFileInfo {
    /// The path as the remote host printed it.
    pub path: String,
    /// The last component of the path.
    pub name: String,
    /// Whether the file is on a remote host. Always set for discovered files.
    pub is_remote: bool,
}

/// A `LogFileInfo` in contracts.
pub struct LogFileInfoView {
    pub path: Seq<char>,
    pub name: Seq<char>,
    pub is_remote: bool,
}

impl View for LogFileInfo {
    type V = LogFileInfoView;

    open spec fn view(&self) -> LogFileInfoView {
        LogFileInfoView { path: self.path@, name: self.name@, is_remote: self.is_remote }
    }
}

impl DeepView for LogFileInfo {
    type V = LogFileInfoView;

    open spec fn deep_view(&self) -> LogFileInfoView {
        self@
    }
}

/// The directories that are searched, in order.
pub open spec fn directory(index: nat) -> Seq<char> {
    if index == 0 {
        "/var/log"@
    } else if index == 1 {
        "/var/log/system"@
    } else if index == 2 {
        "/var/log/messages"@
    } else if index == 3 {
        "/var/log/syslog"@
    } else if index == 4 {
        "/var/log/nginx"@
    } else if index == 5 {
        "/var/log/apache2"@
    } else {
        "/var/log/httpd"@
    }
}

/// The directory at a position of the search order.
pub fn directory_text(index: usize) -> (text: &'static str)
    requires
        index < DIRECTORY_COUNT,
    ensures
        text@ == directory(index as nat),
{
    if index == 0 {
        "/var/log"
    } else if index == 1 {
        "/var/log/system"
    } else if index == 2 {
        "/var/log/messages"
    } else if index == 3 {
        "/var/log/syslog"
    } else if index == 4 {
        "/var/log/nginx"
    } else if index == 5 {
        "/var/log/apache2"
    } else {
        "/var/log/httpd"
    }
}

/// The remote command that lists up to fifty log files under `dir`, sorted,
/// compressed ones left out.
pub open spec fn find_command_of(dir: Seq<char>) -> Seq<char> {
    "find \""@ + dir
        + "\" -type f -name \"*.log\" -o -name \"*.out\" | grep -v \".gz\" | sort | head -50"@
}

/// Builds the search command for a directory.
pub fn find_command(dir: &str) -> (command: String)
    ensures
        command@ == find_command_of(dir@),
{
    let mut command = String::from_str("find \"");
    command.append(dir);
    command.append(
        "\" -type f -name \"*.log\" -o -name \"*.out\" | grep -v \".gz\" | sort | head -50",
    );
    command
}

/// The characters that count as white space: those that Unicode marks as
/// `White_Space`.
pub open spec fn is_whitespace(c: char) -> bool {
    ||| '\u{9}' <= c <= '\u{d}'
    ||| c == ' '
    ||| c == '\u{85}'
    ||| c == '\u{a0}'
    ||| c == '\u{1680}'
    ||| '\u{2000}' <= c <= '\u{200a}'
    ||| c == '\u{2028}'
    ||| c == '\u{2029}'
    ||| c == '\u{202f}'
    ||| c == '\u{205f}'
    ||| c == '\u{3000}'
}

/// A line is blank if it holds nothing but white space.
pub open spec fn is_blank(line: Seq<char>) -> bool {
    forall|i: int| 0 <= i < line.len() ==> is_whitespace(#[trigger] line[i])
}

/// Whether a character is white space.
pub fn whitespace(c: char) -> (white: bool)
    ensures
        white == is_whitespace(c),
{
    ('\u{9}' <= c && c <= '\u{d}') || c == ' ' || c == '\u{85}' || c == '\u{a0}' || c
        == '\u{1680}' || ('\u{2000}' <= c && c <= '\u{200a}') || c == '\u{2028}' || c
        == '\u{2029}' || c == '\u{202f}' || c == '\u{205f}' || c == '\u{3000}'
}

/// Whether a line holds nothing but white space.
pub fn blank(line: &str) -> (blank: bool)
    ensures
        blank == is_blank(line@),
{
    broadcast use vstd::string::group_string_axioms;

    let mut blank: bool = true;
    for c in it: line.chars()
        invariant
            it.seq() == line@,
            blank == (forall|i: int| 0 <= i < it.index() ==> is_whitespace(#[trigger] line@[i])),
    {
        if !whitespace(c) {
            blank = false;
        }
    }
    blank
}

/// The last component of `path` under the path rules of the platform the
/// library is built for, if the path has one.
pub uninterp spec fn file_name_of(path: Seq<char>) -> Option<Seq<char>>;

/// Takes the last component of a path through `std::path::Path::file_name`.
///
/// Trusted: the standard library's answer depends on the text of the path
/// alone. Nothing else is claimed of it.
#[verifier::external_body]
fn file_name(path: &str) -> (name: Option<String>)
    ensures
        name.deep_view() == file_name_of(path@),
{
    match std::path::Path::new(path).file_name() {
        Some(name) => match name.to_str() {
            Some(text) => Some(text.to_string()),
            None => None,
        },
        None => None,
    }
}

/// The candidate that a line of a listing stands for, given the last
/// component of the line taken as a path: none for a blank line or a line
/// without a last component.
pub open spec fn candidate_of(line: Seq<char>, name: Option<Seq<char>>) -> Option<
    LogFileInfoView,
> {
    match name {
        Some(name) => if is_blank(line) {
            None
        } else {
            Some(LogFileInfoView { path: line, name, is_remote: true })
        },
        None => None,
    }
}

/// Makes the candidate for a line of a listing from the line and the last
/// component of the line taken as a path.
pub fn candidate(line: String, name: Option<String>) -> (found: Option<LogFileInfo>)
    ensures
        found.deep_view() == candidate_of(line@, name.deep_view()),
{
    match name {
        Some(name) => {
            if blank(line.as_str()) {
                None
            } else {
                Some(LogFileInfo { path: line, name, is_remote: true })
            }
        },
        None => None,
    }
}

/// What one line of a listing contributes: its candidate, if it stands for
/// one.
pub open spec fn entry_of(line: Seq<u8>) -> Seq<LogFileInfoView> {
    match candidate_of(decode_utf8(line), file_name_of(decode_utf8(line))) {
        Some(found) => seq![found],
        None => Seq::empty(),
    }
}

/// The candidates of a sequence of lines, in the order of the lines.
pub open spec fn entries_of(lines: Seq<Seq<u8>>) -> Seq<LogFileInfoView>
    decreases lines.len(),
{
    if lines.len() == 0 {
        Seq::empty()
    } else {
        entries_of(lines.drop_last()) + entry_of(lines.last())
    }
}

/// The candidates that the output of one search stands for. Output that is
/// not text as a whole stands for none.
pub open spec fn listing_entries(output: Seq<u8>) -> Seq<LogFileInfoView> {
    if valid_utf8(output) {
        entries_of(text_lines(output))
    } else {
        Seq::empty()
    }
}

fn push_entry(found: &mut Vec<LogFileInfo>, line: Vec<u8>)
    requires
        valid_utf8(line@),
    ensures
        final(found).deep_view() == old(found).deep_view() + entry_of(line@),
{
    let ghost before = found.deep_view();
    match decode_text(line) {
        Ok(text) => {
            let name = file_name(text.as_str());
            match candidate(text, name) {
                Some(entry) => {
                    found.push(entry);
                    assert(found.deep_view() =~= before + seq![entry@]);
                },
                None => {
                    assert(before + Seq::<LogFileInfoView>::empty() =~= before);
                },
            }
        },
        Err(_) => {},
    }
}

/// Reads the output of one search and appends the candidates it stands for
/// to `found`.
pub fn parse_listing(found: &mut Vec<LogFileInfo>, output: &Vec<u8>)
    ensures
        final(found).deep_view() == old(found).deep_view() + listing_entries(output@),
{
    let ghost before = found.deep_view();
    assert(before + Seq::<LogFileInfoView>::empty() =~= before);
    if decode_text(slice_to_vec(output.as_slice())).is_err() {
        return ;
    }
    let mut lines = split_lines(output.as_slice());
    let ghost all = text_lines(output@);
    proof {
        lemma_lines_of_text_are_text(output@);
    }
    let mut i: usize = 0;
    assert(all.take(0) =~= Seq::<Seq<u8>>::empty());
    while i < lines.len()
        invariant
            i <= lines.len(),
            lines@.len() == all.len(),
            forall|j: int| i <= j < lines@.len() ==> (#[trigger] lines@[j])@ == all[j],
            found.deep_view() == before + entries_of(all.take(i as int)),
            forall|j: int| 0 <= j < all.len() ==> valid_utf8(#[trigger] all[j]),
        decreases lines.len() - i,
    {
        let mut line: Vec<u8> = Vec::new();
        let ghost rest = lines@;
        lines.set_and_swap(i, &mut line);
        assert forall|j: int| i < j < lines@.len() implies (#[trigger] lines@[j])@ == all[j] by {
            assert(lines@[j] == rest[j]);
        }
        let ghost done = all.take(i as int);
        assert(all.take(i + 1).drop_last() =~= done);
        assert(all.take(i + 1).last() == line@);
        assert((before + entries_of(done)) + entry_of(line@) =~= before + (entries_of(done)
            + entry_of(line@)));
        push_entry(found, line);
        i += 1;
    }
    assert(all.take(all.len() as int) =~= all);
}

/// What a discovery is doing.
#[derive(Clone, Copy, Debug, PartialEq, Eq, Structural)]
pub enum DiscoveryPhase {
    /// Waiting for the search of the current directory to start.
    Searching,
    /// Reading the output of the search of the current directory.
    Reading,
    /// All directories are done.
    Done,
}

/// The outcome of the command that the discovery asked for.
#[derive(Clone, Debug, PartialEq, Eq)]
pub enum DiscoveryEvent {
    /// The search command runs.
    SearchStarted,
    /// The channel could not be opened or the command could not be started.
    SearchFailed,
    /// A read of the output returned.
    Read(ChunkRead),
}

/// What the caller is to do next.
#[derive(Clone, Debug, PartialEq, Eq)]
pub enum DiscoveryCommand {
    /// Open a channel and start this command on it.
    Search(String),
    /// Read from the channel, at most `LISTING_READ_CHUNK` bytes.
    Read,
    /// Nothing: collect the candidates found.
    Finish,
}

/// A `DiscoveryCommand` in contracts.
pub enum DiscoveryCommandView {
    Search(Seq<char>),
    Read,
    Finish,
}

impl View for DiscoveryCommand {
    type V = DiscoveryCommandView;

    open spec fn view(&self) -> DiscoveryCommandView {
        match self {
            DiscoveryCommand::Search(command) => DiscoveryCommandView::Search(command@),
            DiscoveryCommand::Read => DiscoveryCommandView::Read,
            DiscoveryCommand::Finish => DiscoveryCommandView::Finish,
        }
    }
}

/// A discovery in contracts.
pub struct DiscoveryModel {
    /// The position of the current directory in the search order.
    pub at: nat,
    pub phase: DiscoveryPhase,
    /// The output read so far of the current search.
    pub collected: Seq<u8>,
    /// The candidates of the directories that are done.
    pub found: Seq<LogFileInfoView>,
}

/// The command a discovery waits on.
pub open spec fn awaited_search(discovery: DiscoveryModel) -> DiscoveryCommandView {
    match discovery.phase {
        DiscoveryPhase::Searching => DiscoveryCommandView::Search(
            find_command_of(directory(discovery.at)),
        ),
        DiscoveryPhase::Reading => DiscoveryCommandView::Read,
        DiscoveryPhase::Done => DiscoveryCommandView::Finish,
    }
}

/// The discovery once the current directory is done with `found` as the
/// candidates so far: at the next directory, or done after the last.
pub open spec fn next_directory(discovery: DiscoveryModel, found: Seq<LogFileInfoView>)
    -> DiscoveryModel {
    DiscoveryModel {
        at: discovery.at + 1,
        phase: if discovery.at + 1 < DIRECTORY_COUNT {
            DiscoveryPhase::Searching
        } else {
            DiscoveryPhase::Done
        },
        collected: Seq::empty(),
        found,
    }
}

/// The discovery after an event. A search that cannot start is skipped,
/// and so is one whose read fails: what it had delivered may end inside a
/// line, and is dropped. A search whose output ends contributes the
/// candidates of that output. An event that does not belong to the phase
/// changes nothing.
pub open spec fn discovery_after(discovery: DiscoveryModel, event: DiscoveryEvent)
    -> DiscoveryModel {
    match discovery.phase {
        DiscoveryPhase::Searching => match event {
            DiscoveryEvent::SearchStarted => DiscoveryModel {
                phase: DiscoveryPhase::Reading,
                ..discovery
            },
            DiscoveryEvent::SearchFailed => next_directory(discovery, discovery.found),
            _ => discovery,
        },
        DiscoveryPhase::Reading => match event {
            DiscoveryEvent::Read(ChunkRead::Bytes(data)) => if data@.len() > 0 {
                DiscoveryModel { collected: discovery.collected + data@, ..discovery }
            } else {
                next_directory(
                    discovery,
                    discovery.found + listing_entries(discovery.collected),
                )
            },
            DiscoveryEvent::Read(ChunkRead::Failed(_)) => next_directory(
                discovery,
                discovery.found,
            ),
            _ => discovery,
        },
        DiscoveryPhase::Done => discovery,
    }
}

/// A search for candidate log files over all directories.
pub struct Discovery {
    at: usize,
    phase: DiscoveryPhase,
    collected: Vec<u8>,
    found: Vec<LogFileInfo>,
}

impl View for Discovery {
    type V = DiscoveryModel;

    closed spec fn view(&self) -> DiscoveryModel {
        DiscoveryModel {
            at: self.at as nat,
            phase: self.phase,
            collected: self.collected@,
            found: self.found.deep_view(),
        }
    }
}

impl Discovery {
    /// A discovery that is not done stands at one of the directories.
    pub closed spec fn well_formed(&self) -> bool {
        if self.phase is Done {
            self.at <= DIRECTORY_COUNT
        } else {
            self.at < DIRECTORY_COUNT
        }
    }

    /// A discovery that waits for the search of the first directory.
    pub fn new() -> (discovery: Discovery)
        ensures
            discovery.well_formed(),
            discovery@ == (DiscoveryModel {
                at: 0,
                phase: DiscoveryPhase::Searching,
                collected: Seq::empty(),
                found: Seq::empty(),
            }),
    {
        let discovery = Discovery {
            at: 0,
            phase: DiscoveryPhase::Searching,
            collected: Vec::new(),
            found: Vec::new(),
        };
        assert(discovery.found.deep_view() =~= Seq::<LogFileInfoView>::empty());
        discovery
    }

    /// The command the discovery waits on.
    pub fn awaited_command(&self) -> (command: DiscoveryCommand)
        requires
            self.well_formed(),
        ensures
            command@ == awaited_search(self@),
    {
        match self.phase {
            DiscoveryPhase::Searching => DiscoveryCommand::Search(
                find_command(directory_text(self.at)),
            ),
            DiscoveryPhase::Reading => DiscoveryCommand::Read,
            DiscoveryPhase::Done => DiscoveryCommand::Finish,
        }
    }

    fn finish_directory(&mut self)
        requires
            old(self).well_formed(),
            !(old(self).phase is Done),
        ensures
            final(self).well_formed(),
            final(self)@ == next_directory(old(self)@, old(self)@.found),
    {
        self.at = self.at + 1;
        self.phase = if self.at < DIRECTORY_COUNT {
            DiscoveryPhase::Searching
        } else {
            DiscoveryPhase::Done
        };
        self.collected = Vec::new();
    }

    /// Takes the outcome of the last command and answers with the next
    /// command.
    pub fn step(&mut self, event: DiscoveryEvent) -> (command: DiscoveryCommand)
        requires
            old(self).well_formed(),
        ensures
            final(self).well_formed(),
            final(self)@ == discovery_after(old(self)@, event),
            command@ == awaited_search(final(self)@),
    {
        match self.phase {
            DiscoveryPhase::Searching => match event {
                DiscoveryEvent::SearchStarted => {
                    self.phase = DiscoveryPhase::Reading;
                },
                DiscoveryEvent::SearchFailed => {
                    self.finish_directory();
                },
                _ => {},
            },
            DiscoveryPhase::Reading => match event {
                DiscoveryEvent::Read(ChunkRead::Bytes(data)) => {
                    if data.len() > 0 {
                        let mut data = data;
                        self.collected.append(&mut data);
                    } else {
                        parse_listing(&mut self.found, &self.collected);
                        self.finish_directory();
                    }
                },
                DiscoveryEvent::Read(ChunkRead::Failed(_)) => {
                    self.finish_directory();
                },
                _ => {},
            },
            DiscoveryPhase::Done => {},
        }
        self.awaited_command()
    }

    /// Whether all directories are done.
    pub fn is_done(&self) -> (done: bool)
        ensures
            done == (self@.phase is Done),
    {
        match self.phase {
            DiscoveryPhase::Done => true,
            _ => false,
        }
    }

    /// The candidates of the directories that are done, in search order.
    pub fn into_found(self) -> (found: Vec<LogFileInfo>)
        ensures
            found.deep_view() == self@.found,
    {
        self.found
    }
}

/// The discovery after a run of reads.
pub open spec fn after_reads(discovery: DiscoveryModel, reads: Seq<ChunkRead>) -> DiscoveryModel
    decreases reads.len(),
{
    if reads.len() == 0 {
        discovery
    } else {
        discovery_after(
            after_reads(discovery, reads.drop_last()),
            DiscoveryEvent::Read(reads.last()),
        )
    }
}

/// One search, one contribution. However the output of a search arrives in
/// chunks, when it ends the search has contributed the candidates of the
/// whole output, after those of the directories before it; when a read
/// fails instead, the search has contributed nothing. Either way the
/// discovery has moved on to the next directory.
pub proof fn lemma_search_contributes_its_output(
    discovery: DiscoveryModel,
    reads: Seq<ChunkRead>,
    last: ChunkRead,
)
    requires
        discovery.phase == DiscoveryPhase::Reading,
        forall|i: int|
            0 <= i < reads.len() ==> (#[trigger] reads[i] matches ChunkRead::Bytes(data)
                && data@.len() > 0),
        last matches ChunkRead::Bytes(data) ==> data@.len() == 0,
    ensures
        after_reads(discovery, reads) == (DiscoveryModel {
            collected: discovery.collected + joined(delivered(reads)),
            ..discovery
        }),
        discovery_after(after_reads(discovery, reads), DiscoveryEvent::Read(last))
            == next_directory(
            discovery,
            if last is Failed {
                discovery.found
            } else {
                discovery.found + listing_entries(discovery.collected + joined(delivered(reads)))
            },
        ),
    decreases reads.len(),
{
    if reads.len() == 0 {
        assert(discovery.collected + joined(delivered(reads)) =~= discovery.collected);
    } else {
        let front = reads.drop_last();
        lemma_search_contributes_its_output(discovery, front, last);
        assert(delivered(reads).drop_last() =~= delivered(front));
        assert(delivered(reads).last() == reads.last()->Bytes_0@);
        assert((discovery.collected + joined(delivered(front))) + reads.last()->Bytes_0@
            =~= discovery.collected + joined(delivered(reads)));
    }
}

/// A failed search leaves no trace: whatever the discovery does at a
/// directory that cannot be searched, or whose read fails, the candidates
/// found stay as they were.
pub proof fn lemma_failed_search_is_skipped(discovery: DiscoveryModel, event: DiscoveryEvent)
    requires
        event is SearchFailed || event matches DiscoveryEvent::Read(ChunkRead::Failed(_)),
    ensures
        discovery_after(discovery, event).found == discovery.found,
{
}

} // verus!
