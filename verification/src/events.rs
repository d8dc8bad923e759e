//! What the engine reports to the presentation layer.

use vstd::prelude::*;

verus! {

/// One line of a followed log, or the closing record of a stream that
/// failed.
#[derive(Clone, Debug, PartialEq, Eq)]
pub struct LogStreamData {
    /// The text of the line, without its terminator.
    pub content: String,
    /// Set on the closing record of a stream; no line follows it.
    pub is_complete: bool,
    /// The remote path the line was read from.
    pub source: Option<String>,
    /// Why the stream failed, on a closing record.
    pub error: Option<String>,
    /// Wall-clock time of emission, in seconds since the Unix epoch.
    pub timestamp: u64,
}

/// A `LogStreamData` in contracts.
pub struct LogStreamDataView {
    pub content: Seq<char>,
    pub is_complete: bool,
    pub source: Option<Seq<char>>,
    pub error: Option<Seq<char>>,
    pub timestamp: u64,
}

impl View for LogStreamData {
    type V = LogStreamDataView;

    open spec fn view(&self) -> LogStreamDataView {
        LogStreamDataView {
            content: self.content@,
            is_complete: self.is_complete,
            source: self.source.deep_view(),
            error: self.error.deep_view(),
            timestamp: self.timestamp,
        }
    }
}

impl DeepView for LogStreamData {
    type V = LogStreamDataView;

    open spec fn deep_view(&self) -> LogStreamDataView {
        self@
    }
}

/// An event sent to the presentation layer.
#[derive(Clone, Debug, PartialEq, Eq)]
pub enum OutboundEvent {
    /// The remote command runs; lines of the path will follow.
    Connected(String),
    /// A line, or the closing record of a failed stream.
    Data(LogStreamData),
    /// Something failed.
    Error { message: String, path: Option<String> },
    /// The session that followed the path has ended.
    Disconnected(String),
    /// A stop request for the path was accepted.
    MonitorStopped(String),
}

/// An `OutboundEvent` in contracts.
pub enum OutboundEventView {
    Connected(Seq<char>),
    Data(LogStreamDataView),
    Error { message: Seq<char>, path: Option<Seq<char>> },
    Disconnected(Seq<char>),
    MonitorStopped(Seq<char>),
}

impl View for OutboundEvent {
    type V = OutboundEventView;

    open spec fn view(&self) -> OutboundEventView {
        match self {
            OutboundEvent::Connected(path) => OutboundEventView::Connected(path@),
            OutboundEvent::Data(data) => OutboundEventView::Data(data@),
            OutboundEvent::Error { message, path } => OutboundEventView::Error {
                message: message@,
                path: path.deep_view(),
            },
            OutboundEvent::Disconnected(path) => OutboundEventView::Disconnected(path@),
            OutboundEvent::MonitorStopped(path) => OutboundEventView::MonitorStopped(path@),
        }
    }
}

impl DeepView for OutboundEvent {
    type V = OutboundEventView;

    open spec fn deep_view(&self) -> OutboundEventView {
        self@
    }
}

/// The record of one line read from `path` at time `now`.
pub open spec fn line_record(content: Seq<char>, path: Seq<char>, now: u64) -> LogStreamDataView {
    LogStreamDataView {
        content,
        is_complete: false,
        source: Some(path),
        error: None,
        timestamp: now,
    }
}

/// The closing record of a stream of `path` that failed at time `now`.
pub open spec fn closing_record(message: Seq<char>, path: Seq<char>, now: u64)
    -> LogStreamDataView {
    LogStreamDataView {
        content: Seq::empty(),
        is_complete: true,
        source: Some(path),
        error: Some(message),
        timestamp: now,
    }
}

/// One data event per line, in the order of the lines.
pub open spec fn line_events(lines: Seq<Seq<char>>, path: Seq<char>, now: u64) -> Seq<
    OutboundEventView,
> {
    Seq::new(lines.len(), |i: int| OutboundEventView::Data(line_record(lines[i], path, now)))
}

/// Wraps completed lines into data events, keeping their order.
pub fn emit_lines(lines: &Vec<String>, path: &String, now: u64) -> (events: Vec<OutboundEvent>)
    ensures
        events.deep_view() == line_events(lines.deep_view(), path@, now),
{
    let mut events: Vec<OutboundEvent> = Vec::new();
    let mut i: usize = 0;
    while i < lines.len()
        invariant
            i <= lines.len(),
            events@.len() == i,
            forall|j: int|
                0 <= j < i ==> (#[trigger] events@[j])@ == OutboundEventView::Data(
                    line_record(lines@[j]@, path@, now),
                ),
        decreases lines.len() - i,
    {
        events.push(
            OutboundEvent::Data(
                LogStreamData {
                    content: lines[i].clone(),
                    is_complete: false,
                    source: Some(path.clone()),
                    error: None,
                    timestamp: now,
                },
            ),
        );
        i += 1;
    }
    assert(events.deep_view() =~= line_events(lines.deep_view(), path@, now));
    events
}

/// The name under which the front end listens for an event. The closing
/// record of a failed stream goes out under a name of its own, apart from
/// the lines.
pub open spec fn event_name_of(event: OutboundEventView) -> Seq<char> {
    match event {
        OutboundEventView::Connected(_) => "ssh-log-connected"@,
        OutboundEventView::Data(record) => if record.is_complete {
            "log-data"@
        } else {
            "ssh-log-data"@
        },
        OutboundEventView::Error { .. } => "ssh-log-error"@,
        OutboundEventView::Disconnected(_) => "ssh-log-disconnected"@,
        OutboundEventView::MonitorStopped(_) => "ssh-log-monitor-stopped"@,
    }
}

/// The name under which to send an event to the front end.
pub fn event_name(event: &OutboundEvent) -> (name: &'static str)
    ensures
        name@ == event_name_of(event@),
{
    match event {
        OutboundEvent::Connected(_) => "ssh-log-connected",
        OutboundEvent::Data(record) => if record.is_complete {
            "log-data"
        } else {
            "ssh-log-data"
        },
        OutboundEvent::Error { .. } => "ssh-log-error",
        OutboundEvent::Disconnected(_) => "ssh-log-disconnected",
        OutboundEvent::MonitorStopped(_) => "ssh-log-monitor-stopped",
    }
}

} // verus!
