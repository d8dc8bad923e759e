//! The tail loop as a state machine.
//!
//! Following a remote file alternates between work on the network and
//! decisions about what to do next. The decisions live here: `step` takes
//! the outcome of the last command and answers with the events to emit and
//! the next command. The caller performs the command (connect, read, sleep)
//! and comes back with its outcome.

use vstd::prelude::*;
use vstd::string::*;
use crate::endpoint::Endpoint;
use crate::events::{
    closing_record,
    emit_lines,
    line_events,
    LogStreamData,
    OutboundEvent,
    OutboundEventView,
};
use crate::failure::{
    prefixed,
    setup_failure,
    step_kind,
    step_prefix,
    stream_read_prefix,
    ErrorKind,
    SetupStep,
};
use crate::reassembler::{lines_of, pending, LineReassembler};
use crate::registry::{released_from, SessionRegistry};

verus! {

/// How long an idle poll cycle sleeps, in milliseconds.
pub const POLL_INTERVAL_MS: u64 = 100;

/// The most bytes one read of the stream asks for.
pub const READ_CHUNK: usize = 1024;

/// Why a session ended.
#[derive(Clone, Copy, Debug, PartialEq, Eq, Structural)]
pub enum TerminationReason {
    /// The session's registry entry was removed.
    Cancelled,
    /// The remote command ended.
    Eof,
    /// A step failed.
    Failed(ErrorKind),
}

/// The kind under which a reason is known.
pub open spec fn kind_of(reason: TerminationReason) -> ErrorKind {
    match reason {
        TerminationReason::Cancelled => ErrorKind::Cancelled,
        TerminationReason::Eof => ErrorKind::Eof,
        TerminationReason::Failed(kind) => kind,
    }
}

impl TerminationReason {
    /// The kind under which this reason is known.
    pub fn kind(&self) -> (kind: ErrorKind)
        ensures
            kind == kind_of(*self),
    {
        match self {
            TerminationReason::Cancelled => ErrorKind::Cancelled,
            TerminationReason::Eof => ErrorKind::Eof,
            TerminationReason::Failed(kind) => *kind,
        }
    }
}

/// Where a session stands.
#[derive(Clone, Copy, Debug, PartialEq, Eq, Structural)]
pub enum TailState {
    /// Opening the stream and negotiating the protocol.
    Connecting,
    /// Presenting the credentials.
    Authenticating,
    /// Starting the remote follow command.
    Executing,
    /// Polling the channel for bytes.
    Streaming,
    /// The loop has ended; the channel is being closed.
    Draining(TerminationReason),
    /// Nothing more will happen.
    Terminated(TerminationReason),
}

/// What a non-blocking read of the channel came back with.
#[derive(Clone, Debug, PartialEq, Eq)]
pub enum ReadOutcome {
    /// The bytes read, possibly none, and whether the channel reports its
    /// end.
    Bytes { data: Vec<u8>, at_eof: bool },
    /// Nothing to read right now.
    WouldBlock,
    /// The read failed; the text says how.
    Failed(String),
}

/// The outcome of the command that the session asked for.
#[derive(Clone, Debug, PartialEq, Eq)]
pub enum TailEvent {
    /// The stream is open and the handshake is done.
    TransportReady,
    /// The server accepted the credentials.
    Authenticated,
    /// The remote command runs.
    CommandStarted,
    /// A setup step failed; the text says how.
    SetupFailed { step: SetupStep, detail: String },
    /// A sleep is over.
    Woke,
    /// A read returned, at wall-clock time `now` (seconds since the Unix
    /// epoch).
    Read { outcome: ReadOutcome, now: u64 },
    /// The channel is closed.
    Closed,
}

/// What the caller is to do next.
#[derive(Clone, Debug, PartialEq, Eq)]
pub enum TailCommand {
    /// Open the stream to the endpoint and do the handshake.
    Connect,
    /// Authenticate with the session's credentials.
    Authenticate,
    /// Open a channel and start this command on it.
    Execute(String),
    /// Read from the channel without blocking, at most `READ_CHUNK` bytes.
    Read,
    /// Sleep this many milliseconds.
    Sleep(u64),
    /// Close the channel.
    Close,
    /// Nothing: the session is over.
    Stop,
}

/// A `TailCommand` in contracts.
pub enum TailCommandView {
    Connect,
    Authenticate,
    Execute(Seq<char>),
    Read,
    Sleep(u64),
    Close,
    Stop,
}

impl View for TailCommand {
    type V = TailCommandView;

    open spec fn view(&self) -> TailCommandView {
        match self {
            TailCommand::Connect => TailCommandView::Connect,
            TailCommand::Authenticate => TailCommandView::Authenticate,
            TailCommand::Execute(command) => TailCommandView::Execute(command@),
            TailCommand::Read => TailCommandView::Read,
            TailCommand::Sleep(millis) => TailCommandView::Sleep(*millis),
            TailCommand::Close => TailCommandView::Close,
            TailCommand::Stop => TailCommandView::Stop,
        }
    }
}

/// The answer to an event: what to emit, in this order, and what to do next.
#[derive(Clone, Debug, PartialEq, Eq)]
pub struct TailStep {
    pub emits: Vec<OutboundEvent>,
    pub next: TailCommand,
}

/// A session in contracts.
pub struct TailModel {
    pub endpoint: (Seq<char>, u16),
    pub path: Seq<char>,
    pub state: TailState,
    /// The bytes read since the last line terminator.
    pub held: Seq<u8>,
}

/// A step in contracts.
pub struct StepModel {
    pub session: TailModel,
    pub emits: Seq<OutboundEventView>,
    pub next: TailCommandView,
    /// Whether the step lets go of the session's registry entry.
    pub unlists: bool,
}

/// Whether the registry lists the session: its endpoint with its path. A
/// session that a later one evicted at the same endpoint is not listed.
pub open spec fn is_listed(table: Map<(Seq<char>, u16), Seq<char>>, session: TailModel) -> bool {
    table.contains_pair(session.endpoint, session.path)
}

/// The registry after a step: without the session's entry if the step lets
/// go of it, and unchanged otherwise. The entry of a later session at the
/// same endpoint is never touched.
pub open spec fn table_after(
    table: Map<(Seq<char>, u16), Seq<char>>,
    session: TailModel,
    unlists: bool,
) -> Map<(Seq<char>, u16), Seq<char>> {
    if unlists {
        released_from(table, session.endpoint, session.path)
    } else {
        table
    }
}

/// The remote command that shows the last hundred lines of `path` and then
/// follows it.
pub open spec fn follow_command_of(path: Seq<char>) -> Seq<char> {
    "tail -n 100 -f \""@ + path + "\""@
}

/// The command a state is waiting on.
pub open spec fn awaited(session: TailModel) -> TailCommandView {
    match session.state {
        TailState::Connecting => TailCommandView::Connect,
        TailState::Authenticating => TailCommandView::Authenticate,
        TailState::Executing => TailCommandView::Execute(follow_command_of(session.path)),
        TailState::Streaming => TailCommandView::Read,
        TailState::Draining(_) => TailCommandView::Close,
        TailState::Terminated(_) => TailCommandView::Stop,
    }
}

/// The session in another state.
pub open spec fn moved(session: TailModel, state: TailState) -> TailModel {
    TailModel { state, ..session }
}

/// A step that changes the state, emits, and asks for the command the new
/// state waits on.
pub open spec fn advance(session: TailModel, state: TailState, emits: Seq<OutboundEventView>)
    -> StepModel {
    let session = moved(session, state);
    StepModel { session, emits, next: awaited(session), unlists: false }
}

/// The start of a poll cycle: a session that is no longer listed is
/// cancelled, a listed one reads.
pub open spec fn poll(session: TailModel, listed: bool, emits: Seq<OutboundEventView>)
    -> StepModel {
    if listed {
        advance(session, TailState::Streaming, emits)
    } else {
        advance(session, TailState::Draining(TerminationReason::Cancelled), emits)
    }
}

/// An idle cycle: sleep, then poll again.
pub open spec fn idle(session: TailModel) -> StepModel {
    StepModel {
        session,
        emits: Seq::empty(),
        next: TailCommandView::Sleep(POLL_INTERVAL_MS),
        unlists: false,
    }
}

/// The end of a session: the session lets go of its registry entry and
/// `last` is the one closing event.
pub open spec fn terminate(session: TailModel, reason: TerminationReason, last: OutboundEventView)
    -> StepModel {
    StepModel {
        session: moved(session, TailState::Terminated(reason)),
        emits: seq![last],
        next: TailCommandView::Stop,
        unlists: true,
    }
}

/// The answer to a setup step that failed: one error event, and the session
/// is over.
pub open spec fn setup_failed(session: TailModel, step: SetupStep, detail: Seq<char>)
    -> StepModel {
    terminate(
        session,
        TerminationReason::Failed(step_kind(step)),
        OutboundEventView::Error {
            message: step_prefix(step) + detail,
            path: Some(session.path),
        },
    )
}

/// The answer to a read outcome while streaming.
pub open spec fn after_read(session: TailModel, listed: bool, outcome: ReadOutcome, now: u64)
    -> StepModel {
    match outcome {
        ReadOutcome::Bytes { data, at_eof } => {
            if data@.len() > 0 {
                poll(
                    TailModel { held: pending(session.held + data@), ..session },
                    listed,
                    line_events(lines_of(session.held + data@), session.path, now),
                )
            } else if at_eof {
                advance(
                    session,
                    TailState::Draining(TerminationReason::Eof),
                    Seq::empty(),
                )
            } else {
                idle(session)
            }
        },
        ReadOutcome::WouldBlock => idle(session),
        ReadOutcome::Failed(detail) => {
            let message = stream_read_prefix() + detail@;
            advance(
                session,
                TailState::Draining(TerminationReason::Failed(ErrorKind::ReadFailed)),
                seq![
                    OutboundEventView::Data(closing_record(message, session.path, now)),
                    OutboundEventView::Error { message, path: Some(session.path) },
                ],
            )
        },
    }
}

/// An event that does not belong to the state changes nothing; the answer
/// repeats the command the state waits on.
pub open spec fn ignored(session: TailModel) -> StepModel {
    StepModel { session, emits: Seq::empty(), next: awaited(session), unlists: false }
}

/// The tail loop: the answer of a session to an event. `listed` says
/// whether the registry lists the session when the event arrives.
pub open spec fn step_model(session: TailModel, listed: bool, event: TailEvent) -> StepModel {
    match session.state {
        TailState::Connecting => match event {
            TailEvent::TransportReady => advance(
                session,
                TailState::Authenticating,
                Seq::empty(),
            ),
            TailEvent::SetupFailed { step, detail } => setup_failed(session, step, detail@),
            _ => ignored(session),
        },
        TailState::Authenticating => match event {
            TailEvent::Authenticated => advance(session, TailState::Executing, Seq::empty()),
            TailEvent::SetupFailed { step, detail } => setup_failed(session, step, detail@),
            _ => ignored(session),
        },
        TailState::Executing => match event {
            TailEvent::CommandStarted => poll(
                session,
                listed,
                seq![OutboundEventView::Connected(session.path)],
            ),
            TailEvent::SetupFailed { step, detail } => setup_failed(session, step, detail@),
            _ => ignored(session),
        },
        TailState::Streaming => match event {
            TailEvent::Read { outcome, now } => after_read(session, listed, outcome, now),
            _ => poll(session, listed, Seq::empty()),
        },
        TailState::Draining(reason) => match event {
            TailEvent::Closed => terminate(
                session,
                reason,
                OutboundEventView::Disconnected(session.path),
            ),
            _ => ignored(session),
        },
        TailState::Terminated(_) => ignored(session),
    }
}

/// Builds the follow command for `path`.
pub fn follow_command(path: &str) -> (command: String)
    ensures
        command@ == follow_command_of(path@),
{
    let mut command = String::from_str("tail -n 100 -f \"");
    command.append(path);
    command.append("\"");
    command
}

/// One session that follows one remote path.
pub struct TailSession {
    endpoint: Endpoint,
    path: String,
    state: TailState,
    reassembler: LineReassembler,
}

impl View for TailSession {
    type V = TailModel;

    closed spec fn view(&self) -> TailModel {
        TailModel {
            endpoint: self.endpoint@,
            path: self.path@,
            state: self.state,
            held: self.reassembler@,
        }
    }
}

impl TailSession {
    /// The held bytes are an unterminated fragment.
    pub closed spec fn well_formed(&self) -> bool {
        self.reassembler.well_formed()
    }

    /// Starts a session for `path` at `endpoint` and lists it in the
    /// registry. A session already listed for the endpoint is evicted; its
    /// path is returned with the new session. The new session waits for
    /// `TailCommand::Connect`.
    pub fn start(registry: &mut SessionRegistry, endpoint: Endpoint, path: String) -> (started: (
        TailSession,
        Option<String>,
    ))
        requires
            old(registry).well_formed(),
        ensures
            final(registry).well_formed(),
            final(registry)@ == old(registry)@.insert(endpoint@, path@),
            started.0.well_formed(),
            started.0@ == (TailModel {
                endpoint: endpoint@,
                path: path@,
                state: TailState::Connecting,
                held: Seq::empty(),
            }),
            started.1.deep_view() == old(registry)@.get(endpoint@),
    {
        let evicted = registry.try_register(endpoint.duplicate(), path.clone());
        let session = TailSession {
            endpoint,
            path,
            state: TailState::Connecting,
            reassembler: LineReassembler::new(),
        };
        (session, evicted)
    }

    /// Where the session stands.
    pub fn state(&self) -> (state: TailState)
        ensures
            state == self@.state,
    {
        self.state
    }

    /// The endpoint the session is listed under.
    pub fn endpoint(&self) -> (endpoint: &Endpoint)
        ensures
            endpoint@ == self@.endpoint,
    {
        &self.endpoint
    }

    /// The remote path the session follows.
    pub fn path(&self) -> (path: &String)
        ensures
            path@ == self@.path,
    {
        &self.path
    }

    /// Whether the session is over.
    pub fn is_terminated(&self) -> (over: bool)
        ensures
            over == (self@.state is Terminated),
    {
        match self.state {
            TailState::Terminated(_) => true,
            _ => false,
        }
    }

    /// The command the session waits on.
    pub fn awaited_command(&self) -> (command: TailCommand)
        ensures
            command@ == awaited(self@),
    {
        match self.state {
            TailState::Connecting => TailCommand::Connect,
            TailState::Authenticating => TailCommand::Authenticate,
            TailState::Executing => TailCommand::Execute(follow_command(self.path.as_str())),
            TailState::Streaming => TailCommand::Read,
            TailState::Draining(_) => TailCommand::Close,
            TailState::Terminated(_) => TailCommand::Stop,
        }
    }

    fn advance(&mut self, state: TailState, emits: Vec<OutboundEvent>) -> (step: TailStep)
        requires
            old(self).well_formed(),
        ensures
            final(self).well_formed(),
            final(self)@ == moved(old(self)@, state),
            step.emits == emits,
            step.next@ == awaited(final(self)@),
    {
        self.state = state;
        let next = self.awaited_command();
        TailStep { emits, next }
    }

    fn poll(&mut self, registry: &SessionRegistry, emits: Vec<OutboundEvent>) -> (step: TailStep)
        requires
            old(self).well_formed(),
            registry.well_formed(),
        ensures
            final(self).well_formed(),
            final(self)@ == poll(
                old(self)@,
                is_listed(registry@, old(self)@),
                emits.deep_view(),
            ).session,
            step.emits == emits,
            step.next@ == awaited(final(self)@),
    {
        if registry.follows(&self.endpoint, &self.path) {
            self.advance(TailState::Streaming, emits)
        } else {
            self.advance(TailState::Draining(TerminationReason::Cancelled), emits)
        }
    }

    fn terminate(
        &mut self,
        registry: &mut SessionRegistry,
        reason: TerminationReason,
        last: OutboundEvent,
    ) -> (step: TailStep)
        requires
            old(self).well_formed(),
            old(registry).well_formed(),
        ensures
            final(self).well_formed(),
            final(registry).well_formed(),
            final(self)@ == moved(old(self)@, TailState::Terminated(reason)),
            final(registry)@ == table_after(old(registry)@, old(self)@, true),
            step.emits.deep_view() == seq![last@],
            step.next@ == TailCommandView::Stop,
    {
        let _ = registry.release(&self.endpoint, &self.path);
        self.state = TailState::Terminated(reason);
        let mut emits: Vec<OutboundEvent> = Vec::new();
        emits.push(last);
        assert(emits.deep_view() =~= seq![last@]);
        TailStep { emits, next: TailCommand::Stop }
    }

    fn setup_failed(&mut self, registry: &mut SessionRegistry, step: SetupStep, detail: &String)
        -> (answer: TailStep)
        requires
            old(self).well_formed(),
            old(registry).well_formed(),
        ensures
            final(self).well_formed(),
            final(registry).well_formed(),
            final(self)@ == setup_failed(old(self)@, step, detail@).session,
            final(registry)@ == table_after(old(registry)@, old(self)@, true),
            answer.emits.deep_view() == setup_failed(old(self)@, step, detail@).emits,
            answer.next@ == TailCommandView::Stop,
    {
        let failure = setup_failure(step, detail.as_str());
        let last = OutboundEvent::Error {
            message: failure.message,
            path: Some(self.path.clone()),
        };
        self.terminate(registry, TerminationReason::Failed(failure.kind), last)
    }

    fn idle(&self) -> (step: TailStep)
        ensures
            step.emits.deep_view() == Seq::<OutboundEventView>::empty(),
            step.next@ == TailCommandView::Sleep(POLL_INTERVAL_MS),
    {
        let emits: Vec<OutboundEvent> = Vec::new();
        assert(emits.deep_view() =~= Seq::<OutboundEventView>::empty());
        TailStep { emits, next: TailCommand::Sleep(POLL_INTERVAL_MS) }
    }

    fn ignore(&self) -> (step: TailStep)
        ensures
            step.emits.deep_view() == Seq::<OutboundEventView>::empty(),
            step.next@ == awaited(self@),
    {
        let emits: Vec<OutboundEvent> = Vec::new();
        assert(emits.deep_view() =~= Seq::<OutboundEventView>::empty());
        TailStep { emits, next: self.awaited_command() }
    }

    fn after_read(&mut self, registry: &SessionRegistry, outcome: ReadOutcome, now: u64) -> (step:
        TailStep)
        requires
            old(self).well_formed(),
            registry.well_formed(),
        ensures
            final(self).well_formed(),
            ({
                let model = after_read(old(self)@, is_listed(registry@, old(self)@), outcome, now);
                &&& final(self)@ == model.session
                &&& step.emits.deep_view() == model.emits
                &&& step.next@ == model.next
            }),
    {
        match outcome {
            ReadOutcome::Bytes { data, at_eof } => {
                if data.len() > 0 {
                    let lines = self.reassembler.feed(data.as_slice());
                    let emits = emit_lines(&lines, &self.path, now);
                    self.poll(registry, emits)
                } else if at_eof {
                    let emits: Vec<OutboundEvent> = Vec::new();
                    assert(emits.deep_view() =~= Seq::<OutboundEventView>::empty());
                    self.advance(TailState::Draining(TerminationReason::Eof), emits)
                } else {
                    self.idle()
                }
            },
            ReadOutcome::WouldBlock => self.idle(),
            ReadOutcome::Failed(detail) => {
                let message = prefixed("读取远程日志失败: ", detail.as_str());
                let mut emits: Vec<OutboundEvent> = Vec::new();
                emits.push(
                    OutboundEvent::Data(
                        LogStreamData {
                            content: String::new(),
                            is_complete: true,
                            source: Some(self.path.clone()),
                            error: Some(message.clone()),
                            timestamp: now,
                        },
                    ),
                );
                emits.push(OutboundEvent::Error { message, path: Some(self.path.clone()) });
                assert(emits.deep_view() =~= seq![
                    OutboundEventView::Data(
                        closing_record(stream_read_prefix() + detail@, self.path@, now),
                    ),
                    OutboundEventView::Error {
                        message: stream_read_prefix() + detail@,
                        path: Some(self.path@),
                    },
                ]);
                self.advance(
                    TailState::Draining(TerminationReason::Failed(ErrorKind::ReadFailed)),
                    emits,
                )
            },
        }
    }

    /// Takes the outcome of the last command and answers with the events to
    /// emit and the next command, as `step_model` says. When the session
    /// ends, it lets go of its own registry entry; otherwise the registry
    /// is only read.
    pub fn step(&mut self, registry: &mut SessionRegistry, event: TailEvent) -> (answer: TailStep)
        requires
            old(self).well_formed(),
            old(registry).well_formed(),
        ensures
            final(self).well_formed(),
            final(registry).well_formed(),
            ({
                let model = step_model(old(self)@, is_listed(old(registry)@, old(self)@), event);
                &&& final(self)@ == model.session
                &&& answer.emits.deep_view() == model.emits
                &&& answer.next@ == model.next
                &&& final(registry)@ == table_after(old(registry)@, old(self)@, model.unlists)
            }),
    {
        match self.state {
            TailState::Connecting => match event {
                TailEvent::TransportReady => {
                    let emits: Vec<OutboundEvent> = Vec::new();
                    assert(emits.deep_view() =~= Seq::<OutboundEventView>::empty());
                    self.advance(TailState::Authenticating, emits)
                },
                TailEvent::SetupFailed { step, detail } => self.setup_failed(
                    registry,
                    step,
                    &detail,
                ),
                _ => self.ignore(),
            },
            TailState::Authenticating => match event {
                TailEvent::Authenticated => {
                    let emits: Vec<OutboundEvent> = Vec::new();
                    assert(emits.deep_view() =~= Seq::<OutboundEventView>::empty());
                    self.advance(TailState::Executing, emits)
                },
                TailEvent::SetupFailed { step, detail } => self.setup_failed(
                    registry,
                    step,
                    &detail,
                ),
                _ => self.ignore(),
            },
            TailState::Executing => match event {
                TailEvent::CommandStarted => {
                    let mut emits: Vec<OutboundEvent> = Vec::new();
                    emits.push(OutboundEvent::Connected(self.path.clone()));
                    assert(emits.deep_view() =~= seq![OutboundEventView::Connected(self.path@)]);
                    self.poll(registry, emits)
                },
                TailEvent::SetupFailed { step, detail } => self.setup_failed(
                    registry,
                    step,
                    &detail,
                ),
                _ => self.ignore(),
            },
            TailState::Streaming => match event {
                TailEvent::Read { outcome, now } => self.after_read(registry, outcome, now),
                _ => {
                    let emits: Vec<OutboundEvent> = Vec::new();
                    assert(emits.deep_view() =~= Seq::<OutboundEventView>::empty());
                    self.poll(registry, emits)
                },
            },
            TailState::Draining(reason) => match event {
                TailEvent::Closed => {
                    let last = OutboundEvent::Disconnected(self.path.clone());
                    self.terminate(registry, reason, last)
                },
                _ => self.ignore(),
            },
            TailState::Terminated(_) => self.ignore(),
        }
    }
}

/// Whether an event carries a line of the followed file.
pub open spec fn is_line(event: OutboundEventView) -> bool {
    event matches OutboundEventView::Data(record) && !record.is_complete
}

/// Whether the loop of a session has ended.
pub open spec fn loop_ended(state: TailState) -> bool {
    state is Draining || state is Terminated
}

/// Cancellation is prompt. A streaming session whose endpoint is no longer
/// listed leaves the loop on its next event, unless that event is an idle
/// read: then it emits nothing, sleeps one poll interval, and leaves the
/// loop as cancelled when it wakes.
pub proof fn lemma_cancellation_is_prompt(session: TailModel, event: TailEvent)
    requires
        session.state == TailState::Streaming,
    ensures
        ({
            let first = step_model(session, false, event);
            let second = step_model(first.session, false, TailEvent::Woke);
            ||| loop_ended(first.session.state)
            ||| {
                &&& first.emits.len() == 0
                &&& first.next == TailCommandView::Sleep(POLL_INTERVAL_MS)
                &&& second.session.state == TailState::Draining(TerminationReason::Cancelled)
                &&& second.emits.len() == 0
                &&& second.next == TailCommandView::Close
            }
        }),
        step_model(session, false, TailEvent::Woke).session.state == TailState::Draining(
            TerminationReason::Cancelled,
        ),
        step_model(session, false, TailEvent::Woke).emits.len() == 0,
{
}

/// A cancelled session ends with exactly one event, the disconnection of
/// its path, and lets go of its registry entry.
pub proof fn lemma_cancelled_session_disconnects(session: TailModel, listed: bool)
    requires
        session.state == TailState::Draining(TerminationReason::Cancelled),
    ensures
        step_model(session, listed, TailEvent::Closed).session.state == TailState::Terminated(
            TerminationReason::Cancelled,
        ),
        step_model(session, listed, TailEvent::Closed).emits == seq![
            OutboundEventView::Disconnected(session.path),
        ],
        step_model(session, listed, TailEvent::Closed).unlists,
{
}

/// Once the loop of a session has ended it stays ended, and no step emits
/// a line or any other data event.
pub proof fn lemma_no_lines_after_the_loop(session: TailModel, listed: bool, event: TailEvent)
    requires
        loop_ended(session.state),
    ensures
        loop_ended(step_model(session, listed, event).session.state),
        forall|i: int|
            0 <= i < step_model(session, listed, event).emits.len() ==> !(#[trigger] step_model(
                session,
                listed,
                event,
            ).emits[i] is Data),
{
}

/// Within one step the lines come first: no line is emitted after an event
/// that is not a line. Lines are emitted only while streaming.
pub proof fn lemma_lines_come_first(session: TailModel, listed: bool, event: TailEvent)
    ensures
        forall|i: int, j: int|
            0 <= i < j < step_model(session, listed, event).emits.len() && is_line(
                #[trigger] step_model(session, listed, event).emits[j],
            ) ==> is_line(#[trigger] step_model(session, listed, event).emits[i]),
        session.state != TailState::Streaming ==> forall|i: int|
            0 <= i < step_model(session, listed, event).emits.len() ==> !is_line(
                #[trigger] step_model(session, listed, event).emits[i],
            ),
{
}

/// Every session ends with one signal. The step that ends a session emits
/// exactly one event, an error when setup failed and a disconnection
/// otherwise, and lets go of the session's registry entry; no other step
/// touches the registry, and a session that is over emits nothing.
pub proof fn lemma_one_closing_signal(session: TailModel, listed: bool, event: TailEvent)
    ensures
        ({
            let answer = step_model(session, listed, event);
            &&& answer.unlists <==> (!(session.state is Terminated)
                && answer.session.state is Terminated)
            &&& answer.unlists ==> {
                &&& answer.emits.len() == 1
                &&& answer.next == TailCommandView::Stop
                &&& if session.state is Draining {
                    answer.emits[0] == OutboundEventView::Disconnected(session.path)
                } else {
                    answer.emits[0] is Error
                }
            }
            &&& session.state is Terminated ==> answer.emits.len() == 0 && answer.session
                == session
            &&& answer.session.endpoint == session.endpoint
            &&& answer.session.path == session.path
        }),
{
}

/// The reason with which a state has left the loop, if it has.
pub open spec fn ending(state: TailState) -> Option<TerminationReason> {
    match state {
        TailState::Draining(reason) => Some(reason),
        TailState::Terminated(reason) => Some(reason),
        _ => None,
    }
}

/// A read that had nothing to deliver is never surfaced: it ends no
/// session and emits nothing. The only failures that end a session are
/// those of a setup step and a read that failed for another reason.
pub proof fn lemma_would_block_is_absorbed(session: TailModel, listed: bool, event: TailEvent)
    ensures
        ({
            let answer = step_model(session, listed, event);
            &&& (session.state == TailState::Streaming
                && event matches TailEvent::Read { outcome: ReadOutcome::WouldBlock, .. })
                ==> answer == idle(session)
            &&& forall|kind: ErrorKind|
                ending(session.state) is None && ending(answer.session.state) == Some(
                    TerminationReason::Failed(kind),
                ) ==> match event {
                    TailEvent::SetupFailed { step, .. } => kind == step_kind(step),
                    _ => kind == ErrorKind::ReadFailed,
                }
        }),
{
}

/// Eviction stops the evicted. Once a later session is listed at the
/// endpoint of a streaming session, with another path, the earlier session
/// is no longer listed: its next poll cycle finds it cancelled. No step of
/// the earlier session changes the entry of the later one, so the endpoint
/// keeps exactly the later session.
pub proof fn lemma_eviction_stops_the_evicted(
    table: Map<(Seq<char>, u16), Seq<char>>,
    session: TailModel,
    later: Seq<char>,
    event: TailEvent,
)
    requires
        session.state == TailState::Streaming,
        later != session.path,
    ensures
        ({
            let evicted = table.insert(session.endpoint, later);
            let seen = step_model(session, is_listed(evicted, session), TailEvent::Woke);
            let any = step_model(session, is_listed(evicted, session), event);
            &&& !is_listed(evicted, session)
            &&& seen.session.state == TailState::Draining(TerminationReason::Cancelled)
            &&& seen.next == TailCommandView::Close
            &&& table_after(evicted, session, any.unlists) == evicted
            &&& table_after(evicted, session, true).contains_pair(session.endpoint, later)
        }),
{
}

} // verus!
