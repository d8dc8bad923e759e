//! Requests that act on a running session.

use vstd::prelude::*;
use vstd::string::*;
use crate::endpoint::Endpoint;
use crate::events::{OutboundEvent, OutboundEventView};
use crate::registry::{is_followed, without_path, SessionRegistry};
use crate::tail::{
    is_listed,
    step_model,
    table_after,
    TailCommandView,
    TailEvent,
    TailModel,
    TailState,
    TerminationReason,
};
use crate::text::{decimal_of, decimal_text};

verus! {

/// The message of a stop request that finds no session at the endpoint.
pub open spec fn not_active_message(endpoint: (Seq<char>, u16)) -> Seq<char> {
    "未找到服务器 "@ + endpoint.0 + ":"@ + decimal_of(endpoint.1 as nat) + " 的活跃连接"@
}

/// What a stop request at `endpoint` answers, given the path listed there.
pub open spec fn stop_answer(endpoint: (Seq<char>, u16), listed: Option<Seq<char>>) -> Result<
    Seq<OutboundEventView>,
    Seq<char>,
> {
    match listed {
        Some(path) => Ok(seq![OutboundEventView::MonitorStopped(path)]),
        None => Err(not_active_message(endpoint)),
    }
}

/// Asks the session at `endpoint` to stop by taking it off the registry.
///
/// The request only changes the registry: the session's own loop sees on
/// its next poll cycle that it is no longer listed, stops, and reports the
/// disconnection itself. The answer is the acknowledgement to emit, or a
/// message if no session is listed for the endpoint.
pub fn stop_tail(registry: &mut SessionRegistry, endpoint: &Endpoint) -> (answer: Result<
    Vec<OutboundEvent>,
    String,
>)
    requires
        old(registry).well_formed(),
    ensures
        final(registry).well_formed(),
        final(registry)@ == old(registry)@.remove(endpoint@),
        match stop_answer(endpoint@, old(registry)@.get(endpoint@)) {
            Ok(events) => answer matches Ok(emits) && emits.deep_view() == events,
            Err(message) => answer matches Err(text) && text@ == message,
        },
{
    match registry.unregister(endpoint) {
        Some(path) => {
            let ghost shown = path@;
            let mut emits: Vec<OutboundEvent> = Vec::new();
            emits.push(OutboundEvent::MonitorStopped(path));
            assert(emits.deep_view() =~= seq![OutboundEventView::MonitorStopped(shown)]);
            Ok(emits)
        },
        None => {
            let mut message = String::from_str("未找到服务器 ");
            message.append(endpoint.host.as_str());
            message.append(":");
            let port = decimal_text(endpoint.port);
            message.append(port.as_str());
            message.append(" 的活跃连接");
            Err(message)
        },
    }
}

/// A stop request ends the session it is aimed at with a single
/// disconnection. Once the endpoint of a streaming session is taken off the
/// table, the session's next poll cycle finds it cancelled and emits
/// nothing; when its channel is closed it emits the disconnection of its
/// path, and that is its only closing event. The endpoint is not listed
/// afterwards.
pub proof fn lemma_stop_ends_the_session(
    listed: Map<(Seq<char>, u16), Seq<char>>,
    session: TailModel,
)
    requires
        session.state == TailState::Streaming,
        listed.contains_pair(session.endpoint, session.path),
    ensures
        ({
            let stopped = listed.remove(session.endpoint);
            let seen = step_model(session, is_listed(stopped, session), TailEvent::Woke);
            let closed = step_model(seen.session, is_listed(stopped, session), TailEvent::Closed);
            &&& stop_answer(session.endpoint, listed.get(session.endpoint)) == Ok::<
                Seq<OutboundEventView>,
                Seq<char>,
            >(seq![OutboundEventView::MonitorStopped(session.path)])
            &&& seen.emits.len() == 0
            &&& seen.next == TailCommandView::Close
            &&& seen.session.state == TailState::Draining(TerminationReason::Cancelled)
            &&& closed.emits == seq![OutboundEventView::Disconnected(session.path)]
            &&& closed.session.state == TailState::Terminated(TerminationReason::Cancelled)
            &&& closed.unlists
            &&& !table_after(stopped, session, closed.unlists).contains_key(session.endpoint)
        }),
{
}

/// The message of a stop request that finds no session following the path.
pub open spec fn not_followed_message(path: Seq<char>) -> Seq<char> {
    "未找到日志 "@ + path + " 的活跃连接"@
}

/// What a stop request for `path` answers, given whether a session follows
/// it.
pub open spec fn stop_path_answer(path: Seq<char>, followed: bool) -> Result<
    Seq<OutboundEventView>,
    Seq<char>,
> {
    if followed {
        Ok(seq![OutboundEventView::MonitorStopped(path)])
    } else {
        Err(not_followed_message(path))
    }
}

/// Asks every session that follows `path` to stop by taking it off the
/// registry, at whatever endpoint it runs. As with a stop by endpoint, the
/// loops see the change on their next poll cycle and report their own
/// disconnection. The answer is the acknowledgement to emit, or a message
/// if no session follows the path.
pub fn stop_tail_by_path(registry: &mut SessionRegistry, path: &String) -> (answer: Result<
    Vec<OutboundEvent>,
    String,
>)
    requires
        old(registry).well_formed(),
    ensures
        final(registry).well_formed(),
        final(registry)@ == without_path(old(registry)@, path@),
        match stop_path_answer(path@, is_followed(old(registry)@, path@)) {
            Ok(events) => answer matches Ok(emits) && emits.deep_view() == events,
            Err(message) => answer matches Err(text) && text@ == message,
        },
{
    if registry.unregister_path(path) {
        let mut emits: Vec<OutboundEvent> = Vec::new();
        emits.push(OutboundEvent::MonitorStopped(path.clone()));
        assert(emits.deep_view() =~= seq![OutboundEventView::MonitorStopped(path@)]);
        Ok(emits)
    } else {
        let mut message = String::from_str("未找到日志 ");
        message.append(path.as_str());
        message.append(" 的活跃连接");
        Err(message)
    }
}

} // verus!
