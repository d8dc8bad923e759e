//! Kinds of failure and the messages that report them.

use vstd::prelude::*;
use vstd::string::*;

verus! {

/// Why an operation did not succeed, or why a session ended.
#[derive(Clone, Copy, Debug, PartialEq, Eq, Structural)]
pub enum ErrorKind {
    /// No route to the server, or the connection was refused or timed out.
    Unreachable,
    /// The protocol negotiation on an open stream failed.
    HandshakeFailed,
    /// The server rejected the credentials.
    AuthRejected,
    /// The remote side could not start the command.
    CommandRejected,
    /// A non-blocking read had nothing to deliver. Absorbed by the tail
    /// loop; never reported.
    TransientWouldBlock,
    /// A full snapshot held bytes that are not UTF-8 text.
    DecodeError,
    /// A cooperative stop was observed.
    Cancelled,
    /// The remote command ended and its channel closed.
    Eof,
    /// A read failed for a reason other than having nothing to deliver.
    ReadFailed,
}

/// The steps of setting up a remote command, in the order they are taken.
#[derive(Clone, Copy, Debug, PartialEq, Eq, Structural)]
pub enum SetupStep {
    /// Opening the network stream to the endpoint.
    OpenStream,
    /// Allocating the protocol session.
    CreateSession,
    /// Negotiating the protocol on the stream.
    Handshake,
    /// Presenting the credentials.
    Authenticate,
    /// Opening a command channel on the authenticated session.
    OpenChannel,
    /// Starting the remote command on the channel.
    StartCommand,
}

/// A failure with its kind and a message for the user.
#[derive(Clone, Debug, PartialEq, Eq)]
pub struct Failure {
    pub kind: ErrorKind,
    pub message: String,
}

/// What a failure is in contracts: its kind and the text of its message.
pub struct FailureView {
    pub kind: ErrorKind,
    pub message: Seq<char>,
}

impl View for Failure {
    type V = FailureView;

    open spec fn view(&self) -> FailureView {
        FailureView { kind: self.kind, message: self.message@ }
    }
}

impl DeepView for Failure {
    type V = FailureView;

    open spec fn deep_view(&self) -> FailureView {
        self@
    }
}

/// The kind reported when `step` fails.
pub open spec fn step_kind(step: SetupStep) -> ErrorKind {
    match step {
        SetupStep::OpenStream => ErrorKind::Unreachable,
        SetupStep::CreateSession => ErrorKind::HandshakeFailed,
        SetupStep::Handshake => ErrorKind::HandshakeFailed,
        SetupStep::Authenticate => ErrorKind::AuthRejected,
        SetupStep::OpenChannel => ErrorKind::CommandRejected,
        SetupStep::StartCommand => ErrorKind::CommandRejected,
    }
}

/// The words that open the message when `step` fails.
pub open spec fn step_prefix(step: SetupStep) -> Seq<char> {
    match step {
        SetupStep::OpenStream => "无法连接到服务器: "@,
        SetupStep::CreateSession => "创建SSH会话失败: "@,
        SetupStep::Handshake => "SSH握手失败: "@,
        SetupStep::Authenticate => "SSH认证失败: "@,
        SetupStep::OpenChannel => "无法创建SSH通道: "@,
        SetupStep::StartCommand => "执行命令失败: "@,
    }
}

/// The failure reported when a setup step fails.
pub open spec fn setup_failure_of(step: SetupStep, detail: Seq<char>) -> FailureView {
    FailureView { kind: step_kind(step), message: step_prefix(step) + detail }
}

/// The words that open the message when a streaming read fails.
pub open spec fn stream_read_prefix() -> Seq<char> {
    "读取远程日志失败: "@
}

/// The words that open the message when a one-shot read fails.
pub open spec fn snapshot_read_prefix() -> Seq<char> {
    "读取日志内容失败: "@
}

/// The words that open the message when a snapshot is not text.
pub open spec fn snapshot_decode_prefix() -> Seq<char> {
    "解析日志内容失败: "@
}

/// `prefix` followed by `detail`, as an owned string.
pub fn prefixed(prefix: &str, detail: &str) -> (message: String)
    ensures
        message@ == prefix@ + detail@,
{
    let mut message = String::from_str(prefix);
    message.append(detail);
    message
}

/// Builds the failure for a setup step that did not succeed. `detail` is the
/// transport's own description of what went wrong.
pub fn setup_failure(step: SetupStep, detail: &str) -> (failure: Failure)
    ensures
        failure@ == setup_failure_of(step, detail@),
{
    match step {
        SetupStep::OpenStream => Failure {
            kind: ErrorKind::Unreachable,
            message: prefixed("无法连接到服务器: ", detail),
        },
        SetupStep::CreateSession => Failure {
            kind: ErrorKind::HandshakeFailed,
            message: prefixed("创建SSH会话失败: ", detail),
        },
        SetupStep::Handshake => Failure {
            kind: ErrorKind::HandshakeFailed,
            message: prefixed("SSH握手失败: ", detail),
        },
        SetupStep::Authenticate => Failure {
            kind: ErrorKind::AuthRejected,
            message: prefixed("SSH认证失败: ", detail),
        },
        SetupStep::OpenChannel => Failure {
            kind: ErrorKind::CommandRejected,
            message: prefixed("无法创建SSH通道: ", detail),
        },
        SetupStep::StartCommand => Failure {
            kind: ErrorKind::CommandRejected,
            message: prefixed("执行命令失败: ", detail),
        },
    }
}

/// The words that open the message when a connection test fails at `step`.
/// A server that cannot be reached has a message of its own there.
pub open spec fn connect_test_prefix(step: SetupStep) -> Seq<char> {
    match step {
        SetupStep::OpenStream => "连接失败: "@,
        _ => step_prefix(step),
    }
}

/// The failure reported when a connection test fails at `step`.
pub open spec fn connect_test_failure_of(step: SetupStep, detail: Seq<char>) -> FailureView {
    FailureView { kind: step_kind(step), message: connect_test_prefix(step) + detail }
}

/// Builds the failure of a connection test. The kind is that of the step,
/// as for any setup.
pub fn connect_test_failure(step: SetupStep, detail: &str) -> (failure: Failure)
    ensures
        failure@ == connect_test_failure_of(step, detail@),
{
    match step {
        SetupStep::OpenStream => Failure {
            kind: ErrorKind::Unreachable,
            message: prefixed("连接失败: ", detail),
        },
        _ => setup_failure(step, detail),
    }
}

} // verus!
