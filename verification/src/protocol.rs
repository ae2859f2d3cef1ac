//! What travels between the daemon and its clients, and the decisions of
//! the daemon about one connection.

use vstd::prelude::*;
use vstd::string::*;
use crate::config::{validate_config, validation_error, Config, ConfigView, RunMode};
use crate::decimal::{decimal, decimal_string};
use crate::stats::{stats_view, AnalyzeMetrics, SourceStats, SourceStatsView};
use crate::text::{clone_optional, trim, trimmed};

verus! {

/// How many connections the daemon serves at a time.
pub const MAX_ACTIVE_CLIENTS: usize = 64;

/// The answer to a request for an analysis.
#[derive(Debug)]
pub struct AnalyzeResponse {
    pub metrics: AnalyzeMetrics,
    /// The sources in ranked order.
    pub suspects: Vec<SourceStats>,
    /// How many of them the request wants shown.
    pub top: usize,
}

/// The answer to a request for an analysis, as contracts see it.
pub ghost struct AnalyzeResponseView {
    pub metrics: AnalyzeMetrics,
    pub suspects: Seq<SourceStatsView>,
    pub top: usize,
}

impl View for AnalyzeResponse {
    type V = AnalyzeResponseView;

    open spec fn view(&self) -> AnalyzeResponseView {
        AnalyzeResponseView {
            metrics: self.metrics,
            suspects: stats_view(self.suspects@),
            top: self.top,
        }
    }
}

/// One message of the answer to a request for a stream.
#[derive(Debug)]
pub struct StreamLine {
    pub line: String,
    /// Whether this message ends the stream.
    pub done: bool,
    pub error: Option<String>,
}

/// A message of a stream, as contracts see it.
pub ghost struct StreamLineView {
    pub line: Seq<char>,
    pub done: bool,
    pub error: Option<Seq<char>>,
}

impl View for StreamLine {
    type V = StreamLineView;

    open spec fn view(&self) -> StreamLineView {
        StreamLineView { line: self.line@, done: self.done, error: self.error.deep_view() }
    }
}

impl Clone for StreamLine {
    fn clone(&self) -> (r: StreamLine)
        ensures
            r@ == self@,
    {
        StreamLine {
            line: self.line.clone(),
            done: self.done,
            error: clone_optional(&self.error),
        }
    }
}

/// The answer that reports a failure where a report was asked for, or
/// where the request is not known yet.
#[derive(Debug)]
pub struct ErrorResponse {
    pub error: String,
}

impl View for ErrorResponse {
    type V = Seq<char>;

    open spec fn view(&self) -> Seq<char> {
        self.error@
    }
}

impl Clone for ErrorResponse {
    fn clone(&self) -> (r: ErrorResponse)
        ensures
            r@ == self@,
    {
        ErrorResponse { error: self.error.clone() }
    }
}

/// The message that ends a stream with a failure.
pub open spec fn failed_stream(message: Seq<char>) -> StreamLineView {
    StreamLineView { line: Seq::empty(), done: true, error: Some(message) }
}

/// The message that ends a stream that ran to its end.
pub open spec fn finished_stream() -> StreamLineView {
    StreamLineView { line: Seq::empty(), done: true, error: None }
}

/// The message that carries one line of a stream.
pub open spec fn stream_data(line: Seq<char>) -> StreamLineView {
    StreamLineView { line, done: false, error: None }
}

/// The message that ends a stream with a failure.
pub fn stream_error_line(message: String) -> (r: StreamLine)
    ensures
        r@ == failed_stream(message@),
{
    StreamLine { line: String::new(), done: true, error: Some(message) }
}

/// The answer that reports a failure of the daemon.
pub fn daemon_error(message: String) -> (r: ErrorResponse)
    ensures
        r@ == message@,
{
    ErrorResponse { error: message }
}

/// A failure in the shape that the client expects.
#[derive(Debug)]
pub enum ErrorReply {
    Plain(ErrorResponse),
    Stream(StreamLine),
}

/// A failure in its shape, as contracts see it.
pub ghost enum ErrorReplyView {
    Plain(Seq<char>),
    Stream(StreamLineView),
}

impl View for ErrorReply {
    type V = ErrorReplyView;

    open spec fn view(&self) -> ErrorReplyView {
        match self {
            ErrorReply::Plain(e) => ErrorReplyView::Plain(e@),
            ErrorReply::Stream(line) => ErrorReplyView::Stream(line@),
        }
    }
}

/// The shape of a failure: for a stream, a last message of the stream
/// that carries it; for an analysis, and where the mode is not known
/// yet, the plain error.
pub open spec fn error_shape(mode: Option<RunMode>, message: Seq<char>) -> ErrorReplyView {
    match mode {
        Some(RunMode::Stream) => ErrorReplyView::Stream(failed_stream(message)),
        _ => ErrorReplyView::Plain(message),
    }
}

/// Puts a failure into the shape that the client of a request in `mode`
/// expects.
pub fn error_reply(mode: Option<RunMode>, message: &str) -> (r: ErrorReply)
    ensures
        r@ == error_shape(mode, message@),
{
    match mode {
        Some(RunMode::Stream) => ErrorReply::Stream(stream_error_line(String::from_str(message))),
        _ => ErrorReply::Plain(daemon_error(String::from_str(message))),
    }
}

/// What the daemon tells a client that it has no room for.
pub open spec fn busy_message() -> Seq<char> {
    "守护进程繁忙：当前并发请求已达到上限 "@ + decimal(MAX_ACTIVE_CLIENTS as nat)
}

/// Decides on a connection that arrived when `active` others were being
/// served: it is turned away, with the answer to send, where the daemon
/// serves as many as it may; else it is let in.
pub fn admission(active: usize) -> (r: Option<ErrorResponse>)
    ensures
        r is Some <==> active >= MAX_ACTIVE_CLIENTS,
        r matches Some(busy) ==> busy@ == busy_message(),
{
    if active >= MAX_ACTIVE_CLIENTS {
        let message = String::from_str("守护进程繁忙：当前并发请求已达到上限 ").concat(
            decimal_string(MAX_ACTIVE_CLIENTS as u64).as_str(),
        );
        Some(daemon_error(message))
    } else {
        None
    }
}

/// The JSON text of a request line; nothing for a line that holds only
/// white space, which the daemon passes over in silence.
pub open spec fn request_text(line: Seq<char>) -> Option<Seq<char>> {
    if trim(line).len() == 0 {
        None
    } else {
        Some(trim(line))
    }
}

/// Takes the JSON text out of the line that a client sent.
pub fn request_of_line(line: &str) -> (r: Option<String>)
    ensures
        r.deep_view() == request_text(line@),
{
    let text = trimmed(line);
    if text.as_str().unicode_len() == 0 {
        None
    } else {
        Some(text)
    }
}

/// What the daemon does with a request.
#[derive(Debug)]
pub enum Dispatch {
    /// Answer with the failure, then give up the connection with the
    /// message.
    Reject(ErrorReply, String),
    Analyze,
    Stream,
}

/// What the daemon does with a request, as contracts see it.
pub ghost enum DispatchView {
    Reject(ErrorReplyView, Seq<char>),
    Analyze,
    Stream,
}

impl View for Dispatch {
    type V = DispatchView;

    open spec fn view(&self) -> DispatchView {
        match self {
            Dispatch::Reject(reply, message) => DispatchView::Reject(reply@, message@),
            Dispatch::Analyze => DispatchView::Analyze,
            Dispatch::Stream => DispatchView::Stream,
        }
    }
}

/// The complaint about a request that could not be decoded.
pub open spec fn undecodable(reason: Seq<char>) -> Seq<char> {
    "解析请求 JSON 失败："@ + reason
}

/// What the daemon does with a request line that did not decode: it
/// answers in the plain shape, the mode being unknown.
pub open spec fn rejection_of_undecodable(reason: Seq<char>) -> DispatchView {
    DispatchView::Reject(ErrorReplyView::Plain(undecodable(reason)), undecodable(reason))
}

/// What the daemon does with a decoded request: a configuration that is
/// not valid is turned down in the shape of its mode; a valid one runs
/// the pipeline of its mode.
pub open spec fn dispatch_of(config: ConfigView) -> DispatchView {
    match validation_error(config) {
        Some(e) => DispatchView::Reject(error_shape(Some(config.mode), e), e),
        None => match config.mode {
            RunMode::Analyze => DispatchView::Analyze,
            RunMode::Stream => DispatchView::Stream,
        },
    }
}

/// Turns down a request line that did not decode, for the reason that
/// the decoder gave.
pub fn reject_undecodable(reason: &str) -> (r: Dispatch)
    ensures
        r@ == rejection_of_undecodable(reason@),
{
    let message = String::from_str("解析请求 JSON 失败：").concat(reason);
    Dispatch::Reject(error_reply(None, message.as_str()), message)
}

/// Decides what to do with a decoded request.
pub fn dispatch_request(config: &Config) -> (r: Dispatch)
    ensures
        r@ == dispatch_of(config@),
{
    match validate_config(config) {
        Err(e) => Dispatch::Reject(error_reply(Some(config.mode), e.as_str()), e),
        Ok(_) => match config.mode {
            RunMode::Analyze => Dispatch::Analyze,
            RunMode::Stream => Dispatch::Stream,
        },
    }
}

/// What a client does with one message of a stream.
#[derive(Debug)]
pub enum StreamStep {
    /// Give up with the message.
    Fail(String),
    /// The stream is over.
    Finish,
    /// Show the line and go on.
    Show(String),
}

/// What a client does with a message, as contracts see it.
pub ghost enum StreamStepView {
    Fail(Seq<char>),
    Finish,
    Show(Seq<char>),
}

impl View for StreamStep {
    type V = StreamStepView;

    open spec fn view(&self) -> StreamStepView {
        match self {
            StreamStep::Fail(e) => StreamStepView::Fail(e@),
            StreamStep::Finish => StreamStepView::Finish,
            StreamStep::Show(line) => StreamStepView::Show(line@),
        }
    }
}

/// What a client does with one message of a stream: a failure ends it,
/// whatever else the message says; then the end mark; else the line is
/// shown.
pub open spec fn stream_step(message: StreamLineView) -> StreamStepView {
    match message.error {
        Some(e) => StreamStepView::Fail("流式请求失败："@ + e),
        None => if message.done {
            StreamStepView::Finish
        } else {
            StreamStepView::Show(message.line)
        },
    }
}

/// Decides what a client does with one message of a stream.
pub fn stream_message_step(message: StreamLine) -> (r: StreamStep)
    ensures
        r@ == stream_step(message@),
{
    match message.error {
        Some(e) => StreamStep::Fail(String::from_str("流式请求失败：").concat(e.as_str())),
        None => if message.done {
            StreamStep::Finish
        } else {
            StreamStep::Show(message.line)
        },
    }
}

/// What a client says of an answer that is none of the kind it asked
/// for: where the answer is a plain error, what the daemon reported; else
/// that the answer cannot be read, as the mode of the request puts it.
pub open spec fn unreadable_answer(reported: Option<Seq<char>>, mode: RunMode) -> Seq<char> {
    match reported {
        Some(error) => "守护进程返回错误："@ + error,
        None => match mode {
            RunMode::Analyze => "解析响应 JSON 失败：响应格式不受支持"@,
            RunMode::Stream => "解析流消息失败：响应格式不受支持"@,
        },
    }
}

/// Words the failure of a request whose answer was none of the kind that
/// was asked for, given the plain error that the answer is, if it is one.
pub fn answer_failure(reported: Option<ErrorResponse>, mode: RunMode) -> (r: String)
    ensures
        r@ == unreadable_answer(
            match reported {
                Some(error) => Some(error@),
                None => None,
            },
            mode,
        ),
{
    match reported {
        Some(error) => String::from_str("守护进程返回错误：").concat(error.error.as_str()),
        None => match mode {
            RunMode::Analyze => String::from_str("解析响应 JSON 失败：响应格式不受支持"),
            RunMode::Stream => String::from_str("解析流消息失败：响应格式不受支持"),
        },
    }
}

} // verus!
