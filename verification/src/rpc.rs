//! Requests to the daemon, the messages that carry them, and how a request can fail.

use crate::json;
use crate::json::{Json, JsonView};
use crate::table::Key;
use crate::text;
use vstd::prelude::*;

verus! {

/// What tells one request from another.
#[derive(Debug)]
pub enum RpcId {
    Number(u64),
    Text(String),
}

/// What an [`RpcId`] means.
pub enum RpcIdView {
    Number(u64),
    Text(Seq<char>),
}

impl View for RpcId {
    type V = RpcIdView;

    open spec fn view(&self) -> RpcIdView {
        match self {
            RpcId::Number(n) => RpcIdView::Number(*n),
            RpcId::Text(text) => RpcIdView::Text(text@),
        }
    }
}

impl Key for RpcId {
    type Form = RpcIdView;

    open spec fn form(&self) -> RpcIdView {
        self@
    }

    fn same(&self, other: &RpcId) -> (yes: bool) {
        match (self, other) {
            (RpcId::Number(left), RpcId::Number(right)) => *left == *right,
            (RpcId::Text(left), RpcId::Text(right)) => text::same(left.as_str(), right.as_str()),
            _ => false,
        }
    }
}

impl Clone for RpcId {
    fn clone(&self) -> (copy: Self)
        ensures
            copy == *self,
    {
        match self {
            RpcId::Number(n) => RpcId::Number(*n),
            RpcId::Text(text) => RpcId::Text(text.clone()),
        }
    }
}

/// The text that `str` has in debug output: in quotes, with some characters escaped.
pub uninterp spec fn quoted_text(text: Seq<char>) -> Seq<char>;

/// The `Debug` output of a `str`, as a function of the text alone.
#[verifier::external_body]
pub(crate) fn quoted(text: &str) -> (shown: String)
    ensures
        shown@ == quoted_text(text@),
{
    format!("{:?}", text)
}

/// How an identifier is shown to a developer.
pub open spec fn shown_id(id: RpcIdView) -> Seq<char> {
    match id {
        RpcIdView::Number(n) => "Number("@ + text::decimal(n as nat) + ")"@,
        RpcIdView::Text(text) => "Text("@ + quoted_text(text) + ")"@,
    }
}

impl RpcId {
    /// How this identifier is shown to a developer.
    pub fn shown(&self) -> (words: String)
        ensures
            words@ == shown_id(self@),
    {
        match self {
            RpcId::Number(n) => {
                let open = text::joined("Number(", text::decimal_text(*n).as_str());
                text::joined(open.as_str(), ")")
            },
            RpcId::Text(text) => {
                let open = text::joined("Text(", quoted(text.as_str()).as_str());
                text::joined(open.as_str(), ")")
            },
        }
    }
}

/// Why a request has no result.
#[derive(Debug)]
pub enum RequestError {
    /// The request was never written: it can be made again.
    NotWritten(String),
    /// The request was written, and the connection ended before the answer.
    WrittenOutcomeUnknown { id: RpcId, method: String, detail: String },
    /// The daemon answered with an error.
    Rejected { method: String, error: Json },
    /// No answer came in time.
    TimedOut { method: String },
    /// The transport no longer runs.
    Closed,
}

/// What a [`RequestError`] means.
pub enum RequestErrorView {
    NotWritten(Seq<char>),
    WrittenOutcomeUnknown { id: RpcIdView, method: Seq<char>, detail: Seq<char> },
    Rejected { method: Seq<char>, error: JsonView },
    TimedOut { method: Seq<char> },
    Closed,
}

impl View for RequestError {
    type V = RequestErrorView;

    open spec fn view(&self) -> RequestErrorView {
        match self {
            RequestError::NotWritten(detail) => RequestErrorView::NotWritten(detail@),
            RequestError::WrittenOutcomeUnknown { id, method, detail } => {
                RequestErrorView::WrittenOutcomeUnknown {
                    id: id@,
                    method: method@,
                    detail: detail@,
                }
            },
            RequestError::Rejected { method, error } => RequestErrorView::Rejected {
                method: method@,
                error: error@,
            },
            RequestError::TimedOut { method } => RequestErrorView::TimedOut { method: method@ },
            RequestError::Closed => RequestErrorView::Closed,
        }
    }
}

/// The words of a request's failure.
pub open spec fn failure_words(error: RequestErrorView) -> Seq<char> {
    match error {
        RequestErrorView::NotWritten(detail) => "request was not written: "@ + detail,
        RequestErrorView::WrittenOutcomeUnknown { id, method, detail } => "request "@ + method
            + " ("@ + shown_id(id) + ") was written but its outcome is unknown: "@ + detail,
        RequestErrorView::Rejected { method, error } => "request "@ + method + " was rejected: "@
            + json::text_of_json(error),
        RequestErrorView::TimedOut { method } => {
            "request timed out after it may have been written: "@ + method
        },
        RequestErrorView::Closed => "transport is shut down"@,
    }
}

impl RequestError {
    /// The words of this failure.
    pub fn message(&self) -> (words: String)
        ensures
            words@ == failure_words(self@),
    {
        match self {
            RequestError::NotWritten(detail) => {
                text::joined("request was not written: ", detail.as_str())
            },
            RequestError::WrittenOutcomeUnknown { id, method, detail } => {
                let mut words = text::joined("request ", method.as_str());
                words.append(" (");
                words.append(id.shown().as_str());
                words.append(") was written but its outcome is unknown: ");
                words.append(detail.as_str());
                words
            },
            RequestError::Rejected { method, error } => {
                let mut words = text::joined("request ", method.as_str());
                words.append(" was rejected: ");
                words.append(error.to_text().as_str());
                words
            },
            RequestError::TimedOut { method } => text::joined(
                "request timed out after it may have been written: ",
                method.as_str(),
            ),
            RequestError::Closed => "transport is shut down".to_owned(),
        }
    }
}

impl Clone for RequestError {
    fn clone(&self) -> (copy: Self)
        ensures
            copy@ == self@,
    {
        match self {
            RequestError::NotWritten(detail) => RequestError::NotWritten(detail.clone()),
            RequestError::WrittenOutcomeUnknown { id, method, detail } => {
                RequestError::WrittenOutcomeUnknown {
                    id: id.clone(),
                    method: method.clone(),
                    detail: detail.clone(),
                }
            },
            RequestError::Rejected { method, error } => RequestError::Rejected {
                method: method.clone(),
                error: error.clone(),
            },
            RequestError::TimedOut { method } => RequestError::TimedOut { method: method.clone() },
            RequestError::Closed => RequestError::Closed,
        }
    }
}

/// What a request came to.
pub type Reply = Result<Json, RequestError>;

/// What a [`Reply`] means.
pub open spec fn reply_view(reply: Reply) -> Result<JsonView, RequestErrorView> {
    match reply {
        Ok(result) => Ok(result@),
        Err(error) => Err(error@),
    }
}

/// A message of the connection.
#[derive(Debug)]
pub enum WireMessage {
    Text(String),
    Binary(Vec<u8>),
    Ping(Vec<u8>),
    Pong,
    Close,
    Frame,
}

/// What a text from the daemon is: the answer to a request, or something that needs no answer
/// from this side, a notification or a request of the daemon's own.
#[derive(Debug)]
pub enum Frame {
    Response { id: RpcId, result: Option<Json>, error: Option<Json> },
    Other,
}

/// What can be read from a message: a value, nothing, or the end of the connection.
pub open spec fn message_reads(message: WireMessage) -> Result<Option<JsonView>, Seq<char>> {
    match message {
        WireMessage::Text(text) => some_json(json::json_of_text(text@)),
        WireMessage::Binary(bytes) => some_json(json::json_of_bytes(bytes@)),
        WireMessage::Close => Err("peer closed websocket"@),
        _ => Ok(None),
    }
}

/// A parse that can also come to nothing, and here does not.
pub open spec fn some_json(parsed: Result<JsonView, Seq<char>>) -> Result<
    Option<JsonView>,
    Seq<char>,
> {
    match parsed {
        Ok(value) => Ok(Some(value)),
        Err(words) => Err(words),
    }
}

/// What a reading means.
pub open spec fn reading_view(reading: Result<Option<Json>, String>) -> Result<
    Option<JsonView>,
    Seq<char>,
> {
    match reading {
        Ok(value) => Ok(json::optional_json(value)),
        Err(words) => Err(words@),
    }
}

/// Reads a message: a value, nothing, or why the connection cannot go on.
pub fn message_json(message: &WireMessage) -> (reading: Result<Option<Json>, String>)
    ensures
        reading_view(reading) == message_reads(*message),
{
    match message {
        WireMessage::Text(text) => match json::parse_text(text.as_str()) {
            Ok(value) => Ok(Some(value)),
            Err(words) => Err(words),
        },
        WireMessage::Binary(bytes) => match json::parse_bytes(bytes.as_slice()) {
            Ok(value) => Ok(Some(value)),
            Err(words) => Err(words),
        },
        WireMessage::Close => Err("peer closed websocket".to_owned()),
        _ => Ok(None),
    }
}

} // verus!
