//! The records that travel over the bus and the queues they travel on.

pub mod codec;
pub mod json;

use crate::util::same_text;
use vstd::prelude::*;

verus! {

/// The media type of a JSON body.
pub const JSON_SCHEMA: &'static str = "application/json";

/// Whether a body under `schema` is JSON: it is when the schema says so,
/// and when there is none.
pub open spec fn is_json(schema: Option<Seq<char>>) -> bool {
    match schema {
        Some(name) => name == JSON_SCHEMA@,
        None => true,
    }
}

/// Whether a body under `schema` is JSON.
pub fn json_schema(schema: Option<&str>) -> (json: bool)
    ensures
        json == is_json(schema.deep_view()),
{
    match schema {
        Some(name) => same_text(name, JSON_SCHEMA),
        None => true,
    }
}

/// A copy of an optional text.
pub fn copy_text(text: &Option<String>) -> (copy: Option<String>)
    ensures
        copy.deep_view() == text.deep_view(),
{
    match text {
        Some(t) => Some(t.clone()),
        None => None,
    }
}

/// A fixed queue of the broker.
#[derive(Clone, Copy, Debug)]
pub enum Queue {
    /// Where a client leaves its requests.
    Local,
    /// Where a server leaves its responses.
    Reply,
}

impl Queue {
    /// The key of the queue at the broker.
    pub open spec fn key(self) -> Seq<char> {
        match self {
            Queue::Local => "msgbus.system.local"@,
            Queue::Reply => "msgbus.system.reply"@,
        }
    }

    /// The key of the queue at the broker.
    pub fn as_ref(&self) -> (key: &'static str)
        ensures
            key@ == self.key(),
    {
        match self {
            Queue::Local => "msgbus.system.local",
            Queue::Reply => "msgbus.system.reply",
        }
    }

    /// The key of the queue at the broker, as an owned string.
    pub fn to_string(&self) -> (key: String)
        ensures
            key@ == self.key(),
    {
        self.as_ref().to_owned()
    }
}

/// The failure that a response reports.
#[derive(Clone, Debug)]
pub struct Error {
    pub code: u32,
    pub message: String,
}

/// What an [`Error`] holds.
pub struct ErrorView {
    pub code: u32,
    pub message: Seq<char>,
}

impl View for Error {
    type V = ErrorView;

    open spec fn view(&self) -> ErrorView {
        ErrorView { code: self.code, message: self.message@ }
    }
}

/// What an optional [`Error`] holds.
pub open spec fn error_view(error: Option<Error>) -> Option<ErrorView> {
    match error {
        Some(e) => Some(e@),
        None => None,
    }
}

/// A request as a server receives it.
#[derive(Clone, Debug)]
pub struct IncomingRequest {
    /// Protocol version.
    pub version: usize,
    /// Correlation id set by the originator and echoed in responses.
    pub reference: Option<String>,
    /// The originator's twin id.
    pub source: String,
    /// The dotted path of the command.
    pub command: String,
    /// Seconds, counted from `timestamp`, for which the request is valid.
    pub expiration: u64,
    /// The body, in base64.
    pub data: String,
    /// Forwarding hint.
    pub tags: Option<String>,
    /// The queue on which the originator waits for responses.
    pub reply_to: String,
    /// Media type of the body.
    pub schema: Option<String>,
    /// When the request was sent, in seconds since the epoch.
    pub timestamp: u64,
}

/// What an [`IncomingRequest`] holds.
pub struct IncomingRequestView {
    pub version: usize,
    pub reference: Option<Seq<char>>,
    pub source: Seq<char>,
    pub command: Seq<char>,
    pub expiration: u64,
    pub data: Seq<char>,
    pub tags: Option<Seq<char>>,
    pub reply_to: Seq<char>,
    pub schema: Option<Seq<char>>,
    pub timestamp: u64,
}

impl View for IncomingRequest {
    type V = IncomingRequestView;

    open spec fn view(&self) -> IncomingRequestView {
        IncomingRequestView {
            version: self.version,
            reference: self.reference.deep_view(),
            source: self.source@,
            command: self.command@,
            expiration: self.expiration,
            data: self.data@,
            tags: self.tags.deep_view(),
            reply_to: self.reply_to@,
            schema: self.schema.deep_view(),
            timestamp: self.timestamp,
        }
    }
}

/// A response as a server sends it.
#[derive(Clone, Debug)]
pub struct OutgoingResponse {
    /// Protocol version, as in the request.
    pub version: usize,
    /// Correlation id, as in the request.
    pub reference: Option<String>,
    /// The body, in base64.
    pub data: String,
    /// The twin that the response goes to.
    pub destination: String,
    /// Media type of the body.
    pub schema: Option<String>,
    /// When the response was made, in seconds since the epoch.
    pub timestamp: u64,
    /// The failure, if the command failed.
    pub error: Option<Error>,
}

/// What an [`OutgoingResponse`] holds.
pub struct OutgoingResponseView {
    pub version: usize,
    pub reference: Option<Seq<char>>,
    pub data: Seq<char>,
    pub destination: Seq<char>,
    pub schema: Option<Seq<char>>,
    pub timestamp: u64,
    pub error: Option<ErrorView>,
}

impl View for OutgoingResponse {
    type V = OutgoingResponseView;

    open spec fn view(&self) -> OutgoingResponseView {
        OutgoingResponseView {
            version: self.version,
            reference: self.reference.deep_view(),
            data: self.data@,
            destination: self.destination@,
            schema: self.schema.deep_view(),
            timestamp: self.timestamp,
            error: error_view(self.error),
        }
    }
}

impl OutgoingResponse {
    /// What the response to `request` holds when the command succeeded with
    /// the body `data`, already in base64, of media type `schema`.
    pub open spec fn success_view(
        request: IncomingRequestView,
        data: Seq<char>,
        schema: Seq<char>,
        now: u64,
    ) -> OutgoingResponseView {
        OutgoingResponseView {
            version: request.version,
            reference: request.reference,
            data,
            destination: request.source,
            schema: Some(schema),
            timestamp: now,
            error: None,
        }
    }

    /// What the response to `request` holds when the command failed with
    /// `message`.
    pub open spec fn failure_view(
        request: IncomingRequestView,
        message: Seq<char>,
        now: u64,
    ) -> OutgoingResponseView {
        OutgoingResponseView {
            version: request.version,
            reference: request.reference,
            data: Seq::empty(),
            destination: request.source,
            schema: None,
            timestamp: now,
            error: Some(ErrorView { code: 0, message }),
        }
    }

    /// The response to `request`, made at `now`, that carries the body
    /// `data`, already in base64, of media type `schema`. It goes back to
    /// the request's source with the request's version and reference.
    pub fn success(
        request: &IncomingRequest,
        data: String,
        schema: String,
        now: u64,
    ) -> (response: Self)
        ensures
            response@ == Self::success_view(request@, data@, schema@, now),
    {
        OutgoingResponse {
            version: request.version,
            reference: copy_text(&request.reference),
            data,
            destination: request.source.clone(),
            schema: Some(schema),
            timestamp: now,
            error: None,
        }
    }

    /// The response to `request`, made at `now`, that reports a failure by
    /// its `message`: no body, no schema, error code 0.
    pub fn failure(request: &IncomingRequest, message: String, now: u64) -> (response: Self)
        ensures
            response@ == Self::failure_view(request@, message@, now),
    {
        OutgoingResponse {
            version: request.version,
            reference: copy_text(&request.reference),
            data: String::new(),
            destination: request.source.clone(),
            schema: None,
            timestamp: now,
            error: Some(Error { code: 0, message }),
        }
    }
}

/// A response as a client receives it.
#[derive(Clone, Debug)]
pub struct IncomingResponse {
    /// Protocol version.
    pub version: usize,
    /// Correlation id of the request.
    pub reference: Option<String>,
    /// The body, in base64.
    pub data: String,
    /// The twin that answered.
    pub source: String,
    /// Media type of the body.
    pub schema: Option<String>,
    /// When the response was made, in seconds since the epoch.
    pub timestamp: u64,
    /// The failure, if the command failed.
    pub error: Option<Error>,
}

/// What an [`IncomingResponse`] holds.
pub struct IncomingResponseView {
    pub version: usize,
    pub reference: Option<Seq<char>>,
    pub data: Seq<char>,
    pub source: Seq<char>,
    pub schema: Option<Seq<char>>,
    pub timestamp: u64,
    pub error: Option<ErrorView>,
}

impl View for IncomingResponse {
    type V = IncomingResponseView;

    open spec fn view(&self) -> IncomingResponseView {
        IncomingResponseView {
            version: self.version,
            reference: self.reference.deep_view(),
            data: self.data@,
            source: self.source@,
            schema: self.schema.deep_view(),
            timestamp: self.timestamp,
            error: error_view(self.error),
        }
    }
}

} // verus!
