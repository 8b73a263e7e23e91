//! Outgoing requests and the fluent way to build them.

use crate::body::{base64_bytes, base64_text, decoded, encode, max_body_len};
use crate::protocol::{copy_text, JSON_SCHEMA};
use crate::util::{timestamp, unique_id, ID_LEN};
use vstd::prelude::*;

verus! {

/// The lifetime of a request that sets none, in seconds.
pub const DEFAULT_EXPIRATION: u64 = 60;

/// The version of the protocol.
pub const VERSION: usize = 1;

/// A request as a client sends it.
#[derive(Debug)]
pub struct Request {
    /// Protocol version.
    pub version: usize,
    /// Correlation id, echoed in responses.
    pub reference: Option<String>,
    /// The dotted path of the command.
    pub command: String,
    /// Seconds, counted from `timestamp`, for which the request is valid.
    pub expiration: u64,
    /// The body, in base64.
    pub data: String,
    /// Forwarding hint.
    pub tags: Option<String>,
    /// The twins that the request goes to.
    pub destinations: Vec<u32>,
    /// The queue on which the responses are awaited.
    pub reply_to: String,
    /// Media type of the body.
    pub schema: Option<String>,
    /// When the request was sent, in seconds since the epoch.
    pub timestamp: u64,
}

/// What a [`Request`] holds.
pub struct RequestView {
    pub version: usize,
    pub reference: Option<Seq<char>>,
    pub command: Seq<char>,
    pub expiration: u64,
    pub data: Seq<char>,
    pub tags: Option<Seq<char>>,
    pub destinations: Seq<u32>,
    pub reply_to: Seq<char>,
    pub schema: Option<Seq<char>>,
    pub timestamp: u64,
}

impl View for Request {
    type V = RequestView;

    open spec fn view(&self) -> RequestView {
        RequestView {
            version: self.version,
            reference: self.reference.deep_view(),
            command: self.command@,
            expiration: self.expiration,
            data: self.data@,
            tags: self.tags.deep_view(),
            destinations: self.destinations@,
            reply_to: self.reply_to@,
            schema: self.schema.deep_view(),
            timestamp: self.timestamp,
        }
    }
}

impl RequestView {
    /// The request for `command` that bears `id` and the time `now` and is
    /// otherwise as a new request is: version 1, 60 seconds to live, no
    /// destination, no body, JSON as the schema.
    pub open spec fn initial(command: Seq<char>, id: Seq<char>, now: u64) -> RequestView {
        RequestView {
            version: VERSION,
            reference: Some(id),
            command,
            expiration: DEFAULT_EXPIRATION,
            data: Seq::empty(),
            tags: None,
            destinations: Seq::empty(),
            reply_to: id,
            schema: Some(JSON_SCHEMA@),
            timestamp: now,
        }
    }

    /// The request bears a fresh identifier, as its reference and as its
    /// reply queue, and the current version.
    pub open spec fn fresh(self) -> bool {
        &&& self.version == VERSION
        &&& self.reply_to.len() == ID_LEN
        &&& self.reference == Some(self.reply_to)
        &&& self.schema == Some(JSON_SCHEMA@)
        &&& self.tags is None
    }

    /// This request, stamped with the time `now`.
    pub open spec fn at(self, now: u64) -> RequestView {
        RequestView { timestamp: now, ..self }
    }

    /// The time after which no response to this request is awaited.
    pub open spec fn deadline(self) -> int {
        self.timestamp + self.expiration
    }
}

impl Request {
    /// The request for `command` with the identifier `id`, made at `now`.
    pub fn with_id(command: String, id: String, now: u64) -> (request: Self)
        ensures
            request@ == RequestView::initial(command@, id@, now),
    {
        Request {
            version: VERSION,
            reference: Some(id.clone()),
            command,
            expiration: DEFAULT_EXPIRATION,
            data: String::new(),
            tags: None,
            destinations: Vec::new(),
            reply_to: id,
            schema: Some(JSON_SCHEMA.to_owned()),
            timestamp: now,
        }
    }

    /// A new request for `command`, with a fresh identifier and the time of
    /// the clock.
    pub fn new(command: &str) -> (request: Self)
        ensures
            request@ == RequestView::initial(command@, request@.reply_to, request@.timestamp),
            request@.fresh(),
    {
        Self::with_id(command.to_owned(), unique_id(), timestamp())
    }

    /// Starts to build a request for `command`.
    pub fn builder(command: &str) -> (builder: RequestBuilder)
        ensures
            builder@ == RequestBuilderView::initial(command@),
    {
        RequestBuilder::new(command.to_owned())
    }

    /// The request that `builder` describes, with the identifier `id`, made
    /// at `now`.
    pub fn assemble(builder: RequestBuilder, id: String, now: u64) -> (request: Self)
        ensures
            request@ == builder@.request(id@, now),
    {
        Request {
            version: VERSION,
            reference: Some(id.clone()),
            command: builder.cmd,
            expiration: builder.expiration,
            data: builder.data,
            tags: None,
            destinations: builder.destination,
            reply_to: id,
            schema: Some(JSON_SCHEMA.to_owned()),
            timestamp: now,
        }
    }

    /// The request that `builder` describes, with a fresh identifier and
    /// the time of the clock.
    pub fn from(builder: RequestBuilder) -> (request: Self)
        ensures
            request@ == builder@.request(request@.reply_to, request@.timestamp),
            request@.fresh(),
    {
        Self::assemble(builder, unique_id(), timestamp())
    }

    /// Stamps the request with the time `now`.
    pub fn stamp(self, now: u64) -> (request: Self)
        ensures
            request@ == self@.at(now),
    {
        let mut request = self;
        request.timestamp = now;
        request
    }

    /// Stamps the request with the time of the clock.
    pub fn update_timestamp(self) -> (request: Self)
        ensures
            request@ == self@.at(request@.timestamp),
    {
        self.stamp(timestamp())
    }

    /// The queue on which the responses are awaited.
    pub fn get_ret(&self) -> (queue: &String)
        ensures
            queue@ == self@.reply_to,
    {
        &self.reply_to
    }

    /// The time after which no response is awaited: the time of sending
    /// plus the time to live.
    pub fn calc_deadline(&self) -> (deadline: u64)
        requires
            self@.deadline() <= u64::MAX,
        ensures
            deadline == self@.deadline(),
    {
        self.timestamp + self.expiration
    }

    /// Adds a destination.
    pub fn destination(self, destination: u32) -> (request: Self)
        ensures
            request@ == (RequestView {
                destinations: self@.destinations.push(destination),
                ..self@
            }),
    {
        let mut request = self;
        request.destinations.push(destination);
        request
    }

    /// Adds destinations, in their order.
    pub fn destinations(self, destinations: Vec<u32>) -> (request: Self)
        ensures
            request@ == (RequestView {
                destinations: self@.destinations + destinations@,
                ..self@
            }),
    {
        let mut request = self;
        let mut destinations = destinations;
        request.destinations.append(&mut destinations);
        request
    }

    /// Sets the time to live, in seconds.
    pub fn expiration(self, seconds: u64) -> (request: Self)
        ensures
            request@ == (RequestView { expiration: seconds, ..self@ }),
    {
        let mut request = self;
        request.expiration = seconds;
        request
    }

    /// The number of destinations, which is the number of responses to
    /// await.
    pub fn destinations_len(&self) -> (count: usize)
        ensures
            count == self@.destinations.len(),
    {
        self.destinations.len()
    }

    /// Sets the body to `body`, which goes over the wire in base64.
    pub fn args(self, body: &[u8]) -> (request: Self)
        requires
            body@.len() <= max_body_len(),
        ensures
            request@ == (RequestView { data: base64_text(body@), ..self@ }),
            base64_bytes(request@.data) == decoded(body@),
    {
        self.data(encode(body))
    }

    /// Sets the body to one that is in base64 already.
    pub fn data(self, encoded: String) -> (request: Self)
        ensures
            request@ == (RequestView { data: encoded@, ..self@ }),
    {
        let mut request = self;
        request.data = encoded;
        request
    }

    /// A copy of the request as it goes over the wire.
    pub fn body(&self) -> (copy: Self)
        ensures
            copy@ == self@,
    {
        Request {
            version: self.version,
            reference: copy_text(&self.reference),
            command: self.command.clone(),
            expiration: self.expiration,
            data: self.data.clone(),
            tags: copy_text(&self.tags),
            destinations: self.destinations.clone(),
            reply_to: self.reply_to.clone(),
            schema: copy_text(&self.schema),
            timestamp: self.timestamp,
        }
    }
}

/// A request in the making: what the caller chooses of it.
pub struct RequestBuilder {
    cmd: String,
    destination: Vec<u32>,
    expiration: u64,
    data: String,
}

/// What a [`RequestBuilder`] holds.
pub struct RequestBuilderView {
    pub command: Seq<char>,
    pub destinations: Seq<u32>,
    pub expiration: u64,
    pub data: Seq<char>,
}

impl RequestBuilderView {
    /// The builder for `command` before anything else is chosen: 60
    /// seconds to live, no destination, no body.
    pub open spec fn initial(command: Seq<char>) -> RequestBuilderView {
        RequestBuilderView {
            command,
            destinations: Seq::empty(),
            expiration: DEFAULT_EXPIRATION,
            data: Seq::empty(),
        }
    }

    /// The request that the builder describes, with the identifier `id`
    /// and the time `now`.
    pub open spec fn request(self, id: Seq<char>, now: u64) -> RequestView {
        RequestView {
            version: VERSION,
            reference: Some(id),
            command: self.command,
            expiration: self.expiration,
            data: self.data,
            tags: None,
            destinations: self.destinations,
            reply_to: id,
            schema: Some(JSON_SCHEMA@),
            timestamp: now,
        }
    }
}

impl View for RequestBuilder {
    type V = RequestBuilderView;

    closed spec fn view(&self) -> RequestBuilderView {
        RequestBuilderView {
            command: self.cmd@,
            destinations: self.destination@,
            expiration: self.expiration,
            data: self.data@,
        }
    }
}

impl RequestBuilder {
    /// A builder for `command`.
    pub fn new(command: String) -> (builder: Self)
        ensures
            builder@ == RequestBuilderView::initial(command@),
    {
        RequestBuilder {
            cmd: command,
            destination: Vec::new(),
            expiration: DEFAULT_EXPIRATION,
            data: String::new(),
        }
    }

    /// Adds a destination.
    pub fn destination(self, destination: u32) -> (builder: Self)
        ensures
            builder@ == (RequestBuilderView {
                destinations: self@.destinations.push(destination),
                ..self@
            }),
    {
        let mut builder = self;
        builder.destination.push(destination);
        builder
    }

    /// Adds destinations, in their order.
    pub fn destinations(self, destinations: Vec<u32>) -> (builder: Self)
        ensures
            builder@ == (RequestBuilderView {
                destinations: self@.destinations + destinations@,
                ..self@
            }),
    {
        let mut builder = self;
        let mut destinations = destinations;
        builder.destination.append(&mut destinations);
        builder
    }

    /// Sets the time to live, in seconds.
    pub fn expiration(self, seconds: u64) -> (builder: Self)
        ensures
            builder@ == (RequestBuilderView { expiration: seconds, ..self@ }),
    {
        let mut builder = self;
        builder.expiration = seconds;
        builder
    }

    /// Sets the body to `body`, which goes over the wire in base64.
    pub fn args(self, body: &[u8]) -> (builder: Self)
        requires
            body@.len() <= max_body_len(),
        ensures
            builder@ == (RequestBuilderView { data: base64_text(body@), ..self@ }),
            base64_bytes(builder@.data) == decoded(body@),
    {
        let mut builder = self;
        builder.data = encode(body);
        builder
    }
}

} // verus!
