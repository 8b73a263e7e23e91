//! The call that collects the responses to one request, and what it yields.

use crate::body::{base64_bytes, decode, decoded_view};
use crate::client::builder::RequestView;
use crate::protocol::{is_json, json_schema, IncomingResponse, IncomingResponseView};
use vstd::prelude::*;
use vstd::string::StringExecFns;

verus! {

/// Why a response yields no body.
#[derive(Debug)]
pub enum ResponseErr {
    /// The response is not as the protocol wants it.
    Protocol(String),
    /// The remote twin reported a failure.
    Remote(String),
}

/// What a [`ResponseErr`] holds.
pub enum ResponseErrView {
    Protocol(Seq<char>),
    Remote(Seq<char>),
}

impl View for ResponseErr {
    type V = ResponseErrView;

    open spec fn view(&self) -> ResponseErrView {
        match self {
            ResponseErr::Protocol(message) => ResponseErrView::Protocol(message@),
            ResponseErr::Remote(message) => ResponseErrView::Remote(message@),
        }
    }
}

/// The message of the failure that answers a schema other than JSON.
pub const NOT_SUPPORTED: &'static str = "not supported encoding type";

impl ResponseErrView {
    /// The error in words.
    pub open spec fn text(self) -> Seq<char> {
        match self {
            ResponseErrView::Protocol(message) => "protocol error: "@ + message,
            ResponseErrView::Remote(message) => "remote error: "@ + message,
        }
    }
}

impl ResponseErr {
    /// The error in words.
    pub fn to_string(&self) -> (text: String)
        ensures
            text@ == self@.text(),
    {
        match self {
            ResponseErr::Protocol(message) => "protocol error: ".to_owned().concat(
                message.as_str(),
            ),
            ResponseErr::Remote(message) => "remote error: ".to_owned().concat(message.as_str()),
        }
    }

    /// A copy of the error.
    pub fn copy(&self) -> (copy: Self)
        ensures
            copy@ == self@,
    {
        match self {
            ResponseErr::Protocol(message) => ResponseErr::Protocol(message.clone()),
            ResponseErr::Remote(message) => ResponseErr::Remote(message.clone()),
        }
    }
}

/// What a response carries: the body, or why there is none.
pub open spec fn payload_view(payload: Result<Vec<u8>, ResponseErr>) -> Result<
    Seq<u8>,
    ResponseErrView,
> {
    match payload {
        Ok(body) => Ok(body@),
        Err(error) => Err(error@),
    }
}

/// What the JSON text of a result holds, or why there is none.
pub open spec fn outputs_view(json: Result<&Vec<u8>, ResponseErr>) -> Result<
    Seq<u8>,
    ResponseErrView,
> {
    match json {
        Ok(body) => Ok(body@),
        Err(error) => Err(error@),
    }
}

/// One response to a call.
#[derive(Debug)]
pub struct Return {
    /// The twin that answered.
    pub source: String,
    /// The body, or why there is none.
    pub payload: Result<Vec<u8>, ResponseErr>,
    /// Media type of the body.
    pub schema: Option<String>,
}

/// What a [`Return`] holds.
pub struct ReturnView {
    pub source: Seq<char>,
    pub payload: Result<Seq<u8>, ResponseErrView>,
    pub schema: Option<Seq<char>>,
}

impl View for Return {
    type V = ReturnView;

    open spec fn view(&self) -> ReturnView {
        ReturnView {
            source: self.source@,
            payload: payload_view(self.payload),
            schema: self.schema.deep_view(),
        }
    }
}

impl ReturnView {
    /// What the response `msg` yields when its body decodes to `body`: the
    /// failure that the remote twin reported, if any; else the body, or the
    /// decoder's complaint as a protocol error.
    pub open spec fn of(msg: IncomingResponseView, body: Result<Seq<u8>, Seq<char>>) -> ReturnView {
        ReturnView {
            source: msg.source,
            payload: match msg.error {
                Some(error) => Err(ResponseErrView::Remote(error.message)),
                None => match body {
                    Ok(bytes) => Ok(bytes),
                    Err(complaint) => Err(ResponseErrView::Protocol(complaint)),
                },
            },
            schema: msg.schema,
        }
    }

    /// The JSON text that the response yields: its body, if there is one
    /// and it is JSON by its schema.
    pub open spec fn outputs(self) -> Result<Seq<u8>, ResponseErrView> {
        match self.payload {
            Ok(body) => if is_json(self.schema) {
                Ok(body)
            } else {
                Err(ResponseErrView::Remote(NOT_SUPPORTED@))
            },
            Err(error) => Err(error),
        }
    }
}

impl Return {
    /// What the response `msg` yields, given what its body decoded to.
    pub fn of(msg: IncomingResponse, body: Result<Vec<u8>, String>) -> (ret: Self)
        ensures
            ret@ == ReturnView::of(msg@, decoded_view(body)),
    {
        let payload = match msg.error {
            Some(error) => Err(ResponseErr::Remote(error.message)),
            None => match body {
                Ok(bytes) => Ok(bytes),
                Err(complaint) => Err(ResponseErr::Protocol(complaint)),
            },
        };
        Return { source: msg.source, payload, schema: msg.schema }
    }

    /// What the response `msg` yields: the failure that the remote twin
    /// reported, if any; else the body, decoded from base64, or a protocol
    /// error if it is not base64.
    pub fn from(msg: IncomingResponse) -> (ret: Self)
        ensures
            ret@ == ReturnView::of(msg@, base64_bytes(msg@.data)),
    {
        let body = if msg.error.is_none() {
            decode(msg.data.as_str())
        } else {
            Ok(Vec::new())
        };
        Self::of(msg, body)
    }

    /// The JSON text of the result: the body, if there is one and it is
    /// JSON by its schema. An error of the response comes back as it is.
    pub fn outputs(&self) -> (json: Result<&Vec<u8>, ResponseErr>)
        ensures
            outputs_view(json) == self@.outputs(),
    {
        match &self.payload {
            Ok(body) => {
                let schema = match &self.schema {
                    Some(name) => Some(name.as_str()),
                    None => None,
                };
                if json_schema(schema) {
                    Ok(body)
                } else {
                    Err(ResponseErr::Remote(NOT_SUPPORTED.to_owned()))
                }
            },
            Err(error) => Err(error.copy()),
        }
    }
}

/// What an optional [`Return`] holds.
pub open spec fn return_view(ret: Option<Return>) -> Option<ReturnView> {
    match ret {
        Some(r) => Some(r@),
        None => None,
    }
}

/// What a [`Call`] holds.
pub struct CallView {
    /// The queue on which the responses arrive.
    pub queue: Seq<char>,
    /// The number of responses still awaited.
    pub remaining: nat,
    /// The time after which none is awaited, in seconds since the epoch.
    pub deadline: u64,
}

/// The call that a sent request opens: it awaits one response for each
/// destination, on the request's reply queue, until the request's deadline.
pub open spec fn opened(request: RequestView) -> CallView {
    CallView {
        queue: request.reply_to,
        remaining: request.destinations.len(),
        deadline: request.deadline() as u64,
    }
}

impl CallView {
    /// How long the call may wait at `now` for its next response, in
    /// seconds; `None` if it awaits none: all have come, or the deadline has
    /// passed.
    pub open spec fn timeout(self, now: u64) -> Option<u64> {
        if self.remaining == 0 || now > self.deadline {
            None
        } else {
            Some((self.deadline - now) as u64)
        }
    }

    /// The call after the broker delivered `response` to it, or nothing.
    /// A response counts if one is still awaited.
    pub open spec fn received(self, response: Option<IncomingResponse>) -> CallView {
        if response is Some && self.remaining > 0 {
            CallView { remaining: (self.remaining - 1) as nat, ..self }
        } else {
            self
        }
    }

    /// What the call yields when the broker delivered `response` to it, or
    /// nothing.
    pub open spec fn yielded(self, response: Option<IncomingResponse>) -> Option<ReturnView> {
        match response {
            Some(msg) if self.remaining > 0 => Some(
                ReturnView::of(msg@, base64_bytes(msg@.data)),
            ),
            _ => None,
        }
    }
}

/// One round of a call: the time at which the caller asks for the next
/// response, and what the broker delivers within the timeout if it is
/// asked.
pub struct Round {
    pub now: u64,
    pub delivery: Option<IncomingResponse>,
}

impl CallView {
    /// One round: the call afterwards and what the caller gets. A call
    /// that awaits nothing at the time of the round does not ask the
    /// broker, stays as it is and yields nothing.
    pub open spec fn get(self, round: Round) -> (CallView, Option<ReturnView>) {
        if self.timeout(round.now) is Some {
            (self.received(round.delivery), self.yielded(round.delivery))
        } else {
            (self, None)
        }
    }

    /// The call after `rounds`.
    pub open spec fn after(self, rounds: Seq<Round>) -> CallView
        decreases rounds.len(),
    {
        if rounds.len() == 0 {
            self
        } else {
            self.after(rounds.drop_last()).get(rounds.last()).0
        }
    }

    /// The number of rounds among `rounds` that yield a response.
    pub open spec fn yields(self, rounds: Seq<Round>) -> nat
        decreases rounds.len(),
    {
        if rounds.len() == 0 {
            0
        } else {
            let before = self.yields(rounds.drop_last());
            if self.after(rounds.drop_last()).get(rounds.last()).1 is Some {
                before + 1
            } else {
                before
            }
        }
    }
}

/// After its deadline a call yields nothing and does not ask the broker.
pub proof fn lemma_expired(call: CallView, round: Round)
    requires
        round.now > call.deadline,
    ensures
        call.timeout(round.now) is None,
        call.get(round) == (call, None::<ReturnView>),
{
}

/// Through any rounds, the responses that a call has yielded and those
/// that it still awaits add up to those it awaited at first. So it never
/// yields more than it awaited: one for each destination.
pub proof fn lemma_yields_counted(call: CallView, rounds: Seq<Round>)
    ensures
        call.yields(rounds) + call.after(rounds).remaining == call.remaining,
        call.yields(rounds) <= call.remaining,
        call.after(rounds).queue == call.queue,
        call.after(rounds).deadline == call.deadline,
    decreases rounds.len(),
{
    if rounds.len() > 0 {
        lemma_yields_counted(call, rounds.drop_last());
    }
}

/// The collector of the responses to one request.
pub struct Call {
    ret_queue: String,
    response_num: usize,
    deadline: u64,
}

impl View for Call {
    type V = CallView;

    closed spec fn view(&self) -> CallView {
        CallView {
            queue: self.ret_queue@,
            remaining: self.response_num as nat,
            deadline: self.deadline,
        }
    }
}

impl Call {
    /// A call that awaits `response_num` responses on `ret_queue` until
    /// `deadline`.
    pub fn new(ret_queue: String, response_num: usize, deadline: u64) -> (call: Self)
        ensures
            call@ == (CallView {
                queue: ret_queue@,
                remaining: response_num as nat,
                deadline,
            }),
    {
        Call { ret_queue, response_num, deadline }
    }

    /// The queue on which the responses arrive.
    pub fn queue(&self) -> (queue: &str)
        ensures
            queue@ == self@.queue,
    {
        self.ret_queue.as_str()
    }

    /// The number of responses still awaited.
    pub fn remaining(&self) -> (count: usize)
        ensures
            count == self@.remaining,
    {
        self.response_num
    }

    /// How long to wait at `now` for the next response, in seconds; `None`
    /// if the call awaits none, and the broker is not to be asked.
    pub fn timeout(&self, now: u64) -> (wait: Option<u64>)
        ensures
            wait == self@.timeout(now),
            now > self@.deadline ==> wait is None,
    {
        if self.response_num == 0 {
            return None;
        }
        self.deadline.checked_sub(now)
    }

    /// Takes what the broker delivered within the timeout, a response or
    /// nothing, and yields what the caller gets. A response is counted.
    pub fn receive(&mut self, response: Option<IncomingResponse>) -> (ret: Option<Return>)
        ensures
            final(self)@ == old(self)@.received(response),
            return_view(ret) == old(self)@.yielded(response),
    {
        match response {
            Some(msg) => {
                if self.response_num == 0 {
                    return None;
                }
                self.response_num = self.response_num - 1;
                Some(Return::from(msg))
            },
            None => None,
        }
    }
}

} // verus!
