//! The work runner: what the server does with one request, as far as it
//! can be decided without calling the handler or the broker.

use crate::body::{
    base64_bytes, base64_text, decode, decoded, decoded_view, encode, fits, max_body_len,
};
use crate::protocol::{
    IncomingRequest, IncomingRequestView, OutgoingResponse, OutgoingResponseView,
};
use crate::server::module::Module;
use crate::server::{Handler, HandlerError, HandlerInput, HandlerOutput};
use crate::util::timestamp;
use vstd::prelude::*;

verus! {

/// The message of the failure that answers a body that is not base64.
pub const BAD_BASE64: &'static str = "bad base64";

/// What is to be done with a request.
pub enum Step<'a, H> {
    /// Nothing: no handler serves the command, so no response is sent.
    Drop,
    /// Send this response: the request could not be handed to a handler.
    Reply(OutgoingResponse),
    /// Call `handler` with a copy of the shared state and `input`, and make
    /// the response from what it returns.
    Call { handler: &'a H, input: HandlerInput<'a> },
}

/// The message of the failure that answers an output too long to be
/// encoded.
pub const BODY_TOO_LONG: &'static str = "response body too long";

/// What a handler call came to: the body and schema of the output, or the
/// message of the handler's error.
pub open spec fn outcome_view(outcome: Result<HandlerOutput, HandlerError>) -> Result<
    (Seq<u8>, Seq<char>),
    Seq<char>,
> {
    match outcome {
        Ok(output) => Ok((output.data@, output.schema@)),
        Err(error) => Err(error@.message()),
    }
}

/// Runs requests through the handlers of a router. It holds the router and
/// the state that every handler call gets a copy of.
pub struct WorkRunner<D, H> {
    root: Module<H>,
    data: D,
}

impl<D, H> WorkRunner<D, H> {
    #[verifier::type_invariant]
    spec fn inv(&self) -> bool {
        self.root.wf()
    }

    /// The router.
    pub closed spec fn root(&self) -> Module<H> {
        self.root
    }

    /// The shared state.
    pub closed spec fn data(&self) -> D {
        self.data
    }

    /// A runner over the handlers of `root`, with the shared state `data`.
    pub fn new(data: D, root: Module<H>) -> (runner: Self)
        requires
            root.wf(),
        ensures
            runner.root() == root,
            runner.data() == data,
            runner.root().wf(),
    {
        WorkRunner { root, data }
    }

    /// The shared state, to be copied for a handler call.
    pub fn state(&self) -> (data: &D)
        ensures
            *data == self.data(),
    {
        &self.data
    }

    /// The handler that serves the dotted `path`.
    pub fn lookup(&self, path: &str) -> (found: Option<&H>)
        ensures
            self.root().wf(),
            match found {
                Some(handler) => self.root().serves(path@) == Some(*handler),
                None => self.root().serves(path@) is None,
            },
    {
        proof {
            use_type_invariant(self);
        }
        self.root.lookup(path)
    }

    /// What is to be done with `request`, which arrived for `command` at
    /// `now`, given what its body decoded to.
    pub open spec fn routed(
        &self,
        command: Seq<char>,
        request: IncomingRequest,
        body: Result<Seq<u8>, Seq<char>>,
        now: u64,
        step: Step<'_, H>,
    ) -> bool {
        match body {
            Err(_) => step matches Step::Reply(response) && response@
                == OutgoingResponse::failure_view(request@, BAD_BASE64@, now),
            Ok(bytes) => match self.root().serves(command) {
                None => step is Drop,
                Some(serving) => step matches Step::Call { handler, input } && *handler == serving
                    && input.source@ == request.source@ && input.data@ == bytes
                    && input.schema.deep_view() == request.schema.deep_view(),
            },
        }
    }

    /// Decides what to do with `request`, which arrived for `command` at
    /// `now`, once its body has been decoded to `body`. A body that is not
    /// base64 is answered with a failure; a command that no handler serves
    /// is dropped; otherwise the handler is to be called.
    pub fn route<'a>(
        &'a self,
        command: &str,
        request: &'a IncomingRequest,
        body: Result<Vec<u8>, String>,
        now: u64,
    ) -> (step: Step<'a, H>)
        ensures
            self.routed(command@, *request, decoded_view(body), now, step),
    {
        proof {
            use_type_invariant(self);
        }
        let data = match body {
            Ok(data) => data,
            Err(_) => {
                return Step::Reply(
                    OutgoingResponse::failure(request, BAD_BASE64.to_owned(), now),
                );
            },
        };
        match self.root.lookup(command) {
            None => Step::Drop,
            Some(handler) => {
                let schema = match &request.schema {
                    Some(name) => Some(name.as_str()),
                    None => None,
                };
                Step::Call {
                    handler,
                    input: HandlerInput { source: request.source.as_str(), data, schema },
                }
            },
        }
    }

    /// Decides what to do with `request`, which arrived for `command` at
    /// `now`: decodes its body and goes on as `route` says.
    pub fn begin<'a>(
        &'a self,
        command: &str,
        request: &'a IncomingRequest,
        now: u64,
    ) -> (step: Step<'a, H>)
        ensures
            self.routed(command@, *request, base64_bytes(request.data@), now, step),
    {
        let body = decode(request.data.as_str());
        self.route(command, request, body, now)
    }
}

/// A body that left the client as the arguments of a request reaches the
/// handler as it was: where the request's data decodes to `body`, and a
/// handler serves the command, the runner calls that handler with `body`.
pub proof fn lemma_body_reaches_handler<D, H>(
    runner: WorkRunner<D, H>,
    command: Seq<char>,
    request: IncomingRequest,
    body: Seq<u8>,
    now: u64,
    step: Step<'_, H>,
)
    requires
        base64_bytes(request.data@) == decoded(body),
        runner.routed(command, request, base64_bytes(request.data@), now, step),
        runner.root().serves(command) is Some,
    ensures
        step matches Step::Call { handler, input } && input.data@ == body && Some(*handler)
            == runner.root().serves(command),
{
}

/// What the response to `request` holds, made at `now`, when the handler
/// call came to `outcome`.
pub open spec fn finished(
    request: IncomingRequestView,
    outcome: Result<(Seq<u8>, Seq<char>), Seq<char>>,
    now: u64,
) -> OutgoingResponseView {
    match outcome {
        Ok((data, schema)) => OutgoingResponse::success_view(
            request,
            base64_text(data),
            schema,
            now,
        ),
        Err(message) => OutgoingResponse::failure_view(request, message, now),
    }
}

/// Makes the response to `request` at `now` from what the handler call
/// came to: the output's body in base64 under its schema, or the failure
/// with the handler's message.
pub fn finish(
    request: &IncomingRequest,
    outcome: Result<HandlerOutput, HandlerError>,
    now: u64,
) -> (response: OutgoingResponse)
    requires
        outcome matches Ok(output) ==> output.data@.len() <= max_body_len(),
    ensures
        response@ == finished(request@, outcome_view(outcome), now),
        outcome matches Ok(output) ==> base64_bytes(response@.data) == decoded(output.data@),
{
    match outcome {
        Ok(output) => {
            let data = encode(output.data.as_slice());
            OutgoingResponse::success(request, data, output.schema, now)
        },
        Err(error) => OutgoingResponse::failure(request, error.message(), now),
    }
}

/// What a handler call came to, as far as it can be answered: an output
/// too long to be encoded counts as a failure.
pub open spec fn answerable(outcome: Result<(Seq<u8>, Seq<char>), Seq<char>>) -> Result<
    (Seq<u8>, Seq<char>),
    Seq<char>,
> {
    match outcome {
        Ok((data, schema)) if data.len() > max_body_len() => Err(BODY_TOO_LONG@),
        _ => outcome,
    }
}

/// Makes the response to `request` at `now` from whatever the handler call
/// came to: as `finish` does, but for an output too long to be encoded,
/// which is answered with a failure.
pub fn respond(
    request: &IncomingRequest,
    outcome: Result<HandlerOutput, HandlerError>,
    now: u64,
) -> (response: OutgoingResponse)
    ensures
        response@ == finished(request@, answerable(outcome_view(outcome)), now),
{
    let outcome = match outcome {
        Ok(output) => {
            if fits(output.data.as_slice()) {
                Ok(output)
            } else {
                Err(HandlerError::new(BODY_TOO_LONG))
            }
        },
        Err(error) => Err(error),
    };
    finish(request, outcome, now)
}

impl<D: Clone, H: Handler<D>> WorkRunner<D, H> {
    /// Serves `request`, which arrived for `command`: decodes its body,
    /// calls the handler that serves the command with a copy of the shared
    /// state, and makes the response, stamped with the time of the clock.
    /// At most one response comes of a request, and none only where no
    /// handler serves the command.
    pub fn run(&self, command: &str, request: &IncomingRequest) -> (sent: Option<
        OutgoingResponse,
    >)
        ensures
            match base64_bytes(request@.data) {
                Err(_) => sent matches Some(response) && response@
                    == OutgoingResponse::failure_view(request@, BAD_BASE64@, response.timestamp),
                Ok(_) => match self.root().serves(command@) {
                    None => sent is None,
                    Some(_) => sent matches Some(response) && exists|
                        outcome: Result<HandlerOutput, HandlerError>,
                    |
                        response@ == finished(
                            request@,
                            answerable(outcome_view(outcome)),
                            response.timestamp,
                        ),
                },
            },
    {
        match self.begin(command, request, timestamp()) {
            Step::Drop => None,
            Step::Reply(response) => Some(response),
            Step::Call { handler, input } => {
                let outcome = handler.call(self.data.clone(), input);
                Some(respond(request, outcome, timestamp()))
            },
        }
    }
}

} // verus!
