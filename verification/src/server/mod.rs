//! The server side: the router of handlers, what a handler takes and
//! gives, and the decisions of the runtime around them.

mod entries;
pub mod module;
pub mod server;
pub mod service;
pub mod work_runner;

pub use module::Module;
pub use server::Server;
pub use service::ServiceModule;
pub use work_runner::{finish, respond, Step, WorkRunner};

use crate::path::dot_free;
use crate::protocol::{is_json, json_schema, JSON_SCHEMA};
use vstd::prelude::*;

verus! {

/// What handlers can be registered with: a module of the router, or a
/// server by its root. Code that fills a router can take either.
pub trait Router<H>: Sized {
    /// The invariant of the router.
    spec fn sound(&self) -> bool;

    /// The handler registered under the path made of `names`.
    spec fn route(&self, names: Seq<Seq<char>>) -> Option<H>;

    /// The submodule `name`, made empty if it was not there. The name
    /// holds no dot.
    fn module(&mut self, name: &str) -> (child: &mut Module<H>)
        requires
            old(self).sound(),
            dot_free(name@),
        ensures
            child.wf(),
            forall|names: Seq<Seq<char>>|
                names.len() >= 1 ==> #[trigger] child.registered(names) == old(self).route(
                    seq![name@] + names,
                ),
            forall|names: Seq<Seq<char>>| #[trigger]
                final(self).route(names) == if names.len() >= 2 && names[0] == name@ {
                    final(child).registered(names.drop_first())
                } else {
                    old(self).route(names)
                },
            final(child).wf() ==> final(self).sound(),
    ;

    /// Registers `handler` under `name`. The name holds no dot and is not
    /// taken by another handler of the same module.
    fn handle(&mut self, name: &str, handler: H) -> (this: &mut Self)
        requires
            old(self).sound(),
            dot_free(name@),
            old(self).route(seq![name@]) is None,
        ensures
            this.sound(),
            forall|names: Seq<Seq<char>>| #[trigger]
                this.route(names) == if names.len() == 1 && names[0] == name@ {
                    Some(handler)
                } else {
                    old(self).route(names)
                },
            *final(self) == *final(this),
    ;
}

impl<H> Router<H> for Module<H> {
    open spec fn sound(&self) -> bool {
        self.wf()
    }

    open spec fn route(&self, names: Seq<Seq<char>>) -> Option<H> {
        self.registered(names)
    }

    fn module(&mut self, name: &str) -> (child: &mut Module<H>) {
        Module::module(self, name)
    }

    fn handle(&mut self, name: &str, handler: H) -> (this: &mut Self) {
        Module::handle(self, name, handler)
    }
}

impl<D, H> Router<H> for Server<D, H> {
    open spec fn sound(&self) -> bool {
        self.root().wf()
    }

    open spec fn route(&self, names: Seq<Seq<char>>) -> Option<H> {
        self.root().registered(names)
    }

    fn module(&mut self, name: &str) -> (child: &mut Module<H>) {
        Server::module(self, name)
    }

    fn handle(&mut self, name: &str, handler: H) -> (this: &mut Self) {
        Server::handle(self, name, handler)
    }
}

/// What a handler is called with: the body of a request, decoded from
/// base64, and where it came from.
#[derive(Debug)]
pub struct HandlerInput<'a> {
    /// The twin that sent the request.
    pub source: &'a str,
    /// The body.
    pub data: Vec<u8>,
    /// Media type of the body.
    pub schema: Option<&'a str>,
}

/// What a handler gives back: the body of the response.
#[derive(Debug)]
pub struct HandlerOutput {
    /// The body.
    pub data: Vec<u8>,
    /// Media type of the body.
    pub schema: String,
}

/// Why a handler call failed.
#[derive(Debug)]
pub enum HandlerError {
    /// The body of the input is of a media type that cannot be read.
    UnsupportedSchema,
    /// The handler failed, with this message.
    Failed(String),
}

/// What a [`HandlerError`] holds.
pub enum HandlerErrorView {
    UnsupportedSchema,
    Failed(Seq<char>),
}

/// The message of the failure that answers a schema other than JSON.
pub const NOT_SUPPORTED: &'static str = "not supported schema";

impl HandlerErrorView {
    /// The error in words: what the response to the request reports.
    pub open spec fn message(self) -> Seq<char> {
        match self {
            HandlerErrorView::UnsupportedSchema => NOT_SUPPORTED@,
            HandlerErrorView::Failed(message) => message,
        }
    }
}

impl View for HandlerError {
    type V = HandlerErrorView;

    open spec fn view(&self) -> HandlerErrorView {
        match self {
            HandlerError::UnsupportedSchema => HandlerErrorView::UnsupportedSchema,
            HandlerError::Failed(message) => HandlerErrorView::Failed(message@),
        }
    }
}

impl HandlerError {
    /// A failure with the message `message`.
    pub fn new(message: &str) -> (error: Self)
        ensures
            error@ == HandlerErrorView::Failed(message@),
    {
        HandlerError::Failed(message.to_owned())
    }

    /// The error in words.
    pub fn message(self) -> (text: String)
        ensures
            text@ == self@.message(),
    {
        match self {
            HandlerError::UnsupportedSchema => NOT_SUPPORTED.to_owned(),
            HandlerError::Failed(message) => message,
        }
    }
}

/// A handler: what serves the requests for one command. It is called with
/// a copy of the state that all handlers of a server share.
pub trait Handler<D> {
    /// Serves one request.
    fn call(&self, data: D, input: HandlerInput<'_>) -> Result<HandlerOutput, HandlerError>;
}

impl<D, T: Handler<D> + ?Sized> Handler<D> for Box<T> {
    /// A boxed handler serves as the handler in the box does: what comes
    /// of the call is what the handler in the box makes of the same state
    /// and input.
    fn call(&self, data: D, input: HandlerInput<'_>) -> (outcome: Result<
        HandlerOutput,
        HandlerError,
    >)
        ensures
            call_ensures(T::call, (&**self, data, input), outcome),
    {
        (**self).call(data, input)
    }
}

impl<'a> HandlerInput<'a> {
    /// The JSON text of the arguments: the body, if it is JSON by its
    /// schema.
    pub fn inputs(&self) -> (json: Result<&Vec<u8>, HandlerError>)
        ensures
            match json {
                Ok(body) => is_json(self.schema.deep_view()) && *body == self.data,
                Err(error) => !is_json(self.schema.deep_view()) && error
                    == HandlerError::UnsupportedSchema,
            },
    {
        if json_schema(self.schema) {
            Ok(&self.data)
        } else {
            Err(HandlerError::UnsupportedSchema)
        }
    }
}

impl HandlerOutput {
    /// The output whose body is the JSON text `json`.
    pub fn from(json: Vec<u8>) -> (output: Self)
        ensures
            output.data == json,
            output.schema@ == JSON_SCHEMA@,
    {
        HandlerOutput { data: json, schema: JSON_SCHEMA.to_owned() }
    }
}

} // verus!
