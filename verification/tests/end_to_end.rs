use rmb::client::{send, Request};
use rmb::protocol::{IncomingRequest, IncomingResponse, OutgoingResponse, Queue};
use rmb::server::server::{dispatch, key, Dispatch, Popped};
use rmb::server::{Handler, HandlerError, HandlerInput, HandlerOutput, Server};
use std::collections::{HashMap, VecDeque};

#[derive(Clone)]
struct AppData;

struct Add;

impl Handler<AppData> for Add {
    fn call(&self, _data: AppData, input: HandlerInput<'_>) -> Result<HandlerOutput, HandlerError> {
        let (a, b): (f64, f64) = serde_json::from_slice(input.inputs()?)
            .map_err(|_| HandlerError::new("failed to decode object"))?;
        Ok(HandlerOutput::from(serde_json::to_vec(&(a + b)).unwrap()))
    }
}

struct Version;

impl Handler<AppData> for Version {
    fn call(&self, _data: AppData, _input: HandlerInput<'_>) -> Result<HandlerOutput, HandlerError> {
        Ok(HandlerOutput::from(serde_json::to_vec("v1.0").unwrap()))
    }
}

enum Message {
    Sent(Request),
    Request(IncomingRequest),
    Reply(OutgoingResponse, String),
    Response(IncomingResponse),
}

/// A broker in memory: lists under keys, and the routing between twins that
/// the daemon does.
struct Broker {
    lists: HashMap<String, VecDeque<Message>>,
}

impl Broker {
    fn new() -> Self {
        Broker { lists: HashMap::new() }
    }

    fn rpush(&mut self, key: &str, message: Message) {
        self.lists.entry(key.to_string()).or_default().push_back(message);
    }

    fn pop(&mut self, keys: &[String]) -> Option<(String, Message)> {
        for key in keys {
            if let Some(message) = self.lists.get_mut(key).and_then(|list| list.pop_front()) {
                return Some((key.clone(), message));
            }
        }
        None
    }

    /// Moves every sent request to the queue of its command, once for each
    /// destination.
    fn forward(&mut self, from: &str) {
        while let Some((_, Message::Sent(request))) = self.pop(&[Queue::Local.to_string()]) {
            for _ in &request.destinations {
                let incoming = IncomingRequest {
                    version: request.version,
                    reference: request.reference.clone(),
                    source: from.to_string(),
                    command: request.command.clone(),
                    expiration: request.expiration,
                    data: request.data.clone(),
                    tags: request.tags.clone(),
                    reply_to: request.reply_to.clone(),
                    schema: request.schema.clone(),
                    timestamp: request.timestamp,
                };
                self.rpush(&key(&request.command), Message::Request(incoming));
            }
        }
    }

    /// Moves every reply to the queue that its request named.
    fn relay(&mut self, from: &str) {
        while let Some((_, Message::Reply(reply, to))) = self.pop(&[Queue::Reply.to_string()]) {
            let response = IncomingResponse {
                version: reply.version,
                reference: reply.reference,
                data: reply.data,
                source: from.to_string(),
                schema: reply.schema,
                timestamp: reply.timestamp,
                error: reply.error,
            };
            self.rpush(&to, Message::Response(response));
        }
    }
}

type Boxed = Box<dyn Handler<AppData>>;

fn server() -> Server<AppData, Boxed> {
    let mut server: Server<AppData, Boxed> = Server::new(AppData, 2);
    server.handle("version", Box::new(Version));
    server.module("calculator").handle("add", Box::new(Add));
    server
}

/// Runs the server on all that waits for it at the broker.
fn serve(broker: &mut Broker, server: Server<AppData, Boxed>) -> usize {
    let keys = server.keys();
    let runner = server.into_runner();
    let mut served = 0;
    while let Some((queue, Message::Request(request))) = broker.pop(&keys) {
        match dispatch(Popped::Request { queue, request }) {
            Dispatch::Run { command, request } => {
                if let Some(response) = runner.run(&command, &request) {
                    broker.rpush(Queue::Reply.as_ref(), Message::Reply(response, request.reply_to));
                }
                served += 1;
            }
            Dispatch::Retry { .. } => panic!("nothing failed"),
        }
    }
    served
}

#[test]
fn end_to_end() {
    let mut broker = Broker::new();

    let request = Request::new("calculator.add")
        .args(&serde_json::to_vec(&vec![2, 4]).unwrap())
        .destination(55)
        .expiration(60);
    let now = request.timestamp;
    let (sent, mut call) = send(request, now);
    let reply_to = sent.reply_to.clone();
    broker.rpush(Queue::Local.as_ref(), Message::Sent(sent));

    broker.forward("7");
    assert_eq!(serve(&mut broker, server()), 1);
    broker.relay("55");

    let timeout = call.timeout(now + 1);
    assert_eq!(timeout, Some(59));
    let delivered = match broker.pop(&[call.queue().to_string()]) {
        Some((queue, Message::Response(response))) => {
            assert_eq!(queue, reply_to);
            Some(response)
        }
        _ => None,
    };
    let ret = call.receive(delivered).unwrap();
    assert_eq!(ret.source, "55");
    let result: f64 = serde_json::from_slice(ret.outputs().unwrap()).unwrap();
    assert_eq!(result, 6.0);

    assert_eq!(call.remaining(), 0);
    assert_eq!(call.timeout(now + 1), None);
    assert!(broker.pop(&[call.queue().to_string()]).is_none());
}

#[test]
fn one_response_for_each_destination() {
    let mut broker = Broker::new();
    let request = Request::new("version").destinations(vec![1, 2, 3]);
    let now = request.timestamp;
    let (sent, mut call) = send(request, now);
    broker.rpush(Queue::Local.as_ref(), Message::Sent(sent));
    broker.forward("7");
    assert_eq!(serve(&mut broker, server()), 3);
    broker.relay("1");

    let mut yielded = 0;
    while call.timeout(now).is_some() {
        let delivered = match broker.pop(&[call.queue().to_string()]) {
            Some((_, Message::Response(response))) => Some(response),
            _ => None,
        };
        let ret = call.receive(delivered).unwrap();
        let version: String = serde_json::from_slice(ret.outputs().unwrap()).unwrap();
        assert_eq!(version, "v1.0");
        yielded += 1;
    }
    assert_eq!(yielded, 3);
    assert!(broker.pop(&[call.queue().to_string()]).is_none());
}

#[test]
fn a_request_for_an_unserved_command_gets_no_response() {
    let mut broker = Broker::new();
    let request = Request::new("calculator.wrong").destination(55).args(b"[1,2]");
    let reply_to = request.reply_to.clone();
    let incoming = IncomingRequest {
        version: request.version,
        reference: request.reference,
        source: "7".to_string(),
        command: request.command,
        expiration: request.expiration,
        data: request.data,
        tags: None,
        reply_to: reply_to.clone(),
        schema: request.schema,
        timestamp: request.timestamp,
    };
    let server = server();
    let runner = server.into_runner();
    assert!(runner.run("calculator.wrong", &incoming).is_none());
    broker.relay("55");
    assert!(broker.pop(&[reply_to]).is_none());
}
