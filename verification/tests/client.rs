use rmb::client::{send, upload, Call, Request, RequestBuilder, ResponseErr, Return};
use rmb::protocol::{Error, IncomingResponse};

fn response(source: &str, data: &str) -> IncomingResponse {
    IncomingResponse {
        version: 1,
        reference: Some("the-reference".to_string()),
        data: data.to_string(),
        source: source.to_string(),
        schema: Some("application/json".to_string()),
        timestamp: 500,
        error: None,
    }
}

fn failed(source: &str, message: &str) -> IncomingResponse {
    let mut response = response(source, "");
    response.schema = None;
    response.error = Some(Error { code: 0, message: message.to_string() });
    response
}

fn is_uuid(text: &str) -> bool {
    text.len() == 36
        && text.chars().enumerate().all(|(i, c)| match i {
            8 | 13 | 18 | 23 => c == '-',
            _ => c.is_ascii_hexdigit(),
        })
}

#[test]
fn a_new_request_has_the_defaults() {
    let request = Request::new("calculator.add");
    assert_eq!(request.version, 1);
    assert_eq!(request.command, "calculator.add");
    assert_eq!(request.expiration, 60);
    assert!(request.destinations.is_empty());
    assert_eq!(request.data, "");
    assert_eq!(request.schema, Some("application/json".to_string()));
    assert_eq!(request.tags, None);
    assert!(is_uuid(&request.reply_to), "{}", request.reply_to);
    assert_eq!(request.reference, Some(request.reply_to.clone()));
    assert!(request.timestamp > 1_600_000_000);
}

#[test]
fn new_requests_bear_different_identifiers() {
    let a = Request::new("x");
    let b = Request::new("x");
    assert_ne!(a.reply_to, b.reply_to);
    assert_ne!(a.reply_to, "x");
}

#[test]
fn with_id_fixes_the_identifier_and_the_time() {
    let request = Request::with_id("version".to_string(), "the-id".to_string(), 1234);
    assert_eq!(request.version, 1);
    assert_eq!(request.command, "version");
    assert_eq!(request.reply_to, "the-id");
    assert_eq!(request.reference, Some("the-id".to_string()));
    assert_eq!(request.timestamp, 1234);
    assert_eq!(request.expiration, 60);
    assert_eq!(request.schema, Some("application/json".to_string()));
    assert!(request.destinations.is_empty());
    assert!(request.data.is_empty());
    assert!(request.tags.is_none());
}

#[test]
fn destinations_are_appended_in_order() {
    let request = Request::with_id("c".to_string(), "i".to_string(), 0)
        .destination(7)
        .destinations(vec![1, 2, 3])
        .destination(7)
        .destinations(vec![]);
    assert_eq!(request.destinations, vec![7, 1, 2, 3, 7]);
    assert_eq!(request.destinations_len(), 5);
    assert_eq!(request.command, "c");
    assert_eq!(request.reply_to, "i");
}

#[test]
fn expiration_is_stored_in_seconds() {
    let request = Request::with_id("c".to_string(), "i".to_string(), 100).expiration(5);
    assert_eq!(request.expiration, 5);
    assert_eq!(request.calc_deadline(), 105);
    assert_eq!(request.timestamp, 100);
}

#[test]
fn args_sets_the_body_in_base64() {
    let request = Request::with_id("c".to_string(), "i".to_string(), 0).args(b"hello world");
    assert_eq!(request.data, "aGVsbG8gd29ybGQ=");
    let request = request.args(b"[2,4]");
    assert_eq!(request.data, "WzIsNF0=");
    let request = request.args(b"");
    assert_eq!(request.data, "");
    assert_eq!(request.command, "c");
}

#[test]
fn data_sets_the_body_as_it_is() {
    let request = Request::with_id("c".to_string(), "i".to_string(), 0).data("WzIsNF0=".to_string());
    assert_eq!(request.data, "WzIsNF0=");
}

#[test]
fn a_body_comes_back_from_base64_as_it_was() {
    let bodies: [&[u8]; 6] = [b"", b"a", b"ab", b"abc", b"[10.0,20]", &[0, 255, 128, 7, 200]];
    for body in bodies {
        let request = Request::with_id("c".to_string(), "i".to_string(), 0).args(body);
        let back = Return::from(response("1", &request.data));
        assert_eq!(back.payload.unwrap(), body);
    }
}

#[test]
fn stamp_sets_the_time_only() {
    let request = Request::with_id("c".to_string(), "i".to_string(), 5).destination(1).stamp(77);
    assert_eq!(request.timestamp, 77);
    assert_eq!(request.destinations, vec![1]);
    assert_eq!(request.reply_to, "i");
    let request = request.update_timestamp();
    assert!(request.timestamp > 1_600_000_000);
    assert_eq!(request.reply_to, "i");
}

#[test]
fn get_ret_is_the_reply_queue() {
    let request = Request::with_id("c".to_string(), "the-queue".to_string(), 5);
    assert_eq!(request.get_ret(), "the-queue");
}

#[test]
fn body_is_a_copy_of_the_request() {
    let request = Request::with_id("calculator.add".to_string(), "i".to_string(), 5)
        .destination(55)
        .expiration(9)
        .args(b"[2,4]");
    let copy = request.body();
    assert_eq!(copy.version, request.version);
    assert_eq!(copy.reference, request.reference);
    assert_eq!(copy.command, request.command);
    assert_eq!(copy.expiration, request.expiration);
    assert_eq!(copy.data, request.data);
    assert_eq!(copy.tags, request.tags);
    assert_eq!(copy.destinations, request.destinations);
    assert_eq!(copy.reply_to, request.reply_to);
    assert_eq!(copy.schema, request.schema);
    assert_eq!(copy.timestamp, request.timestamp);
}

#[test]
fn a_builder_describes_the_request() {
    let builder = Request::builder("calculator.add")
        .destination(55)
        .destinations(vec![56, 57])
        .expiration(30)
        .args(b"[2,4]");
    let request = Request::assemble(builder, "the-id".to_string(), 10);
    assert_eq!(request.version, 1);
    assert_eq!(request.command, "calculator.add");
    assert_eq!(request.destinations, vec![55, 56, 57]);
    assert_eq!(request.expiration, 30);
    assert_eq!(request.data, "WzIsNF0=");
    assert_eq!(request.reply_to, "the-id");
    assert_eq!(request.reference, Some("the-id".to_string()));
    assert_eq!(request.schema, Some("application/json".to_string()));
    assert_eq!(request.tags, None);
    assert_eq!(request.timestamp, 10);
}

#[test]
fn a_builder_starts_with_the_defaults() {
    let request = Request::from(RequestBuilder::new("version".to_string()));
    assert_eq!(request.command, "version");
    assert_eq!(request.expiration, 60);
    assert!(request.destinations.is_empty());
    assert_eq!(request.data, "");
    assert!(is_uuid(&request.reply_to));
    assert_eq!(request.reference, Some(request.reply_to.clone()));
    assert!(request.timestamp > 1_600_000_000);
}

#[test]
fn upload_asks_for_the_upload_command() {
    let request = upload(9, br#"{"path":"/tmp/file","cmd":"store"}"#);
    assert_eq!(request.command, "msgbus.system.file.upload");
    assert_eq!(request.destinations, vec![9]);
    assert_eq!(
        base64::decode(&request.data).unwrap(),
        br#"{"path":"/tmp/file","cmd":"store"}"#
    );
    assert!(is_uuid(&request.reply_to));
}

#[test]
fn send_stamps_the_request_and_opens_the_call() {
    let request = Request::with_id("c".to_string(), "the-queue".to_string(), 5)
        .destinations(vec![1, 2, 3])
        .expiration(60);
    let (sent, call) = send(request, 1000);
    assert_eq!(sent.timestamp, 1000);
    assert_eq!(sent.reply_to, "the-queue");
    assert_eq!(sent.destinations, vec![1, 2, 3]);
    assert_eq!(call.queue(), "the-queue");
    assert_eq!(call.remaining(), 3);
    assert_eq!(call.timeout(1000), Some(60));
    assert_eq!(call.timeout(1060), Some(0));
    assert_eq!(call.timeout(1061), None);
}

#[test]
fn a_return_of_a_good_response_holds_the_body() {
    let ret = Return::from(response("55", "Ni4w"));
    assert_eq!(ret.source, "55");
    assert_eq!(ret.schema, Some("application/json".to_string()));
    assert_eq!(ret.payload.as_ref().unwrap(), b"6.0");
    assert_eq!(ret.outputs().unwrap(), b"6.0");
}

#[test]
fn a_return_of_a_failure_is_a_remote_error() {
    let ret = Return::from(failed("55", "cannot divide by zero"));
    assert_eq!(ret.source, "55");
    assert!(matches!(&ret.payload, Err(ResponseErr::Remote(m)) if m == "cannot divide by zero"));
    assert!(matches!(ret.outputs(), Err(ResponseErr::Remote(m)) if m == "cannot divide by zero"));
}

#[test]
fn a_remote_error_comes_before_a_bad_body() {
    let mut msg = failed("55", "broken");
    msg.data = "!!!".to_string();
    let ret = Return::from(msg);
    assert!(matches!(&ret.payload, Err(ResponseErr::Remote(m)) if m == "broken"));
}

#[test]
fn a_return_of_a_bad_body_is_a_protocol_error() {
    let ret = Return::from(response("55", "!!!!"));
    let expected = base64::decode("!!!!").unwrap_err().to_string();
    assert!(matches!(&ret.payload, Err(ResponseErr::Protocol(m)) if *m == expected));
    assert!(matches!(&ret.payload, Err(ResponseErr::Protocol(m)) if m == "Invalid byte 33, offset 0."));
    assert!(matches!(ret.outputs(), Err(ResponseErr::Protocol(m)) if m == expected));
}

#[test]
fn of_goes_by_the_decoded_body() {
    let ret = Return::of(response("1", "ignored"), Ok(b"body".to_vec()));
    assert_eq!(ret.payload.unwrap(), b"body");
    let ret = Return::of(response("1", "ignored"), Err("complaint".to_string()));
    assert!(matches!(&ret.payload, Err(ResponseErr::Protocol(m)) if m == "complaint"));
    let ret = Return::of(failed("1", "remote"), Ok(b"body".to_vec()));
    assert!(matches!(&ret.payload, Err(ResponseErr::Remote(m)) if m == "remote"));
}

#[test]
fn outputs_wants_json() {
    let mut msg = response("55", "Ni4w");
    msg.schema = Some("text/plain".to_string());
    let ret = Return::from(msg);
    assert_eq!(ret.payload.as_ref().unwrap(), b"6.0");
    assert!(matches!(ret.outputs(), Err(ResponseErr::Remote(m)) if m == "not supported encoding type"));

    let mut msg = response("55", "Ni4w");
    msg.schema = None;
    let ret = Return::from(msg);
    assert_eq!(ret.outputs().unwrap(), b"6.0");
}

#[test]
fn response_errors_in_words() {
    assert_eq!(ResponseErr::Protocol("bad".to_string()).to_string(), "protocol error: bad");
    assert_eq!(ResponseErr::Remote("worse".to_string()).to_string(), "remote error: worse");
    assert!(matches!(ResponseErr::Remote("x".to_string()).copy(), ResponseErr::Remote(m) if m == "x"));
    assert!(matches!(ResponseErr::Protocol("y".to_string()).copy(), ResponseErr::Protocol(m) if m == "y"));
}

#[test]
fn deadline_expiry() {
    let request = Request::new("calculator.add").destination(55).expiration(1);
    let now = request.timestamp;
    let (_sent, mut call) = send(request, now);
    assert_eq!(call.timeout(now), Some(1));
    assert_eq!(call.timeout(now + 1), Some(0));
    assert_eq!(call.timeout(now + 2), None);
    assert_eq!(call.remaining(), 1);
    assert!(call.receive(None).is_none());
    assert_eq!(call.remaining(), 1);
    assert_eq!(call.timeout(now + 2), None);
}

#[test]
fn fan_in() {
    let request = Request::new("version").destinations(vec![1, 2, 3]);
    let now = request.timestamp;
    let (_sent, mut call) = send(request, now);
    for (round, source) in ["1", "2", "3"].iter().enumerate() {
        assert_eq!(call.timeout(now + round as u64), Some(60 - round as u64));
        let ret = call.receive(Some(response(source, "InYxLjAi"))).unwrap();
        assert_eq!(ret.source, *source);
        assert_eq!(ret.outputs().unwrap(), br#""v1.0""#);
        assert_eq!(call.remaining(), 2 - round);
    }
    assert_eq!(call.timeout(now + 3), None);
    assert!(call.receive(Some(response("4", ""))).is_none());
    assert_eq!(call.remaining(), 0);
}

#[test]
fn yields_and_remaining_add_up() {
    let mut call = Call::new("q".to_string(), 4, 1000);
    let deliveries = [Some("a"), None, Some("b"), None, None, Some("c"), Some("d"), Some("e"), None];
    let mut yielded = 0;
    for delivery in deliveries {
        let ret = call.receive(delivery.map(|source| response(source, "")));
        if ret.is_some() {
            yielded += 1;
        }
        assert_eq!(yielded + call.remaining(), 4);
    }
    assert_eq!(yielded, 4);
    assert_eq!(call.remaining(), 0);
}

#[test]
fn a_timeout_counts_as_no_response() {
    let mut call = Call::new("q".to_string(), 2, 1000);
    assert!(call.receive(None).is_none());
    assert_eq!(call.remaining(), 2);
    assert_eq!(call.timeout(0), Some(1000));
}

#[test]
fn a_call_without_destinations_awaits_nothing() {
    let mut call = Call::new("q".to_string(), 0, u64::MAX);
    assert_eq!(call.timeout(0), None);
    assert!(call.receive(Some(response("1", ""))).is_none());
    assert_eq!(call.remaining(), 0);
}
