use rmb::client::{Request, Upload};
use rmb::protocol::codec::DecodeError;
use rmb::protocol::json::{find, Json, Member};
use rmb::protocol::{Error, IncomingRequest, IncomingResponse, OutgoingResponse};
use serde_json::Value;

fn json_of(value: Value) -> Json {
    match value {
        Value::Null => Json::Null,
        Value::Bool(b) => Json::Bool(b),
        Value::Number(n) => match n.as_u64() {
            Some(n) => Json::Number(n),
            None => Json::OtherNumber,
        },
        Value::String(text) => Json::Text(text),
        Value::Array(items) => Json::List(items.into_iter().map(json_of).collect()),
        Value::Object(members) => Json::Object(
            members.into_iter().map(|(key, value)| Member { key, value: json_of(value) }).collect(),
        ),
    }
}

fn value_of(json: &Json) -> Value {
    match json {
        Json::Null | Json::OtherNumber => Value::Null,
        Json::Bool(b) => Value::Bool(*b),
        Json::Number(n) => Value::from(*n),
        Json::Text(text) => Value::String(text.clone()),
        Json::List(items) => Value::Array(items.iter().map(value_of).collect()),
        Json::Object(members) => Value::Object(
            members.iter().map(|member| (member.key.clone(), value_of(&member.value))).collect(),
        ),
    }
}

fn parse(text: &str) -> Json {
    json_of(serde_json::from_str(text).unwrap())
}

fn print(json: &Json) -> String {
    serde_json::to_string(&value_of(json)).unwrap()
}

fn request() -> Request {
    Request::with_id("calculator.add".to_string(), "the-id".to_string(), 1700000000)
        .destinations(vec![55, 56])
        .expiration(30)
        .args(b"[2,4]")
}

fn incoming_request() -> IncomingRequest {
    IncomingRequest {
        version: 1,
        reference: Some("the-reference".to_string()),
        source: "7".to_string(),
        command: "calculator.add".to_string(),
        expiration: 60,
        data: "WzIsNF0=".to_string(),
        tags: None,
        reply_to: "the-reply-queue".to_string(),
        schema: Some("application/json".to_string()),
        timestamp: 1700000000,
    }
}

fn outgoing_response() -> OutgoingResponse {
    OutgoingResponse {
        version: 1,
        reference: Some("the-reference".to_string()),
        data: "Ni4w".to_string(),
        destination: "7".to_string(),
        schema: Some("application/json".to_string()),
        timestamp: 1700000001,
        error: None,
    }
}

fn incoming_response() -> IncomingResponse {
    IncomingResponse {
        version: 1,
        reference: None,
        data: String::new(),
        source: "55".to_string(),
        schema: None,
        timestamp: 1700000002,
        error: Some(Error { code: 0, message: "cannot divide by zero".to_string() }),
    }
}

#[test]
fn a_request_is_written_under_the_short_keys() {
    let value = value_of(&request().to_json());
    let expected: Value = serde_json::from_str(
        r#"{"ver":1,"ref":"the-id","cmd":"calculator.add","exp":30,"dat":"WzIsNF0=","tag":null,
            "dst":[55,56],"ret":"the-id","shm":"application/json","now":1700000000}"#,
    )
    .unwrap();
    assert_eq!(value, expected);
}

#[test]
fn an_incoming_request_is_written_under_the_short_keys() {
    let value = value_of(&incoming_request().to_json());
    let expected: Value = serde_json::from_str(
        r#"{"ver":1,"ref":"the-reference","src":"7","cmd":"calculator.add","exp":60,
            "dat":"WzIsNF0=","tag":null,"ret":"the-reply-queue","shm":"application/json",
            "now":1700000000}"#,
    )
    .unwrap();
    assert_eq!(value, expected);
}

#[test]
fn an_outgoing_response_is_written_under_the_short_keys() {
    let value = value_of(&outgoing_response().to_json());
    let expected: Value = serde_json::from_str(
        r#"{"ver":1,"ref":"the-reference","dat":"Ni4w","dst":"7","shm":"application/json",
            "now":1700000001,"err":null}"#,
    )
    .unwrap();
    assert_eq!(value, expected);
}

#[test]
fn an_incoming_response_is_written_under_the_short_keys() {
    let value = value_of(&incoming_response().to_json());
    let expected: Value = serde_json::from_str(
        r#"{"ver":1,"ref":null,"dat":"","src":"55","shm":null,"now":1700000002,
            "err":{"code":0,"message":"cannot divide by zero"}}"#,
    )
    .unwrap();
    assert_eq!(value, expected);
}

#[test]
fn a_request_survives_the_wire() {
    let sent = request();
    let back = Request::from_json(&parse(&print(&sent.to_json()))).unwrap();
    assert_eq!(back.version, sent.version);
    assert_eq!(back.reference, sent.reference);
    assert_eq!(back.command, sent.command);
    assert_eq!(back.expiration, sent.expiration);
    assert_eq!(back.data, sent.data);
    assert_eq!(back.tags, sent.tags);
    assert_eq!(back.destinations, sent.destinations);
    assert_eq!(back.reply_to, sent.reply_to);
    assert_eq!(back.schema, sent.schema);
    assert_eq!(back.timestamp, sent.timestamp);
}

#[test]
fn an_incoming_request_survives_the_wire() {
    let mut sent = incoming_request();
    sent.tags = Some("a tag".to_string());
    sent.reference = None;
    let back = IncomingRequest::from_json(&parse(&print(&sent.to_json()))).unwrap();
    assert_eq!(back.version, sent.version);
    assert_eq!(back.reference, sent.reference);
    assert_eq!(back.source, sent.source);
    assert_eq!(back.command, sent.command);
    assert_eq!(back.expiration, sent.expiration);
    assert_eq!(back.data, sent.data);
    assert_eq!(back.tags, sent.tags);
    assert_eq!(back.reply_to, sent.reply_to);
    assert_eq!(back.schema, sent.schema);
    assert_eq!(back.timestamp, sent.timestamp);
}

#[test]
fn an_outgoing_response_survives_the_wire() {
    for error in [None, Some(Error { code: 7, message: "broken".to_string() })] {
        let mut sent = outgoing_response();
        sent.error = error;
        let back = OutgoingResponse::from_json(&parse(&print(&sent.to_json()))).unwrap();
        assert_eq!(back.version, sent.version);
        assert_eq!(back.reference, sent.reference);
        assert_eq!(back.data, sent.data);
        assert_eq!(back.destination, sent.destination);
        assert_eq!(back.schema, sent.schema);
        assert_eq!(back.timestamp, sent.timestamp);
        assert_eq!(back.error.as_ref().map(|e| e.code), sent.error.as_ref().map(|e| e.code));
        assert_eq!(
            back.error.as_ref().map(|e| e.message.clone()),
            sent.error.as_ref().map(|e| e.message.clone())
        );
    }
}

#[test]
fn an_incoming_response_survives_the_wire() {
    let sent = incoming_response();
    let back = IncomingResponse::from_json(&parse(&print(&sent.to_json()))).unwrap();
    assert_eq!(back.version, sent.version);
    assert_eq!(back.reference, sent.reference);
    assert_eq!(back.data, sent.data);
    assert_eq!(back.source, sent.source);
    assert_eq!(back.schema, sent.schema);
    assert_eq!(back.timestamp, sent.timestamp);
    let error = back.error.unwrap();
    assert_eq!(error.code, 0);
    assert_eq!(error.message, "cannot divide by zero");
}

#[test]
fn optional_fields_may_be_missing() {
    let read = IncomingRequest::from_json(&parse(
        r#"{"ver":1,"src":"7","cmd":"version","exp":5,"dat":"","ret":"q","now":10}"#,
    ))
    .unwrap();
    assert_eq!(read.reference, None);
    assert_eq!(read.tags, None);
    assert_eq!(read.schema, None);
    assert_eq!(read.command, "version");
    assert_eq!(read.expiration, 5);
    assert_eq!(read.timestamp, 10);

    let read =
        IncomingResponse::from_json(&parse(r#"{"ver":1,"dat":"Ni4w","src":"55","now":10}"#)).unwrap();
    assert!(read.error.is_none());
    assert_eq!(read.schema, None);
    assert_eq!(read.data, "Ni4w");
}

#[test]
fn unknown_fields_are_passed_over() {
    let read = IncomingResponse::from_json(&parse(
        r#"{"extra":[1,{"deep":true}],"ver":2,"dat":"","src":"55","now":10,"retry":3,
            "err":{"code":4,"message":"m","more":1.5}}"#,
    ))
    .unwrap();
    assert_eq!(read.version, 2);
    let error = read.error.unwrap();
    assert_eq!(error.code, 4);
    assert_eq!(error.message, "m");
}

#[test]
fn a_value_that_is_no_object_is_refused() {
    for text in ["null", "1", "\"text\"", "[]", "[{\"ver\":1}]", "true"] {
        assert!(matches!(
            IncomingRequest::from_json(&parse(text)),
            Err(DecodeError::NotAnObject)
        ));
        assert!(matches!(Request::from_json(&parse(text)), Err(DecodeError::NotAnObject)));
        assert!(matches!(
            OutgoingResponse::from_json(&parse(text)),
            Err(DecodeError::NotAnObject)
        ));
        assert!(matches!(
            IncomingResponse::from_json(&parse(text)),
            Err(DecodeError::NotAnObject)
        ));
    }
}

#[test]
fn a_missing_required_field_is_named() {
    let full = r#"{"ver":1,"src":"7","cmd":"version","exp":5,"dat":"","ret":"q","now":10}"#;
    for key in ["ver", "src", "cmd", "exp", "dat", "ret", "now"] {
        let mut value: Value = serde_json::from_str(full).unwrap();
        value.as_object_mut().unwrap().remove(key);
        match IncomingRequest::from_json(&json_of(value)) {
            Err(DecodeError::Missing(field)) => assert_eq!(field, key),
            _ => panic!("{} is missing", key),
        }
    }
    assert!(matches!(
        IncomingRequest::from_json(&parse("{}")),
        Err(DecodeError::Missing("ver"))
    ));
    assert!(matches!(Request::from_json(&parse("{}")), Err(DecodeError::Missing("ver"))));
    assert!(matches!(
        Request::from_json(&parse(r#"{"ver":1,"cmd":"c","exp":1,"dat":""}"#)),
        Err(DecodeError::Missing("dst"))
    ));
}

#[test]
fn a_field_of_another_type_is_named() {
    let cases = [
        (r#"{"ver":"1"}"#, "ver"),
        (r#"{"ver":-1}"#, "ver"),
        (r#"{"ver":1.5}"#, "ver"),
        (r#"{"ver":null}"#, "ver"),
        (r#"{"ver":1,"ref":5}"#, "ref"),
        (r#"{"ver":1,"ref":"r","src":7}"#, "src"),
        (r#"{"ver":1,"src":"7","cmd":["a"]}"#, "cmd"),
        (r#"{"ver":1,"src":"7","cmd":"c","exp":"60"}"#, "exp"),
        (r#"{"ver":1,"src":"7","cmd":"c","exp":60,"dat":null}"#, "dat"),
        (r#"{"ver":1,"src":"7","cmd":"c","exp":60,"dat":"","tag":{}}"#, "tag"),
        (r#"{"ver":1,"src":"7","cmd":"c","exp":60,"dat":"","ret":false}"#, "ret"),
        (r#"{"ver":1,"src":"7","cmd":"c","exp":60,"dat":"","ret":"q","shm":1}"#, "shm"),
        (r#"{"ver":1,"src":"7","cmd":"c","exp":60,"dat":"","ret":"q","now":-5}"#, "now"),
    ];
    for (text, key) in cases {
        match IncomingRequest::from_json(&parse(text)) {
            Err(DecodeError::Invalid(field)) => assert_eq!(field, key, "{}", text),
            _ => panic!("{} is invalid in {}", key, text),
        }
    }
}

#[test]
fn destinations_are_twin_ids() {
    let head = r#"{"ver":1,"cmd":"c","exp":1,"dat":"","ret":"q","now":1,"dst":"#;
    let read = Request::from_json(&parse(&format!("{}[1,2,4294967295]}}", head))).unwrap();
    assert_eq!(read.destinations, vec![1, 2, u32::MAX]);
    let read = Request::from_json(&parse(&format!("{}[]}}", head))).unwrap();
    assert!(read.destinations.is_empty());
    for bad in ["[4294967296]", "[1,\"2\"]", "[-1]", "[1.5]", "5", "null", "[[1]]"] {
        assert!(matches!(
            Request::from_json(&parse(&format!("{}{}}}", head, bad))),
            Err(DecodeError::Invalid("dst"))
        ));
    }
}

#[test]
fn a_failure_is_an_object_with_code_and_message() {
    let head = r#"{"ver":1,"dat":"","src":"55","now":10,"err":"#;
    for bad in [
        "5",
        "\"message\"",
        "[]",
        "{}",
        r#"{"code":0}"#,
        r#"{"message":"m"}"#,
        r#"{"code":"0","message":"m"}"#,
        r#"{"code":4294967296,"message":"m"}"#,
        r#"{"code":0,"message":null}"#,
    ] {
        assert!(matches!(
            IncomingResponse::from_json(&parse(&format!("{}{}}}", head, bad))),
            Err(DecodeError::Invalid("err"))
        ));
    }
    let read = IncomingResponse::from_json(&parse(&format!(
        "{}{}}}",
        head, r#"{"code":4294967295,"message":""}"#
    )))
    .unwrap();
    assert_eq!(read.error.unwrap().code, u32::MAX);
}

#[test]
fn the_first_bad_field_is_reported() {
    assert!(matches!(
        IncomingRequest::from_json(&parse(r#"{"now":"late","ref":1,"ver":1}"#)),
        Err(DecodeError::Invalid("ref"))
    ));
    assert!(matches!(
        IncomingRequest::from_json(&parse(r#"{"now":"late","ver":1}"#)),
        Err(DecodeError::Missing("src"))
    ));
}

#[test]
fn decode_errors_in_words() {
    assert_eq!(DecodeError::NotAnObject.to_string(), "expected an object");
    assert_eq!(DecodeError::Missing("ver").to_string(), "missing field ver");
    assert_eq!(DecodeError::Invalid("dst").to_string(), "invalid field dst");
    assert_eq!(DecodeError::NotAnObject.field(), None);
    assert_eq!(DecodeError::Missing("ver").field(), Some("ver"));
    assert_eq!(DecodeError::Invalid("dst").field(), Some("dst"));
}

#[test]
fn find_takes_the_first_member_under_a_key() {
    let members = vec![
        Member { key: "a".to_string(), value: Json::Number(1) },
        Member { key: "b".to_string(), value: Json::Number(2) },
        Member { key: "a".to_string(), value: Json::Number(3) },
    ];
    assert!(matches!(find(&members, "a"), Some(Json::Number(1))));
    assert!(matches!(find(&members, "b"), Some(Json::Number(2))));
    assert!(find(&members, "c").is_none());
    assert!(find(&Vec::new(), "a").is_none());
}

#[test]
fn an_upload_is_written_under_its_keys() {
    let upload = Upload { path: "/tmp/file", cmd: "store" };
    let expected: Value = serde_json::from_str(r#"{"path":"/tmp/file","cmd":"store"}"#).unwrap();
    assert_eq!(value_of(&upload.to_json()), expected);
}
