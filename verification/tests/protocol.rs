use rmb::protocol::{
    copy_text, json_schema, Error, IncomingRequest, OutgoingResponse, Queue, JSON_SCHEMA,
};

fn request() -> IncomingRequest {
    IncomingRequest {
        version: 1,
        reference: Some("ref-1".to_string()),
        source: "7".to_string(),
        command: "calculator.add".to_string(),
        expiration: 60,
        data: "WzIsNF0=".to_string(),
        tags: None,
        reply_to: "reply-queue".to_string(),
        schema: Some("application/json".to_string()),
        timestamp: 1000,
    }
}

#[test]
fn queue_keys() {
    assert_eq!(Queue::Local.as_ref(), "msgbus.system.local");
    assert_eq!(Queue::Reply.as_ref(), "msgbus.system.reply");
    assert_eq!(Queue::Local.to_string(), "msgbus.system.local");
    assert_eq!(Queue::Reply.to_string(), "msgbus.system.reply");
}

#[test]
fn json_is_the_schema_by_name_or_by_default() {
    assert_eq!(JSON_SCHEMA, "application/json");
    assert!(json_schema(Some("application/json")));
    assert!(json_schema(None));
    assert!(!json_schema(Some("")));
    assert!(!json_schema(Some("application/xml")));
    assert!(!json_schema(Some("APPLICATION/JSON")));
}

#[test]
fn copy_text_copies() {
    assert_eq!(copy_text(&Some("abc".to_string())), Some("abc".to_string()));
    assert_eq!(copy_text(&None), None);
}

#[test]
fn success_answers_the_source() {
    let response =
        OutgoingResponse::success(&request(), "MzAuMA==".to_string(), "text/plain".to_string(), 1234);
    assert_eq!(response.version, 1);
    assert_eq!(response.reference, Some("ref-1".to_string()));
    assert_eq!(response.destination, "7");
    assert_eq!(response.data, "MzAuMA==");
    assert_eq!(response.schema, Some("text/plain".to_string()));
    assert_eq!(response.timestamp, 1234);
    assert!(response.error.is_none());
}

#[test]
fn failure_carries_the_message_and_no_body() {
    let mut request = request();
    request.reference = None;
    request.version = 3;
    let response = OutgoingResponse::failure(&request, "it broke".to_string(), 99);
    assert_eq!(response.version, 3);
    assert_eq!(response.reference, None);
    assert_eq!(response.destination, "7");
    assert_eq!(response.data, "");
    assert_eq!(response.schema, None);
    assert_eq!(response.timestamp, 99);
    let Error { code, message } = response.error.unwrap();
    assert_eq!(code, 0);
    assert_eq!(message, "it broke");
}
