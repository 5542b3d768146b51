use mcprotocol_rs::error::Error;
use mcprotocol_rs::json::Json;
use mcprotocol_rs::protocol::codec::Fault;
use mcprotocol_rs::protocol::{
    Message, Method, Notification, Request, RequestId, Response, ResponseError,
};

#[test]
fn request_encodes_in_field_order() {
    let request = Request::new(Method::Ping, None, RequestId::String("ping-1".to_string()));
    let text = Message::Request(request).encode().unwrap();
    assert_eq!(text, r#"{"jsonrpc":"2.0","method":"ping","id":"ping-1"}"#);
}

#[test]
fn response_round_trips_through_text() {
    let response = Response::success(Json::Object(vec![]), RequestId::Number(7));
    let text = Message::Response(response).encode().unwrap();
    assert_eq!(text, r#"{"jsonrpc":"2.0","id":7,"result":{}}"#);
    let back = Message::decode(&text).unwrap();
    assert_eq!(
        back,
        Message::Response(Response::success(Json::Object(vec![]), RequestId::Number(7)))
    );
}

#[test]
fn error_response_round_trips_through_text() {
    let error = ResponseError {
        code: -32600,
        message: "Unsupported protocol version".to_string(),
        data: Some(Json::Object(vec![(
            "requested".to_string(),
            Json::Str("1.0.0".to_string()),
        )])),
    };
    let message = Message::Response(Response::error(error, RequestId::Number(2)));
    let text = message.encode().unwrap();
    assert_eq!(
        text,
        r#"{"jsonrpc":"2.0","id":2,"error":{"code":-32600,"message":"Unsupported protocol version","data":{"requested":"1.0.0"}}}"#
    );
    assert_eq!(Message::decode(&text).unwrap(), message);
}

#[test]
fn notification_round_trips_through_text() {
    let message = Message::Notification(Notification::new(Method::Exit, None));
    let text = message.encode().unwrap();
    assert_eq!(text, r#"{"jsonrpc":"2.0","method":"exit"}"#);
    assert_eq!(Message::decode(&text).unwrap(), message);
}

#[test]
fn decode_names_each_fault() {
    let fault = |text: &str| Message::from_json(&Json::parse(text).unwrap()).unwrap_err();
    assert_eq!(fault("[]"), Fault::NotAnObject);
    assert_eq!(fault(r#"{"method":"ping","id":1}"#), Fault::Version);
    assert_eq!(fault(r#"{"jsonrpc":"1.0","method":"ping","id":1}"#), Fault::Version);
    assert_eq!(fault(r#"{"jsonrpc":"2.0","method":"ping","id":null}"#), Fault::Id);
    assert_eq!(fault(r#"{"jsonrpc":"2.0","method":"ping","id":3.14}"#), Fault::Id);
    assert_eq!(fault(r#"{"jsonrpc":"2.0","method":7,"id":1}"#), Fault::Method);
    assert_eq!(fault(r#"{"jsonrpc":"2.0"}"#), Fault::Shape);
    assert_eq!(fault(r#"{"jsonrpc":"2.0","id":1}"#), Fault::Outcome);
    assert_eq!(
        fault(r#"{"jsonrpc":"2.0","id":1,"result":1,"error":{"code":1,"message":"m"}}"#),
        Fault::Outcome
    );
    assert_eq!(fault(r#"{"jsonrpc":"2.0","id":1,"error":{"code":"x"}}"#), Fault::ErrorObject);
}

#[test]
fn decode_reports_bad_json_as_serialization_error() {
    let err = Message::decode("{not json").unwrap_err();
    assert!(matches!(err, Error::Serialization(_)));
}

#[test]
fn unknown_members_are_tolerated() {
    let text = r#"{"jsonrpc":"2.0","method":"tools/list","extra":[1,2.5,"x"],"id":9}"#;
    let message = Message::decode(text).unwrap();
    assert_eq!(
        message,
        Message::Request(Request::new(Method::ListTools, None, RequestId::Number(9)))
    );
}

#[test]
fn fractions_pass_through_payloads() {
    let text = r#"{"jsonrpc":"2.0","method":"sampling/request","params":{"temperature":0.7},"id":1}"#;
    let message = Message::decode(text).unwrap();
    assert_eq!(message.encode().unwrap(), text);
}

#[test]
fn errors_read_with_the_name_of_their_layer() {
    assert_eq!(
        Error::JsonRpc { code: -32601, message: "Method not found".to_string() }.to_text(),
        "JSON-RPC error: -32601 - Method not found"
    );
    assert_eq!(Error::Protocol("p".to_string()).to_text(), "Protocol error: p");
    assert_eq!(Error::Transport("t".to_string()).to_text(), "Transport error: t");
    assert_eq!(Error::Serialization("s".to_string()).to_text(), "Serialization error: s");
    assert_eq!(Error::Io("i".to_string()).to_text(), "IO error: i");
    assert_eq!(Error::Http("h".to_string()).to_text(), "HTTP error: h");
}
