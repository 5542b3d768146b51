use mcprotocol_rs::error_codes;
use mcprotocol_rs::json::Json;
use mcprotocol_rs::protocol::{
    Message, Method, Notification, Request, RequestId, Response, ResponseError, UsedIds,
    PROTOCOL_VERSION,
};

fn text(s: &str) -> Json {
    Json::Str(s.to_string())
}

fn object(members: Vec<(&str, Json)>) -> Json {
    Json::Object(members.into_iter().map(|(k, v)| (k.to_string(), v)).collect())
}

fn is_unique_id(id: &RequestId, used_ids: &mut UsedIds) -> bool {
    used_ids.insert(id)
}

fn to_string_of_request(request: &Request) -> String {
    request.to_json().to_text().unwrap()
}

fn to_string_of_response(response: &Response) -> String {
    response.to_json().to_text().unwrap()
}

#[test]
fn test_request_id_must_be_string_or_integer() {
    let string_id = RequestId::String("test-id".to_string());
    let request = Request::new(Method::Initialize, None, string_id.clone());
    assert!(matches!(request.id, RequestId::String(_)));

    let integer_id = RequestId::Number(42);
    let request = Request::new(Method::Initialize, None, integer_id.clone());
    assert!(matches!(request.id, RequestId::Number(_)));
}

#[test]
fn test_request_id_uniqueness() {
    let mut used_ids = UsedIds::new();

    let id1 = RequestId::String("test-1".to_string());
    let id2 = RequestId::String("test-1".to_string());

    assert!(is_unique_id(&id1, &mut used_ids));
    assert!(!is_unique_id(&id2, &mut used_ids));

    let id3 = RequestId::Number(1);
    let id4 = RequestId::Number(1);

    assert!(is_unique_id(&id3, &mut used_ids));
    assert!(!is_unique_id(&id4, &mut used_ids));
}

#[test]
fn test_request_id_serialization() {
    let string_id = RequestId::String("test-id".to_string());
    let json = string_id.encode().unwrap();
    assert_eq!(json, r#""test-id""#);

    let integer_id = RequestId::Number(42);
    let json = integer_id.encode().unwrap();
    assert_eq!(json, "42");
}

#[test]
fn test_request_id_deserialization() {
    let json = r#""test-id""#;
    let id: RequestId = RequestId::decode(json).unwrap();
    assert!(matches!(id, RequestId::String(s) if s == "test-id"));

    let json = "42";
    let id: RequestId = RequestId::decode(json).unwrap();
    assert!(matches!(id, RequestId::Number(n) if n == 42));

    let json = "null";
    let result = RequestId::decode(json);
    assert!(result.is_err());
}

#[test]
fn test_request_with_same_id_in_different_sessions() {
    let id = RequestId::Number(1);

    let mut session1_ids = UsedIds::new();
    assert!(is_unique_id(&id, &mut session1_ids));

    let mut session2_ids = UsedIds::new();
    assert!(is_unique_id(&id, &mut session2_ids));
}

#[test]
fn test_response_must_match_request_id() {
    let request_id = RequestId::Number(42);
    let _request = Request::new(Method::Initialize, None, request_id.clone());

    let success_response =
        Response::success(object(vec![("result", text("success"))]), request_id.clone());
    assert!(matches!(success_response.id, RequestId::Number(42)));

    let error_response = Response::error(
        ResponseError {
            code: error_codes::INTERNAL_ERROR,
            message: "error".to_string(),
            data: None,
        },
        request_id.clone(),
    );
    assert!(matches!(error_response.id, RequestId::Number(42)));

    let different_id = RequestId::Number(43);
    let different_response =
        Response::success(object(vec![("result", text("success"))]), different_id);
    assert!(matches!(different_response.id, RequestId::Number(43)));
}

#[test]
fn test_response_must_set_result_or_error_not_both() {
    let id = RequestId::Number(1);

    let success_response = Response::success(object(vec![("data", text("success"))]), id.clone());
    assert!(success_response.result.is_some());
    assert!(success_response.error.is_none());

    let error_response = Response::error(
        ResponseError {
            code: error_codes::INTERNAL_ERROR,
            message: "error".to_string(),
            data: None,
        },
        id.clone(),
    );
    assert!(error_response.result.is_none());
    assert!(error_response.error.is_some());

    let success_json = to_string_of_response(&success_response);
    assert!(!success_json.contains(r#""error""#));

    let error_json = to_string_of_response(&error_response);
    assert!(!error_json.contains(r#""result""#));
}

#[test]
fn test_error_code_must_be_integer() {
    let id = RequestId::Number(1);

    let standard_errors = [
        error_codes::PARSE_ERROR,
        error_codes::INVALID_REQUEST,
        error_codes::METHOD_NOT_FOUND,
        error_codes::INVALID_PARAMS,
        error_codes::INTERNAL_ERROR,
        error_codes::SERVER_NOT_INITIALIZED,
        error_codes::UNKNOWN_ERROR_CODE,
        error_codes::REQUEST_CANCELLED,
    ];

    for &code in &standard_errors {
        let error_response = Response::error(
            ResponseError {
                code,
                message: "test error".to_string(),
                data: None,
            },
            id.clone(),
        );

        if let Some(error) = error_response.error {
            assert_eq!(
                std::mem::size_of_val(&error.code),
                std::mem::size_of::<i32>()
            );

            let json = error.to_json().to_text().unwrap();
            assert!(json.contains(&format!(r#"code":{}"#, error.code)));
        } else {
            panic!("Error field should be set");
        }
    }

    let custom_codes = [-1, 0, 1, 1000, -1000];
    for code in custom_codes {
        let error_response = Response::error(
            ResponseError {
                code,
                message: "custom error".to_string(),
                data: None,
            },
            id.clone(),
        );

        if let Some(error) = error_response.error {
            assert_eq!(error.code, code);
            assert_eq!(
                std::mem::size_of_val(&error.code),
                std::mem::size_of::<i32>()
            );
        } else {
            panic!("Error field should be set");
        }
    }
}

#[test]
fn test_notification_must_not_contain_id() {
    let notification = Notification::new(
        Method::Initialized,
        Some(object(vec![("status", text("ready"))])),
    );

    let json_str = notification.to_json().to_text().unwrap();

    assert!(!json_str.contains(r#""id""#));

    let json_without_id = r#"{
            "jsonrpc": "2.0",
            "method": "initialized",
            "params": {"status": "ready"}
        }"#;
    let parsed: Message = Message::decode(json_without_id).unwrap();
    assert!(matches!(parsed, Message::Notification(_)));

    let json_with_id = r#"{
            "jsonrpc": "2.0",
            "method": "initialized",
            "params": {"status": "ready"},
            "id": 1
        }"#;
    let parsed: Message = Message::decode(json_with_id).unwrap();
    assert!(matches!(parsed, Message::Request(_)));
    assert!(!matches!(parsed, Message::Notification(_)));
}

#[test]
fn test_initialization_protocol_compliance() {
    let request = Request::new(
        Method::Initialize,
        Some(object(vec![
            ("protocolVersion", text(PROTOCOL_VERSION)),
            (
                "capabilities",
                object(vec![
                    ("roots", object(vec![("listChanged", Json::Bool(true))])),
                    ("sampling", object(vec![])),
                ]),
            ),
            (
                "clientInfo",
                object(vec![("name", text("TestClient")), ("version", text("1.0.0"))]),
            ),
        ])),
        RequestId::Number(1),
    );

    let request_json = to_string_of_request(&request);

    assert!(request_json.contains(r#""method":"initialize""#));
    assert!(request_json.contains(PROTOCOL_VERSION));
    assert!(request_json.contains(r#""capabilities""#));
    assert!(request_json.contains(r#""clientInfo""#));

    let response = Response::success(
        object(vec![
            ("protocolVersion", text(PROTOCOL_VERSION)),
            (
                "capabilities",
                object(vec![
                    ("prompts", object(vec![("listChanged", Json::Bool(true))])),
                    (
                        "resources",
                        object(vec![
                            ("subscribe", Json::Bool(true)),
                            ("listChanged", Json::Bool(true)),
                        ]),
                    ),
                    ("tools", object(vec![("listChanged", Json::Bool(true))])),
                    ("logging", object(vec![])),
                ]),
            ),
            (
                "serverInfo",
                object(vec![("name", text("TestServer")), ("version", text("1.0.0"))]),
            ),
        ]),
        RequestId::Number(1),
    );

    let response_json = to_string_of_response(&response);

    assert!(response_json.contains(PROTOCOL_VERSION));
    assert!(response_json.contains(r#""capabilities""#));
    assert!(response_json.contains(r#""serverInfo""#));

    let notification = Notification::new(Method::Initialized, None);
    let notification_json = notification.to_json().to_text().unwrap();

    assert!(notification_json.contains(r#""method":"initialized""#));
    assert!(!notification_json.contains(r#""id""#));
}

#[test]
fn test_initialization_version_negotiation() {
    let client_request = Request::new(
        Method::Initialize,
        Some(object(vec![("protocolVersion", text(PROTOCOL_VERSION))])),
        RequestId::Number(1),
    );

    let server_response = Response::success(
        object(vec![("protocolVersion", text(PROTOCOL_VERSION))]),
        RequestId::Number(1),
    );

    let client_version: String = client_request
        .params
        .unwrap()
        .get_str("protocolVersion")
        .unwrap()
        .clone();

    let server_version: String = server_response
        .result
        .unwrap()
        .get_str("protocolVersion")
        .unwrap()
        .clone();

    assert_eq!(client_version, server_version);
    assert_eq!(client_version, PROTOCOL_VERSION);

    let unsupported_version = "1.0.0";
    let _client_request = Request::new(
        Method::Initialize,
        Some(object(vec![("protocolVersion", text(unsupported_version))])),
        RequestId::Number(2),
    );

    let server_error = Response::error(
        ResponseError {
            code: error_codes::INVALID_REQUEST,
            message: "Unsupported protocol version".to_string(),
            data: Some(object(vec![
                ("supported", Json::Array(vec![text(PROTOCOL_VERSION)])),
                ("requested", text(unsupported_version)),
            ])),
        },
        RequestId::Number(2),
    );

    let error_json = to_string_of_response(&server_error);
    assert!(error_json.contains("Unsupported protocol version"));
    assert!(error_json.contains(PROTOCOL_VERSION));
    assert!(error_json.contains(unsupported_version));
}

#[test]
fn test_ping_mechanism() {
    let ping_request = Request::new(Method::Ping, None, RequestId::String("ping-1".to_string()));

    let request_json = to_string_of_request(&ping_request);
    assert!(request_json.contains(r#""method":"ping""#));
    assert!(request_json.contains(r#""id":"ping-1""#));
    assert!(!request_json.contains("params"));

    let ping_response = Response::success(object(vec![]), RequestId::String("ping-1".to_string()));

    let response_json = to_string_of_response(&ping_response);
    assert!(response_json.contains(r#""result":{}"#));
    assert!(response_json.contains(r#""id":"ping-1""#));
    assert!(!response_json.contains("error"));

    let mut session_ids = UsedIds::new();
    assert!(ping_request.validate_id_uniqueness(&mut session_ids));
    assert!(!ping_request.validate_id_uniqueness(&mut session_ids));

    let mismatched_response =
        Response::success(object(vec![]), RequestId::String("wrong-id".to_string()));
    assert_ne!(ping_request.id, mismatched_response.id);

    let timeout_error = Response::error(
        ResponseError {
            code: error_codes::REQUEST_CANCELLED,
            message: "Ping timeout".to_string(),
            data: None,
        },
        RequestId::String("ping-1".to_string()),
    );

    let error_json = to_string_of_response(&timeout_error);
    assert!(error_json.contains("Ping timeout"));
    assert!(error_json.contains(&error_codes::REQUEST_CANCELLED.to_string()));
}

#[test]
fn test_ping_pong_sequence() {
    let mut session_ids = UsedIds::new();

    let ping_request = Request::new(
        Method::Ping,
        None,
        RequestId::String("ping-seq-1".to_string()),
    );
    assert!(ping_request.validate_id_uniqueness(&mut session_ids));

    let pong_response =
        Response::success(object(vec![]), RequestId::String("ping-seq-1".to_string()));

    assert_eq!(ping_request.id, pong_response.id);
    assert!(pong_response.result.is_some());
    assert!(pong_response.error.is_none());

    let ping_request_2 = Request::new(
        Method::Ping,
        None,
        RequestId::String("ping-seq-2".to_string()),
    );
    assert!(ping_request_2.validate_id_uniqueness(&mut session_ids));

    assert_ne!(ping_request.id, ping_request_2.id);
}
