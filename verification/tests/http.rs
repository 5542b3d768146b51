use mcprotocol_rs::error::Error;
use mcprotocol_rs::json::Json;
use mcprotocol_rs::protocol::{
    ImplementationInfo, Message, Method, Notification, Request, RequestId, Response,
    ResponseError, ServerCapabilities,
};
use mcprotocol_rs::session::{Phase, Session};
use mcprotocol_rs::transport::http::client::{
    check_status, endpoint_wait, read_event, wait_for_endpoint, Effect, HttpClient,
    HttpClientConfig, PostRequest, PostTarget, SseClient, WaitStep,
};
use mcprotocol_rs::transport::http::server::{
    auth_status, check_auth, dispatch, parse_client_id, validate_auth_token, AuthFault,
    AuthHeader, AxumHttpServer, Delivery, HttpServerConfig, Registry, Subscription,
};
use mcprotocol_rs::transport::http::{endpoint_data, events_url, messages_url, render_event};
use mcprotocol_rs::transport::{
    ClientTransport, ClientTransportFactory, ServerTransport, ServerTransportFactory,
    TransportConfig, TransportType,
};

fn ping(id: &str) -> Message {
    Message::Request(Request::new(Method::Ping, None, RequestId::String(id.to_string())))
}

fn two_clients() -> Registry {
    let mut registry = Registry::new();
    assert_eq!(registry.subscribe(0), Some(1));
    assert_eq!(registry.subscribe(0), Some(2));
    registry
}

#[test]
fn ping_is_answered_to_the_sender_only() {
    let mut registry = two_clients();
    let body = r#"{"jsonrpc":"2.0","method":"ping","id":"ping-1"}"#;
    let reply = registry.handle_post(Some("1"), body, 10);
    assert_eq!(reply.status, 200);
    assert_eq!(reply.body, "Message sent");
    assert_eq!(reply.deliveries.len(), 1);
    assert_eq!(reply.deliveries[0].client_id, 1);
    assert_eq!(
        reply.deliveries[0].message.encode().unwrap(),
        r#"{"jsonrpc":"2.0","id":"ping-1","result":{}}"#
    );
    assert_eq!(
        render_event("message", &reply.deliveries[0].message.encode().unwrap()),
        "event: message\ndata: {\"jsonrpc\":\"2.0\",\"id\":\"ping-1\",\"result\":{}}\n\n"
    );
}

#[test]
fn later_response_goes_to_the_client_that_asked() {
    let mut registry = two_clients();
    registry.handle_message(Some(2), &ping("x"), 5);
    let answer =
        Message::Response(Response::success(Json::Null, RequestId::String("x".to_string())));
    let deliveries = registry.route(&answer);
    assert_eq!(deliveries, vec![Delivery { client_id: 2, message: answer }]);
    assert_eq!(registry.find_client_by_request_id(&RequestId::String("x".to_string())), Some(2));
    assert_eq!(registry.find_client_by_request_id(&RequestId::String("y".to_string())), None);
}

#[test]
fn response_without_owner_is_dropped() {
    let registry = two_clients();
    let answer = Message::Response(Response::success(Json::Null, RequestId::Number(1)));
    assert!(registry.route(&answer).is_empty());
}

#[test]
fn newer_request_replaces_the_last_request_id() {
    let mut registry = two_clients();
    registry.handle_message(Some(1), &ping("a"), 1);
    registry.handle_message(Some(1), &ping("b"), 2);
    assert_eq!(registry.find_client_by_request_id(&RequestId::String("a".to_string())), None);
    assert_eq!(registry.find_client_by_request_id(&RequestId::String("b".to_string())), Some(1));
}

#[test]
fn first_subscriber_wins_a_shared_request_id() {
    let mut registry = two_clients();
    registry.handle_message(Some(2), &ping("same"), 1);
    registry.handle_message(Some(1), &ping("same"), 2);
    assert_eq!(
        registry.find_client_by_request_id(&RequestId::String("same".to_string())),
        Some(1)
    );
}

#[test]
fn notification_goes_to_every_client() {
    let registry = two_clients();
    let exit = Message::Notification(Notification::new(Method::Exit, None));
    let deliveries = registry.route(&exit);
    assert_eq!(deliveries.len(), 2);
    assert_eq!(deliveries[0].client_id, 1);
    assert_eq!(deliveries[1].client_id, 2);
    for d in &deliveries {
        assert_eq!(d.message.encode().unwrap(), r#"{"jsonrpc":"2.0","method":"exit"}"#);
    }
}

#[test]
fn server_requests_go_to_nobody() {
    let registry = two_clients();
    assert!(registry.route(&ping("s")).is_empty());
}

#[test]
fn exit_notification_clears_the_registry() {
    let mut registry = two_clients();
    let reply = registry.handle_post(Some("1"), r#"{"jsonrpc":"2.0","method":"exit"}"#, 3);
    assert_eq!(reply.status, 200);
    assert!(reply.deliveries.is_empty());
    assert_eq!(registry.len(), 0);
    assert_eq!(registry.subscribe(4), Some(3));
}

#[test]
fn malformed_body_is_a_bad_request() {
    let mut registry = two_clients();
    let reply = registry.handle_post(Some("1"), "{", 3);
    assert_eq!(reply.status, 400);
    assert!(reply.deliveries.is_empty());
    let reply = registry.handle_post(Some("1"), r#"{"jsonrpc":"2.0"}"#, 3);
    assert_eq!(reply.status, 400);
    assert_eq!(reply.body, "message has neither id nor method");
    assert_eq!(registry.len(), 2);
}

#[test]
fn post_without_a_known_sender_has_no_answer() {
    let mut registry = two_clients();
    let body = r#"{"jsonrpc":"2.0","method":"ping","id":1}"#;
    assert!(registry.handle_post(None, body, 3).deliveries.is_empty());
    assert!(registry.handle_post(Some("abc"), body, 3).deliveries.is_empty());
    assert!(registry.handle_post(Some("9"), body, 3).deliveries.is_empty());
    assert_eq!(registry.find_client_by_request_id(&RequestId::Number(1)), None);
}

#[test]
fn dispatcher_knows_ping_and_shutdown() {
    let id = RequestId::Number(3);
    assert_eq!(
        dispatch(&Request::new(Method::Ping, None, id.clone())),
        Response::success(Json::Object(vec![]), id.clone())
    );
    assert_eq!(
        dispatch(&Request::new(Method::Shutdown, None, id.clone())),
        Response::success(Json::Null, id.clone())
    );
    assert_eq!(
        dispatch(&Request::new(Method::ListTools, None, id.clone())),
        Response::error(ResponseError::new(-32601, "Method not found"), id)
    );
}

#[test]
fn silent_clients_are_swept() {
    let mut registry = Registry::new();
    registry.subscribe(0);
    registry.subscribe(1);
    registry.subscribe(200_000);
    registry.touch(1, 150_000);
    registry.cleanup_inactive_clients(300_000);
    assert_eq!(registry.client_ids(), vec![1, 2, 3]);
    registry.cleanup_inactive_clients(300_001);
    assert_eq!(registry.client_ids(), vec![1, 3]);
    registry.cleanup_inactive_clients(449_999);
    assert_eq!(registry.client_ids(), vec![1, 3]);
    registry.cleanup_inactive_clients(450_000);
    assert_eq!(registry.client_ids(), vec![3]);
    registry.cleanup_inactive_clients(100);
    assert_eq!(registry.client_ids(), vec![3]);
}

#[test]
fn posting_counts_as_activity() {
    let mut registry = two_clients();
    registry.handle_post(Some("2"), r#"{"jsonrpc":"2.0","method":"ping","id":1}"#, 250_000);
    registry.cleanup_inactive_clients(300_000);
    assert_eq!(registry.client_ids(), vec![2]);
}

#[test]
fn unsubscribe_removes_one_client() {
    let mut registry = two_clients();
    registry.unsubscribe(1);
    assert!(!registry.contains(1));
    assert!(registry.contains(2));
    registry.unsubscribe(7);
    assert_eq!(registry.len(), 1);
    registry.clear();
    registry.clear();
    assert_eq!(registry.len(), 0);
}

#[test]
fn new_stream_opens_with_the_endpoint_event() {
    let mut registry = Registry::new();
    let first = registry.open_stream("127.0.0.1:3000", 0).unwrap();
    assert_eq!(
        first,
        Subscription {
            client_id: 1,
            endpoint_data: r#"{"endpoint":"http://127.0.0.1:3000/messages","clientId":"1"}"#
                .to_string(),
        }
    );
    assert_eq!(registry.open_stream("127.0.0.1:3000", 0).unwrap().client_id, 2);
    assert_eq!(
        endpoint_data("http://h/messages", 18446744073709551615).unwrap(),
        r#"{"endpoint":"http://h/messages","clientId":"18446744073709551615"}"#
    );
    assert_eq!(messages_url("[::1]:80"), "http://[::1]:80/messages");
    assert_eq!(events_url("http://h:1"), "http://h:1/events");
}

#[test]
fn client_id_header_is_an_unsigned_decimal() {
    assert_eq!(parse_client_id("1"), Some(1));
    assert_eq!(parse_client_id("+7"), Some(7));
    assert_eq!(parse_client_id("007"), Some(7));
    assert_eq!(parse_client_id("18446744073709551615"), Some(u64::MAX));
    assert_eq!(parse_client_id("18446744073709551616"), None);
    assert_eq!(parse_client_id(""), None);
    assert_eq!(parse_client_id("+"), None);
    assert_eq!(parse_client_id("-1"), None);
    assert_eq!(parse_client_id(" 1"), None);
    assert_eq!(parse_client_id("1a"), None);
}

#[test]
fn bearer_token_must_match_exactly() {
    let token = Some("s3cret".to_string());
    let header = |s: &str| AuthHeader::Text(s.to_string());
    assert_eq!(check_auth(&header("Bearer s3cret"), &token), None);
    assert_eq!(check_auth(&header("Bearer s3cret "), &token), Some(AuthFault::Token));
    assert_eq!(check_auth(&header("Bearer "), &token), Some(AuthFault::Token));
    assert_eq!(check_auth(&header("bearer s3cret"), &token), Some(AuthFault::Format));
    assert_eq!(check_auth(&header("Bearer"), &token), Some(AuthFault::Format));
    assert_eq!(check_auth(&AuthHeader::Missing, &token), Some(AuthFault::Missing));
    assert_eq!(check_auth(&AuthHeader::Unreadable, &token), Some(AuthFault::Unreadable));
    assert_eq!(check_auth(&AuthHeader::Missing, &None), None);
    assert_eq!(check_auth(&header("anything"), &None), None);
}

#[test]
fn auth_faults_are_unauthorized() {
    let token = Some("t".to_string());
    assert_eq!(auth_status(&AuthHeader::Text("Bearer t".to_string()), &token), None);
    assert_eq!(auth_status(&AuthHeader::Missing, &token), Some(401));
    assert_eq!(
        validate_auth_token(&AuthHeader::Missing, &token),
        Err(Error::Transport("Missing authorization header".to_string()))
    );
    assert_eq!(
        validate_auth_token(&AuthHeader::Unreadable, &token),
        Err(Error::Transport("Invalid authorization header".to_string()))
    );
    assert_eq!(
        validate_auth_token(&AuthHeader::Text("Basic t".to_string()), &token),
        Err(Error::Transport("Invalid authorization format".to_string()))
    );
    assert_eq!(
        validate_auth_token(&AuthHeader::Text("Bearer u".to_string()), &token),
        Err(Error::Transport("Invalid token".to_string()))
    );
    assert_eq!(validate_auth_token(&AuthHeader::Text("Bearer t".to_string()), &token), Ok(()));
}

#[test]
fn authorization_header_is_checked_by_the_http_library() {
    let config = |token: &str| HttpClientConfig {
        base_url: "http://h".to_string(),
        auth_token: Some(token.to_string()),
    };
    assert_eq!(config("abc").authorization(), Ok(Some("Bearer abc".to_string())));
    assert_eq!(config("a\tb é").authorization(), Ok(Some("Bearer a\tb é".to_string())));
    assert_eq!(
        config("a\nb").authorization(),
        Err(Error::Transport("failed to parse header value".to_string()))
    );
    assert_eq!(
        config("a\u{7f}").authorization(),
        Err(Error::Transport("failed to parse header value".to_string()))
    );
    let none = HttpClientConfig { base_url: "http://h".to_string(), auth_token: None };
    assert_eq!(none.authorization(), Ok(None));
}

#[test]
fn endpoint_event_tells_url_and_client_id() {
    let event = "event: endpoint\ndata: {\"endpoint\":\"http://h/messages\",\"clientId\":\"4\"}";
    assert_eq!(
        wait_for_endpoint(event),
        Some(("http://h/messages".to_string(), "4".to_string()))
    );
    assert_eq!(
        wait_for_endpoint("event: endpoint\ndata:{\"endpoint\":\"u\",\"clientId\":\"4\"}  "),
        Some(("u".to_string(), "4".to_string()))
    );
    assert_eq!(wait_for_endpoint("event: endpoint\ndata: {\"endpoint\":\"u\",\"clientId\":4}"), None);
    assert_eq!(wait_for_endpoint("event: endpoint\ndata: {\"endpoint\":\"u\"}"), None);
    assert_eq!(wait_for_endpoint("event: endpoint\ndata: nonsense"), None);
    assert_eq!(wait_for_endpoint("event: message\ndata: {}"), None);
    assert_eq!(wait_for_endpoint("data: {}\nevent: endpoint"), None);
}

#[test]
fn events_are_read_by_kind() {
    assert_eq!(read_event("data: ping"), Effect::Nothing);
    assert_eq!(read_event("  data: ping\n"), Effect::Nothing);
    assert_eq!(read_event(":ping"), Effect::Nothing);
    assert_eq!(
        read_event("event: message\ndata: {\"jsonrpc\":\"2.0\",\"method\":\"exit\"}"),
        Effect::Deliver(Message::Notification(Notification::new(Method::Exit, None)))
    );
    assert_eq!(read_event("event: message\ndata: {broken"), Effect::Nothing);
    assert_eq!(read_event("event: message\ndata:{\"jsonrpc\":\"2.0\",\"method\":\"exit\"}"), Effect::Nothing);
    assert_eq!(read_event("event: other\ndata: {}"), Effect::Nothing);
    assert_eq!(
        read_event("event: endpoint\ndata: {\"endpoint\":\"u\",\"clientId\":\"1\"}"),
        Effect::Endpoint("u".to_string(), "1".to_string())
    );
}

#[test]
fn stream_is_read_in_chunks() {
    let mut client = SseClient::new();
    assert!(!client.has_endpoint());
    assert_eq!(
        client.post_target(),
        Err(Error::Transport("Message endpoint not initialized".to_string()))
    );
    assert!(client.feed("event: endpoint\ndata: {\"endpoint\":\"http://h/messages\",").is_empty());
    assert!(!client.has_endpoint());
    assert!(client.feed("\"clientId\":\"1\"}\n\ndata: ping\n\nevent: mess").is_empty());
    assert!(client.has_endpoint());
    assert_eq!(
        client.post_target(),
        Ok(PostTarget { url: "http://h/messages".to_string(), client_id: "1".to_string() })
    );
    let got = client.feed(
        "age\ndata: {\"jsonrpc\":\"2.0\",\"id\":\"ping-1\",\"result\":{}}\n\nevent: message\ndata: {\"jsonrpc\":\"2.0\",\"method\":\"exit\"}\n\nevent: message\n",
    );
    assert_eq!(
        got,
        vec![
            Message::Response(Response::success(
                Json::Object(vec![]),
                RequestId::String("ping-1".to_string())
            )),
            Message::Notification(Notification::new(Method::Exit, None)),
        ]
    );
    assert!(client.feed("\n").is_empty());
    client.reset();
    assert!(!client.has_endpoint());
    client.reset();
    assert!(client.feed("data: {\"jsonrpc\":\"2.0\",\"method\":\"exit\"}\n\n").is_empty());
}

#[test]
fn rendered_event_is_read_back() {
    let message = ping("p");
    let frame = render_event("message", &message.encode().unwrap());
    let mut client = SseClient::new();
    assert_eq!(client.feed(&frame), vec![message]);
}

#[test]
fn endpoint_wait_gives_up_after_ten_sleeps() {
    assert_eq!(endpoint_wait(true, 0), WaitStep::Ready);
    assert_eq!(endpoint_wait(true, 10), WaitStep::Ready);
    assert_eq!(endpoint_wait(false, 0), WaitStep::Sleep);
    assert_eq!(endpoint_wait(false, 9), WaitStep::Sleep);
    assert_eq!(
        endpoint_wait(false, 10),
        WaitStep::GiveUp(Error::Transport("Failed to receive endpoint event".to_string()))
    );
}

#[test]
fn only_the_two_hundreds_are_success() {
    assert_eq!(check_status(200), Ok(()));
    assert_eq!(check_status(299), Ok(()));
    assert_eq!(check_status(199), Err(Error::Transport("HTTP status 199".to_string())));
    assert_eq!(check_status(300), Err(Error::Transport("HTTP status 300".to_string())));
    assert_eq!(check_status(401), Err(Error::Transport("HTTP status 401".to_string())));
}

#[test]
fn factories_work_out_the_transports() {
    let stdio = TransportConfig {
        transport_type: TransportType::Stdio {
            server_path: Some("/bin/server".to_string()),
            server_args: Some(vec!["--quiet".to_string()]),
        },
        parameters: None,
    };
    match ClientTransportFactory.create(stdio.clone()).unwrap() {
        ClientTransport::Stdio(c) => {
            assert_eq!(c.server_path, "/bin/server");
            assert_eq!(c.server_args, vec!["--quiet".to_string()]);
            assert_eq!(c.buffer_size, 4096);
            assert!(c.capture_logs);
        }
        other => panic!("{:?}", other),
    }
    match ServerTransportFactory.create(stdio, Ok(())).unwrap() {
        ServerTransport::Stdio(c) => assert_eq!(c.buffer_size, 4096),
        other => panic!("{:?}", other),
    }
    let bare = TransportConfig {
        transport_type: TransportType::Stdio { server_path: None, server_args: None },
        parameters: None,
    };
    match ClientTransportFactory.create(bare).unwrap() {
        ClientTransport::Stdio(c) => {
            assert_eq!(c.server_path, "");
            assert!(c.server_args.is_empty());
        }
        other => panic!("{:?}", other),
    }
    let http = |token: Option<&str>| TransportConfig {
        transport_type: TransportType::Http {
            base_url: "127.0.0.1:3000".to_string(),
            auth_token: token.map(|t| t.to_string()),
        },
        parameters: None,
    };
    match ClientTransportFactory.create(http(Some("k"))).unwrap() {
        ClientTransport::Http { config, authorization } => {
            assert_eq!(config.base_url, "127.0.0.1:3000");
            assert_eq!(authorization, Some("Bearer k".to_string()));
        }
        other => panic!("{:?}", other),
    }
    assert_eq!(
        ClientTransportFactory.create(http(Some("bad\r\n"))),
        Err(Error::Transport("failed to parse header value".to_string()))
    );
    match ServerTransportFactory.create(http(None), Ok(())).unwrap() {
        ServerTransport::Http(c) => {
            assert_eq!(c.addr, "127.0.0.1:3000");
            assert_eq!(c.auth_token, None);
        }
        other => panic!("{:?}", other),
    }
}

#[test]
fn opening_frame_of_a_stream_is_read_back() {
    let mut registry = Registry::new();
    let subscription = registry.open_stream("127.0.0.1:3000", 0).unwrap();
    let frame = render_event("endpoint", &subscription.endpoint_data);
    let mut client = SseClient::new();
    assert!(client.feed(&frame).is_empty());
    assert_eq!(
        client.post_target(),
        Ok(PostTarget {
            url: "http://127.0.0.1:3000/messages".to_string(),
            client_id: "1".to_string(),
        })
    );
    assert_eq!(parse_client_id(&client.post_target().unwrap().client_id), Some(1));
}

fn refused_address() -> Result<(), String> {
    Err("invalid socket address syntax".to_string())
}

fn http_config(base_url: &str) -> TransportConfig {
    TransportConfig {
        transport_type: TransportType::Http {
            base_url: base_url.to_string(),
            auth_token: Some("k".to_string()),
        },
        parameters: None,
    }
}

#[test]
fn server_factory_refuses_what_is_no_socket_address() {
    let refused = ServerTransportFactory.create(http_config("not-an-address"), refused_address());
    assert_eq!(
        refused,
        Err(Error::Transport("Invalid address: invalid socket address syntax".to_string()))
    );
    match refused {
        Err(Error::Transport(m)) => assert!(m.starts_with("Invalid address: ")),
        other => panic!("{:?}", other),
    }
    assert!(ServerTransportFactory
        .create(http_config("http://127.0.0.1:3000"), refused_address())
        .is_err());
    assert_eq!(
        ServerTransportFactory.create(http_config(""), Err(String::new())),
        Err(Error::Transport("Invalid address: ".to_string()))
    );
}

#[test]
fn server_factory_takes_a_socket_address() {
    match ServerTransportFactory
        .create(http_config("127.0.0.1:3000"), Ok(()))
        .unwrap()
    {
        ServerTransport::Http(c) => {
            assert_eq!(c.addr, "127.0.0.1:3000");
            assert_eq!(c.auth_token, Some("k".to_string()));
        }
        other => panic!("{:?}", other),
    }
}

#[test]
fn server_factory_passes_the_address_over_for_a_pipe() {
    let stdio = TransportConfig {
        transport_type: TransportType::Stdio { server_path: None, server_args: None },
        parameters: None,
    };
    match ServerTransportFactory.create(stdio, Err("unused".to_string())).unwrap() {
        ServerTransport::Stdio(c) => assert_eq!(c.buffer_size, 4096),
        other => panic!("{:?}", other),
    }
}

fn told() -> (Json, Json) {
    (
        ServerCapabilities::default().to_json(),
        ImplementationInfo { name: "S".to_string(), version: "1".to_string() }.to_json(),
    )
}

fn post(registry: &mut Registry, session: &mut Session, body: &str) -> Vec<String> {
    let (capabilities, info) = told();
    let reply = registry.handle_session_post(session, 1, body, 7, &capabilities, &info);
    assert_eq!(reply.status, 200);
    assert_eq!(reply.body, "Message sent");
    reply
        .deliveries
        .iter()
        .map(|d| {
            assert_eq!(d.client_id, 1);
            d.message.encode().unwrap()
        })
        .collect()
}

#[test]
fn request_over_http_before_the_handshake_is_refused() {
    let mut registry = two_clients();
    let mut session = Session::new();
    assert_eq!(
        post(&mut registry, &mut session, r#"{"jsonrpc":"2.0","method":"tools/list","id":1}"#),
        vec![
            r#"{"jsonrpc":"2.0","id":1,"error":{"code":-32002,"message":"Server not initialized"}}"#
        ]
    );
    assert_eq!(
        post(&mut registry, &mut session, r#"{"jsonrpc":"2.0","method":"ping","id":"ping-1"}"#),
        vec![
            r#"{"jsonrpc":"2.0","id":"ping-1","error":{"code":-32002,"message":"Server not initialized"}}"#
        ]
    );
    assert_eq!(registry.find_client_by_request_id(&RequestId::String("ping-1".to_string())), Some(1));
}

#[test]
fn handshake_over_http_opens_the_session() {
    let mut registry = two_clients();
    let mut session = Session::new();
    let initialize = r#"{"jsonrpc":"2.0","method":"initialize","params":{"protocolVersion":"2024-11-05","capabilities":{},"clientInfo":{"name":"T","version":"1"}},"id":1}"#;
    assert_eq!(
        post(&mut registry, &mut session, initialize),
        vec![
            r#"{"jsonrpc":"2.0","id":1,"result":{"protocolVersion":"2024-11-05","capabilities":{},"serverInfo":{"name":"S","version":"1"}}}"#
        ]
    );
    assert!(post(&mut registry, &mut session, r#"{"jsonrpc":"2.0","method":"initialized"}"#)
        .is_empty());
    assert_eq!(session.phase(), Phase::Active);
    assert_eq!(
        post(&mut registry, &mut session, r#"{"jsonrpc":"2.0","method":"ping","id":"ping-1"}"#),
        vec![r#"{"jsonrpc":"2.0","id":"ping-1","result":{}}"#]
    );
    assert_eq!(
        post(&mut registry, &mut session, r#"{"jsonrpc":"2.0","method":"tools/list","id":3}"#),
        vec![r#"{"jsonrpc":"2.0","id":3,"error":{"code":-32601,"message":"Method not found"}}"#]
    );
    let again = initialize.replace("\"id\":1", "\"id\":4");
    assert_eq!(
        post(&mut registry, &mut session, &again),
        vec![
            r#"{"jsonrpc":"2.0","id":4,"error":{"code":-32600,"message":"Server already initialized"}}"#
        ]
    );
    assert_eq!(
        post(&mut registry, &mut session, r#"{"jsonrpc":"2.0","method":"ping","id":3}"#),
        vec![
            r#"{"jsonrpc":"2.0","id":3,"error":{"code":-32600,"message":"Request ID has already been used"}}"#
        ]
    );
    assert!(post(&mut registry, &mut session, r#"{"jsonrpc":"2.0","method":"exit"}"#).is_empty());
    assert_eq!(session.phase(), Phase::Exited);
    assert_eq!(registry.len(), 0);
}

#[test]
fn version_mismatch_over_http_is_refused_with_detail() {
    let mut registry = two_clients();
    let mut session = Session::new();
    let initialize = r#"{"jsonrpc":"2.0","method":"initialize","params":{"protocolVersion":"1.0.0"},"id":1}"#;
    assert_eq!(
        post(&mut registry, &mut session, initialize),
        vec![
            r#"{"jsonrpc":"2.0","id":1,"error":{"code":-32600,"message":"Unsupported protocol version","data":{"supported":["2024-11-05"],"requested":"1.0.0"}}}"#
        ]
    );
    assert_eq!(session.phase(), Phase::Uninitialized);
}

#[test]
fn session_post_with_a_bad_body_changes_nothing() {
    let mut registry = two_clients();
    let mut session = Session::new();
    let (capabilities, info) = told();
    let reply = registry.handle_session_post(&mut session, 1, "{", 7, &capabilities, &info);
    assert_eq!(reply.status, 400);
    assert!(reply.deliveries.is_empty());
    assert_eq!(session.phase(), Phase::Uninitialized);
    let unknown = registry.handle_session_post(
        &mut session,
        9,
        r#"{"jsonrpc":"2.0","method":"ping","id":1}"#,
        7,
        &capabilities,
        &info,
    );
    assert_eq!(unknown.status, 200);
    assert!(unknown.deliveries.is_empty());
}

fn http_client(token: Option<&str>) -> Result<HttpClient, Error> {
    HttpClient::new(HttpClientConfig {
        base_url: "http://127.0.0.1:3000".to_string(),
        auth_token: token.map(|t| t.to_string()),
    })
}

#[test]
fn http_client_is_made_with_its_authorization() {
    let client = http_client(Some("k")).unwrap();
    assert_eq!(client.authorization(), Some(&"Bearer k".to_string()));
    assert_eq!(client.events_url(), "http://127.0.0.1:3000/events");
    assert_eq!(http_client(None).unwrap().authorization(), None);
    assert_eq!(
        http_client(Some("a\nb")).err(),
        Some(Error::Transport("failed to parse header value".to_string()))
    );
}

#[test]
fn http_client_posts_only_after_the_endpoint_event() {
    let mut client = http_client(None).unwrap();
    assert_eq!(
        client.send(&ping("ping-1")),
        Err(Error::Transport("Message endpoint not initialized".to_string()))
    );
    assert_eq!(client.initialize(0), WaitStep::Sleep);
    assert_eq!(
        client.initialize(10),
        WaitStep::GiveUp(Error::Transport("Failed to receive endpoint event".to_string()))
    );
    client.subscribe();
    assert!(client
        .feed("event: endpoint\ndata: {\"endpoint\":\"http://h/messages\",\"clientId\":\"1\"}\n\n")
        .is_empty());
    assert_eq!(client.initialize(10), WaitStep::Ready);
    assert_eq!(
        client.send(&ping("ping-1")),
        Ok(PostRequest {
            url: "http://h/messages".to_string(),
            client_id: "1".to_string(),
            body: r#"{"jsonrpc":"2.0","method":"ping","id":"ping-1"}"#.to_string(),
        })
    );
}

#[test]
fn http_client_receives_from_its_queue() {
    let mut client = http_client(None).unwrap();
    let exit = Message::Notification(Notification::new(Method::Exit, None));
    assert_eq!(
        client.receive(Some(exit.clone())),
        Err(Error::Transport("SSE connection not established".to_string()))
    );
    client.subscribe();
    let got = client.feed("event: message\ndata: {\"jsonrpc\":\"2.0\",\"method\":\"exit\"}\n\n");
    assert_eq!(got, vec![exit.clone()]);
    assert_eq!(client.receive(Some(exit.clone())), Ok(exit.clone()));
    assert_eq!(
        client.receive(None),
        Err(Error::Transport("SSE connection closed".to_string()))
    );
    client.close();
    client.close();
    assert_eq!(
        client.receive(Some(exit)),
        Err(Error::Transport("SSE connection not established".to_string()))
    );
    assert_eq!(
        client.send(&ping("p")),
        Err(Error::Transport("Message endpoint not initialized".to_string()))
    );
}

fn http_server(token: Option<&str>) -> AxumHttpServer {
    AxumHttpServer::new(HttpServerConfig {
        addr: "127.0.0.1:3000".to_string(),
        auth_token: token.map(|t| t.to_string()),
    })
}

#[test]
fn http_server_stops_what_lacks_its_token() {
    let server = http_server(Some("k"));
    assert_eq!(server.addr(), "127.0.0.1:3000");
    assert_eq!(server.authorize(&AuthHeader::Text("Bearer k".to_string())), None);
    assert_eq!(server.authorize(&AuthHeader::Text("Bearer x".to_string())), Some(401));
    assert_eq!(server.authorize(&AuthHeader::Missing), Some(401));
    assert_eq!(http_server(None).authorize(&AuthHeader::Missing), None);
}

#[test]
fn http_server_answers_the_sender_and_broadcasts() {
    let mut server = http_server(None);
    let first = server.sse_handler(0).unwrap();
    assert_eq!(
        first,
        Subscription {
            client_id: 1,
            endpoint_data: r#"{"endpoint":"http://127.0.0.1:3000/messages","clientId":"1"}"#
                .to_string(),
        }
    );
    assert_eq!(server.sse_handler(0).unwrap().client_id, 2);
    let (capabilities, info) = told();
    let mut session = Session::new();
    let refused = server.message_handler(
        &mut session,
        1,
        r#"{"jsonrpc":"2.0","method":"tools/list","id":1}"#,
        5,
        &capabilities,
        &info,
    );
    assert_eq!(refused.status, 200);
    assert_eq!(refused.deliveries.len(), 1);
    assert_eq!(refused.deliveries[0].client_id, 1);
    assert_eq!(
        refused.deliveries[0].message.encode().unwrap(),
        r#"{"jsonrpc":"2.0","id":1,"error":{"code":-32002,"message":"Server not initialized"}}"#
    );
    let plain = server.handle_post(Some("2"), r#"{"jsonrpc":"2.0","method":"ping","id":"ping-1"}"#, 6);
    assert_eq!(plain.deliveries.len(), 1);
    assert_eq!(plain.deliveries[0].client_id, 2);
    let answer =
        Message::Response(Response::success(Json::Null, RequestId::String("ping-1".to_string())));
    assert_eq!(
        server.send(&answer),
        vec![Delivery { client_id: 2, message: answer }]
    );
    let exit = Message::Notification(Notification::new(Method::Exit, None));
    let all = server.send(&exit);
    assert_eq!(all.len(), 2);
    assert_eq!((all[0].client_id, all[1].client_id), (1, 2));
    assert_eq!(
        server.receive(),
        Err(Error::Transport(
            "Server does not support direct message receiving. Use HTTP POST endpoint instead."
                .to_string()
        ))
    );
    server.unsubscribe(1);
    assert!(!server.contains(1));
    server.cleanup_inactive_clients(300_006);
    assert!(!server.contains(2));
    assert_eq!(server.sse_handler(1).unwrap().client_id, 3);
    server.close();
    server.close();
    assert!(!server.contains(3));
    assert!(server.send(&exit).is_empty());
}
