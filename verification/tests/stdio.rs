use mcprotocol_rs::error::Error;
use mcprotocol_rs::json::Json;
use mcprotocol_rs::protocol::{Message, Method, Notification, Request, RequestId};
use mcprotocol_rs::protocol::{Response, ResponseError};
use mcprotocol_rs::transport::stdio::client::{
    close_step, launch_error, log_line, receive_line as client_receive, ChildAction, ChildEvent,
    ChildState, LaunchFault, StderrMode, StdioClient, StdioClientConfig,
};
use mcprotocol_rs::transport::stdio::server::{
    receive_line as server_receive, StdioServer, StdioServerConfig,
};
use mcprotocol_rs::transport::stdio::{frame, frame_message};

#[test]
fn frame_ends_with_the_only_newline() {
    let message = Message::Request(Request::new(
        Method::Ping,
        Some(Json::Str("line one\nline two".to_string())),
        RequestId::Number(1),
    ));
    let framed = frame_message(&message).unwrap();
    assert_eq!(
        framed,
        "{\"jsonrpc\":\"2.0\",\"method\":\"ping\",\"params\":\"line one\\nline two\",\"id\":1}\n"
    );
    assert_eq!(framed.bytes().filter(|b| *b == b'\n').count(), 1);
    assert_eq!(framed.as_bytes().last(), Some(&b'\n'));
}

#[test]
fn text_with_a_newline_is_not_framed() {
    assert_eq!(frame("{}"), Ok("{}\n".to_string()));
    assert_eq!(frame(""), Ok("\n".to_string()));
    assert_eq!(
        frame("{\n}"),
        Err(Error::Transport("Message contains embedded newlines".to_string()))
    );
    assert_eq!(
        frame("{}\n"),
        Err(Error::Transport("Message contains embedded newlines".to_string()))
    );
}

#[test]
fn client_reads_a_line() {
    let line = "{\"jsonrpc\":\"2.0\",\"method\":\"exit\"}\n";
    assert_eq!(
        client_receive(line),
        Ok(Message::Notification(Notification::new(Method::Exit, None)))
    );
    assert_eq!(
        client_receive(""),
        Err(Error::Transport("Server process terminated".to_string()))
    );
    assert!(matches!(client_receive("not json\n"), Err(Error::Serialization(_))));
    assert_eq!(
        client_receive("{\"jsonrpc\":\"2.0\"}\n"),
        Err(Error::Protocol("message has neither id nor method".to_string()))
    );
}

#[test]
fn server_reads_a_line() {
    let line = "{\"jsonrpc\":\"2.0\",\"method\":\"ping\",\"id\":\"a\"}\n";
    assert_eq!(
        server_receive(line),
        Ok(Message::Request(Request::new(Method::Ping, None, RequestId::String("a".to_string()))))
    );
    assert_eq!(
        server_receive(""),
        Err(Error::Transport("Client connection closed".to_string()))
    );
    match server_receive("oops\n") {
        Err(Error::Transport(text)) => {
            assert!(text.starts_with("Invalid message format: expected"), "{}", text)
        }
        other => panic!("{:?}", other),
    }
    assert_eq!(
        server_receive("[]\n"),
        Err(Error::Transport(
            "Invalid message format: message is not a JSON object".to_string()
        ))
    );
}

#[test]
fn defaults_of_the_pipe_transport() {
    let client = StdioClientConfig::default();
    assert_eq!(client.server_path, "mcp-server");
    assert!(client.server_args.is_empty());
    assert_eq!(client.buffer_size, 4096);
    assert!(client.capture_logs);
    assert_eq!(client.stderr_mode(), StderrMode::Piped);
    let quiet = StdioClientConfig { capture_logs: false, ..client };
    assert_eq!(quiet.stderr_mode(), StderrMode::Inherited);
    assert_eq!(StdioServerConfig::default().buffer_size, 4096);
}

#[test]
fn launch_faults_become_transport_errors() {
    assert_eq!(
        launch_error(&LaunchFault::Spawn("No such file".to_string())),
        Error::Transport("Failed to start server: No such file".to_string())
    );
    assert_eq!(
        launch_error(&LaunchFault::NoStdin),
        Error::Transport("Failed to get server stdin handle".to_string())
    );
    assert_eq!(
        launch_error(&LaunchFault::NoStdout),
        Error::Transport("Failed to get server stdout handle".to_string())
    );
}

#[test]
fn log_lines_are_tagged_and_trimmed() {
    assert_eq!(log_line("  ready \r\n"), "[MCP Server] ready");
    assert_eq!(log_line("\u{3000}a b\u{a0}"), "[MCP Server] a b");
    assert_eq!(log_line(" \t "), "[MCP Server] ");
}

#[test]
fn close_shuts_stdin_then_kills_after_the_wait() {
    let (state, action) = close_step(ChildState::Running, &ChildEvent::CloseRequested);
    assert_eq!((state, action), (ChildState::Draining, ChildAction::CloseStdinAndWait));
    let (state, action) = close_step(state, &ChildEvent::TimedOut);
    assert_eq!((state, action), (ChildState::Killing, ChildAction::Kill));
    let gone = ChildEvent::Exited { success: false, status: "signal: 9 (SIGKILL)".to_string() };
    let (state, action) = close_step(state, &gone);
    assert_eq!(state, ChildState::Absent);
    assert_eq!(
        action,
        ChildAction::Finish(Err(Error::Transport(
            "Server process exited with status: signal: 9 (SIGKILL)".to_string()
        )))
    );
}

#[test]
fn close_of_a_child_that_exits_in_time_succeeds() {
    let (state, _) = close_step(ChildState::Running, &ChildEvent::CloseRequested);
    let done = ChildEvent::Exited { success: true, status: "exit status: 0".to_string() };
    assert_eq!(close_step(state, &done), (ChildState::Absent, ChildAction::Finish(Ok(()))));
}

#[test]
fn close_is_idempotent() {
    assert_eq!(
        close_step(ChildState::Absent, &ChildEvent::CloseRequested),
        (ChildState::Absent, ChildAction::Finish(Ok(())))
    );
    assert_eq!(
        close_step(ChildState::Draining, &ChildEvent::CloseRequested),
        (ChildState::Draining, ChildAction::KeepWaiting)
    );
    assert_eq!(
        close_step(ChildState::Killing, &ChildEvent::TimedOut),
        (ChildState::Killing, ChildAction::KeepWaiting)
    );
}

#[test]
fn failed_wait_is_a_transport_error() {
    assert_eq!(
        close_step(ChildState::Draining, &ChildEvent::WaitFailed("EINTR".to_string())),
        (
            ChildState::Absent,
            ChildAction::Finish(Err(Error::Transport(
                "Failed to wait for server process: EINTR".to_string()
            )))
        )
    );
}

fn running_client() -> StdioClient {
    let mut client = StdioClient::new(StdioClientConfig::default());
    assert_eq!(client.child(), ChildState::Absent);
    assert_eq!(client.initialize(Ok(())), Ok(()));
    assert_eq!(client.child(), ChildState::Running);
    client
}

fn request(id: RequestId) -> Message {
    Message::Request(Request::new(Method::ListTools, None, id))
}

#[test]
fn client_sends_one_line_per_message() {
    let mut client = running_client();
    let frame = client.send(&request(RequestId::Number(1))).unwrap();
    assert_eq!(frame, "{\"jsonrpc\":\"2.0\",\"method\":\"tools/list\",\"id\":1}\n");
    assert_eq!(frame.bytes().filter(|b| *b == b'\n').count(), 1);
    assert_eq!(frame.as_bytes().last(), Some(&b'\n'));
    let note = Message::Notification(Notification::new(Method::Initialized, None));
    assert_eq!(
        client.send(&note),
        Ok("{\"jsonrpc\":\"2.0\",\"method\":\"initialized\"}\n".to_string())
    );
    assert_eq!(
        client.send(&note),
        Ok("{\"jsonrpc\":\"2.0\",\"method\":\"initialized\"}\n".to_string())
    );
}

#[test]
fn client_refuses_a_second_request_with_one_id() {
    let mut client = running_client();
    assert!(client.send(&request(RequestId::Number(1))).is_ok());
    assert!(client.send(&request(RequestId::Number(2))).is_ok());
    let refused = Err(Error::Protocol(
        "Request ID has already been used in this session".to_string(),
    ));
    assert_eq!(client.send(&request(RequestId::Number(1))), refused);
    assert_eq!(client.send(&request(RequestId::String("1".to_string()))), refused);
    assert!(client.send(&request(RequestId::Number(3))).is_ok());
    let answer = Message::Response(Response::success(Json::Null, RequestId::Number(1)));
    assert!(client.send(&answer).is_ok());
}

#[test]
fn client_sends_nothing_before_the_child_runs() {
    let mut client = StdioClient::new(StdioClientConfig::default());
    let not_started = Err(Error::Transport("Server process not initialized".to_string()));
    assert_eq!(client.send(&request(RequestId::Number(1))), not_started);
    assert_eq!(
        client.receive("{}\n"),
        Err(Error::Transport("Server process not initialized".to_string()))
    );
    assert_eq!(
        client.initialize(Err(LaunchFault::Spawn("denied".to_string()))),
        Err(Error::Transport("Failed to start server: denied".to_string()))
    );
    assert_eq!(client.child(), ChildState::Absent);
    assert_eq!(client.initialize(Ok(())), Ok(()));
    assert!(client.send(&request(RequestId::Number(1))).is_ok());
}

#[test]
fn client_reads_responses_from_lines() {
    let client = running_client();
    let success = Message::Response(Response::success(Json::Null, RequestId::Number(4)));
    let line = format!("{}\n", success.encode().unwrap());
    assert_eq!(line, "{\"jsonrpc\":\"2.0\",\"id\":4,\"result\":null}\n");
    assert_eq!(client.receive(&line), Ok(success));
    let failure = Message::Response(Response::error(
        ResponseError {
            code: -32603,
            message: "boom".to_string(),
            data: Some(Json::Array(vec![Json::integer(1), Json::Str("x".to_string())])),
        },
        RequestId::String("r".to_string()),
    ));
    let line = format!("{}\n", failure.encode().unwrap());
    assert_eq!(client.receive(&line), Ok(failure));
    assert_eq!(
        client.receive(""),
        Err(Error::Transport("Server process terminated".to_string()))
    );
}

#[test]
fn client_close_runs_from_stdin_to_kill() {
    let mut client = running_client();
    assert_eq!(client.close(&ChildEvent::CloseRequested), ChildAction::CloseStdinAndWait);
    assert_eq!(client.child(), ChildState::Draining);
    assert_eq!(
        client.send(&request(RequestId::Number(1))),
        Err(Error::Transport("Server process not initialized".to_string()))
    );
    assert_eq!(client.close(&ChildEvent::TimedOut), ChildAction::Kill);
    assert_eq!(client.child(), ChildState::Killing);
    let gone = ChildEvent::Exited { success: false, status: "signal: 9".to_string() };
    assert_eq!(
        client.close(&gone),
        ChildAction::Finish(Err(Error::Transport(
            "Server process exited with status: signal: 9".to_string()
        )))
    );
    assert_eq!(client.child(), ChildState::Absent);
    assert_eq!(client.close(&ChildEvent::CloseRequested), ChildAction::Finish(Ok(())));
}

#[test]
fn server_core_frames_reads_and_logs() {
    let server = StdioServer::new(StdioServerConfig::default());
    assert_eq!(server.config().buffer_size, 4096);
    assert_eq!(server.initialize(), "MCP server initialized");
    assert_eq!(server.close(), "MCP server shutting down");
    assert_eq!(server.log("ready"), "ready\n");
    let note = Message::Notification(Notification::new(
        Method::Progress,
        Some(Json::Object(vec![("value".to_string(), Json::integer(3))])),
    ));
    let frame = server.send(&note).unwrap();
    assert_eq!(frame, "{\"jsonrpc\":\"2.0\",\"method\":\"$/progress\",\"params\":{\"value\":3}}\n");
    assert_eq!(server.receive(&frame), Ok(note));
    let asked = request(RequestId::String("q".to_string()));
    let line = format!("{}\n", asked.encode().unwrap());
    assert_eq!(server.receive(&line), Ok(asked));
    assert_eq!(
        server.receive(""),
        Err(Error::Transport("Client connection closed".to_string()))
    );
}
