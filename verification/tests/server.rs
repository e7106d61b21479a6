use networking::error::LibError;
use networking::frame::ReadEvent;
use networking::message::MessageType;
use networking::payload::ReadOutcome;
use networking::server::{
    complete_response, create_response, handle_client, receive_request, send_response, Lookup,
    Outcome, Response, ServerAction, ServerEvent, ServerState,
};

fn request(line: &str) -> ServerEvent {
    ServerEvent::Request(ReadEvent::Bytes(line.as_bytes().to_vec()))
}

fn sent_text(action: &ServerAction) -> String {
    match action {
        ServerAction::Send(bytes) => match MessageType::decode(bytes).unwrap() {
            MessageType::Text(text) => text,
            other => panic!("unexpected: {:?}", other),
        },
        other => panic!("unexpected: {:?}", other),
    }
}

#[test]
fn text_is_echoed() {
    let (state, action) = handle_client(ServerState::AwaitRequest, request("hello world"));
    assert!(matches!(state, ServerState::SendResponse { quit: false }));
    assert_eq!(sent_text(&action), "hello world");
    let (state, action) = handle_client(state, ServerEvent::Sent(Outcome::Done));
    assert!(matches!(state, ServerState::AwaitRequest));
    assert!(matches!(action, ServerAction::ReadRequest));
}

#[test]
fn quit_is_answered_and_the_connection_shut_down() {
    let (state, action) = handle_client(ServerState::AwaitRequest, request(".quit"));
    assert!(matches!(state, ServerState::SendResponse { quit: true }));
    match action {
        ServerAction::Send(bytes) => assert_eq!(bytes, MessageType::Quit.encode()),
        other => panic!("unexpected: {:?}", other),
    }
    let (state, action) = handle_client(state, ServerEvent::Sent(Outcome::Done));
    assert!(matches!(state, ServerState::Closed));
    assert!(matches!(action, ServerAction::Shutdown));
}

#[test]
fn nothing_is_read_after_quit() {
    let (state, _) = handle_client(ServerState::AwaitRequest, request(".quit now"));
    let (mut state, _) = handle_client(state, ServerEvent::Sent(Outcome::Done));
    for event in [
        request("more"),
        ServerEvent::Payload(ReadOutcome::Failed),
        ServerEvent::Sent(Outcome::Done),
        ServerEvent::Request(ReadEvent::Bytes(vec![])),
    ] {
        let (next, action) = handle_client(state, event);
        assert!(matches!(next, ServerState::Closed));
        assert!(matches!(action, ServerAction::Rest));
        state = next;
    }
}

#[test]
fn a_wrong_image_extension_is_answered_without_a_read() {
    for line in [".image notes.txt", ".image photo.jpg", ".image  dir/photo.jpg \n"] {
        let (state, action) = handle_client(ServerState::AwaitRequest, request(line));
        assert!(matches!(state, ServerState::SendResponse { quit: false }), "{:?}", line);
        assert_eq!(
            sent_text(&action),
            "Wrong image extension. Only PNG images are supported."
        );
    }
}

#[test]
fn a_missing_file_is_answered_with_a_text() {
    let (state, action) = handle_client(ServerState::AwaitRequest, request(".file missing.csv"));
    match &action {
        ServerAction::ReadFile(path) => assert_eq!(path, "missing.csv"),
        other => panic!("unexpected: {:?}", other),
    }
    assert!(matches!(state, ServerState::BuildResponse(Lookup::File(_))));
    let (state, action) = handle_client(state, ServerEvent::Payload(ReadOutcome::Failed));
    assert!(matches!(state, ServerState::SendResponse { quit: false }));
    assert_eq!(sent_text(&action), "Error reading file: \"missing.csv\"");
}

#[test]
fn a_file_is_read_and_sent() {
    let (state, action) = handle_client(ServerState::AwaitRequest, request(".file dir/a.txt"));
    assert!(matches!(action, ServerAction::ReadFile(ref path) if path == "dir/a.txt"));
    let (state, action) =
        handle_client(state, ServerEvent::Payload(ReadOutcome::Content(b"data".to_vec())));
    assert!(matches!(state, ServerState::SendResponse { quit: false }));
    match action {
        ServerAction::Send(bytes) => match MessageType::decode(&bytes).unwrap() {
            MessageType::File { name, content } => {
                assert_eq!(name, "a.txt");
                assert_eq!(content, b"data");
            }
            other => panic!("unexpected: {:?}", other),
        },
        other => panic!("unexpected: {:?}", other),
    }
}

#[test]
fn an_image_is_sent_byte_for_byte() {
    let bytes: Vec<u8> = vec![0x89, b'P', b'N', b'G', 13, 10, 26, 10, 1, 2, 3];
    let (state, action) = handle_client(ServerState::AwaitRequest, request(".image photo.png"));
    assert!(matches!(action, ServerAction::ReadFile(ref path) if path == "photo.png"));
    assert!(matches!(state, ServerState::BuildResponse(Lookup::Image(_))));
    let (_, action) =
        handle_client(state, ServerEvent::Payload(ReadOutcome::Content(bytes.clone())));
    match action {
        ServerAction::Send(sent) => match MessageType::decode(&sent).unwrap() {
            MessageType::Image(content) => assert_eq!(content, bytes),
            other => panic!("unexpected: {:?}", other),
        },
        other => panic!("unexpected: {:?}", other),
    }
}

#[test]
fn a_file_request_without_a_name_reads_nothing() {
    let (state, action) = handle_client(ServerState::AwaitRequest, request(".file .."));
    assert!(matches!(state, ServerState::SendResponse { quit: false }));
    assert_eq!(sent_text(&action), "Error parsing file name");
}

#[test]
fn the_end_of_the_stream_closes_the_connection() {
    let (state, action) =
        handle_client(ServerState::AwaitRequest, ServerEvent::Request(ReadEvent::Bytes(vec![])));
    assert!(matches!(state, ServerState::Closed));
    assert!(matches!(action, ServerAction::Abort(LibError::ConnectionClosed)));
}

#[test]
fn a_failed_read_or_write_closes_the_connection() {
    let (state, action) = handle_client(
        ServerState::AwaitRequest,
        ServerEvent::Request(ReadEvent::Failed("reset".to_string())),
    );
    assert!(matches!(state, ServerState::Closed));
    assert!(matches!(action, ServerAction::Abort(LibError::IoError(ref why)) if why == "reset"));
    for quit in [false, true] {
        let (state, action) = handle_client(
            ServerState::SendResponse { quit },
            ServerEvent::Sent(Outcome::Failed("broken pipe".to_string())),
        );
        assert!(matches!(state, ServerState::Closed));
        assert!(
            matches!(action, ServerAction::Abort(LibError::IoError(ref why)) if why == "broken pipe")
        );
    }
}

#[test]
fn a_request_that_is_not_utf8_closes_the_connection() {
    match receive_request(ReadEvent::Bytes(vec![b'a', 0xff])) {
        Err(error @ LibError::SerializationError(_)) => {
            assert_eq!(error.message(), "Serialization error: request is not valid UTF-8")
        }
        other => panic!("unexpected: {:?}", other),
    }
    let (state, action) = handle_client(
        ServerState::AwaitRequest,
        ServerEvent::Request(ReadEvent::Bytes(vec![0xc3])),
    );
    assert!(matches!(state, ServerState::Closed));
    assert!(matches!(action, ServerAction::Abort(LibError::SerializationError(_))));
}

#[test]
fn an_event_out_of_turn_closes_the_connection() {
    let cases = [
        (ServerState::AwaitRequest, ServerEvent::Sent(Outcome::Done)),
        (ServerState::AwaitRequest, ServerEvent::Payload(ReadOutcome::Failed)),
        (ServerState::SendResponse { quit: false }, request("x")),
        (
            ServerState::BuildResponse(Lookup::File("a".to_string())),
            ServerEvent::Sent(Outcome::Done),
        ),
    ];
    for (state, event) in cases {
        let (state, action) = handle_client(state, event);
        assert!(matches!(state, ServerState::Closed));
        assert!(
            matches!(action, ServerAction::Abort(LibError::IoError(ref why)) if why == "event out of turn")
        );
    }
}

#[test]
fn the_request_is_the_text_of_one_read() {
    assert_eq!(receive_request(ReadEvent::Bytes("zażółć".as_bytes().to_vec())).unwrap(), "zażółć");
    assert!(matches!(
        receive_request(ReadEvent::Bytes(vec![])),
        Err(LibError::ConnectionClosed)
    ));
    assert!(matches!(
        receive_request(ReadEvent::Failed("x".to_string())),
        Err(LibError::IoError(_))
    ));
}

#[test]
fn a_response_is_ready_or_waits_for_a_file() {
    assert!(matches!(create_response(".quit"), Response::Ready(MessageType::Quit)));
    assert!(
        matches!(create_response(" hi "), Response::Ready(MessageType::Text(ref t)) if t == "hi")
    );
    assert!(
        matches!(create_response(".file a/b"), Response::Waiting(Lookup::File(ref p)) if p == "a/b")
    );
    assert!(
        matches!(create_response(".image a.png"), Response::Waiting(Lookup::Image(ref p)) if p == "a.png")
    );
    assert!(matches!(create_response(".image a.gif"), Response::Ready(MessageType::Text(_))));
    assert!(matches!(create_response(".file /"), Response::Ready(MessageType::Text(_))));
}

#[test]
fn a_response_is_completed_by_the_read() {
    match complete_response(Lookup::File("d/f.txt".to_string()), ReadOutcome::Content(vec![1])) {
        MessageType::File { name, content } => {
            assert_eq!(name, "f.txt");
            assert_eq!(content, vec![1]);
        }
        other => panic!("unexpected: {:?}", other),
    }
    assert!(matches!(
        complete_response(Lookup::Image("p.png".to_string()), ReadOutcome::Content(vec![2])),
        MessageType::Image(ref b) if b == &vec![2]
    ));
    assert!(matches!(
        complete_response(Lookup::Image("p.png".to_string()), ReadOutcome::Failed),
        MessageType::Text(ref t) if t == "Error reading image: \"p.png\""
    ));
}

#[test]
fn sending_writes_the_encoding() {
    let message = MessageType::from_text("x");
    let (state, action) = send_response(&message);
    assert!(matches!(state, ServerState::SendResponse { quit: false }));
    assert!(matches!(action, ServerAction::Send(ref bytes) if bytes == &message.encode()));
    let (state, _) = send_response(&MessageType::Quit);
    assert!(matches!(state, ServerState::SendResponse { quit: true }));
}

#[test]
fn two_connections_get_their_own_text_back() {
    // Two handlers served in turns, in every order of their events.
    let orders: [[bool; 4]; 6] = [
        [true, true, false, false],
        [true, false, true, false],
        [true, false, false, true],
        [false, true, true, false],
        [false, true, false, true],
        [false, false, true, true],
    ];
    for order in orders {
        let mut a = ServerState::AwaitRequest;
        let mut b = ServerState::AwaitRequest;
        let mut events_a = vec![ServerEvent::Sent(Outcome::Done), request("ping-A")];
        let mut events_b = vec![ServerEvent::Sent(Outcome::Done), request("ping-B")];
        let mut sent_a = Vec::new();
        let mut sent_b = Vec::new();
        for first in order {
            if first {
                let (next, action) = handle_client(a, events_a.pop().unwrap());
                a = next;
                if let ServerAction::Send(bytes) = action {
                    sent_a.extend(bytes);
                }
            } else {
                let (next, action) = handle_client(b, events_b.pop().unwrap());
                b = next;
                if let ServerAction::Send(bytes) = action {
                    sent_b.extend(bytes);
                }
            }
        }
        assert_eq!(sent_a, MessageType::from_text("ping-A").encode());
        assert_eq!(sent_b, MessageType::from_text("ping-B").encode());
        assert!(matches!(a, ServerState::AwaitRequest));
        assert!(matches!(b, ServerState::AwaitRequest));
    }
}
