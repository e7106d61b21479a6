use networking::client::{
    client_loop, dispatch, save_or_report, ClientAction, ClientEvent, ClientState, LineEvent,
};
use networking::error::LibError;
use networking::frame::ReadEvent;
use networking::message::MessageType;
use networking::server::Outcome;

fn line(text: &str) -> ClientEvent {
    ClientEvent::Input(LineEvent::Line(text.to_string()))
}

fn read(bytes: &[u8]) -> ClientEvent {
    ClientEvent::Read(ReadEvent::Bytes(bytes.to_vec()))
}

fn awaiting() -> ClientState {
    ClientState::AwaitResponse { buffer: Vec::new() }
}

#[test]
fn the_request_is_the_trimmed_line() {
    let (state, action) = client_loop(ClientState::ReadInput, line("  hello world \n"));
    assert!(matches!(state, ClientState::SendRequest));
    assert!(matches!(action, ClientAction::Send(ref bytes) if bytes == b"hello world"));
    let (_, action) = client_loop(ClientState::ReadInput, line("\n"));
    assert!(matches!(action, ClientAction::Send(ref bytes) if bytes.is_empty()));
    let (_, action) = client_loop(ClientState::ReadInput, line(".file ü.txt\r\n"));
    assert!(matches!(action, ClientAction::Send(ref bytes) if bytes == ".file ü.txt".as_bytes()));
}

#[test]
fn the_response_is_awaited_after_the_request() {
    let (state, action) = client_loop(ClientState::SendRequest, ClientEvent::Sent(Outcome::Done));
    assert!(matches!(state, ClientState::AwaitResponse { ref buffer } if buffer.is_empty()));
    assert!(matches!(action, ClientAction::Receive));
}

#[test]
fn a_text_is_shown() {
    let encoded = MessageType::from_text("hello world").encode();
    let (state, action) = client_loop(awaiting(), read(&encoded));
    assert!(matches!(state, ClientState::Reporting));
    assert!(matches!(action, ClientAction::Show(ref text) if text == "hello world"));
    let (state, action) = client_loop(state, ClientEvent::Reported);
    assert!(matches!(state, ClientState::ReadInput));
    assert!(matches!(action, ClientAction::ReadLine));
}

#[test]
fn a_response_in_pieces_is_received_whole() {
    let encoded = MessageType::from_text("a longer text, in three reads").encode();
    let (state, action) = client_loop(awaiting(), read(&encoded[..3]));
    assert!(matches!(state, ClientState::AwaitResponse { ref buffer } if buffer.len() == 3));
    assert!(matches!(action, ClientAction::Receive));
    let (state, action) = client_loop(state, read(&encoded[3..20]));
    assert!(matches!(state, ClientState::AwaitResponse { ref buffer } if buffer.len() == 20));
    assert!(matches!(action, ClientAction::Receive));
    let (state, action) = client_loop(state, read(&encoded[20..]));
    assert!(matches!(state, ClientState::Reporting));
    assert!(
        matches!(action, ClientAction::Show(ref text) if text == "a longer text, in three reads")
    );
}

#[test]
fn quit_ends_the_session() {
    let (state, action) = client_loop(awaiting(), read(&MessageType::Quit.encode()));
    assert!(matches!(state, ClientState::Closed));
    assert!(matches!(action, ClientAction::Close));
    let (state, action) = client_loop(state, line("more"));
    assert!(matches!(state, ClientState::Closed));
    assert!(matches!(action, ClientAction::Rest));
}

#[test]
fn a_file_is_saved_under_files() {
    let message = MessageType::File { name: "r.txt".to_string(), content: b"abc".to_vec() };
    let (state, action) = client_loop(awaiting(), read(&message.encode()));
    assert!(matches!(state, ClientState::Saving));
    match action {
        ClientAction::Save(plan) => {
            assert_eq!(plan.directory, "files");
            assert_eq!(plan.path, "files/r.txt");
            assert_eq!(plan.bytes, b"abc");
        }
        other => panic!("unexpected: {:?}", other),
    }
    let (state, action) = client_loop(state, ClientEvent::Saved(Outcome::Done));
    assert!(matches!(state, ClientState::ReadInput));
    assert!(matches!(action, ClientAction::ReadLine));
}

#[test]
fn an_image_that_does_not_decode_is_reported_and_the_session_goes_on() {
    let message = MessageType::Image(vec![1, 2, 3]);
    let (state, action) = client_loop(awaiting(), read(&message.encode()));
    assert!(matches!(state, ClientState::Reporting));
    assert!(matches!(action, ClientAction::Report(LibError::ImageSavingError(_))));
    let (state, action) = client_loop(state, ClientEvent::Reported);
    assert!(matches!(state, ClientState::ReadInput));
    assert!(matches!(action, ClientAction::ReadLine));
}

#[test]
fn an_image_is_saved_under_images() {
    let picture = image::DynamicImage::ImageLuma8(image::GrayImage::from_pixel(
        2,
        2,
        image::Luma([77]),
    ));
    let mut out = std::io::Cursor::new(Vec::new());
    picture.write_to(&mut out, image::ImageFormat::Png).unwrap();
    let (state, action) = dispatch(MessageType::Image(out.into_inner()));
    assert!(matches!(state, ClientState::Saving));
    match action {
        ClientAction::Save(plan) => {
            assert_eq!(plan.directory, "images");
            assert!(plan.path.starts_with("images/") && plan.path.ends_with(".png"));
            assert_eq!(image::load_from_memory(&plan.bytes).unwrap().to_luma8(), picture.to_luma8());
        }
        other => panic!("unexpected: {:?}", other),
    }
}

#[test]
fn a_failed_save_is_reported_and_the_session_goes_on() {
    let (state, action) =
        client_loop(ClientState::Saving, ClientEvent::Saved(Outcome::Failed("disk full".to_string())));
    assert!(matches!(state, ClientState::Reporting));
    assert!(matches!(action, ClientAction::Report(LibError::IoError(ref why)) if why == "disk full"));
    let (state, _) = save_or_report(Err(LibError::WrongMessageType));
    assert!(matches!(state, ClientState::Reporting));
}

#[test]
fn failures_of_the_stream_end_the_session() {
    let (state, action) =
        client_loop(ClientState::ReadInput, ClientEvent::Input(LineEvent::Failed("eof".to_string())));
    assert!(matches!(state, ClientState::Closed));
    assert!(matches!(action, ClientAction::Abort(LibError::IoError(ref why)) if why == "eof"));
    let (state, action) =
        client_loop(ClientState::SendRequest, ClientEvent::Sent(Outcome::Failed("pipe".to_string())));
    assert!(matches!(state, ClientState::Closed));
    assert!(matches!(action, ClientAction::Abort(LibError::IoError(_))));
    let (state, action) = client_loop(awaiting(), read(&[]));
    assert!(matches!(state, ClientState::Closed));
    assert!(matches!(action, ClientAction::Abort(LibError::ConnectionClosed)));
    let (state, action) =
        client_loop(awaiting(), ClientEvent::Read(ReadEvent::Failed("reset".to_string())));
    assert!(matches!(state, ClientState::Closed));
    assert!(matches!(action, ClientAction::Abort(LibError::IoError(ref why)) if why == "reset"));
}

#[test]
fn an_event_out_of_turn_ends_the_session() {
    let cases = [
        (ClientState::ReadInput, ClientEvent::Reported),
        (ClientState::SendRequest, line("x")),
        (awaiting(), ClientEvent::Sent(Outcome::Done)),
        (ClientState::Reporting, ClientEvent::Saved(Outcome::Done)),
        (ClientState::Saving, ClientEvent::Reported),
    ];
    for (state, event) in cases {
        let (state, action) = client_loop(state, event);
        assert!(matches!(state, ClientState::Closed));
        assert!(
            matches!(action, ClientAction::Abort(LibError::IoError(ref why)) if why == "event out of turn")
        );
    }
}
