//! The client's side of a session, as a state machine.
//!
//! The session reads a line of input, sends it, receives one message, acts on
//! it, and starts over, until the message is `Quit` or something fails. Like
//! the server's handler it performs no I/O: it is told what happened and
//! answers with what to do next. A request and its response alternate
//! strictly, which is what the frame receiver relies on.

use vstd::prelude::*;
use vstd::slice::*;
use vstd::utf8::*;

use crate::clock::{stamp_of, LocalTime};
use crate::codec::{encode_message, lemma_decode_encode};
use crate::error::{Failure, LibError};
use crate::frame::{receive_step, ReadEvent, ReadEventView, Received, ReceivedView};
use crate::message::{Message, MessageType};
use crate::payload::{
    file_plan, image_plan_of, planned_view, reencoded_png, WritePlan, WritePlanView,
};
use crate::server::{Outcome, OutcomeView};
use crate::text::{trim, trimmed};

verus! {

/// A line of input, or why there is none.
#[derive(Debug)]
pub enum LineEvent {
    Line(String),
    Failed(String),
}

/// The mathematical model of a [`LineEvent`].
pub enum LineEventView {
    Line(Seq<char>),
    Failed(Seq<char>),
}

impl View for LineEvent {
    type V = LineEventView;

    open spec fn view(&self) -> LineEventView {
        match self {
            LineEvent::Line(line) => LineEventView::Line(line@),
            LineEvent::Failed(why) => LineEventView::Failed(why@),
        }
    }
}

/// Where a session stands.
#[derive(Debug)]
pub enum ClientState {
    /// Waiting for a line of input.
    ReadInput,
    /// Waiting for the request to be written.
    SendRequest,
    /// Waiting for the response; `buffer` holds what has arrived of it.
    AwaitResponse { buffer: Vec<u8> },
    /// Waiting for a text or an error to be shown.
    Reporting,
    /// Waiting for a payload to be written.
    Saving,
    /// Done with the connection.
    Closed,
}

/// The mathematical model of a [`ClientState`].
pub enum ClientStateView {
    ReadInput,
    SendRequest,
    AwaitResponse { buffer: Seq<u8> },
    Reporting,
    Saving,
    Closed,
}

impl View for ClientState {
    type V = ClientStateView;

    open spec fn view(&self) -> ClientStateView {
        match self {
            ClientState::ReadInput => ClientStateView::ReadInput,
            ClientState::SendRequest => ClientStateView::SendRequest,
            ClientState::AwaitResponse { buffer } => ClientStateView::AwaitResponse {
                buffer: buffer@,
            },
            ClientState::Reporting => ClientStateView::Reporting,
            ClientState::Saving => ClientStateView::Saving,
            ClientState::Closed => ClientStateView::Closed,
        }
    }
}

/// What happened in a session.
#[derive(Debug)]
pub enum ClientEvent {
    /// The read of a line of input ended.
    Input(LineEvent),
    /// The write of the request ended.
    Sent(Outcome),
    /// A read from the stream ended.
    Read(ReadEvent),
    /// The text or the error was shown.
    Reported,
    /// The write of a payload ended.
    Saved(Outcome),
}

/// The mathematical model of a [`ClientEvent`].
pub enum ClientEventView {
    Input(LineEventView),
    Sent(OutcomeView),
    Read(ReadEventView),
    Reported,
    Saved(OutcomeView),
}

impl View for ClientEvent {
    type V = ClientEventView;

    open spec fn view(&self) -> ClientEventView {
        match self {
            ClientEvent::Input(line) => ClientEventView::Input(line@),
            ClientEvent::Sent(outcome) => ClientEventView::Sent(outcome@),
            ClientEvent::Read(read) => ClientEventView::Read(read@),
            ClientEvent::Reported => ClientEventView::Reported,
            ClientEvent::Saved(outcome) => ClientEventView::Saved(outcome@),
        }
    }
}

/// What a session asks for.
#[derive(Debug)]
pub enum ClientAction {
    /// Read a line of input and report it as `Input`.
    ReadLine,
    /// Write these bytes to the stream and report it as `Sent`.
    Send(Vec<u8>),
    /// Read once from the stream and report it as `Read`.
    Receive,
    /// Show this text to the operator and report `Reported`.
    Show(String),
    /// Show this error to the operator and report `Reported`.
    Report(LibError),
    /// Carry this plan out and report it as `Saved`.
    Save(WritePlan),
    /// Close the connection; the session has ended.
    Close,
    /// Give the connection up and report the error.
    Abort(LibError),
    /// Nothing: the connection is closed.
    Rest,
}

/// The mathematical model of a [`ClientAction`].
pub enum ClientActionView {
    ReadLine,
    Send(Seq<u8>),
    Receive,
    Show(Seq<char>),
    Report(Failure),
    Save(WritePlanView),
    Close,
    Abort(Failure),
    Rest,
}

impl View for ClientAction {
    type V = ClientActionView;

    open spec fn view(&self) -> ClientActionView {
        match self {
            ClientAction::ReadLine => ClientActionView::ReadLine,
            ClientAction::Send(bytes) => ClientActionView::Send(bytes@),
            ClientAction::Receive => ClientActionView::Receive,
            ClientAction::Show(text) => ClientActionView::Show(text@),
            ClientAction::Report(error) => ClientActionView::Report(error@),
            ClientAction::Save(plan) => ClientActionView::Save(plan@),
            ClientAction::Close => ClientActionView::Close,
            ClientAction::Abort(error) => ClientActionView::Abort(error@),
            ClientAction::Rest => ClientActionView::Rest,
        }
    }
}

/// The step that follows a planning: a plan is carried out, a failure is
/// shown, and the session goes on either way.
pub open spec fn saving(planned: Result<WritePlanView, Failure>) -> (
    ClientStateView,
    ClientActionView,
) {
    match planned {
        Ok(plan) => (ClientStateView::Saving, ClientActionView::Save(plan)),
        Err(failure) => (ClientStateView::Reporting, ClientActionView::Report(failure)),
    }
}

/// The step that a received message asks for: a text is shown, an image or
/// a file is saved, and `Quit` ends the session. `stamp` is the time stamp
/// that names an image: the image is saved as the codec encodes it again, or
/// the codec's error is shown.
pub open spec fn dispatch_of(m: Message, stamp: Seq<char>) -> (
    ClientStateView,
    ClientActionView,
) {
    match m {
        Message::Text(text) => (ClientStateView::Reporting, ClientActionView::Show(text)),
        Message::Image(bytes) => saving(image_plan_of(stamp, reencoded_png(bytes))),
        Message::File { name, content } => saving(Ok(file_plan(name, content))),
        Message::Quit => (ClientStateView::Closed, ClientActionView::Close),
    }
}

/// The session: the state after `event` and what to do next. `stamp` is
/// the time stamp that names the message that `event` completes, if that is
/// an image.
///
/// A failure to save a payload is shown and the session goes on. An event
/// that the state does not wait for aborts the session, and a closed session
/// stays closed.
pub open spec fn client_step(
    state: ClientStateView,
    event: ClientEventView,
    stamp: Seq<char>,
) -> (ClientStateView, ClientActionView) {
    match (state, event) {
        (ClientStateView::ReadInput, ClientEventView::Input(LineEventView::Line(line))) => (
            ClientStateView::SendRequest,
            ClientActionView::Send(encode_utf8(trimmed(line))),
        ),
        (ClientStateView::ReadInput, ClientEventView::Input(LineEventView::Failed(why))) => (
            ClientStateView::Closed,
            ClientActionView::Abort(Failure::IoError(why)),
        ),
        (ClientStateView::SendRequest, ClientEventView::Sent(OutcomeView::Done)) => (
            ClientStateView::AwaitResponse { buffer: Seq::empty() },
            ClientActionView::Receive,
        ),
        (ClientStateView::SendRequest, ClientEventView::Sent(OutcomeView::Failed(why))) => (
            ClientStateView::Closed,
            ClientActionView::Abort(Failure::IoError(why)),
        ),
        (ClientStateView::AwaitResponse { buffer }, ClientEventView::Read(read)) => {
            let (report, kept) = receive_step(buffer, read);
            match report {
                ReceivedView::Pending => (
                    ClientStateView::AwaitResponse { buffer: kept },
                    ClientActionView::Receive,
                ),
                ReceivedView::Complete(m) => dispatch_of(m, stamp),
                ReceivedView::Aborted(failure) => (
                    ClientStateView::Closed,
                    ClientActionView::Abort(failure),
                ),
            }
        },
        (ClientStateView::Reporting, ClientEventView::Reported) => (
            ClientStateView::ReadInput,
            ClientActionView::ReadLine,
        ),
        (ClientStateView::Saving, ClientEventView::Saved(OutcomeView::Done)) => (
            ClientStateView::ReadInput,
            ClientActionView::ReadLine,
        ),
        (ClientStateView::Saving, ClientEventView::Saved(OutcomeView::Failed(why))) => (
            ClientStateView::Reporting,
            ClientActionView::Report(Failure::IoError(why)),
        ),
        (ClientStateView::Closed, _) => (ClientStateView::Closed, ClientActionView::Rest),
        _ => (
            ClientStateView::Closed,
            ClientActionView::Abort(Failure::IoError("event out of turn"@)),
        ),
    }
}

/// Turns a planning into the step that follows it.
pub fn save_or_report(planned: Result<WritePlan, LibError>) -> (step: (ClientState, ClientAction))
    ensures
        (step.0@, step.1@) == saving(planned_view(planned)),
{
    match planned {
        Ok(plan) => (ClientState::Saving, ClientAction::Save(plan)),
        Err(error) => (ClientState::Reporting, ClientAction::Report(error)),
    }
}

/// Acts on a received message: a text is shown, an image or a file is planned
/// for saving, and `Quit` ends the session.
///
/// For an image the clock has its say: the step is that of `dispatch_of` for
/// the time stamp of the moment.
pub fn dispatch(message: MessageType) -> (step: (ClientState, ClientAction))
    ensures
        exists|now: LocalTime|
            now.in_range() && (step.0@, step.1@) == dispatch_of(
                message@,
                #[trigger] stamp_of(now),
            ),
{
    let ghost any = LocalTime { year: 0, month: 1, day: 1, hour: 0, minute: 0, second: 0 };
    match message {
        MessageType::Text(text) => {
            assert(any.in_range() && (
                ClientStateView::Reporting,
                ClientActionView::Show(text@),
            ) == dispatch_of(message@, stamp_of(any)));
            (ClientState::Reporting, ClientAction::Show(text))
        },
        MessageType::Image(_) => {
            let planned = message.to_image();
            let step = save_or_report(planned);
            let ghost now = choose|now: LocalTime|
                now.in_range() && planned_view(planned) == image_plan_of(
                    #[trigger] stamp_of(now),
                    reencoded_png(message@->Image_0),
                );
            assert(now.in_range() && (step.0@, step.1@) == dispatch_of(message@, stamp_of(now)));
            step
        },
        MessageType::File { .. } => {
            let step = save_or_report(message.to_file());
            assert(any.in_range() && (step.0@, step.1@) == dispatch_of(message@, stamp_of(any)));
            step
        },
        MessageType::Quit => {
            assert(any.in_range() && (
                ClientStateView::Closed,
                ClientActionView::Close,
            ) == dispatch_of(message@, stamp_of(any)));
            (ClientState::Closed, ClientAction::Close)
        },
    }
}

/// Handles one event of a session: returns the next state and what to do.
///
/// Where `event` completes an image, the step is that of `client_step` for
/// the time stamp of the moment; everywhere else `client_step` does not look
/// at the stamp.
pub fn client_loop(state: ClientState, event: ClientEvent) -> (step: (ClientState, ClientAction))
    ensures
        exists|now: LocalTime|
            now.in_range() && (step.0@, step.1@) == client_step(
                state@,
                event@,
                #[trigger] stamp_of(now),
            ),
{
    let ghost any = LocalTime { year: 0, month: 1, day: 1, hour: 0, minute: 0, second: 0 };
    match (state, event) {
        (ClientState::AwaitResponse { buffer }, ClientEvent::Read(read)) => {
            let mut buffer = buffer;
            match MessageType::receive(&mut buffer, read) {
                Received::Pending => {
                    let step = (ClientState::AwaitResponse { buffer }, ClientAction::Receive);
                    assert(any.in_range() && (step.0@, step.1@) == client_step(
                        state@,
                        event@,
                        stamp_of(any),
                    ));
                    step
                },
                Received::Complete(message) => {
                    let step = dispatch(message);
                    let ghost now = choose|now: LocalTime|
                        now.in_range() && (step.0@, step.1@) == dispatch_of(
                            message@,
                            #[trigger] stamp_of(now),
                        );
                    assert(now.in_range() && (step.0@, step.1@) == client_step(
                        state@,
                        event@,
                        stamp_of(now),
                    ));
                    step
                },
                Received::Aborted(error) => {
                    let step = (ClientState::Closed, ClientAction::Abort(error));
                    assert(any.in_range() && (step.0@, step.1@) == client_step(
                        state@,
                        event@,
                        stamp_of(any),
                    ));
                    step
                },
            }
        },
        (state, event) => {
            let step = client_turn(state, event);
            assert(any.in_range() && (step.0@, step.1@) == client_step(
                state@,
                event@,
                stamp_of(any),
            ));
            step
        },
    }
}

/// The steps of a session that receive nothing.
fn client_turn(state: ClientState, event: ClientEvent) -> (step: (ClientState, ClientAction))
    requires
        !(state@ is AwaitResponse && event@ is Read),
    ensures
        forall|stamp: Seq<char>|
            (step.0@, step.1@) == #[trigger] client_step(state@, event@, stamp),
{
    match (state, event) {
        (ClientState::ReadInput, ClientEvent::Input(LineEvent::Line(line))) => {
            let request = trim(line.as_str());
            (ClientState::SendRequest, ClientAction::Send(slice_to_vec(request.as_str().as_bytes())))
        },
        (ClientState::ReadInput, ClientEvent::Input(LineEvent::Failed(why))) => (
            ClientState::Closed,
            ClientAction::Abort(LibError::IoError(why)),
        ),
        (ClientState::SendRequest, ClientEvent::Sent(Outcome::Done)) => (
            ClientState::AwaitResponse { buffer: Vec::new() },
            ClientAction::Receive,
        ),
        (ClientState::SendRequest, ClientEvent::Sent(Outcome::Failed(why))) => (
            ClientState::Closed,
            ClientAction::Abort(LibError::IoError(why)),
        ),
        (ClientState::Reporting, ClientEvent::Reported) => (
            ClientState::ReadInput,
            ClientAction::ReadLine,
        ),
        (ClientState::Saving, ClientEvent::Saved(Outcome::Done)) => (
            ClientState::ReadInput,
            ClientAction::ReadLine,
        ),
        (ClientState::Saving, ClientEvent::Saved(Outcome::Failed(why))) => (
            ClientState::Reporting,
            ClientAction::Report(LibError::IoError(why)),
        ),
        (ClientState::Closed, _) => (ClientState::Closed, ClientAction::Rest),
        _ => (
            ClientState::Closed,
            ClientAction::Abort(LibError::IoError("event out of turn".to_string())),
        ),
    }
}

/// A session that is sent `Quit` ends: when the read that completes the
/// message arrives, the session closes, whatever it had received of the
/// message before.
pub proof fn lemma_quit_ends_the_session(
    buffer: Seq<u8>,
    chunk: Seq<u8>,
    stamp: Seq<char>,
)
    requires
        chunk.len() > 0,
        buffer + chunk == encode_message(Message::Quit),
    ensures
        client_step(
            ClientStateView::AwaitResponse { buffer },
            ClientEventView::Read(ReadEventView::Bytes(chunk)),
            stamp,
        ) == (ClientStateView::Closed, ClientActionView::Close),
{
    lemma_decode_encode(Message::Quit);
}

/// A payload that cannot be saved does not end the session: the failure is
/// shown, and the session then reads the next line.
pub proof fn lemma_session_outlives_a_failed_save(
    failure: Failure,
    why: Seq<char>,
    stamp: Seq<char>,
)
    ensures
        saving(Err(failure)) == (ClientStateView::Reporting, ClientActionView::Report(failure)),
        client_step(
            ClientStateView::Saving,
            ClientEventView::Saved(OutcomeView::Failed(why)),
            stamp,
        ) == (ClientStateView::Reporting, ClientActionView::Report(Failure::IoError(why))),
        client_step(ClientStateView::Reporting, ClientEventView::Reported, stamp) == (
            ClientStateView::ReadInput,
            ClientActionView::ReadLine,
        ),
{
}

/// A closed session stays closed and asks for nothing.
pub proof fn lemma_closed_session_rests(event: ClientEventView, stamp: Seq<char>)
    ensures
        client_step(ClientStateView::Closed, event, stamp) == (
            ClientStateView::Closed,
            ClientActionView::Rest,
        ),
{
}

} // verus!
