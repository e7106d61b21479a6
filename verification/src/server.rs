//! The server's side of one connection, as a state machine.
//!
//! The handler waits for a request, builds the response, sends it, and starts
//! over, until it has sent `Quit` or something fails. It performs no I/O: it
//! is told what happened and answers with what to do next. Each connection
//! has a handler of its own, and a handler knows of no other.

use vstd::prelude::*;
use vstd::utf8::*;

use crate::codec::{decode_message, encodable, encode_message, lemma_decode_encode, DecodeError};
use crate::command::{command_of, parse_command, Command, CommandView};
use crate::error::{Failure, LibError};
use crate::frame::{ReadEvent, ReadEventView};
use crate::message::{Message, MessageType};
use crate::payload::{
    file_message, file_refusal, image_message, image_refusal, lemma_jpg_is_refused, ReadOutcome,
    ReadOutcomeView,
};
use crate::text::{string_from_utf8, trimmed};

verus! {

/// A file whose content a response waits for.
#[derive(Debug)]
pub enum Lookup {
    File(String),
    Image(String),
}

/// The mathematical model of a [`Lookup`].
pub enum LookupView {
    File(Seq<char>),
    Image(Seq<char>),
}

impl View for Lookup {
    type V = LookupView;

    open spec fn view(&self) -> LookupView {
        match self {
            Lookup::File(path) => LookupView::File(path@),
            Lookup::Image(path) => LookupView::Image(path@),
        }
    }
}

impl LookupView {
    /// The path to read.
    pub open spec fn path(self) -> Seq<char> {
        match self {
            LookupView::File(path) => path,
            LookupView::Image(path) => path,
        }
    }

    /// The response, given how the read went.
    pub open spec fn message(self, outcome: ReadOutcomeView) -> Message {
        match self {
            LookupView::File(path) => file_message(path, outcome),
            LookupView::Image(path) => image_message(path, outcome),
        }
    }
}

/// How far the response to a request is: ready, or waiting for a file.
#[derive(Debug)]
pub enum Response {
    Ready(MessageType),
    Waiting(Lookup),
}

/// The mathematical model of a [`Response`].
pub enum ResponseView {
    Ready(Message),
    Waiting(LookupView),
}

impl View for Response {
    type V = ResponseView;

    open spec fn view(&self) -> ResponseView {
        match self {
            Response::Ready(message) => ResponseView::Ready(message@),
            Response::Waiting(lookup) => ResponseView::Waiting(lookup@),
        }
    }
}

/// How a write, or another step without a result, went.
#[derive(Debug)]
pub enum Outcome {
    Done,
    Failed(String),
}

/// The mathematical model of an [`Outcome`].
pub enum OutcomeView {
    Done,
    Failed(Seq<char>),
}

impl View for Outcome {
    type V = OutcomeView;

    open spec fn view(&self) -> OutcomeView {
        match self {
            Outcome::Done => OutcomeView::Done,
            Outcome::Failed(why) => OutcomeView::Failed(why@),
        }
    }
}

/// Where a handler stands.
#[derive(Debug)]
pub enum ServerState {
    /// Waiting for the bytes of a request.
    AwaitRequest,
    /// Waiting for the file that the response is built from.
    BuildResponse(Lookup),
    /// Waiting for the response to be written; `quit` tells whether it is
    /// `Quit`.
    SendResponse { quit: bool },
    /// Done with the connection.
    Closed,
}

/// The mathematical model of a [`ServerState`].
pub enum ServerStateView {
    AwaitRequest,
    BuildResponse(LookupView),
    SendResponse { quit: bool },
    Closed,
}

impl View for ServerState {
    type V = ServerStateView;

    open spec fn view(&self) -> ServerStateView {
        match self {
            ServerState::AwaitRequest => ServerStateView::AwaitRequest,
            ServerState::BuildResponse(lookup) => ServerStateView::BuildResponse(lookup@),
            ServerState::SendResponse { quit } => ServerStateView::SendResponse { quit: *quit },
            ServerState::Closed => ServerStateView::Closed,
        }
    }
}

/// What happened on a connection.
#[derive(Debug)]
pub enum ServerEvent {
    /// A read from the stream ended.
    Request(ReadEvent),
    /// The read of a file ended.
    Payload(ReadOutcome),
    /// The write of a response ended.
    Sent(Outcome),
}

/// The mathematical model of a [`ServerEvent`].
pub enum ServerEventView {
    Request(ReadEventView),
    Payload(ReadOutcomeView),
    Sent(OutcomeView),
}

impl View for ServerEvent {
    type V = ServerEventView;

    open spec fn view(&self) -> ServerEventView {
        match self {
            ServerEvent::Request(read) => ServerEventView::Request(read@),
            ServerEvent::Payload(outcome) => ServerEventView::Payload(outcome@),
            ServerEvent::Sent(outcome) => ServerEventView::Sent(outcome@),
        }
    }
}

/// What a handler asks for.
#[derive(Debug)]
pub enum ServerAction {
    /// Read once from the stream and report it as `Request`.
    ReadRequest,
    /// Read this file in full and report it as `Payload`.
    ReadFile(String),
    /// Write these bytes to the stream and report it as `Sent`.
    Send(Vec<u8>),
    /// Shut the connection down in both directions; the session has ended.
    Shutdown,
    /// Give the connection up and report the error.
    Abort(LibError),
    /// Nothing: the connection is closed.
    Rest,
}

/// The mathematical model of a [`ServerAction`].
pub enum ServerActionView {
    ReadRequest,
    ReadFile(Seq<char>),
    Send(Seq<u8>),
    Shutdown,
    Abort(Failure),
    Rest,
}

impl View for ServerAction {
    type V = ServerActionView;

    open spec fn view(&self) -> ServerActionView {
        match self {
            ServerAction::ReadRequest => ServerActionView::ReadRequest,
            ServerAction::ReadFile(path) => ServerActionView::ReadFile(path@),
            ServerAction::Send(bytes) => ServerActionView::Send(bytes@),
            ServerAction::Shutdown => ServerActionView::Shutdown,
            ServerAction::Abort(error) => ServerActionView::Abort(error@),
            ServerAction::Rest => ServerActionView::Rest,
        }
    }
}

/// The request text that a read delivers. A request travels as plain UTF-8
/// text, one read for one request; an empty read is the end of the stream.
pub open spec fn request_of(read: ReadEventView) -> Result<Seq<char>, Failure> {
    match read {
        ReadEventView::Failed(why) => Err(Failure::IoError(why)),
        ReadEventView::Bytes(bytes) => if bytes.len() == 0 {
            Err(Failure::ConnectionClosed)
        } else if valid_utf8(bytes) {
            Ok(decode_utf8(bytes))
        } else {
            Err(Failure::SerializationError("request is not valid UTF-8"@))
        },
    }
}

/// The response to a request line, as far as it goes without a read.
pub open spec fn response_to(line: Seq<char>) -> ResponseView {
    match command_of(line) {
        CommandView::Quit => ResponseView::Ready(Message::Quit),
        CommandView::Echo(text) => ResponseView::Ready(Message::Text(text)),
        CommandView::SendFile(path) => match file_refusal(path) {
            Some(refusal) => ResponseView::Ready(refusal),
            None => ResponseView::Waiting(LookupView::File(path)),
        },
        CommandView::SendImage(path) => match image_refusal(path) {
            Some(refusal) => ResponseView::Ready(refusal),
            None => ResponseView::Waiting(LookupView::Image(path)),
        },
    }
}

/// The step that sends `m`.
pub open spec fn sending(m: Message) -> (ServerStateView, ServerActionView) {
    (ServerStateView::SendResponse { quit: m is Quit }, ServerActionView::Send(encode_message(m)))
}

/// The handler: the state after `event` and what to do next.
///
/// An event that the state does not wait for aborts the connection, and a
/// closed connection stays closed.
pub open spec fn server_step(state: ServerStateView, event: ServerEventView) -> (
    ServerStateView,
    ServerActionView,
) {
    match (state, event) {
        (ServerStateView::AwaitRequest, ServerEventView::Request(read)) => match request_of(read) {
            Err(failure) => (ServerStateView::Closed, ServerActionView::Abort(failure)),
            Ok(line) => match response_to(line) {
                ResponseView::Ready(m) => sending(m),
                ResponseView::Waiting(lookup) => (
                    ServerStateView::BuildResponse(lookup),
                    ServerActionView::ReadFile(lookup.path()),
                ),
            },
        },
        (ServerStateView::BuildResponse(lookup), ServerEventView::Payload(outcome)) => sending(
            lookup.message(outcome),
        ),
        (ServerStateView::SendResponse { quit }, ServerEventView::Sent(OutcomeView::Done)) => if quit {
            (ServerStateView::Closed, ServerActionView::Shutdown)
        } else {
            (ServerStateView::AwaitRequest, ServerActionView::ReadRequest)
        },
        (
            ServerStateView::SendResponse { .. },
            ServerEventView::Sent(OutcomeView::Failed(why)),
        ) => (ServerStateView::Closed, ServerActionView::Abort(Failure::IoError(why))),
        (ServerStateView::Closed, _) => (ServerStateView::Closed, ServerActionView::Rest),
        _ => (
            ServerStateView::Closed,
            ServerActionView::Abort(Failure::IoError("event out of turn"@)),
        ),
    }
}

/// The model of a result with an error of the library.
pub open spec fn text_result_view(r: Result<String, LibError>) -> Result<Seq<char>, Failure> {
    match r {
        Ok(text) => Ok(text@),
        Err(error) => Err(error@),
    }
}

/// Takes the request text from one read of the stream.
pub fn receive_request(read: ReadEvent) -> (r: Result<String, LibError>)
    ensures
        text_result_view(r) == request_of(read@),
{
    match read {
        ReadEvent::Failed(why) => Err(LibError::IoError(why)),
        ReadEvent::Bytes(bytes) => {
            if bytes.len() == 0 {
                return Err(LibError::ConnectionClosed);
            }
            match string_from_utf8(bytes) {
                Some(line) => Ok(line),
                None => Err(LibError::SerializationError("request is not valid UTF-8".to_string())),
            }
        },
    }
}

/// Builds the response to a request line as far as that goes without a read:
/// `Quit` for a request to quit, the text for an echo, and for a file or an
/// image either the refusal that the path alone earns or the read to wait for.
pub fn create_response(input: &str) -> (response: Response)
    ensures
        response@ == response_to(input@),
{
    match parse_command(input) {
        Command::Quit => Response::Ready(MessageType::Quit),
        Command::Echo(text) => Response::Ready(MessageType::Text(text)),
        Command::SendFile(path) => match MessageType::refuse_file(path.as_str()) {
            Some(refusal) => Response::Ready(refusal),
            None => Response::Waiting(Lookup::File(path)),
        },
        Command::SendImage(path) => match MessageType::refuse_image(path.as_str()) {
            Some(refusal) => Response::Ready(refusal),
            None => Response::Waiting(Lookup::Image(path)),
        },
    }
}

/// Completes a response with the file that it waited for.
pub fn complete_response(lookup: Lookup, outcome: ReadOutcome) -> (message: MessageType)
    ensures
        message@ == lookup@.message(outcome@),
{
    match lookup {
        Lookup::File(path) => MessageType::from_file(path.as_str(), outcome),
        Lookup::Image(path) => MessageType::from_image(path.as_str(), outcome),
    }
}

/// Encodes a response for the stream.
pub fn send_response(message: &MessageType) -> (step: (ServerState, ServerAction))
    ensures
        (step.0@, step.1@) == sending(message@),
{
    (ServerState::SendResponse { quit: message.is_quit() }, ServerAction::Send(message.encode()))
}

/// Handles one event of a connection: returns the next state and what to do.
pub fn handle_client(state: ServerState, event: ServerEvent) -> (step: (ServerState, ServerAction))
    ensures
        (step.0@, step.1@) == server_step(state@, event@),
{
    match (state, event) {
        (ServerState::AwaitRequest, ServerEvent::Request(read)) => match receive_request(read) {
            Err(error) => (ServerState::Closed, ServerAction::Abort(error)),
            Ok(line) => match create_response(line.as_str()) {
                Response::Ready(message) => send_response(&message),
                Response::Waiting(lookup) => {
                    let path = match &lookup {
                        Lookup::File(path) => path.clone(),
                        Lookup::Image(path) => path.clone(),
                    };
                    (ServerState::BuildResponse(lookup), ServerAction::ReadFile(path))
                },
            },
        },
        (ServerState::BuildResponse(lookup), ServerEvent::Payload(outcome)) => {
            let message = complete_response(lookup, outcome);
            send_response(&message)
        },
        (ServerState::SendResponse { quit }, ServerEvent::Sent(Outcome::Done)) => {
            if quit {
                (ServerState::Closed, ServerAction::Shutdown)
            } else {
                (ServerState::AwaitRequest, ServerAction::ReadRequest)
            }
        },
        (ServerState::SendResponse { .. }, ServerEvent::Sent(Outcome::Failed(why))) => (
            ServerState::Closed,
            ServerAction::Abort(LibError::IoError(why)),
        ),
        (ServerState::Closed, _) => (ServerState::Closed, ServerAction::Rest),
        _ => (
            ServerState::Closed,
            ServerAction::Abort(LibError::IoError("event out of turn".to_string())),
        ),
    }
}

/// The handler run over `events` from `state`: the state it ends in and its
/// actions, one for each event.
pub open spec fn server_run(state: ServerStateView, events: Seq<ServerEventView>) -> (
    ServerStateView,
    Seq<ServerActionView>,
)
    decreases events.len(),
{
    if events.len() == 0 {
        (state, Seq::empty())
    } else {
        let (next, action) = server_step(state, events[0]);
        let (last, actions) = server_run(next, events.drop_first());
        (last, seq![action] + actions)
    }
}

/// Tells whether an action ends the handler's work on its connection.
pub open spec fn is_final(action: ServerActionView) -> bool {
    action is Shutdown || action is Abort || action is Rest
}

/// Two connections served in turns: `turns[k].0` tells whether the event
/// `turns[k].1` belongs to the first connection, whose handler is in state
/// `a`, or to the second, whose handler is in state `b`. The result is the
/// actions of the first handler and those of the second.
pub open spec fn serve_two(
    a: ServerStateView,
    b: ServerStateView,
    turns: Seq<(bool, ServerEventView)>,
) -> (Seq<ServerActionView>, Seq<ServerActionView>)
    decreases turns.len(),
{
    if turns.len() == 0 {
        (Seq::empty(), Seq::empty())
    } else if turns[0].0 {
        let (next, action) = server_step(a, turns[0].1);
        let (first, second) = serve_two(next, b, turns.drop_first());
        (seq![action] + first, second)
    } else {
        let (next, action) = server_step(b, turns[0].1);
        let (first, second) = serve_two(a, next, turns.drop_first());
        (first, seq![action] + second)
    }
}

/// The events of one of two connections that are served in turns.
pub open spec fn events_of(turns: Seq<(bool, ServerEventView)>, first: bool) -> Seq<
    ServerEventView,
>
    decreases turns.len(),
{
    if turns.len() == 0 {
        Seq::empty()
    } else if turns[0].0 == first {
        seq![turns[0].1] + events_of(turns.drop_first(), first)
    } else {
        events_of(turns.drop_first(), first)
    }
}

/// A handler answers every event with one action.
pub proof fn lemma_one_action_for_each_event(state: ServerStateView, events: Seq<ServerEventView>)
    ensures
        server_run(state, events).1.len() == events.len(),
    decreases events.len(),
{
    if events.len() > 0 {
        lemma_one_action_for_each_event(server_step(state, events[0]).0, events.drop_first());
    }
}

/// A handler asks for a shutdown exactly when it is told that `Quit` has been
/// written, and is closed from then on.
pub proof fn lemma_quit_shuts_down(state: ServerStateView, event: ServerEventView)
    ensures
        server_step(state, event).1 is Shutdown <==> state == (ServerStateView::SendResponse {
            quit: true,
        }) && event == ServerEventView::Sent(OutcomeView::Done),
        forall|m: Message| #[trigger] sending(m).0 == (ServerStateView::SendResponse { quit: true })
            <==> m is Quit,
        is_final(server_step(state, event).1) <==> server_step(state, event).0 is Closed,
{
}

/// A closed connection stays closed: whatever happens after the handler has
/// closed, it asks for nothing, in particular for no further read.
pub proof fn lemma_closed_is_final(events: Seq<ServerEventView>)
    ensures
        server_run(ServerStateView::Closed, events).0 is Closed,
        forall|i: int|
            0 <= i < events.len() ==> #[trigger] server_run(ServerStateView::Closed, events).1[i]
                is Rest,
    decreases events.len(),
{
    lemma_one_action_for_each_event(ServerStateView::Closed, events);
    if events.len() > 0 {
        let rest = events.drop_first();
        lemma_closed_is_final(rest);
        let tail = server_run(ServerStateView::Closed, rest).1;
        let all = server_run(ServerStateView::Closed, events).1;
        assert forall|i: int| 0 <= i < events.len() implies #[trigger] all[i] is Rest by {
            if i > 0 {
                assert(all[i] == tail[i - 1]);
            }
        }
    }
}

/// Nothing follows the end: once a handler has asked for a shutdown or has
/// given a connection up, every later event is answered with `Rest`. After
/// a `Quit` has been sent no request is read.
pub proof fn lemma_nothing_after_the_end(
    state: ServerStateView,
    events: Seq<ServerEventView>,
    i: int,
    j: int,
)
    requires
        0 <= i < j < events.len(),
        is_final(server_run(state, events).1[i]),
    ensures
        server_run(state, events).1[j] is Rest,
    decreases events.len(),
{
    let (next, action) = server_step(state, events[0]);
    let rest = events.drop_first();
    let tail = server_run(next, rest).1;
    let all = server_run(state, events).1;
    lemma_one_action_for_each_event(next, rest);
    assert(all[j] == tail[j - 1]);
    if i == 0 {
        lemma_quit_shuts_down(state, events[0]);
        lemma_closed_is_final(rest);
    } else {
        assert(all[i] == tail[i - 1]);
        lemma_nothing_after_the_end(next, rest, i - 1, j - 1);
    }
}

/// Connections do not touch each other: where two connections are served in
/// turns, in any order, each handler acts as it would if it were served
/// alone. What one connection is sent depends on its own requests only.
pub proof fn lemma_connections_are_isolated(
    a: ServerStateView,
    b: ServerStateView,
    turns: Seq<(bool, ServerEventView)>,
)
    ensures
        serve_two(a, b, turns) == (
            server_run(a, events_of(turns, true)).1,
            server_run(b, events_of(turns, false)).1,
        ),
    decreases turns.len(),
{
    if turns.len() > 0 {
        let rest = turns.drop_first();
        let event = turns[0].1;
        if turns[0].0 {
            let own = events_of(turns, true);
            assert(own.drop_first() =~= events_of(rest, true));
            lemma_connections_are_isolated(server_step(a, event).0, b, rest);
        } else {
            let own = events_of(turns, false);
            assert(own.drop_first() =~= events_of(rest, false));
            lemma_connections_are_isolated(a, server_step(b, event).0, rest);
        }
    }
}

/// An echo comes back: a request that is no command is answered at once with
/// its trimmed text, and what is written for it decodes to that text.
pub proof fn lemma_echo_comes_back(line: Seq<char>)
    requires
        command_of(line) is Echo,
        encodable(Message::Text(trimmed(line))),
    ensures
        response_to(line) == ResponseView::Ready(Message::Text(trimmed(line))),
        sending(Message::Text(trimmed(line))).1 matches ServerActionView::Send(bytes)
            && decode_message(bytes) == Ok::<Message, DecodeError>(Message::Text(trimmed(line))),
{
    lemma_decode_encode(Message::Text(trimmed(line)));
}

/// An image request for a path that ends in `.jpg` is answered at once: the
/// handler asks for the refusal to be sent, and for no file.
pub proof fn lemma_jpg_reads_nothing(line: Seq<char>)
    requires
        command_of(line) matches CommandView::SendImage(path) && ".jpg"@.is_suffix_of(path),
    ensures
        response_to(line) == ResponseView::Ready(
            Message::Text(Failure::WrongImageExtension.message()),
        ),
{
    lemma_jpg_is_refused(command_of(line)->SendImage_0);
}

/// A file request never fails the connection: whatever the path and however
/// the read went, the response is a message, and a failed read gives a text.
pub proof fn lemma_failed_read_is_text(path: Seq<char>)
    ensures
        file_message(path, ReadOutcomeView::Failed) is Text,
        image_message(path, ReadOutcomeView::Failed) is Text,
{
}

} // verus!
