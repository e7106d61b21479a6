//! The frame receiver: one message out of a stream that delivers it in pieces.
//!
//! The stream carries no length of a message. The receiver keeps what has
//! arrived and tries to decode it after every read; the first buffer that
//! decodes is the message. This is sound as long as the peer sends one message
//! and then waits: bytes of a second message that arrive with the end of the
//! first make the buffer undecodable, or are lost with it.

use vstd::prelude::*;

use crate::codec::{
    decode_message, encodable, encode_message, lemma_decode_encode, lemma_prefix_truncated,
};
use crate::error::{Failure, LibError};
use crate::message::{Message, MessageType};

verus! {

/// The most that one read of a request takes from the stream.
pub const REQUEST_CHUNK: usize = 100;

/// What one read from a stream gave: the bytes that arrived, none of them at
/// the end of the stream, or the failure's description.
#[derive(Debug)]
pub enum ReadEvent {
    Bytes(Vec<u8>),
    Failed(String),
}

/// The mathematical model of a [`ReadEvent`].
pub enum ReadEventView {
    Bytes(Seq<u8>),
    Failed(Seq<char>),
}

impl View for ReadEvent {
    type V = ReadEventView;

    open spec fn view(&self) -> ReadEventView {
        match self {
            ReadEvent::Bytes(bytes) => ReadEventView::Bytes(bytes@),
            ReadEvent::Failed(why) => ReadEventView::Failed(why@),
        }
    }
}

/// Where the receiver stands after a read.
#[derive(Debug)]
pub enum Received {
    /// No message yet: read again.
    Pending,
    /// The message.
    Complete(MessageType),
    /// The stream ended or failed.
    Aborted(LibError),
}

/// The mathematical model of a [`Received`].
pub enum ReceivedView {
    Pending,
    Complete(Message),
    Aborted(Failure),
}

impl View for Received {
    type V = ReceivedView;

    open spec fn view(&self) -> ReceivedView {
        match self {
            Received::Pending => ReceivedView::Pending,
            Received::Complete(message) => ReceivedView::Complete(message@),
            Received::Aborted(error) => ReceivedView::Aborted(error@),
        }
    }
}

/// One step of the receiver: what it reports after `event`, and the buffer it
/// keeps, given the buffer it had.
pub open spec fn receive_step(buffer: Seq<u8>, event: ReadEventView) -> (ReceivedView, Seq<u8>) {
    match event {
        ReadEventView::Failed(why) => (ReceivedView::Aborted(Failure::IoError(why)), buffer),
        ReadEventView::Bytes(chunk) => if chunk.len() == 0 {
            (ReceivedView::Aborted(Failure::ConnectionClosed), buffer)
        } else {
            match decode_message(buffer + chunk) {
                Ok(m) => (ReceivedView::Complete(m), Seq::empty()),
                Err(_) => (ReceivedView::Pending, buffer + chunk),
            }
        },
    }
}

/// The receiver run over the reads `chunks`, from `buffer`: what it reports
/// last, and the number of reads it took. It stops at the first read after
/// which it is no longer pending.
pub open spec fn receive_all(buffer: Seq<u8>, chunks: Seq<Seq<u8>>) -> (ReceivedView, nat)
    decreases chunks.len(),
{
    if chunks.len() == 0 {
        (ReceivedView::Pending, 0)
    } else {
        let (report, kept) = receive_step(buffer, ReadEventView::Bytes(chunks[0]));
        if report is Pending {
            let (last, reads) = receive_all(kept, chunks.drop_first());
            (last, reads + 1)
        } else {
            (report, 1)
        }
    }
}

/// The bytes of `chunks`, one after the other.
pub open spec fn joined(chunks: Seq<Seq<u8>>) -> Seq<u8>
    decreases chunks.len(),
{
    if chunks.len() == 0 {
        Seq::empty()
    } else {
        chunks[0] + joined(chunks.drop_first())
    }
}

impl MessageType {
    /// Takes one read into account. `buffer` holds what arrived before and is
    /// empty when a receive begins.
    ///
    /// An empty read is the end of the stream and a failed read an I/O error:
    /// both abort. Otherwise the bytes are added to the buffer; if the buffer
    /// now decodes, the message is returned and the buffer emptied, and if
    /// not, the receiver stays pending.
    pub fn receive(buffer: &mut Vec<u8>, event: ReadEvent) -> (r: Received)
        ensures
            (r@, final(buffer)@) == receive_step(old(buffer)@, event@),
    {
        match event {
            ReadEvent::Failed(why) => Received::Aborted(LibError::IoError(why)),
            ReadEvent::Bytes(chunk) => {
                if chunk.len() == 0 {
                    return Received::Aborted(LibError::ConnectionClosed);
                }
                let mut chunk = chunk;
                let ghost before = buffer@;
                let ghost added = chunk@;
                buffer.append(&mut chunk);
                assert(buffer@ == before + added);
                match MessageType::decode(buffer.as_slice()) {
                    Ok(message) => {
                        buffer.clear();
                        Received::Complete(message)
                    },
                    Err(_) => Received::Pending,
                }
            },
        }
    }
}

/// A message that arrives alone arrives whole: if the reads `chunks`, none of
/// them empty, together deliver the encoding of `m` and nothing else, a
/// receiver that starts with an empty buffer is pending after every read but
/// the last and reports `m` after the last, however the bytes were cut.
pub proof fn lemma_receive_one_message(m: Message, chunks: Seq<Seq<u8>>)
    requires
        encodable(m),
        forall|i: int| 0 <= i < chunks.len() ==> (#[trigger] chunks[i]).len() > 0,
        joined(chunks) == encode_message(m),
    ensures
        receive_all(Seq::empty(), chunks) == (ReceivedView::Complete(m), chunks.len()),
{
    assert(encode_message(m).len() > 0) by {
        vstd::bytes::lemma_auto_spec_u32_to_from_le_bytes();
    }
    assert(Seq::<u8>::empty() + joined(chunks) =~= joined(chunks));
    lemma_receive_rest(m, Seq::empty(), chunks);
}

/// The same from the middle of a message: `buffer` holds its beginning and
/// `chunks` deliver the rest.
pub proof fn lemma_receive_rest(m: Message, buffer: Seq<u8>, chunks: Seq<Seq<u8>>)
    requires
        encodable(m),
        forall|i: int| 0 <= i < chunks.len() ==> (#[trigger] chunks[i]).len() > 0,
        buffer + joined(chunks) == encode_message(m),
        buffer.len() < encode_message(m).len(),
    ensures
        receive_all(buffer, chunks) == (ReceivedView::Complete(m), chunks.len()),
    decreases chunks.len(),
{
    let whole = encode_message(m);
    if chunks.len() == 0 {
        assert(buffer + joined(chunks) =~= buffer);
    } else {
        let rest = chunks.drop_first();
        let grown = buffer + chunks[0];
        assert(grown + joined(rest) =~= buffer + joined(chunks));
        assert forall|i: int| 0 <= i < rest.len() implies (#[trigger] rest[i]).len() > 0 by {
            assert(rest[i] == chunks[i + 1]);
        }
        if rest.len() == 0 {
            assert(grown + joined(rest) =~= grown);
            lemma_decode_encode(m);
        } else {
            assert(joined(rest).len() >= rest[0].len());
            assert(grown =~= whole.take(grown.len() as int));
            lemma_prefix_truncated(m, grown.len() as int);
            lemma_receive_rest(m, grown, rest);
        }
    }
}

} // verus!
