//! The wire encoding of a message, and its inverse.
//!
//! A message is encoded as the number of its variant in four bytes, little
//! endian, followed by its fields in order. A string is encoded as UTF-8 and a
//! string or a byte sequence is preceded by its length in bytes, in eight
//! bytes, little endian. The encoding carries no overall length: decoding
//! consumes a whole buffer or fails.

use vstd::bytes::*;
use vstd::prelude::*;
use vstd::slice::*;
use vstd::utf8::*;

use crate::error::{Failure, LibError};
use crate::message::{Message, MessageType};
use crate::text::string_from_utf8;

verus! {

/// Why a buffer is not the encoding of a message.
#[derive(Debug, Clone, Copy, PartialEq, Eq, Structural)]
pub enum DecodeError {
    /// The buffer ends before the message does.
    Truncated,
    /// The variant number names no variant.
    UnknownVariant(u32),
    /// A string field is not UTF-8.
    InvalidUtf8,
    /// The buffer goes on after the message has ended.
    TrailingBytes,
}

impl DecodeError {
    /// The description of the error.
    pub open spec fn message(self) -> Seq<char> {
        match self {
            DecodeError::Truncated => "unexpected end of the bytes"@,
            DecodeError::UnknownVariant(_) => "unknown message variant"@,
            DecodeError::InvalidUtf8 => "text is not valid UTF-8"@,
            DecodeError::TrailingBytes => "bytes after the end of the message"@,
        }
    }

    /// Returns the error as the serialization error of the protocol, with its
    /// description.
    pub fn into_error(self) -> (error: LibError)
        ensures
            error@ == Failure::SerializationError(self.message()),
    {
        LibError::SerializationError(
            match self {
                DecodeError::Truncated => "unexpected end of the bytes".to_string(),
                DecodeError::UnknownVariant(_) => "unknown message variant".to_string(),
                DecodeError::InvalidUtf8 => "text is not valid UTF-8".to_string(),
                DecodeError::TrailingBytes => "bytes after the end of the message".to_string(),
            },
        )
    }
}

/// The number of the variant `Text`.
pub const TAG_TEXT: u32 = 0;

/// The number of the variant `Image`.
pub const TAG_IMAGE: u32 = 1;

/// The number of the variant `File`.
pub const TAG_FILE: u32 = 2;

/// The number of the variant `Quit`.
pub const TAG_QUIT: u32 = 3;

/// The encoding of a byte sequence: its length, then the bytes.
pub open spec fn encode_blob(bytes: Seq<u8>) -> Seq<u8> {
    spec_u64_to_le_bytes(bytes.len() as u64) + bytes
}

/// The encoding of a message.
pub open spec fn encode_message(m: Message) -> Seq<u8> {
    match m {
        Message::Text(text) => spec_u32_to_le_bytes(TAG_TEXT) + encode_blob(encode_utf8(text)),
        Message::Image(bytes) => spec_u32_to_le_bytes(TAG_IMAGE) + encode_blob(bytes),
        Message::File { name, content } => spec_u32_to_le_bytes(TAG_FILE) + encode_blob(
            encode_utf8(name),
        ) + encode_blob(content),
        Message::Quit => spec_u32_to_le_bytes(TAG_QUIT),
    }
}

/// A message can be encoded when the length of each field fits its prefix.
/// Every message that fits in memory can.
pub open spec fn encodable(m: Message) -> bool {
    match m {
        Message::Text(text) => encode_utf8(text).len() <= u64::MAX,
        Message::Image(bytes) => bytes.len() <= u64::MAX,
        Message::File { name, content } => encode_utf8(name).len() <= u64::MAX && content.len()
            <= u64::MAX,
        Message::Quit => true,
    }
}

/// Splits a length-prefixed byte sequence off the front of `bytes`: the
/// sequence and what follows it.
pub open spec fn split_blob(bytes: Seq<u8>) -> Result<(Seq<u8>, Seq<u8>), DecodeError> {
    if bytes.len() < 8 {
        Err(DecodeError::Truncated)
    } else {
        let len = spec_u64_from_le_bytes(bytes.take(8)) as int;
        if len > bytes.len() - 8 {
            Err(DecodeError::Truncated)
        } else {
            Ok((bytes.subrange(8, 8 + len), bytes.skip(8 + len)))
        }
    }
}

/// Splits a length-prefixed string off the front of `bytes`.
pub open spec fn split_text(bytes: Seq<u8>) -> Result<(Seq<char>, Seq<u8>), DecodeError> {
    match split_blob(bytes) {
        Err(e) => Err(e),
        Ok((blob, rest)) => if valid_utf8(blob) {
            Ok((decode_utf8(blob), rest))
        } else {
            Err(DecodeError::InvalidUtf8)
        },
    }
}

/// Accepts `m` if nothing follows it.
pub open spec fn finish(m: Message, rest: Seq<u8>) -> Result<Message, DecodeError> {
    if rest.len() == 0 {
        Ok(m)
    } else {
        Err(DecodeError::TrailingBytes)
    }
}

/// The message that `bytes` encodes, or why it encodes none. The whole of
/// `bytes` has to be the encoding.
pub open spec fn decode_message(bytes: Seq<u8>) -> Result<Message, DecodeError> {
    if bytes.len() < 4 {
        Err(DecodeError::Truncated)
    } else {
        let tag = spec_u32_from_le_bytes(bytes.take(4));
        let body = bytes.skip(4);
        if tag == TAG_TEXT {
            match split_text(body) {
                Err(e) => Err(e),
                Ok((text, rest)) => finish(Message::Text(text), rest),
            }
        } else if tag == TAG_IMAGE {
            match split_blob(body) {
                Err(e) => Err(e),
                Ok((bytes, rest)) => finish(Message::Image(bytes), rest),
            }
        } else if tag == TAG_FILE {
            match split_text(body) {
                Err(e) => Err(e),
                Ok((name, rest)) => match split_blob(rest) {
                    Err(e) => Err(e),
                    Ok((content, rest)) => finish(Message::File { name, content }, rest),
                },
            }
        } else if tag == TAG_QUIT {
            finish(Message::Quit, body)
        } else {
            Err(DecodeError::UnknownVariant(tag))
        }
    }
}

/// Appends the encoding of `bytes` to `out`.
fn put_blob(out: &mut Vec<u8>, bytes: &[u8])
    ensures
        final(out)@ == old(out)@ + encode_blob(bytes@),
        bytes@.len() <= u64::MAX,
{
    let ghost before = out@;
    let len = bytes.len();
    let mut prefix = u64_to_le_bytes(len as u64);
    out.append(&mut prefix);
    out.extend_from_slice(bytes);
    assert(out@ =~= before + encode_blob(bytes@));
}

/// Takes a length-prefixed byte sequence from `bytes` at `*at` and moves
/// `*at` past it.
fn take_blob<'a>(bytes: &'a [u8], at: &mut usize) -> (r: Result<&'a [u8], DecodeError>)
    requires
        *old(at) <= bytes@.len(),
    ensures
        match split_blob(bytes@.skip(*old(at) as int)) {
            Ok((blob, rest)) => r is Ok && r->Ok_0@ == blob && *final(at) <= bytes@.len()
                && bytes@.skip(*final(at) as int) == rest,
            Err(e) => r == Err::<&[u8], DecodeError>(e),
        },
{
    let start = *at;
    let ghost tail = bytes@.skip(start as int);
    if bytes.len() - start < 8 {
        return Err(DecodeError::Truncated);
    }
    let len = u64_from_le_bytes(slice_subrange(bytes, start, start + 8));
    assert(bytes@.subrange(start as int, start + 8) =~= tail.take(8));
    if len > (bytes.len() - start - 8) as u64 {
        return Err(DecodeError::Truncated);
    }
    let from = start + 8;
    let to = from + len as usize;
    let blob = slice_subrange(bytes, from, to);
    *at = to;
    assert(blob@ =~= tail.subrange(8, 8 + len as int));
    assert(bytes@.skip(to as int) =~= tail.skip(8 + len as int));
    Ok(blob)
}

/// Takes a length-prefixed string from `bytes` at `*at` and moves `*at`
/// past it.
fn take_text(bytes: &[u8], at: &mut usize) -> (r: Result<String, DecodeError>)
    requires
        *old(at) <= bytes@.len(),
    ensures
        match split_text(bytes@.skip(*old(at) as int)) {
            Ok((text, rest)) => r is Ok && r->Ok_0@ == text && *final(at) <= bytes@.len()
                && bytes@.skip(*final(at) as int) == rest,
            Err(e) => r == Err::<String, DecodeError>(e),
        },
{
    let blob = take_blob(bytes, at)?;
    match string_from_utf8(slice_to_vec(blob)) {
        Some(text) => Ok(text),
        None => Err(DecodeError::InvalidUtf8),
    }
}

impl MessageType {
    /// Encodes the message. Every message has exactly one encoding.
    pub fn encode(&self) -> (bytes: Vec<u8>)
        ensures
            bytes@ == encode_message(self@),
            encodable(self@),
            decode_message(bytes@) == Ok::<Message, DecodeError>(self@),
    {
        let bytes = self.encode_fields();
        proof {
            lemma_decode_encode(self@);
        }
        bytes
    }

    fn encode_fields(&self) -> (bytes: Vec<u8>)
        ensures
            bytes@ == encode_message(self@),
            encodable(self@),
    {
        match self {
            MessageType::Text(text) => {
                let mut out = u32_to_le_bytes(TAG_TEXT);
                put_blob(&mut out, text.as_str().as_bytes());
                out
            },
            MessageType::Image(bytes) => {
                let mut out = u32_to_le_bytes(TAG_IMAGE);
                put_blob(&mut out, bytes.as_slice());
                out
            },
            MessageType::File { name, content } => {
                let mut out = u32_to_le_bytes(TAG_FILE);
                put_blob(&mut out, name.as_str().as_bytes());
                put_blob(&mut out, content.as_slice());
                out
            },
            MessageType::Quit => u32_to_le_bytes(TAG_QUIT),
        }
    }

    /// Sends the message: appends its encoding to what `stream` holds.
    pub fn send(&self, stream: &mut Vec<u8>)
        ensures
            final(stream)@ == old(stream)@ + encode_message(self@),
    {
        let mut bytes = self.encode();
        stream.append(&mut bytes);
    }

    /// Decodes the whole of `bytes` as one message. A buffer that holds a
    /// message and then more bytes is rejected, as is one that ends early.
    pub fn decode(bytes: &[u8]) -> (r: Result<MessageType, DecodeError>)
        ensures
            match decode_message(bytes@) {
                Ok(m) => r is Ok && r->Ok_0@ == m,
                Err(e) => r is Err && r->Err_0 == e,
            },
    {
        if bytes.len() < 4 {
            return Err(DecodeError::Truncated);
        }
        let tag = u32_from_le_bytes(slice_subrange(bytes, 0, 4));
        assert(bytes@.subrange(0, 4) =~= bytes@.take(4));
        let mut at: usize = 4;
        let message = if tag == TAG_TEXT {
            MessageType::Text(take_text(bytes, &mut at)?)
        } else if tag == TAG_IMAGE {
            MessageType::Image(slice_to_vec(take_blob(bytes, &mut at)?))
        } else if tag == TAG_FILE {
            let name = take_text(bytes, &mut at)?;
            let content = slice_to_vec(take_blob(bytes, &mut at)?);
            MessageType::File { name, content }
        } else if tag == TAG_QUIT {
            MessageType::Quit
        } else {
            return Err(DecodeError::UnknownVariant(tag));
        };
        if at < bytes.len() {
            return Err(DecodeError::TrailingBytes);
        }
        Ok(message)
    }
}

/// What `split_blob` makes of an encoded byte sequence with anything after it.
pub proof fn lemma_split_encoded_blob(bytes: Seq<u8>, rest: Seq<u8>)
    requires
        bytes.len() <= u64::MAX,
    ensures
        split_blob(encode_blob(bytes) + rest) == Ok::<(Seq<u8>, Seq<u8>), DecodeError>(
            (bytes, rest),
        ),
{
    lemma_auto_spec_u64_to_from_le_bytes();
    let prefix = spec_u64_to_le_bytes(bytes.len() as u64);
    let all = encode_blob(bytes) + rest;
    assert(all.take(8) =~= prefix);
    assert(all.subrange(8, 8 + bytes.len() as int) =~= bytes);
    assert(all.skip(8 + bytes.len() as int) =~= rest);
}

/// What `split_text` makes of an encoded string with anything after it.
pub proof fn lemma_split_encoded_text(text: Seq<char>, rest: Seq<u8>)
    requires
        encode_utf8(text).len() <= u64::MAX,
    ensures
        split_text(encode_blob(encode_utf8(text)) + rest) == Ok::<
            (Seq<char>, Seq<u8>),
            DecodeError,
        >((text, rest)),
{
    lemma_split_encoded_blob(encode_utf8(text), rest);
    encode_utf8_valid_utf8(text);
    encode_utf8_decode_utf8(text);
}

/// Decoding undoes encoding: for every message `m` that can be encoded,
/// `decode_message(encode_message(m))` is `m`.
pub proof fn lemma_decode_encode(m: Message)
    requires
        encodable(m),
    ensures
        decode_message(encode_message(m)) == Ok::<Message, DecodeError>(m),
{
    lemma_auto_spec_u32_to_from_le_bytes();
    let bytes = encode_message(m);
    let empty = Seq::<u8>::empty();
    match m {
        Message::Text(text) => {
            let body = encode_blob(encode_utf8(text));
            assert(bytes.take(4) =~= spec_u32_to_le_bytes(TAG_TEXT));
            assert(bytes.skip(4) =~= body + empty);
            lemma_split_encoded_text(text, empty);
        },
        Message::Image(content) => {
            let body = encode_blob(content);
            assert(bytes.take(4) =~= spec_u32_to_le_bytes(TAG_IMAGE));
            assert(bytes.skip(4) =~= body + empty);
            lemma_split_encoded_blob(content, empty);
        },
        Message::File { name, content } => {
            let second = encode_blob(content);
            assert(bytes.take(4) =~= spec_u32_to_le_bytes(TAG_FILE));
            assert(bytes.skip(4) =~= encode_blob(encode_utf8(name)) + second);
            lemma_split_encoded_text(name, second);
            assert(second =~= second + empty);
            lemma_split_encoded_blob(content, empty);
        },
        Message::Quit => {
            assert(bytes.take(4) =~= spec_u32_to_le_bytes(TAG_QUIT));
            assert(bytes.skip(4) =~= empty);
        },
    }
}

/// A buffer that `split_blob` accepts starts with the encoding of what it
/// splits off.
pub proof fn lemma_split_blob_exact(bytes: Seq<u8>)
    requires
        split_blob(bytes) is Ok,
    ensures
        ({
            let (blob, rest) = split_blob(bytes)->Ok_0;
            bytes == encode_blob(blob) + rest && blob.len() <= u64::MAX
        }),
{
    lemma_auto_spec_u64_to_from_le_bytes();
    let (blob, rest) = split_blob(bytes)->Ok_0;
    let len = spec_u64_from_le_bytes(bytes.take(8));
    assert(spec_u64_to_le_bytes(len) == bytes.take(8));
    assert(bytes =~= encode_blob(blob) + rest);
}

/// A buffer that `split_text` accepts starts with the encoding of what it
/// splits off.
pub proof fn lemma_split_text_exact(bytes: Seq<u8>)
    requires
        split_text(bytes) is Ok,
    ensures
        ({
            let (text, rest) = split_text(bytes)->Ok_0;
            bytes == encode_blob(encode_utf8(text)) + rest && encode_utf8(text).len()
                <= u64::MAX
        }),
{
    lemma_split_blob_exact(bytes);
    let (blob, rest) = split_blob(bytes)->Ok_0;
    decode_utf8_encode_utf8(blob);
}

/// Encoding undoes decoding: a buffer that decodes to `m` is the encoding of
/// `m`, byte for byte. So no message has two encodings, and no accepted
/// buffer holds a byte that the message does not account for.
pub proof fn lemma_encode_decode(bytes: Seq<u8>)
    requires
        decode_message(bytes) is Ok,
    ensures
        encode_message(decode_message(bytes)->Ok_0) == bytes,
        encodable(decode_message(bytes)->Ok_0),
{
    lemma_auto_spec_u32_to_from_le_bytes();
    let tag = spec_u32_from_le_bytes(bytes.take(4));
    let body = bytes.skip(4);
    assert(spec_u32_to_le_bytes(tag) == bytes.take(4));
    assert(bytes =~= bytes.take(4) + body);
    let empty = Seq::<u8>::empty();
    if tag == TAG_TEXT {
        lemma_split_text_exact(body);
        let (text, rest) = split_text(body)->Ok_0;
        assert(rest =~= empty);
        assert(body =~= encode_blob(encode_utf8(text)));
    } else if tag == TAG_IMAGE {
        lemma_split_blob_exact(body);
        let (content, rest) = split_blob(body)->Ok_0;
        assert(rest =~= empty);
        assert(body =~= encode_blob(content));
    } else if tag == TAG_FILE {
        lemma_split_text_exact(body);
        let (name, rest) = split_text(body)->Ok_0;
        lemma_split_blob_exact(rest);
        let (content, last) = split_blob(rest)->Ok_0;
        assert(last =~= empty);
        assert(rest =~= encode_blob(content));
        assert(bytes =~= spec_u32_to_le_bytes(TAG_FILE) + encode_blob(encode_utf8(name))
            + encode_blob(content));
    } else {
        assert(body =~= empty);
        assert(bytes =~= spec_u32_to_le_bytes(TAG_QUIT));
    }
}

/// No encoding begins with another: every proper prefix of the encoding of a
/// message is rejected as truncated. A receiver that decodes after each read
/// therefore never takes a part of a message for a message.
pub proof fn lemma_prefix_truncated(m: Message, k: int)
    requires
        encodable(m),
        0 <= k < encode_message(m).len(),
    ensures
        decode_message(encode_message(m).take(k)) == Err::<Message, DecodeError>(
            DecodeError::Truncated,
        ),
{
    lemma_auto_spec_u32_to_from_le_bytes();
    let bytes = encode_message(m);
    let part = bytes.take(k);
    if k >= 4 {
        assert(part.take(4) =~= bytes.take(4));
        assert(part.skip(4) =~= bytes.skip(4).take(k - 4));
        match m {
            Message::Text(text) => {
                assert(bytes.take(4) =~= spec_u32_to_le_bytes(TAG_TEXT));
                assert(bytes.skip(4) =~= encode_blob(encode_utf8(text)));
                lemma_blob_prefix_truncated(encode_utf8(text), Seq::empty(), k - 4);
                assert(encode_blob(encode_utf8(text)) + Seq::<u8>::empty() =~= encode_blob(
                    encode_utf8(text),
                ));
            },
            Message::Image(content) => {
                assert(bytes.take(4) =~= spec_u32_to_le_bytes(TAG_IMAGE));
                assert(bytes.skip(4) =~= encode_blob(content));
                lemma_blob_prefix_truncated(content, Seq::empty(), k - 4);
                assert(encode_blob(content) + Seq::<u8>::empty() =~= encode_blob(content));
            },
            Message::File { name, content } => {
                let first = encode_blob(encode_utf8(name));
                let second = encode_blob(content);
                assert(bytes.take(4) =~= spec_u32_to_le_bytes(TAG_FILE));
                assert(bytes.skip(4) =~= first + second);
                if k - 4 < first.len() {
                    lemma_blob_prefix_truncated(encode_utf8(name), second, k - 4);
                } else {
                    let cut = second.take(k - 4 - first.len());
                    assert((first + second).take(k - 4) =~= first + cut);
                    lemma_split_encoded_text(name, cut);
                    lemma_blob_prefix_truncated(content, Seq::empty(), k - 4 - first.len());
                    assert(second + Seq::<u8>::empty() =~= second);
                }
            },
            Message::Quit => {},
        }
    }
}

/// A proper prefix of an encoded byte sequence is rejected as truncated,
/// whatever followed the sequence.
pub proof fn lemma_blob_prefix_truncated(bytes: Seq<u8>, rest: Seq<u8>, k: int)
    requires
        bytes.len() <= u64::MAX,
        0 <= k < encode_blob(bytes).len(),
    ensures
        split_blob((encode_blob(bytes) + rest).take(k)) == Err::<
            (Seq<u8>, Seq<u8>),
            DecodeError,
        >(DecodeError::Truncated),
        split_text((encode_blob(bytes) + rest).take(k)) == Err::<
            (Seq<char>, Seq<u8>),
            DecodeError,
        >(DecodeError::Truncated),
{
    lemma_auto_spec_u64_to_from_le_bytes();
    let part = (encode_blob(bytes) + rest).take(k);
    if k >= 8 {
        assert(part.take(8) =~= spec_u64_to_le_bytes(bytes.len() as u64));
    }
}

} // verus!
