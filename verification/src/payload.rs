//! Payloads: from a path and what was read there to a message, and from a
//! received message to what has to be written.
//!
//! Nothing here reads or writes. A caller reads the file and hands over the
//! outcome; it is handed back a plan and carries it out.

use vstd::prelude::*;

use crate::clock::{format_stamp, local_now, stamp_of, LocalTime};
use crate::error::{Failure, LibError};
use crate::message::{Message, MessageType};
use crate::path::{extension, extension_of, file_name, file_name_of, lemma_extension_of_suffix,
    lemma_file_name_is_component};

verus! {

/// How `std` shows a path in an error text: quoted, with escapes.
pub uninterp spec fn shown_path(path: Seq<char>) -> Seq<char>;

/// `Debug` of `std::path::Path`: the text that stands for the path in a
/// description. It depends on the path alone.
#[verifier::external_body]
fn show_path(path: &str) -> (shown: String)
    ensures
        shown@ == shown_path(path@),
{
    format!("{:?}", std::path::Path::new(path))
}

/// What the `image` crate makes of the bytes of a picture when it decodes
/// them in the format that their first bytes show and encodes the picture
/// again as PNG: the bytes of the PNG, or the description of the error that
/// stopped it.
pub uninterp spec fn reencoded_png(bytes: Seq<u8>) -> Result<Seq<u8>, Seq<char>>;

/// `image::guess_format`, `image::load_from_memory_with_format` with the
/// format that was guessed, and `image::DynamicImage::write_to` with the PNG
/// format, into memory; an error of any of them is given as its `Display`
/// text. The picture between the calls is a value of the `image` crate.
///
/// The format is looked up in the crate's own table of first bytes and the
/// decoder is the crate's own for that format, so the result depends on the
/// bytes alone. PNG is the one format that is built in: bytes in any other
/// format are an error of the codec.
#[verifier::external_body]
fn reencode_png(bytes: &[u8]) -> (png: Result<Vec<u8>, String>)
    ensures
        encoded_view(png) == reencoded_png(bytes@),
{
    let format = image::guess_format(bytes).map_err(|error| error.to_string())?;
    let picture =
        image::load_from_memory_with_format(bytes, format).map_err(|error| error.to_string())?;
    let mut out = std::io::Cursor::new(Vec::new());
    picture.write_to(&mut out, image::ImageFormat::Png).map_err(|error| error.to_string())?;
    Ok(out.into_inner())
}

/// How reading a file went: its whole content, or no content.
#[derive(Debug)]
pub enum ReadOutcome {
    Content(Vec<u8>),
    Failed,
}

/// The mathematical model of a [`ReadOutcome`].
pub enum ReadOutcomeView {
    Content(Seq<u8>),
    Failed,
}

impl View for ReadOutcome {
    type V = ReadOutcomeView;

    open spec fn view(&self) -> ReadOutcomeView {
        match self {
            ReadOutcome::Content(bytes) => ReadOutcomeView::Content(bytes@),
            ReadOutcome::Failed => ReadOutcomeView::Failed,
        }
    }
}

/// What has to be written for a received payload: make sure that `directory`
/// exists, then write `bytes` to `path`, in place of any file that is there.
#[derive(Debug)]
pub struct WritePlan {
    pub directory: String,
    pub path: String,
    pub bytes: Vec<u8>,
}

/// The mathematical model of a [`WritePlan`].
pub struct WritePlanView {
    pub directory: Seq<char>,
    pub path: Seq<char>,
    pub bytes: Seq<u8>,
}

impl View for WritePlan {
    type V = WritePlanView;

    open spec fn view(&self) -> WritePlanView {
        WritePlanView { directory: self.directory@, path: self.path@, bytes: self.bytes@ }
    }
}

/// Tells whether the extension of `path` is exactly `png`.
pub open spec fn is_png_path(path: Seq<char>) -> bool {
    extension_of(path) == Some("png"@)
}

/// The message for an image request that no read can change, if there is
/// one: a path without the extension `png` is answered at once.
pub open spec fn image_refusal(path: Seq<char>) -> Option<Message> {
    if is_png_path(path) {
        None
    } else {
        Some(Message::Text(Failure::WrongImageExtension.message()))
    }
}

/// The message for the image at `path`, given how reading it went.
pub open spec fn image_message(path: Seq<char>, outcome: ReadOutcomeView) -> Message {
    match image_refusal(path) {
        Some(refusal) => refusal,
        None => match outcome {
            ReadOutcomeView::Content(bytes) => Message::Image(bytes),
            ReadOutcomeView::Failed => Message::Text(
                Failure::ImageReadingError(shown_path(path)).message(),
            ),
        },
    }
}

/// The message for a file request that no read can change, if there is one:
/// a path without a file name is answered at once.
pub open spec fn file_refusal(path: Seq<char>) -> Option<Message> {
    if file_name_of(path) is Some {
        None
    } else {
        Some(Message::Text(Failure::FileNameError.message()))
    }
}

/// The message for the file at `path`, given how reading it went.
pub open spec fn file_message(path: Seq<char>, outcome: ReadOutcomeView) -> Message {
    match file_name_of(path) {
        None => Message::Text(Failure::FileNameError.message()),
        Some(name) => match outcome {
            ReadOutcomeView::Content(bytes) => Message::File { name, content: bytes },
            ReadOutcomeView::Failed => Message::Text(
                Failure::FileReadingError(shown_path(path)).message(),
            ),
        },
    }
}

/// The plan for a received file.
pub open spec fn file_plan(name: Seq<char>, content: Seq<u8>) -> WritePlanView {
    WritePlanView { directory: "files"@, path: "files/"@ + name, bytes: content }
}

/// The plan for a received image, given the time stamp that names it and its
/// bytes as PNG, or why there are none.
pub open spec fn image_plan_of(stamp: Seq<char>, png: Result<Seq<u8>, Seq<char>>) -> Result<
    WritePlanView,
    Failure,
> {
    match png {
        Ok(bytes) => Ok(
            WritePlanView {
                directory: "images"@,
                path: "images/"@ + stamp + ".png"@,
                bytes,
            },
        ),
        Err(why) => Err(Failure::ImageSavingError(why)),
    }
}

/// The model of an image codec's result: the bytes, or the description of
/// the failure.
pub open spec fn encoded_view(png: Result<Vec<u8>, String>) -> Result<Seq<u8>, Seq<char>> {
    match png {
        Ok(bytes) => Ok(bytes@),
        Err(why) => Err(why@),
    }
}

/// The model of a planning result.
pub open spec fn planned_view(r: Result<WritePlan, LibError>) -> Result<WritePlanView, Failure> {
    match r {
        Ok(plan) => Ok(plan@),
        Err(error) => Err(error@),
    }
}

/// Tells whether `path` has the extension `png`.
pub fn has_png_extension(path: &str) -> (b: bool)
    ensures
        b == is_png_path(path@),
{
    match extension(path) {
        Some(ext) => ext == "png".to_string(),
        None => false,
    }
}

/// Builds the plan for a received image from the time stamp that names it
/// and from its bytes as PNG, or from the description of why there are none.
pub fn image_plan(stamp: &str, png: Result<Vec<u8>, String>) -> (r: Result<WritePlan, LibError>)
    ensures
        planned_view(r) == image_plan_of(stamp@, encoded_view(png)),
{
    match png {
        Ok(bytes) => Ok(
            WritePlan {
                directory: "images".to_string(),
                path: "images/".to_string().concat(stamp).concat(".png"),
                bytes,
            },
        ),
        Err(why) => Err(LibError::ImageSavingError(why)),
    }
}

impl MessageType {
    /// Answers an image request without a read where the path rules the
    /// image out: only a path with the extension `png` is read.
    pub fn refuse_image(image_path: &str) -> (refusal: Option<MessageType>)
        ensures
            match image_refusal(image_path@) {
                Some(m) => refusal is Some && refusal->0@ == m,
                None => refusal is None,
            },
    {
        if has_png_extension(image_path) {
            None
        } else {
            Some(MessageType::Text(LibError::WrongImageExtension.message()))
        }
    }

    /// Constructs the message for the image at `image_path`, which was read
    /// with `outcome`.
    ///
    /// A path without the extension `png` gives a `Text` that says so,
    /// whatever `outcome` is; a failed read gives a `Text` that names the
    /// path; a read gives the `Image`.
    pub fn from_image(image_path: &str, outcome: ReadOutcome) -> (message: MessageType)
        ensures
            message@ == image_message(image_path@, outcome@),
    {
        match MessageType::refuse_image(image_path) {
            Some(refusal) => refusal,
            None => match outcome {
                ReadOutcome::Content(bytes) => MessageType::Image(bytes),
                ReadOutcome::Failed => MessageType::Text(
                    LibError::ImageReadingError(show_path(image_path)).message(),
                ),
            },
        }
    }

    /// Answers a file request without a read where the path names no file.
    pub fn refuse_file(file_path: &str) -> (refusal: Option<MessageType>)
        ensures
            match file_refusal(file_path@) {
                Some(m) => refusal is Some && refusal->0@ == m,
                None => refusal is None,
            },
    {
        match file_name(file_path) {
            Some(_) => None,
            None => Some(MessageType::Text(LibError::FileNameError.message())),
        }
    }

    /// Constructs the message for the file at `file_path`, which was read
    /// with `outcome`.
    ///
    /// A path without a file name gives a `Text` that says so, whatever
    /// `outcome` is; a failed read gives a `Text` that names the path; a read
    /// gives the `File`, named by the file name of the path.
    pub fn from_file(file_path: &str, outcome: ReadOutcome) -> (message: MessageType)
        ensures
            message@ == file_message(file_path@, outcome@),
            message@.well_named(),
    {
        proof {
            lemma_file_name_is_component(file_path@);
        }
        match file_name(file_path) {
            None => MessageType::Text(LibError::FileNameError.message()),
            Some(name) => match outcome {
                ReadOutcome::Content(content) => MessageType::File { name, content },
                ReadOutcome::Failed => MessageType::Text(
                    LibError::FileReadingError(show_path(file_path)).message(),
                ),
            },
        }
    }

    /// Plans the saving of a `File` message: its bytes go to the file of its
    /// name under `files`. Any other message is refused.
    pub fn to_file(&self) -> (r: Result<WritePlan, LibError>)
        ensures
            planned_view(r) == (match self@ {
                Message::File { name, content } => Ok(file_plan(name, content)),
                _ => Err(Failure::WrongMessageType),
            }),
    {
        match self {
            MessageType::File { name, content } => Ok(
                WritePlan {
                    directory: "files".to_string(),
                    path: "files/".to_string().concat(name.as_str()),
                    bytes: content.clone(),
                },
            ),
            _ => Err(LibError::WrongMessageType),
        }
    }

    /// Plans the saving of an `Image` message: the image is decoded, encoded
    /// again as PNG, and goes to a file under `images` that is named by the
    /// local time, to the second. Bytes that do not decode give an error and
    /// no plan, so nothing is written for them. Any other message is refused.
    ///
    /// The clock alone is left open: at the moment `now`, the result is
    /// `image_plan_of(stamp_of(now), reencoded_png(bytes))`.
    pub fn to_image(&self) -> (r: Result<WritePlan, LibError>)
        ensures
            match self@ {
                Message::Image(bytes) => exists|now: LocalTime|
                    now.in_range() && planned_view(r) == image_plan_of(
                        #[trigger] stamp_of(now),
                        reencoded_png(bytes),
                    ),
                _ => planned_view(r) == Err::<WritePlanView, Failure>(Failure::WrongMessageType),
            },
    {
        match self {
            MessageType::Image(content) => {
                let now = local_now();
                let stamp = format_stamp(&now);
                let r = image_plan(stamp.as_str(), reencode_png(content.as_slice()));
                assert(now.in_range() && planned_view(r) == image_plan_of(
                    stamp_of(now),
                    reencoded_png(content@),
                ));
                r
            },
            _ => Err(LibError::WrongMessageType),
        }
    }
}

/// An image that does not decode is not saved: whatever the time, the plan
/// for it is the error of the codec, as an `ImageSavingError`.
pub proof fn lemma_undecodable_image_is_not_saved(bytes: Seq<u8>, stamp: Seq<char>)
    requires
        reencoded_png(bytes) is Err,
    ensures
        image_plan_of(stamp, reencoded_png(bytes)) == Err::<WritePlanView, Failure>(
            Failure::ImageSavingError(reencoded_png(bytes)->Err_0),
        ),
{
}

/// An image that decodes is saved as the codec encodes it again: the plan
/// holds those bytes, for the file under `images` that the time names.
pub proof fn lemma_decodable_image_is_saved(bytes: Seq<u8>, stamp: Seq<char>)
    requires
        reencoded_png(bytes) is Ok,
    ensures
        image_plan_of(stamp, reencoded_png(bytes)) == Ok::<WritePlanView, Failure>(
            WritePlanView {
                directory: "images"@,
                path: "images/"@ + stamp + ".png"@,
                bytes: reencoded_png(bytes)->Ok_0,
            },
        ),
{
}

/// A path that ends in `.jpg` is no PNG path: an image request for it is
/// refused before anything is read.
pub proof fn lemma_jpg_is_refused(path: Seq<char>)
    requires
        ".jpg"@.is_suffix_of(path),
    ensures
        image_refusal(path) == Some(Message::Text(Failure::WrongImageExtension.message())),
        forall|outcome: ReadOutcomeView| #[trigger]
            image_message(path, outcome) == Message::Text(
                Failure::WrongImageExtension.message(),
            ),
{
    reveal_strlit(".jpg");
    reveal_strlit("png");
    let word = seq!['j', 'p', 'g'];
    let tail = path.skip(path.len() - 4);
    assert(tail == ".jpg"@);
    assert(path.skip(path.len() - 3) =~= word) by {
        assert forall|k: int| 0 <= k < 3 implies path.skip(path.len() - 3)[k] == word[k] by {
            assert(path.skip(path.len() - 3)[k] == tail[k + 1]);
        }
    }
    assert(path[path.len() - 4] == tail[0]);
    lemma_extension_of_suffix(path, word);
    assert(word[0] != "png"@[0]);
}

} // verus!
