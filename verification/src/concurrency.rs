//! Transformations on request: which transformation a word names, where its
//! input comes from, and what it makes of it.

use vstd::prelude::*;

use crate::text::{chars_of, string_of, trim_bounds, trimmed};
use crate::str_utils::{
    agrees, apply, find_transformation, lowercase, lowercase_of, named, transformed,
    TransformError, TransformFailure, Transformation,
};

verus! {

/// How the application is run: with a thread that reads requests and one
/// that serves them, or once over its standard input.
#[derive(Debug, Clone, Copy, PartialEq, Eq, Structural)]
pub enum AppType {
    Threaded,
    Unattended,
}

/// Tells whether the input of a transformation names a file that holds the
/// text, rather than being the text. That is so for comma-separated values
/// in the threaded application.
pub open spec fn reads_file(transformation: Transformation, app_type: AppType) -> bool {
    transformation == Transformation::Csv && app_type == AppType::Threaded
}

/// Tells whether the input of a transformation names a file.
pub fn input_is_file(transformation: Transformation, app_type: AppType) -> (b: bool)
    ensures
        b == reads_file(transformation, app_type),
{
    match (transformation, app_type) {
        (Transformation::Csv, AppType::Threaded) => true,
        _ => false,
    }
}

/// Applies a transformation to a text.
///
/// Where the input names a file, the file has to be read first, and its
/// text transformed as in the unattended application: the name of a file is
/// refused here.
pub fn transform(input_str: &str, transformation: Transformation, app_type: AppType) -> (r: Result<
    String,
    TransformError,
>)
    ensures
        reads_file(transformation, app_type) ==> r is Err && r->Err_0@
            == TransformFailure::UnreadFile,
        !reads_file(transformation, app_type) ==> agrees(
            r,
            transformed(input_str@, transformation),
        ),
{
    if input_is_file(transformation, app_type) {
        Err(TransformError::UnreadFile)
    } else {
        apply(input_str, transformation)
    }
}

/// The transformation that a word names, whatever the case of its letters.
pub open spec fn requested(word: Seq<char>) -> Option<Transformation> {
    named(lowercase_of(word))
}

/// Finds the transformation that a word names, whatever the case of its
/// letters.
pub fn parse_transformation(input: &str) -> (r: Result<Transformation, TransformError>)
    ensures
        match requested(input@) {
            Some(transformation) => r == Ok::<Transformation, TransformError>(transformation),
            None => r is Err && r->Err_0@ == TransformFailure::UnknownTransformation,
        },
{
    match find_transformation(lowercase(input).as_str()) {
        Some(transformation) => Ok(transformation),
        None => Err(TransformError::UnknownTransformation),
    }
}

/// The position of the first space in `text`, or the length of `text`.
pub open spec fn first_space(text: Seq<char>) -> int
    decreases text.len(),
{
    if text.len() == 0 || text[0] == ' ' {
        0
    } else {
        1 + first_space(text.drop_first())
    }
}

/// The request that a line of input makes: the transformation that its
/// first word names, and its input, which is all that follows the first
/// space. The line is trimmed first. A line without a space is no request,
/// and a first word that names no transformation is reported as such.
pub open spec fn request_in(line: Seq<char>) -> Result<(Transformation, Seq<char>), TransformFailure> {
    let text = trimmed(line);
    let at = first_space(text);
    if 0 <= at < text.len() {
        match requested(text.take(at)) {
            Some(transformation) => Ok((transformation, text.skip(at + 1))),
            None => Err(TransformFailure::UnknownTransformation),
        }
    } else {
        Err(TransformFailure::InvalidRequest)
    }
}

/// The model of a parsed request.
pub open spec fn request_view(r: Result<(Transformation, String), TransformError>) -> Result<
    (Transformation, Seq<char>),
    TransformFailure,
> {
    match r {
        Ok((transformation, input)) => Ok((transformation, input@)),
        Err(error) => Err(error@),
    }
}

/// `first_space(text)` is the position `at` when no space stands before it
/// and one stands there, or `text` ends there.
pub proof fn lemma_first_space(text: Seq<char>, at: int)
    requires
        0 <= at <= text.len(),
        forall|k: int| 0 <= k < at ==> #[trigger] text[k] != ' ',
        at < text.len() ==> text[at] == ' ',
    ensures
        first_space(text) == at,
    decreases at,
{
    if at > 0 {
        let rest = text.drop_first();
        assert forall|k: int| 0 <= k < at - 1 implies #[trigger] rest[k] != ' ' by {
            assert(rest[k] == text[k + 1]);
        }
        lemma_first_space(rest, at - 1);
    }
}

/// Parses a line of input as a request: a command, a space, and the input
/// of the command.
pub fn parse_request(line: &str) -> (r: Result<(Transformation, String), TransformError>)
    ensures
        request_view(r) == request_in(line@),
{
    let chars = chars_of(line);
    let (from, to) = trim_bounds(&chars);
    let ghost text = chars@.subrange(from as int, to as int);
    let mut at: usize = from;
    while at < to && chars[at] != ' '
        invariant
            from <= at <= to <= chars.len(),
            forall|k: int| from <= k < at ==> #[trigger] chars@[k] != ' ',
        decreases to - at,
    {
        at += 1;
    }
    proof {
        assert forall|k: int| 0 <= k < at - from implies #[trigger] text[k] != ' ' by {
            assert(text[k] == chars@[k + from]);
        }
        lemma_first_space(text, at - from);
    }
    if at == to {
        return Err(TransformError::InvalidRequest);
    }
    let word = string_of(&chars, from, at);
    let input = string_of(&chars, at + 1, to);
    proof {
        assert(text.take(at - from) =~= chars@.subrange(from as int, at as int));
        assert(text.skip(at - from + 1) =~= chars@.subrange(at + 1, to as int));
    }
    match parse_transformation(word.as_str()) {
        Ok(transformation) => Ok((transformation, input)),
        Err(error) => Err(error),
    }
}

impl std::str::FromStr for Transformation {
    type Err = TransformError;

    /// Finds the transformation that a word names, whatever the case of its
    /// letters: the same as `parse_transformation`.
    fn from_str(input: &str) -> (r: Result<Transformation, TransformError>)
        ensures
            match requested(input@) {
                Some(transformation) => r == Ok::<Transformation, TransformError>(transformation),
                None => r is Err && r->Err_0@ == TransformFailure::UnknownTransformation,
            },
    {
        parse_transformation(input)
    }
}

} // verus!
