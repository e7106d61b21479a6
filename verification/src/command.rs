//! The command grammar: what a line of request text asks of the server.

use vstd::prelude::*;

use crate::text::{chars_of, has_prefix, string_of, trim_bounds, trimmed};

verus! {

/// What a request asks for.
#[derive(Debug)]
pub enum Command {
    /// End the session.
    Quit,
    /// Send the file at this path.
    SendFile(String),
    /// Send the image at this path.
    SendImage(String),
    /// Send this text back.
    Echo(String),
}

/// The mathematical model of a [`Command`].
pub enum CommandView {
    Quit,
    SendFile(Seq<char>),
    SendImage(Seq<char>),
    Echo(Seq<char>),
}

impl View for Command {
    type V = CommandView;

    open spec fn view(&self) -> CommandView {
        match self {
            Command::Quit => CommandView::Quit,
            Command::SendFile(path) => CommandView::SendFile(path@),
            Command::SendImage(path) => CommandView::SendImage(path@),
            Command::Echo(text) => CommandView::Echo(text@),
        }
    }
}

/// The meaning of a request line. The rules are tried in this order and the
/// first that fits decides:
///
/// 1. a line that begins with `.quit` asks to quit;
/// 2. a line that begins with `.file ` asks for the file named by the rest;
/// 3. a line that begins with `.image ` asks for the image named by the rest;
/// 4. any other line is echoed.
///
/// The rest of the line, and the echoed line, are trimmed. Nothing else is
/// checked here.
pub open spec fn command_of(line: Seq<char>) -> CommandView {
    if ".quit"@.is_prefix_of(line) {
        CommandView::Quit
    } else if ".file "@.is_prefix_of(line) {
        CommandView::SendFile(trimmed(line.skip(".file "@.len() as int)))
    } else if ".image "@.is_prefix_of(line) {
        CommandView::SendImage(trimmed(line.skip(".image "@.len() as int)))
    } else {
        CommandView::Echo(trimmed(line))
    }
}

/// Returns what is left of `line[from..]` after trimming.
fn trimmed_rest(line: &Vec<char>, from: usize) -> (rest: String)
    requires
        from <= line.len(),
    ensures
        rest@ == trimmed(line@.skip(from as int)),
{
    let mut tail: Vec<char> = Vec::new();
    let mut i: usize = from;
    while i < line.len()
        invariant
            from <= i <= line.len(),
            tail@ == line@.subrange(from as int, i as int),
        decreases line.len() - i,
    {
        tail.push(line[i]);
        i += 1;
        assert(line@.subrange(from as int, i as int) =~= line@.subrange(from as int, i - 1).push(
            line@[i - 1],
        ));
    }
    assert(line@.subrange(from as int, line.len() as int) =~= line@.skip(from as int));
    let (start, end) = trim_bounds(&tail);
    string_of(&tail, start, end)
}

/// Parses one request line.
pub fn parse_command(line: &str) -> (command: Command)
    ensures
        command@ == command_of(line@),
{
    let chars = chars_of(line);
    let quit = chars_of(".quit");
    let file = chars_of(".file ");
    let image = chars_of(".image ");
    if has_prefix(&chars, &quit) {
        Command::Quit
    } else if has_prefix(&chars, &file) {
        Command::SendFile(trimmed_rest(&chars, file.len()))
    } else if has_prefix(&chars, &image) {
        Command::SendImage(trimmed_rest(&chars, image.len()))
    } else {
        assert(chars@.skip(0) =~= chars@);
        Command::Echo(trimmed_rest(&chars, 0))
    }
}

/// A line that begins with `.quit` asks to quit, whatever follows.
pub proof fn lemma_quit_comes_first(rest: Seq<char>)
    ensures
        command_of(".quit"@ + rest) == CommandView::Quit,
{
    assert((".quit"@ + rest).subrange(0, ".quit"@.len() as int) =~= ".quit"@);
}

/// A line that begins with `.file ` asks for a file, also where the rest
/// looks like another command.
pub proof fn lemma_file_comes_before_image(rest: Seq<char>)
    ensures
        command_of(".file "@ + rest) == CommandView::SendFile(trimmed(rest)),
{
    reveal_strlit(".quit");
    reveal_strlit(".file ");
    let line = ".file "@ + rest;
    assert(line.subrange(0, ".file "@.len() as int) =~= ".file "@);
    assert(line.skip(".file "@.len() as int) =~= rest);
    assert(line[1] == 'f');
    if ".quit"@.is_prefix_of(line) {
        assert(line.subrange(0, ".quit"@.len() as int)[1] == 'q');
    }
}

} // verus!
