//! Transformations of a line of text, and a table of comma-separated values
//! laid out in columns.

use vstd::prelude::*;
use vstd::utf8::*;

use crate::text::{chars_of, same_text, trim_bounds, trimmed};

verus! {

/// The error of the `csv` crate.
#[verifier::external_type_specification]
#[verifier::external_body]
pub struct ExCsvError(csv::Error);

/// Why a transformation gave no text.
#[derive(Debug)]
pub enum TransformError {
    /// The input holds nothing but white space.
    EmptyInput,
    /// The name is that of no transformation.
    UnknownTransformation,
    /// The input is no table of comma-separated values; carries the
    /// description.
    Csv(String),
    /// The input names a file, which has to be read first.
    UnreadFile,
    /// A request is not a command and its input, with a space between them.
    InvalidRequest,
}

/// The mathematical model of a [`TransformError`].
pub enum TransformFailure {
    EmptyInput,
    UnknownTransformation,
    Csv(Seq<char>),
    UnreadFile,
    InvalidRequest,
}

impl View for TransformError {
    type V = TransformFailure;

    open spec fn view(&self) -> TransformFailure {
        match self {
            TransformError::EmptyInput => TransformFailure::EmptyInput,
            TransformError::UnknownTransformation => TransformFailure::UnknownTransformation,
            TransformError::Csv(why) => TransformFailure::Csv(why@),
            TransformError::UnreadFile => TransformFailure::UnreadFile,
            TransformError::InvalidRequest => TransformFailure::InvalidRequest,
        }
    }
}

impl TransformFailure {
    /// The text shown to a person for this failure.
    pub open spec fn message(self) -> Seq<char> {
        match self {
            TransformFailure::EmptyInput => "Input is empty"@,
            TransformFailure::UnknownTransformation => "Non-existing transformation"@,
            TransformFailure::Csv(why) => why,
            TransformFailure::UnreadFile => "Input file was not read"@,
            TransformFailure::InvalidRequest => "Invalid input -- expected: <command> <input>"@,
        }
    }
}

impl TransformError {
    /// Returns the text shown to a person for this error.
    pub fn message(&self) -> (text: String)
        ensures
            text@ == self@.message(),
    {
        match self {
            TransformError::EmptyInput => "Input is empty".to_string(),
            TransformError::UnknownTransformation => "Non-existing transformation".to_string(),
            TransformError::Csv(why) => why.clone(),
            TransformError::UnreadFile => "Input file was not read".to_string(),
            TransformError::InvalidRequest =>
                "Invalid input -- expected: <command> <input>".to_string(),
        }
    }
}

/// The model of a transformation's result.
pub open spec fn outcome(r: Result<String, TransformError>) -> Result<Seq<char>, TransformFailure> {
    match r {
        Ok(text) => Ok(text@),
        Err(error) => Err(error@),
    }
}

/// What `str::to_lowercase` makes of a text.
pub uninterp spec fn lowercase_of(line: Seq<char>) -> Seq<char>;

/// What `str::to_uppercase` makes of a text.
pub uninterp spec fn uppercase_of(line: Seq<char>) -> Seq<char>;

/// What `slug::slugify` makes of a text.
pub uninterp spec fn slug_of(line: Seq<char>) -> Seq<char>;

/// The header row that the `csv` crate reads from a text, if it can read it.
pub uninterp spec fn csv_header_of(input: Seq<char>) -> Option<Seq<Seq<char>>>;

/// The rows after the header row that the `csv` crate reads from a text, if
/// it can read them all.
pub uninterp spec fn csv_records_of(input: Seq<char>) -> Option<Seq<Seq<Seq<char>>>>;

/// `str::to_lowercase`: the lowercase equivalent of the text, by the rules of
/// Unicode. The result depends on the text alone.
#[verifier::external_body]
pub(crate) fn lowercase(line: &str) -> (lower: String)
    ensures
        lower@ == lowercase_of(line@),
{
    line.to_lowercase()
}

/// `str::to_uppercase`: the uppercase equivalent of the text, by the rules of
/// Unicode. The result depends on the text alone.
#[verifier::external_body]
fn uppercase(line: &str) -> (upper: String)
    ensures
        upper@ == uppercase_of(line@),
{
    line.to_uppercase()
}

/// `slug::slugify`: the text turned into lowercase ASCII words joined by `-`.
/// The result depends on the text alone.
#[verifier::external_body]
fn slugify(line: &str) -> (slug: String)
    ensures
        slug@ == slug_of(line@),
{
    slug::slugify(line)
}

/// `csv::Reader::headers` on a reader of the default configuration: the first
/// row of the text, or the error of reading it. The result depends on the
/// text alone.
#[verifier::external_body]
fn read_csv_header(input: &str) -> (r: Result<Vec<String>, csv::Error>)
    ensures
        match r {
            Ok(header) => csv_header_of(input@) == Some(header.deep_view()),
            Err(_) => csv_header_of(input@) is None,
        },
{
    let mut reader = csv::ReaderBuilder::new().from_reader(input.as_bytes());
    reader.headers().map(|header| header.iter().map(|field| field.to_string()).collect())
}

/// `csv::Reader::records` on a reader of the default configuration: the rows
/// after the first, or the first error met while reading them. The result
/// depends on the text alone.
#[verifier::external_body]
fn read_csv_records(input: &str) -> (r: Result<Vec<Vec<String>>, csv::Error>)
    ensures
        match r {
            Ok(rows) => csv_records_of(input@) == Some(rows.deep_view()),
            Err(_) => csv_records_of(input@) is None,
        },
{
    let mut reader = csv::ReaderBuilder::new().from_reader(input.as_bytes());
    reader.records().map(
        |row| row.map(|record| record.iter().map(|field| field.to_string()).collect()),
    ).collect()
}

/// `Display` of `csv::Error`. Nothing is claimed of the text.
#[verifier::external_body]
fn csv_error_text(error: &csv::Error) -> (text: String) {
    error.to_string()
}

/// A text is blank when trimming leaves nothing of it.
pub open spec fn is_blank(line: Seq<char>) -> bool {
    trimmed(line).len() == 0
}

/// `line` without its spaces.
pub open spec fn without_spaces(line: Seq<char>) -> Seq<char>
    decreases line.len(),
{
    if line.len() == 0 {
        Seq::empty()
    } else if line.last() == ' ' {
        without_spaces(line.drop_last())
    } else {
        without_spaces(line.drop_last()).push(line.last())
    }
}

/// Tells whether `line` is blank.
fn blank(line: &Vec<char>) -> (b: bool)
    ensures
        b == is_blank(line@),
{
    let (from, to) = trim_bounds(line);
    from == to
}

/// Returns `line` in lowercase. A blank line is an error.
pub fn to_lowercase(line: &str) -> (r: Result<String, TransformError>)
    ensures
        outcome(r) == if is_blank(line@) {
            Err(TransformFailure::EmptyInput)
        } else {
            Ok(lowercase_of(line@))
        },
{
    if blank(&chars_of(line)) {
        Err(TransformError::EmptyInput)
    } else {
        Ok(lowercase(line))
    }
}

/// Returns `line` in uppercase. A blank line is an error.
pub fn to_uppercase(line: &str) -> (r: Result<String, TransformError>)
    ensures
        outcome(r) == if is_blank(line@) {
            Err(TransformFailure::EmptyInput)
        } else {
            Ok(uppercase_of(line@))
        },
{
    if blank(&chars_of(line)) {
        Err(TransformError::EmptyInput)
    } else {
        Ok(uppercase(line))
    }
}

/// Returns `line` without its spaces. A blank line is an error.
pub fn remove_spaces(line: &str) -> (r: Result<String, TransformError>)
    ensures
        outcome(r) == if is_blank(line@) {
            Err(TransformFailure::EmptyInput)
        } else {
            Ok(without_spaces(line@))
        },
{
    let chars = chars_of(line);
    if blank(&chars) {
        return Err(TransformError::EmptyInput);
    }
    let mut out = String::new();
    let mut i: usize = 0;
    while i < chars.len()
        invariant
            i <= chars.len(),
            out@ == without_spaces(chars@.take(i as int)),
        decreases chars.len() - i,
    {
        assert(chars@.take(i + 1).drop_last() =~= chars@.take(i as int));
        if chars[i] != ' ' {
            out.push(chars[i]);
        }
        i += 1;
    }
    assert(chars@.take(chars.len() as int) =~= chars@);
    Ok(out)
}

/// Returns `line` as a slug. A blank line is an error.
pub fn slugify_str(line: &str) -> (r: Result<String, TransformError>)
    ensures
        outcome(r) == if is_blank(line@) {
            Err(TransformFailure::EmptyInput)
        } else {
            Ok(slug_of(line@))
        },
{
    if blank(&chars_of(line)) {
        Err(TransformError::EmptyInput)
    } else {
        Ok(slugify(line))
    }
}

/// Returns `line` twice over. A blank line is an error.
pub fn double_str(line: &str) -> (r: Result<String, TransformError>)
    ensures
        outcome(r) == if is_blank(line@) {
            Err(TransformFailure::EmptyInput)
        } else {
            Ok(line@ + line@)
        },
{
    if blank(&chars_of(line)) {
        Err(TransformError::EmptyInput)
    } else {
        Ok(line.to_string().concat(line))
    }
}

/// Returns the characters of `line` in reverse order. A blank line is an
/// error.
pub fn reverse(line: &str) -> (r: Result<String, TransformError>)
    ensures
        outcome(r) == if is_blank(line@) {
            Err(TransformFailure::EmptyInput)
        } else {
            Ok(line@.reverse())
        },
{
    let chars = chars_of(line);
    if blank(&chars) {
        return Err(TransformError::EmptyInput);
    }
    let n = chars.len();
    let mut out = String::new();
    let mut i: usize = 0;
    while i < n
        invariant
            i <= n == chars.len(),
            out@ == chars@.reverse().take(i as int),
        decreases n - i,
    {
        out.push(chars[n - 1 - i]);
        i += 1;
        assert(chars@.reverse().take(i as int) =~= chars@.reverse().take(i - 1).push(
            chars@[n - i],
        ));
    }
    assert(chars@.reverse().take(n as int) =~= chars@.reverse());
    Ok(out)
}

/// A table of texts: a header row and the rows under it.
#[derive(PartialEq, Debug)]
pub struct Csv {
    headers: Vec<String>,
    rows: Vec<Vec<String>>,
}

/// The mathematical model of a [`Csv`].
pub struct Table {
    pub headers: Seq<Seq<char>>,
    pub rows: Seq<Seq<Seq<char>>>,
}

impl View for Csv {
    type V = Table;

    closed spec fn view(&self) -> Table {
        Table { headers: self.headers.deep_view(), rows: self.rows.deep_view() }
    }
}

/// The length of a text in bytes, as `str::len` gives it.
pub open spec fn byte_len(cell: Seq<char>) -> usize {
    encode_utf8(cell).len() as usize
}

/// The width of the column `col` as far as the header and the first `upto`
/// rows decide: the length in bytes of the longest of their cells.
pub open spec fn column_width(t: Table, col: int, upto: int) -> usize
    decreases upto,
{
    if upto <= 0 {
        byte_len(t.headers[col])
    } else {
        let width = column_width(t, col, upto - 1);
        let row = t.rows[upto - 1];
        if col < row.len() && width < byte_len(row[col]) {
            byte_len(row[col])
        } else {
            width
        }
    }
}

/// The widths of the columns of a table. It has as many columns as its
/// header has cells.
pub open spec fn column_widths(t: Table) -> Seq<usize> {
    Seq::new(t.headers.len(), |col: int| column_width(t, col, t.rows.len() as int))
}

/// `cell`, followed by as many `fill` as it needs to be `width` characters
/// long.
pub open spec fn filled(cell: Seq<char>, width: int, fill: char) -> Seq<char> {
    cell + Seq::new(
        (if width > cell.len() {
            width - cell.len()
        } else {
            0
        }) as nat,
        |i: int| fill,
    )
}

/// The first `n` cells of a row, each filled with spaces to the width of its
/// column and two more. A cell without a column is left out.
pub open spec fn cells_text(widths: Seq<usize>, cells: Seq<Seq<char>>, n: int) -> Seq<char>
    decreases n,
{
    if n <= 0 {
        Seq::empty()
    } else if n - 1 < widths.len() {
        cells_text(widths, cells, n - 1) + filled(cells[n - 1], widths[n - 1] + 2, ' ')
    } else {
        cells_text(widths, cells, n - 1)
    }
}

/// A row as a line of text.
pub open spec fn line_text(widths: Seq<usize>, cells: Seq<Seq<char>>) -> Seq<char> {
    cells_text(widths, cells, cells.len() as int).push('\n')
}

/// The rule under the first `n` columns of the header: dashes, as wide as
/// the columns.
pub open spec fn rule_text(widths: Seq<usize>, n: int) -> Seq<char>
    decreases n,
{
    if n <= 0 {
        Seq::empty()
    } else {
        rule_text(widths, n - 1) + filled(Seq::empty(), widths[n - 1] + 2, '-')
    }
}

/// The first `n` rows as lines of text.
pub open spec fn rows_text(widths: Seq<usize>, rows: Seq<Seq<Seq<char>>>, n: int) -> Seq<char>
    decreases n,
{
    if n <= 0 {
        Seq::empty()
    } else {
        rows_text(widths, rows, n - 1) + line_text(widths, rows[n - 1])
    }
}

/// A table as text: the header, a rule, and the rows, in columns that are
/// as wide as their longest cell and two spaces apart.
pub open spec fn rendered(t: Table) -> Seq<char> {
    let widths = column_widths(t);
    line_text(widths, t.headers) + rule_text(widths, widths.len() as int).push('\n') + rows_text(
        widths,
        t.rows,
        t.rows.len() as int,
    )
}

/// Appends `fill` to `out`, `count` times.
fn push_fill(out: &mut String, count: usize, fill: char)
    ensures
        final(out)@ == old(out)@ + Seq::new(count as nat, |i: int| fill),
{
    let ghost before = out@;
    let mut k: usize = 0;
    assert(before + Seq::new(0, |i: int| fill) =~= before);
    while k < count
        invariant
            k <= count,
            out@ == before + Seq::new(k as nat, |i: int| fill),
        decreases count - k,
    {
        out.push(fill);
        k += 1;
        assert(before + Seq::new(k as nat, |i: int| fill) =~= (before + Seq::new(
            (k - 1) as nat,
            |i: int| fill,
        )).push(fill));
    }
}

/// Appends `cell` to `out`, filled to two more than `width` characters.
fn push_filled(out: &mut String, cell: &str, width: usize, fill: char)
    ensures
        final(out)@ == old(out)@ + filled(cell@, width + 2, fill),
{
    let ghost before = out@;
    let count = cell.unicode_len();
    out.append(cell);
    if count <= width {
        push_fill(out, width - count, fill);
        push_fill(out, 2, fill);
        assert(out@ =~= before + filled(cell@, width + 2, fill));
    } else if count - width == 1 {
        push_fill(out, 1, fill);
        assert(out@ =~= before + filled(cell@, width + 2, fill));
    } else {
        assert(out@ =~= before + filled(cell@, width + 2, fill));
    }
}

/// Appends a row to `out` as a line of text.
fn push_line(out: &mut String, cells: &Vec<String>, widths: &Vec<usize>)
    ensures
        final(out)@ == old(out)@ + line_text(widths@, cells.deep_view()),
{
    let ghost before = out@;
    let ghost row = cells.deep_view();
    let mut i: usize = 0;
    assert(before + cells_text(widths@, row, 0) =~= before);
    while i < cells.len()
        invariant
            i <= cells.len(),
            row == cells.deep_view(),
            out@ == before + cells_text(widths@, row, i as int),
        decreases cells.len() - i,
    {
        if i < widths.len() {
            assert(row[i as int] == cells@[i as int]@);
            push_filled(out, cells[i].as_str(), widths[i], ' ');
            assert(out@ =~= before + cells_text(widths@, row, i + 1));
        }
        i += 1;
    }
    out.push('\n');
    assert(out@ =~= before + line_text(widths@, row));
}

impl Csv {
    /// Makes a table of a header row and the rows under it.
    pub fn new(headers: Vec<String>, rows: Vec<Vec<String>>) -> (csv: Csv)
        ensures
            csv@ == (Table { headers: headers.deep_view(), rows: rows.deep_view() }),
    {
        Csv { headers, rows }
    }

    /// Finds the width of each column.
    fn widths(&self) -> (widths: Vec<usize>)
        ensures
            widths@ == column_widths(self@),
    {
        let ghost t = self@;
        let mut widths: Vec<usize> = Vec::new();
        let mut c: usize = 0;
        while c < self.headers.len()
            invariant
                c <= self.headers.len(),
                t == self@,
                widths@.len() == c,
                forall|k: int| 0 <= k < c ==> widths@[k] == column_width(t, k, 0),
            decreases self.headers.len() - c,
        {
            assert(t.headers[c as int] == self.headers@[c as int]@);
            widths.push(self.headers[c].as_str().len());
            c += 1;
        }
        let mut r: usize = 0;
        while r < self.rows.len()
            invariant
                r <= self.rows.len(),
                t == self@,
                widths@.len() == self.headers.len(),
                forall|k: int| 0 <= k < widths@.len() ==> widths@[k] == column_width(t, k, r as int),
            decreases self.rows.len() - r,
        {
            let row = &self.rows[r];
            assert(t.rows[r as int] == row.deep_view());
            let mut i: usize = 0;
            while i < row.len()
                invariant
                    i <= row.len(),
                    r < self.rows.len(),
                    t == self@,
                    t.rows[r as int] == row.deep_view(),
                    widths@.len() == self.headers.len(),
                    forall|k: int|
                        0 <= k < widths@.len() ==> widths@[k] == column_width(
                            t,
                            k,
                            if k < i {
                                r + 1
                            } else {
                                r as int
                            },
                        ),
                decreases row.len() - i,
            {
                if i < widths.len() {
                    assert(row.deep_view()[i as int] == row@[i as int]@);
                    let len = row[i].as_str().len();
                    if widths[i] < len {
                        widths[i] = len;
                    }
                }
                i += 1;
            }
            r += 1;
        }
        assert(widths@ =~= column_widths(t));
        widths
    }

    /// Lays the table out as text.
    pub fn render(&self) -> (text: String)
        ensures
            text@ == rendered(self@),
    {
        let widths = self.widths();
        let mut out = String::new();
        push_line(&mut out, &self.headers, &widths);
        let ghost head = out@;
        let mut c: usize = 0;
        assert(head + rule_text(widths@, 0) =~= head);
        while c < widths.len()
            invariant
                c <= widths.len(),
                out@ == head + rule_text(widths@, c as int),
            decreases widths.len() - c,
        {
            push_filled(&mut out, "", widths[c], '-');
            assert("".view() =~= Seq::<char>::empty()) by {
                reveal_strlit("");
            }
            c += 1;
            assert(out@ =~= head + rule_text(widths@, c as int));
        }
        out.push('\n');
        let ghost top = out@;
        let mut r: usize = 0;
        assert(top + rows_text(widths@, self@.rows, 0) =~= top);
        while r < self.rows.len()
            invariant
                r <= self.rows.len(),
                out@ == top + rows_text(widths@, self@.rows, r as int),
            decreases self.rows.len() - r,
        {
            assert(self@.rows[r as int] == self.rows@[r as int].deep_view());
            push_line(&mut out, &self.rows[r], &widths);
            r += 1;
            assert(out@ =~= top + rows_text(widths@, self@.rows, r as int));
        }
        assert(out@ =~= rendered(self@));
        out
    }
}

/// The table that the `csv` crate reads from a text, or `None` where it
/// reports an error.
pub open spec fn csv_of(input: Seq<char>) -> Option<Table> {
    match (csv_header_of(input), csv_records_of(input)) {
        (Some(headers), Some(rows)) => Some(Table { headers, rows }),
        _ => None,
    }
}

/// Reads a table from comma-separated values: the first row is the header.
pub fn csv_parse(input_str: &str) -> (r: Result<Csv, TransformError>)
    ensures
        match csv_of(input_str@) {
            Some(table) => r is Ok && r->Ok_0@ == table,
            None => r is Err && r->Err_0@ is Csv,
        },
{
    let headers = match read_csv_header(input_str) {
        Ok(headers) => headers,
        Err(error) => {
            return Err(TransformError::Csv(csv_error_text(&error)));
        },
    };
    let rows = match read_csv_records(input_str) {
        Ok(rows) => rows,
        Err(error) => {
            return Err(TransformError::Csv(csv_error_text(&error)));
        },
    };
    Ok(Csv::new(headers, rows))
}

/// Lays a table out as text.
pub fn csv_formatted_str(input_csv: Csv) -> (r: Result<String, TransformError>)
    ensures
        outcome(r) == Ok::<Seq<char>, TransformFailure>(rendered(input_csv@)),
{
    Ok(input_csv.render())
}

/// The transformations of a text.
#[derive(Debug, Clone, Copy, PartialEq, Eq, Structural)]
pub enum Transformation {
    Lowercase,
    Uppercase,
    NoSpaces,
    Slugify,
    Csv,
    Double,
    Reverse,
}

/// The transformation of a name, if it names one. The names are
/// `lowercase`, `uppercase`, `no-spaces`, `slugify`, `csv`, `double` and
/// `reverse`.
pub open spec fn named(name: Seq<char>) -> Option<Transformation> {
    if name == "lowercase"@ {
        Some(Transformation::Lowercase)
    } else if name == "uppercase"@ {
        Some(Transformation::Uppercase)
    } else if name == "no-spaces"@ {
        Some(Transformation::NoSpaces)
    } else if name == "slugify"@ {
        Some(Transformation::Slugify)
    } else if name == "csv"@ {
        Some(Transformation::Csv)
    } else if name == "double"@ {
        Some(Transformation::Double)
    } else if name == "reverse"@ {
        Some(Transformation::Reverse)
    } else {
        None
    }
}

/// What a transformation makes of a text. The description of a failure to
/// read comma-separated values is left open here.
pub open spec fn transformed(input: Seq<char>, transformation: Transformation) -> Result<
    Seq<char>,
    TransformFailure,
> {
    match transformation {
        Transformation::Csv => match csv_of(input) {
            Some(table) => Ok(rendered(table)),
            None => Err(TransformFailure::Csv(Seq::empty())),
        },
        _ => if is_blank(input) {
            Err(TransformFailure::EmptyInput)
        } else {
            Ok(
                match transformation {
                    Transformation::Lowercase => lowercase_of(input),
                    Transformation::Uppercase => uppercase_of(input),
                    Transformation::NoSpaces => without_spaces(input),
                    Transformation::Slugify => slug_of(input),
                    Transformation::Double => input + input,
                    _ => input.reverse(),
                },
            )
        },
    }
}

/// Tells whether a result is the expected one, up to the description of a
/// failure to read comma-separated values.
pub open spec fn agrees(
    r: Result<String, TransformError>,
    expected: Result<Seq<char>, TransformFailure>,
) -> bool {
    match expected {
        Err(TransformFailure::Csv(_)) => r is Err && r->Err_0@ is Csv,
        _ => outcome(r) == expected,
    }
}

/// Finds the transformation of a name.
pub fn find_transformation(name: &str) -> (r: Option<Transformation>)
    ensures
        r == named(name@),
{
    if same_text(name, "lowercase") {
        Some(Transformation::Lowercase)
    } else if same_text(name, "uppercase") {
        Some(Transformation::Uppercase)
    } else if same_text(name, "no-spaces") {
        Some(Transformation::NoSpaces)
    } else if same_text(name, "slugify") {
        Some(Transformation::Slugify)
    } else if same_text(name, "csv") {
        Some(Transformation::Csv)
    } else if same_text(name, "double") {
        Some(Transformation::Double)
    } else if same_text(name, "reverse") {
        Some(Transformation::Reverse)
    } else {
        None
    }
}

/// Applies a transformation to a text.
pub fn apply(input_str: &str, transformation: Transformation) -> (r: Result<
    String,
    TransformError,
>)
    ensures
        agrees(r, transformed(input_str@, transformation)),
{
    match transformation {
        Transformation::Lowercase => to_lowercase(input_str),
        Transformation::Uppercase => to_uppercase(input_str),
        Transformation::NoSpaces => remove_spaces(input_str),
        Transformation::Slugify => slugify_str(input_str),
        Transformation::Csv => match csv_parse(input_str) {
            Ok(csv) => csv_formatted_str(csv),
            Err(error) => Err(error),
        },
        Transformation::Double => double_str(input_str),
        Transformation::Reverse => reverse(input_str),
    }
}

/// Accepts the name of a transformation, and no other text.
pub fn check_transformation(transformation: &str) -> (r: Result<&str, TransformError>)
    ensures
        match named(transformation@) {
            Some(_) => r is Ok && r->Ok_0@ == transformation@,
            None => r is Err && r->Err_0@ == TransformFailure::UnknownTransformation,
        },
{
    match find_transformation(transformation) {
        Some(_) => Ok(transformation),
        None => Err(TransformError::UnknownTransformation),
    }
}

/// Applies the transformation of the given name to a text. The name has to
/// be one that `check_transformation` accepts.
pub fn transform(input_str: &str, transformation: &str) -> (r: Result<String, TransformError>)
    requires
        named(transformation@) is Some,
    ensures
        agrees(r, transformed(input_str@, named(transformation@)->0)),
{
    match find_transformation(transformation) {
        Some(found) => apply(input_str, found),
        None => Err(TransformError::UnknownTransformation),
    }
}

} // verus!
