//! Where a scene description comes from: a string, or a file whose contents
//! have been read.

use vstd::prelude::*;
use vstd::string::*;
use crate::text::{line_at, line_number_at_offset};

verus! {

/// The digits of `n` in base ten, without leading zeros.
pub open spec fn decimal(n: nat) -> Seq<char>
    decreases n,
{
    if n < 10 {
        seq![digit_char(n)]
    } else {
        decimal(n / 10).push(digit_char(n % 10))
    }
}

/// The digit for `d`, a number below ten.
pub open spec fn digit_char(d: nat) -> char {
    if d == 0 {
        '0'
    } else if d == 1 {
        '1'
    } else if d == 2 {
        '2'
    } else if d == 3 {
        '3'
    } else if d == 4 {
        '4'
    } else if d == 5 {
        '5'
    } else if d == 6 {
        '6'
    } else if d == 7 {
        '7'
    } else if d == 8 {
        '8'
    } else {
        '9'
    }
}

/// The digit for `d`, a number below ten.
fn digit_of(d: usize) -> (c: char)
    requires
        d < 10,
    ensures
        c == digit_char(d as nat),
{
    if d == 0 {
        '0'
    } else if d == 1 {
        '1'
    } else if d == 2 {
        '2'
    } else if d == 3 {
        '3'
    } else if d == 4 {
        '4'
    } else if d == 5 {
        '5'
    } else if d == 6 {
        '6'
    } else if d == 7 {
        '7'
    } else if d == 8 {
        '8'
    } else {
        '9'
    }
}

/// Appends the digits of `n` in base ten to `text`.
pub fn push_decimal(text: &mut String, n: usize)
    ensures
        final(text)@ == old(text)@ + decimal(n as nat),
    decreases n,
{
    if n < 10 {
        text.push(digit_of(n));
        assert(text@ =~= old(text)@ + decimal(n as nat));
    } else {
        push_decimal(text, n / 10);
        text.push(digit_of(n % 10));
        assert(text@ =~= old(text)@ + decimal(n as nat));
    }
}

/// How a place in a source is named in messages: the name of the source, a
/// colon, and the line of the place.
pub open spec fn place_text(filename: Seq<char>, code: Seq<char>, start: int) -> Seq<char> {
    filename + ":"@ + decimal(
        line_at(code, if start <= code.len() { start } else { code.len() as int }) as nat,
    )
}

/// The name of the place `start` in `code`.
fn place_name(filename: &str, code: &str, start: usize) -> (text: String)
    requires
        code@.len() < usize::MAX,
    ensures
        text@ == place_text(filename@, code@, start as int),
{
    let line = line_number_at_offset(code, start);
    let mut text = String::from_str(filename);
    text.append(":");
    push_decimal(&mut text, line);
    text
}

/// A scene description given as a string.
#[derive(Debug)]
pub struct StringSource {
    code: String,
}

impl StringSource {
    /// The text of the source.
    pub closed spec fn code(&self) -> Seq<char> {
        self.code@
    }

    /// The source with the text `code`.
    pub fn new(code: &str) -> (source: Self)
        ensures
            source.code() == code@,
    {
        Self { code: code.to_owned() }
    }

    /// The text of the source.
    pub fn get_code(&self) -> (code: &str)
        ensures
            code@ == self.code(),
    {
        self.code.as_str()
    }

    /// The name of the source: always `string`.
    pub fn get_filename(&self) -> (name: &str)
        ensures
            name@ == "string"@,
    {
        "string"
    }

    /// Whether two sources hold the same text.
    pub fn equals(&self, other: &StringSource) -> (same: bool)
        ensures
            same == (self.code() == other.code()),
    {
        self.code.as_str().eq(other.code.as_str())
    }

    /// The name in messages of the place between `start` and `end`.
    pub fn to_string(&self, start: usize, end: usize) -> (text: String)
        requires
            self.code().len() < usize::MAX,
        ensures
            text@ == place_text("string"@, self.code(), start as int),
    {
        place_name(self.get_filename(), self.get_code(), start)
    }
}

/// A scene description read from a file.
#[derive(Debug)]
pub struct FileSource {
    filename: String,
    code: String,
}

impl FileSource {
    /// The path of the file.
    pub closed spec fn filename(&self) -> Seq<char> {
        self.filename@
    }

    /// The text of the source.
    pub closed spec fn code(&self) -> Seq<char> {
        self.code@
    }

    /// The source for the file at `filename`, whose contents are `code`.
    pub fn new(filename: &str, code: &str) -> (source: Self)
        ensures
            source.filename() == filename@,
            source.code() == code@,
    {
        Self { filename: filename.to_owned(), code: code.to_owned() }
    }

    /// The text of the source.
    pub fn get_code(&self) -> (code: &str)
        ensures
            code@ == self.code(),
    {
        self.code.as_str()
    }

    /// The path of the file.
    pub fn get_filename(&self) -> (name: &str)
        ensures
            name@ == self.filename(),
    {
        self.filename.as_str()
    }

    /// Whether two sources hold the same text and come from the same path.
    pub fn equals(&self, other: &FileSource) -> (same: bool)
        ensures
            same == (self.code() == other.code() && self.filename() == other.filename()),
    {
        self.code.as_str().eq(other.code.as_str()) && self.filename.as_str().eq(
            other.filename.as_str(),
        )
    }

    /// The name in messages of the place between `start` and `end`.
    pub fn to_string(&self, start: usize, end: usize) -> (text: String)
        requires
            self.code().len() < usize::MAX,
        ensures
            text@ == place_text(self.filename(), self.code(), start as int),
    {
        place_name(self.get_filename(), self.get_code(), start)
    }
}

/// Code given as a string.
#[derive(Debug)]
pub struct StringCodeResource {
    code: String,
}

impl StringCodeResource {
    /// The code of the resource.
    pub closed spec fn code(&self) -> Seq<char> {
        self.code@
    }

    /// The resource with the code `code`.
    pub fn new(code: &str) -> (resource: Self)
        ensures
            resource.code() == code@,
    {
        Self { code: code.to_owned() }
    }

    /// The code of the resource.
    pub fn get_code(&self) -> (code: &str)
        ensures
            code@ == self.code(),
    {
        self.code.as_str()
    }

    /// Whether two resources hold the same code.
    pub fn equals(&self, other: &StringCodeResource) -> (same: bool)
        ensures
            same == (self.code() == other.code()),
    {
        self.code.as_str().eq(other.code.as_str())
    }
}

/// Code read from a file.
#[derive(Debug)]
pub struct FileCodeResource {
    filename: String,
    code: String,
}

impl FileCodeResource {
    /// The path of the file.
    pub closed spec fn filename(&self) -> Seq<char> {
        self.filename@
    }

    /// The code of the resource.
    pub closed spec fn code(&self) -> Seq<char> {
        self.code@
    }

    /// The resource for the file at `filename`, whose contents are `code`.
    pub fn new(filename: &str, code: &str) -> (resource: Self)
        ensures
            resource.filename() == filename@,
            resource.code() == code@,
    {
        Self { filename: filename.to_owned(), code: code.to_owned() }
    }

    /// The code of the resource.
    pub fn get_code(&self) -> (code: &str)
        ensures
            code@ == self.code(),
    {
        self.code.as_str()
    }

    /// The path of the file.
    pub fn get_filename(&self) -> (name: &str)
        ensures
            name@ == self.filename(),
    {
        self.filename.as_str()
    }

    /// Whether two resources hold the same code and come from the same
    /// path.
    pub fn equals(&self, other: &FileCodeResource) -> (same: bool)
        ensures
            same == (self.code() == other.code() && self.filename() == other.filename()),
    {
        self.code.as_str().eq(other.code.as_str()) && self.filename.as_str().eq(
            other.filename.as_str(),
        )
    }
}

} // verus!
