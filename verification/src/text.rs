//! Characters and strings: the classes of characters that the scanner
//! distinguishes, and the few string operations of the standard library that
//! the crate builds on.

use vstd::prelude::*;
use vstd::string::*;

verus! {

/// What `char::is_whitespace` tells of `c`: whether it has the Unicode
/// property `White_Space`.
pub uninterp spec fn is_whitespace_char(c: char) -> bool;

/// What `char::is_alphabetic` tells of `c`: whether it has the Unicode
/// property `Alphabetic`.
pub uninterp spec fn is_alphabetic_char(c: char) -> bool;

/// What `char::is_alphanumeric` tells of `c`: whether it is alphabetic or
/// numeric in the sense of Unicode.
pub uninterp spec fn is_alphanumeric_char(c: char) -> bool;

/// Not proved, but taken from the standard library: what
/// `char::is_whitespace` returns depends on the character alone. Which
/// characters are white space is not said here.
pub assume_specification[ char::is_whitespace ](c: char) -> (b: bool)
    ensures
        b == is_whitespace_char(c),
;

/// Not proved, but taken from the standard library: what
/// `char::is_alphabetic` returns depends on the character alone. Which
/// characters are alphabetic is not said here.
pub assume_specification[ char::is_alphabetic ](c: char) -> (b: bool)
    ensures
        b == is_alphabetic_char(c),
;

/// Not proved, but taken from the standard library: what
/// `char::is_alphanumeric` returns depends on the character alone. Which
/// characters are alphanumeric is not said here.
pub assume_specification[ char::is_alphanumeric ](c: char) -> (b: bool)
    ensures
        b == is_alphanumeric_char(c),
;

/// What `str::to_lowercase` makes of the text `s`: the text in lower case,
/// as Unicode defines it.
pub uninterp spec fn lowercase_of(s: Seq<char>) -> Seq<char>;

/// Not proved, but taken from the standard library: what
/// `str::to_lowercase` returns depends on the text alone. How a text is put
/// in lower case is not said here.
pub assume_specification[ str::to_lowercase ](s: &str) -> (r: String)
    ensures
        r@ == lowercase_of(s@),
;

/// Not proved, but taken from the standard library: `String::push` appends
/// the character to the string and changes nothing else of it.
pub assume_specification[ String::push ](s: &mut String, ch: char)
    ensures
        final(s)@ == old(s)@.push(ch),
;

/// Not proved, but taken from the standard library: `==` on `str` tells
/// whether the two strings hold the same characters in the same order.
pub assume_specification[ <str as PartialEq>::eq ](a: &str, b: &str) -> (r: bool)
    ensures
        r == (a@ == b@),
;

/// What Unicode tells of a character, as far as the scanner asks.
#[derive(Debug, Clone, Copy, PartialEq, Eq, Structural)]
pub struct CharKind {
    /// Whether the character is white space.
    pub whitespace: bool,
    /// Whether the character is alphabetic.
    pub alphabetic: bool,
    /// Whether the character is alphabetic or numeric.
    pub alphanumeric: bool,
}

/// The kind of `c`, as the standard library tells it.
pub open spec fn kind_of(c: char) -> CharKind {
    CharKind {
        whitespace: is_whitespace_char(c),
        alphabetic: is_alphabetic_char(c),
        alphanumeric: is_alphanumeric_char(c),
    }
}

/// The kinds of the characters of `s`, in order.
pub open spec fn kinds_of(s: Seq<char>) -> Seq<CharKind> {
    s.map_values(|c: char| kind_of(c))
}

/// The kind of `c`, as the standard library tells it.
pub fn classify(c: char) -> (kind: CharKind)
    ensures
        kind == kind_of(c),
{
    CharKind {
        whitespace: c.is_whitespace(),
        alphabetic: c.is_alphabetic(),
        alphanumeric: c.is_alphanumeric(),
    }
}

/// The kinds of the characters `chars`, in order.
pub fn classify_all(chars: &Vec<char>) -> (kinds: Vec<CharKind>)
    ensures
        kinds@ == kinds_of(chars@),
{
    let mut kinds: Vec<CharKind> = Vec::new();
    let mut i: usize = 0;
    while i < chars.len()
        invariant
            i <= chars.len(),
            kinds@ == kinds_of(chars@.take(i as int)),
        decreases chars.len() - i,
    {
        kinds.push(classify(chars[i]));
        assert(kinds_of(chars@.take(i + 1)) =~= kinds_of(chars@.take(i as int)).push(
            kind_of(chars@[i as int]),
        ));
        i += 1;
    }
    assert(chars@.take(i as int) =~= chars@);
    kinds
}

/// The characters of `s`, in order.
pub fn chars_of(s: &str) -> (v: Vec<char>)
    ensures
        v@ == s@,
{
    let mut v: Vec<char> = Vec::new();
    for c in it: s.chars()
        invariant
            v@ == s@.take(it.index() as int),
            it.seq() == s@,
    {
        v.push(c);
    }
    v
}

/// What the standard library's `Debug` formatting writes for the string
/// `s`: the string between double quotes, with the characters that need it
/// escaped.
pub uninterp spec fn debug_text_of_str(s: Seq<char>) -> Seq<char>;

/// What the standard library's `Debug` formatting writes for the character
/// `c`: the character between single quotes, escaped where it needs to be.
pub uninterp spec fn debug_text_of_char(c: char) -> Seq<char>;

/// Formats a string with `{:?}`. Not proved, but taken from the standard
/// library: what `<str as Debug>::fmt` writes depends on the string alone.
/// The rules of escaping are not said here.
#[verifier::external_body]
pub(crate) fn debug_str(s: &str) -> (r: String)
    ensures
        r@ == debug_text_of_str(s@),
{
    format!("{:?}", s)
}

/// Formats a character with `{:?}`. Not proved, but taken from the standard
/// library: what `<char as Debug>::fmt` writes depends on the character
/// alone. The rules of escaping are not said here.
#[verifier::external_body]
pub(crate) fn debug_char(c: char) -> (r: String)
    ensures
        r@ == debug_text_of_char(c),
{
    format!("{:?}", c)
}

/// The line of the offset `pos`, counted from 1: one more than the number of
/// line feeds before `pos`. Of an offset outside the text nothing is said
/// but that its line is 1.
pub open spec fn line_at(s: Seq<char>, pos: int) -> int
    decreases pos,
{
    if pos <= 0 || pos > s.len() {
        1
    } else {
        line_at(s, pos - 1) + if s[pos - 1] == '\n' { 1int } else { 0int }
    }
}

/// The column of the offset `pos`, counted from 1: one more than the number
/// of characters between the last line feed before `pos` and `pos`. Of an
/// offset outside the text nothing is said but that its column is 1.
pub open spec fn column_at(s: Seq<char>, pos: int) -> int
    decreases pos,
{
    if pos <= 0 || pos > s.len() {
        1
    } else if s[pos - 1] == '\n' {
        1
    } else {
        column_at(s, pos - 1) + 1
    }
}

/// Lines and columns count from 1 and grow by at most one per character.
pub proof fn lemma_position_bounds(s: Seq<char>, pos: int)
    requires
        0 <= pos <= s.len(),
    ensures
        1 <= line_at(s, pos) <= pos + 1,
        1 <= column_at(s, pos) <= pos + 1,
    decreases pos,
{
    if pos > 0 {
        lemma_position_bounds(s, pos - 1);
    }
}

/// The line of the offset `offset` of `code`, counted from 1; an offset
/// behind the text counts as its end.
pub fn line_number_at_offset(code: &str, offset: usize) -> (line: usize)
    requires
        code@.len() < usize::MAX,
    ensures
        line == line_at(code@, if offset <= code@.len() { offset as int } else { code@.len() as int }),
{
    let mut line: usize = 1;
    let mut seen: usize = 0;
    for c in it: code.chars()
        invariant
            it.seq() == code@,
            code@.len() < usize::MAX,
            seen == if it.index() <= offset { it.index() } else { offset as int },
            line == line_at(code@, seen as int),
    {
        proof {
            lemma_position_bounds(code@, seen as int);
        }
        if seen < offset {
            seen += 1;
            if c == '\n' {
                line += 1;
            }
        }
    }
    line
}

/// The line and column of the offset `offset` of `code`, both counted from
/// 1, or `None` where the offset lies behind the text.
pub fn line_and_column_at_offset(code: &str, offset: usize) -> (place: Option<(usize, usize)>)
    requires
        code@.len() < usize::MAX,
    ensures
        place == if offset <= code@.len() {
            Some((line_at(code@, offset as int) as usize, column_at(code@, offset as int) as usize))
        } else {
            None::<(usize, usize)>
        },
        offset <= code@.len() ==> 1 <= line_at(code@, offset as int) <= offset + 1 && 1
            <= column_at(code@, offset as int) <= offset + 1,
{
    let mut line: usize = 1;
    let mut column: usize = 1;
    let mut seen: usize = 0;
    for c in it: code.chars()
        invariant
            it.seq() == code@,
            code@.len() < usize::MAX,
            seen == if it.index() <= offset { it.index() } else { offset as int },
            line == line_at(code@, seen as int),
            column == column_at(code@, seen as int),
    {
        proof {
            lemma_position_bounds(code@, seen as int);
        }
        if seen < offset {
            seen += 1;
            if c == '\n' {
                line += 1;
                column = 1;
            } else {
                column += 1;
            }
        }
    }
    proof {
        lemma_position_bounds(code@, seen as int);
    }
    if seen == offset {
        Some((line, column))
    } else {
        None
    }
}

} // verus!
