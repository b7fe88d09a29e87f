//! The scanner: from the characters of a scene description to its tokens.
//!
//! What the scanner produces is defined by [`lexemes`], a function of the
//! text and of the kinds of its characters. Each class of characters is
//! scanned greedily: a run ends at the first character outside the class, or
//! at the end of the text.
//!
//! Which characters are white space, letters or digits is asked of the
//! standard library once, when a scanner is made from a string
//! ([`Tokenizer::new`]); a scanner over characters whose kinds are given
//! asks nothing ([`Tokenizer::with_kinds`]).

use vstd::prelude::*;
use vstd::string::*;
use crate::openscad::views;
use crate::text::{
    chars_of, classify_all, column_at, kinds_of, lemma_position_bounds, line_at, CharKind,
};
use crate::openscad::WithPosition;

verus! {

/// A token of the scene-description language.
#[derive(Debug, Clone, PartialEq)]
pub enum Token {
    /// A name: a letter or `_`, then letters, digits and `_`.
    Identifier(String),
    /// A number, held as it is written in the text.
    Number(String),
    /// `(`
    LeftParen,
    /// `)`
    RightParen,
    /// `;`
    Semicolon,
    /// The keyword `for`.
    For,
    /// `=`
    Equals,
    /// The end of the text.
    Eof,
    /// A character that starts no token.
    Unknown(char),
}

/// What a [`Token`] is, with the text of names and numbers as sequences.
pub enum TokenView {
    Identifier(Seq<char>),
    Number(Seq<char>),
    LeftParen,
    RightParen,
    Semicolon,
    For,
    Equals,
    Eof,
    Unknown(char),
}

impl View for Token {
    type V = TokenView;

    open spec fn view(&self) -> TokenView {
        match self {
            Token::Identifier(s) => TokenView::Identifier(s@),
            Token::Number(s) => TokenView::Number(s@),
            Token::LeftParen => TokenView::LeftParen,
            Token::RightParen => TokenView::RightParen,
            Token::Semicolon => TokenView::Semicolon,
            Token::For => TokenView::For,
            Token::Equals => TokenView::Equals,
            Token::Eof => TokenView::Eof,
            Token::Unknown(c) => TokenView::Unknown(*c),
        }
    }
}

impl Token {
    /// Whether two tokens are the same, names and numbers compared by their
    /// text.
    pub fn same_as(&self, other: &Token) -> (same: bool)
        ensures
            same == (self@ == other@),
    {
        match (self, other) {
            (Token::Identifier(a), Token::Identifier(b)) => *a == *b,
            (Token::Number(a), Token::Number(b)) => *a == *b,
            (Token::LeftParen, Token::LeftParen) => true,
            (Token::RightParen, Token::RightParen) => true,
            (Token::Semicolon, Token::Semicolon) => true,
            (Token::For, Token::For) => true,
            (Token::Equals, Token::Equals) => true,
            (Token::Eof, Token::Eof) => true,
            (Token::Unknown(a), Token::Unknown(b)) => *a == *b,
            _ => false,
        }
    }
}

/// A token with the line and column at which it starts, both counted from 1.
#[derive(Debug, Clone, PartialEq)]
pub struct TokenWithPos {
    pub token: Token,
    pub line: usize,
    pub col: usize,
}

/// What a [`TokenWithPos`] is.
pub struct TokenWithPosView {
    pub token: TokenView,
    pub line: int,
    pub col: int,
}

impl View for TokenWithPos {
    type V = TokenWithPosView;

    open spec fn view(&self) -> TokenWithPosView {
        TokenWithPosView { token: self.token@, line: self.line as int, col: self.col as int }
    }
}

/// A token with the offsets, in characters, at which it starts and ends.
pub type TokenWithPosition = WithPosition<Token>;

/// The classes of characters that the scanner reads in runs.
pub enum CharClass {
    /// White space.
    Space,
    /// What a name is made of: alphabetic and alphanumeric characters, and
    /// `_`.
    Name,
    /// The digits `0` to `9`.
    Digit,
    /// Everything but the line feed.
    InLine,
}

/// Whether `c` is one of the digits `0` to `9`.
pub open spec fn is_digit(c: char) -> bool {
    '0' <= c && c <= '9'
}

/// Whether a name may start with the character `c` of kind `kind`.
pub open spec fn is_name_start(c: char, kind: CharKind) -> bool {
    kind.alphabetic || c == '_'
}

/// Whether the character `c` of kind `kind` belongs to `class`.
pub open spec fn in_class(c: char, kind: CharKind, class: CharClass) -> bool {
    match class {
        CharClass::Space => kind.whitespace,
        CharClass::Name => kind.alphabetic || kind.alphanumeric || c == '_',
        CharClass::Digit => is_digit(c),
        CharClass::InLine => c != '\n',
    }
}

/// Where the run of characters of `class` that starts at `from` ends: the
/// first offset at or after `from` whose character is outside the class, or
/// the length of the text.
pub open spec fn run_end(s: Seq<char>, k: Seq<CharKind>, from: int, class: CharClass) -> int
    decreases s.len() - from,
{
    if 0 <= from < s.len() && in_class(s[from], k[from], class) {
        run_end(s, k, from + 1, class)
    } else {
        from
    }
}

/// Where the block comment whose body starts at `from` ends: behind the first
/// `*/` at or after `from`, or at the end of the text where there is none.
pub open spec fn block_comment_end(s: Seq<char>, from: int) -> int
    decreases s.len() - from,
{
    if from < 0 || from >= s.len() {
        s.len() as int
    } else if s[from] == '*' && from + 1 < s.len() && s[from + 1] == '/' {
        from + 2
    } else {
        block_comment_end(s, from + 1)
    }
}

/// Where the comment that starts at `pos` ends, if one starts there. A line
/// comment ends before its line feed.
pub open spec fn comment_end(s: Seq<char>, k: Seq<CharKind>, pos: int) -> Option<int> {
    if 0 <= pos && pos + 1 < s.len() && s[pos] == '/' && s[pos + 1] == '/' {
        Some(run_end(s, k, pos, CharClass::InLine))
    } else if 0 <= pos && pos + 1 < s.len() && s[pos] == '/' && s[pos + 1] == '*' {
        Some(block_comment_end(s, pos + 2))
    } else {
        None
    }
}

/// The first offset at or after `pos` that lies neither in white space nor in
/// a comment.
pub open spec fn skip_trivia(s: Seq<char>, k: Seq<CharKind>, pos: int) -> int
    decreases s.len() - pos,
{
    let p = run_end(s, k, pos, CharClass::Space);
    match comment_end(s, k, p) {
        Some(e) => if pos <= p && p < e && e <= s.len() {
            skip_trivia(s, k, e)
        } else {
            p
        },
        None => p,
    }
}

/// Where the number that starts at `pos` ends, if one starts there.
///
/// A number is digits with at most one `.` among them and at least one
/// digit, then optionally `e` or `E`, an optional sign and at least one
/// digit. Where the part after the `e` lacks its digits, no number starts at
/// `pos`.
pub open spec fn number_end(s: Seq<char>, k: Seq<CharKind>, pos: int) -> Option<int> {
    let m1 = run_end(s, k, pos, CharClass::Digit);
    let m2 = if 0 <= m1 < s.len() && s[m1] == '.' {
        run_end(s, k, m1 + 1, CharClass::Digit)
    } else {
        m1
    };
    let digits = (m1 - pos) + (if m2 > m1 { m2 - m1 - 1 } else { 0 });
    if digits <= 0 {
        None
    } else if 0 <= m2 < s.len() && (s[m2] == 'e' || s[m2] == 'E') {
        let x1 = if m2 + 1 < s.len() && (s[m2 + 1] == '+' || s[m2 + 1] == '-') {
            m2 + 2
        } else {
            m2 + 1
        };
        let x2 = run_end(s, k, x1, CharClass::Digit);
        if x2 > x1 {
            Some(x2)
        } else {
            None
        }
    } else {
        Some(m2)
    }
}

/// A token and the offsets between which it stands.
pub struct Lexeme {
    pub token: TokenView,
    pub start: int,
    pub end: int,
}

/// The token that starts at `pos`, an offset inside the text that
/// [`skip_trivia`] has left unchanged.
pub open spec fn lexeme_at(s: Seq<char>, k: Seq<CharKind>, pos: int) -> Lexeme {
    let c = s[pos];
    if c == '(' {
        Lexeme { token: TokenView::LeftParen, start: pos, end: pos + 1 }
    } else if c == ')' {
        Lexeme { token: TokenView::RightParen, start: pos, end: pos + 1 }
    } else if c == ';' {
        Lexeme { token: TokenView::Semicolon, start: pos, end: pos + 1 }
    } else if is_name_start(c, k[pos]) {
        let e = run_end(s, k, pos, CharClass::Name);
        Lexeme { token: TokenView::Identifier(s.subrange(pos, e)), start: pos, end: e }
    } else {
        match number_end(s, k, pos) {
            Some(e) => Lexeme { token: TokenView::Number(s.subrange(pos, e)), start: pos, end: e },
            None => Lexeme { token: TokenView::Unknown(c), start: pos, end: pos + 1 },
        }
    }
}

/// The tokens of the text from `pos` on, in order.
pub open spec fn lexemes(s: Seq<char>, k: Seq<CharKind>, pos: int) -> Seq<Lexeme>
    decreases s.len() - pos,
{
    let p = skip_trivia(s, k, pos);
    if 0 <= pos <= p < s.len() {
        let l = lexeme_at(s, k, p);
        if p < l.end <= s.len() {
            seq![l] + lexemes(s, k, l.end)
        } else {
            seq![l]
        }
    } else {
        Seq::empty()
    }
}

/// A lexeme as a token with its line and column.
pub open spec fn located(s: Seq<char>, l: Lexeme) -> TokenWithPosView {
    TokenWithPosView { token: l.token, line: line_at(s, l.start), col: column_at(s, l.start) }
}

/// A lexeme as a token with its offsets.
pub open spec fn spanned(l: Lexeme) -> WithPosition<TokenView> {
    WithPosition { item: l.token, start: l.start as usize, end: l.end as usize }
}

/// A run stays inside the text, holds only characters of its class, and
/// cannot be extended.
pub proof fn lemma_run_end(s: Seq<char>, k: Seq<CharKind>, from: int, class: CharClass)
    requires
        0 <= from <= s.len(),
    ensures
        from <= run_end(s, k, from, class) <= s.len(),
        forall|i: int| from <= i < run_end(s, k, from, class) ==> in_class(#[trigger] s[i], k[i], class),
        run_end(s, k, from, class) < s.len() ==> !in_class(s[run_end(s, k, from, class)], k[run_end(s, k, from, class)], class),
    decreases s.len() - from,
{
    if from < s.len() && in_class(s[from], k[from], class) {
        lemma_run_end(s, k, from + 1, class);
    }
}

/// A block comment ends inside the text, behind its start.
pub proof fn lemma_block_comment_end(s: Seq<char>, from: int)
    requires
        0 <= from <= s.len(),
    ensures
        from <= block_comment_end(s, from) <= s.len(),
    decreases s.len() - from,
{
    if from < s.len() && !(s[from] == '*' && from + 1 < s.len() && s[from + 1] == '/') {
        lemma_block_comment_end(s, from + 1);
    }
}

/// A comment is at least two characters long and ends inside the text.
pub proof fn lemma_comment_end(s: Seq<char>, k: Seq<CharKind>, pos: int)
    requires
        0 <= pos <= s.len(),
        comment_end(s, k, pos) is Some,
    ensures
        pos + 2 <= comment_end(s, k, pos)->0 <= s.len(),
{
    if s[pos + 1] == '/' {
        lemma_run_end(s, k, pos, CharClass::InLine);
        assert(in_class(s[pos], k[pos], CharClass::InLine));
        assert(in_class(s[pos + 1], k[pos + 1], CharClass::InLine));
        if run_end(s, k, pos, CharClass::InLine) < pos + 2 {
            let e = run_end(s, k, pos, CharClass::InLine);
            assert(!in_class(s[e], k[e], CharClass::InLine));
        }
    } else {
        lemma_block_comment_end(s, pos + 2);
    }
}

/// Skipping stops inside the text, at a character that is neither white
/// space nor the start of a comment, or at the end of the text.
pub proof fn lemma_skip_trivia(s: Seq<char>, k: Seq<CharKind>, pos: int)
    requires
        0 <= pos <= s.len(),
    ensures
        pos <= skip_trivia(s, k, pos) <= s.len(),
        skip_trivia(s, k, pos) < s.len() ==> !k[skip_trivia(s, k, pos)].whitespace,
        comment_end(s, k, skip_trivia(s, k, pos)) is None,
        skip_trivia(s, k, skip_trivia(s, k, pos)) == skip_trivia(s, k, pos),
    decreases s.len() - pos,
{
    let p = run_end(s, k, pos, CharClass::Space);
    lemma_run_end(s, k, pos, CharClass::Space);
    match comment_end(s, k, p) {
        Some(e) => {
            lemma_comment_end(s, k, p);
            lemma_skip_trivia(s, k, e);
        },
        None => {
            assert(run_end(s, k, p, CharClass::Space) == p);
        },
    }
}

/// A number is at least one character long and ends inside the text.
pub proof fn lemma_number_end(s: Seq<char>, k: Seq<CharKind>, pos: int)
    requires
        0 <= pos <= s.len(),
        number_end(s, k, pos) is Some,
    ensures
        pos < number_end(s, k, pos)->0 <= s.len(),
{
    let m1 = run_end(s, k, pos, CharClass::Digit);
    lemma_run_end(s, k, pos, CharClass::Digit);
    if m1 < s.len() && s[m1] == '.' {
        lemma_run_end(s, k, m1 + 1, CharClass::Digit);
    }
    let m2 = if 0 <= m1 < s.len() && s[m1] == '.' {
        run_end(s, k, m1 + 1, CharClass::Digit)
    } else {
        m1
    };
    if 0 <= m2 < s.len() && (s[m2] == 'e' || s[m2] == 'E') {
        let x1 = if m2 + 1 < s.len() && (s[m2 + 1] == '+' || s[m2 + 1] == '-') {
            m2 + 2
        } else {
            m2 + 1
        };
        lemma_run_end(s, k, x1, CharClass::Digit);
    }
}

/// Every token is at least one character long and ends inside the text.
pub proof fn lemma_lexeme_at(s: Seq<char>, k: Seq<CharKind>, pos: int)
    requires
        0 <= pos < s.len(),
    ensures
        lexeme_at(s, k, pos).start == pos,
        pos < lexeme_at(s, k, pos).end <= s.len(),
{
    let c = s[pos];
    if c == '(' || c == ')' || c == ';' {
    } else if is_name_start(c, k[pos]) {
        lemma_run_end(s, k, pos, CharClass::Name);
        assert(in_class(c, k[pos], CharClass::Name));
    } else if number_end(s, k, pos) is Some {
        lemma_number_end(s, k, pos);
    }
}

/// A scanner over a text, with the offset, line and column it has reached.
pub struct Tokenizer {
    input: Vec<char>,
    kinds: Vec<CharKind>,
    pos: usize,
    line: usize,
    col: usize,
}

impl Tokenizer {
    /// The text that is scanned.
    pub closed spec fn text(&self) -> Seq<char> {
        self.input@
    }

    /// The kinds of the characters of the text, one for each.
    pub closed spec fn kinds(&self) -> Seq<CharKind> {
        self.kinds@
    }

    /// The offset that the scanner has reached.
    pub closed spec fn offset(&self) -> int {
        self.pos as int
    }

    /// The line that the scanner has reached.
    pub closed spec fn line(&self) -> int {
        self.line as int
    }

    /// The column that the scanner has reached.
    pub closed spec fn column(&self) -> int {
        self.col as int
    }

    /// The scanner stands inside its text, and its line and column are those
    /// of its offset.
    pub open spec fn wf(&self) -> bool {
        &&& 0 <= self.offset() <= self.text().len() < usize::MAX
        &&& self.kinds().len() == self.text().len()
        &&& self.line() == line_at(self.text(), self.offset())
        &&& self.column() == column_at(self.text(), self.offset())
    }

    /// Whether this scanner stands at `pos` in the text of `before`.
    pub open spec fn moved_to(&self, before: &Tokenizer, pos: int) -> bool {
        &&& self.wf()
        &&& self.text() == before.text()
        &&& self.kinds() == before.kinds()
        &&& self.offset() == pos
    }

    /// A scanner at the start of `input`, with the kinds of its characters
    /// as Unicode tells them.
    pub fn new(input: &str) -> (t: Self)
        requires
            input@.len() < usize::MAX,
        ensures
            t.wf(),
            t.text() == input@,
            t.kinds() == kinds_of(input@),
            t.offset() == 0,
    {
        let chars = chars_of(input);
        let kinds = classify_all(&chars);
        Tokenizer::with_kinds(chars, kinds)
    }

    /// A scanner at the start of the text `chars`, whose characters are of
    /// the kinds `kinds`.
    pub fn with_kinds(chars: Vec<char>, kinds: Vec<CharKind>) -> (t: Self)
        requires
            chars@.len() == kinds@.len(),
            chars@.len() < usize::MAX,
        ensures
            t.wf(),
            t.text() == chars@,
            t.kinds() == kinds@,
            t.offset() == 0,
    {
        Self { input: chars, kinds, pos: 0, line: 1, col: 1 }
    }

    /// The character at the scanner's offset, if the text has not ended.
    pub fn current(&self) -> (c: Option<char>)
        requires
            self.wf(),
        ensures
            c == if self.offset() < self.text().len() {
                Some(self.text()[self.offset()])
            } else {
                None::<char>
            },
    {
        if self.pos < self.input.len() {
            Some(self.input[self.pos])
        } else {
            None
        }
    }

    /// The character `offset` characters after the scanner's offset, if the
    /// text reaches that far.
    pub fn peek(&self, offset: usize) -> (c: Option<char>)
        requires
            self.wf(),
        ensures
            c == if self.offset() + offset < self.text().len() {
                Some(self.text()[self.offset() + offset])
            } else {
                None::<char>
            },
    {
        if offset < self.input.len() - self.pos {
            Some(self.input[self.pos + offset])
        } else {
            None
        }
    }

    /// Steps over one character and returns it; at the end of the text
    /// nothing changes.
    pub fn advance(&mut self) -> (c: Option<char>)
        requires
            old(self).wf(),
        ensures
            c == if old(self).offset() < old(self).text().len() {
                Some(old(self).text()[old(self).offset()])
            } else {
                None::<char>
            },
            final(self).moved_to(
                old(self),
                if old(self).offset() < old(self).text().len() {
                    old(self).offset() + 1
                } else {
                    old(self).offset()
                },
            ),
    {
        if self.pos >= self.input.len() {
            return None;
        }
        let ch: char = self.input[self.pos];
        proof {
            lemma_position_bounds(self.input@, self.pos as int);
        }
        self.pos += 1;
        if ch == '\n' {
            self.line += 1;
            self.col = 1;
        } else {
            self.col += 1;
        }
        Some(ch)
    }

    /// Steps over `n` characters, or to the end of the text where fewer are
    /// left.
    pub fn advance_n(&mut self, n: usize)
        requires
            old(self).wf(),
        ensures
            final(self).moved_to(
                old(self),
                if old(self).offset() + n <= old(self).text().len() {
                    old(self).offset() + n
                } else {
                    old(self).text().len() as int
                },
            ),
    {
        let mut i: usize = 0;
        while i < n
            invariant
                i <= n,
                self.moved_to(
                    old(self),
                    if old(self).offset() + i <= old(self).text().len() {
                        old(self).offset() + i
                    } else {
                        old(self).text().len() as int
                    },
                ),
            decreases n - i,
        {
            self.advance();
            i += 1;
        }
    }

    /// Steps over white space and comments.
    pub fn skip_whitespace_and_comments(&mut self)
        requires
            old(self).wf(),
        ensures
            final(self).moved_to(old(self), skip_trivia(old(self).text(), old(self).kinds(), old(self).offset())),
    {
        loop
            invariant
                self.wf(),
                self.text() == old(self).text(),
                self.kinds() == old(self).kinds(),
                old(self).offset() <= self.offset(),
                skip_trivia(self.text(), self.kinds(), self.offset()) == skip_trivia(old(self).text(), old(self).kinds(),
                    old(self).offset(),
                ),
            ensures
                self.moved_to(old(self), skip_trivia(old(self).text(), old(self).kinds(), old(self).offset())),
            decreases self.text().len() - self.offset(),
        {
            let ghost start = self.offset();
            self.skip_whitespace();
            proof {
                lemma_run_end(self.text(), self.kinds(), start, CharClass::Space);
                if comment_end(self.text(), self.kinds(), self.offset()) is Some {
                    lemma_comment_end(self.text(), self.kinds(), self.offset());
                }
            }
            if !self.skip_comment() {
                break;
            }
        }
    }

    /// Steps over the comment that starts at the scanner's offset, and tells
    /// whether one started there.
    pub fn skip_comment(&mut self) -> (skipped: bool)
        requires
            old(self).wf(),
        ensures
            skipped == comment_end(old(self).text(), old(self).kinds(), old(self).offset()).is_some(),
            final(self).moved_to(
                old(self),
                match comment_end(old(self).text(), old(self).kinds(), old(self).offset()) {
                    Some(e) => e,
                    None => old(self).offset(),
                },
            ),
    {
        if self.current() == Some('/') {
            if self.peek(1) == Some('/') {
                let ghost start = self.offset();
                while self.current().is_some() && self.current() != Some('\n')
                    invariant
                        self.wf(),
                        self.text() == old(self).text(),
                        self.kinds() == old(self).kinds(),
                self.kinds() == old(self).kinds(),
                        start <= self.offset(),
                        run_end(self.text(), self.kinds(), start, CharClass::InLine) == run_end(self.text(), self.kinds(),
                            self.offset(),
                            CharClass::InLine,
                        ),
                    decreases self.text().len() - self.offset(),
                {
                    self.advance();
                }
                return true;
            } else if self.peek(1) == Some('*') {
                self.advance();
                self.advance();
                let ghost start = self.offset();
                while self.current().is_some()
                    invariant_except_break
                        self.wf(),
                        self.text() == old(self).text(),
                        self.kinds() == old(self).kinds(),
                self.kinds() == old(self).kinds(),
                        start <= self.offset(),
                        block_comment_end(self.text(), start) == block_comment_end(
                            self.text(),
                            self.offset(),
                        ),
                    ensures
                        self.moved_to(old(self), block_comment_end(self.text(), start)),
                    decreases self.text().len() - self.offset(),
                {
                    if self.current() == Some('*') && self.peek(1) == Some('/') {
                        self.advance();
                        self.advance();
                        break;
                    }
                    self.advance();
                }
                return true;
            }
        }
        false
    }

    /// Steps over white space.
    pub fn skip_whitespace(&mut self)
        requires
            old(self).wf(),
        ensures
            final(self).moved_to(
                old(self),
                run_end(old(self).text(), old(self).kinds(), old(self).offset(), CharClass::Space),
            ),
    {
        loop
            invariant
                self.wf(),
                self.text() == old(self).text(),
                self.kinds() == old(self).kinds(),
                run_end(self.text(), self.kinds(), self.offset(), CharClass::Space) == run_end(old(self).text(), old(self).kinds(),
                    old(self).offset(),
                    CharClass::Space,
                ),
            ensures
                self.moved_to(
                    old(self),
                    run_end(old(self).text(), old(self).kinds(), old(self).offset(), CharClass::Space),
                ),
            decreases self.text().len() - self.offset(),
        {
            match self.current() {
                Some(ch) => {
                    if self.kinds[self.pos].whitespace {
                        self.advance();
                    } else {
                        break;
                    }
                },
                None => {
                    break;
                },
            }
        }
    }

    /// Reads the run of letters, digits and `_` at the scanner's offset.
    pub fn read_identifier(&mut self) -> (ident: String)
        requires
            old(self).wf(),
        ensures
            final(self).moved_to(
                old(self),
                run_end(old(self).text(), old(self).kinds(), old(self).offset(), CharClass::Name),
            ),
            ident@ == old(self).text().subrange(old(self).offset(), final(self).offset()),
    {
        let mut ident = String::new();
        loop
            invariant
                self.wf(),
                self.text() == old(self).text(),
                self.kinds() == old(self).kinds(),
                old(self).offset() <= self.offset(),
                ident@ == self.text().subrange(old(self).offset(), self.offset()),
                run_end(self.text(), self.kinds(), self.offset(), CharClass::Name) == run_end(old(self).text(), old(self).kinds(),
                    old(self).offset(),
                    CharClass::Name,
                ),
            ensures
                self.moved_to(
                    old(self),
                    run_end(old(self).text(), old(self).kinds(), old(self).offset(), CharClass::Name),
                ),
                ident@ == self.text().subrange(old(self).offset(), self.offset()),
            decreases self.text().len() - self.offset(),
        {
            match self.current() {
                Some(ch) => {
                    let kind = self.kinds[self.pos];
                    if kind.alphabetic || kind.alphanumeric || ch == '_' {
                        ident.push(ch);
                        self.advance();
                    } else {
                        break;
                    }
                },
                None => {
                    break;
                },
            }
        }
        ident
    }

    /// Reads the number at the scanner's offset, if one starts there; where
    /// none does, the scanner stays.
    pub fn try_read_number(&mut self) -> (number: Option<String>)
        requires
            old(self).wf(),
        ensures
            match number_end(old(self).text(), old(self).kinds(), old(self).offset()) {
                Some(e) => {
                    &&& number matches Some(n)
                    &&& n@ == old(self).text().subrange(old(self).offset(), e)
                    &&& final(self).moved_to(old(self), e)
                },
                None => number is None && final(self).moved_to(old(self), old(self).offset()),
            },
    {
        let mut result = String::new();
        let mut offset: usize = 0;
        let mut found_number = false;
        let mut found_decimal = false;
        let ghost s = self.text();
        let ghost k = self.kinds();
        let ghost start = self.offset();
        let ghost mut dot: int = -1;

        loop
            invariant
                self.wf(),
                self.text() == s,
                self.kinds() == k,
                self.offset() == start,
                start + offset <= s.len(),
                result@ == s.subrange(start, start + offset),
                !found_decimal ==> {
                    &&& found_number == (offset > 0)
                    &&& run_end(s, k, start, CharClass::Digit) == run_end(s, k,
                        start + offset,
                        CharClass::Digit,
                    )
                },
                found_decimal ==> {
                    &&& start <= dot < start + offset
                    &&& run_end(s, k, start, CharClass::Digit) == dot
                    &&& s[dot] == '.'
                    &&& found_number == (dot > start || start + offset > dot + 1)
                    &&& run_end(s, k, dot + 1, CharClass::Digit) == run_end(s, k,
                        start + offset,
                        CharClass::Digit,
                    )
                },
            ensures
                self.wf(),
                self.text() == s,
                self.kinds() == k,
                self.offset() == start,
                start + offset <= s.len(),
                result@ == s.subrange(start, start + offset),
                ({
                    let m1 = run_end(s, k, start, CharClass::Digit);
                    let m2 = if 0 <= m1 < s.len() && s[m1] == '.' {
                        run_end(s, k, m1 + 1, CharClass::Digit)
                    } else {
                        m1
                    };
                    let digits = (m1 - start) + (if m2 > m1 { m2 - m1 - 1 } else { 0 });
                    m2 == start + offset && found_number == (digits > 0)
                }),
            decreases s.len() - start - offset,
        {
            match self.peek(offset) {
                Some(ch) => {
                    if ch >= '0' && ch <= '9' {
                        result.push(ch);
                        found_number = true;
                    } else if found_decimal == false && ch == '.' {
                        result.push(ch);
                        found_decimal = true;
                        proof {
                            dot = start + offset;
                        }
                    } else {
                        proof {
                            lemma_run_end(s, k, start, CharClass::Digit);
                        }
                        break;
                    }
                    offset += 1;
                },
                None => {
                    proof {
                        lemma_run_end(s, k, start, CharClass::Digit);
                    }
                    break;
                },
            }
        }

        if !found_number {
            return None;
        }
        let mut valid = true;
        let has_exponent = match self.peek(offset) {
            Some(ch) => ch == 'e' || ch == 'E',
            None => false,
        };
        if has_exponent {
            let ghost m2 = start + offset;
            result.push(self.input[self.pos + offset]);
            offset += 1;

            let has_sign = match self.peek(offset) {
                Some(ch) => ch == '+' || ch == '-',
                None => false,
            };
            if has_sign {
                result.push(self.input[self.pos + offset]);
                offset += 1;
            }
            let ghost x1 = start + offset;
            let mut exponent_digits = false;
            loop
                invariant
                    self.wf(),
                    self.text() == s,
                    self.kinds() == k,
                self.kinds() == k,
                    self.offset() == start,
                    x1 <= start + offset <= s.len(),
                    result@ == s.subrange(start, start + offset),
                    exponent_digits == (start + offset > x1),
                    run_end(s, k, x1, CharClass::Digit) == run_end(s, k,
                        start + offset,
                        CharClass::Digit,
                    ),
                ensures
                    self.wf(),
                    self.text() == s,
                    self.kinds() == k,
                self.kinds() == k,
                    self.offset() == start,
                    x1 <= start + offset <= s.len(),
                    result@ == s.subrange(start, start + offset),
                    exponent_digits == (start + offset > x1),
                    run_end(s, k, x1, CharClass::Digit) == start + offset,
                decreases s.len() - start - offset,
            {
                match self.peek(offset) {
                    Some(ch) => {
                        if ch >= '0' && ch <= '9' {
                            result.push(ch);
                            exponent_digits = true;
                            offset += 1;
                        } else {
                            break;
                        }
                    },
                    None => {
                        break;
                    },
                }
            }
            valid = exponent_digits;
        }
        if valid {
            self.advance_n(offset);
            Some(result)
        } else {
            None
        }
    }

    /// Reads the token at the scanner's offset, which lies inside the text.
    pub fn read_token(&mut self) -> (token: Token)
        requires
            old(self).wf(),
            old(self).offset() < old(self).text().len(),
        ensures
            token@ == lexeme_at(old(self).text(), old(self).kinds(), old(self).offset()).token,
            final(self).moved_to(old(self), lexeme_at(old(self).text(), old(self).kinds(), old(self).offset()).end),
    {
        let ch: char = self.input[self.pos];
        if ch == '(' {
            self.advance();
            Token::LeftParen
        } else if ch == ')' {
            self.advance();
            Token::RightParen
        } else if ch == ';' {
            self.advance();
            Token::Semicolon
        } else if self.kinds[self.pos].alphabetic || ch == '_' {
            Token::Identifier(self.read_identifier())
        } else {
            match self.try_read_number() {
                Some(number) => Token::Number(number),
                None => {
                    self.advance();
                    Token::Unknown(ch)
                },
            }
        }
    }

    /// The next token with its line and column, or `None` where only white
    /// space and comments are left.
    pub fn next(&mut self) -> (token: Option<TokenWithPos>)
        requires
            old(self).wf(),
        ensures
            ({
                let s = old(self).text();
                let k = old(self).kinds();
                let p = skip_trivia(s, k, old(self).offset());
                if p < s.len() {
                    &&& token matches Some(t)
                    &&& t@ == located(s, lexeme_at(s, k, p))
                    &&& final(self).moved_to(old(self), lexeme_at(s, k, p).end)
                } else {
                    token is None && final(self).moved_to(old(self), p)
                }
            }),
    {
        self.skip_whitespace_and_comments();
        let line = self.line;
        let col = self.col;
        if self.pos >= self.input.len() {
            return None;
        }
        let token = self.read_token();
        Some(TokenWithPos { token, line, col })
    }

    /// The next token with its offsets, or `None` where only white space and
    /// comments are left.
    pub fn next_with_position(&mut self) -> (token: Option<TokenWithPosition>)
        requires
            old(self).wf(),
        ensures
            ({
                let s = old(self).text();
                let k = old(self).kinds();
                let p = skip_trivia(s, k, old(self).offset());
                if p < s.len() {
                    &&& token matches Some(t)
                    &&& t@ == spanned(lexeme_at(s, k, p))
                    &&& final(self).moved_to(old(self), lexeme_at(s, k, p).end)
                } else {
                    token is None && final(self).moved_to(old(self), p)
                }
            }),
    {
        self.skip_whitespace_and_comments();
        let start = self.pos;
        if self.pos >= self.input.len() {
            return None;
        }
        let token = self.read_token();
        Some(WithPosition::new(token, start, self.pos))
    }

    /// All the tokens from the scanner's offset on, each with its line and
    /// column.
    pub fn tokenize(self) -> (tokens: Vec<TokenWithPos>)
        requires
            self.wf(),
        ensures
            views(tokens@) == located_tokens(self.text(), self.kinds(), self.offset()),
    {
        let mut scanner = self;
        let mut tokens: Vec<TokenWithPos> = Vec::new();
        let ghost s = self.text();
        let ghost k = self.kinds();
        let ghost all = lexemes(s, k, self.offset());
        loop
            invariant
                scanner.wf(),
                scanner.text() == s,
                scanner.kinds() == k,
                tokens@.len() <= all.len(),
                all.skip(tokens@.len() as int) == lexemes(s, k, scanner.offset()),
                forall|i: int| 0 <= i < tokens@.len() ==> (#[trigger] tokens@[i])@ == located(s, all[i]),
            ensures
                tokens@.len() == all.len(),
                forall|i: int| 0 <= i < tokens@.len() ==> (#[trigger] tokens@[i])@ == located(s, all[i]),
            decreases s.len() - scanner.offset(),
        {
            proof {
                lemma_lexemes_unfold(s, k, scanner.offset());
            }
            let ghost rest = lexemes(s, k, scanner.offset());
            assert(all.skip(tokens@.len() as int) == rest);
            match scanner.next() {
                Some(token) => {
                    assert(rest.len() >= 1);
                    assert(all.skip(tokens@.len() as int).len() >= 1);
                    assert(all[tokens@.len() as int] == rest[0]);
                    assert(all.skip(tokens@.len() as int + 1) =~= rest.skip(1));
                    tokens.push(token);
                },
                None => {
                    break;
                },
            }
        }
        assert(views(tokens@) =~= located_tokens(s, k, self.offset()));
        tokens
    }

    /// All the tokens from the scanner's offset on, each with its offsets,
    /// and behind them the token for the end of the text.
    pub fn tokenize_with_positions(self) -> (tokens: Vec<TokenWithPosition>)
        requires
            self.wf(),
        ensures
            views(tokens@) == spanned_tokens(self.text(), self.kinds(), self.offset()),
    {
        let mut scanner = self;
        let mut tokens: Vec<TokenWithPosition> = Vec::new();
        let ghost s = self.text();
        let ghost k = self.kinds();
        let ghost all = lexemes(s, k, self.offset());
        loop
            invariant
                scanner.wf(),
                scanner.text() == s,
                scanner.kinds() == k,
                tokens@.len() <= all.len(),
                all.skip(tokens@.len() as int) == lexemes(s, k, scanner.offset()),
                forall|i: int| 0 <= i < tokens@.len() ==> (#[trigger] tokens@[i])@ == spanned(all[i]),
            ensures
                scanner.wf(),
                scanner.text() == s,
                scanner.kinds() == k,
                scanner.offset() == s.len(),
                tokens@.len() == all.len(),
                forall|i: int| 0 <= i < tokens@.len() ==> (#[trigger] tokens@[i])@ == spanned(all[i]),
            decreases s.len() - scanner.offset(),
        {
            proof {
                lemma_lexemes_unfold(s, k, scanner.offset());
            }
            let ghost rest = lexemes(s, k, scanner.offset());
            assert(all.skip(tokens@.len() as int) == rest);
            match scanner.next_with_position() {
                Some(token) => {
                    assert(rest.len() >= 1);
                    assert(all.skip(tokens@.len() as int).len() >= 1);
                    assert(all[tokens@.len() as int] == rest[0]);
                    assert(all.skip(tokens@.len() as int + 1) =~= rest.skip(1));
                    tokens.push(token);
                },
                None => {
                    break;
                },
            }
        }
        let end = scanner.pos;
        tokens.push(WithPosition::new(Token::Eof, end, end));
        assert(views(tokens@) =~= spanned_tokens(s, k, self.offset()));
        tokens
    }
}

/// The tokens of the text from `pos` on, each with its line and column.
pub open spec fn located_tokens(s: Seq<char>, k: Seq<CharKind>, pos: int) -> Seq<TokenWithPosView> {
    lexemes(s, k, pos).map_values(|l: Lexeme| located(s, l))
}

/// The token for the end of the text.
pub open spec fn end_token(s: Seq<char>) -> WithPosition<TokenView> {
    WithPosition { item: TokenView::Eof, start: s.len() as usize, end: s.len() as usize }
}

/// The tokens of the text from `pos` on, each with its offsets, and behind
/// them the token for the end of the text.
pub open spec fn spanned_tokens(s: Seq<char>, k: Seq<CharKind>, pos: int) -> Seq<WithPosition<TokenView>> {
    lexemes(s, k, pos).map_values(|l: Lexeme| spanned(l)).push(end_token(s))
}

/// The tokens from `pos` on are the first token behind `pos`, followed by
/// the tokens from its end on; there are none where only white space and
/// comments are left.
pub proof fn lemma_lexemes_unfold(s: Seq<char>, k: Seq<CharKind>, pos: int)
    requires
        0 <= pos <= s.len(),
    ensures
        ({
            let p = skip_trivia(s, k, pos);
            &&& pos <= p <= s.len()
            &&& if p < s.len() {
                &&& p < lexeme_at(s, k, p).end <= s.len()
                &&& lexemes(s, k, pos) == seq![lexeme_at(s, k, p)] + lexemes(s, k, lexeme_at(s, k, p).end)
            } else {
                lexemes(s, k, pos) == Seq::<Lexeme>::empty()
            }
        }),
{
    lemma_skip_trivia(s, k, pos);
    let p = skip_trivia(s, k, pos);
    if p < s.len() {
        lemma_lexeme_at(s, k, p);
    }
}

/// The tokens of a text with their lines and columns.
pub fn openscad_tokenize(input: &str) -> (tokens: Vec<TokenWithPos>)
    requires
        input@.len() < usize::MAX,
    ensures
        views(tokens@) == located_tokens(input@, kinds_of(input@), 0),
{
    let tokenizer = Tokenizer::new(input);
    tokenizer.tokenize()
}

/// The tokens of the text `chars`, whose characters are of the kinds
/// `kinds`, with their lines and columns.
pub fn tokenize_classified(chars: Vec<char>, kinds: Vec<CharKind>) -> (tokens: Vec<TokenWithPos>)
    requires
        chars@.len() == kinds@.len(),
        chars@.len() < usize::MAX,
    ensures
        views(tokens@) == located_tokens(chars@, kinds@, 0),
{
    let tokenizer = Tokenizer::with_kinds(chars, kinds);
    tokenizer.tokenize()
}

/// The tokens of the text `chars`, whose characters are of the kinds
/// `kinds`, with their offsets, closed by the token for the end of the
/// text.
pub fn tokenize_classified_with_positions(chars: Vec<char>, kinds: Vec<CharKind>) -> (tokens: Vec<
    TokenWithPosition,
>)
    requires
        chars@.len() == kinds@.len(),
        chars@.len() < usize::MAX,
    ensures
        views(tokens@) == spanned_tokens(chars@, kinds@, 0),
{
    let tokenizer = Tokenizer::with_kinds(chars, kinds);
    tokenizer.tokenize_with_positions()
}

/// The tokens of a text with their offsets, closed by the token for the end
/// of the text.
pub fn openscad_tokenize_with_positions(input: &str) -> (tokens: Vec<TokenWithPosition>)
    requires
        input@.len() < usize::MAX,
    ensures
        views(tokens@) == spanned_tokens(input@, kinds_of(input@), 0),
{
    let tokenizer = Tokenizer::new(input);
    tokenizer.tokenize_with_positions()
}

/// The tokens of a text stand in it in order and apart: each is at least one
/// character long and ends inside the text, and between one token and the
/// next, as before the first and behind the last, lie only white space and
/// comments.
pub proof fn lemma_lexemes_in_order(s: Seq<char>, k: Seq<CharKind>, pos: int)
    requires
        0 <= pos <= s.len(),
    ensures
        forall|i: int|
            0 <= i < lexemes(s, k, pos).len() ==> {
                let l = #[trigger] lexemes(s, k, pos)[i];
                &&& pos <= l.start < l.end <= s.len()
                &&& l == lexeme_at(s, k, l.start)
                &&& l.start == skip_trivia(s, k,
                    if i == 0 {
                        pos
                    } else {
                        lexemes(s, k, pos)[i - 1].end
                    },
                )
            },
        skip_trivia(s, k,
            if lexemes(s, k, pos).len() == 0 {
                pos
            } else {
                lexemes(s, k, pos).last().end
            },
        ) == s.len(),
    decreases s.len() - pos,
{
    lemma_lexemes_unfold(s, k, pos);
    lemma_skip_trivia(s, k, pos);
    let p = skip_trivia(s, k, pos);
    if p < s.len() {
        let l = lexeme_at(s, k, p);
        lemma_lexeme_at(s, k, p);
        lemma_lexemes_in_order(s, k, l.end);
        let rest = lexemes(s, k, l.end);
        let all = lexemes(s, k, pos);
        assert(all == seq![l] + rest);
        assert forall|i: int| 0 <= i < all.len() implies {
            let m = #[trigger] all[i];
            &&& pos <= m.start < m.end <= s.len()
            &&& m == lexeme_at(s, k, m.start)
            &&& m.start == skip_trivia(s, k,
                if i == 0 {
                    pos
                } else {
                    all[i - 1].end
                },
            )
        } by {
            if i > 0 {
                assert(all[i] == rest[i - 1]);
                if i > 1 {
                    assert(all[i - 1] == rest[i - 2]);
                }
            }
        }
        if rest.len() > 0 {
            assert(all.last() == rest.last());
        }
    }
}

/// Whether `t` holds digits only.
pub open spec fn is_digits(t: Seq<char>) -> bool {
    forall|i: int| 0 <= i < t.len() ==> is_digit(#[trigger] t[i])
}

/// Whether `t` is digits with at most one `.` among them, and at least one
/// digit.
pub open spec fn is_mantissa(t: Seq<char>) -> bool {
    ||| t.len() > 0 && is_digits(t)
    ||| exists|d: int|
        0 <= d < t.len() && t.len() > 1 && #[trigger] t[d] == '.' && is_digits(t.take(d))
            && is_digits(t.skip(d + 1))
}

/// Whether `t` is `e` or `E`, an optional sign, and at least one digit.
pub open spec fn is_exponent(t: Seq<char>) -> bool {
    &&& t.len() >= 2
    &&& t[0] == 'e' || t[0] == 'E'
    &&& {
        ||| is_digits(t.skip(1))
        ||| (t[1] == '+' || t[1] == '-') && t.len() >= 3 && is_digits(t.skip(2))
    }
}

/// Whether `t` is a number in decimal notation: a mantissa, and optionally
/// an exponent. These are the texts without a sign that the standard library
/// reads as a floating-point number in decimal notation.
pub open spec fn is_number_text(t: Seq<char>) -> bool {
    exists|m: int|
        0 < m <= t.len() && #[trigger] is_mantissa(t.take(m)) && (m == t.len() || is_exponent(
            t.skip(m),
        ))
}

/// The text of every number that the scanner reads is a number in decimal
/// notation.
pub proof fn lemma_number_text(s: Seq<char>, k: Seq<CharKind>, pos: int)
    requires
        0 <= pos <= s.len(),
        number_end(s, k, pos) is Some,
    ensures
        is_number_text(s.subrange(pos, number_end(s, k, pos)->0)),
{
    let e = number_end(s, k, pos)->0;
    let t = s.subrange(pos, e);
    let m1 = run_end(s, k, pos, CharClass::Digit);
    lemma_run_end(s, k, pos, CharClass::Digit);
    lemma_number_end(s, k, pos);
    let dotted = m1 < s.len() && s[m1] == '.';
    if dotted {
        lemma_run_end(s, k, m1 + 1, CharClass::Digit);
    }
    let m2 = if dotted { run_end(s, k, m1 + 1, CharClass::Digit) } else { m1 };
    let m = m2 - pos;
    let mantissa = t.take(m);
    assert(mantissa =~= s.subrange(pos, m2));
    if dotted {
        let d = m1 - pos;
        assert(mantissa[d] == '.');
        assert(mantissa.take(d) =~= s.subrange(pos, m1));
        assert(mantissa.skip(d + 1) =~= s.subrange(m1 + 1, m2));
        assert(is_digits(mantissa.take(d))) by {
            assert forall|i: int| 0 <= i < mantissa.take(d).len() implies is_digit(
                #[trigger] mantissa.take(d)[i],
            ) by {
                assert(in_class(s[pos + i], k[pos + i], CharClass::Digit));
            }
        }
        assert(is_digits(mantissa.skip(d + 1))) by {
            assert forall|i: int| 0 <= i < mantissa.skip(d + 1).len() implies is_digit(
                #[trigger] mantissa.skip(d + 1)[i],
            ) by {
                assert(in_class(s[m1 + 1 + i], k[m1 + 1 + i], CharClass::Digit));
            }
        }
        assert(is_mantissa(mantissa));
    } else {
        assert(is_digits(mantissa)) by {
            assert forall|i: int| 0 <= i < mantissa.len() implies is_digit(
                #[trigger] mantissa[i],
            ) by {
                assert(in_class(s[pos + i], k[pos + i], CharClass::Digit));
            }
        }
        assert(is_mantissa(mantissa));
    }
    if m2 < e {
        let x = t.skip(m);
        assert(x =~= s.subrange(m2, e));
        let signed = m2 + 1 < s.len() && (s[m2 + 1] == '+' || s[m2 + 1] == '-');
        let x1 = if signed { m2 + 2 } else { m2 + 1 };
        lemma_run_end(s, k, x1, CharClass::Digit);
        assert(x[0] == s[m2]);
        if signed {
            assert(x[1] == s[m2 + 1]);
            assert(x.skip(2) =~= s.subrange(x1, e));
            assert(is_digits(x.skip(2))) by {
                assert forall|i: int| 0 <= i < x.skip(2).len() implies is_digit(
                    #[trigger] x.skip(2)[i],
                ) by {
                    assert(in_class(s[x1 + i], k[x1 + i], CharClass::Digit));
                }
            }
        } else {
            assert(x.skip(1) =~= s.subrange(x1, e));
            assert(is_digits(x.skip(1))) by {
                assert forall|i: int| 0 <= i < x.skip(1).len() implies is_digit(
                    #[trigger] x.skip(1)[i],
                ) by {
                    assert(in_class(s[x1 + i], k[x1 + i], CharClass::Digit));
                }
            }
        }
        assert(is_exponent(x));
    }
    assert(is_mantissa(t.take(m)));
}

/// The text of every name that the scanner reads starts with a letter or
/// `_` and holds only letters, digits and `_`.
pub proof fn lemma_name_text(s: Seq<char>, k: Seq<CharKind>, pos: int)
    requires
        0 <= pos < s.len(),
        lexeme_at(s, k, pos).token is Identifier,
    ensures
        ({
            let l = lexeme_at(s, k, pos);
            &&& l.token->Identifier_0 == s.subrange(l.start, l.end)
            &&& l.start < l.end <= s.len()
            &&& is_name_start(s[l.start], k[l.start])
            &&& forall|i: int| l.start <= i < l.end ==> in_class(#[trigger] s[i], k[i], CharClass::Name)
        }),
{
    lemma_run_end(s, k, pos, CharClass::Name);
    assert(in_class(s[pos], k[pos], CharClass::Name));
}

} // verus!
