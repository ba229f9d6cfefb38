//! The scanner: splits source text into tokens.

use vstd::prelude::*;
use vstd::std_specs::iter::IteratorSpec;
use vstd::string::StrSliceExecFns;

verus! {

/// Why no token could be read.
#[derive(Debug, Clone, Copy, PartialEq, Eq, Structural)]
pub enum ScannerError {
    /// The text ends inside a string literal.
    UnterminatedString,
    /// No token starts with this character.
    UnexpectedCharacter(char),
}

/// Where a token starts.
#[derive(Debug, Clone, Copy, PartialEq, Eq, Structural)]
pub struct Location {
    /// The line, counted from 1.
    pub line: usize,
}

/// A token. Those that hold text borrow it from the source: a comment
/// without its slashes and its newline, a string without its quotes, an
/// identifier and a number as they are written.
#[derive(Debug, Clone, Copy, PartialEq, Eq)]
pub enum Token<'a> {
    // single-character tokens
    LeftParen,
    RightParen,
    LeftBrace,
    RightBrace,
    Comma,
    Dot,
    Minus,
    Plus,
    Semicolon,
    Star,
    // one or two character tokens
    Bang,
    BangEqual,
    Equal,
    EqualEqual,
    Greater,
    GreaterEqual,
    Less,
    LessEqual,
    Slash,
    // tokens that hold text
    Comment(&'a str),
    Identifier(&'a str),
    String(&'a str),
    Number(&'a str),
    // keywords
    And,
    Class,
    Else,
    False,
    For,
    Fun,
    If,
    Nil,
    Or,
    Print,
    Return,
    Super,
    This,
    True,
    Var,
    While,
}

/// A token, with the text it holds as a sequence of characters.
pub enum TokenView {
    // single-character tokens
    LeftParen,
    RightParen,
    LeftBrace,
    RightBrace,
    Comma,
    Dot,
    Minus,
    Plus,
    Semicolon,
    Star,
    // one or two character tokens
    Bang,
    BangEqual,
    Equal,
    EqualEqual,
    Greater,
    GreaterEqual,
    Less,
    LessEqual,
    Slash,
    // tokens that hold text
    Comment(Seq<char>),
    Identifier(Seq<char>),
    String(Seq<char>),
    Number(Seq<char>),
    // keywords
    And,
    Class,
    Else,
    False,
    For,
    Fun,
    If,
    Nil,
    Or,
    Print,
    Return,
    Super,
    This,
    True,
    Var,
    While,
}

impl<'a> View for Token<'a> {
    type V = TokenView;

    open spec fn view(&self) -> TokenView {
        match *self {
            Token::LeftParen => TokenView::LeftParen,
            Token::RightParen => TokenView::RightParen,
            Token::LeftBrace => TokenView::LeftBrace,
            Token::RightBrace => TokenView::RightBrace,
            Token::Comma => TokenView::Comma,
            Token::Dot => TokenView::Dot,
            Token::Minus => TokenView::Minus,
            Token::Plus => TokenView::Plus,
            Token::Semicolon => TokenView::Semicolon,
            Token::Star => TokenView::Star,
            Token::Bang => TokenView::Bang,
            Token::BangEqual => TokenView::BangEqual,
            Token::Equal => TokenView::Equal,
            Token::EqualEqual => TokenView::EqualEqual,
            Token::Greater => TokenView::Greater,
            Token::GreaterEqual => TokenView::GreaterEqual,
            Token::Less => TokenView::Less,
            Token::LessEqual => TokenView::LessEqual,
            Token::Slash => TokenView::Slash,
            Token::And => TokenView::And,
            Token::Class => TokenView::Class,
            Token::Else => TokenView::Else,
            Token::False => TokenView::False,
            Token::For => TokenView::For,
            Token::Fun => TokenView::Fun,
            Token::If => TokenView::If,
            Token::Nil => TokenView::Nil,
            Token::Or => TokenView::Or,
            Token::Print => TokenView::Print,
            Token::Return => TokenView::Return,
            Token::Super => TokenView::Super,
            Token::This => TokenView::This,
            Token::True => TokenView::True,
            Token::Var => TokenView::Var,
            Token::While => TokenView::While,
            Token::Comment(text) => TokenView::Comment(text@),
            Token::Identifier(text) => TokenView::Identifier(text@),
            Token::String(text) => TokenView::String(text@),
            Token::Number(text) => TokenView::Number(text@),
        }
    }
}

/// The keyword that a word is, if it is one.
pub open spec fn keyword_of(text: Seq<char>) -> Option<TokenView> {
    if text == "and"@ {
        Some(TokenView::And)
    } else if text == "class"@ {
        Some(TokenView::Class)
    } else if text == "else"@ {
        Some(TokenView::Else)
    } else if text == "false"@ {
        Some(TokenView::False)
    } else if text == "for"@ {
        Some(TokenView::For)
    } else if text == "fun"@ {
        Some(TokenView::Fun)
    } else if text == "if"@ {
        Some(TokenView::If)
    } else if text == "nil"@ {
        Some(TokenView::Nil)
    } else if text == "or"@ {
        Some(TokenView::Or)
    } else if text == "print"@ {
        Some(TokenView::Print)
    } else if text == "return"@ {
        Some(TokenView::Return)
    } else if text == "super"@ {
        Some(TokenView::Super)
    } else if text == "this"@ {
        Some(TokenView::This)
    } else if text == "true"@ {
        Some(TokenView::True)
    } else if text == "var"@ {
        Some(TokenView::Var)
    } else if text == "while"@ {
        Some(TokenView::While)
    } else {
        None
    }
}

/// Whether two texts hold the same characters.
fn same_text(a: &str, b: &str) -> (r: bool)
    ensures
        r == (a@ == b@),
{
    let n = a.unicode_len();
    if n != b.unicode_len() {
        return false;
    }
    let mut i: usize = 0;
    while i < n
        invariant
            n == a@.len(),
            n == b@.len(),
            i <= n,
            forall|j: int| 0 <= j < i ==> a@[j] == b@[j],
        decreases n - i,
    {
        if a.get_char(i) != b.get_char(i) {
            return false;
        }
        i += 1;
    }
    proof {
        assert(a@ =~= b@);
    }
    true
}

/// The keyword that a word is, if it is one.
fn keyword(identifier: &str) -> (r: Option<Token<'static>>)
    ensures
        match r {
            Some(token) => keyword_of(identifier@) == Some(token@),
            None => keyword_of(identifier@) is None,
        },
{
    if same_text(identifier, "and") {
        Some(Token::And)
    } else if same_text(identifier, "class") {
        Some(Token::Class)
    } else if same_text(identifier, "else") {
        Some(Token::Else)
    } else if same_text(identifier, "false") {
        Some(Token::False)
    } else if same_text(identifier, "for") {
        Some(Token::For)
    } else if same_text(identifier, "fun") {
        Some(Token::Fun)
    } else if same_text(identifier, "if") {
        Some(Token::If)
    } else if same_text(identifier, "nil") {
        Some(Token::Nil)
    } else if same_text(identifier, "or") {
        Some(Token::Or)
    } else if same_text(identifier, "print") {
        Some(Token::Print)
    } else if same_text(identifier, "return") {
        Some(Token::Return)
    } else if same_text(identifier, "super") {
        Some(Token::Super)
    } else if same_text(identifier, "this") {
        Some(Token::This)
    } else if same_text(identifier, "true") {
        Some(Token::True)
    } else if same_text(identifier, "var") {
        Some(Token::Var)
    } else if same_text(identifier, "while") {
        Some(Token::While)
    } else {
        None
    }
}

/// Whether `char::is_whitespace` holds of the character.
pub uninterp spec fn char_is_whitespace(c: char) -> bool;

/// Whether `char::is_alphabetic` holds of the character.
pub uninterp spec fn char_is_alphabetic(c: char) -> bool;

/// Whether `char::is_alphanumeric` holds of the character.
pub uninterp spec fn char_is_alphanumeric(c: char) -> bool;

/// Calls `char::is_whitespace`, which holds of the characters that Unicode
/// marks `White_Space`. The contract only gives the answer its name.
#[verifier::external_body]
fn is_whitespace(c: char) -> (r: bool)
    ensures
        r == char_is_whitespace(c),
{
    c.is_whitespace()
}

/// Calls `char::is_alphabetic`, which holds of the characters that Unicode
/// marks `Alphabetic`. The contract only gives the answer its name.
#[verifier::external_body]
fn is_alphabetic(c: char) -> (r: bool)
    ensures
        r == char_is_alphabetic(c),
{
    c.is_alphabetic()
}

/// Calls `char::is_alphanumeric`, which holds of the characters of which
/// `char::is_alphabetic` or `char::is_numeric` holds. The contract gives the
/// answer its name, and says that it holds of every alphabetic character.
#[verifier::external_body]
fn is_alphanumeric(c: char) -> (r: bool)
    ensures
        r == char_is_alphanumeric(c),
        char_is_alphabetic(c) ==> r,
{
    c.is_alphanumeric()
}

/// What the scanner asks of a character besides which character it is.
#[derive(Debug, Clone, Copy, PartialEq, Eq, Structural)]
pub struct CharClass {
    /// Whitespace stands between tokens.
    pub whitespace: bool,
    /// An alphabetic character can start a word.
    pub alphabetic: bool,
    /// An alphanumeric character can stand inside a word.
    pub alphanumeric: bool,
}

/// The class that Unicode gives a character.
pub open spec fn class_of(c: char) -> CharClass {
    CharClass {
        whitespace: char_is_whitespace(c),
        alphabetic: char_is_alphabetic(c),
        alphanumeric: char_is_alphanumeric(c),
    }
}

/// The classes that Unicode gives the characters of a text.
pub open spec fn classes_of(src: Seq<char>) -> Seq<CharClass> {
    Seq::new(src.len(), |i: int| class_of(src[i]))
}

/// Classifies a character by Unicode. An alphabetic character is
/// alphanumeric too.
pub fn classify(c: char) -> (class: CharClass)
    ensures
        class == class_of(c),
        class.alphabetic ==> class.alphanumeric,
{
    CharClass {
        whitespace: is_whitespace(c),
        alphabetic: is_alphabetic(c),
        alphanumeric: is_alphanumeric(c),
    }
}

/// The characters of a text.
fn chars_of(source: &str) -> (chars: Vec<char>)
    ensures
        chars@ == source@,
{
    broadcast use vstd::string::group_string_axioms;

    let len = source.unicode_len();
    let mut chars: Vec<char> = Vec::new();
    let mut iter = source.chars();
    let mut i: usize = 0;
    while i < len
        invariant
            len == source@.len(),
            i == chars@.len(),
            chars@ + iter.remaining() == source@,
            iter.obeys_prophetic_iter_laws(),
        decreases len - i,
    {
        match iter.next() {
            Some(c) => {
                proof {
                    assert(chars@.push(c) + iter.remaining() =~= source@);
                }
                chars.push(c);
            },
            None => {},
        }
        i += 1;
    }
    proof {
        assert(chars@ =~= source@);
    }
    chars
}

/// Classifies every character by Unicode.
fn classify_all(chars: &Vec<char>) -> (classes: Vec<CharClass>)
    ensures
        classes@ == classes_of(chars@),
        forall|i: int|
            0 <= i < classes@.len() && (#[trigger] classes@[i]).alphabetic
                ==> classes@[i].alphanumeric,
{
    let mut classes: Vec<CharClass> = Vec::new();
    let mut i: usize = 0;
    while i < chars.len()
        invariant
            i <= chars@.len(),
            classes@.len() == i,
            forall|j: int| 0 <= j < i ==> #[trigger] classes@[j] == class_of(chars@[j]),
            forall|j: int|
                0 <= j < i && (#[trigger] classes@[j]).alphabetic ==> classes@[j].alphanumeric,
        decreases chars@.len() - i,
    {
        classes.push(classify(chars[i]));
        i += 1;
    }
    proof {
        assert(classes@ =~= classes_of(chars@));
    }
    classes
}

/// Classifies every character of a text by Unicode.
pub fn classify_text(source: &str) -> (classes: Vec<CharClass>)
    ensures
        classes@ == classes_of(source@),
        forall|i: int|
            0 <= i < classes@.len() && (#[trigger] classes@[i]).alphabetic
                ==> classes@[i].alphanumeric,
{
    let chars = chars_of(source);
    classify_all(&chars)
}

/// Whether the character is one of the ten ASCII digits.
pub open spec fn is_digit(c: char) -> bool {
    '0' <= c && c <= '9'
}

/// Whether the character can stand inside a word: an identifier or a
/// keyword.
pub open spec fn is_word_char(c: char, class: CharClass) -> bool {
    class.alphanumeric || c == '_'
}

/// The end of the whitespace that starts at `pos`.
pub open spec fn blank_end(cls: Seq<CharClass>, pos: int) -> int
    decreases cls.len() - pos,
{
    if 0 <= pos < cls.len() && cls[pos].whitespace {
        blank_end(cls, pos + 1)
    } else {
        pos
    }
}

/// The end of the digits that start at `pos`.
pub open spec fn digits_end(src: Seq<char>, pos: int) -> int
    decreases src.len() - pos,
{
    if 0 <= pos < src.len() && is_digit(src[pos]) {
        digits_end(src, pos + 1)
    } else {
        pos
    }
}

/// The end of the word characters that start at `pos`.
pub open spec fn word_end(src: Seq<char>, cls: Seq<CharClass>, pos: int) -> int
    decreases src.len() - pos,
{
    if 0 <= pos < src.len() && is_word_char(src[pos], cls[pos]) {
        word_end(src, cls, pos + 1)
    } else {
        pos
    }
}

/// The first position from `pos` on that holds `stop`, or the end of the
/// text where none does.
pub open spec fn find(src: Seq<char>, pos: int, stop: char) -> int
    decreases src.len() - pos,
{
    if 0 <= pos < src.len() && src[pos] != stop {
        find(src, pos + 1, stop)
    } else {
        pos
    }
}

/// The number of newlines in `src` from `from` up to `to`.
pub open spec fn newlines(src: Seq<char>, from: int, to: int) -> int
    decreases to - from,
{
    if to <= from {
        0
    } else {
        newlines(src, from, to - 1) + if src[to - 1] == '\n' {
            1int
        } else {
            0int
        }
    }
}

/// The end of a number whose first digit stands before `pos`: the digits
/// from `pos`, and, where a dot and a digit follow them, these and the
/// digits after them.
pub open spec fn number_end(src: Seq<char>, pos: int) -> int {
    let end = digits_end(src, pos);
    if end + 1 < src.len() && src[end] == '.' && is_digit(src[end + 1]) {
        digits_end(src, end + 2)
    } else {
        end
    }
}

/// What is read at one position: the token or the error, where the cursor
/// stands afterwards, and how many newlines were passed.
pub struct Lexed {
    pub result: Result<TokenView, ScannerError>,
    pub end: int,
    pub newlines: int,
}

/// A token of `width` characters at `start`.
pub open spec fn plain(token: TokenView, start: int, width: int) -> Lexed {
    Lexed { result: Ok(token), end: start + width, newlines: 0 }
}

/// The string literal whose opening quote stands at `start`: it runs to the
/// next quote, and is an error where there is none.
pub open spec fn string_at(src: Seq<char>, start: int) -> Lexed {
    let close = find(src, start + 1, '"');
    if close < src.len() {
        Lexed {
            result: Ok(TokenView::String(src.subrange(start + 1, close))),
            end: close + 1,
            newlines: newlines(src, start + 1, close),
        }
    } else {
        Lexed {
            result: Err(ScannerError::UnterminatedString),
            end: close,
            newlines: newlines(src, start + 1, close),
        }
    }
}

/// The word that starts at `start`: a keyword, or else an identifier.
pub open spec fn word_at(src: Seq<char>, cls: Seq<CharClass>, start: int) -> Lexed {
    let end = word_end(src, cls, start + 1);
    let text = src.subrange(start, end);
    Lexed {
        result: Ok(
            match keyword_of(text) {
                Some(token) => token,
                None => TokenView::Identifier(text),
            },
        ),
        end,
        newlines: 0,
    }
}

/// The comment whose two slashes start at `start`: the rest of the line.
/// The newline is passed, and is no part of the comment.
pub open spec fn comment_at(src: Seq<char>, start: int) -> Lexed {
    let end = find(src, start + 2, '\n');
    Lexed {
        result: Ok(TokenView::Comment(src.subrange(start + 2, end))),
        end: if end < src.len() {
            end + 1
        } else {
            end
        },
        newlines: if end < src.len() {
            1
        } else {
            0
        },
    }
}

/// What is read at `start`, where `0 <= start < src.len()` and the
/// character there is no whitespace. The longest token wins. An unexpected
/// character is not passed: the cursor stays on it.
pub open spec fn token_at(src: Seq<char>, cls: Seq<CharClass>, start: int) -> Lexed {
    let c1 = src[start];
    let c2 = if start + 1 < src.len() {
        Some(src[start + 1])
    } else {
        None
    };
    if c1 == '(' {
        plain(TokenView::LeftParen, start, 1)
    } else if c1 == ')' {
        plain(TokenView::RightParen, start, 1)
    } else if c1 == '{' {
        plain(TokenView::LeftBrace, start, 1)
    } else if c1 == '}' {
        plain(TokenView::RightBrace, start, 1)
    } else if c1 == ',' {
        plain(TokenView::Comma, start, 1)
    } else if c1 == '-' {
        plain(TokenView::Minus, start, 1)
    } else if c1 == '+' {
        plain(TokenView::Plus, start, 1)
    } else if c1 == ';' {
        plain(TokenView::Semicolon, start, 1)
    } else if c1 == '*' {
        plain(TokenView::Star, start, 1)
    } else if c1 == '"' {
        string_at(src, start)
    } else if is_digit(c1) {
        let end = number_end(src, start + 1);
        plain(TokenView::Number(src.subrange(start, end)), start, end - start)
    } else if cls[start].alphabetic || c1 == '_' {
        word_at(src, cls, start)
    } else if c1 == '!' && c2 == Some('=') {
        plain(TokenView::BangEqual, start, 2)
    } else if c1 == '=' && c2 == Some('=') {
        plain(TokenView::EqualEqual, start, 2)
    } else if c1 == '<' && c2 == Some('=') {
        plain(TokenView::LessEqual, start, 2)
    } else if c1 == '>' && c2 == Some('=') {
        plain(TokenView::GreaterEqual, start, 2)
    } else if c1 == '.' && c2 is Some && is_digit(c2->0) {
        let end = digits_end(src, start + 2);
        plain(TokenView::Number(src.subrange(start, end)), start, end - start)
    } else if c1 == '/' && c2 == Some('/') {
        comment_at(src, start)
    } else if c1 == '.' {
        plain(TokenView::Dot, start, 1)
    } else if c1 == '!' {
        plain(TokenView::Bang, start, 1)
    } else if c1 == '=' {
        plain(TokenView::Equal, start, 1)
    } else if c1 == '<' {
        plain(TokenView::Less, start, 1)
    } else if c1 == '>' {
        plain(TokenView::Greater, start, 1)
    } else if c1 == '/' {
        plain(TokenView::Slash, start, 1)
    } else {
        Lexed { result: Err(ScannerError::UnexpectedCharacter(c1)), end: start, newlines: 0 }
    }
}

/// What one call of the scanner does.
pub struct Scanned {
    /// The line that the token starts on with the token or the error, or
    /// `None` at the end of the text.
    pub item: Option<(int, Result<TokenView, ScannerError>)>,
    /// The cursor afterwards.
    pub pos: int,
    /// The line afterwards.
    pub line: int,
}

/// One call of the scanner with the cursor at `pos` on line `line`, on a
/// text `src` whose characters have the classes `cls`: whitespace is passed,
/// then one token is read.
pub open spec fn scan(src: Seq<char>, cls: Seq<CharClass>, pos: int, line: int) -> Scanned {
    let start = blank_end(cls, pos);
    let line_at = line + newlines(src, pos, start);
    if start >= src.len() {
        Scanned { item: None, pos: start, line: line_at }
    } else {
        let lexed = token_at(src, cls, start);
        Scanned {
            item: Some((line_at, lexed.result)),
            pos: lexed.end,
            line: line_at + lexed.newlines,
        }
    }
}

/// What a call of the scanner returned, with the text of a token as a
/// sequence of characters.
pub open spec fn item_view(item: Option<(Location, Result<Token<'_>, ScannerError>)>) -> Option<
    (int, Result<TokenView, ScannerError>),
> {
    match item {
        None => None,
        Some((location, Ok(token))) => Some((location.line as int, Ok(token@))),
        Some((location, Err(e))) => Some((location.line as int, Err(e))),
    }
}

/// Whether what was read is `lexed`, on a cursor that stood on line `line`:
/// the token or the error, the cursor afterwards, and the line afterwards.
pub open spec fn reads(
    read: (Result<Token<'_>, ScannerError>, usize, usize),
    lexed: Lexed,
    line: usize,
) -> bool {
    &&& match read.0 {
        Ok(token) => lexed.result == Ok::<TokenView, ScannerError>(token@),
        Err(e) => lexed.result == Err::<TokenView, ScannerError>(e),
    }
    &&& read.1 == lexed.end
    &&& read.2 == line + lexed.newlines
}

/// A cursor over source text that reads one token at a time.
pub struct Scanner<'a> {
    source: &'a str,
    /// The characters of `source`.
    chars: Vec<char>,
    /// The class of each character.
    classes: Vec<CharClass>,
    /// How many characters have been passed.
    pos: usize,
    /// How many newlines have been passed.
    passed: usize,
}

impl<'a> Scanner<'a> {
    /// The text.
    pub closed spec fn source(&self) -> Seq<char> {
        self.source@
    }

    /// The class of each character of the text.
    pub closed spec fn classes(&self) -> Seq<CharClass> {
        self.classes@
    }

    /// The number of characters passed.
    pub closed spec fn pos(&self) -> int {
        self.pos as int
    }

    /// The line that the cursor is on, counted from 1.
    pub closed spec fn line(&self) -> int {
        self.passed + 1
    }

    /// The cursor is inside the text, and a line was counted only where a
    /// character was passed.
    pub closed spec fn wf(&self) -> bool {
        &&& self.chars@ == self.source@
        &&& self.chars@.len() <= usize::MAX
        &&& self.classes@.len() == self.chars@.len()
        &&& self.pos <= self.chars@.len()
        &&& self.passed <= self.pos
    }

    /// A scanner at the start of the text, on line 1, that classifies the
    /// characters by Unicode.
    pub fn new(source: &'a str) -> (scanner: Scanner<'a>)
        ensures
            scanner.wf(),
            scanner.source() == source@,
            scanner.classes() == classes_of(source@),
            forall|i: int|
                0 <= i < scanner.classes().len() && (#[trigger] scanner.classes()[i]).alphabetic
                    ==> scanner.classes()[i].alphanumeric,
            scanner.pos() == 0,
            scanner.line() == 1,
    {
        let chars = chars_of(source);
        let classes = classify_all(&chars);
        proof {
            assert(chars@.len() == chars.len());
        }
        Scanner { source, chars, classes, pos: 0, passed: 0 }
    }

    /// A scanner at the start of the text, on line 1, that takes the class
    /// of each character as it is given: one class for each character, or
    /// there is no scanner.
    pub fn with_classes(source: &'a str, classes: Vec<CharClass>) -> (scanner: Option<
        Scanner<'a>,
    >)
        ensures
            scanner is Some <==> classes@.len() == source@.len(),
            scanner matches Some(s) ==> {
                &&& s.wf()
                &&& s.source() == source@
                &&& s.classes() == classes@
                &&& s.pos() == 0
                &&& s.line() == 1
            },
    {
        let chars = chars_of(source);
        if classes.len() == chars.len() {
            Some(Scanner { source, chars, classes, pos: 0, passed: 0 })
        } else {
            None
        }
    }

    /// The character at `i`.
    fn at(&self, i: usize) -> (c: char)
        requires
            self.wf(),
            i < self.source().len(),
        ensures
            c == self.source()[i as int],
    {
        self.chars[i]
    }

    /// The class of the character at `i`.
    fn class_at(&self, i: usize) -> (class: CharClass)
        requires
            self.wf(),
            i < self.source().len(),
        ensures
            class == self.classes()[i as int],
    {
        self.classes[i]
    }

    /// The text from `from` up to `to`.
    fn text(&self, from: usize, to: usize) -> (text: &'a str)
        requires
            self.wf(),
            from <= to <= self.source().len(),
        ensures
            text@ == self.source().subrange(from as int, to as int),
    {
        self.source.substring_char(from, to)
    }

    /// The end of the digits that start at `from`.
    fn digits_end(&self, from: usize) -> (end: usize)
        requires
            self.wf(),
            from <= self.source().len(),
        ensures
            end == digits_end(self.source(), from as int),
            from <= end <= self.source().len(),
    {
        let mut i: usize = from;
        while i < self.chars.len()
            invariant
                self.wf(),
                from <= i <= self.chars.len(),
                digits_end(self.source(), i as int) == digits_end(self.source(), from as int),
            ensures
                digits_end(self.source(), i as int) == i,
            decreases self.chars.len() - i,
        {
            let c = self.at(i);
            if !('0' <= c && c <= '9') {
                break;
            }
            i += 1;
        }
        i
    }

    /// The end of the word characters that start at `from`.
    fn word_end(&self, from: usize) -> (end: usize)
        requires
            self.wf(),
            from <= self.source().len(),
        ensures
            end == word_end(self.source(), self.classes(), from as int),
            from <= end <= self.source().len(),
    {
        let mut i: usize = from;
        while i < self.chars.len()
            invariant
                self.wf(),
                from <= i <= self.chars.len(),
                word_end(self.source(), self.classes(), i as int) == word_end(
                    self.source(),
                    self.classes(),
                    from as int,
                ),
            ensures
                word_end(self.source(), self.classes(), i as int) == i,
            decreases self.chars.len() - i,
        {
            let c = self.at(i);
            if !(self.class_at(i).alphanumeric || c == '_') {
                break;
            }
            i += 1;
        }
        i
    }

    /// The first position from `from` on that holds `stop`, and `line`
    /// plus the number of newlines before that position.
    fn find(&self, from: usize, stop: char, line: usize) -> (r: (usize, usize))
        requires
            self.wf(),
            from <= self.source().len(),
            line <= from,
        ensures
            r.0 == find(self.source(), from as int, stop),
            from <= r.0 <= self.source().len(),
            r.1 == line + newlines(self.source(), from as int, r.0 as int),
            line <= r.1 <= r.0,
    {
        let mut i: usize = from;
        let mut passed: usize = line;
        while i < self.chars.len()
            invariant
                self.wf(),
                from <= i <= self.chars.len(),
                find(self.source(), i as int, stop) == find(self.source(), from as int, stop),
                passed == line + newlines(self.source(), from as int, i as int),
                line <= passed <= i,
            ensures
                find(self.source(), i as int, stop) == i,
            decreases self.chars.len() - i,
        {
            let c = self.at(i);
            if c == stop {
                break;
            }
            i += 1;
            if c == '\n' {
                passed += 1;
            }
        }
        (i, passed)
    }

    /// Passes the whitespace at the cursor, and counts its newlines.
    fn skip_blanks(&mut self)
        requires
            old(self).wf(),
        ensures
            final(self).wf(),
            final(self).source == old(self).source,
            final(self).classes() == old(self).classes(),
            final(self).pos() == blank_end(old(self).classes(), old(self).pos()),
            final(self).line() == old(self).line() + newlines(
                old(self).source(),
                old(self).pos(),
                final(self).pos(),
            ),
            old(self).pos() <= final(self).pos(),
            old(self).line() <= final(self).line(),
    {
        let ghost from = self.pos;
        let ghost passed = self.passed;
        while self.pos < self.chars.len()
            invariant
                self.wf(),
                self.source == old(self).source,
                self.classes@ == old(self).classes@,
                from == old(self).pos,
                passed == old(self).passed,
                from <= self.pos,
                blank_end(self.classes(), self.pos as int) == blank_end(
                    self.classes(),
                    from as int,
                ),
                self.passed == passed + newlines(self.source(), from as int, self.pos as int),
                passed <= self.passed,
            ensures
                blank_end(self.classes(), self.pos as int) == self.pos,
            decreases self.chars.len() - self.pos,
        {
            let c = self.at(self.pos);
            if !self.class_at(self.pos).whitespace {
                break;
            }
            self.pos += 1;
            if c == '\n' {
                self.passed += 1;
            }
        }
    }

    /// Reads the string literal whose opening quote stands at `start`.
    fn lex_string(&self, start: usize, line: usize) -> (r: (
        Result<Token<'a>, ScannerError>,
        usize,
        usize,
    ))
        requires
            self.wf(),
            start < self.source().len(),
            line <= start,
        ensures
            reads(r, string_at(self.source(), start as int), line),
            start <= r.1 <= self.source().len(),
            r.0 is Ok ==> start < r.1,
            line <= r.2 <= r.1,
    {
        let (close, passed) = self.find(start + 1, '"', line);
        if close < self.chars.len() {
            (Ok(Token::String(self.text(start + 1, close))), close + 1, passed)
        } else {
            (Err(ScannerError::UnterminatedString), close, passed)
        }
    }

    /// Reads the number whose first digit stands at `start`.
    fn lex_number(&self, start: usize) -> (r: (&'a str, usize))
        requires
            self.wf(),
            start < self.source().len(),
        ensures
            r.1 == number_end(self.source(), start + 1),
            start < r.1 <= self.source().len(),
            r.0@ == self.source().subrange(start as int, r.1 as int),
    {
        let mut end = self.digits_end(start + 1);
        if end < self.chars.len() && end + 1 < self.chars.len() && self.at(end) == '.' {
            let c = self.at(end + 1);
            if '0' <= c && c <= '9' {
                end = self.digits_end(end + 2);
            }
        }
        (self.text(start, end), end)
    }

    /// Reads the word that starts at `start`.
    fn lex_word(&self, start: usize, line: usize) -> (r: (
        Result<Token<'a>, ScannerError>,
        usize,
        usize,
    ))
        requires
            self.wf(),
            start < self.source().len(),
        ensures
            reads(r, word_at(self.source(), self.classes(), start as int), line),
            start < r.1 <= self.source().len(),
            r.2 == line,
    {
        let end = self.word_end(start + 1);
        let identifier = self.text(start, end);
        match keyword(identifier) {
            Some(token) => (Ok(token), end, line),
            None => (Ok(Token::Identifier(identifier)), end, line),
        }
    }

    /// Reads the comment whose two slashes start at `start`.
    fn lex_comment(&self, start: usize, line: usize) -> (r: (
        Result<Token<'a>, ScannerError>,
        usize,
        usize,
    ))
        requires
            self.wf(),
            start + 1 < self.source().len(),
            line <= start,
        ensures
            reads(r, comment_at(self.source(), start as int), line),
            start < r.1 <= self.source().len(),
            line <= r.2 <= r.1,
    {
        let (end, _) = self.find(start + 2, '\n', 0);
        let comment = self.text(start + 2, end);
        if end < self.chars.len() {
            (Ok(Token::Comment(comment)), end + 1, line + 1)
        } else {
            (Ok(Token::Comment(comment)), end, line)
        }
    }

    /// Reads what stands at `start`, where no whitespace stands.
    fn lex(&self, start: usize, line: usize) -> (r: (Result<Token<'a>, ScannerError>, usize, usize))
        requires
            self.wf(),
            start < self.source().len(),
            line <= start,
        ensures
            reads(r, token_at(self.source(), self.classes(), start as int), line),
            start <= r.1 <= self.source().len(),
            r.0 is Ok ==> start < r.1,
            line <= r.2 <= r.1,
    {
        let c1 = self.at(start);
        let c2 = if start + 1 < self.chars.len() {
            Some(self.at(start + 1))
        } else {
            None
        };
        if c1 == '(' {
            (Ok(Token::LeftParen), start + 1, line)
        } else if c1 == ')' {
            (Ok(Token::RightParen), start + 1, line)
        } else if c1 == '{' {
            (Ok(Token::LeftBrace), start + 1, line)
        } else if c1 == '}' {
            (Ok(Token::RightBrace), start + 1, line)
        } else if c1 == ',' {
            (Ok(Token::Comma), start + 1, line)
        } else if c1 == '-' {
            (Ok(Token::Minus), start + 1, line)
        } else if c1 == '+' {
            (Ok(Token::Plus), start + 1, line)
        } else if c1 == ';' {
            (Ok(Token::Semicolon), start + 1, line)
        } else if c1 == '*' {
            (Ok(Token::Star), start + 1, line)
        } else if c1 == '"' {
            self.lex_string(start, line)
        } else if '0' <= c1 && c1 <= '9' {
            let (number, end) = self.lex_number(start);
            (Ok(Token::Number(number)), end, line)
        } else if self.class_at(start).alphabetic || c1 == '_' {
            self.lex_word(start, line)
        } else if c1 == '!' && followed_by(c2, '=') {
            (Ok(Token::BangEqual), start + 2, line)
        } else if c1 == '=' && followed_by(c2, '=') {
            (Ok(Token::EqualEqual), start + 2, line)
        } else if c1 == '<' && followed_by(c2, '=') {
            (Ok(Token::LessEqual), start + 2, line)
        } else if c1 == '>' && followed_by(c2, '=') {
            (Ok(Token::GreaterEqual), start + 2, line)
        } else if c1 == '.' && is_digit_after(c2) {
            let end = self.digits_end(start + 2);
            (Ok(Token::Number(self.text(start, end))), end, line)
        } else if c1 == '/' && followed_by(c2, '/') {
            self.lex_comment(start, line)
        } else if c1 == '.' {
            (Ok(Token::Dot), start + 1, line)
        } else if c1 == '!' {
            (Ok(Token::Bang), start + 1, line)
        } else if c1 == '=' {
            (Ok(Token::Equal), start + 1, line)
        } else if c1 == '<' {
            (Ok(Token::Less), start + 1, line)
        } else if c1 == '>' {
            (Ok(Token::Greater), start + 1, line)
        } else if c1 == '/' {
            (Ok(Token::Slash), start + 1, line)
        } else {
            (Err(ScannerError::UnexpectedCharacter(c1)), start, line)
        }
    }

    /// Passes the whitespace at the cursor and reads one token.
    ///
    /// Returns the token, or the error, with the place where it starts, and
    /// `None` at the end of the text. The cursor never moves back, and it
    /// moves on with every token. After an unexpected character it stays on
    /// that character, so every later call reports it again.
    pub fn next(&mut self) -> (r: Option<(Location, Result<Token<'a>, ScannerError>)>)
        requires
            old(self).wf(),
        ensures
            final(self).wf(),
            final(self).source() == old(self).source(),
            final(self).classes() == old(self).classes(),
            item_view(r) == scan(
                old(self).source(),
                old(self).classes(),
                old(self).pos(),
                old(self).line(),
            ).item,
            final(self).pos() == scan(
                old(self).source(),
                old(self).classes(),
                old(self).pos(),
                old(self).line(),
            ).pos,
            final(self).line() == scan(
                old(self).source(),
                old(self).classes(),
                old(self).pos(),
                old(self).line(),
            ).line,
            old(self).pos() <= final(self).pos() <= old(self).source().len(),
            old(self).line() <= final(self).line(),
            r matches Some((_, Ok(_))) ==> old(self).pos() < final(self).pos(),
    {
        self.skip_blanks();
        if self.pos >= self.chars.len() {
            return None;
        }
        let location = Location { line: self.passed + 1 };
        let (parsed, end, passed) = self.lex(self.pos, self.passed);
        self.pos = end;
        self.passed = passed;
        Some((location, parsed))
    }
}

/// Whether `c` is the character that follows.
fn followed_by(next: Option<char>, c: char) -> (r: bool)
    ensures
        r == (next == Some(c)),
{
    match next {
        Some(found) => found == c,
        None => false,
    }
}

/// Whether a digit follows.
fn is_digit_after(next: Option<char>) -> (r: bool)
    ensures
        r == (next is Some && is_digit(next->0)),
{
    match next {
        Some(found) => '0' <= found && found <= '9',
        None => false,
    }
}

} // verus!
