//! The scanner: source text to a sequence of located tokens.
//!
//! The scanner makes one left-to-right pass. `lex` below states, as a
//! recursive function over the characters, what that pass yields: the
//! tokens with their lines, the lexical errors with their lines, and the
//! line reached at the end of the text.

use vstd::prelude::*;
use crate::number::{natural_form, natural_form_of};
use crate::text::{chars_of, push_char};

verus! {

/// Punctuation and operator tokens.
#[derive(Clone, Copy, Debug, PartialEq, Eq, Structural)]
pub enum Symbol {
    LeftParen,
    RightParen,
    LeftBrace,
    RightBrace,
    Comma,
    Dot,
    Minus,
    Plus,
    SemiColon,
    Slash,
    Star,
    Question,
    Colon,
    Bang,
    BangEqual,
    Equal,
    EqualEqual,
    Greater,
    GreaterEqual,
    Less,
    LessEqual,
}

impl Symbol {
    pub open spec fn text_spec(self) -> Seq<char> {
        match self {
            Symbol::LeftParen => "("@,
            Symbol::RightParen => ")"@,
            Symbol::LeftBrace => "{"@,
            Symbol::RightBrace => "}"@,
            Symbol::Comma => ","@,
            Symbol::Dot => "."@,
            Symbol::Minus => "-"@,
            Symbol::Plus => "+"@,
            Symbol::SemiColon => ";"@,
            Symbol::Slash => "/"@,
            Symbol::Star => "*"@,
            Symbol::Question => "?"@,
            Symbol::Colon => ":"@,
            Symbol::Bang => "!"@,
            Symbol::BangEqual => "!="@,
            Symbol::Equal => "="@,
            Symbol::EqualEqual => "=="@,
            Symbol::Greater => ">"@,
            Symbol::GreaterEqual => ">="@,
            Symbol::Less => "<"@,
            Symbol::LessEqual => "<="@,
        }
    }

    pub fn text(&self) -> (r: &'static str)
        ensures
            r@ == self.text_spec(),
    {
        match self {
            Symbol::LeftParen => "(",
            Symbol::RightParen => ")",
            Symbol::LeftBrace => "{",
            Symbol::RightBrace => "}",
            Symbol::Comma => ",",
            Symbol::Dot => ".",
            Symbol::Minus => "-",
            Symbol::Plus => "+",
            Symbol::SemiColon => ";",
            Symbol::Slash => "/",
            Symbol::Star => "*",
            Symbol::Question => "?",
            Symbol::Colon => ":",
            Symbol::Bang => "!",
            Symbol::BangEqual => "!=",
            Symbol::Equal => "=",
            Symbol::EqualEqual => "==",
            Symbol::Greater => ">",
            Symbol::GreaterEqual => ">=",
            Symbol::Less => "<",
            Symbol::LessEqual => "<=",
        }
    }

}

/// Reserved words.
#[derive(Clone, Copy, Debug, PartialEq, Eq, Structural)]
pub enum Keyword {
    And,
    Class,
    Else,
    False,
    Fun,
    For,
    If,
    Nil,
    Or,
    Print,
    Return,
    Super,
    This,
    True,
    Var,
    While,
}

impl Keyword {
    pub open spec fn text_spec(self) -> Seq<char> {
        match self {
            Keyword::And => "and"@,
            Keyword::Class => "class"@,
            Keyword::Else => "else"@,
            Keyword::False => "false"@,
            Keyword::Fun => "fun"@,
            Keyword::For => "for"@,
            Keyword::If => "if"@,
            Keyword::Nil => "nil"@,
            Keyword::Or => "or"@,
            Keyword::Print => "print"@,
            Keyword::Return => "return"@,
            Keyword::Super => "super"@,
            Keyword::This => "this"@,
            Keyword::True => "true"@,
            Keyword::Var => "var"@,
            Keyword::While => "while"@,
        }
    }

    pub fn text(&self) -> (r: &'static str)
        ensures
            r@ == self.text_spec(),
    {
        match self {
            Keyword::And => "and",
            Keyword::Class => "class",
            Keyword::Else => "else",
            Keyword::False => "false",
            Keyword::Fun => "fun",
            Keyword::For => "for",
            Keyword::If => "if",
            Keyword::Nil => "nil",
            Keyword::Or => "or",
            Keyword::Print => "print",
            Keyword::Return => "return",
            Keyword::Super => "super",
            Keyword::This => "this",
            Keyword::True => "true",
            Keyword::Var => "var",
            Keyword::While => "while",
        }
    }

}

/// The reserved word spelled by `word`, if any.
pub open spec fn keyword_of(word: Seq<char>) -> Option<Keyword> {
    if word == "and"@ {
        Some(Keyword::And)
    } else if word == "class"@ {
        Some(Keyword::Class)
    } else if word == "else"@ {
        Some(Keyword::Else)
    } else if word == "false"@ {
        Some(Keyword::False)
    } else if word == "fun"@ {
        Some(Keyword::Fun)
    } else if word == "for"@ {
        Some(Keyword::For)
    } else if word == "if"@ {
        Some(Keyword::If)
    } else if word == "nil"@ {
        Some(Keyword::Nil)
    } else if word == "or"@ {
        Some(Keyword::Or)
    } else if word == "print"@ {
        Some(Keyword::Print)
    } else if word == "return"@ {
        Some(Keyword::Return)
    } else if word == "super"@ {
        Some(Keyword::Super)
    } else if word == "this"@ {
        Some(Keyword::This)
    } else if word == "true"@ {
        Some(Keyword::True)
    } else if word == "var"@ {
        Some(Keyword::Var)
    } else if word == "while"@ {
        Some(Keyword::While)
    } else {
        None
    }
}


/// One lexical unit. A number literal carries the digits it was written
/// with; its binary64 value is decoded where the value is needed.
#[derive(Debug)]
pub enum Token {
    Symbol(Symbol),
    Keyword(Keyword),
    Identifier(String),
    String(String),
    Number(String),
    Eof,
}

/// What a token denotes, with its text as a sequence of characters.
pub enum TokenView {
    Symbol(Symbol),
    Keyword(Keyword),
    Identifier(Seq<char>),
    Str(Seq<char>),
    Number(Seq<char>),
    Eof,
}

impl View for Token {
    type V = TokenView;

    open spec fn view(&self) -> TokenView {
        match self {
            Token::Symbol(s) => TokenView::Symbol(*s),
            Token::Keyword(k) => TokenView::Keyword(*k),
            Token::Identifier(t) => TokenView::Identifier(t@),
            Token::String(t) => TokenView::Str(t@),
            Token::Number(t) => TokenView::Number(t@),
            Token::Eof => TokenView::Eof,
        }
    }
}

impl Clone for Token {
    fn clone(&self) -> (r: Token)
        ensures
            r == *self,
    {
        match self {
            Token::Symbol(s) => Token::Symbol(*s),
            Token::Keyword(k) => Token::Keyword(*k),
            Token::Identifier(t) => Token::Identifier(t.clone()),
            Token::String(t) => Token::String(t.clone()),
            Token::Number(t) => Token::Number(t.clone()),
            Token::Eof => Token::Eof,
        }
    }
}

impl PartialEq for Token {
    fn eq(&self, other: &Token) -> (r: bool)
        ensures
            r == (self@ == other@),
    {
        match (self, other) {
            (Token::Symbol(a), Token::Symbol(b)) => *a == *b,
            (Token::Keyword(a), Token::Keyword(b)) => *a == *b,
            (Token::Identifier(a), Token::Identifier(b)) => *a == *b,
            (Token::String(a), Token::String(b)) => *a == *b,
            (Token::Number(a), Token::Number(b)) => *a == *b,
            (Token::Eof, Token::Eof) => true,
            _ => false,
        }
    }
}

impl vstd::std_specs::cmp::PartialEqSpecImpl for Token {
    open spec fn obeys_eq_spec() -> bool {
        true
    }

    open spec fn eq_spec(&self, other: &Token) -> bool {
        self@ == other@
    }
}

/// The text that stands for a token.
pub open spec fn lexeme(t: TokenView) -> Seq<char> {
    match t {
        TokenView::Symbol(s) => s.text_spec(),
        TokenView::Keyword(k) => k.text_spec(),
        TokenView::Identifier(w) => w,
        TokenView::Str(w) => w,
        TokenView::Number(w) => natural_form(w),
        TokenView::Eof => "EOF"@,
    }
}

impl Token {
    pub fn get_lexeme(&self) -> (r: String)
        ensures
            r@ == lexeme(self@),
    {
        match self {
            Token::Symbol(s) => String::from_str(s.text()),
            Token::Keyword(k) => String::from_str(k.text()),
            Token::Identifier(t) => t.clone(),
            Token::String(t) => t.clone(),
            Token::Number(t) => natural_form_of(t),
            Token::Eof => String::from_str("EOF"),
        }
    }
}

/// A token with the 1-based line on which the scanner emitted it.
#[derive(Debug)]
pub struct CtxToken {
    pub token: Token,
    pub line: usize,
}

impl View for CtxToken {
    type V = (TokenView, int);

    open spec fn view(&self) -> (TokenView, int) {
        (self.token@, self.line as int)
    }
}

impl Clone for CtxToken {
    fn clone(&self) -> (r: CtxToken)
        ensures
            r == *self,
    {
        CtxToken { token: self.token.clone(), line: self.line }
    }
}

impl CtxToken {
    pub fn new(token: Token, line: usize) -> (r: CtxToken)
        ensures
            r.token == token,
            r.line == line,
    {
        CtxToken { token, line }
    }

    pub fn get_token(&self) -> (r: &Token)
        ensures
            *r == self.token,
    {
        &self.token
    }
}

/// The located tokens of a vector, as values.
pub open spec fn tokens_view(ts: Seq<CtxToken>) -> Seq<(TokenView, int)> {
    ts.map_values(|t: CtxToken| t@)
}

#[derive(Clone, Copy, Debug, PartialEq, Eq, Structural)]
pub enum LexErrorKind {
    UnterminatedString,
    UnexpectedCharacter,
}

/// A lexical error and the line on which it was found.
#[derive(Clone, Copy, Debug, PartialEq, Eq, Structural)]
pub struct LexError {
    pub kind: LexErrorKind,
    pub line: usize,
}

pub open spec fn errors_view(es: Seq<LexError>) -> Seq<(LexErrorKind, int)> {
    es.map_values(|e: LexError| (e.kind, e.line as int))
}

pub open spec fn is_digit(c: char) -> bool {
    '0' <= c <= '9'
}

pub open spec fn is_alpha(c: char) -> bool {
    ('a' <= c <= 'z') || ('A' <= c <= 'Z') || c == '_'
}

pub open spec fn is_alnum(c: char) -> bool {
    is_alpha(c) || is_digit(c)
}

/// `s` holds `c` at index `k`.
pub open spec fn char_at(s: Seq<char>, k: int, c: char) -> bool {
    0 <= k < s.len() && s[k] == c
}

/// The single-character tokens that never combine with what follows.
pub open spec fn single_symbol(c: char) -> Option<Symbol> {
    if c == '(' {
        Some(Symbol::LeftParen)
    } else if c == ')' {
        Some(Symbol::RightParen)
    } else if c == '{' {
        Some(Symbol::LeftBrace)
    } else if c == '}' {
        Some(Symbol::RightBrace)
    } else if c == ',' {
        Some(Symbol::Comma)
    } else if c == '.' {
        Some(Symbol::Dot)
    } else if c == '-' {
        Some(Symbol::Minus)
    } else if c == '+' {
        Some(Symbol::Plus)
    } else if c == ';' {
        Some(Symbol::SemiColon)
    } else if c == '*' {
        Some(Symbol::Star)
    } else if c == '?' {
        Some(Symbol::Question)
    } else if c == ':' {
        Some(Symbol::Colon)
    } else {
        None
    }
}

/// For `!`, `=`, `<` and `>`: the token the character makes alone.
pub open spec fn pair_alone(c: char) -> Option<Symbol> {
    if c == '!' {
        Some(Symbol::Bang)
    } else if c == '=' {
        Some(Symbol::Equal)
    } else if c == '<' {
        Some(Symbol::Less)
    } else if c == '>' {
        Some(Symbol::Greater)
    } else {
        None
    }
}

/// For `!`, `=`, `<` and `>`: the token the character makes followed by `=`.
pub open spec fn pair_with_equal(c: char) -> Symbol {
    if c == '!' {
        Symbol::BangEqual
    } else if c == '=' {
        Symbol::EqualEqual
    } else if c == '<' {
        Symbol::LessEqual
    } else {
        Symbol::GreaterEqual
    }
}

/// The index of the first newline at or after `k`, or the length.
pub open spec fn newline_from(s: Seq<char>, k: int) -> int
    decreases s.len() - k,
{
    if k >= s.len() {
        s.len() as int
    } else if s[k] == '\n' {
        k
    } else {
        newline_from(s, k + 1)
    }
}

/// Inside a block comment at nesting `depth`, from index `k` on line `line`:
/// the index just past the comment and the line there. A comment still open
/// at the end of the text ends there.
pub open spec fn block_comment_end(s: Seq<char>, k: int, depth: nat, line: int) -> (int, int)
    decreases s.len() - k,
{
    if k >= s.len() {
        (s.len() as int, line)
    } else if s[k] == '*' && char_at(s, k + 1, '/') {
        if depth <= 1 {
            (k + 2, line)
        } else {
            block_comment_end(s, k + 2, (depth - 1) as nat, line)
        }
    } else if s[k] == '/' && char_at(s, k + 1, '*') {
        block_comment_end(s, k + 2, depth + 1, line)
    } else if s[k] == '\n' {
        block_comment_end(s, k + 1, depth, line + 1)
    } else {
        block_comment_end(s, k + 1, depth, line)
    }
}

/// Inside a string literal, from index `k` on line `line`: the index of the
/// closing quote (the length if there is none) and the line there.
pub open spec fn string_end(s: Seq<char>, k: int, line: int) -> (int, int)
    decreases s.len() - k,
{
    if k >= s.len() {
        (s.len() as int, line)
    } else if s[k] == '"' {
        (k, line)
    } else if s[k] == '\n' {
        string_end(s, k + 1, line + 1)
    } else {
        string_end(s, k + 1, line)
    }
}

/// The end of the run of digits that starts at `k`.
pub open spec fn digits_end(s: Seq<char>, k: int) -> int
    decreases s.len() - k,
{
    if k >= s.len() || !is_digit(s[k]) {
        k
    } else {
        digits_end(s, k + 1)
    }
}

/// The end of the run of letters, digits and underscores that starts at `k`.
pub open spec fn word_end(s: Seq<char>, k: int) -> int
    decreases s.len() - k,
{
    if k >= s.len() || !is_alnum(s[k]) {
        k
    } else {
        word_end(s, k + 1)
    }
}

/// The end of the number literal whose first digit is at `i`: digits, then a
/// `.` and digits only where a digit follows the `.`.
pub open spec fn number_end(s: Seq<char>, i: int) -> int {
    let j = digits_end(s, i + 1);
    if char_at(s, j, '.') && j + 1 < s.len() && is_digit(s[j + 1]) {
        digits_end(s, j + 2)
    } else {
        j
    }
}

/// What one step of the scanner yields.
pub enum Scanned {
    Token(TokenView),
    Nothing,
    Error(LexErrorKind),
}

/// One step of the scanner at index `i` (which is inside `s`) on line `line`:
/// what it yields, the index where the next step starts, and the line there.
pub open spec fn scan_step(s: Seq<char>, i: int, line: int) -> (Scanned, int, int) {
    let c = s[i];
    if single_symbol(c) is Some {
        (Scanned::Token(TokenView::Symbol(single_symbol(c)->0)), i + 1, line)
    } else if pair_alone(c) is Some {
        if char_at(s, i + 1, '=') {
            (Scanned::Token(TokenView::Symbol(pair_with_equal(c))), i + 2, line)
        } else {
            (Scanned::Token(TokenView::Symbol(pair_alone(c)->0)), i + 1, line)
        }
    } else if c == '/' {
        if char_at(s, i + 1, '/') {
            let j = newline_from(s, i + 2);
            if j < s.len() {
                (Scanned::Nothing, j + 1, line + 1)
            } else {
                (Scanned::Nothing, s.len() as int, line)
            }
        } else if char_at(s, i + 1, '*') {
            let (j, l) = block_comment_end(s, i + 2, 1, line);
            (Scanned::Nothing, j, l)
        } else {
            (Scanned::Token(TokenView::Symbol(Symbol::Slash)), i + 1, line)
        }
    } else if c == ' ' || c == '\r' || c == '\t' {
        (Scanned::Nothing, i + 1, line)
    } else if c == '\n' {
        (Scanned::Nothing, i + 1, line + 1)
    } else if c == '"' {
        let (j, l) = string_end(s, i + 1, line);
        if j < s.len() {
            (Scanned::Token(TokenView::Str(s.subrange(i + 1, j))), j + 1, l)
        } else {
            (Scanned::Error(LexErrorKind::UnterminatedString), s.len() as int, l)
        }
    } else if is_digit(c) {
        let j = number_end(s, i);
        (Scanned::Token(TokenView::Number(s.subrange(i, j))), j, line)
    } else if is_alpha(c) {
        let j = word_end(s, i + 1);
        let word = s.subrange(i, j);
        match keyword_of(word) {
            Some(k) => (Scanned::Token(TokenView::Keyword(k)), j, line),
            None => (Scanned::Token(TokenView::Identifier(word)), j, line),
        }
    } else {
        (Scanned::Error(LexErrorKind::UnexpectedCharacter), i + 1, line)
    }
}

/// What the scanner yields from index `i` to the end of the text.
pub struct LexOutput {
    pub tokens: Seq<(TokenView, int)>,
    pub errors: Seq<(LexErrorKind, int)>,
    pub line: int,
}

proof fn lemma_newline_from(s: Seq<char>, k: int)
    requires
        0 <= k <= s.len(),
    ensures
        k <= newline_from(s, k) <= s.len(),
    decreases s.len() - k,
{
    if k < s.len() && s[k] != '\n' {
        lemma_newline_from(s, k + 1);
    }
}

proof fn lemma_block_comment_end(s: Seq<char>, k: int, depth: nat, line: int)
    requires
        0 <= k <= s.len(),
    ensures
        k <= block_comment_end(s, k, depth, line).0 <= s.len(),
        line <= block_comment_end(s, k, depth, line).1,
        block_comment_end(s, k, depth, line).1 - line <= block_comment_end(s, k, depth, line).0 - k,
    decreases s.len() - k,
{
    if k < s.len() {
        if s[k] == '*' && char_at(s, k + 1, '/') {
            if depth > 1 {
                lemma_block_comment_end(s, k + 2, (depth - 1) as nat, line);
            }
        } else if s[k] == '/' && char_at(s, k + 1, '*') {
            lemma_block_comment_end(s, k + 2, depth + 1, line);
        } else if s[k] == '\n' {
            lemma_block_comment_end(s, k + 1, depth, line + 1);
        } else {
            lemma_block_comment_end(s, k + 1, depth, line);
        }
    }
}

proof fn lemma_string_end(s: Seq<char>, k: int, line: int)
    requires
        0 <= k <= s.len(),
    ensures
        k <= string_end(s, k, line).0 <= s.len(),
        line <= string_end(s, k, line).1,
        string_end(s, k, line).1 - line <= string_end(s, k, line).0 - k,
        string_end(s, k, line).0 < s.len() ==> s[string_end(s, k, line).0] == '"',
    decreases s.len() - k,
{
    if k < s.len() && s[k] != '"' {
        if s[k] == '\n' {
            lemma_string_end(s, k + 1, line + 1);
        } else {
            lemma_string_end(s, k + 1, line);
        }
    }
}

proof fn lemma_digits_end(s: Seq<char>, k: int)
    requires
        0 <= k <= s.len(),
    ensures
        k <= digits_end(s, k) <= s.len(),
    decreases s.len() - k,
{
    if k < s.len() && is_digit(s[k]) {
        lemma_digits_end(s, k + 1);
    }
}

proof fn lemma_word_end(s: Seq<char>, k: int)
    requires
        0 <= k <= s.len(),
    ensures
        k <= word_end(s, k) <= s.len(),
    decreases s.len() - k,
{
    if k < s.len() && is_alnum(s[k]) {
        lemma_word_end(s, k + 1);
    }
}

/// A step moves forward, stays inside the text, and counts at most one line
/// per character it passes.
pub proof fn lemma_scan_step(s: Seq<char>, i: int, line: int)
    requires
        0 <= i < s.len(),
    ensures
        i < scan_step(s, i, line).1 <= s.len(),
        line <= scan_step(s, i, line).2,
        scan_step(s, i, line).2 - line <= scan_step(s, i, line).1 - i,
{
    let c = s[i];
    if c == '/' && char_at(s, i + 1, '/') {
        lemma_newline_from(s, i + 2);
    } else if c == '/' && char_at(s, i + 1, '*') {
        lemma_block_comment_end(s, i + 2, 1, line);
    } else if c == '"' {
        lemma_string_end(s, i + 1, line);
    } else if is_digit(c) {
        lemma_digits_end(s, i + 1);
        let j = digits_end(s, i + 1);
        if char_at(s, j, '.') && j + 1 < s.len() && is_digit(s[j + 1]) {
            lemma_digits_end(s, j + 2);
        }
    } else if is_alpha(c) {
        lemma_word_end(s, i + 1);
    }
}

/// What the scanner yields from index `i`, on line `line`, to the end of `s`.
pub open spec fn lex(s: Seq<char>, i: int, line: int) -> LexOutput
    decreases s.len() - i,
{
    if i < 0 || i >= s.len() {
        LexOutput { tokens: seq![], errors: seq![], line }
    } else {
        proof {
            lemma_scan_step(s, i, line);
        }
        let (scanned, j, l) = scan_step(s, i, line);
        let rest = lex(s, j, l);
        match scanned {
            Scanned::Token(t) => LexOutput { tokens: seq![(t, l)] + rest.tokens, ..rest },
            Scanned::Nothing => rest,
            Scanned::Error(e) => LexOutput { errors: seq![(e, l)] + rest.errors, ..rest },
        }
    }
}

/// The result of scanning the whole of `s`: the tokens followed by the
/// end-of-input token on the last line, or every lexical error if there was
/// any.
pub open spec fn scan_result(s: Seq<char>) -> Result<Seq<(TokenView, int)>, Seq<(LexErrorKind, int)>> {
    let out = lex(s, 0, 1);
    if out.errors.len() == 0 {
        Ok(out.tokens.push((TokenView::Eof, out.line)))
    } else {
        Err(out.errors)
    }
}

/// From index `i` on line `line`: no token is the end-of-input token, each
/// token's line lies between `line` and the line reached at the end, and the
/// lines never decrease.
proof fn lemma_lex_lines(s: Seq<char>, i: int, line: int)
    requires
        0 <= i,
    ensures
        line <= lex(s, i, line).line,
        forall|k: int|
            0 <= k < lex(s, i, line).tokens.len() ==> #[trigger] lex(s, i, line).tokens[k].0
                != TokenView::Eof,
        forall|k: int|
            0 <= k < lex(s, i, line).tokens.len() ==> line <= #[trigger] lex(s, i, line).tokens[k].1
                <= lex(s, i, line).line,
        forall|k: int, m: int|
            0 <= k < m < lex(s, i, line).tokens.len() ==> #[trigger] lex(s, i, line).tokens[k].1
                <= #[trigger] lex(s, i, line).tokens[m].1,
    decreases s.len() - i,
{
    if i < s.len() {
        lemma_scan_step(s, i, line);
        let (scanned, j, l) = scan_step(s, i, line);
        lemma_lex_lines(s, j, l);
        let rest = lex(s, j, l);
        let out = lex(s, i, line);
        if let Scanned::Token(t) = scanned {
            assert(t != TokenView::Eof);
            assert forall|k: int| 0 <= k < out.tokens.len() implies #[trigger] out.tokens[k].0
                != TokenView::Eof by {
                if k > 0 {
                    assert(out.tokens[k] == rest.tokens[k - 1]);
                }
            }
            assert forall|k: int| 0 <= k < out.tokens.len() implies line <= #[trigger] out.tokens[k].1
                <= out.line by {
                if k > 0 {
                    assert(out.tokens[k] == rest.tokens[k - 1]);
                }
            }
            assert forall|k: int, m: int|
                0 <= k < m < out.tokens.len() implies #[trigger] out.tokens[k].1
                <= #[trigger] out.tokens[m].1 by {
                assert(out.tokens[m] == rest.tokens[m - 1]);
                if k > 0 {
                    assert(out.tokens[k] == rest.tokens[k - 1]);
                }
            }
        }
    }
}

/// When scanning succeeds, the last token is the end-of-input token and no
/// other is; every line is at least 1, and the lines follow the source order
/// (they never decrease).
pub proof fn lemma_scan_ends_with_eof(s: Seq<char>)
    ensures
        scan_result(s) matches Ok(ts) ==> {
            &&& ts.len() >= 1
            &&& ts.last().0 == TokenView::Eof
            &&& forall|k: int| 0 <= k < ts.len() - 1 ==> #[trigger] ts[k].0 != TokenView::Eof
            &&& forall|k: int| 0 <= k < ts.len() ==> #[trigger] ts[k].1 >= 1
            &&& forall|k: int, m: int| 0 <= k < m < ts.len() ==> #[trigger] ts[k].1 <= #[trigger] ts[m].1
        },
{
    lemma_lex_lines(s, 0, 1);
    let out = lex(s, 0, 1);
    if out.errors.len() == 0 {
        let ts = out.tokens.push((TokenView::Eof, out.line));
        assert forall|k: int| 0 <= k < ts.len() - 1 implies #[trigger] ts[k].0 != TokenView::Eof by {
            assert(ts[k] == out.tokens[k]);
        }
        assert forall|k: int| 0 <= k < ts.len() implies #[trigger] ts[k].1 >= 1 by {
            if k < ts.len() - 1 {
                assert(ts[k] == out.tokens[k]);
            }
        }
        assert forall|k: int, m: int| 0 <= k < m < ts.len() implies #[trigger] ts[k].1
            <= #[trigger] ts[m].1 by {
            assert(ts[k] == out.tokens[k]);
            if m < ts.len() - 1 {
                assert(ts[m] == out.tokens[m]);
            }
        }
    }
}

pub struct Scanner {
    chars: Vec<char>,
    current: usize,
    line: usize,
    errors: Vec<LexError>,
}

impl Scanner {
    /// The text being scanned.
    pub closed spec fn text(&self) -> Seq<char> {
        self.chars@
    }

    /// The index of the next character to scan.
    pub closed spec fn position(&self) -> int {
        self.current as int
    }

    /// The line the scanner is on.
    pub closed spec fn line_number(&self) -> int {
        self.line as int
    }

    /// The lexical errors found so far.
    pub closed spec fn errors_found(&self) -> Seq<(LexErrorKind, int)> {
        errors_view(self.errors@)
    }

    pub closed spec fn wf(&self) -> bool {
        &&& self.current <= self.chars@.len()
        &&& self.chars@.len() + 2 < usize::MAX
        &&& self.line + (self.chars@.len() - self.current) < usize::MAX
    }

    pub fn new(source: String) -> (r: Scanner)
        requires
            source@.len() + 2 < usize::MAX,
        ensures
            r.wf(),
            r.text() == source@,
            r.position() == 0,
            r.line_number() == 1,
            r.errors_found() == Seq::<(LexErrorKind, int)>::empty(),
    {
        let chars = chars_of(source.as_str());
        Scanner { chars, current: 0, line: 1, errors: Vec::new() }
    }

    fn error(&mut self, kind: LexErrorKind)
        ensures
            final(self).chars == old(self).chars,
            final(self).current == old(self).current,
            final(self).line == old(self).line,
            final(self).errors@ == old(self).errors@.push(LexError { kind, line: old(self).line }),
    {
        self.errors.push(LexError { kind, line: self.line });
    }

    fn get_current(&self) -> (r: Option<char>)
        ensures
            r == (if self.current < self.chars@.len() {
                Some(self.chars@[self.current as int])
            } else {
                None::<char>
            }),
    {
        if self.current < self.chars.len() {
            Some(self.chars[self.current])
        } else {
            None
        }
    }

    fn advance(&mut self) -> (r: Option<char>)
        requires
            old(self).wf(),
            old(self).current < old(self).chars@.len(),
        ensures
            final(self).current == old(self).current + 1,
            final(self).chars == old(self).chars,
            final(self).line == old(self).line,
            final(self).errors == old(self).errors,
            r == (if final(self).current < final(self).chars@.len() {
                Some(final(self).chars@[final(self).current as int])
            } else {
                None::<char>
            }),
    {
        self.current = self.current + 1;
        self.get_current()
    }

    fn advance_line(&mut self)
        requires
            old(self).line < usize::MAX,
        ensures
            final(self).line == old(self).line + 1,
            final(self).chars == old(self).chars,
            final(self).current == old(self).current,
            final(self).errors == old(self).errors,
    {
        self.line = self.line + 1;
    }

    fn peek(&self) -> (r: Option<char>)
        requires
            self.wf(),
        ensures
            r == (if self.current + 1 < self.chars@.len() {
                Some(self.chars@[self.current + 1])
            } else {
                None::<char>
            }),
    {
        if self.current + 1 < self.chars.len() {
            Some(self.chars[self.current + 1])
        } else {
            None
        }
    }

    fn matches_next(&self, target: char) -> (r: bool)
        requires
            self.wf(),
        ensures
            r == char_at(self.chars@, self.current + 1, target),
    {
        match self.peek() {
            Some(c) => c == target,
            None => false,
        }
    }

    fn match_if_next(&mut self, second_char: char, if_matches: Symbol, otherwise: Symbol) -> (r: Symbol)
        requires
            old(self).wf(),
            old(self).current < old(self).chars@.len(),
        ensures
            final(self).chars == old(self).chars,
            final(self).line == old(self).line,
            final(self).errors == old(self).errors,
            char_at(old(self).chars@, old(self).current + 1, second_char) ==> final(self).current
                == old(self).current + 1 && r == if_matches,
            !char_at(old(self).chars@, old(self).current + 1, second_char) ==> final(self).current
                == old(self).current && r == otherwise,
    {
        if self.matches_next(second_char) {
            let _ = self.advance();
            if_matches
        } else {
            otherwise
        }
    }

    /// The characters from `from` to `to` as a string.
    fn substring(&self, from: usize, to: usize) -> (r: String)
        requires
            from <= to <= self.chars@.len(),
        ensures
            r@ == self.chars@.subrange(from as int, to as int),
    {
        let mut out = String::new();
        let mut k = from;
        while k < to
            invariant
                from <= k <= to <= self.chars@.len(),
                out@ == self.chars@.subrange(from as int, k as int),
            decreases to - k,
        {
            push_char(&mut out, self.chars[k]);
            k = k + 1;
            assert(out@ =~= self.chars@.subrange(from as int, k as int));
        }
        out
    }

    /// Whether the characters from `start` to `end` spell `word`.
    fn word_is(&self, start: usize, end: usize, word: &str) -> (r: bool)
        requires
            start <= end <= self.chars@.len(),
        ensures
            r == (self.chars@.subrange(start as int, end as int) == word@),
    {
        let n = word.unicode_len();
        if end - start != n {
            return false;
        }
        let mut i: usize = 0;
        while i < n
            invariant
                start <= end <= self.chars@.len(),
                end - start == n,
                n == word@.len(),
                i <= n,
                self.chars@.subrange(start as int, (start + i) as int) == word@.subrange(0, i as int),
            decreases n - i,
        {
            if self.chars[start + i] != word.get_char(i) {
                assert(self.chars@.subrange(start as int, end as int)[i as int] != word@[i as int]);
                return false;
            }
            i = i + 1;
            assert(self.chars@.subrange(start as int, (start + i) as int) =~= word@.subrange(
                0,
                i as int,
            ));
        }
        assert(word@.subrange(0, n as int) =~= word@);
        true
    }

    /// The reserved word spelled by the characters from `start` to `end`.
    fn lookup_keyword(&self, start: usize, end: usize) -> (r: Option<Keyword>)
        requires
            start <= end <= self.chars@.len(),
        ensures
            r == keyword_of(self.chars@.subrange(start as int, end as int)),
    {
        if self.word_is(start, end, "and") {
            Some(Keyword::And)
        } else if self.word_is(start, end, "class") {
            Some(Keyword::Class)
        } else if self.word_is(start, end, "else") {
            Some(Keyword::Else)
        } else if self.word_is(start, end, "false") {
            Some(Keyword::False)
        } else if self.word_is(start, end, "fun") {
            Some(Keyword::Fun)
        } else if self.word_is(start, end, "for") {
            Some(Keyword::For)
        } else if self.word_is(start, end, "if") {
            Some(Keyword::If)
        } else if self.word_is(start, end, "nil") {
            Some(Keyword::Nil)
        } else if self.word_is(start, end, "or") {
            Some(Keyword::Or)
        } else if self.word_is(start, end, "print") {
            Some(Keyword::Print)
        } else if self.word_is(start, end, "return") {
            Some(Keyword::Return)
        } else if self.word_is(start, end, "super") {
            Some(Keyword::Super)
        } else if self.word_is(start, end, "this") {
            Some(Keyword::This)
        } else if self.word_is(start, end, "true") {
            Some(Keyword::True)
        } else if self.word_is(start, end, "var") {
            Some(Keyword::Var)
        } else if self.word_is(start, end, "while") {
            Some(Keyword::While)
        } else {
            None
        }
    }

    fn digits_end(&self, from: usize) -> (r: usize)
        requires
            from <= self.chars@.len(),
        ensures
            r == digits_end(self.chars@, from as int),
    {
        let mut k = from;
        while k < self.chars.len() && is_digit_exec(self.chars[k])
            invariant
                from <= k <= self.chars@.len(),
                digits_end(self.chars@, from as int) == digits_end(self.chars@, k as int),
            decreases self.chars@.len() - k,
        {
            k = k + 1;
        }
        k
    }

    fn word_end(&self, from: usize) -> (r: usize)
        requires
            from <= self.chars@.len(),
        ensures
            r == word_end(self.chars@, from as int),
    {
        let mut k = from;
        while k < self.chars.len() && is_alnum_exec(self.chars[k])
            invariant
                from <= k <= self.chars@.len(),
                word_end(self.chars@, from as int) == word_end(self.chars@, k as int),
            decreases self.chars@.len() - k,
        {
            k = k + 1;
        }
        k
    }

    /// Skips a line comment whose `//` starts at `current`, and the newline that ends it.
    fn skip_line_comment(&mut self)
        requires
            old(self).wf(),
            char_at(old(self).chars@, old(self).current as int, '/'),
            char_at(old(self).chars@, old(self).current + 1, '/'),
        ensures
            final(self).wf(),
            final(self).chars == old(self).chars,
            final(self).errors == old(self).errors,
            final(self).current == scan_step(old(self).chars@, old(self).current as int, old(self).line as int).1,
            final(self).line == scan_step(old(self).chars@, old(self).current as int, old(self).line as int).2,
    {
        let ghost s = self.chars@;
        let ghost c0 = self.current as int;
        self.current = self.current + 2;
        while self.current < self.chars.len() && self.chars[self.current] != '\n'
            invariant
                self.wf(),
                self.chars@ == s,
                self.chars == old(self).chars,
                self.line == old(self).line,
                self.errors == old(self).errors,
                c0 + 2 <= self.current <= s.len(),
                newline_from(s, c0 + 2) == newline_from(s, self.current as int),
            decreases s.len() - self.current,
        {
            self.current = self.current + 1;
        }
        if self.current < self.chars.len() {
            self.current = self.current + 1;
            self.advance_line();
        }
    }

    /// Skips a block comment whose `/*` starts at `current`, nested comments included.
    fn skip_block_comment(&mut self)
        requires
            old(self).wf(),
            char_at(old(self).chars@, old(self).current as int, '/'),
            char_at(old(self).chars@, old(self).current + 1, '*'),
        ensures
            final(self).wf(),
            final(self).chars == old(self).chars,
            final(self).errors == old(self).errors,
            final(self).current == scan_step(old(self).chars@, old(self).current as int, old(self).line as int).1,
            final(self).line == scan_step(old(self).chars@, old(self).current as int, old(self).line as int).2,
    {
        let ghost s = self.chars@;
        let ghost c0 = self.current as int;
        let ghost l0 = self.line as int;
        let n = self.chars.len();
        let mut k = self.current + 2;
        let mut depth: usize = 1;
        let mut line = self.line;
        let mut done = false;
        while !done && k < n
            invariant
                n == s.len(),
                self.chars@ == s,
                self.chars == old(self).chars,
                self.wf(),
                self.line == l0,
                self.current == c0,
                self.errors == old(self).errors,
                c0 + 2 <= k <= n,
                1 <= depth <= k,
                l0 <= line,
                line - l0 <= k - (c0 + 2),
                done ==> block_comment_end(s, c0 + 2, 1, l0) == (k as int, line as int),
                !done ==> block_comment_end(s, c0 + 2, 1, l0) == block_comment_end(
                    s,
                    k as int,
                    depth as nat,
                    line as int,
                ),
            decreases n - k,
        {
            let c = self.chars[k];
            if c == '*' && k + 1 < n && self.chars[k + 1] == '/' {
                if depth <= 1 {
                    done = true;
                } else {
                    depth = depth - 1;
                }
                k = k + 2;
            } else if c == '/' && k + 1 < n && self.chars[k + 1] == '*' {
                depth = depth + 1;
                k = k + 2;
            } else if c == '\n' {
                line = line + 1;
                k = k + 1;
            } else {
                k = k + 1;
            }
        }
        self.current = k;
        self.line = line;
    }

    /// Scans the string literal whose opening quote is at `current`.
    fn scan_string(&mut self) -> (r: Option<Token>)
        requires
            old(self).wf(),
            char_at(old(self).chars@, old(self).current as int, '"'),
        ensures
            final(self).wf(),
            final(self).chars == old(self).chars,
            ({
                let (scanned, j, l) = scan_step(old(self).chars@, old(self).current as int, old(self).line as int);
                &&& final(self).current == j
                &&& final(self).line == l
                &&& match scanned {
                    Scanned::Token(t) => r is Some && r->0@ == t && final(self).errors == old(self).errors,
                    Scanned::Error(e) => r is None && final(self).errors@ == old(self).errors@.push(
                        LexError { kind: e, line: l as usize },
                    ),
                    Scanned::Nothing => false,
                }
            }),
    {
        let ghost s = self.chars@;
        let ghost c0 = self.current as int;
        let ghost l0 = self.line as int;
        let n = self.chars.len();
        let mut k = self.current + 1;
        let mut line = self.line;
        while k < n && self.chars[k] != '"'
            invariant
                n == s.len(),
                self.chars@ == s,
                self.chars == old(self).chars,
                self.wf(),
                self.line == l0,
                self.current == c0,
                self.errors == old(self).errors,
                c0 + 1 <= k <= n,
                l0 <= line,
                line - l0 <= k - (c0 + 1),
                string_end(s, c0 + 1, l0) == string_end(s, k as int, line as int),
            decreases n - k,
        {
            if self.chars[k] == '\n' {
                line = line + 1;
            }
            k = k + 1;
        }
        self.line = line;
        if k < n {
            let literal = self.substring(self.current + 1, k);
            self.current = k + 1;
            Some(Token::String(literal))
        } else {
            self.current = n;
            self.error(LexErrorKind::UnterminatedString);
            None
        }
    }

    /// Scans the number literal whose first digit is at `current`.
    fn scan_number(&mut self) -> (r: Token)
        requires
            old(self).wf(),
            old(self).current < old(self).chars@.len(),
        ensures
            final(self).wf(),
            final(self).chars == old(self).chars,
            final(self).errors == old(self).errors,
            final(self).line == old(self).line,
            final(self).current == number_end(old(self).chars@, old(self).current as int),
            r@ == TokenView::Number(
                old(self).chars@.subrange(
                    old(self).current as int,
                    number_end(old(self).chars@, old(self).current as int),
                ),
            ),
    {
        proof {
            lemma_digits_end(self.chars@, self.current + 1);
        }
        let mut end = self.digits_end(self.current + 1);
        let n = self.chars.len();
        if end < n && self.chars[end] == '.' && end + 1 < n && is_digit_exec(self.chars[end + 1]) {
            proof {
                lemma_digits_end(self.chars@, end + 2);
            }
            end = self.digits_end(end + 2);
        }
        let literal = self.substring(self.current, end);
        self.current = end;
        Token::Number(literal)
    }

    /// Scans the identifier or reserved word whose first character is at `current`.
    fn scan_word(&mut self) -> (r: Token)
        requires
            old(self).wf(),
            old(self).current < old(self).chars@.len(),
        ensures
            final(self).wf(),
            final(self).chars == old(self).chars,
            final(self).errors == old(self).errors,
            final(self).line == old(self).line,
            final(self).current == word_end(old(self).chars@, old(self).current + 1),
            ({
                let word = old(self).chars@.subrange(
                    old(self).current as int,
                    word_end(old(self).chars@, old(self).current + 1),
                );
                r@ == match keyword_of(word) {
                    Some(k) => TokenView::Keyword(k),
                    None => TokenView::Identifier(word),
                }
            }),
    {
        proof {
            lemma_word_end(self.chars@, self.current + 1);
        }
        let end = self.word_end(self.current + 1);
        let token = match self.lookup_keyword(self.current, end) {
            Some(k) => Token::Keyword(k),
            None => Token::Identifier(self.substring(self.current, end)),
        };
        self.current = end;
        token
    }

    /// One step of the scanner at `current`.
    fn scan_token(&mut self) -> (r: Option<Token>)
        requires
            old(self).wf(),
            old(self).current < old(self).chars@.len(),
        ensures
            final(self).wf(),
            final(self).chars == old(self).chars,
            ({
                let (scanned, j, l) = scan_step(old(self).chars@, old(self).current as int, old(self).line as int);
                &&& final(self).current == j
                &&& final(self).line == l
                &&& match scanned {
                    Scanned::Token(t) => r is Some && r->0@ == t && final(self).errors == old(self).errors,
                    Scanned::Nothing => r is None && final(self).errors == old(self).errors,
                    Scanned::Error(e) => r is None && final(self).errors@ == old(self).errors@.push(
                        LexError { kind: e, line: l as usize },
                    ),
                }
            }),
    {
        let c = self.chars[self.current];
        if let Some(symbol) = single_symbol_exec(c) {
            self.current = self.current + 1;
            return Some(Token::Symbol(symbol));
        }
        if let Some(alone) = pair_alone_exec(c) {
            let symbol = self.match_if_next('=', pair_with_equal_exec(c), alone);
            self.current = self.current + 1;
            return Some(Token::Symbol(symbol));
        }
        if c == '/' {
            if self.matches_next('/') {
                self.skip_line_comment();
                return None;
            } else if self.matches_next('*') {
                self.skip_block_comment();
                return None;
            } else {
                self.current = self.current + 1;
                return Some(Token::Symbol(Symbol::Slash));
            }
        }
        if c == ' ' || c == '\r' || c == '\t' {
            self.current = self.current + 1;
            None
        } else if c == '\n' {
            self.current = self.current + 1;
            self.advance_line();
            None
        } else if c == '"' {
            self.scan_string()
        } else if is_digit_exec(c) {
            Some(self.scan_number())
        } else if is_alpha_exec(c) {
            Some(self.scan_word())
        } else {
            self.current = self.current + 1;
            self.error(LexErrorKind::UnexpectedCharacter);
            None
        }
    }

    /// Scans the rest of the text. On success, the tokens in source order,
    /// each with the line on which it ended, followed by the end-of-input
    /// token; otherwise every lexical error, each with its line.
    pub fn scan(&mut self) -> (r: Result<Vec<CtxToken>, Vec<LexError>>)
        requires
            old(self).wf(),
        ensures
            final(self).wf(),
            ({
                let out = lex(old(self).text(), old(self).position(), old(self).line_number());
                let errors = old(self).errors_found() + out.errors;
                &&& final(self).errors_found() == errors
                &&& (r is Ok <==> errors.len() == 0)
                &&& (r matches Ok(ts) ==> tokens_view(ts@) == out.tokens.push(
                    (TokenView::Eof, out.line),
                ))
                &&& (r matches Err(es) ==> errors_view(es@) == errors)
            }),
    {
        let ghost s = self.chars@;
        let ghost out = lex(s, self.current as int, self.line as int);
        let ghost e0 = errors_view(self.errors@);
        let mut tokens: Vec<CtxToken> = Vec::new();
        while self.current < self.chars.len()
            invariant
                self.wf(),
                self.chars@ == s,
                self.chars == old(self).chars,
                out.tokens == tokens_view(tokens@) + lex(s, self.current as int, self.line as int).tokens,
                e0 + out.errors == errors_view(self.errors@) + lex(s, self.current as int, self.line as int).errors,
                out.line == lex(s, self.current as int, self.line as int).line,
            decreases s.len() - self.current,
        {
            let ghost before = lex(s, self.current as int, self.line as int);
            let ghost errors_before = self.errors@;
            proof {
                lemma_scan_step(s, self.current as int, self.line as int);
            }
            let scanned = self.scan_token();
            let ghost after = lex(s, self.current as int, self.line as int);
            match scanned {
                Some(token) => {
                    let ghost tokens_before = tokens@;
                    tokens.push(CtxToken::new(token, self.line));
                    assert(tokens_view(tokens@) =~= tokens_view(tokens_before).push(
                        tokens@.last()@,
                    ));
                    assert(out.tokens =~= tokens_view(tokens@) + after.tokens);
                },
                None => {
                    assert(errors_view(self.errors@) + after.errors =~= errors_view(errors_before)
                        + before.errors);
                },
            }
        }
        assert(lex(s, self.current as int, self.line as int).tokens =~= Seq::<(TokenView, int)>::empty());
        assert(errors_view(self.errors@) =~= e0 + out.errors);
        assert(tokens_view(tokens@) =~= out.tokens);
        let ghost tokens_before = tokens@;
        tokens.push(CtxToken::new(Token::Eof, self.line));
        assert(tokens_view(tokens@) =~= tokens_view(tokens_before).push((TokenView::Eof, out.line)));
        if self.errors.len() == 0 {
            Ok(tokens)
        } else {
            Err(self.errors.clone())
        }
    }
}

fn is_digit_exec(c: char) -> (r: bool)
    ensures
        r == is_digit(c),
{
    '0' <= c && c <= '9'
}

fn is_alpha_exec(c: char) -> (r: bool)
    ensures
        r == is_alpha(c),
{
    ('a' <= c && c <= 'z') || ('A' <= c && c <= 'Z') || c == '_'
}

fn is_alnum_exec(c: char) -> (r: bool)
    ensures
        r == is_alnum(c),
{
    is_alpha_exec(c) || is_digit_exec(c)
}

fn single_symbol_exec(c: char) -> (r: Option<Symbol>)
    ensures
        r == single_symbol(c),
{
    if c == '(' {
        Some(Symbol::LeftParen)
    } else if c == ')' {
        Some(Symbol::RightParen)
    } else if c == '{' {
        Some(Symbol::LeftBrace)
    } else if c == '}' {
        Some(Symbol::RightBrace)
    } else if c == ',' {
        Some(Symbol::Comma)
    } else if c == '.' {
        Some(Symbol::Dot)
    } else if c == '-' {
        Some(Symbol::Minus)
    } else if c == '+' {
        Some(Symbol::Plus)
    } else if c == ';' {
        Some(Symbol::SemiColon)
    } else if c == '*' {
        Some(Symbol::Star)
    } else if c == '?' {
        Some(Symbol::Question)
    } else if c == ':' {
        Some(Symbol::Colon)
    } else {
        None
    }
}

fn pair_alone_exec(c: char) -> (r: Option<Symbol>)
    ensures
        r == pair_alone(c),
{
    if c == '!' {
        Some(Symbol::Bang)
    } else if c == '=' {
        Some(Symbol::Equal)
    } else if c == '<' {
        Some(Symbol::Less)
    } else if c == '>' {
        Some(Symbol::Greater)
    } else {
        None
    }
}

fn pair_with_equal_exec(c: char) -> (r: Symbol)
    ensures
        r == pair_with_equal(c),
{
    if c == '!' {
        Symbol::BangEqual
    } else if c == '=' {
        Symbol::EqualEqual
    } else if c == '<' {
        Symbol::LessEqual
    } else {
        Symbol::GreaterEqual
    }
}

} // verus!
