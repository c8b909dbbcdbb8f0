//! Turns source text into tokens, with `Indent` and `Dedent` tokens for the
//! indentation structure.
use vstd::prelude::*;

use crate::ast::BinaryOp;
use crate::metadata::binary_op_word;
use crate::diagnostics::{all_in_phase, failure_of, Diagnostic, Phase, SourceSpan};
use crate::text::{
    chars_of, concat, concat3, digit_value, is_digit, push_char, str_eq, text_of_range, u64_text,
};

verus! {

/// A lexical token.
#[derive(Debug, Clone, PartialEq)]
pub enum Token {
    Identifier(String),
    IntLiteral(i64),
    DecLiteral(String),
    StringLiteral(String),
    Module,
    Import,
    As,
    From,
    Const,
    Record,
    Enum,
    Extern,
    Pure,
    Impure,
    Action,
    Test,
    Let,
    Var,
    If,
    Elif,
    Else,
    While,
    For,
    Each,
    In,
    Match,
    Return,
    Break,
    Continue,
    Expect,
    And,
    Or,
    Not,
    True,
    False,
    NoneKeyword,
    Intent,
    Goal,
    Constraints,
    Assumptions,
    Properties,
    Explain,
    Step,
    Requires,
    Ensures,
    Example,
    Input,
    Output,
    Meaning,
    Colon,
    ColonAssign,
    Comma,
    Dot,
    LParen,
    RParen,
    LBracket,
    RBracket,
    LBrace,
    RBrace,
    Arrow,
    Assign,
    EqualEqual,
    NotEqual,
    Less,
    LessEqual,
    Greater,
    GreaterEqual,
    Plus,
    Minus,
    Star,
    Slash,
    Percent,
    Newline,
    Indent,
    Dedent,
    Eof,
}

impl Token {
    /// The index of the token's variant, in declaration order.
    pub open spec fn tag(&self) -> u8 {
        match self {
            Token::Identifier(..) => 0u8,
            Token::IntLiteral(..) => 1u8,
            Token::DecLiteral(..) => 2u8,
            Token::StringLiteral(..) => 3u8,
            Token::Module => 4u8,
            Token::Import => 5u8,
            Token::As => 6u8,
            Token::From => 7u8,
            Token::Const => 8u8,
            Token::Record => 9u8,
            Token::Enum => 10u8,
            Token::Extern => 11u8,
            Token::Pure => 12u8,
            Token::Impure => 13u8,
            Token::Action => 14u8,
            Token::Test => 15u8,
            Token::Let => 16u8,
            Token::Var => 17u8,
            Token::If => 18u8,
            Token::Elif => 19u8,
            Token::Else => 20u8,
            Token::While => 21u8,
            Token::For => 22u8,
            Token::Each => 23u8,
            Token::In => 24u8,
            Token::Match => 25u8,
            Token::Return => 26u8,
            Token::Break => 27u8,
            Token::Continue => 28u8,
            Token::Expect => 29u8,
            Token::And => 30u8,
            Token::Or => 31u8,
            Token::Not => 32u8,
            Token::True => 33u8,
            Token::False => 34u8,
            Token::NoneKeyword => 35u8,
            Token::Intent => 36u8,
            Token::Goal => 37u8,
            Token::Constraints => 38u8,
            Token::Assumptions => 39u8,
            Token::Properties => 40u8,
            Token::Explain => 41u8,
            Token::Step => 42u8,
            Token::Requires => 43u8,
            Token::Ensures => 44u8,
            Token::Example => 45u8,
            Token::Input => 46u8,
            Token::Output => 47u8,
            Token::Meaning => 48u8,
            Token::Colon => 49u8,
            Token::ColonAssign => 50u8,
            Token::Comma => 51u8,
            Token::Dot => 52u8,
            Token::LParen => 53u8,
            Token::RParen => 54u8,
            Token::LBracket => 55u8,
            Token::RBracket => 56u8,
            Token::LBrace => 57u8,
            Token::RBrace => 58u8,
            Token::Arrow => 59u8,
            Token::Assign => 60u8,
            Token::EqualEqual => 61u8,
            Token::NotEqual => 62u8,
            Token::Less => 63u8,
            Token::LessEqual => 64u8,
            Token::Greater => 65u8,
            Token::GreaterEqual => 66u8,
            Token::Plus => 67u8,
            Token::Minus => 68u8,
            Token::Star => 69u8,
            Token::Slash => 70u8,
            Token::Percent => 71u8,
            Token::Newline => 72u8,
            Token::Indent => 73u8,
            Token::Dedent => 74u8,
            Token::Eof => 75u8,
        }
    }

    /// The index of the token's variant, in declaration order.
    pub fn variant_index(&self) -> (r: u8)
        ensures
            r == self.tag(),
    {
        match self {
            Token::Identifier(..) => 0u8,
            Token::IntLiteral(..) => 1u8,
            Token::DecLiteral(..) => 2u8,
            Token::StringLiteral(..) => 3u8,
            Token::Module => 4u8,
            Token::Import => 5u8,
            Token::As => 6u8,
            Token::From => 7u8,
            Token::Const => 8u8,
            Token::Record => 9u8,
            Token::Enum => 10u8,
            Token::Extern => 11u8,
            Token::Pure => 12u8,
            Token::Impure => 13u8,
            Token::Action => 14u8,
            Token::Test => 15u8,
            Token::Let => 16u8,
            Token::Var => 17u8,
            Token::If => 18u8,
            Token::Elif => 19u8,
            Token::Else => 20u8,
            Token::While => 21u8,
            Token::For => 22u8,
            Token::Each => 23u8,
            Token::In => 24u8,
            Token::Match => 25u8,
            Token::Return => 26u8,
            Token::Break => 27u8,
            Token::Continue => 28u8,
            Token::Expect => 29u8,
            Token::And => 30u8,
            Token::Or => 31u8,
            Token::Not => 32u8,
            Token::True => 33u8,
            Token::False => 34u8,
            Token::NoneKeyword => 35u8,
            Token::Intent => 36u8,
            Token::Goal => 37u8,
            Token::Constraints => 38u8,
            Token::Assumptions => 39u8,
            Token::Properties => 40u8,
            Token::Explain => 41u8,
            Token::Step => 42u8,
            Token::Requires => 43u8,
            Token::Ensures => 44u8,
            Token::Example => 45u8,
            Token::Input => 46u8,
            Token::Output => 47u8,
            Token::Meaning => 48u8,
            Token::Colon => 49u8,
            Token::ColonAssign => 50u8,
            Token::Comma => 51u8,
            Token::Dot => 52u8,
            Token::LParen => 53u8,
            Token::RParen => 54u8,
            Token::LBracket => 55u8,
            Token::RBracket => 56u8,
            Token::LBrace => 57u8,
            Token::RBrace => 58u8,
            Token::Arrow => 59u8,
            Token::Assign => 60u8,
            Token::EqualEqual => 61u8,
            Token::NotEqual => 62u8,
            Token::Less => 63u8,
            Token::LessEqual => 64u8,
            Token::Greater => 65u8,
            Token::GreaterEqual => 66u8,
            Token::Plus => 67u8,
            Token::Minus => 68u8,
            Token::Star => 69u8,
            Token::Slash => 70u8,
            Token::Percent => 71u8,
            Token::Newline => 72u8,
            Token::Indent => 73u8,
            Token::Dedent => 74u8,
            Token::Eof => 75u8,
        }
    }

    /// Whether both tokens are of the same variant, whatever their payloads.
    pub fn same_variant(&self, other: &Token) -> (r: bool)
        ensures
            r == (self.tag() == other.tag()),
    {
        self.variant_index() == other.variant_index()
    }
}

/// The keyword token spelled `s`, if `s` is a keyword.
pub open spec fn keyword_token(s: Seq<char>) -> Option<Token> {
    if s == "module"@ {
        Some(Token::Module)
    } else if s == "import"@ {
        Some(Token::Import)
    } else if s == "as"@ {
        Some(Token::As)
    } else if s == "from"@ {
        Some(Token::From)
    } else if s == "const"@ {
        Some(Token::Const)
    } else if s == "record"@ {
        Some(Token::Record)
    } else if s == "enum"@ {
        Some(Token::Enum)
    } else if s == "extern"@ {
        Some(Token::Extern)
    } else if s == "pure"@ {
        Some(Token::Pure)
    } else if s == "impure"@ {
        Some(Token::Impure)
    } else if s == "action"@ {
        Some(Token::Action)
    } else if s == "test"@ {
        Some(Token::Test)
    } else if s == "let"@ {
        Some(Token::Let)
    } else if s == "var"@ {
        Some(Token::Var)
    } else if s == "if"@ {
        Some(Token::If)
    } else if s == "elif"@ {
        Some(Token::Elif)
    } else if s == "else"@ {
        Some(Token::Else)
    } else if s == "while"@ {
        Some(Token::While)
    } else if s == "for"@ {
        Some(Token::For)
    } else if s == "each"@ {
        Some(Token::Each)
    } else if s == "in"@ {
        Some(Token::In)
    } else if s == "match"@ {
        Some(Token::Match)
    } else if s == "return"@ {
        Some(Token::Return)
    } else if s == "break"@ {
        Some(Token::Break)
    } else if s == "continue"@ {
        Some(Token::Continue)
    } else if s == "expect"@ {
        Some(Token::Expect)
    } else if s == "and"@ {
        Some(Token::And)
    } else if s == "or"@ {
        Some(Token::Or)
    } else if s == "not"@ {
        Some(Token::Not)
    } else if s == "true"@ {
        Some(Token::True)
    } else if s == "false"@ {
        Some(Token::False)
    } else if s == "none"@ {
        Some(Token::NoneKeyword)
    } else if s == "intent"@ {
        Some(Token::Intent)
    } else if s == "goal"@ {
        Some(Token::Goal)
    } else if s == "constraints"@ {
        Some(Token::Constraints)
    } else if s == "assumptions"@ {
        Some(Token::Assumptions)
    } else if s == "properties"@ {
        Some(Token::Properties)
    } else if s == "explain"@ {
        Some(Token::Explain)
    } else if s == "step"@ {
        Some(Token::Step)
    } else if s == "requires"@ {
        Some(Token::Requires)
    } else if s == "ensures"@ {
        Some(Token::Ensures)
    } else if s == "example"@ {
        Some(Token::Example)
    } else if s == "input"@ {
        Some(Token::Input)
    } else if s == "output"@ {
        Some(Token::Output)
    } else if s == "meaning"@ {
        Some(Token::Meaning)
    } else {
        None
    }
}

/// The keyword token spelled `s`, if `s` is a keyword.
fn keyword(s: &str) -> (r: Option<Token>)
    ensures
        r == keyword_token(s@),
{
    if str_eq(s, "module") {
        Some(Token::Module)
    } else if str_eq(s, "import") {
        Some(Token::Import)
    } else if str_eq(s, "as") {
        Some(Token::As)
    } else if str_eq(s, "from") {
        Some(Token::From)
    } else if str_eq(s, "const") {
        Some(Token::Const)
    } else if str_eq(s, "record") {
        Some(Token::Record)
    } else if str_eq(s, "enum") {
        Some(Token::Enum)
    } else if str_eq(s, "extern") {
        Some(Token::Extern)
    } else if str_eq(s, "pure") {
        Some(Token::Pure)
    } else if str_eq(s, "impure") {
        Some(Token::Impure)
    } else if str_eq(s, "action") {
        Some(Token::Action)
    } else if str_eq(s, "test") {
        Some(Token::Test)
    } else if str_eq(s, "let") {
        Some(Token::Let)
    } else if str_eq(s, "var") {
        Some(Token::Var)
    } else if str_eq(s, "if") {
        Some(Token::If)
    } else if str_eq(s, "elif") {
        Some(Token::Elif)
    } else if str_eq(s, "else") {
        Some(Token::Else)
    } else if str_eq(s, "while") {
        Some(Token::While)
    } else if str_eq(s, "for") {
        Some(Token::For)
    } else if str_eq(s, "each") {
        Some(Token::Each)
    } else if str_eq(s, "in") {
        Some(Token::In)
    } else if str_eq(s, "match") {
        Some(Token::Match)
    } else if str_eq(s, "return") {
        Some(Token::Return)
    } else if str_eq(s, "break") {
        Some(Token::Break)
    } else if str_eq(s, "continue") {
        Some(Token::Continue)
    } else if str_eq(s, "expect") {
        Some(Token::Expect)
    } else if str_eq(s, "and") {
        Some(Token::And)
    } else if str_eq(s, "or") {
        Some(Token::Or)
    } else if str_eq(s, "not") {
        Some(Token::Not)
    } else if str_eq(s, "true") {
        Some(Token::True)
    } else if str_eq(s, "false") {
        Some(Token::False)
    } else if str_eq(s, "none") {
        Some(Token::NoneKeyword)
    } else if str_eq(s, "intent") {
        Some(Token::Intent)
    } else if str_eq(s, "goal") {
        Some(Token::Goal)
    } else if str_eq(s, "constraints") {
        Some(Token::Constraints)
    } else if str_eq(s, "assumptions") {
        Some(Token::Assumptions)
    } else if str_eq(s, "properties") {
        Some(Token::Properties)
    } else if str_eq(s, "explain") {
        Some(Token::Explain)
    } else if str_eq(s, "step") {
        Some(Token::Step)
    } else if str_eq(s, "requires") {
        Some(Token::Requires)
    } else if str_eq(s, "ensures") {
        Some(Token::Ensures)
    } else if str_eq(s, "example") {
        Some(Token::Example)
    } else if str_eq(s, "input") {
        Some(Token::Input)
    } else if str_eq(s, "output") {
        Some(Token::Output)
    } else if str_eq(s, "meaning") {
        Some(Token::Meaning)
    } else {
        None
    }
}

/// A token with the position where it starts.
#[derive(Debug, Clone, PartialEq)]
pub struct SpannedToken {
    pub token: Token,
    pub span: SourceSpan,
}

/// Whether `c` is a Unicode `White_Space` character (as `char::is_whitespace`).
pub open spec fn is_white(c: char) -> bool {
    ('\u{9}' <= c && c <= '\u{d}') || c == ' ' || c == '\u{85}' || c == '\u{a0}'
        || c == '\u{1680}' || ('\u{2000}' <= c && c <= '\u{200a}') || c == '\u{2028}'
        || c == '\u{2029}' || c == '\u{202f}' || c == '\u{205f}' || c == '\u{3000}'
}

pub fn white(c: char) -> (r: bool)
    ensures
        r == is_white(c),
{
    ('\u{9}' <= c && c <= '\u{d}') || c == ' ' || c == '\u{85}' || c == '\u{a0}'
        || c == '\u{1680}' || ('\u{2000}' <= c && c <= '\u{200a}') || c == '\u{2028}'
        || c == '\u{2029}' || c == '\u{202f}' || c == '\u{205f}' || c == '\u{3000}'
}

/// Whether `c` may start an identifier.
pub open spec fn is_ident_start(c: char) -> bool {
    c == '_' || ('a' <= c && c <= 'z') || ('A' <= c && c <= 'Z')
}

/// Whether `c` may continue an identifier.
pub open spec fn is_ident_continue(c: char) -> bool {
    is_ident_start(c) || is_digit(c)
}

fn ident_start(c: char) -> (r: bool)
    ensures
        r == is_ident_start(c),
{
    c == '_' || ('a' <= c && c <= 'z') || ('A' <= c && c <= 'Z')
}

fn ident_continue(c: char) -> (r: bool)
    ensures
        r == is_ident_continue(c),
{
    ident_start(c) || ('0' <= c && c <= '9')
}

fn digit(c: char) -> (r: bool)
    ensures
        r == is_digit(c),
{
    '0' <= c && c <= '9'
}

/// The token of a two-character operator `a b`, if any.
pub open spec fn two_char_token(a: char, b: char) -> Option<Token> {
    if a == '-' && b == '>' {
        Some(Token::Arrow)
    } else if a == '=' && b == '=' {
        Some(Token::EqualEqual)
    } else if a == '!' && b == '=' {
        Some(Token::NotEqual)
    } else if a == '<' && b == '=' {
        Some(Token::LessEqual)
    } else if a == '>' && b == '=' {
        Some(Token::GreaterEqual)
    } else if a == ':' && b == '=' {
        Some(Token::ColonAssign)
    } else {
        None
    }
}

/// The token of a one-character punctuation mark or operator, if any.
pub open spec fn one_char_token(c: char) -> Option<Token> {
    if c == ':' {
        Some(Token::Colon)
    } else if c == ',' {
        Some(Token::Comma)
    } else if c == '.' {
        Some(Token::Dot)
    } else if c == '(' {
        Some(Token::LParen)
    } else if c == ')' {
        Some(Token::RParen)
    } else if c == '[' {
        Some(Token::LBracket)
    } else if c == ']' {
        Some(Token::RBracket)
    } else if c == '{' {
        Some(Token::LBrace)
    } else if c == '}' {
        Some(Token::RBrace)
    } else if c == '=' {
        Some(Token::Assign)
    } else if c == '<' {
        Some(Token::Less)
    } else if c == '>' {
        Some(Token::Greater)
    } else if c == '+' {
        Some(Token::Plus)
    } else if c == '-' {
        Some(Token::Minus)
    } else if c == '*' {
        Some(Token::Star)
    } else if c == '/' {
        Some(Token::Slash)
    } else if c == '%' {
        Some(Token::Percent)
    } else {
        None
    }
}

/// The single token the lexer reads for an operator word: a two-character
/// operator, a one-character one, or a keyword.
pub open spec fn operator_token(w: Seq<char>) -> Option<Token> {
    if w.len() == 2 && two_char_token(w[0], w[1]) is Some {
        two_char_token(w[0], w[1])
    } else if w.len() == 1 {
        one_char_token(w[0])
    } else {
        keyword_token(w)
    }
}

/// A two-character operator is read as a token of its own, which no single
/// character is read as.
pub proof fn two_char_tokens_stand_apart(a: char, b: char, c: char)
    ensures
        two_char_token(a, b) is Some ==> one_char_token(c) != two_char_token(a, b),
{
}

/// Two different two-character operators are read as different tokens.
pub proof fn two_char_tokens_are_distinct(a: char, b: char, c: char, d: char)
    ensures
        two_char_token(a, b) is Some && two_char_token(a, b) == two_char_token(c, d) ==> a == c && b == d,
{
}

/// Every binary operator of the language, written as in source text, is
/// read as a single token, and different operators as different tokens.
pub proof fn operator_words_read_as_distinct_tokens(x: BinaryOp, y: BinaryOp)
    ensures
        operator_token(binary_op_word(x)) is Some,
        x != y ==> operator_token(binary_op_word(x)) != operator_token(binary_op_word(y)),
{
    reveal_strlit("+");
    reveal_strlit("-");
    reveal_strlit("*");
    reveal_strlit("/");
    reveal_strlit("%");
    reveal_strlit("==");
    reveal_strlit("!=");
    reveal_strlit("<");
    reveal_strlit("<=");
    reveal_strlit(">");
    reveal_strlit(">=");
    reveal_strlit("and");
    reveal_strlit("or");
}

fn two_char(a: char, b: char) -> (r: Option<Token>)
    ensures
        r == two_char_token(a, b),
{
    if a == '-' && b == '>' {
        Some(Token::Arrow)
    } else if a == '=' && b == '=' {
        Some(Token::EqualEqual)
    } else if a == '!' && b == '=' {
        Some(Token::NotEqual)
    } else if a == '<' && b == '=' {
        Some(Token::LessEqual)
    } else if a == '>' && b == '=' {
        Some(Token::GreaterEqual)
    } else if a == ':' && b == '=' {
        Some(Token::ColonAssign)
    } else {
        None
    }
}

fn one_char(c: char) -> (r: Option<Token>)
    ensures
        r == one_char_token(c),
{
    if c == ':' {
        Some(Token::Colon)
    } else if c == ',' {
        Some(Token::Comma)
    } else if c == '.' {
        Some(Token::Dot)
    } else if c == '(' {
        Some(Token::LParen)
    } else if c == ')' {
        Some(Token::RParen)
    } else if c == '[' {
        Some(Token::LBracket)
    } else if c == ']' {
        Some(Token::RBracket)
    } else if c == '{' {
        Some(Token::LBrace)
    } else if c == '}' {
        Some(Token::RBrace)
    } else if c == '=' {
        Some(Token::Assign)
    } else if c == '<' {
        Some(Token::Less)
    } else if c == '>' {
        Some(Token::Greater)
    } else if c == '+' {
        Some(Token::Plus)
    } else if c == '-' {
        Some(Token::Minus)
    } else if c == '*' {
        Some(Token::Star)
    } else if c == '/' {
        Some(Token::Slash)
    } else if c == '%' {
        Some(Token::Percent)
    } else {
        None
    }
}

/// The character an escape `\c` stands for inside a text literal, if supported.
pub open spec fn escape_of(c: char) -> Option<char> {
    if c == 'n' {
        Some('\n')
    } else if c == 't' {
        Some('\t')
    } else if c == '"' {
        Some('"')
    } else if c == '\\' {
        Some('\\')
    } else {
        None
    }
}

/// Decodes a text literal body from position `i` (just after the opening
/// quote or after earlier content `acc`): the decoded text and the position
/// after the closing quote, or `None` when the literal is unterminated or
/// uses an unsupported escape.
pub open spec fn scan_text(c: Seq<char>, i: int, acc: Seq<char>) -> Option<(Seq<char>, int)>
    decreases c.len() - i,
{
    if i < 0 || i >= c.len() {
        None
    } else if c[i] == '"' {
        Some((acc, i + 1))
    } else if c[i] == '\\' {
        if i + 1 >= c.len() {
            None
        } else {
            match escape_of(c[i + 1]) {
                Some(e) => scan_text(c, i + 2, acc.push(e)),
                None => None,
            }
        }
    } else {
        scan_text(c, i + 1, acc.push(c[i]))
    }
}

/// The end of the number literal that continues at `i`: digits, and at most
/// one `.` that is followed by a digit.
pub open spec fn number_end(c: Seq<char>, i: int, saw_dot: bool) -> int
    decreases c.len() - i,
{
    if i < 0 || i >= c.len() {
        i
    } else if is_digit(c[i]) {
        number_end(c, i + 1, saw_dot)
    } else if c[i] == '.' && !saw_dot && i + 1 < c.len() && is_digit(c[i + 1]) {
        number_end(c, i + 1, true)
    } else {
        i
    }
}

/// Whether the number literal that continues at `i` contains a `.`.
pub open spec fn number_has_dot(c: Seq<char>, i: int, saw_dot: bool) -> bool
    decreases c.len() - i,
{
    if i < 0 || i >= c.len() {
        saw_dot
    } else if is_digit(c[i]) {
        number_has_dot(c, i + 1, saw_dot)
    } else if c[i] == '.' && !saw_dot && i + 1 < c.len() && is_digit(c[i + 1]) {
        number_has_dot(c, i + 1, true)
    } else {
        saw_dot
    }
}

/// The value of a run of decimal digits.
pub open spec fn digits_value(s: Seq<char>) -> int
    decreases s.len(),
{
    if s.len() == 0 {
        0
    } else {
        digits_value(s.drop_last()) * 10 + digit_value(s.last())
    }
}

/// The end of the identifier that continues at `i`.
pub open spec fn ident_end(c: Seq<char>, i: int) -> int
    decreases c.len() - i,
{
    if i < 0 || i >= c.len() || !is_ident_continue(c[i]) {
        i
    } else {
        ident_end(c, i + 1)
    }
}

/// The token for the identifier or keyword spelled `s`.
pub open spec fn word_token(s: Seq<char>, t: Token) -> bool {
    match keyword_token(s) {
        Some(k) => t == k,
        None => t matches Token::Identifier(name) && name@ == s,
    }
}

/// The token for the number literal spelled `s`: a decimal literal holding
/// its text when it has a `.`, else the integer it denotes.
pub open spec fn number_token(s: Seq<char>, has_dot: bool, t: Token) -> bool {
    if has_dot {
        t matches Token::DecLiteral(text) && text@ == s
    } else {
        digits_value(s) <= i64::MAX && t == Token::IntLiteral(digits_value(s) as i64)
    }
}

/// Whether `ts` are the tokens that lexing the line `c` from position `i`
/// gives: white space is passed over, `#` ends the line, and otherwise the
/// next token is a two-character operator, a one-character one, a text
/// literal, a number or a word, tried in that order.
pub open spec fn scans_to(c: Seq<char>, i: int, ts: Seq<Token>) -> bool
    decreases c.len() - i,
{
    if i < 0 || i >= c.len() || c[i] == '#' {
        ts.len() == 0
    } else if is_white(c[i]) {
        scans_to(c, i + 1, ts)
    } else if i + 1 < c.len() && two_char_token(c[i], c[i + 1]) is Some {
        ts.len() > 0 && ts[0] == two_char_token(c[i], c[i + 1]).unwrap() && scans_to(c, i + 2, ts.drop_first())
    } else if one_char_token(c[i]) is Some {
        ts.len() > 0 && ts[0] == one_char_token(c[i]).unwrap() && scans_to(c, i + 1, ts.drop_first())
    } else if c[i] == '"' {
        match scan_text(c, i + 1, Seq::empty()) {
            Some((text, next)) => i < next <= c.len() && ts.len() > 0 && (ts[0] matches Token::StringLiteral(v) && v@ == text)
                && scans_to(c, next, ts.drop_first()),
            None => false,
        }
    } else if is_digit(c[i]) {
        let next = number_end(c, i, false);
        i < next <= c.len() && ts.len() > 0 && number_token(c.subrange(i, next), number_has_dot(c, i, false), ts[0]) && scans_to(
            c,
            next,
            ts.drop_first(),
        )
    } else if is_ident_start(c[i]) {
        let next = ident_end(c, i);
        i < next <= c.len() && ts.len() > 0 && word_token(c.subrange(i, next), ts[0]) && scans_to(c, next, ts.drop_first())
    } else {
        false
    }
}

/// Whether lexing the line `c` from position `i` meets an error: an
/// unterminated text literal or unsupported escape, an integer too large
/// for `Int`, or a character that starts no token.
pub open spec fn scan_fails(c: Seq<char>, i: int) -> bool
    decreases c.len() - i,
{
    if i < 0 || i >= c.len() || c[i] == '#' {
        false
    } else if is_white(c[i]) {
        scan_fails(c, i + 1)
    } else if i + 1 < c.len() && two_char_token(c[i], c[i + 1]) is Some {
        scan_fails(c, i + 2)
    } else if one_char_token(c[i]) is Some {
        scan_fails(c, i + 1)
    } else if c[i] == '"' {
        match scan_text(c, i + 1, Seq::empty()) {
            Some((_, next)) => i < next <= c.len() && scan_fails(c, next),
            None => true,
        }
    } else if is_digit(c[i]) {
        let next = number_end(c, i, false);
        if !number_has_dot(c, i, false) && digits_value(c.subrange(i, next)) > i64::MAX {
            true
        } else {
            i < next <= c.len() && scan_fails(c, next)
        }
    } else if is_ident_start(c[i]) {
        let next = ident_end(c, i);
        i < next <= c.len() && scan_fails(c, next)
    } else {
        true
    }
}

/// A line the lexer refuses: one holding a tab, or one with content whose
/// lexing after its indentation meets an error.
pub open spec fn line_refused(line: Seq<char>) -> bool {
    line.contains('\t') || (!is_skipped_line(line) && scan_fails(line, leading_spaces(line)))
}

/// `n` block closings.
pub open spec fn dedents(n: int) -> Seq<Token> {
    Seq::new(if n > 0 { n as nat } else { 0 }, |i: int| Token::Dedent)
}

/// The indentation levels left open once the blocks deeper than `indent`
/// are closed; the outermost level stays.
pub open spec fn pop_levels(stack: Seq<usize>, indent: int) -> Seq<usize>
    decreases stack.len(),
{
    if stack.len() > 1 && indent < stack.last() {
        pop_levels(stack.drop_last(), indent)
    } else {
        stack
    }
}

/// Whether the indentation of lines `li..` of a source fits the open
/// blocks `stack`: each line with content either stands deeper than the
/// innermost level, opening a block, or closes the blocks deeper than it and
/// then stands at the level reached.
pub open spec fn layout_fits(lines: Seq<Seq<char>>, li: int, stack: Seq<usize>) -> bool
    decreases lines.len() - li,
{
    if li < 0 || li >= lines.len() {
        true
    } else if is_skipped_line(lines[li]) {
        layout_fits(lines, li + 1, stack)
    } else {
        let ind = leading_spaces(lines[li]);
        let deeper = stack.len() > 0 && ind > stack.last();
        let next = if deeper {
            stack.push(ind as usize)
        } else {
            pop_levels(stack, ind)
        };
        (deeper || next.last() == ind) && layout_fits(lines, li + 1, next)
    }
}

/// Whether `ts` are the tokens of lines `li..` of a source, with `stack`
/// the indentation levels of the open blocks: blank and comment lines give
/// nothing; any other line opens a block with `Indent` when it is deeper
/// than the innermost level, closes with `Dedent`s the blocks deeper than
/// it otherwise (and then must stand at the level reached), and gives its
/// own tokens and `Newline`; the end closes every open block and gives
/// `Eof`.
pub open spec fn stream_from(lines: Seq<Seq<char>>, li: int, stack: Seq<usize>, ts: Seq<Token>) -> bool
    decreases lines.len() - li,
{
    if li < 0 || li >= lines.len() {
        ts == dedents(stack.len() - 1).push(Token::Eof)
    } else if is_skipped_line(lines[li]) {
        stream_from(lines, li + 1, stack, ts)
    } else {
        let line = lines[li];
        let ind = leading_spaces(line);
        let deeper = stack.len() > 0 && ind > stack.last();
        let opening = if deeper {
            seq![Token::Indent]
        } else {
            dedents(stack.len() - pop_levels(stack, ind).len())
        };
        let next_stack = if deeper {
            stack.push(ind as usize)
        } else {
            pop_levels(stack, ind)
        };
        &&& stack.len() > 0
        &&& !deeper ==> next_stack.last() == ind
        &&& ts.len() >= opening.len()
        &&& ts.take(opening.len() as int) == opening
        &&& exists|k: int|
            opening.len() <= k < ts.len() && #[trigger] ts[k] == Token::Newline && scans_to(
                line,
                ind,
                ts.subrange(opening.len() as int, k),
            ) && stream_from(lines, li + 1, next_stack, ts.skip(k + 1))
    }
}

/// The tokens of spanned tokens.
pub open spec fn tokens_of(ts: Seq<SpannedToken>) -> Seq<Token> {
    ts.map_values(|t: SpannedToken| t.token)
}

/// Tokens that a single line may produce (no layout tokens).
pub open spec fn is_line_token(t: Token) -> bool {
    !(t matches Token::Indent) && !(t matches Token::Dedent) && !(t matches Token::Newline)
        && !(t matches Token::Eof)
}

/// The change of block depth caused by a token.
pub open spec fn depth_delta(t: Token) -> int {
    match t {
        Token::Indent => 1,
        Token::Dedent => -1,
        _ => 0,
    }
}

/// The block depth after a token sequence: `Indent`s minus `Dedent`s.
pub open spec fn block_depth(ts: Seq<SpannedToken>) -> int
    decreases ts.len(),
{
    if ts.len() == 0 {
        0
    } else {
        block_depth(ts.drop_last()) + depth_delta(ts.last().token)
    }
}

/// No prefix of the sequence closes more blocks than it opened.
pub open spec fn never_negative(ts: Seq<SpannedToken>) -> bool {
    forall|k: int| 0 <= k <= ts.len() ==> block_depth(#[trigger] ts.take(k)) >= 0
}

/// A successful token stream: blocks are properly nested and closed, and the
/// stream ends with its only `Eof`.
pub open spec fn well_formed_stream(ts: Seq<SpannedToken>) -> bool {
    &&& ts.len() > 0
    &&& ts.last().token matches Token::Eof
    &&& forall|i: int| 0 <= i < ts.len() - 1 ==> !(#[trigger] ts[i].token matches Token::Eof)
    &&& never_negative(ts)
    &&& block_depth(ts) == 0
}

proof fn lemma_depth_push(ts: Seq<SpannedToken>, t: SpannedToken)
    ensures
        block_depth(ts.push(t)) == block_depth(ts) + depth_delta(t.token),
{
    assert(ts.push(t).drop_last() =~= ts);
}

proof fn lemma_never_negative_push(ts: Seq<SpannedToken>, t: SpannedToken)
    requires
        never_negative(ts),
        block_depth(ts) + depth_delta(t.token) >= 0,
    ensures
        never_negative(ts.push(t)),
{
    lemma_depth_push(ts, t);
    assert forall|k: int| 0 <= k <= ts.push(t).len() implies block_depth(
        #[trigger] ts.push(t).take(k),
    ) >= 0 by {
        if k <= ts.len() {
            assert(ts.push(t).take(k) =~= ts.take(k));
        } else {
            assert(ts.push(t).take(k) =~= ts.push(t));
        }
    }
}

/// Splits text into lines as `str::lines` does: on `\n`, dropping one
/// trailing `\r` from each line and the empty piece after a final `\n`.
pub open spec fn split_lines_from(
    c: Seq<char>,
    i: int,
    cur: Seq<char>,
    acc: Seq<Seq<char>>,
) -> Seq<Seq<char>>
    decreases c.len() - i,
{
    if i < 0 || i >= c.len() {
        if cur.len() == 0 {
            acc
        } else {
            acc.push(strip_cr(cur))
        }
    } else if c[i] == '\n' {
        split_lines_from(c, i + 1, Seq::empty(), acc.push(strip_cr(cur)))
    } else {
        split_lines_from(c, i + 1, cur.push(c[i]), acc)
    }
}

/// A line without its trailing `\r`, if any.
pub open spec fn strip_cr(line: Seq<char>) -> Seq<char> {
    if line.len() > 0 && line.last() == '\r' {
        line.drop_last()
    } else {
        line
    }
}

/// The lines of a text, as `str::lines` gives them.
pub open spec fn source_lines(c: Seq<char>) -> Seq<Seq<char>> {
    split_lines_from(c, 0, Seq::empty(), Seq::empty())
}

fn strip_cr_of(line: Vec<char>) -> (r: Vec<char>)
    ensures
        r@ == strip_cr(line@),
{
    let mut line = line;
    if line.len() > 0 && line[line.len() - 1] == '\r' {
        line.pop();
    }
    line
}

/// The lines of `chars`, as `str::lines` gives them.
pub fn split_lines(chars: &Vec<char>) -> (r: Vec<Vec<char>>)
    ensures
        r@.map_values(|l: Vec<char>| l@) == source_lines(chars@),
{
    let mut out: Vec<Vec<char>> = Vec::new();
    let mut cur: Vec<char> = Vec::new();
    let mut i: usize = 0;
    assert(out@.map_values(|l: Vec<char>| l@) =~= Seq::<Seq<char>>::empty());
    assert(cur@ =~= Seq::<char>::empty());
    while i < chars.len()
        invariant
            i <= chars@.len(),
            split_lines_from(chars@, i as int, cur@, out@.map_values(|l: Vec<char>| l@))
                == source_lines(chars@),
        decreases chars@.len() - i,
    {
        let ghost before = out@.map_values(|l: Vec<char>| l@);
        if chars[i] == '\n' {
            let finished = strip_cr_of(cur);
            out.push(finished);
            cur = Vec::new();
            proof {
                assert(out@.map_values(|l: Vec<char>| l@) =~= before.push(finished@));
                assert(cur@ =~= Seq::<char>::empty());
            }
        } else {
            cur.push(chars[i]);
        }
        i = i + 1;
    }
    if cur.len() > 0 {
        let ghost before = out@.map_values(|l: Vec<char>| l@);
        let finished = strip_cr_of(cur);
        out.push(finished);
        assert(out@.map_values(|l: Vec<char>| l@) =~= before.push(finished@));
    }
    out
}


proof fn lemma_digits_nonneg(s: Seq<char>)
    requires
        forall|j: int| 0 <= j < s.len() ==> is_digit(#[trigger] s[j]),
    ensures
        digits_value(s) >= 0,
    decreases s.len(),
{
    if s.len() > 0 {
        lemma_digits_nonneg(s.drop_last());
    }
}

proof fn lemma_digits_grow(s: Seq<char>, m: int)
    requires
        0 <= m < s.len(),
        forall|j: int| 0 <= j < s.len() ==> is_digit(#[trigger] s[j]),
    ensures
        digits_value(s) >= digits_value(s.take(m + 1)),
    decreases s.len(),
{
    if s.len() == m + 1 {
        assert(s.take(m + 1) =~= s);
    } else {
        lemma_digits_grow(s.drop_last(), m);
        assert(s.drop_last().take(m + 1) =~= s.take(m + 1));
        lemma_digits_nonneg(s.drop_last());
    }
}

/// The number of bytes the UTF-8 encoding of `c` takes.
pub open spec fn utf8_width(c: char) -> nat {
    if (c as u32) < 0x80 {
        1
    } else if (c as u32) < 0x800 {
        2
    } else if (c as u32) < 0x10000 {
        3
    } else {
        4
    }
}

/// The number of bytes of the UTF-8 encoding of a character sequence.
pub open spec fn utf8_len(s: Seq<char>) -> nat
    decreases s.len(),
{
    if s.len() == 0 {
        0
    } else {
        utf8_len(s.drop_last()) + utf8_width(s.last())
    }
}

/// The UTF-8 byte length of `chars` (what `str::len` reports for the
/// text), exact whenever it is at most `usize::MAX - 4`.
pub fn utf8_byte_len(chars: &[char]) -> (r: usize)
    ensures
        r <= usize::MAX - 4,
        utf8_len(chars@) <= usize::MAX - 4 ==> r == utf8_len(chars@),
{
    let mut total: usize = 0;
    let mut i: usize = 0;
    while i < chars.len()
        invariant
            i <= chars@.len(),
            total <= usize::MAX - 4,
            utf8_len(chars@.subrange(0, i as int)) <= usize::MAX - 4 ==> total == utf8_len(
                chars@.subrange(0, i as int),
            ),
        decreases chars@.len() - i,
    {
        proof {
            assert(chars@.subrange(0, i + 1).drop_last() =~= chars@.subrange(0, i as int));
        }
        let c = chars[i] as u32;
        let w: usize = if c < 0x80 {
            1
        } else if c < 0x800 {
            2
        } else if c < 0x10000 {
            3
        } else {
            4
        };
        total = if total <= usize::MAX - 4 - w {
            total + w
        } else {
            usize::MAX - 4
        };
        i = i + 1;
    }
    assert(chars@.subrange(0, chars@.len() as int) =~= chars@);
    total
}

/// The number of leading spaces of a line.
pub open spec fn leading_spaces(line: Seq<char>) -> int
    decreases line.len(),
{
    if line.len() == 0 || line[0] != ' ' {
        0
    } else {
        1 + leading_spaces(line.drop_first())
    }
}

proof fn lemma_leading_spaces(line: Seq<char>, k: int)
    requires
        0 <= k <= line.len(),
        forall|j: int| 0 <= j < k ==> line[j] == ' ',
        k == line.len() || line[k] != ' ',
    ensures
        leading_spaces(line) == k,
    decreases k,
{
    if k > 0 {
        lemma_leading_spaces(line.drop_first(), k - 1);
    }
}

fn count_leading_spaces(line: &Vec<char>) -> (r: usize)
    ensures
        r == leading_spaces(line@),
        r <= line@.len(),
        forall|j: int| 0 <= j < r ==> line@[j] == ' ',
{
    let mut k: usize = 0;
    while k < line.len() && line[k] == ' '
        invariant
            k <= line@.len(),
            forall|j: int| 0 <= j < k ==> line@[j] == ' ',
        decreases line@.len() - k,
    {
        k = k + 1;
    }
    proof {
        lemma_leading_spaces(line@, k as int);
    }
    k
}

/// A line that holds only whitespace, or whose first other character is `#`.
pub open spec fn is_skipped_line(line: Seq<char>) -> bool {
    (forall|j: int| 0 <= j < line.len() ==> is_white(#[trigger] line[j])) || exists|k: int|
        0 <= k < line.len() && line[k] == '#' && forall|j: int|
            0 <= j < k ==> is_white(#[trigger] line[j])
}

fn skipped_line(line: &Vec<char>) -> (r: bool)
    ensures
        r == is_skipped_line(line@),
{
    let mut k: usize = 0;
    while k < line.len() && white(line[k])
        invariant
            k <= line@.len(),
            forall|j: int| 0 <= j < k ==> is_white(#[trigger] line@[j]),
        decreases line@.len() - k,
    {
        k = k + 1;
    }
    if k == line.len() {
        true
    } else if line[k] == '#' {
        assert(line@[k as int] == '#');
        true
    } else {
        proof {
            assert forall|m: int|
                0 <= m < line@.len() && line@[m] == '#' implies !(forall|j: int|
                0 <= j < m ==> is_white(#[trigger] line@[j])) by {
                if m > k {
                    assert(!is_white(line@[k as int]));
                }
            }
        }
        false
    }
}

fn has_tab(line: &Vec<char>) -> (r: bool)
    ensures
        r == line@.contains('\t'),
{
    let mut k: usize = 0;
    while k < line.len()
        invariant
            k <= line@.len(),
            forall|j: int| 0 <= j < k ==> line@[j] != '\t',
        decreases line@.len() - k,
    {
        if line[k] == '\t' {
            assert(line@[k as int] == '\t');
            return true;
        }
        k = k + 1;
    }
    false
}

/// Turns a source file into tokens.
pub struct Lexer {
    path: String,
    source: Vec<char>,
}

impl Lexer {
    /// A lexer for `source`, read from `path`.
    pub fn new(path: &str, source: &str) -> (r: Self)
        ensures
            r.path_view() == path@,
            r.source_view() == source@,
    {
        Lexer { path: String::from_str(path), source: chars_of(source) }
    }

    /// The path diagnostics and spans name.
    pub closed spec fn path_view(&self) -> Seq<char> {
        self.path@
    }

    /// The characters being lexed.
    pub closed spec fn source_view(&self) -> Seq<char> {
        self.source@
    }

    fn span_at(&self, line: usize, column: usize) -> (r: SourceSpan)
        ensures
            r.path@ == self.path@,
            r.line == line,
            r.column == column,
    {
        SourceSpan::new(self.path.as_str(), line, column)
    }

    fn simple_token(&self, token: Token, line: usize, column: usize) -> (r: SpannedToken)
        ensures
            r.token == token,
            r.span.line == line,
            r.span.column == column,
            r.span.path@ == self.path@,
    {
        SpannedToken { token, span: self.span_at(line, column) }
    }

    fn lex_error(&self, line: usize, column: usize, message: String) -> (r: Diagnostic)
        ensures
            r.phase == Phase::Lex,
            r.span.line == line,
            r.span.column == column,
            r.message == message,
    {
        Diagnostic::new(self.span_at(line, column), Phase::Lex, message)
    }

    /// Decodes the text literal whose opening quote is at `start`: the text
    /// and the position after the closing quote.
    fn lex_string(&self, line_number: usize, chars: &Vec<char>, start: usize) -> (r: Result<
        (String, usize),
        String,
    >)
        requires
            start < chars@.len(),
            chars@[start as int] == '"',
        ensures
            match r {
                Ok((value, next)) => scan_text(chars@, start + 1, Seq::empty()) == Some(
                    (value@, next as int),
                ),
                Err(_) => scan_text(chars@, start + 1, Seq::empty()) is None,
            },
    {
        let n = chars.len();
        let mut value = String::new();
        let mut index: usize = start + 1;
        assert(value@ =~= Seq::<char>::empty());
        while index < chars.len()
            invariant
                start < index,
                n == chars@.len(),
                scan_text(chars@, start + 1, Seq::empty()) == scan_text(
                    chars@,
                    index as int,
                    value@,
                ),
            decreases chars@.len() - index,
        {
            let ch = chars[index];
            if ch == '"' {
                return Ok((value, index + 1));
            } else if ch == '\\' {
                index = index + 1;
                if index >= chars.len() {
                    let mut m = String::from_str("unterminated escape sequence on line ");
                    let n = u64_text(line_number as u64);
                    m.append(n.as_str());
                    return Err(m);
                }
                let escaped = chars[index];
                if escaped == 'n' {
                    push_char(&mut value, '\n');
                } else if escaped == 't' {
                    push_char(&mut value, '\t');
                } else if escaped == '"' {
                    push_char(&mut value, '"');
                } else if escaped == '\\' {
                    push_char(&mut value, '\\');
                } else {
                    let mut m = String::from_str("unsupported escape `\\");
                    push_char(&mut m, escaped);
                    m.append("`");
                    return Err(m);
                }
                index = index + 1;
            } else {
                push_char(&mut value, ch);
                index = index + 1;
            }
        }
        Err(String::from_str("unterminated string literal"))
    }

    /// Scans the number literal starting at `start`: the token and the
    /// position after it, or `None` when an integer literal does not fit `i64`.
    fn lex_number(&self, chars: &Vec<char>, start: usize) -> (r: Option<(Token, usize)>)
        requires
            start < chars@.len(),
            is_digit(chars@[start as int]),
        ensures
            match r {
                Some((token, next)) => {
                    &&& next == number_end(chars@, start as int, false)
                    &&& if number_has_dot(chars@, start as int, false) {
                        token matches Token::DecLiteral(s) && s@ == chars@.subrange(
                            start as int,
                            next as int,
                        )
                    } else {
                        token == Token::IntLiteral(
                            digits_value(chars@.subrange(start as int, next as int)) as i64,
                        ) && digits_value(chars@.subrange(start as int, next as int))
                            <= i64::MAX
                    }
                },
                None => !number_has_dot(chars@, start as int, false) && digits_value(
                    chars@.subrange(start as int, number_end(chars@, start as int, false)),
                ) > i64::MAX,
            },
    {
        let mut index: usize = start;
        let mut saw_dot = false;
        let mut scanning = true;
        while scanning && index < chars.len()
            invariant
                start <= index <= chars@.len(),
                number_end(chars@, start as int, false) == number_end(
                    chars@,
                    index as int,
                    saw_dot,
                ),
                number_has_dot(chars@, start as int, false) == number_has_dot(
                    chars@,
                    index as int,
                    saw_dot,
                ),
                !scanning ==> number_end(chars@, index as int, saw_dot) == index,
                !scanning ==> number_has_dot(chars@, index as int, saw_dot) == saw_dot,
                !saw_dot ==> forall|j: int| start <= j < index ==> is_digit(#[trigger] chars@[j]),
            decreases chars@.len() - index + (if scanning { 1int } else { 0int }),
        {
            let ch = chars[index];
            if digit(ch) {
                index = index + 1;
            } else if ch == '.' && !saw_dot && index + 1 < chars.len() && digit(chars[index + 1]) {
                saw_dot = true;
                index = index + 1;
            } else {
                scanning = false;
            }
        }
        assert(number_end(chars@, start as int, false) == index);
        assert(number_has_dot(chars@, start as int, false) == saw_dot);
        if saw_dot {
            let lexeme = text_of_range(chars, start, index);
            Some((Token::DecLiteral(lexeme), index))
        } else {
            let mut value: i64 = 0;
            let mut k: usize = start;
            while k < index
                invariant
                    start <= k <= index <= chars@.len(),
                    number_end(chars@, start as int, false) == index,
                    !number_has_dot(chars@, start as int, false),
                    forall|j: int| start <= j < index ==> is_digit(#[trigger] chars@[j]),
                    value == digits_value(chars@.subrange(start as int, k as int)),
                    0 <= value,
                decreases index - k,
            {
                assert(chars@.subrange(start as int, k + 1).drop_last() =~= chars@.subrange(
                    start as int,
                    k as int,
                ));
                assert(is_digit(chars@[k as int]));
                let d = (chars[k] as u32 - '0' as u32) as i64;
                assert(d == digit_value(chars@[k as int]));
                if value > (i64::MAX - d) / 10 {
                    proof {
                        assert(value * 10 + d > i64::MAX) by (nonlinear_arith)
                            requires
                                value > (i64::MAX - d) / 10,
                                0 <= d < 10,
                                value >= 0,
                        ;
                        let sub = chars@.subrange(start as int, index as int);
                        assert forall|j: int| 0 <= j < sub.len() implies is_digit(#[trigger] sub[j]) by {
                            assert(sub[j] == chars@[start + j]);
                        }
                        lemma_digits_grow(sub, (k - start) as int);
                        assert(chars@.subrange(start as int, index as int).take(k - start + 1)
                            =~= chars@.subrange(start as int, k + 1));
                    }
                    return None;
                }
                value = value * 10 + d;
                k = k + 1;
            }
            Some((Token::IntLiteral(value), index))
        }
    }

    /// Scans the identifier starting at `start`: its text and the position
    /// after it.
    fn lex_identifier(&self, chars: &Vec<char>, start: usize) -> (r: (String, usize))
        requires
            start <= chars@.len(),
        ensures
            r.1 == ident_end(chars@, start as int),
            r.0@ == chars@.subrange(start as int, r.1 as int),
    {
        let mut index: usize = start;
        while index < chars.len() && ident_continue(chars[index])
            invariant
                start <= index <= chars@.len(),
                ident_end(chars@, start as int) == ident_end(chars@, index as int),
            decreases chars@.len() - index,
        {
            index = index + 1;
        }
        (text_of_range(chars, start, index), index)
    }

    /// Appends one token produced from inside a line.
    fn push_line_token(tokens: &mut Vec<SpannedToken>, t: SpannedToken)
        requires
            is_line_token(t.token),
        ensures
            final(tokens)@ == old(tokens)@.push(t),
            block_depth(final(tokens)@) == block_depth(old(tokens)@),
            never_negative(old(tokens)@) ==> never_negative(final(tokens)@),
            no_eof(old(tokens)@) ==> no_eof(final(tokens)@),
    {
        proof {
            lemma_depth_push(old(tokens)@, t);
            if never_negative(old(tokens)@) {
                assert(old(tokens)@.take(old(tokens)@.len() as int) =~= old(tokens)@);
                lemma_never_negative_push(old(tokens)@, t);
            }
        }
        tokens.push(t);
    }

    /// Lexes the content of one line, from column `indent + 1`, appending its
    /// tokens (no layout tokens); stops at the first lexical error, which it
    /// appends to `diagnostics`.
    fn lex_line(
        &self,
        line_number: usize,
        chars: &Vec<char>,
        indent: usize,
        tokens: &mut Vec<SpannedToken>,
        diagnostics: &mut Vec<Diagnostic>,
    )
        requires
            indent <= chars@.len(),
        ensures
            !scan_fails(chars@, indent as int) ==> final(diagnostics)@ == old(diagnostics)@ && scans_to(
                chars@,
                indent as int,
                tokens_of(final(tokens)@.subrange(old(tokens)@.len() as int, final(tokens)@.len() as int)),
            ),
            scan_fails(chars@, indent as int) ==> final(diagnostics)@.len() == old(diagnostics)@.len() + 1,
            final(diagnostics)@.subrange(0, old(diagnostics)@.len() as int) == old(diagnostics)@,
            forall|i: int|
                old(tokens)@.len() <= i < final(tokens)@.len() ==> (#[trigger] final(tokens)@[i]).span.line == line_number
                    && final(tokens)@[i].span.path@ == self.path@ && indent < final(tokens)@[i].span.column <= chars@.len(),
            old(tokens)@.len() <= final(tokens)@.len(),
            final(tokens)@.subrange(0, old(tokens)@.len() as int) == old(tokens)@,
            forall|i: int|
                old(tokens)@.len() <= i < final(tokens)@.len() ==> is_line_token(
                    #[trigger] final(tokens)@[i].token,
                ),
            block_depth(final(tokens)@) == block_depth(old(tokens)@),
            never_negative(old(tokens)@) ==> never_negative(final(tokens)@),
            no_eof(old(tokens)@) ==> no_eof(final(tokens)@),
            all_in_phase(old(diagnostics)@, Phase::Lex) ==> all_in_phase(
                final(diagnostics)@,
                Phase::Lex,
            ),
    {
        let mut index: usize = indent;
        let ghost start_len = tokens@.len();
        let ghost c = chars@;
        let ghost produced: Seq<Token> = Seq::empty();
        proof {
            assert(tokens@.subrange(start_len as int, tokens@.len() as int) =~= Seq::<SpannedToken>::empty());
            assert(tokens_of(tokens@.subrange(start_len as int, tokens@.len() as int)) =~= produced);
        }
        while index < chars.len()
            invariant
                index <= chars@.len(),
                indent <= index,
                c == chars@,
                start_len == old(tokens)@.len(),
                diagnostics@ == old(diagnostics)@,
                forall|i: int|
                    old(tokens)@.len() <= i < tokens@.len() ==> (#[trigger] tokens@[i]).span.line == line_number
                        && tokens@[i].span.path@ == self.path@ && indent < tokens@[i].span.column <= chars@.len(),
                tokens_of(tokens@.subrange(start_len as int, tokens@.len() as int)) == produced,
                scan_fails(c, indent as int) == scan_fails(c, index as int),
                forall|ts: Seq<Token>| scans_to(c, index as int, ts) ==> scans_to(c, indent as int, produced + ts),
                old(tokens)@.len() <= tokens@.len(),
                tokens@.subrange(0, old(tokens)@.len() as int) == old(tokens)@,
                forall|i: int|
                    old(tokens)@.len() <= i < tokens@.len() ==> is_line_token(
                        #[trigger] tokens@[i].token,
                    ),
                block_depth(tokens@) == block_depth(old(tokens)@),
                never_negative(old(tokens)@) ==> never_negative(tokens@),
                no_eof(old(tokens)@) ==> no_eof(tokens@),
                all_in_phase(old(diagnostics)@, Phase::Lex) ==> all_in_phase(
                    diagnostics@,
                    Phase::Lex,
                ),
            ensures
                index >= chars@.len() || chars@[index as int] == '#',
            decreases chars@.len() - index,
        {
            let column = index + 1;
            let ch = chars[index];
            let ghost i0 = index as int;
            if ch == '#' {
                break;
            }
            if white(ch) {
                index = index + 1;
                proof {
                    assert forall|ts: Seq<Token>| scans_to(c, index as int, ts) implies scans_to(c, indent as int, produced + ts) by {
                        assert(scans_to(c, i0, ts));
                    }
                }
                continue;
            }
            let mut token: Option<Token> = None;
            if index + 1 < chars.len() {
                token = two_char(ch, chars[index + 1]);
            }
            if token.is_some() {
                index = index + 2;
            } else {
                token = one_char(ch);
                if token.is_some() {
                    index = index + 1;
                } else if ch == '"' {
                    match self.lex_string(line_number, chars, index) {
                        Ok((value, next)) => {
                            proof {
                                lemma_scan_text_advances(chars@, index + 1, Seq::empty());
                            }
                            index = next;
                            token = Some(Token::StringLiteral(value));
                        },
                        Err(message) => {
                            let d = self.lex_error(line_number, column, message);
                            diagnostics.push(d);
                            return ;
                        },
                    }
                } else if digit(ch) {
                    match self.lex_number(chars, index) {
                        Some((t, next)) => {
                            proof {
                                lemma_number_end_advances(chars@, index as int, false);
                            }
                            index = next;
                            token = Some(t);
                        },
                        None => {
                            let d = self.lex_error(
                                line_number,
                                column,
                                String::from_str("integer literal does not fit in `Int`"),
                            );
                            diagnostics.push(d);
                            return ;
                        },
                    }
                } else if ident_start(ch) {
                    let (ident, next) = self.lex_identifier(chars, index);
                    proof {
                        lemma_ident_end_advances(chars@, index as int);
                    }
                    index = next;
                    token = Some(keyword_or_ident(ident));
                } else {
                    let mut m = String::from_str("unexpected character `");
                    push_char(&mut m, ch);
                    m.append("`");
                    let d = self.lex_error(line_number, column, m);
                    diagnostics.push(d);
                    return ;
                }
            }
            match token {
                Some(t) => {
                    proof {
                        assert forall|ts: Seq<Token>| scans_to(c, index as int, ts) implies scans_to(
                            c,
                            indent as int,
                            produced.push(t) + ts,
                        ) by {
                            let whole = seq![t] + ts;
                            assert(whole.drop_first() =~= ts);
                            assert(whole[0] == t);
                            assert(scans_to(c, i0, whole));
                            assert(produced + whole =~= produced.push(t) + ts);
                        }
                    }
                    let st = self.simple_token(t, line_number, column);
                    let ghost before = tokens@;
                    Self::push_line_token(tokens, st);
                    assert(tokens@.subrange(0, old(tokens)@.len() as int) =~= before.subrange(
                        0,
                        old(tokens)@.len() as int,
                    ));
                    proof {
                        assert(tokens@.subrange(start_len as int, tokens@.len() as int) =~= before.subrange(
                            start_len as int,
                            before.len() as int,
                        ).push(st));
                        assert(tokens_of(tokens@.subrange(start_len as int, tokens@.len() as int)) =~= produced.push(t));
                        produced = produced.push(t);
                    }
                },
                None => {},
            }
        }
        proof {
            assert(scans_to(c, index as int, Seq::empty()));
            assert(produced + Seq::<Token>::empty() =~= produced);
        }
    }

    /// Turns the source into tokens. Each non-blank, non-comment line ends
    /// with `Newline`; a deeper indentation opens a block with `Indent`, a
    /// shallower one closes blocks with `Dedent`s, and the stream ends with
    /// the closing `Dedent`s and `Eof`.
    #[verifier::rlimit(100)]
    pub fn tokenize(&self) -> (r: Result<Vec<SpannedToken>, Vec<Diagnostic>>)
        ensures
            match r {
                Ok(tokens) => well_formed_stream(tokens@),
                Err(diagnostics) => failure_of(diagnostics@, Phase::Lex),
            },
            (exists|k: int| 0 <= k < source_lines(self.source_view()).len() && line_refused(
                #[trigger] source_lines(self.source_view())[k],
            )) ==> r is Err,
            r matches Ok(tokens) ==> stream_from(source_lines(self.source_view()), 0, seq![0usize], tokens_of(tokens@)),
            r matches Ok(tokens) ==> forall|i: int|
                0 <= i < tokens@.len() ==> (#[trigger] tokens@[i]).span.path@ == self.path_view() && 1 <= tokens@[i].span.line
                    <= (if source_lines(self.source_view()).len() > 1 {
                    source_lines(self.source_view()).len()
                } else {
                    1
                }),
            (forall|k: int| 0 <= k < source_lines(self.source_view()).len() ==> !line_refused(
                #[trigger] source_lines(self.source_view())[k],
            )) && layout_fits(source_lines(self.source_view()), 0, seq![0usize]) ==> r is Ok,
            (exists|k: int| 0 <= k < source_lines(self.source_view()).len() && (#[trigger] source_lines(
                self.source_view(),
            )[k]).contains('\t')) ==> (r matches Err(ds) && exists|j: int|
                0 <= j < ds@.len() && (#[trigger] ds@[j]).message@ == "tab indentation is not supported"@),
    {
        let lines = split_lines(&self.source);
        assert(self.source@ == self.source_view());
        let ghost ls = source_lines(self.source_view());
        proof {
            assert forall|j: int| 0 <= j < lines@.len() implies (#[trigger] lines@[j])@ == ls[j] by {
                assert(lines@.map_values(|l: Vec<char>| l@)[j] == lines@[j]@);
            }
        }
        let mut tokens: Vec<SpannedToken> = Vec::new();
        let mut diagnostics: Vec<Diagnostic> = Vec::new();
        let mut indent_stack: Vec<usize> = Vec::new();
        indent_stack.push(0);
        let mut li: usize = 0;
        let ghost mut produced: Seq<Token> = Seq::empty();
        proof {
            assert forall|k: int| 0 <= k <= tokens@.len() implies block_depth(
                #[trigger] tokens@.take(k),
            ) >= 0 by {
                assert(tokens@.take(k) =~= Seq::<SpannedToken>::empty());
            }
            assert(tokens_of(tokens@) =~= produced);
            assert(indent_stack@ =~= seq![0usize]);
            assert forall|rest: Seq<Token>| stream_from(ls, 0, indent_stack@, rest) implies stream_from(
                ls,
                0,
                seq![0usize],
                produced + rest,
            ) by {
                assert(produced + rest =~= rest);
            }
        }
        let ghost good = (forall|k: int| 0 <= k < ls.len() ==> !line_refused(#[trigger] ls[k])) && layout_fits(
            ls,
            0,
            seq![0usize],
        );
        while li < lines.len()
            invariant
                good == ((forall|k: int| 0 <= k < ls.len() ==> !line_refused(#[trigger] ls[k])) && layout_fits(
                    ls,
                    0,
                    seq![0usize],
                )),
                good ==> diagnostics@.len() == 0 && layout_fits(ls, li as int, indent_stack@),
                forall|i: int|
                    0 <= i < tokens@.len() ==> (#[trigger] tokens@[i]).span.path@ == self.path@ && 1 <= tokens@[i].span.line
                        <= lines@.len(),
                (exists|k: int| 0 <= k < li && (#[trigger] ls[k]).contains('\t')) ==> exists|j: int|
                    0 <= j < diagnostics@.len() && (#[trigger] diagnostics@[j]).message@ == "tab indentation is not supported"@,
                indent_stack@.len() >= 1,
                indent_stack@[0] == 0,
                block_depth(tokens@) == indent_stack@.len() - 1,
                never_negative(tokens@),
                no_eof(tokens@),
                all_in_phase(diagnostics@, Phase::Lex),
                li <= lines@.len(),
                lines@.len() == ls.len(),
                ls == source_lines(self.source_view()),
                lines@.map_values(|l: Vec<char>| l@) == source_lines(self.source_view()),
                forall|j: int| 0 <= j < lines@.len() ==> (#[trigger] lines@[j])@ == ls[j],
                (exists|k: int| 0 <= k < li && line_refused(#[trigger] lines@[k]@)) ==> diagnostics@.len() > 0,
                tokens_of(tokens@) == produced,
                diagnostics@.len() == 0 ==> forall|rest: Seq<Token>| stream_from(ls, li as int, indent_stack@, rest)
                    ==> stream_from(ls, 0, seq![0usize], produced + rest),
            decreases lines@.len() - li,
        {
            let line = &lines[li];
            let line_number = li + 1;
            proof {
                assert forall|k: int| 0 <= k < li + 1 && line_refused(#[trigger] lines@[k]@) implies k < li || line_refused(
                    line@,
                ) by {}
            }
            if has_tab(line) {
                let d = self.lex_error(
                    line_number,
                    1,
                    String::from_str("tab indentation is not supported"),
                );
                diagnostics.push(d);
                proof {
                    assert(diagnostics@[diagnostics@.len() - 1].message@ == "tab indentation is not supported"@);
                }
                li = li + 1;
                continue;
            }
            proof {
                assert(!ls[li as int].contains('\t'));
                if exists|k: int| 0 <= k < li + 1 && (#[trigger] ls[k]).contains('\t') {
                    let k = choose|k: int| 0 <= k < li + 1 && (#[trigger] ls[k]).contains('\t');
                    assert(k < li);
                }
            }
            if skipped_line(line) {
                proof {
                    assert(is_skipped_line(ls[li as int]));
                    if diagnostics@.len() == 0 {
                        assert forall|rest: Seq<Token>| stream_from(ls, li + 1, indent_stack@, rest) implies stream_from(
                            ls,
                            0,
                            seq![0usize],
                            produced + rest,
                        ) by {
                            assert(stream_from(ls, li as int, indent_stack@, rest));
                        }
                    }
                }
                li = li + 1;
                continue;
            }
            let ghost stack0 = indent_stack@;
            let ghost produced0 = produced;
            let indent = count_leading_spaces(line);
            let top = indent_stack[indent_stack.len() - 1];
            if indent > top {
                indent_stack.push(indent);
                let t = self.simple_token(Token::Indent, line_number, 1);
                proof {
                    lemma_depth_push(tokens@, t);
                    lemma_never_negative_push(tokens@, t);
                    lemma_no_eof_push(tokens@, t);
                }
                let ghost before = tokens@;
                tokens.push(t);
                proof {
                    assert(tokens_of(tokens@) =~= tokens_of(before).push(Token::Indent));
                    produced = produced.push(Token::Indent);
                    assert(indent_stack@ == stack0.push(indent));
                }
            } else if indent < top {
                while indent < indent_stack[indent_stack.len() - 1]
                    invariant
                        indent_stack@.len() >= 1,
                        indent_stack@[0] == 0,
                        block_depth(tokens@) == indent_stack@.len() - 1,
                        never_negative(tokens@),
                        no_eof(tokens@),
                        indent_stack@.len() <= stack0.len(),
                        pop_levels(indent_stack@, indent as int) == pop_levels(stack0, indent as int),
                        line_number == li + 1,
                        li < lines@.len(),
                        forall|i: int|
                            0 <= i < tokens@.len() ==> (#[trigger] tokens@[i]).span.path@ == self.path@ && 1
                                <= tokens@[i].span.line <= lines@.len(),
                        tokens_of(tokens@) == produced,
                        produced == produced0 + dedents(stack0.len() - indent_stack@.len()),
                    decreases indent_stack@.len(),
                {
                    let ghost s_before = indent_stack@;
                    indent_stack.pop();
                    proof {
                        assert(s_before.len() > 1);
                        assert(s_before.drop_last() =~= indent_stack@);
                    }
                    let t = self.simple_token(Token::Dedent, line_number, 1);
                    proof {
                        lemma_depth_push(tokens@, t);
                        lemma_never_negative_push(tokens@, t);
                        lemma_no_eof_push(tokens@, t);
                    }
                    let ghost before = tokens@;
                    tokens.push(t);
                    proof {
                        assert(tokens_of(tokens@) =~= tokens_of(before).push(Token::Dedent));
                        assert(dedents(stack0.len() - indent_stack@.len()) =~= dedents(stack0.len() - s_before.len()).push(
                            Token::Dedent,
                        ));
                        produced = produced.push(Token::Dedent);
                        assert(produced =~= produced0 + dedents(stack0.len() - indent_stack@.len()));
                    }
                }
                if indent != indent_stack[indent_stack.len() - 1] {
                    let d = self.lex_error(
                        line_number,
                        1,
                        String::from_str("indentation does not match any prior block level"),
                    );
                    let ghost dbefore = diagnostics@;
                    diagnostics.push(d);
                    proof {
                        if exists|k: int| 0 <= k < li && (#[trigger] ls[k]).contains('\t') {
                            let j = choose|j: int|
                                0 <= j < dbefore.len() && (#[trigger] dbefore[j]).message@ == "tab indentation is not supported"@;
                            assert(diagnostics@[j] == dbefore[j]);
                        }
                    }
                    li = li + 1;
                    continue;
                }
                proof {
                    assert(pop_levels(indent_stack@, indent as int) == indent_stack@);
                    assert(indent_stack@ == pop_levels(stack0, indent as int));
                }
            } else {
                proof {
                    assert(dedents(0) =~= Seq::<Token>::empty());
                    assert(produced =~= produced0 + dedents(stack0.len() - indent_stack@.len()));
                    assert(pop_levels(stack0, indent as int) == stack0);
                }
            }
            let ghost deeper = indent > top;
            proof {
                assert(ls[li as int] == line@);
                assert(leading_spaces(ls[li as int]) == indent);
                assert(stack0.last() == top);
                assert(!is_skipped_line(ls[li as int]));
            }
            let ghost opening = produced.subrange(produced0.len() as int, produced.len() as int);
            proof {
                assert(produced =~= produced0 + opening);
                if deeper {
                    assert(opening =~= seq![Token::Indent]);
                } else {
                    assert(opening =~= dedents(stack0.len() - pop_levels(stack0, indent as int).len()));
                    assert(indent_stack@ == pop_levels(stack0, indent as int));
                    assert(indent_stack@.last() == indent);
                }
            }
            let ghost mid = tokens@.len();
            let ghost before_lex = tokens@;
            self.lex_line(line_number, line, indent, &mut tokens, &mut diagnostics);
            proof {
                assert forall|i: int| 0 <= i < tokens@.len() implies (#[trigger] tokens@[i]).span.path@ == self.path@ && 1
                    <= tokens@[i].span.line <= lines@.len() by {
                    if i < mid {
                        assert(tokens@.subrange(0, mid as int)[i] == before_lex[i]);
                    }
                }
            }
            let ghost line_tokens = tokens_of(tokens@.subrange(mid as int, tokens@.len() as int));
            proof {
                if diagnostics@.len() == 0 {
                    assert(!scan_fails(line@, indent as int));
                    assert(scans_to(ls[li as int], indent as int, line_tokens));
                }
                assert(tokens_of(tokens@) =~= tokens_of(tokens@.subrange(0, mid as int)) + line_tokens);
                assert(tokens@.subrange(0, mid as int) =~= tokens@.subrange(0, mid as int));
                produced = produced + line_tokens;
            }
            let width = utf8_byte_len(line.as_slice());
            let t = self.simple_token(Token::Newline, line_number, width + 1);
            proof {
                lemma_depth_push(tokens@, t);
                lemma_never_negative_push(tokens@, t);
                lemma_no_eof_push(tokens@, t);
            }
            let ghost before = tokens@;
            tokens.push(t);
            proof {
                assert(tokens_of(tokens@) =~= tokens_of(before).push(Token::Newline));
                produced = produced.push(Token::Newline);
                if diagnostics@.len() == 0 {
                    let line_s = ls[li as int];
                    assert(line_s == line@);
                    assert forall|rest: Seq<Token>| stream_from(ls, li + 1, indent_stack@, rest) implies stream_from(
                        ls,
                        0,
                        seq![0usize],
                        produced + rest,
                    ) by {
                        let ts = opening + line_tokens + seq![Token::Newline] + rest;
                        let k: int = (opening.len() + line_tokens.len()) as int;
                        assert(ts.take(opening.len() as int) =~= opening);
                        assert(ts[k] == Token::Newline);
                        assert(ts.subrange(opening.len() as int, k) =~= line_tokens);
                        assert(ts.skip(k + 1) =~= rest);
                        assert(stream_from(ls, li as int, stack0, ts));
                        assert(produced0 + ts =~= produced + rest);
                    }
                }
            }
            li = li + 1;
        }
        let line_count = lines.len();
        let last_line = if line_count > 1 {
            line_count
        } else {
            1
        };
        let ghost stack_end = indent_stack@;
        let ghost produced_end = produced;
        while indent_stack.len() > 1
            invariant
                indent_stack@.len() >= 1,
                block_depth(tokens@) == indent_stack@.len() - 1,
                never_negative(tokens@),
                no_eof(tokens@),
                indent_stack@.len() <= stack_end.len(),
                tokens_of(tokens@) == produced,
                produced == produced_end + dedents(stack_end.len() - indent_stack@.len()),
                last_line == (if lines@.len() > 1 {
                    lines@.len()
                } else {
                    1
                }),
                forall|i: int|
                    0 <= i < tokens@.len() ==> (#[trigger] tokens@[i]).span.path@ == self.path@ && 1 <= tokens@[i].span.line
                        <= last_line,
            decreases indent_stack@.len(),
        {
            let ghost s_before = indent_stack@;
            indent_stack.pop();
            let t = self.simple_token(Token::Dedent, last_line, 1);
            proof {
                lemma_depth_push(tokens@, t);
                lemma_never_negative_push(tokens@, t);
                lemma_no_eof_push(tokens@, t);
            }
            let ghost before = tokens@;
            tokens.push(t);
            proof {
                assert(tokens_of(tokens@) =~= tokens_of(before).push(Token::Dedent));
                assert(dedents(stack_end.len() - indent_stack@.len()) =~= dedents(stack_end.len() - s_before.len()).push(
                    Token::Dedent,
                ));
                produced = produced.push(Token::Dedent);
                assert(produced =~= produced_end + dedents(stack_end.len() - indent_stack@.len()));
            }
        }
        let eof = self.simple_token(Token::Eof, last_line, 1);
        proof {
            lemma_depth_push(tokens@, eof);
            lemma_never_negative_push(tokens@, eof);
        }
        let ghost before = tokens@;
        tokens.push(eof);
        assert(tokens@.drop_last() =~= before);
        proof {
            assert(tokens_of(tokens@) =~= tokens_of(before).push(Token::Eof));
            if diagnostics@.len() == 0 {
                let rest = dedents(stack_end.len() - 1).push(Token::Eof);
                assert(stream_from(ls, li as int, stack_end, rest));
                assert(produced_end + rest =~= tokens_of(tokens@));
            }
            assert forall|k: int| 0 <= k < source_lines(self.source_view()).len() && line_refused(
                #[trigger] source_lines(self.source_view())[k],
            ) implies diagnostics@.len() > 0 by {
                assert(line_refused(lines@[k]@));
            }
        }
        let ghost tabbed = exists|k: int| 0 <= k < source_lines(self.source_view()).len() && (#[trigger] source_lines(
            self.source_view(),
        )[k]).contains('\t');
        proof {
            assert(tabbed ==> exists|j: int|
                0 <= j < diagnostics@.len() && (#[trigger] diagnostics@[j]).message@ == "tab indentation is not supported"@) by {
                if tabbed {
                    let k = choose|k: int| 0 <= k < source_lines(self.source_view()).len() && (#[trigger] source_lines(
                        self.source_view(),
                    )[k]).contains('\t');
                    assert(ls[k].contains('\t'));
                }
            }
        }
        if diagnostics.len() == 0 {
            Ok(tokens)
        } else {
            let r: Result<Vec<SpannedToken>, Vec<Diagnostic>> = Err(diagnostics);
            proof {
                assert(tabbed ==> (r matches Err(ds) && exists|j: int|
                    0 <= j < ds@.len() && (#[trigger] ds@[j]).message@ == "tab indentation is not supported"@));
            }
            r
        }
    }
}

/// No token of the sequence is `Eof`.
pub open spec fn no_eof(ts: Seq<SpannedToken>) -> bool {
    forall|i: int| 0 <= i < ts.len() ==> !(#[trigger] ts[i].token matches Token::Eof)
}

proof fn lemma_no_eof_push(ts: Seq<SpannedToken>, t: SpannedToken)
    requires
        no_eof(ts),
        !(t.token matches Token::Eof),
    ensures
        no_eof(ts.push(t)),
{
    assert forall|i: int| 0 <= i < ts.push(t).len() implies !(#[trigger] ts.push(t)[i].token matches Token::Eof) by {
        if i < ts.len() {
            assert(ts.push(t)[i] == ts[i]);
        }
    }
}

proof fn lemma_scan_text_advances(c: Seq<char>, i: int, acc: Seq<char>)
    requires
        0 <= i,
        scan_text(c, i, acc) is Some,
    ensures
        i < scan_text(c, i, acc).unwrap().1 <= c.len(),
    decreases c.len() - i,
{
    if i < c.len() && c[i] != '"' {
        if c[i] == '\\' {
            lemma_scan_text_advances(c, i + 2, acc.push(escape_of(c[i + 1]).unwrap()));
        } else {
            lemma_scan_text_advances(c, i + 1, acc.push(c[i]));
        }
    }
}

proof fn lemma_number_end_advances(c: Seq<char>, i: int, saw_dot: bool)
    requires
        0 <= i < c.len(),
        is_digit(c[i]),
    ensures
        i < number_end(c, i, saw_dot) <= c.len(),
    decreases c.len() - i,
{
    lemma_number_end_bound(c, i + 1, saw_dot);
}

proof fn lemma_number_end_bound(c: Seq<char>, i: int, saw_dot: bool)
    requires
        0 <= i <= c.len(),
    ensures
        i <= number_end(c, i, saw_dot) <= c.len(),
    decreases c.len() - i,
{
    if i < c.len() {
        if is_digit(c[i]) {
            lemma_number_end_bound(c, i + 1, saw_dot);
        } else if c[i] == '.' && !saw_dot && i + 1 < c.len() && is_digit(c[i + 1]) {
            lemma_number_end_bound(c, i + 1, true);
        }
    }
}

proof fn lemma_ident_end_advances(c: Seq<char>, i: int)
    requires
        0 <= i < c.len(),
        is_ident_start(c[i]),
    ensures
        i < ident_end(c, i) <= c.len(),
    decreases c.len() - i,
{
    lemma_ident_end_bound(c, i + 1);
}

proof fn lemma_ident_end_bound(c: Seq<char>, i: int)
    requires
        0 <= i <= c.len(),
    ensures
        i <= ident_end(c, i) <= c.len(),
    decreases c.len() - i,
{
    if i < c.len() && is_ident_continue(c[i]) {
        lemma_ident_end_bound(c, i + 1);
    }
}

/// The keyword token spelled by `ident`, or an identifier token holding it.
pub fn keyword_or_ident(ident: String) -> (r: Token)
    ensures
        word_token(ident@, r),
{
    match keyword(ident.as_str()) {
        Some(t) => t,
        None => Token::Identifier(ident),
    }
}

} // verus!
