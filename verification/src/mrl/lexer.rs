//! The lexer of MRL source: the source's bytes cut into tokens by longest
//! match, a keyword winning over an identifier of the same length, blanks
//! (spaces and tabs) skipped between tokens, and an end-of-file token last.
//! Where no token starts, lexing fails with the span of the one character
//! found there.

use vstd::prelude::*;
use vstd::utf8::*;
use vstd::string::StringSliceAdditionalSpecFns;
use crate::mrl::error::{MrlError, Span};
use crate::util::text::{push_str, str_eq, to_owned_string};
use crate::util::utf8::{lemma_ascii_boundaries, slice_text, text_between};

verus! {

broadcast use vstd::utf8::is_char_boundary_iff_not_is_continuation_byte, vstd::utf8::is_char_boundary_start_end_of_seq;

/// Tokens for the MRL language.
#[derive(Debug, Clone, PartialEq)]
pub enum Token {
    // Keywords
    Def,
    Staged,
    Show,
    /// The keyword `set`.
    SetKw,
    Live,
    Quote,
    Splice,
    If,
    Else,
    For,
    In,
    Where,
    True,
    False,
    /// The keyword `none`.
    NoneLit,
    // Identifiers and literals
    Identifier(String),
    /// An integer literal; `None` when it does not fit in an `i64`.
    IntLiteral(Option<i64>),
    /// A float literal, as its decimal text.
    FloatLiteral(String),
    /// A string literal: the text between the quotes, escapes kept as written.
    StringLiteral(String),
    /// A symbol literal: the name after the quote mark.
    SymbolLiteral(String),
    // Operators
    Plus,
    Minus,
    Star,
    Slash,
    Percent,
    EqEq,
    NotEq,
    Lt,
    Le,
    Gt,
    Ge,
    AndAnd,
    OrOr,
    Bang,
    PlusPlus,
    // Delimiters
    LParen,
    RParen,
    LBracket,
    RBracket,
    LBrace,
    RBrace,
    // Punctuation
    Comma,
    Colon,
    Eq,
    Dot,
    Dollar,
    Newline,
    // End of file
    Eof,
}

/// A token as a value: texts become character sequences.
pub enum TokenModel {
    Def,
    Staged,
    Show,
    SetKw,
    Live,
    Quote,
    Splice,
    If,
    Else,
    For,
    In,
    Where,
    True,
    False,
    NoneLit,
    Identifier(Seq<char>),
    IntLiteral(Option<i64>),
    FloatLiteral(Seq<char>),
    StringLiteral(Seq<char>),
    SymbolLiteral(Seq<char>),
    Plus,
    Minus,
    Star,
    Slash,
    Percent,
    EqEq,
    NotEq,
    Lt,
    Le,
    Gt,
    Ge,
    AndAnd,
    OrOr,
    Bang,
    PlusPlus,
    LParen,
    RParen,
    LBracket,
    RBracket,
    LBrace,
    RBrace,
    Comma,
    Colon,
    Eq,
    Dot,
    Dollar,
    Newline,
    Eof,
}

impl View for Token {
    type V = TokenModel;

    open spec fn view(&self) -> TokenModel {
        match self {
            Token::Def => TokenModel::Def,
            Token::Staged => TokenModel::Staged,
            Token::Show => TokenModel::Show,
            Token::SetKw => TokenModel::SetKw,
            Token::Live => TokenModel::Live,
            Token::Quote => TokenModel::Quote,
            Token::Splice => TokenModel::Splice,
            Token::If => TokenModel::If,
            Token::Else => TokenModel::Else,
            Token::For => TokenModel::For,
            Token::In => TokenModel::In,
            Token::Where => TokenModel::Where,
            Token::True => TokenModel::True,
            Token::False => TokenModel::False,
            Token::NoneLit => TokenModel::NoneLit,
            Token::Identifier(s) => TokenModel::Identifier(s@),
            Token::IntLiteral(v) => TokenModel::IntLiteral(*v),
            Token::FloatLiteral(s) => TokenModel::FloatLiteral(s@),
            Token::StringLiteral(s) => TokenModel::StringLiteral(s@),
            Token::SymbolLiteral(s) => TokenModel::SymbolLiteral(s@),
            Token::Plus => TokenModel::Plus,
            Token::Minus => TokenModel::Minus,
            Token::Star => TokenModel::Star,
            Token::Slash => TokenModel::Slash,
            Token::Percent => TokenModel::Percent,
            Token::EqEq => TokenModel::EqEq,
            Token::NotEq => TokenModel::NotEq,
            Token::Lt => TokenModel::Lt,
            Token::Le => TokenModel::Le,
            Token::Gt => TokenModel::Gt,
            Token::Ge => TokenModel::Ge,
            Token::AndAnd => TokenModel::AndAnd,
            Token::OrOr => TokenModel::OrOr,
            Token::Bang => TokenModel::Bang,
            Token::PlusPlus => TokenModel::PlusPlus,
            Token::LParen => TokenModel::LParen,
            Token::RParen => TokenModel::RParen,
            Token::LBracket => TokenModel::LBracket,
            Token::RBracket => TokenModel::RBracket,
            Token::LBrace => TokenModel::LBrace,
            Token::RBrace => TokenModel::RBrace,
            Token::Comma => TokenModel::Comma,
            Token::Colon => TokenModel::Colon,
            Token::Eq => TokenModel::Eq,
            Token::Dot => TokenModel::Dot,
            Token::Dollar => TokenModel::Dollar,
            Token::Newline => TokenModel::Newline,
            Token::Eof => TokenModel::Eof,
        }
    }
}

/// The token is a keyword.
pub open spec fn is_keyword_model(t: TokenModel) -> bool {
    t is Def || t is Staged || t is Show || t is SetKw || t is Live || t is Quote || t is Splice
        || t is If || t is Else || t is For || t is In || t is Where || t is True || t is False || t is NoneLit
}

impl Token {
    /// Whether this token is a keyword.
    pub fn is_keyword(&self) -> (r: bool)
        ensures
            r == is_keyword_model(self@),
    {
        match self {
            Token::Def | Token::Staged | Token::Show | Token::SetKw | Token::Live | Token::Quote
            | Token::Splice | Token::If | Token::Else | Token::For | Token::In | Token::Where
            | Token::True | Token::False | Token::NoneLit => true,
            _ => false,
        }
    }
}

/// A token with its source span.
#[derive(Debug, Clone, PartialEq)]
pub struct SpannedToken {
    pub token: Token,
    pub span: Span,
}

impl SpannedToken {
    /// `token` at `span`.
    pub fn new(token: Token, span: Span) -> (r: Self)
        ensures
            r.token == token,
            r.span == span,
    {
        SpannedToken { token, span }
    }
}

/// The tokens of a sequence of spanned tokens, as values with their spans.
pub open spec fn token_models(ts: Seq<SpannedToken>) -> Seq<(TokenModel, Span)> {
    Seq::new(ts.len(), |i: int| (ts[i].token@, ts[i].span))
}

// ----- The lexical grammar -----

/// A space or a tab.
pub open spec fn is_blank(c: u8) -> bool {
    c == 32u8 || c == 9u8
}

/// A decimal digit.
pub open spec fn is_digit(c: u8) -> bool {
    48u8 <= c <= 57u8
}

/// A letter or an underscore: what may start an identifier.
pub open spec fn is_ident_start(c: u8) -> bool {
    (97u8 <= c <= 122u8) || (65u8 <= c <= 90u8) || c == 95u8
}

/// What may continue an identifier: a letter, a digit, `_` or `-`.
pub open spec fn is_ident_char(c: u8) -> bool {
    is_ident_start(c) || is_digit(c) || c == 45u8
}

/// The end of the run of blanks from `i`.
pub open spec fn blank_end(b: Seq<u8>, i: int) -> int
    decreases b.len() - i,
{
    if 0 <= i < b.len() && is_blank(b[i]) { blank_end(b, i + 1) } else { i }
}

/// The end of the run of identifier characters from `i`.
pub open spec fn ident_end(b: Seq<u8>, i: int) -> int
    decreases b.len() - i,
{
    if 0 <= i < b.len() && is_ident_char(b[i]) { ident_end(b, i + 1) } else { i }
}

/// The end of the run of digits from `i`.
pub open spec fn digits_end(b: Seq<u8>, i: int) -> int
    decreases b.len() - i,
{
    if 0 <= i < b.len() && is_digit(b[i]) { digits_end(b, i + 1) } else { i }
}

/// The end of the character that starts at `i`: the next byte that does
/// not continue it, or the end.
pub open spec fn char_end(b: Seq<u8>, i: int) -> int
    decreases b.len() - i,
{
    if i + 1 < b.len() && is_continuation_byte(b[i + 1]) { char_end(b, i + 1) } else { i + 1 }
}

/// Inside a string literal at `j`: the position after its closing quote,
/// when one comes. A backslash and the character after it (other than a
/// newline) stand together; any other byte but a quote stands alone.
pub open spec fn string_end(b: Seq<u8>, j: int) -> Option<int>
    decreases b.len() - j,
{
    if j < 0 || j >= b.len() {
        None
    } else if b[j] == 34u8 {
        Some(j + 1)
    } else if b[j] == 92u8 {
        if j + 1 < b.len() && b[j + 1] != 10u8 { string_end(b, j + 2) } else { None }
    } else {
        string_end(b, j + 1)
    }
}

/// The value of the digits `b[from..to)`.
pub open spec fn digits_value(b: Seq<u8>, from: int, to: int) -> nat
    decreases to - from,
{
    if to <= from { 0 } else { 10 * digits_value(b, from, to - 1) + (b[to - 1] - 48u8) as nat }
}

/// The keyword spelled `t`, if any.
pub open spec fn keyword(t: Seq<char>) -> Option<TokenModel> {
    if t == "def"@ { Some(TokenModel::Def) }
    else if t == "staged"@ { Some(TokenModel::Staged) }
    else if t == "show"@ { Some(TokenModel::Show) }
    else if t == "set"@ { Some(TokenModel::SetKw) }
    else if t == "live"@ { Some(TokenModel::Live) }
    else if t == "quote"@ { Some(TokenModel::Quote) }
    else if t == "splice"@ { Some(TokenModel::Splice) }
    else if t == "if"@ { Some(TokenModel::If) }
    else if t == "else"@ { Some(TokenModel::Else) }
    else if t == "for"@ { Some(TokenModel::For) }
    else if t == "in"@ { Some(TokenModel::In) }
    else if t == "where"@ { Some(TokenModel::Where) }
    else if t == "true"@ { Some(TokenModel::True) }
    else if t == "false"@ { Some(TokenModel::False) }
    else if t == "none"@ { Some(TokenModel::NoneLit) }
    else { None }
}

/// The token for the word `t`: its keyword, or an identifier.
pub open spec fn word_token(t: Seq<char>) -> TokenModel {
    match keyword(t) {
        Some(k) => k,
        None => TokenModel::Identifier(t),
    }
}

/// The integer written `b[i..e)` (an optional minus, then digits), if it
/// fits in an `i64`.
pub open spec fn int_value(b: Seq<u8>, i: int, e: int) -> Option<i64> {
    let neg = b[i] == 45u8;
    let v: int = if neg { -(digits_value(b, i + 1, e) as int) } else { digits_value(b, i, e) as int };
    if i64::MIN <= v <= i64::MAX { Some(v as i64) } else { None }
}

/// A number at `i`: an optional minus and digits, then, when a dot and a
/// digit follow, the dot and those digits make it a float.
pub open spec fn number_at(b: Seq<u8>, i: int) -> (TokenModel, int) {
    let d = if b[i] == 45u8 { i + 1 } else { i };
    let ie = digits_end(b, d);
    if ie + 1 < b.len() && b[ie] == 46u8 && is_digit(b[ie + 1]) {
        let fe = digits_end(b, ie + 1);
        (TokenModel::FloatLiteral(text_between(b, i, fe)), fe)
    } else {
        (TokenModel::IntLiteral(int_value(b, i, ie)), ie)
    }
}

/// The operator or punctuation at `i`, two bytes long where it can be.
pub open spec fn punct_at(b: Seq<u8>, i: int) -> Option<(TokenModel, int)> {
    let c = b[i];
    let n: int = if i + 1 < b.len() { b[i + 1] as int } else { -1 };
    if c == 61u8 && n == 61 { Some((TokenModel::EqEq, i + 2)) }
    else if c == 33u8 && n == 61 { Some((TokenModel::NotEq, i + 2)) }
    else if c == 60u8 && n == 61 { Some((TokenModel::Le, i + 2)) }
    else if c == 62u8 && n == 61 { Some((TokenModel::Ge, i + 2)) }
    else if c == 38u8 && n == 38 { Some((TokenModel::AndAnd, i + 2)) }
    else if c == 124u8 && n == 124 { Some((TokenModel::OrOr, i + 2)) }
    else if c == 43u8 && n == 43 { Some((TokenModel::PlusPlus, i + 2)) }
    else if c == 43u8 { Some((TokenModel::Plus, i + 1)) }
    else if c == 45u8 { Some((TokenModel::Minus, i + 1)) }
    else if c == 42u8 { Some((TokenModel::Star, i + 1)) }
    else if c == 47u8 { Some((TokenModel::Slash, i + 1)) }
    else if c == 37u8 { Some((TokenModel::Percent, i + 1)) }
    else if c == 60u8 { Some((TokenModel::Lt, i + 1)) }
    else if c == 62u8 { Some((TokenModel::Gt, i + 1)) }
    else if c == 33u8 { Some((TokenModel::Bang, i + 1)) }
    else if c == 40u8 { Some((TokenModel::LParen, i + 1)) }
    else if c == 41u8 { Some((TokenModel::RParen, i + 1)) }
    else if c == 91u8 { Some((TokenModel::LBracket, i + 1)) }
    else if c == 93u8 { Some((TokenModel::RBracket, i + 1)) }
    else if c == 123u8 { Some((TokenModel::LBrace, i + 1)) }
    else if c == 125u8 { Some((TokenModel::RBrace, i + 1)) }
    else if c == 44u8 { Some((TokenModel::Comma, i + 1)) }
    else if c == 58u8 { Some((TokenModel::Colon, i + 1)) }
    else if c == 61u8 { Some((TokenModel::Eq, i + 1)) }
    else if c == 46u8 { Some((TokenModel::Dot, i + 1)) }
    else if c == 36u8 { Some((TokenModel::Dollar, i + 1)) }
    else if c == 10u8 { Some((TokenModel::Newline, i + 1)) }
    else { None }
}

/// The longest token starting at `i`, and where it ends.
pub open spec fn token_at(b: Seq<u8>, i: int) -> Option<(TokenModel, int)> {
    if !(0 <= i < b.len()) {
        None
    } else if is_ident_start(b[i]) {
        let e = ident_end(b, i + 1);
        Some((word_token(text_between(b, i, e)), e))
    } else if b[i] == 39u8 {
        if i + 1 < b.len() && is_ident_start(b[i + 1]) {
            let e = ident_end(b, i + 2);
            Some((TokenModel::SymbolLiteral(text_between(b, i + 1, e)), e))
        } else {
            None
        }
    } else if b[i] == 34u8 {
        match string_end(b, i + 1) {
            Some(e) => Some((TokenModel::StringLiteral(text_between(b, i + 1, e - 1)), e)),
            None => None,
        }
    } else if is_digit(b[i]) || (b[i] == 45u8 && i + 1 < b.len() && is_digit(b[i + 1])) {
        Some(number_at(b, i))
    } else {
        punct_at(b, i)
    }
}

/// The tokens of `b` from `i` on, each with its span, ending with the
/// end-of-file token at the end; or the span of the first character where
/// no token starts.
pub open spec fn lex_from(b: Seq<u8>, i: int) -> Result<Seq<(TokenModel, Span)>, Span>
    decreases b.len() - i,
{
    let j = blank_end(b, i);
    if j >= b.len() || j < 0 {
        Ok(seq![(TokenModel::Eof, Span { start: b.len() as usize, end: b.len() as usize })])
    } else {
        match token_at(b, j) {
            None => Err(Span { start: j as usize, end: char_end(b, j) as usize }),
            Some((t, e)) => if j < e <= b.len() && i <= j {
                match lex_from(b, e) {
                    Ok(ts) => Ok(seq![(t, Span { start: j as usize, end: e as usize })] + ts),
                    Err(s) => Err(s),
                }
            } else {
                Err(Span { start: j as usize, end: char_end(b, j) as usize })
            },
        }
    }
}

/// The tokens of a source text, or the span of the first character where
/// no token starts.
pub open spec fn lexed(source: Seq<u8>) -> Result<Seq<(TokenModel, Span)>, Span> {
    lex_from(source, 0)
}

/// `e` is the lexer error at `span` of `source`.
pub open spec fn lexer_failure(e: MrlError, source: Seq<u8>, span: Span) -> bool {
    e matches MrlError::LexerError { span: s, message } && s == span && message@ == invalid_token_message(source, span)
}

/// The message of a lexing error at `span` in `source`.
pub open spec fn invalid_token_message(source: Seq<u8>, span: Span) -> Seq<char> {
    "Invalid token: "@ + text_between(source, span.start as int, span.end as int)
}


// ----- Scanning -----

/// `r` followed by what `rest` gives, or the error of `rest`.
pub open spec fn prepend(p: Seq<(TokenModel, Span)>, rest: Result<Seq<(TokenModel, Span)>, Span>) -> Result<Seq<(TokenModel, Span)>, Span> {
    match rest {
        Ok(ts) => Ok(p + ts),
        Err(s) => Err(s),
    }
}

fn scan_blanks(bytes: &[u8], i: usize) -> (r: usize)
    requires
        i <= bytes@.len(),
    ensures
        r == blank_end(bytes@, i as int),
        i <= r <= bytes@.len(),
        forall|x: int| i <= x < r ==> is_blank(#[trigger] bytes@[x]),
{
    let mut j = i;
    while j < bytes.len() && (bytes[j] == 32u8 || bytes[j] == 9u8)
        invariant
            i <= j <= bytes@.len(),
            blank_end(bytes@, j as int) == blank_end(bytes@, i as int),
            forall|x: int| i <= x < j ==> is_blank(#[trigger] bytes@[x]),
        decreases bytes@.len() - j,
    {
        j = j + 1;
    }
    j
}

fn scan_ident(bytes: &[u8], i: usize) -> (r: usize)
    requires
        i <= bytes@.len(),
    ensures
        r == ident_end(bytes@, i as int),
        i <= r <= bytes@.len(),
        forall|x: int| i <= x < r ==> is_ident_char(#[trigger] bytes@[x]),
{
    let mut j = i;
    while j < bytes.len() && (is_ident_byte(bytes[j]) || is_digit_byte(bytes[j]) || bytes[j] == 45u8)
        invariant
            i <= j <= bytes@.len(),
            ident_end(bytes@, j as int) == ident_end(bytes@, i as int),
            forall|x: int| i <= x < j ==> is_ident_char(#[trigger] bytes@[x]),
        decreases bytes@.len() - j,
    {
        j = j + 1;
    }
    j
}

fn scan_digits(bytes: &[u8], i: usize) -> (r: usize)
    requires
        i <= bytes@.len(),
    ensures
        r == digits_end(bytes@, i as int),
        i <= r <= bytes@.len(),
        forall|x: int| i <= x < r ==> is_digit(#[trigger] bytes@[x]),
        i < bytes@.len() && is_digit(bytes@[i as int]) ==> i < r,
{
    let mut j = i;
    while j < bytes.len() && is_digit_byte(bytes[j])
        invariant
            i <= j <= bytes@.len(),
            digits_end(bytes@, j as int) == digits_end(bytes@, i as int),
            forall|x: int| i <= x < j ==> is_digit(#[trigger] bytes@[x]),
        decreases bytes@.len() - j,
    {
        j = j + 1;
    }
    j
}

fn scan_char(bytes: &[u8], i: usize) -> (r: usize)
    requires
        i < bytes@.len(),
    ensures
        r == char_end(bytes@, i as int),
        i < r <= bytes@.len(),
        r < bytes@.len() ==> !is_continuation_byte(bytes@[r as int]),
{
    let n = bytes.len();
    let mut j = i;
    while j + 1 < n && 0x80u8 <= bytes[j + 1] && bytes[j + 1] <= 0xbfu8
        invariant
            n == bytes@.len(),
            i <= j < bytes@.len(),
            char_end(bytes@, j as int) == char_end(bytes@, i as int),
        decreases bytes@.len() - j,
    {
        j = j + 1;
    }
    j + 1
}

fn scan_string(bytes: &[u8], j: usize) -> (r: Option<usize>)
    requires
        j <= bytes@.len(),
    ensures
        match string_end(bytes@, j as int) {
            Some(e) => r == Some(e as usize) && j < e <= bytes@.len() && bytes@[e - 1] == 34u8,
            None => r is None,
        },
{
    let mut k = j;
    loop
        invariant
            j <= k <= bytes@.len() + 1,
            string_end(bytes@, k as int) == string_end(bytes@, j as int),
        decreases bytes@.len() + 1 - k,
    {
        if k >= bytes.len() {
            return None;
        }
        if bytes[k] == 34u8 {
            return Some(k + 1);
        }
        if bytes[k] == 92u8 {
            if k + 1 < bytes.len() && bytes[k + 1] != 10u8 {
                k = k + 2;
            } else {
                return None;
            }
        } else {
            k = k + 1;
        }
    }
}

fn is_digit_byte(c: u8) -> (r: bool)
    ensures
        r == is_digit(c),
{
    48u8 <= c && c <= 57u8
}

fn is_ident_byte(c: u8) -> (r: bool)
    ensures
        r == is_ident_start(c),
{
    (97u8 <= c && c <= 122u8) || (65u8 <= c && c <= 90u8) || c == 95u8
}

proof fn lemma_digits_value_grows(b: Seq<u8>, from: int, to: int)
    requires
        from <= to,
        to < b.len(),
        is_digit(b[to]),
    ensures
        digits_value(b, from, to + 1) == 10 * digits_value(b, from, to) + (b[to] - 48u8) as nat,
        digits_value(b, from, to + 1) >= digits_value(b, from, to),
{
}

/// The integer `b[i..e)`, an optional minus and then digits.
fn int_of(bytes: &[u8], i: usize, e: usize) -> (r: Option<i64>)
    requires
        i < e <= bytes@.len(),
        forall|x: int| (if bytes@[i as int] == 45u8 { i + 1 } else { i as int }) <= x < e ==> is_digit(#[trigger] bytes@[x]),
    ensures
        r == int_value(bytes@, i as int, e as int),
{
    let neg = bytes[i] == 45u8;
    let d = if neg { i + 1 } else { i };
    let limit: u128 = 9223372036854775808u128;
    let mut acc: u128 = 0;
    let mut over = false;
    let mut k = d;
    while k < e
        invariant
            d <= k <= e,
            e <= bytes@.len(),
            limit == 9223372036854775808u128,
            d == (if bytes@[i as int] == 45u8 { i + 1 } else { i as int }),
            forall|x: int| d <= x < e ==> is_digit(#[trigger] bytes@[x]),
            !over ==> acc == digits_value(bytes@, d as int, k as int) && acc <= limit,
            over ==> digits_value(bytes@, d as int, k as int) > limit,
        decreases e - k,
    {
        proof {
            lemma_digits_value_grows(bytes@, d as int, k as int);
        }
        if !over {
            acc = acc * 10 + (bytes[k] - 48u8) as u128;
            if acc > limit {
                over = true;
            }
        }
        k = k + 1;
    }
    if over {
        None
    } else if neg {
        Some((0i128 - acc as i128) as i64)
    } else if acc < limit {
        Some(acc as i64)
    } else {
        None
    }
}

fn keyword_token(t: &str) -> (r: Option<Token>)
    ensures
        match keyword(t@) {
            Some(k) => r matches Some(tok) && tok@ == k,
            None => r is None,
        },
{
    if str_eq(t, "def") { Some(Token::Def) }
    else if str_eq(t, "staged") { Some(Token::Staged) }
    else if str_eq(t, "show") { Some(Token::Show) }
    else if str_eq(t, "set") { Some(Token::SetKw) }
    else if str_eq(t, "live") { Some(Token::Live) }
    else if str_eq(t, "quote") { Some(Token::Quote) }
    else if str_eq(t, "splice") { Some(Token::Splice) }
    else if str_eq(t, "if") { Some(Token::If) }
    else if str_eq(t, "else") { Some(Token::Else) }
    else if str_eq(t, "for") { Some(Token::For) }
    else if str_eq(t, "in") { Some(Token::In) }
    else if str_eq(t, "where") { Some(Token::Where) }
    else if str_eq(t, "true") { Some(Token::True) }
    else if str_eq(t, "false") { Some(Token::False) }
    else if str_eq(t, "none") { Some(Token::NoneLit) }
    else { None }
}

fn punct_token(bytes: &[u8], i: usize) -> (r: Option<(Token, usize)>)
    requires
        i < bytes@.len(),
    ensures
        match punct_at(bytes@, i as int) {
            Some((t, e)) => r matches Some((tok, e2)) && tok@ == t && e2 == e,
            None => r is None,
        },
        r matches Some((_, e)) ==> i < e <= bytes@.len() && bytes@[e - 1] < 0x80,
{
    let c = bytes[i];
    let two = i + 1 < bytes.len();
    let n: u8 = if two { bytes[i + 1] } else { 0u8 };
    if two && c == 61u8 && n == 61u8 { Some((Token::EqEq, i + 2)) }
    else if two && c == 33u8 && n == 61u8 { Some((Token::NotEq, i + 2)) }
    else if two && c == 60u8 && n == 61u8 { Some((Token::Le, i + 2)) }
    else if two && c == 62u8 && n == 61u8 { Some((Token::Ge, i + 2)) }
    else if two && c == 38u8 && n == 38u8 { Some((Token::AndAnd, i + 2)) }
    else if two && c == 124u8 && n == 124u8 { Some((Token::OrOr, i + 2)) }
    else if two && c == 43u8 && n == 43u8 { Some((Token::PlusPlus, i + 2)) }
    else if c == 43u8 { Some((Token::Plus, i + 1)) }
    else if c == 45u8 { Some((Token::Minus, i + 1)) }
    else if c == 42u8 { Some((Token::Star, i + 1)) }
    else if c == 47u8 { Some((Token::Slash, i + 1)) }
    else if c == 37u8 { Some((Token::Percent, i + 1)) }
    else if c == 60u8 { Some((Token::Lt, i + 1)) }
    else if c == 62u8 { Some((Token::Gt, i + 1)) }
    else if c == 33u8 { Some((Token::Bang, i + 1)) }
    else if c == 40u8 { Some((Token::LParen, i + 1)) }
    else if c == 41u8 { Some((Token::RParen, i + 1)) }
    else if c == 91u8 { Some((Token::LBracket, i + 1)) }
    else if c == 93u8 { Some((Token::RBracket, i + 1)) }
    else if c == 123u8 { Some((Token::LBrace, i + 1)) }
    else if c == 125u8 { Some((Token::RBrace, i + 1)) }
    else if c == 44u8 { Some((Token::Comma, i + 1)) }
    else if c == 58u8 { Some((Token::Colon, i + 1)) }
    else if c == 61u8 { Some((Token::Eq, i + 1)) }
    else if c == 46u8 { Some((Token::Dot, i + 1)) }
    else if c == 36u8 { Some((Token::Dollar, i + 1)) }
    else if c == 10u8 { Some((Token::Newline, i + 1)) }
    else { None }
}

/// The longest token of `source` starting at byte `i`, and where it ends.
fn token_at_exec(source: &str, bytes: &[u8], i: usize) -> (r: Option<(Token, usize)>)
    requires
        bytes@ == source.spec_bytes(),
        i < bytes@.len(),
    ensures
        match token_at(bytes@, i as int) {
            Some((t, e)) => r matches Some((tok, e2)) && tok@ == t && e2 == e,
            None => r is None,
        },
        r matches Some((_, e)) ==> i < e <= bytes@.len() && bytes@[e - 1] < 0x80,
{
    let ghost b = bytes@;
    proof {
        encode_utf8_valid_utf8(source@);
    }
    let c = bytes[i];
    if is_ident_byte(c) {
        let e = scan_ident(bytes, i + 1);
        proof {
            lemma_ascii_boundaries(b, i as int);
            lemma_ascii_boundaries(b, e - 1);
        }
        let text = slice_text(source, i, e);
        match keyword_token(text.as_str()) {
            Some(k) => Some((k, e)),
            None => Some((Token::Identifier(text), e)),
        }
    } else if c == 39u8 {
        if i + 1 < bytes.len() && is_ident_byte(bytes[i + 1]) {
            let e = scan_ident(bytes, i + 2);
            proof {
                lemma_ascii_boundaries(b, i + 1);
                lemma_ascii_boundaries(b, e - 1);
            }
            let text = slice_text(source, i + 1, e);
            Some((Token::SymbolLiteral(text), e))
        } else {
            None
        }
    } else if c == 34u8 {
        match scan_string(bytes, i + 1) {
            Some(e) => {
                proof {
                    lemma_ascii_boundaries(b, i as int);
                    lemma_ascii_boundaries(b, e - 1);
                }
                let text = slice_text(source, i + 1, e - 1);
                Some((Token::StringLiteral(text), e))
            },
            None => None,
        }
    } else if is_digit_byte(c) || (c == 45u8 && i + 1 < bytes.len() && is_digit_byte(bytes[i + 1])) {
        let d = if c == 45u8 { i + 1 } else { i };
        let ie = scan_digits(bytes, d);
        if ie < bytes.len() && ie + 1 < bytes.len() && bytes[ie] == 46u8 && is_digit_byte(bytes[ie + 1]) {
            let fe = scan_digits(bytes, ie + 1);
            proof {
                lemma_ascii_boundaries(b, i as int);
                lemma_ascii_boundaries(b, fe - 1);
            }
            let text = slice_text(source, i, fe);
            Some((Token::FloatLiteral(text), fe))
        } else {
            Some((Token::IntLiteral(int_of(bytes, i, ie)), ie))
        }
    } else {
        punct_token(bytes, i)
    }
}

fn lexer_error(source: &str, start: usize, end: usize) -> (r: MrlError)
    requires
        start <= end <= source.spec_bytes().len(),
        is_char_boundary(source.spec_bytes(), start as int),
        is_char_boundary(source.spec_bytes(), end as int),
    ensures
        lexer_failure(r, source.spec_bytes(), Span { start, end }),
{
    let mut message = to_owned_string("Invalid token: ");
    let text = slice_text(source, start, end);
    push_str(&mut message, text.as_str());
    proof {
        reveal_strlit("Invalid token: ");
    }
    MrlError::LexerError { span: Span::new(start, end), message }
}

/// Tokenize a source text: its tokens, each with its span, ending with the
/// end-of-file token; or a lexer error at the first character where no
/// token starts.
pub fn tokenize(source: &str) -> (r: Result<Vec<SpannedToken>, MrlError>)
    ensures
        match lexed(source.spec_bytes()) {
            Ok(ts) => r matches Ok(v) && token_models(v@) == ts,
            Err(sp) => r matches Err(e) && lexer_failure(e, source.spec_bytes(), sp),
        },
{
    let bytes = source.as_bytes();
    let ghost b = bytes@;
    proof {
        encode_utf8_valid_utf8(source@);
        assert(token_models(Seq::<SpannedToken>::empty()) =~= Seq::<(TokenModel, Span)>::empty());
    }
    let n = bytes.len();
    let mut tokens: Vec<SpannedToken> = Vec::new();
    let mut pos: usize = 0;
    loop
        invariant
            b == source.spec_bytes(),
            b == bytes@,
            n == b.len(),
            valid_utf8(b),
            pos <= n,
            is_char_boundary(b, pos as int),
            lexed(b) == prepend(token_models(tokens@), lex_from(b, pos as int)),
        decreases n - pos,
    {
        let j = scan_blanks(bytes, pos);
        if j > pos {
            proof {
                lemma_ascii_boundaries(b, j - 1);
            }
        }
        if j >= n {
            let ghost before = token_models(tokens@);
            tokens.push(SpannedToken::new(Token::Eof, Span::new(n, n)));
            assert(token_models(tokens@) =~= before + seq![(TokenModel::Eof, Span { start: n, end: n })]);
            return Ok(tokens);
        }
        match token_at_exec(source, bytes, j) {
            None => {
                let ce = scan_char(bytes, j);
                return Err(lexer_error(source, j, ce));
            },
            Some((t, e)) => {
                let ghost before = token_models(tokens@);
                let ghost tm = t@;
                proof {
                    lemma_ascii_boundaries(b, e - 1);
                }
                tokens.push(SpannedToken::new(t, Span::new(j, e)));
                assert(token_models(tokens@) =~= before + seq![(tm, Span { start: j, end: e })]);
                assert(before + seq![(tm, Span { start: j, end: e })] + Seq::<(TokenModel, Span)>::empty() =~= before + seq![(tm, Span { start: j, end: e })]);
                proof {
                    match lex_from(b, e as int) {
                        Ok(ts) => {
                            assert(before + (seq![(tm, Span { start: j, end: e })] + ts) =~= (before + seq![(tm, Span { start: j, end: e })]) + ts);
                        },
                        Err(_) => {},
                    }
                }
                pos = e;
            },
        }
    }
}


impl Token {
    /// A copy of this token.
    pub fn duplicate(&self) -> (r: Token)
        ensures
            r == *self,
    {
        match self {
            Token::Identifier(s) => Token::Identifier(s.clone()),
            Token::IntLiteral(v) => Token::IntLiteral(*v),
            Token::FloatLiteral(s) => Token::FloatLiteral(s.clone()),
            Token::StringLiteral(s) => Token::StringLiteral(s.clone()),
            Token::SymbolLiteral(s) => Token::SymbolLiteral(s.clone()),
            Token::Def => Token::Def,
            Token::Staged => Token::Staged,
            Token::Show => Token::Show,
            Token::SetKw => Token::SetKw,
            Token::Live => Token::Live,
            Token::Quote => Token::Quote,
            Token::Splice => Token::Splice,
            Token::If => Token::If,
            Token::Else => Token::Else,
            Token::For => Token::For,
            Token::In => Token::In,
            Token::Where => Token::Where,
            Token::True => Token::True,
            Token::False => Token::False,
            Token::NoneLit => Token::NoneLit,
            Token::Plus => Token::Plus,
            Token::Minus => Token::Minus,
            Token::Star => Token::Star,
            Token::Slash => Token::Slash,
            Token::Percent => Token::Percent,
            Token::EqEq => Token::EqEq,
            Token::NotEq => Token::NotEq,
            Token::Lt => Token::Lt,
            Token::Le => Token::Le,
            Token::Gt => Token::Gt,
            Token::Ge => Token::Ge,
            Token::AndAnd => Token::AndAnd,
            Token::OrOr => Token::OrOr,
            Token::Bang => Token::Bang,
            Token::PlusPlus => Token::PlusPlus,
            Token::LParen => Token::LParen,
            Token::RParen => Token::RParen,
            Token::LBracket => Token::LBracket,
            Token::RBracket => Token::RBracket,
            Token::LBrace => Token::LBrace,
            Token::RBrace => Token::RBrace,
            Token::Comma => Token::Comma,
            Token::Colon => Token::Colon,
            Token::Eq => Token::Eq,
            Token::Dot => Token::Dot,
            Token::Dollar => Token::Dollar,
            Token::Newline => Token::Newline,
            Token::Eof => Token::Eof,
        }
    }
}

fn copy_tokens(ts: &Vec<SpannedToken>) -> (r: Vec<SpannedToken>)
    ensures
        r@ == ts@,
{
    let mut out: Vec<SpannedToken> = Vec::new();
    let mut i: usize = 0;
    while i < ts.len()
        invariant
            0 <= i <= ts@.len(),
            out@ == ts@.take(i as int),
        decreases ts@.len() - i,
    {
        out.push(SpannedToken { token: ts[i].token.duplicate(), span: ts[i].span });
        assert(out@ =~= ts@.take(i + 1));
        i = i + 1;
    }
    assert(ts@.take(ts@.len() as int) =~= ts@);
    out
}

/// A lexer over a source text: the tokens it found, and a cursor.
pub struct Lexer<'a> {
    source: &'a str,
    tokens: Vec<SpannedToken>,
    current: usize,
}

impl<'a> Lexer<'a> {
    /// The source text.
    pub closed spec fn source(&self) -> &'a str {
        self.source
    }

    /// The tokens found so far.
    pub closed spec fn tokens(&self) -> Seq<SpannedToken> {
        self.tokens@
    }

    /// The position of the cursor among the tokens.
    pub closed spec fn current(&self) -> nat {
        self.current as nat
    }

    /// A lexer over `source` that has found nothing yet.
    pub fn new(source: &'a str) -> (r: Self)
        ensures
            r.source() == source,
            r.tokens().len() == 0,
            r.current() == 0,
    {
        Lexer { source, tokens: Vec::new(), current: 0 }
    }

    /// Tokenize the entire source; on success the lexer keeps the tokens.
    pub fn tokenize(&mut self) -> (r: Result<Vec<SpannedToken>, MrlError>)
        ensures
            final(self).source() == old(self).source(),
            final(self).current() == old(self).current(),
            match lexed(old(self).source().spec_bytes()) {
                Ok(ts) => r matches Ok(v) && token_models(v@) == ts && final(self).tokens() == v@,
                Err(sp) => r matches Err(e) && lexer_failure(e, old(self).source().spec_bytes(), sp)
                    && final(self).tokens() == old(self).tokens(),
            },
    {
        match tokenize(self.source) {
            Ok(tokens) => {
                self.tokens = copy_tokens(&tokens);
                Ok(tokens)
            },
            Err(e) => Err(e),
        }
    }

    /// The token under the cursor, if any.
    pub fn peek(&self) -> (r: Option<&SpannedToken>)
        ensures
            match r {
                Some(t) => self.current() < self.tokens().len() && *t == self.tokens()[self.current() as int],
                None => self.current() >= self.tokens().len(),
            },
    {
        if self.current < self.tokens.len() {
            Some(&self.tokens[self.current])
        } else {
            None
        }
    }

    /// The token under the cursor, if any, moving the cursor past it.
    pub fn next(&mut self) -> (r: Option<&SpannedToken>)
        ensures
            final(self).source() == old(self).source(),
            final(self).tokens() == old(self).tokens(),
            match r {
                Some(t) => old(self).current() < old(self).tokens().len()
                    && *t == old(self).tokens()[old(self).current() as int]
                    && final(self).current() == old(self).current() + 1,
                None => old(self).current() >= old(self).tokens().len() && final(self).current() == old(self).current(),
            },
    {
        let i = self.current;
        if i < self.tokens.len() {
            self.current = i + 1;
            Some(&self.tokens[i])
        } else {
            None
        }
    }

    /// Whether the cursor is at the end-of-file token or past the tokens.
    pub fn is_eof(&self) -> (r: bool)
        ensures
            r == (self.current() >= self.tokens().len() || self.tokens()[self.current() as int].token is Eof),
    {
        match self.peek() {
            Some(t) => match t.token {
                Token::Eof => true,
                _ => false,
            },
            None => true,
        }
    }
}

} // verus!
