//! The lexer: from source text to tokens, each with the byte offsets at which
//! it begins and ends.
//!
//! At every place the longest token that fits is taken. White space and
//! comments separate tokens and produce none. Where no token fits, the lexer
//! reports the place and stops: nothing after a lexical error is read.

use crate::decimal::is_digit;
use crate::text::{
    byte_len, byte_offset, chars_of, lemma_byte_offset_ends, lemma_byte_offset_monotone,
    lemma_byte_offset_step, substring, utf8_len, width_of,
};
use vstd::prelude::*;

verus! {

/// Why lexing stopped.
#[derive(Debug, Clone, Copy, PartialEq, Eq)]
pub enum Error {
    /// No token begins at this byte offset.
    LexicalError { offset: usize },
}

/// A token between the offsets of its first byte and of the byte after its
/// last, or the failure to read one.
pub type Spanned<Tok, Loc, Error> = Result<(Loc, Tok, Loc), Error>;

#[derive(Clone, Debug, PartialEq)]
pub enum Token {
    /// `function`, also written `фн`.
    Fn,
    /// `->`
    RightArrow,
    /// `тоо`, the type of numbers.
    NumberType,
    /// `буц`
    Return,
    /// `үнэн`
    True,
    /// `худал`
    False,
    /// `+`
    Add,
    /// `-`
    Minus,
    /// `!`
    Not,
    /// `~`
    Tilde,
    /// `(`
    LParen,
    /// `)`
    RParen,
    /// `{`
    LBrace,
    /// `}`
    RBrace,
    /// `;`
    Semicolon,
    /// `хоосон`
    Null,
    /// `*`
    Star,
    /// `/`
    Slash,
    /// `==`
    EqualEqual,
    /// `!=`
    NotEqual,
    /// `<`
    Less,
    /// `<=`
    LessEqual,
    /// `>`
    Greater,
    /// `>=`
    GreaterEqual,
    /// `&&`
    And,
    /// `||`
    Or,
    /// A string literal: what stands between its quotes, escapes as written.
    String(String),
    /// A word that is no keyword.
    Identifier(String),
    /// A number literal: its digits.
    NumberLiteral(String),
}

/// The view of a [`Token`].
pub enum TokenView {
    Fn,
    RightArrow,
    NumberType,
    Return,
    True,
    False,
    Add,
    Minus,
    Not,
    Tilde,
    LParen,
    RParen,
    LBrace,
    RBrace,
    Semicolon,
    Null,
    Star,
    Slash,
    EqualEqual,
    NotEqual,
    Less,
    LessEqual,
    Greater,
    GreaterEqual,
    And,
    Or,
    String(Seq<char>),
    Identifier(Seq<char>),
    NumberLiteral(Seq<char>),
}

impl View for Token {
    type V = TokenView;

    open spec fn view(&self) -> TokenView {
        match self {
            Token::Fn => TokenView::Fn,
            Token::RightArrow => TokenView::RightArrow,
            Token::NumberType => TokenView::NumberType,
            Token::Return => TokenView::Return,
            Token::True => TokenView::True,
            Token::False => TokenView::False,
            Token::Add => TokenView::Add,
            Token::Minus => TokenView::Minus,
            Token::Not => TokenView::Not,
            Token::Tilde => TokenView::Tilde,
            Token::LParen => TokenView::LParen,
            Token::RParen => TokenView::RParen,
            Token::LBrace => TokenView::LBrace,
            Token::RBrace => TokenView::RBrace,
            Token::Semicolon => TokenView::Semicolon,
            Token::Null => TokenView::Null,
            Token::Star => TokenView::Star,
            Token::Slash => TokenView::Slash,
            Token::EqualEqual => TokenView::EqualEqual,
            Token::NotEqual => TokenView::NotEqual,
            Token::Less => TokenView::Less,
            Token::LessEqual => TokenView::LessEqual,
            Token::Greater => TokenView::Greater,
            Token::GreaterEqual => TokenView::GreaterEqual,
            Token::And => TokenView::And,
            Token::Or => TokenView::Or,
            Token::String(text) => TokenView::String(text@),
            Token::Identifier(text) => TokenView::Identifier(text@),
            Token::NumberLiteral(text) => TokenView::NumberLiteral(text@),
        }
    }
}

/// The view of one item of the lexer's output.
pub enum SpannedView {
    /// A token, from the byte offset `start` up to, not including, `end`.
    Token { start: nat, token: TokenView, end: nat },
    /// No token begins at the byte offset `offset`.
    Error { offset: nat },
}

/// The view of one item of the lexer's output.
pub open spec fn item_view(item: Spanned<Token, usize, Error>) -> SpannedView {
    match item {
        Ok((start, token, end)) => SpannedView::Token {
            start: start as nat,
            token: token@,
            end: end as nat,
        },
        Err(Error::LexicalError { offset }) => SpannedView::Error { offset: offset as nat },
    }
}

/// The views of a sequence of items, in the same order.
pub open spec fn items_view(items: Seq<Spanned<Token, usize, Error>>) -> Seq<SpannedView> {
    items.map_values(|item: Spanned<Token, usize, Error>| item_view(item))
}

/// Whether `c` is a letter: a Latin letter, a letter of the Russian alphabet,
/// or one of the two letters that Mongolian adds to it.
pub open spec fn is_letter(c: char) -> bool {
    ||| 'a' <= c <= 'z'
    ||| 'A' <= c <= 'Z'
    // А to я
    ||| '\u{410}' <= c <= '\u{44f}'
    // Ё, ё
    ||| c == '\u{401}'
    ||| c == '\u{451}'
    // Ү, ү
    ||| c == '\u{4ae}'
    ||| c == '\u{4af}'
    // Ө, ө
    ||| c == '\u{4e8}'
    ||| c == '\u{4e9}'
}

/// Whether `c` can stand inside a word: a letter, a digit or an underscore.
pub open spec fn is_word_char(c: char) -> bool {
    is_letter(c) || is_digit(c) || c == '_'
}

/// Whether `c` is white space: a space, a tab, a newline or a form feed.
pub open spec fn is_space(c: char) -> bool {
    c == ' ' || c == '\t' || c == '\n' || c == '\u{c}'
}

/// Whether `c` is a hexadecimal digit.
pub open spec fn is_hex_digit(c: char) -> bool {
    is_digit(c) || 'a' <= c <= 'f' || 'A' <= c <= 'F'
}

/// Whether `c`, after a backslash, makes an escape of two characters.
pub open spec fn is_simple_escape(c: char) -> bool {
    c == '"' || c == '\\' || c == 'b' || c == 'n' || c == 'f' || c == 'r' || c == 't'
}

/// The token that the word `word` is, if it is a keyword.
pub open spec fn keyword(word: Seq<char>) -> Option<TokenView> {
    if word == "function"@ || word == "фн"@ {
        Some(TokenView::Fn)
    } else if word == "тоо"@ {
        Some(TokenView::NumberType)
    } else if word == "буц"@ {
        Some(TokenView::Return)
    } else if word == "үнэн"@ {
        Some(TokenView::True)
    } else if word == "худал"@ {
        Some(TokenView::False)
    } else if word == "хоосон"@ {
        Some(TokenView::Null)
    } else {
        None
    }
}

/// The token that the word `word` is: its keyword, or else an identifier.
pub open spec fn word_token(word: Seq<char>) -> TokenView {
    match keyword(word) {
        Some(token) => token,
        None => TokenView::Identifier(word),
    }
}

/// The first index from `i` on that holds no white space and lies in no
/// comment, or the length of `s` if there is none. A comment runs from a `#`
/// to the end of its line; `in_comment` says whether `i` lies in one.
pub open spec fn skip_trivia(s: Seq<char>, i: int, in_comment: bool) -> int
    decreases s.len() - i,
{
    if i >= s.len() {
        i
    } else if in_comment {
        skip_trivia(s, i + 1, s[i] != '\n')
    } else if is_space(s[i]) {
        skip_trivia(s, i + 1, false)
    } else if s[i] == '#' {
        skip_trivia(s, i + 1, true)
    } else {
        i
    }
}

/// The first index from `i` on whose character cannot stand inside a word, or
/// the length of `s` if there is none.
pub open spec fn word_end(s: Seq<char>, i: int) -> int
    decreases s.len() - i,
{
    if 0 <= i < s.len() && is_word_char(s[i]) {
        word_end(s, i + 1)
    } else {
        i
    }
}

/// The first index from `i` on whose character is no digit, or the length of
/// `s` if there is none.
pub open spec fn digits_end(s: Seq<char>, i: int) -> int
    decreases s.len() - i,
{
    if 0 <= i < s.len() && is_digit(s[i]) {
        digits_end(s, i + 1)
    } else {
        i
    }
}

/// For `i` inside a string literal, the index after the quote that closes it.
/// `None` where the line or the text ends before a closing quote, or where a
/// backslash begins no escape. An escape is a backslash and one of
/// `"`, `\`, `b`, `n`, `f`, `r`, `t`, or a backslash, `u` and four
/// hexadecimal digits.
pub open spec fn string_end(s: Seq<char>, i: int) -> Option<int>
    decreases s.len() - i,
{
    if i < 0 || i >= s.len() {
        None
    } else if s[i] == '"' {
        Some(i + 1)
    } else if s[i] == '\n' {
        None
    } else if s[i] == '\\' {
        if i + 1 < s.len() && is_simple_escape(s[i + 1]) {
            string_end(s, i + 2)
        } else if i + 5 < s.len() && s[i + 1] == 'u' && is_hex_digit(s[i + 2]) && is_hex_digit(
            s[i + 3],
        ) && is_hex_digit(s[i + 4]) && is_hex_digit(s[i + 5]) {
            string_end(s, i + 6)
        } else {
            None
        }
    } else {
        string_end(s, i + 1)
    }
}

/// Whether the character after index `i` is `c`.
pub open spec fn followed_by(s: Seq<char>, i: int, c: char) -> bool {
    i + 1 < s.len() && s[i + 1] == c
}

/// The operator or punctuation that begins at index `i`, the longer where
/// two fit, with the index after it.
pub open spec fn punctuation_at(s: Seq<char>, i: int) -> Option<(TokenView, int)> {
    let c = s[i];
    if c == '(' {
        Some((TokenView::LParen, i + 1))
    } else if c == ')' {
        Some((TokenView::RParen, i + 1))
    } else if c == '{' {
        Some((TokenView::LBrace, i + 1))
    } else if c == '}' {
        Some((TokenView::RBrace, i + 1))
    } else if c == ';' {
        Some((TokenView::Semicolon, i + 1))
    } else if c == '+' {
        Some((TokenView::Add, i + 1))
    } else if c == '~' {
        Some((TokenView::Tilde, i + 1))
    } else if c == '*' {
        Some((TokenView::Star, i + 1))
    } else if c == '/' {
        Some((TokenView::Slash, i + 1))
    } else if c == '-' {
        if followed_by(s, i, '>') {
            Some((TokenView::RightArrow, i + 2))
        } else {
            Some((TokenView::Minus, i + 1))
        }
    } else if c == '!' {
        if followed_by(s, i, '=') {
            Some((TokenView::NotEqual, i + 2))
        } else {
            Some((TokenView::Not, i + 1))
        }
    } else if c == '<' {
        if followed_by(s, i, '=') {
            Some((TokenView::LessEqual, i + 2))
        } else {
            Some((TokenView::Less, i + 1))
        }
    } else if c == '>' {
        if followed_by(s, i, '=') {
            Some((TokenView::GreaterEqual, i + 2))
        } else {
            Some((TokenView::Greater, i + 1))
        }
    } else if c == '=' && followed_by(s, i, '=') {
        Some((TokenView::EqualEqual, i + 2))
    } else if c == '&' && followed_by(s, i, '&') {
        Some((TokenView::And, i + 2))
    } else if c == '|' && followed_by(s, i, '|') {
        Some((TokenView::Or, i + 2))
    } else {
        None
    }
}

/// The token that begins at index `i` of `s`, with the index after its last
/// character; `None` where no token begins there.
///
/// A word begins with a letter and runs as far as letters, digits and
/// underscores go; a number runs as far as digits go; a string runs from
/// its opening quote to the quote that closes it.
pub open spec fn token_at(s: Seq<char>, i: int) -> Option<(TokenView, int)> {
    let c = s[i];
    if is_letter(c) {
        let end = word_end(s, i);
        Some((word_token(s.subrange(i, end)), end))
    } else if is_digit(c) {
        let end = digits_end(s, i);
        Some((TokenView::NumberLiteral(s.subrange(i, end)), end))
    } else if c == '"' {
        match string_end(s, i + 1) {
            Some(end) => Some((TokenView::String(s.subrange(i + 1, end - 1)), end)),
            None => None,
        }
    } else {
        punctuation_at(s, i)
    }
}

/// White space and comments are skipped forwards, and never past the end.
pub proof fn lemma_skip_trivia_bounds(s: Seq<char>, i: int, in_comment: bool)
    requires
        0 <= i <= s.len(),
    ensures
        i <= skip_trivia(s, i, in_comment) <= s.len(),
    decreases s.len() - i,
{
    if i < s.len() {
        lemma_skip_trivia_bounds(s, i + 1, true);
        lemma_skip_trivia_bounds(s, i + 1, false);
    }
}

/// A word ends at or after the place it was looked for from, and not past the
/// end of the text.
pub proof fn lemma_word_end_bounds(s: Seq<char>, i: int)
    requires
        0 <= i <= s.len(),
    ensures
        i <= word_end(s, i) <= s.len(),
    decreases s.len() - i,
{
    if i < s.len() {
        lemma_word_end_bounds(s, i + 1);
    }
}

/// A run of digits ends at or after the place it was looked for from, and not
/// past the end of the text.
pub proof fn lemma_digits_end_bounds(s: Seq<char>, i: int)
    requires
        0 <= i <= s.len(),
    ensures
        i <= digits_end(s, i) <= s.len(),
    decreases s.len() - i,
{
    if i < s.len() {
        lemma_digits_end_bounds(s, i + 1);
    }
}

/// A string that is closed is closed after the place it was looked at from,
/// and not past the end of the text.
pub proof fn lemma_string_end_bounds(s: Seq<char>, i: int)
    requires
        0 <= i,
    ensures
        string_end(s, i) matches Some(end) ==> i < end <= s.len(),
    decreases s.len() - i,
{
    if i < s.len() {
        lemma_string_end_bounds(s, i + 1);
        if i + 1 < s.len() {
            lemma_string_end_bounds(s, i + 2);
        }
        if i + 5 < s.len() {
            lemma_string_end_bounds(s, i + 6);
        }
    }
}

/// A token has at least one character and ends inside the text.
pub proof fn lemma_token_at_bounds(s: Seq<char>, i: int)
    requires
        0 <= i < s.len(),
    ensures
        token_at(s, i) matches Some((_, end)) ==> i < end <= s.len(),
{
    lemma_word_end_bounds(s, i + 1);
    lemma_digits_end_bounds(s, i + 1);
    lemma_string_end_bounds(s, i + 1);
}

/// What the lexer yields from index `i` of `s` on: the tokens in order, each
/// with its byte offsets, and after them an error where it met a place at
/// which no token begins.
pub open spec fn lex_from(s: Seq<char>, i: int) -> Seq<SpannedView>
    decreases s.len() - i,
    via lex_from_decreases
{
    let start = skip_trivia(s, i, false);
    if i < 0 || start >= s.len() {
        Seq::empty()
    } else {
        match token_at(s, start) {
            Some((token, end)) => seq![
                SpannedView::Token {
                    start: byte_offset(s, start),
                    token,
                    end: byte_offset(s, end),
                },
            ] + lex_from(s, end),
            None => seq![SpannedView::Error { offset: byte_offset(s, start) }],
        }
    }
}

#[via_fn]
proof fn lex_from_decreases(s: Seq<char>, i: int) {
    if 0 <= i <= s.len() {
        lemma_skip_trivia_bounds(s, i, false);
        let start = skip_trivia(s, i, false);
        if start < s.len() {
            lemma_token_at_bounds(s, start);
        }
    }
}

/// What the lexer yields for the source text `s`.
pub open spec fn lex(s: Seq<char>) -> Seq<SpannedView> {
    lex_from(s, 0)
}

fn is_digit_char(c: char) -> (b: bool)
    ensures
        b == is_digit(c),
{
    c >= '0' && c <= '9'
}

fn is_letter_char(c: char) -> (b: bool)
    ensures
        b == is_letter(c),
{
    (c >= 'a' && c <= 'z') || (c >= 'A' && c <= 'Z') || (c >= '\u{410}' && c <= '\u{44f}') || c
        == '\u{401}' || c == '\u{451}' || c == '\u{4ae}' || c == '\u{4af}' || c == '\u{4e8}' || c
        == '\u{4e9}'
}

fn is_word_char_char(c: char) -> (b: bool)
    ensures
        b == is_word_char(c),
{
    is_letter_char(c) || is_digit_char(c) || c == '_'
}

fn is_space_char(c: char) -> (b: bool)
    ensures
        b == is_space(c),
{
    c == ' ' || c == '\t' || c == '\n' || c == '\u{c}'
}

fn is_hex_digit_char(c: char) -> (b: bool)
    ensures
        b == is_hex_digit(c),
{
    is_digit_char(c) || (c >= 'a' && c <= 'f') || (c >= 'A' && c <= 'F')
}

fn is_simple_escape_char(c: char) -> (b: bool)
    ensures
        b == is_simple_escape(c),
{
    c == '"' || c == '\\' || c == 'b' || c == 'n' || c == 'f' || c == 'r' || c == 't'
}

/// Whether a place in the text is known by both its index and its byte
/// offset, in a text whose byte offsets all fit.
spec fn placed(source: Seq<char>, index: usize, offset: usize) -> bool {
    &&& index <= source.len()
    &&& offset == byte_offset(source, index as int)
    &&& utf8_len(source) <= usize::MAX
}

/// The byte offset of the character after the one at `index`.
fn offset_after(source: &Vec<char>, index: usize, offset: usize) -> (next: usize)
    requires
        index < source.len(),
        placed(source@, index, offset),
    ensures
        placed(source@, (index + 1) as usize, next),
{
    proof {
        lemma_byte_offset_step(source@, index as int);
        lemma_byte_offset_monotone(source@, index + 1, source@.len() as int);
        lemma_byte_offset_ends(source@);
    }
    offset + width_of(source[index])
}

/// Whether the characters of `source` from `from` up to `to` spell `word`.
fn word_is(source: &Vec<char>, from: usize, to: usize, word: &str) -> (same: bool)
    requires
        from <= to <= source.len(),
    ensures
        same == (source@.subrange(from as int, to as int) == word@),
{
    let letters = chars_of(word);
    if letters.len() != to - from {
        return false;
    }
    let mut k: usize = 0;
    while k < letters.len()
        invariant
            from <= to <= source.len(),
            letters.len() == to - from,
            letters@ == word@,
            k <= letters.len(),
            forall|m: int| 0 <= m < k ==> source@[from + m] == letters@[m],
        decreases letters.len() - k,
    {
        if source[from + k] != letters[k] {
            assert(source@.subrange(from as int, to as int)[k as int] != letters@[k as int]);
            return false;
        }
        k += 1;
    }
    assert(source@.subrange(from as int, to as int) =~= letters@);
    true
}

/// Reads the word that begins at `start`.
fn scan_word(source: &Vec<char>, start: usize, offset: usize) -> (found: (Token, usize, usize))
    requires
        start < source.len(),
        placed(source@, start, offset),
        is_letter(source@[start as int]),
    ensures
        token_at(source@, start as int) == Some((found.0@, found.1 as int)),
        placed(source@, found.1, found.2),
{
    let mut end: usize = start;
    let mut end_offset: usize = offset;
    while end < source.len() && is_word_char_char(source[end])
        invariant
            start <= end <= source.len(),
            placed(source@, end, end_offset),
            word_end(source@, start as int) == word_end(source@, end as int),
        decreases source.len() - end,
    {
        end_offset = offset_after(source, end, end_offset);
        end += 1;
    }
    let token = if word_is(source, start, end, "function") || word_is(source, start, end, "фн") {
        Token::Fn
    } else if word_is(source, start, end, "тоо") {
        Token::NumberType
    } else if word_is(source, start, end, "буц") {
        Token::Return
    } else if word_is(source, start, end, "үнэн") {
        Token::True
    } else if word_is(source, start, end, "худал") {
        Token::False
    } else if word_is(source, start, end, "хоосон") {
        Token::Null
    } else {
        Token::Identifier(substring(source, start, end))
    };
    (token, end, end_offset)
}

/// Reads the number that begins at `start`.
fn scan_number(source: &Vec<char>, start: usize, offset: usize) -> (found: (Token, usize, usize))
    requires
        start < source.len(),
        placed(source@, start, offset),
        is_digit(source@[start as int]),
    ensures
        token_at(source@, start as int) == Some((found.0@, found.1 as int)),
        placed(source@, found.1, found.2),
{
    let mut end: usize = start;
    let mut end_offset: usize = offset;
    while end < source.len() && is_digit_char(source[end])
        invariant
            start <= end <= source.len(),
            placed(source@, end, end_offset),
            digits_end(source@, start as int) == digits_end(source@, end as int),
        decreases source.len() - end,
    {
        end_offset = offset_after(source, end, end_offset);
        end += 1;
    }
    (Token::NumberLiteral(substring(source, start, end)), end, end_offset)
}

/// Reads the string whose opening quote stands at `start`.
fn scan_string(source: &Vec<char>, start: usize, offset: usize) -> (found: Option<
    (Token, usize, usize),
>)
    requires
        start < source.len(),
        placed(source@, start, offset),
        source@[start as int] == '"',
    ensures
        match found {
            Some((token, end, end_offset)) => {
                &&& token_at(source@, start as int) == Some((token@, end as int))
                &&& placed(source@, end, end_offset)
            },
            None => token_at(source@, start as int) is None,
        },
{
    let n = source.len();
    let mut at: usize = start + 1;
    let mut at_offset: usize = offset_after(source, start, offset);
    loop
        invariant
            n == source.len(),
            start < at <= n,
            placed(source@, at, at_offset),
            string_end(source@, start + 1) == string_end(source@, at as int),
            source@[start as int] == '"',
        decreases n - at,
    {
        if at >= n {
            return None;
        }
        let c = source[at];
        if c == '"' {
            let end_offset = offset_after(source, at, at_offset);
            return Some((Token::String(substring(source, start + 1, at)), at + 1, end_offset));
        }
        if c == '\n' {
            return None;
        }
        if c == '\\' {
            if n - at > 1 && is_simple_escape_char(source[at + 1]) {
                at_offset = offset_after(source, at, at_offset);
                at_offset = offset_after(source, at + 1, at_offset);
                at += 2;
            } else if n - at > 5 && source[at + 1] == 'u' && is_hex_digit_char(source[at + 2])
                && is_hex_digit_char(source[at + 3]) && is_hex_digit_char(source[at + 4])
                && is_hex_digit_char(source[at + 5]) {
                at_offset = offset_after(source, at, at_offset);
                at_offset = offset_after(source, at + 1, at_offset);
                at_offset = offset_after(source, at + 2, at_offset);
                at_offset = offset_after(source, at + 3, at_offset);
                at_offset = offset_after(source, at + 4, at_offset);
                at_offset = offset_after(source, at + 5, at_offset);
                at += 6;
            } else {
                return None;
            }
        } else {
            at_offset = offset_after(source, at, at_offset);
            at += 1;
        }
    }
}

/// Whether the character after the one at `index` is `c`.
fn is_followed_by(source: &Vec<char>, index: usize, c: char) -> (b: bool)
    requires
        index < source.len(),
    ensures
        b == followed_by(source@, index as int, c),
{
    source.len() - index > 1 && source[index + 1] == c
}

/// Reads the operator or punctuation that begins at `start`.
fn scan_punctuation(source: &Vec<char>, start: usize, offset: usize) -> (found: Option<
    (Token, usize, usize),
>)
    requires
        start < source.len(),
        placed(source@, start, offset),
    ensures
        match found {
            Some((token, end, end_offset)) => {
                &&& punctuation_at(source@, start as int) == Some((token@, end as int))
                &&& placed(source@, end, end_offset)
            },
            None => punctuation_at(source@, start as int) is None,
        },
{
    let c = source[start];
    let one = offset_after(source, start, offset);
    let (token, long) = if c == '(' {
        (Token::LParen, false)
    } else if c == ')' {
        (Token::RParen, false)
    } else if c == '{' {
        (Token::LBrace, false)
    } else if c == '}' {
        (Token::RBrace, false)
    } else if c == ';' {
        (Token::Semicolon, false)
    } else if c == '+' {
        (Token::Add, false)
    } else if c == '~' {
        (Token::Tilde, false)
    } else if c == '*' {
        (Token::Star, false)
    } else if c == '/' {
        (Token::Slash, false)
    } else if c == '-' {
        if is_followed_by(source, start, '>') {
            (Token::RightArrow, true)
        } else {
            (Token::Minus, false)
        }
    } else if c == '!' {
        if is_followed_by(source, start, '=') {
            (Token::NotEqual, true)
        } else {
            (Token::Not, false)
        }
    } else if c == '<' {
        if is_followed_by(source, start, '=') {
            (Token::LessEqual, true)
        } else {
            (Token::Less, false)
        }
    } else if c == '>' {
        if is_followed_by(source, start, '=') {
            (Token::GreaterEqual, true)
        } else {
            (Token::Greater, false)
        }
    } else if c == '=' && is_followed_by(source, start, '=') {
        (Token::EqualEqual, true)
    } else if c == '&' && is_followed_by(source, start, '&') {
        (Token::And, true)
    } else if c == '|' && is_followed_by(source, start, '|') {
        (Token::Or, true)
    } else {
        return None;
    };
    if long {
        let two = offset_after(source, start + 1, one);
        Some((token, start + 2, two))
    } else {
        Some((token, start + 1, one))
    }
}

/// Reads the token that begins at `start`.
fn scan_token(source: &Vec<char>, start: usize, offset: usize) -> (found: Option<
    (Token, usize, usize),
>)
    requires
        start < source.len(),
        placed(source@, start, offset),
    ensures
        match found {
            Some((token, end, end_offset)) => {
                &&& token_at(source@, start as int) == Some((token@, end as int))
                &&& placed(source@, end, end_offset)
            },
            None => token_at(source@, start as int) is None,
        },
{
    let c = source[start];
    if is_letter_char(c) {
        Some(scan_word(source, start, offset))
    } else if is_digit_char(c) {
        Some(scan_number(source, start, offset))
    } else if c == '"' {
        scan_string(source, start, offset)
    } else {
        scan_punctuation(source, start, offset)
    }
}

/// Moves past white space and comments from `start` on, and gives the place
/// of the first character after them.
fn skip(source: &Vec<char>, start: usize, offset: usize) -> (found: (usize, usize))
    requires
        placed(source@, start, offset),
    ensures
        found.0 == skip_trivia(source@, start as int, false),
        placed(source@, found.0, found.1),
{
    let mut at = start;
    let mut at_offset = offset;
    let mut in_comment = false;
    while at < source.len()
        invariant
            placed(source@, at, at_offset),
            skip_trivia(source@, start as int, false) == skip_trivia(
                source@,
                at as int,
                in_comment,
            ),
        ensures
            placed(source@, at, at_offset),
            at == skip_trivia(source@, start as int, false),
        decreases source.len() - at,
    {
        let c = source[at];
        if in_comment {
            in_comment = c != '\n';
        } else if is_space_char(c) {
        } else if c == '#' {
            in_comment = true;
        } else {
            break ;
        }
        at_offset = offset_after(source, at, at_offset);
        at += 1;
    }
    (at, at_offset)
}

/// Where a lexer stands in its text.
struct Place {
    /// The index of the first character not yet read.
    cursor: usize,
    /// The byte offset of that character.
    offset: usize,
    /// Whether the last item has been handed out.
    finished: bool,
}

/// A lexer over one source text. It hands out the items of the text one by
/// one and cannot be restarted.
pub struct Lexer {
    source: Vec<char>,
    place: Place,
}

impl Lexer {
    /// The lexer knows its place in its text both as an index and as a byte
    /// offset.
    #[verifier::type_invariant]
    spec fn knows_its_place(&self) -> bool {
        placed(self.source@, self.place.cursor, self.place.offset)
    }

    /// The items that the lexer has yet to hand out, in order.
    pub closed spec fn remaining(&self) -> Seq<SpannedView> {
        if self.place.finished {
            Seq::empty()
        } else {
            lex_from(self.source@, self.place.cursor as int)
        }
    }

    /// A lexer at the beginning of `input`.
    pub fn new(input: &str) -> (lexer: Lexer)
        ensures
            lexer.remaining() == lex(input@),
    {
        // A text that is held in memory has a length in bytes that fits.
        let total = byte_len(input);
        proof {
            lemma_byte_offset_ends(input@);
        }
        Lexer { source: chars_of(input), place: Place { cursor: 0, offset: 0, finished: false } }
    }

    /// Hands out the next item: a token with its byte offsets, or an error
    /// with the offset at which no token begins. `None` once the text is
    /// used up or an error has been handed out.
    pub fn next(&mut self) -> (item: Option<Spanned<Token, usize, Error>>)
        ensures
            match item {
                Some(item) => {
                    &&& old(self).remaining().len() > 0
                    &&& item_view(item) == old(self).remaining()[0]
                    &&& final(self).remaining() == old(self).remaining().drop_first()
                },
                None => {
                    &&& old(self).remaining().len() == 0
                    &&& final(self).remaining().len() == 0
                },
            },
    {
        proof {
            use_type_invariant(&*self);
        }
        if self.place.finished {
            return None;
        }
        let (start, start_offset) = skip(&self.source, self.place.cursor, self.place.offset);
        if start >= self.source.len() {
            self.place = Place { cursor: start, offset: start_offset, finished: true };
            return None;
        }
        match scan_token(&self.source, start, start_offset) {
            Some((token, end, end_offset)) => {
                self.place = Place { cursor: end, offset: end_offset, finished: false };
                assert(old(self).remaining().drop_first() == lex_from(self.source@, end as int));
                Some(Ok((start_offset, token, end_offset)))
            },
            None => {
                self.place = Place { cursor: start, offset: start_offset, finished: true };
                assert(old(self).remaining().drop_first() == Seq::<SpannedView>::empty());
                Some(Err(Error::LexicalError { offset: start_offset }))
            },
        }
    }

    /// Hands out all the items that are left, in order.
    pub fn collect(self) -> (items: Vec<Spanned<Token, usize, Error>>)
        ensures
            items_view(items@) == self.remaining(),
    {
        let mut lexer = self;
        let ghost all = lexer.remaining();
        let mut items: Vec<Spanned<Token, usize, Error>> = Vec::new();
        loop
            invariant
                items_view(items@) + lexer.remaining() == all,
            ensures
                items_view(items@) == all,
            decreases lexer.remaining().len(),
        {
            match lexer.next() {
                Some(item) => {
                    let ghost before = items@;
                    items.push(item);
                    assert(items_view(items@) == items_view(before).push(item_view(item)));
                },
                None => {
                    assert(items_view(items@) + lexer.remaining() == items_view(items@));
                    break ;
                },
            }
        }
        items
    }
}

/// Every item of `input`, in order: its tokens, and after them an error if
/// the lexer met a place at which no token begins.
pub fn tokenize(input: &str) -> (items: Vec<Spanned<Token, usize, Error>>)
    ensures
        items_view(items@) == lex(input@),
{
    Lexer::new(input).collect()
}

} // verus!
