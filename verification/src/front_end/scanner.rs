//! A scanner that reads a text one character at a time and knows words of one
//! letter and the two parentheses.

use crate::front_end::lexer::{Error, Token, TokenView};
use crate::text::{chars_of, string_from_chars};
use vstd::prelude::*;

verus! {

#[derive(Debug)]
pub struct Scanner {
    source: Vec<char>,
    token_type: i32,
    cursor: usize,
    start: usize,
    line: usize,
}

/// The view of a [`Scanner`]: its text, the index of the next character to
/// read, and the index at which the token last read began.
pub struct ScannerView {
    pub source: Seq<char>,
    pub cursor: nat,
    pub start: nat,
}

impl View for Scanner {
    type V = ScannerView;

    closed spec fn view(&self) -> ScannerView {
        ScannerView {
            source: self.source@,
            cursor: self.cursor as nat,
            start: self.start as nat,
        }
    }
}

/// Whether `c` is a Latin letter or a letter from `а` to `я`, small or
/// capital.
pub open spec fn is_alpha(c: char) -> bool {
    ||| 'a' <= c <= 'z'
    ||| 'A' <= c <= 'Z'
    // а to я
    ||| '\u{430}' <= c <= '\u{44f}'
    // А to Я
    ||| '\u{410}' <= c <= '\u{42f}'
}

/// Whether the scanner knows a token that begins with `c`.
pub open spec fn begins_token(c: char) -> bool {
    is_alpha(c) || c == '(' || c == ')'
}

/// The token that the single character `c` is: a parenthesis, or else the
/// identifier of that one letter.
pub open spec fn token_of(c: char) -> TokenView {
    if is_alpha(c) {
        TokenView::Identifier(seq![c])
    } else if c == '(' {
        TokenView::LParen
    } else {
        TokenView::RParen
    }
}

impl Scanner {
    /// A scanner at the beginning of `source`.
    pub fn new(source: String) -> (scanner: Scanner)
        ensures
            scanner@ == (ScannerView { source: source@, cursor: 0, start: 0 }),
    {
        Scanner { token_type: 0, line: 0, cursor: 0, start: 0, source: chars_of(source.as_str()) }
    }

    /// Reads one character and moves past it.
    fn next(&mut self) -> (c: char)
        requires
            old(self)@.cursor < old(self)@.source.len(),
        ensures
            c == old(self)@.source[old(self)@.cursor as int],
            final(self)@ == (ScannerView { cursor: old(self)@.cursor + 1, ..old(self)@ }),
    {
        let c = self.source[self.cursor];
        assert(self.source@.len() == self.source.len());
        self.cursor += 1;
        c
    }

    fn is_alpha(&mut self, c: char) -> (b: bool)
        ensures
            b == is_alpha(c),
            final(self)@ == old(self)@,
    {
        (c >= 'a' && c <= 'z') || (c >= 'A' && c <= 'Z') || (c >= '\u{430}' && c <= '\u{44f}') || (c
            >= '\u{410}' && c <= '\u{42f}')
    }

    /// Reads the token of one character that stands at the cursor, and moves
    /// past it. The scanner knows no other token: the text must hold, at the
    /// cursor, a letter or a parenthesis.
    pub fn scan(&mut self) -> (result: Result<Token, Error>)
        requires
            old(self)@.cursor < old(self)@.source.len(),
            begins_token(old(self)@.source[old(self)@.cursor as int]),
        ensures
            result matches Ok(token) && token@ == token_of(
                old(self)@.source[old(self)@.cursor as int],
            ),
            final(self)@ == (ScannerView {
                source: old(self)@.source,
                cursor: old(self)@.cursor + 1,
                start: old(self)@.cursor,
            }),
    {
        self.start = self.cursor;
        let c = self.next();
        if self.is_alpha(c) {
            let mut letter: Vec<char> = Vec::new();
            letter.push(c);
            Ok(Token::Identifier(string_from_chars(letter)))
        } else if c == '(' {
            Ok(Token::LParen)
        } else {
            Ok(Token::RParen)
        }
    }
}

} // verus!
