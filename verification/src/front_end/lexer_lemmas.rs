//! What holds of every text that is lexed.

use crate::decimal::is_digit;
use crate::front_end::lexer::{
    digits_end, is_letter, is_space, is_word_char, keyword, lemma_skip_trivia_bounds,
    lemma_token_at_bounds, lex, lex_from, skip_trivia, token_at, word_end, SpannedView, TokenView,
};
use crate::text::{byte_offset, lemma_byte_offset_ends, lemma_byte_offset_monotone, utf8_len};
use vstd::prelude::*;

verus! {

/// The byte offset at which an item begins.
pub open spec fn item_start(item: SpannedView) -> nat {
    match item {
        SpannedView::Token { start, .. } => start,
        SpannedView::Error { offset } => offset,
    }
}

/// The byte offset at which an item ends; an error ends where it begins.
pub open spec fn item_end(item: SpannedView) -> nat {
    match item {
        SpannedView::Token { end, .. } => end,
        SpannedView::Error { offset } => offset,
    }
}

/// Whether the items lie one after the other between the byte offsets `low`
/// and `high`: each begins at or after the end of the one before, every
/// token has at least one byte, and only the last item may be an error.
pub open spec fn in_order(items: Seq<SpannedView>, low: nat, high: nat) -> bool {
    &&& forall|k: int|
        0 <= k < items.len() ==> low <= item_start(#[trigger] items[k]) <= item_end(items[k])
            <= high
    &&& forall|k: int|
        0 <= k < items.len() && #[trigger] items[k] is Token ==> item_start(items[k]) < item_end(
            items[k],
        )
    &&& forall|j: int, k: int|
        0 <= j < k < items.len() ==> item_end(#[trigger] items[j]) <= item_start(
            #[trigger] items[k],
        )
    &&& forall|k: int| 0 <= k < items.len() - 1 ==> #[trigger] items[k] is Token
}

/// The items read from index `i` on lie in order between the byte offset of
/// `i` and the end of the text.
pub proof fn lemma_lex_from_in_order(s: Seq<char>, i: int)
    requires
        0 <= i <= s.len(),
    ensures
        in_order(lex_from(s, i), byte_offset(s, i), utf8_len(s)),
    decreases s.len() - i,
{
    let start = skip_trivia(s, i, false);
    lemma_skip_trivia_bounds(s, i, false);
    lemma_byte_offset_ends(s);
    if start < s.len() {
        lemma_token_at_bounds(s, start);
        lemma_byte_offset_monotone(s, i, start);
        lemma_byte_offset_monotone(s, start, s.len() as int);
        match token_at(s, start) {
            Some((token, end)) => {
                lemma_lex_from_in_order(s, end);
                lemma_byte_offset_monotone(s, start, end);
                lemma_byte_offset_monotone(s, end, s.len() as int);
                let first = SpannedView::Token {
                    start: byte_offset(s, start),
                    token,
                    end: byte_offset(s, end),
                };
                let rest = lex_from(s, end);
                let all = lex_from(s, i);
                assert(all == seq![first] + rest);
                assert forall|k: int| 0 <= k < all.len() implies (if k == 0 {
                    all[k] == first
                } else {
                    all[k] == rest[k - 1]
                }) by {}
                assert forall|j: int, k: int| 0 <= j < k < all.len() implies item_end(
                    #[trigger] all[j],
                ) <= item_start(#[trigger] all[k]) by {
                    assert(all[k] == rest[k - 1]);
                    if j > 0 {
                        assert(all[j] == rest[j - 1]);
                    }
                }
                assert forall|k: int| 0 <= k < all.len() - 1 implies #[trigger] all[k] is Token by {
                    if k > 0 {
                        assert(all[k] == rest[k - 1]);
                    }
                }
            },
            None => {},
        }
    }
}

/// The items of a text lie in order of their byte offsets and inside the
/// text: no span ends before it begins, no item begins before the one
/// before it has ended, and an error, where there is one, is the last item.
pub proof fn lemma_lex_in_order(s: Seq<char>)
    ensures
        in_order(lex(s), 0, utf8_len(s)),
{
    lemma_lex_from_in_order(s, 0);
    lemma_byte_offset_ends(s);
}

/// Whether `item` is the token that begins at index `i` of `s` and ends
/// before index `j`, with the byte offsets of those two indices.
pub open spec fn stands_in(s: Seq<char>, i: int, j: int, item: SpannedView) -> bool {
    &&& 0 <= i < j <= s.len()
    &&& item matches SpannedView::Token { start, token, end }
    &&& token_at(s, i) == Some((token, j))
    &&& start == byte_offset(s, i)
    &&& end == byte_offset(s, j)
}

/// Every token that the lexer yields from index `from` on stands in the
/// text, at some index that is not before `from`.
pub proof fn lemma_tokens_stand_in_text(s: Seq<char>, from: int, k: int)
    requires
        0 <= from <= s.len(),
        0 <= k < lex_from(s, from).len(),
        lex_from(s, from)[k] is Token,
    ensures
        exists|i: int, j: int| from <= i && #[trigger] stands_in(s, i, j, lex_from(s, from)[k]),
    decreases s.len() - from,
{
    let start = skip_trivia(s, from, false);
    lemma_skip_trivia_bounds(s, from, false);
    lemma_token_at_bounds(s, start);
    match token_at(s, start) {
        Some((token, end)) => {
            if k == 0 {
                assert(stands_in(s, start, end, lex_from(s, from)[k]));
            } else {
                assert(lex_from(s, from)[k] == lex_from(s, end)[k - 1]);
                lemma_tokens_stand_in_text(s, end, k - 1);
                let (i, j) = choose|i: int, j: int|
                    end <= i && #[trigger] stands_in(s, i, j, lex_from(s, end)[k - 1]);
                assert(stands_in(s, i, j, lex_from(s, from)[k]));
            }
        },
        None => {},
    }
}

/// A word is read as far as it goes: every character from `i` up to where
/// the word ends can stand inside a word, and the character at which it
/// ends, if there is one, cannot.
pub proof fn lemma_word_end_is_longest(s: Seq<char>, i: int)
    requires
        0 <= i <= s.len(),
    ensures
        i <= word_end(s, i) <= s.len(),
        forall|k: int| i <= k < word_end(s, i) ==> is_word_char(#[trigger] s[k]),
        word_end(s, i) < s.len() ==> !is_word_char(s[word_end(s, i)]),
    decreases s.len() - i,
{
    if i < s.len() && is_word_char(s[i]) {
        lemma_word_end_is_longest(s, i + 1);
    }
}

/// A number is read as far as it goes: every character from `i` up to where
/// the number ends is a digit, and the character at which it ends, if there
/// is one, is none.
pub proof fn lemma_digits_end_is_longest(s: Seq<char>, i: int)
    requires
        0 <= i <= s.len(),
    ensures
        i <= digits_end(s, i) <= s.len(),
        forall|k: int| i <= k < digits_end(s, i) ==> is_digit(#[trigger] s[k]),
        digits_end(s, i) < s.len() ==> !is_digit(s[digits_end(s, i)]),
    decreases s.len() - i,
{
    if i < s.len() && is_digit(s[i]) {
        lemma_digits_end_is_longest(s, i + 1);
    }
}

/// White space and comments are passed over whole: the place at which the
/// lexer looks for a token, if it lies in the text, holds neither white space
/// nor the beginning of a comment.
pub proof fn lemma_skip_trivia_stops_at_token(s: Seq<char>, i: int, in_comment: bool)
    requires
        0 <= i <= s.len(),
    ensures
        ({
            let start = skip_trivia(s, i, in_comment);
            start < s.len() ==> !is_space(s[start]) && s[start] != '#'
        }),
    decreases s.len() - i,
{
    if i < s.len() {
        lemma_skip_trivia_stops_at_token(s, i + 1, true);
        lemma_skip_trivia_stops_at_token(s, i + 1, false);
    }
}

/// A run of word characters that reaches the end of the text ends there.
proof fn lemma_word_end_of_word(s: Seq<char>, i: int)
    requires
        0 <= i <= s.len(),
        forall|k: int| i <= k < s.len() ==> is_word_char(#[trigger] s[k]),
    ensures
        word_end(s, i) == s.len(),
    decreases s.len() - i,
{
    if i < s.len() {
        lemma_word_end_of_word(s, i + 1);
    }
}

/// A text that begins with a letter, goes on with letters, digits and
/// underscores only, and is no keyword, is lexed as one identifier that spans
/// the whole text.
pub proof fn lemma_word_is_one_identifier(s: Seq<char>)
    requires
        s.len() > 0,
        is_letter(s[0]),
        forall|k: int| 0 <= k < s.len() ==> is_word_char(#[trigger] s[k]),
        keyword(s) is None,
    ensures
        lex(s) == seq![
            SpannedView::Token { start: 0, token: TokenView::Identifier(s), end: utf8_len(s) },
        ],
{
    lemma_word_end_of_word(s, 0);
    lemma_byte_offset_ends(s);
    assert(s.subrange(0, s.len() as int) == s);
    assert(skip_trivia(s, 0, false) == 0);
    assert(lex_from(s, s.len() as int) == Seq::<SpannedView>::empty());
}

/// Whether a token is one of the keywords, operators and punctuation marks:
/// those that are always written the same way.
pub open spec fn is_fixed(token: TokenView) -> bool {
    !(token is String || token is Identifier || token is NumberLiteral)
}

/// How a keyword, an operator or a punctuation mark is written.
pub open spec fn spelling(token: TokenView) -> Seq<char> {
    match token {
        TokenView::Fn => "function"@,
        TokenView::RightArrow => "->"@,
        TokenView::NumberType => "тоо"@,
        TokenView::Return => "буц"@,
        TokenView::True => "үнэн"@,
        TokenView::False => "худал"@,
        TokenView::Add => "+"@,
        TokenView::Minus => "-"@,
        TokenView::Not => "!"@,
        TokenView::Tilde => "~"@,
        TokenView::LParen => "("@,
        TokenView::RParen => ")"@,
        TokenView::LBrace => "{"@,
        TokenView::RBrace => "}"@,
        TokenView::Semicolon => ";"@,
        TokenView::Null => "хоосон"@,
        TokenView::Star => "*"@,
        TokenView::Slash => "/"@,
        TokenView::EqualEqual => "=="@,
        TokenView::NotEqual => "!="@,
        TokenView::Less => "<"@,
        TokenView::LessEqual => "<="@,
        TokenView::Greater => ">"@,
        TokenView::GreaterEqual => ">="@,
        TokenView::And => "&&"@,
        TokenView::Or => "||"@,
        TokenView::String(text) => text,
        TokenView::Identifier(text) => text,
        TokenView::NumberLiteral(text) => text,
    }
}

/// The tokens written one after the other, with one space between each two.
pub open spec fn spelled(tokens: Seq<TokenView>) -> Seq<char>
    decreases tokens.len(),
{
    if tokens.len() == 0 {
        Seq::empty()
    } else if tokens.len() == 1 {
        spelling(tokens[0])
    } else {
        spelling(tokens[0]) + seq![' '] + spelled(tokens.drop_first())
    }
}

/// Whether `word` stands in `s` at index `i` and is followed there by a space
/// or by the end of the text.
pub open spec fn stands_alone(s: Seq<char>, i: int, word: Seq<char>) -> bool {
    &&& 0 <= i
    &&& i + word.len() <= s.len()
    &&& s.subrange(i, i + word.len()) == word
    &&& i + word.len() < s.len() ==> s[i + word.len()] == ' '
}

/// The spellings of the keywords, character by character.
proof fn lemma_keyword_spellings()
    ensures
        "function"@ == seq!['f', 'u', 'n', 'c', 't', 'i', 'o', 'n'],
        "фн"@ == seq!['ф', 'н'],
        "тоо"@ == seq!['т', 'о', 'о'],
        "буц"@ == seq!['б', 'у', 'ц'],
        "үнэн"@ == seq!['ү', 'н', 'э', 'н'],
        "худал"@ == seq!['х', 'у', 'д', 'а', 'л'],
        "хоосон"@ == seq!['х', 'о', 'о', 'с', 'о', 'н'],
{
    reveal_strlit("function");
    reveal_strlit("фн");
    reveal_strlit("тоо");
    reveal_strlit("буц");
    reveal_strlit("үнэн");
    reveal_strlit("худал");
    reveal_strlit("хоосон");
    assert("function"@ =~= seq!['f', 'u', 'n', 'c', 't', 'i', 'o', 'n']);
    assert("фн"@ =~= seq!['ф', 'н']);
    assert("тоо"@ =~= seq!['т', 'о', 'о']);
    assert("буц"@ =~= seq!['б', 'у', 'ц']);
    assert("үнэн"@ =~= seq!['ү', 'н', 'э', 'н']);
    assert("худал"@ =~= seq!['х', 'у', 'д', 'а', 'л']);
    assert("хоосон"@ =~= seq!['х', 'о', 'о', 'с', 'о', 'н']);
}

/// A word made of letters that stands alone ends where its letters end.
proof fn lemma_word_end_alone(s: Seq<char>, i: int, word: Seq<char>, k: int)
    requires
        stands_alone(s, i, word),
        0 <= k <= word.len(),
        forall|m: int| 0 <= m < word.len() ==> is_letter(#[trigger] word[m]),
    ensures
        word_end(s, i + k) == i + word.len(),
    decreases word.len() - k,
{
    if k < word.len() {
        assert(s[i + k] == s.subrange(i, i + word.len())[k]);
        lemma_word_end_alone(s, i, word, k + 1);
    }
}

/// A keyword that stands alone is read as itself.
proof fn lemma_keyword_alone(s: Seq<char>, i: int, token: TokenView)
    requires
        keyword(spelling(token)) == Some(token),
        stands_alone(s, i, spelling(token)),
    ensures
        skip_trivia(s, i, false) == i,
        token_at(s, i) == Some((token, i + spelling(token).len())),
{
    lemma_keyword_spellings();
    let word = spelling(token);
    assert(word.len() > 0);
    assert forall|m: int| 0 <= m < word.len() implies is_letter(#[trigger] word[m]) by {}
    lemma_word_end_alone(s, i, word, 0);
    assert(s[i] == s.subrange(i, i + word.len())[0]);
}

/// The spellings of the operators and punctuation marks, character by
/// character.
proof fn lemma_punctuation_spellings()
    ensures
        "->"@ == seq!['-', '>'],
        "+"@ == seq!['+'],
        "-"@ == seq!['-'],
        "!"@ == seq!['!'],
        "~"@ == seq!['~'],
        "("@ == seq!['('],
        ")"@ == seq![')'],
        "{"@ == seq!['{'],
        "}"@ == seq!['}'],
        ";"@ == seq![';'],
        "*"@ == seq!['*'],
        "/"@ == seq!['/'],
        "=="@ == seq!['=', '='],
        "!="@ == seq!['!', '='],
        "<"@ == seq!['<'],
        "<="@ == seq!['<', '='],
        ">"@ == seq!['>'],
        ">="@ == seq!['>', '='],
        "&&"@ == seq!['&', '&'],
        "||"@ == seq!['|', '|'],
{
    reveal_strlit("->");
    reveal_strlit("+");
    reveal_strlit("-");
    reveal_strlit("!");
    reveal_strlit("~");
    reveal_strlit("(");
    reveal_strlit(")");
    reveal_strlit("{");
    reveal_strlit("}");
    reveal_strlit(";");
    reveal_strlit("*");
    reveal_strlit("/");
    reveal_strlit("==");
    reveal_strlit("!=");
    reveal_strlit("<");
    reveal_strlit("<=");
    reveal_strlit(">");
    reveal_strlit(">=");
    reveal_strlit("&&");
    reveal_strlit("||");
    assert("->"@ =~= seq!['-', '>']);
    assert("+"@ =~= seq!['+']);
    assert("-"@ =~= seq!['-']);
    assert("!"@ =~= seq!['!']);
    assert("~"@ =~= seq!['~']);
    assert("("@ =~= seq!['(']);
    assert(")"@ =~= seq![')']);
    assert("{"@ =~= seq!['{']);
    assert("}"@ =~= seq!['}']);
    assert(";"@ =~= seq![';']);
    assert("*"@ =~= seq!['*']);
    assert("/"@ =~= seq!['/']);
    assert("=="@ =~= seq!['=', '=']);
    assert("!="@ =~= seq!['!', '=']);
    assert("<"@ =~= seq!['<']);
    assert("<="@ =~= seq!['<', '=']);
    assert(">"@ =~= seq!['>']);
    assert(">="@ =~= seq!['>', '=']);
    assert("&&"@ =~= seq!['&', '&']);
    assert("||"@ =~= seq!['|', '|']);
}

/// An operator or a punctuation mark that stands alone is read as itself.
proof fn lemma_punctuation_alone(s: Seq<char>, i: int, token: TokenView)
    requires
        is_fixed(token),
        keyword(spelling(token)) is None,
        stands_alone(s, i, spelling(token)),
    ensures
        skip_trivia(s, i, false) == i,
        token_at(s, i) == Some((token, i + spelling(token).len())),
{
    lemma_keyword_spellings();
    lemma_punctuation_spellings();
    let word = spelling(token);
    assert(s[i] == s.subrange(i, i + word.len())[0]);
    if word.len() > 1 {
        assert(s[i + 1] == s.subrange(i, i + word.len())[1]);
    }
}

/// A keyword, an operator or a punctuation mark that stands alone is read as
/// itself.
pub proof fn lemma_fixed_token_alone(s: Seq<char>, i: int, token: TokenView)
    requires
        is_fixed(token),
        stands_alone(s, i, spelling(token)),
    ensures
        skip_trivia(s, i, false) == i,
        token_at(s, i) == Some((token, i + spelling(token).len())),
        spelling(token).len() > 0,
{
    lemma_keyword_spellings();
    lemma_punctuation_spellings();
    if keyword(spelling(token)) is None {
        lemma_punctuation_alone(s, i, token);
    } else {
        lemma_keyword_alone(s, i, token);
    }
}

/// Where the rest of a text, from index `i` on, is a list of keywords,
/// operators and punctuation marks written with single spaces between them,
/// lexing it from there gives those tokens back.
pub proof fn lemma_lex_from_spelled(s: Seq<char>, i: int, tokens: Seq<TokenView>)
    requires
        0 <= i <= s.len(),
        s.skip(i) == spelled(tokens),
        forall|k: int| 0 <= k < tokens.len() ==> is_fixed(#[trigger] tokens[k]),
    ensures
        lex_from(s, i).len() == tokens.len(),
        forall|k: int|
            0 <= k < tokens.len() ==> (#[trigger] lex_from(s, i)[k] matches SpannedView::Token {
                token,
                ..
            } && token == tokens[k]),
    decreases tokens.len(),
{
    let rest_text = s.skip(i);
    if tokens.len() == 0 {
        assert(rest_text.len() == 0);
    } else {
        let token = tokens[0];
        let word = spelling(token);
        let rest = tokens.drop_first();
        lemma_keyword_spellings();
        lemma_punctuation_spellings();
        assert(word.len() > 0);
        if tokens.len() == 1 {
            assert(rest_text == word);
            assert(s.subrange(i, i + word.len()) == word);
            lemma_fixed_token_alone(s, i, token);
            assert(lex_from(s, s.len() as int) == Seq::<SpannedView>::empty());
        } else {
            let tail = spelled(rest);
            assert(rest_text == word + seq![' '] + tail);
            assert(rest_text.len() == word.len() + 1 + tail.len());
            assert(s.subrange(i, i + word.len()) == word) by {
                assert forall|m: int| 0 <= m < word.len() implies s.subrange(
                    i,
                    i + word.len(),
                )[m] == word[m] by {
                    assert(s[i + m] == rest_text[m]);
                }
                assert(s.subrange(i, i + word.len()) =~= word);
            }
            assert(s[i + word.len()] == ' ') by {
                assert(s[i + word.len()] == rest_text[word.len() as int]);
            }
            lemma_fixed_token_alone(s, i, token);
            let next = i + word.len() + 1;
            assert(s.skip(next) == tail) by {
                assert forall|m: int| 0 <= m < tail.len() implies s.skip(next)[m] == tail[m] by {
                    assert(s[next + m] == rest_text[word.len() + 1 + m]);
                }
                assert(s.skip(next) =~= tail);
            }
            lemma_lex_from_spelled(s, next, rest);
            assert(skip_trivia(s, next - 1, false) == skip_trivia(s, next, false));
            assert(lex_from(s, next - 1) == lex_from(s, next));
            let all = lex_from(s, i);
            assert forall|k: int| 0 <= k < tokens.len() implies (#[trigger] all[k]
                matches SpannedView::Token { token, .. } && token == tokens[k]) by {
                if k > 0 {
                    assert(all[k] == lex_from(s, next)[k - 1]);
                    assert(tokens[k] == rest[k - 1]);
                }
            }
        }
    }
}

/// Writing a list of keywords, operators and punctuation marks with single
/// spaces between them and lexing the text again gives the same tokens, in the
/// same order and with nothing added.
pub proof fn lemma_lex_spelled(tokens: Seq<TokenView>)
    requires
        forall|k: int| 0 <= k < tokens.len() ==> is_fixed(#[trigger] tokens[k]),
    ensures
        lex(spelled(tokens)).len() == tokens.len(),
        forall|k: int|
            0 <= k < tokens.len() ==> (#[trigger] lex(spelled(tokens))[k]
                matches SpannedView::Token { token, .. } && token == tokens[k]),
{
    let s = spelled(tokens);
    assert(s.skip(0) == s);
    lemma_lex_from_spelled(s, 0, tokens);
}

} // verus!
