//! The token sequence of a text, defined over `Seq<char>`.
//!
//! These functions say what the scanner computes; they are never run. The
//! scanner's contracts are stated against them.

use crate::std_specs::{char_is_alphabetic, char_is_whitespace};
use crate::token::TokenView;
use vstd::prelude::*;

verus! {

/// The classes of characters of which the scanner reads a whole run at once.
pub enum CharClass {
    /// Characters between tokens.
    Whitespace,
    /// Characters that continue an identifier.
    Alphabetic,
    /// Characters that continue an integer literal.
    Digit,
}

impl CharClass {
    /// Whether `c` belongs to the class.
    pub open spec fn contains(self, c: char) -> bool {
        match self {
            CharClass::Whitespace => char_is_whitespace(c),
            CharClass::Alphabetic => char_is_alphabetic(c),
            CharClass::Digit => is_decimal_digit(c),
        }
    }
}

/// Whether `c` can start an identifier: a letter or an underscore.
pub open spec fn is_letter(c: char) -> bool {
    char_is_alphabetic(c) || c == '_'
}

/// Whether `c` is one of `0` to `9`.
pub open spec fn is_decimal_digit(c: char) -> bool {
    '0' <= c <= '9'
}

/// The length of the longest prefix of `s` whose characters all belong to
/// `class`.
pub open spec fn run_len(s: Seq<char>, class: CharClass) -> nat
    decreases s.len(),
{
    if s.len() > 0 && class.contains(s[0]) {
        1 + run_len(s.drop_first(), class)
    } else {
        0
    }
}

/// The token that a word stands for: its keyword where the word is spelled
/// exactly like one, else an identifier.
pub open spec fn word_token(word: Seq<char>) -> TokenView {
    if word == "else"@ {
        TokenView::Else
    } else if word == "false"@ {
        TokenView::False
    } else if word == "fn"@ {
        TokenView::Function
    } else if word == "if"@ {
        TokenView::If
    } else if word == "let"@ {
        TokenView::Let
    } else if word == "return"@ {
        TokenView::Return
    } else if word == "true"@ {
        TokenView::True
    } else {
        TokenView::Ident(word)
    }
}

/// The characters that a token is written with. The end of the input is
/// written with none.
pub open spec fn spelling(token: TokenView) -> Seq<char> {
    match token {
        TokenView::Eof => Seq::empty(),
        TokenView::Illegal(c) => seq![c],
        TokenView::Ident(word) => word,
        TokenView::Int(digits) => digits,
        TokenView::Assign => seq!['='],
        TokenView::Asterisk => seq!['*'],
        TokenView::Bang => seq!['!'],
        TokenView::Minus => seq!['-'],
        TokenView::Plus => seq!['+'],
        TokenView::Slash => seq!['/'],
        TokenView::Gt => seq!['>'],
        TokenView::Lt => seq!['<'],
        TokenView::Eq => seq!['=', '='],
        TokenView::NotEq => seq!['!', '='],
        TokenView::Comma => seq![','],
        TokenView::Semicolon => seq![';'],
        TokenView::LBrace => seq!['{'],
        TokenView::LParen => seq!['('],
        TokenView::RBrace => seq!['}'],
        TokenView::RParen => seq![')'],
        TokenView::Else => "else"@,
        TokenView::False => "false"@,
        TokenView::Function => "fn"@,
        TokenView::If => "if"@,
        TokenView::Let => "let"@,
        TokenView::Return => "return"@,
        TokenView::True => "true"@,
    }
}

/// The token that a single character stands for when it starts neither a
/// two-character operator, nor a word, nor a number. A character without a
/// meaning of its own is illegal.
pub open spec fn symbol_token(c: char) -> TokenView {
    match c {
        '+' => TokenView::Plus,
        '-' => TokenView::Minus,
        '*' => TokenView::Asterisk,
        '/' => TokenView::Slash,
        '<' => TokenView::Lt,
        '>' => TokenView::Gt,
        ',' => TokenView::Comma,
        ';' => TokenView::Semicolon,
        '(' => TokenView::LParen,
        ')' => TokenView::RParen,
        '{' => TokenView::LBrace,
        '}' => TokenView::RBrace,
        _ => TokenView::Illegal(c),
    }
}

/// Whether the second character of `s` is `=`, which makes an operator of two
/// characters out of a first character `=` or `!`.
pub open spec fn equals_follows(s: Seq<char>) -> bool {
    s.len() > 1 && s[1] == '='
}

/// The number of characters of the token at the front of `s`.
///
/// An identifier extends over the letters that follow its first character, a
/// number over the digits that follow its first digit, `==` and `!=` take two
/// characters, and every other token takes one.
pub open spec fn token_len(s: Seq<char>) -> nat
    recommends
        s.len() > 0,
{
    let c = s[0];
    if c == '=' || c == '!' {
        if equals_follows(s) {
            2
        } else {
            1
        }
    } else if is_letter(c) {
        1 + run_len(s.drop_first(), CharClass::Alphabetic)
    } else if is_decimal_digit(c) {
        1 + run_len(s.drop_first(), CharClass::Digit)
    } else {
        1
    }
}

/// The token at the front of `s`, which spans the first `token_len(s)`
/// characters.
pub open spec fn token_at(s: Seq<char>) -> TokenView
    recommends
        s.len() > 0,
{
    let c = s[0];
    let text = s.take(token_len(s) as int);
    if c == '=' {
        if equals_follows(s) {
            TokenView::Eq
        } else {
            TokenView::Assign
        }
    } else if c == '!' {
        if equals_follows(s) {
            TokenView::NotEq
        } else {
            TokenView::Bang
        }
    } else if is_letter(c) {
        word_token(text)
    } else if is_decimal_digit(c) {
        TokenView::Int(text)
    } else {
        symbol_token(c)
    }
}

/// The outcome of one step of scanning.
pub struct Step {
    /// The token that was read, or `None` at the end of the input.
    pub token: Option<TokenView>,
    /// The input that is left.
    pub rest: Seq<char>,
}

/// One step of scanning: skip the whitespace at the front of `s`, then read
/// one token, if anything is left.
pub open spec fn scan(s: Seq<char>) -> Step {
    let t = s.skip(run_len(s, CharClass::Whitespace) as int);
    if t.len() == 0 {
        Step { token: None, rest: t }
    } else {
        Step { token: Some(token_at(t)), rest: t.skip(token_len(t) as int) }
    }
}

/// The tokens of `s`, in order.
pub open spec fn tokens(s: Seq<char>) -> Seq<TokenView>
    decreases s.len(),
    via tokens_decreases
{
    match scan(s).token {
        None => Seq::empty(),
        Some(t) => seq![t] + tokens(scan(s).rest),
    }
}

#[via_fn]
proof fn tokens_decreases(s: Seq<char>) {
    lemma_scan_progress(s);
}

/// The input that is left of `s` after `n` steps of scanning.
pub open spec fn rest_after(s: Seq<char>, n: nat) -> Seq<char>
    decreases n,
{
    if n == 0 {
        s
    } else {
        rest_after(scan(s).rest, (n - 1) as nat)
    }
}

/// A run is a prefix: it is no longer than the sequence, every character of it
/// belongs to the class, and the character after it, if there is one, does not.
pub proof fn lemma_run_len(s: Seq<char>, class: CharClass)
    ensures
        run_len(s, class) <= s.len(),
        forall|i: int| 0 <= i < run_len(s, class) ==> class.contains(#[trigger] s[i]),
        run_len(s, class) < s.len() ==> !class.contains(s[run_len(s, class) as int]),
    decreases s.len(),
{
    if s.len() > 0 && class.contains(s[0]) {
        let tail = s.drop_first();
        lemma_run_len(tail, class);
        assert forall|i: int| 0 <= i < run_len(s, class) implies class.contains(
            #[trigger] s[i],
        ) by {
            if i > 0 {
                assert(s[i] == tail[i - 1]);
            }
        }
        if run_len(s, class) < s.len() {
            assert(s[run_len(s, class) as int] == tail[run_len(tail, class) as int]);
        }
    }
}

/// A token lies within the input and is not empty.
pub proof fn lemma_token_len(s: Seq<char>)
    requires
        s.len() > 0,
    ensures
        1 <= token_len(s) <= s.len(),
{
    lemma_run_len(s.drop_first(), CharClass::Alphabetic);
    lemma_run_len(s.drop_first(), CharClass::Digit);
}

/// A step never makes the input longer; it makes it shorter whenever it reads
/// a token, and leaves nothing when it reads none.
pub proof fn lemma_scan_progress(s: Seq<char>)
    ensures
        scan(s).rest.len() <= s.len(),
        scan(s).token is Some ==> scan(s).rest.len() < s.len(),
        scan(s).token is None ==> scan(s).rest.len() == 0,
        s.len() == 0 ==> scan(s).token is None,
{
    lemma_run_len(s, CharClass::Whitespace);
    let t = s.skip(run_len(s, CharClass::Whitespace) as int);
    if t.len() > 0 {
        lemma_token_len(t);
    }
}

} // verus!
