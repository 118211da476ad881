//! What holds of the token sequence of every input.

use crate::model::{
    equals_follows, is_decimal_digit, is_letter, lemma_run_len, lemma_scan_progress,
    lemma_token_len, rest_after, run_len, scan, spelling, symbol_token, token_at, token_len,
    tokens, word_token, CharClass,
};
use crate::std_specs::{char_is_alphabetic, char_is_whitespace};
use crate::token::TokenView;
use vstd::prelude::*;

verus! {

/// Whether every character of `s` belongs to `class`.
pub open spec fn all_in_class(s: Seq<char>, class: CharClass) -> bool {
    forall|i: int| 0 <= i < s.len() ==> class.contains(#[trigger] s[i])
}

/// Whether `c` is whitespace and nothing else: it neither continues an
/// identifier or a number nor completes a two-character operator.
pub open spec fn is_separator(c: char) -> bool {
    &&& char_is_whitespace(c)
    &&& !char_is_alphabetic(c)
    &&& !is_decimal_digit(c)
    &&& c != '='
}

/// Whether `s` is a run of separators that is not empty.
pub open spec fn is_gap(s: Seq<char>) -> bool {
    &&& s.len() > 0
    &&& forall|i: int| 0 <= i < s.len() ==> is_separator(#[trigger] s[i])
}

/// Scanning ends: the tokens of `s` are at most as many as its characters, the
/// step after `n` earlier ones reads the token number `n`, and once all tokens
/// have been read every further step reads none.
pub proof fn lemma_scanning_ends(s: Seq<char>)
    ensures
        tokens(s).len() <= s.len(),
        forall|n: nat|
            n < tokens(s).len() ==> scan(#[trigger] rest_after(s, n)).token == Some(
                tokens(s)[n as int],
            ),
        forall|n: nat| n >= tokens(s).len() ==> scan(#[trigger] rest_after(s, n)).token is None,
{
    lemma_tokens_len(s);
    assert forall|n: nat| n < tokens(s).len() implies scan(#[trigger] rest_after(s, n)).token
        == Some(tokens(s)[n as int]) by {
        lemma_step_reads_token(s, n);
    }
    assert forall|n: nat| n >= tokens(s).len() implies scan(
        #[trigger] rest_after(s, n),
    ).token is None by {
        lemma_step_reads_token(s, n);
    }
}

/// There are at most as many tokens as characters.
pub proof fn lemma_tokens_len(s: Seq<char>)
    ensures
        tokens(s).len() <= s.len(),
    decreases s.len(),
{
    lemma_scan_progress(s);
    if scan(s).token is Some {
        lemma_tokens_len(scan(s).rest);
    }
}

/// The step after `n` earlier ones reads the token number `n` of `s`, or
/// nothing if `s` has no more than `n` tokens.
pub proof fn lemma_step_reads_token(s: Seq<char>, n: nat)
    ensures
        scan(rest_after(s, n)).token == if n < tokens(s).len() {
            Some(tokens(s)[n as int])
        } else {
            None
        },
    decreases n,
{
    lemma_scan_progress(s);
    if n > 0 {
        let rest = scan(s).rest;
        lemma_step_reads_token(rest, (n - 1) as nat);
        if scan(s).token is None {
            // Nothing is left, and nothing more will be read.
            assert(tokens(rest) =~= Seq::empty()) by {
                lemma_tokens_len(rest);
            }
        }
    }
}

/// The token at the front of the input is the longest that starts there: an
/// identifier takes every letter that follows its first character, and a
/// number every digit that follows its first digit, so the character after
/// the token, if there is one, does not continue it.
pub proof fn lemma_longest_match(s: Seq<char>)
    requires
        s.len() > 0,
        s[0] != '=',
        s[0] != '!',
        is_letter(s[0]) || is_decimal_digit(s[0]),
    ensures
        1 <= token_len(s) <= s.len(),
        is_letter(s[0]) ==> {
            &&& forall|i: int| 1 <= i < token_len(s) ==> char_is_alphabetic(#[trigger] s[i])
            &&& token_len(s) < s.len() ==> !char_is_alphabetic(s[token_len(s) as int])
        },
        !is_letter(s[0]) ==> {
            &&& forall|i: int| 0 <= i < token_len(s) ==> is_decimal_digit(#[trigger] s[i])
            &&& token_len(s) < s.len() ==> !is_decimal_digit(s[token_len(s) as int])
        },
{
    let tail = s.drop_first();
    lemma_token_len(s);
    if is_letter(s[0]) {
        lemma_run_len(tail, CharClass::Alphabetic);
        assert forall|i: int| 1 <= i < token_len(s) implies char_is_alphabetic(
            #[trigger] s[i],
        ) by {
            assert(CharClass::Alphabetic.contains(tail[i - 1]));
        }
        if token_len(s) < s.len() {
            assert(s[token_len(s) as int] == tail[token_len(s) - 1]);
        }
    } else {
        lemma_run_len(tail, CharClass::Digit);
        assert forall|i: int| 0 <= i < token_len(s) implies is_decimal_digit(#[trigger] s[i]) by {
            if i > 0 {
                assert(CharClass::Digit.contains(tail[i - 1]));
            }
        }
        if token_len(s) < s.len() {
            assert(s[token_len(s) as int] == tail[token_len(s) - 1]);
        }
    }
}

/// A token is written with exactly the characters that were read for it:
/// the input is the whitespace that a step skips, then the spelling of the
/// token that it reads, then what it leaves. The end of the input is never
/// read as a token.
pub proof fn lemma_token_spelling(s: Seq<char>)
    requires
        scan(s).token is Some,
    ensures
        scan(s).token != Some(TokenView::Eof),
        s == s.take(run_len(s, CharClass::Whitespace) as int) + spelling(scan(s).token->0)
            + scan(s).rest,
{
    let k = run_len(s, CharClass::Whitespace);
    lemma_run_len(s, CharClass::Whitespace);
    let t = s.skip(k as int);
    lemma_token_len(t);
    let n = token_len(t);
    assert(spelling(token_at(t)) =~= t.take(n as int));
    assert(s =~= s.take(k as int) + t.take(n as int) + t.skip(n as int));
}

/// `=` and `!` join with an `=` that follows them at once, and with nothing
/// else: the operator of two characters comes before the two of one.
pub proof fn lemma_two_character_operators(s: Seq<char>)
    requires
        s.len() > 0,
        s[0] == '=' || s[0] == '!',
    ensures
        s.len() > 1 && s[1] == '=' ==> token_len(s) == 2 && token_at(s) == if s[0] == '=' {
            TokenView::Eq
        } else {
            TokenView::NotEq
        },
        !(s.len() > 1 && s[1] == '=') ==> token_len(s) == 1 && token_at(s) == if s[0] == '=' {
            TokenView::Assign
        } else {
            TokenView::Bang
        },
{
}

/// A character that is neither whitespace, nor `=` or `!`, nor a letter, an
/// underscore or a digit, nor one of the twelve operators and delimiters, is
/// a token of its own: the illegal token that carries it.
pub proof fn lemma_illegal_character(s: Seq<char>)
    requires
        s.len() > 0,
        !char_is_whitespace(s[0]),
        s[0] != '=' && s[0] != '!',
        !is_letter(s[0]) && !is_decimal_digit(s[0]),
        symbol_token(s[0]) == TokenView::Illegal(s[0]),
    ensures
        scan(s).token == Some(TokenView::Illegal(s[0])),
        scan(s).rest == s.drop_first(),
{
    assert(s.skip(0) =~= s);
    assert(s.skip(1) =~= s.drop_first());
}

/// Each keyword is looked up as itself, so that no spelling of the table
/// hides another, and every other word is an identifier.
pub proof fn lemma_keywords()
    ensures
        word_token("else"@) == TokenView::Else,
        word_token("false"@) == TokenView::False,
        word_token("fn"@) == TokenView::Function,
        word_token("if"@) == TokenView::If,
        word_token("let"@) == TokenView::Let,
        word_token("return"@) == TokenView::Return,
        word_token("true"@) == TokenView::True,
        forall|word: Seq<char>|
            word != "else"@ && word != "false"@ && word != "fn"@ && word != "if"@ && word
                != "let"@ && word != "return"@ && word != "true"@ ==> #[trigger] word_token(word)
                == TokenView::Ident(word),
{
    reveal_strlit("else");
    reveal_strlit("false");
    reveal_strlit("fn");
    reveal_strlit("if");
    reveal_strlit("let");
    reveal_strlit("return");
    reveal_strlit("true");
    assert("else"@.len() == 4 && "true"@.len() == 4);
    assert("false"@.len() == 5);
    assert("fn"@.len() == 2 && "if"@.len() == 2);
    assert("let"@.len() == 3);
    assert("return"@.len() == 6);
    assert("fn"@[0] != "if"@[0]);
    assert("else"@[0] != "true"@[0]);
}

/// A sequence whose characters all belong to a class is one run of it.
pub proof fn lemma_run_of_class(s: Seq<char>, class: CharClass)
    requires
        all_in_class(s, class),
    ensures
        run_len(s, class) == s.len(),
    decreases s.len(),
{
    if s.len() > 0 {
        let tail = s.drop_first();
        assert forall|i: int| 0 <= i < tail.len() implies class.contains(#[trigger] tail[i]) by {
            assert(tail[i] == s[i + 1]);
        }
        lemma_run_of_class(tail, class);
    }
}

/// The run at the front of `a + b`: that of `a` where it ends inside `a`,
/// else all of `a` and the run at the front of `b`.
pub proof fn lemma_run_len_concat(a: Seq<char>, b: Seq<char>, class: CharClass)
    ensures
        run_len(a + b, class) == if run_len(a, class) < a.len() {
            run_len(a, class)
        } else {
            a.len() + run_len(b, class)
        },
    decreases a.len(),
{
    lemma_run_len(a, class);
    if a.len() == 0 {
        assert(a + b =~= b);
    } else {
        assert((a + b)[0] == a[0]);
        assert((a + b).drop_first() =~= a.drop_first() + b);
        lemma_run_len_concat(a.drop_first(), b, class);
    }
}

/// Whitespace before the input is invisible: with a run of whitespace put in
/// front, a step reads the same token and leaves the same rest, and the tokens
/// are the same.
pub proof fn lemma_leading_whitespace(w: Seq<char>, s: Seq<char>)
    requires
        all_in_class(w, CharClass::Whitespace),
    ensures
        scan(w + s) == scan(s),
        tokens(w + s) == tokens(s),
{
    lemma_run_of_class(w, CharClass::Whitespace);
    lemma_run_len_concat(w, s, CharClass::Whitespace);
    lemma_run_len(s, CharClass::Whitespace);
    let k = run_len(s, CharClass::Whitespace);
    assert((w + s).skip((w.len() + k) as int) =~= s.skip(k as int));
}

/// A token is read the same way whatever follows it, as long as what follows
/// starts with a character that does not continue a token.
pub proof fn lemma_scan_before_separator(a: Seq<char>, x: Seq<char>)
    requires
        scan(a).token is Some,
        x.len() > 0,
        !char_is_alphabetic(x[0]),
        !is_decimal_digit(x[0]),
        x[0] != '=',
    ensures
        scan(a + x).token == scan(a).token,
        scan(a + x).rest == scan(a).rest + x,
{
    let k = run_len(a, CharClass::Whitespace);
    lemma_run_len(a, CharClass::Whitespace);
    lemma_run_len_concat(a, x, CharClass::Whitespace);
    let t = a.skip(k as int);
    let tx = (a + x).skip(k as int);
    assert(tx =~= t + x);
    lemma_token_len(t);
    let tail = t.drop_first();
    assert(tx.drop_first() =~= tail + x);
    lemma_run_len_concat(tail, x, CharClass::Alphabetic);
    lemma_run_len_concat(tail, x, CharClass::Digit);
    lemma_run_len(tail, CharClass::Alphabetic);
    lemma_run_len(tail, CharClass::Digit);
    assert(tx[0] == t[0]);
    assert(equals_follows(tx) == equals_follows(t));
    let n = token_len(t);
    assert(token_len(tx) == n);
    assert(tx.take(n as int) =~= t.take(n as int));
    assert(tx.skip(n as int) =~= t.skip(n as int) + x);
    assert(token_at(tx) == token_at(t));
}

/// Whitespace between two pieces of input keeps them apart: with a gap
/// between them, the tokens are those of the first piece followed by those of
/// the second.
pub proof fn lemma_gap_separates(a: Seq<char>, w: Seq<char>, b: Seq<char>)
    requires
        is_gap(w),
    ensures
        tokens(a + w + b) == tokens(a) + tokens(b),
    decreases a.len(),
{
    let x = w + b;
    assert(a + w + b =~= a + x);
    assert(is_separator(w[0]));
    assert(x[0] == w[0]);
    lemma_scan_progress(a);
    if scan(a).token is None {
        lemma_run_len(a, CharClass::Whitespace);
        assert forall|i: int| 0 <= i < (a + w).len() implies CharClass::Whitespace.contains(
            #[trigger] (a + w)[i],
        ) by {
            if i >= a.len() {
                assert(is_separator(w[i - a.len()]));
            }
        }
        lemma_leading_whitespace(a + w, b);
        assert(tokens(a) + tokens(b) =~= tokens(b));
    } else {
        let rest = scan(a).rest;
        lemma_scan_before_separator(a, x);
        lemma_gap_separates(rest, w, b);
        assert(rest + x =~= rest + w + b);
        assert(tokens(a + x) =~= tokens(a) + tokens(b));
    }
}

/// Whitespace after the input is invisible: a gap at the end adds no token.
pub proof fn lemma_trailing_gap(a: Seq<char>, w: Seq<char>)
    requires
        is_gap(w),
    ensures
        tokens(a + w) == tokens(a),
{
    let none = Seq::<char>::empty();
    lemma_gap_separates(a, w, none);
    lemma_scan_progress(none);
    assert(a + w + none =~= a + w);
    assert(tokens(a) + tokens(none) =~= tokens(a));
}

/// How much whitespace stands between two pieces of input does not matter:
/// one gap can be replaced by any other without a change to the tokens.
pub proof fn lemma_gap_width(a: Seq<char>, w1: Seq<char>, w2: Seq<char>, b: Seq<char>)
    requires
        is_gap(w1),
        is_gap(w2),
    ensures
        tokens(a + w1 + b) == tokens(a + w2 + b),
{
    lemma_gap_separates(a, w1, b);
    lemma_gap_separates(a, w2, b);
}

/// Where the tokens of `a + b` are those of `a` followed by those of `b`, a
/// gap put between the two pieces, or taken out again, changes no token.
pub proof fn lemma_gap_invisible(a: Seq<char>, w: Seq<char>, b: Seq<char>)
    requires
        is_gap(w),
        tokens(a + b) == tokens(a) + tokens(b),
    ensures
        tokens(a + w + b) == tokens(a + b),
{
    lemma_gap_separates(a, w, b);
}

} // verus!
