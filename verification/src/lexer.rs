//! The scanner: a cursor over the characters of a text that hands out one
//! token per call.

use crate::model::{
    lemma_run_len, lemma_scan_progress, run_len, scan, token_len, tokens, word_token, CharClass,
};
pub use crate::token::Token;
use vstd::prelude::*;

verus! {

/// A scanner over one input text.
///
/// Its only state is the position of its cursor; its view is the input that
/// the cursor has not passed yet.
pub struct Lexer {
    input: Vec<char>,
    pos: usize,
}

impl View for Lexer {
    type V = Seq<char>;

    closed spec fn view(&self) -> Seq<char> {
        self.input@.skip(self.pos as int)
    }
}

impl Lexer {
    #[verifier::type_invariant]
    spec fn cursor_in_bounds(&self) -> bool {
        self.pos <= self.input.len()
    }

    /// A scanner at the start of `input`.
    pub fn new(input: &str) -> (lexer: Lexer)
        ensures
            lexer@ == input@,
    {
        let mut chars: Vec<char> = Vec::new();
        for c in it: input.chars()
            invariant
                chars@ == it.seq().take(it.index() as int),
        {
            chars.push(c);
        }
        Lexer { input: chars, pos: 0 }
    }

    /// Takes the next character off the input, if there is one.
    fn read_char(&mut self) -> (c: Option<char>)
        ensures
            old(self)@.len() == 0 ==> c is None && final(self)@ == old(self)@,
            old(self)@.len() > 0 ==> c == Some(old(self)@[0]),
            old(self)@.len() > 0 ==> final(self)@ == old(self)@.drop_first(),
    {
        proof {
            use_type_invariant(&*self);
        }
        if self.pos < self.input.len() {
            let c = self.input[self.pos];
            self.pos = self.pos + 1;
            assert(self@ =~= old(self)@.drop_first());
            Some(c)
        } else {
            None
        }
    }

    /// Whether `c` can start an identifier.
    pub fn is_letter(c: char) -> (r: bool)
        ensures
            r == crate::model::is_letter(c),
    {
        c.is_alphabetic() || c == '_'
    }

    /// The keyword that `id` spells, or the identifier `id`.
    pub fn lookup_keyword(id: String) -> (tok: Token)
        ensures
            tok@ == word_token(id@),
    {
        let word = id.as_str();
        if word.eq("else") {
            Token::Else
        } else if word.eq("false") {
            Token::False
        } else if word.eq("fn") {
            Token::Function
        } else if word.eq("if") {
            Token::If
        } else if word.eq("let") {
            Token::Let
        } else if word.eq("return") {
            Token::Return
        } else if word.eq("true") {
            Token::True
        } else {
            Token::Ident(id)
        }
    }

    /// The next character of the input, which stays where it is.
    fn peek_char(&self) -> (c: Option<char>)
        ensures
            c == if self@.len() > 0 {
                Some(self@[0])
            } else {
                None
            },
    {
        proof {
            use_type_invariant(self);
        }
        if self.pos < self.input.len() {
            Some(self.input[self.pos])
        } else {
            None
        }
    }

    /// Moves the cursor past the whitespace at the front of the input.
    fn skip_whitespace(&mut self)
        ensures
            final(self)@ == old(self)@.skip(run_len(old(self)@, CharClass::Whitespace) as int),
    {
        let ghost mut skipped: nat = 0;
        proof {
            lemma_run_len(self@, CharClass::Whitespace);
        }
        loop
            invariant
                skipped <= old(self)@.len(),
                self@ =~= old(self)@.skip(skipped as int),
                run_len(old(self)@, CharClass::Whitespace) == skipped + run_len(
                    self@,
                    CharClass::Whitespace,
                ),
            ensures
                run_len(self@, CharClass::Whitespace) == 0,
            decreases self@.len(),
        {
            match self.peek_char() {
                Some(c) => {
                    if c.is_whitespace() {
                        let _ = self.read_char();
                        proof {
                            skipped = skipped + 1;
                        }
                    } else {
                        break ;
                    }
                },
                None => {
                    break ;
                },
            }
        }
    }

    /// Reads the identifier that starts with `c`, which has been read: `c` and
    /// the letters that follow it.
    fn read_identifier(&mut self, c: char) -> (ident: String)
        ensures
            ident@ == seq![c] + old(self)@.take(run_len(old(self)@, CharClass::Alphabetic) as int),
            final(self)@ == old(self)@.skip(run_len(old(self)@, CharClass::Alphabetic) as int),
    {
        let mut ident = String::new();
        ident.push(c);
        let ghost mut taken: nat = 0;
        proof {
            lemma_run_len(self@, CharClass::Alphabetic);
        }
        loop
            invariant
                taken <= old(self)@.len(),
                self@ =~= old(self)@.skip(taken as int),
                ident@ =~= seq![c] + old(self)@.take(taken as int),
                run_len(old(self)@, CharClass::Alphabetic) == taken + run_len(
                    self@,
                    CharClass::Alphabetic,
                ),
            ensures
                run_len(self@, CharClass::Alphabetic) == 0,
            decreases self@.len(),
        {
            match self.peek_char() {
                Some(next) => {
                    if next.is_alphabetic() {
                        let _ = self.read_char();
                        ident.push(next);
                        proof {
                            taken = taken + 1;
                        }
                    } else {
                        break ;
                    }
                },
                None => {
                    break ;
                },
            }
        }
        ident
    }

    /// Reads the number that starts with the digit `c`, which has been read:
    /// `c` and the digits that follow it.
    fn read_number(&mut self, c: char) -> (number: String)
        ensures
            number@ == seq![c] + old(self)@.take(run_len(old(self)@, CharClass::Digit) as int),
            final(self)@ == old(self)@.skip(run_len(old(self)@, CharClass::Digit) as int),
    {
        let mut number = String::new();
        number.push(c);
        let ghost mut taken: nat = 0;
        proof {
            lemma_run_len(self@, CharClass::Digit);
        }
        loop
            invariant
                taken <= old(self)@.len(),
                self@ =~= old(self)@.skip(taken as int),
                number@ =~= seq![c] + old(self)@.take(taken as int),
                run_len(old(self)@, CharClass::Digit) == taken + run_len(
                    self@,
                    CharClass::Digit,
                ),
            ensures
                run_len(self@, CharClass::Digit) == 0,
            decreases self@.len(),
        {
            match self.peek_char() {
                Some(next) => {
                    if next.is_digit(10) {
                        let _ = self.read_char();
                        number.push(next);
                        proof {
                            taken = taken + 1;
                        }
                    } else {
                        break ;
                    }
                },
                None => {
                    break ;
                },
            }
        }
        number
    }

    /// Reads the next token: skips the whitespace before it, then takes the
    /// longest token that the input starts with.
    ///
    /// The end of the input is `None`, never [`Token::Eof`]: once nothing but
    /// whitespace is left the scanner returns `None`, and from then on at
    /// every call. Every other call moves the cursor forward, so the input is
    /// used up after finitely many calls. A character that starts no token
    /// comes back as [`Token::Illegal`]; no input makes the scanner fail.
    pub fn next_token(&mut self) -> (tok: Option<Token>)
        ensures
            tok.deep_view() == scan(old(self)@).token,
            final(self)@ == scan(old(self)@).rest,
            tok is Some ==> final(self)@.len() < old(self)@.len(),
            tok is None ==> final(self)@.len() == 0,
            old(self)@.len() == 0 ==> tok is None,
            !(tok matches Some(Token::Eof)),
    {
        proof {
            lemma_scan_progress(self@);
        }
        self.skip_whitespace();
        let ghost front = self@;
        match self.read_char() {
            None => None,
            Some(c) => {
                let tok = if c == '=' {
                    match self.peek_char() {
                        Some('=') => {
                            let _ = self.read_char();
                            Token::Eq
                        },
                        _ => Token::Assign,
                    }
                } else if c == '!' {
                    match self.peek_char() {
                        Some('=') => {
                            let _ = self.read_char();
                            Token::NotEq
                        },
                        _ => Token::Bang,
                    }
                } else if Self::is_letter(c) {
                    let ident = self.read_identifier(c);
                    Self::lookup_keyword(ident)
                } else if c.is_digit(10) {
                    let number = self.read_number(c);
                    Token::Int(number)
                } else {
                    match c {
                        '+' => Token::Plus,
                        '-' => Token::Minus,
                        '*' => Token::Asterisk,
                        '/' => Token::Slash,
                        '<' => Token::Lt,
                        '>' => Token::Gt,
                        ',' => Token::Comma,
                        ';' => Token::Semicolon,
                        '(' => Token::LParen,
                        ')' => Token::RParen,
                        '{' => Token::LBrace,
                        '}' => Token::RBrace,
                        _ => Token::Illegal(c),
                    }
                };
                proof {
                    let tail = front.drop_first();
                    lemma_run_len(tail, CharClass::Alphabetic);
                    lemma_run_len(tail, CharClass::Digit);
                    let n = token_len(front);
                    assert(front.take(n as int) =~= seq![c] + tail.take(n - 1));
                    assert(front.skip(n as int) =~= tail.skip(n - 1));
                }
                Some(tok)
            },
        }
    }

    /// Reads all the tokens that are left, in order, and leaves the scanner at
    /// the end of its input.
    pub fn tokenize(&mut self) -> (toks: Vec<Token>)
        ensures
            toks.deep_view() == tokens(old(self)@),
            final(self)@.len() == 0,
    {
        let mut toks: Vec<Token> = Vec::new();
        loop
            invariant
                toks.deep_view() + tokens(self@) =~= tokens(old(self)@),
            ensures
                self@.len() == 0,
                tokens(self@).len() == 0,
            decreases self@.len(),
        {
            let ghost before = toks.deep_view();
            match self.next_token() {
                Some(tok) => {
                    toks.push(tok);
                    assert(toks.deep_view() =~= before.push(tok@));
                },
                None => {
                    break ;
                },
            }
        }
        toks
    }
}

} // verus!
