use monkey::lexer::{Lexer, Token};

fn word(s: &str) -> Token {
    Token::Ident(s.to_owned())
}

fn num(s: &str) -> Token {
    Token::Int(s.to_owned())
}

fn scan_all(input: &str) -> Vec<Token> {
    Lexer::new(input).tokenize()
}

#[test]
fn empty_input_has_no_token() {
    let mut lexer = Lexer::new("");
    assert_eq!(lexer.next_token(), None);
    assert_eq!(scan_all(""), vec![]);
}

#[test]
fn whitespace_alone_has_no_token() {
    let mut lexer = Lexer::new(" \t\r\n  ");
    assert_eq!(lexer.next_token(), None);
    assert_eq!(lexer.next_token(), None);
}

#[test]
fn end_of_input_is_returned_again_and_again() {
    let mut lexer = Lexer::new("x");
    assert_eq!(lexer.next_token(), Some(word("x")));
    for _ in 0..5 {
        assert_eq!(lexer.next_token(), None);
    }
}

#[test]
fn scanning_ends_within_as_many_calls_as_characters() {
    let input = "let x = 5 @ ! != == foo_bar 12ab;;";
    let mut lexer = Lexer::new(input);
    let mut calls = 0;
    while lexer.next_token().is_some() {
        calls += 1;
        assert!(calls <= input.chars().count());
    }
    assert_eq!(calls, 14);
    assert_eq!(lexer.next_token(), None);
}

#[test]
fn identifier_stops_at_digits() {
    assert_eq!(scan_all("foobar123"), vec![word("foobar"), num("123")]);
}

#[test]
fn digits_do_not_continue_an_identifier() {
    assert_eq!(scan_all("x1"), vec![word("x"), num("1")]);
}

#[test]
fn number_stops_at_letters() {
    assert_eq!(scan_all("123abc"), vec![num("123"), word("abc")]);
}

#[test]
fn number_keeps_its_digits_as_written() {
    assert_eq!(scan_all("007"), vec![num("007")]);
    assert_eq!(
        scan_all("123456789012345678901234567890"),
        vec![num("123456789012345678901234567890")]
    );
}

#[test]
fn number_takes_no_sign_and_no_point() {
    assert_eq!(scan_all("-5"), vec![Token::Minus, num("5")]);
    assert_eq!(scan_all("1.5"), vec![num("1"), Token::Illegal('.'), num("5")]);
}

#[test]
fn only_ascii_digits_make_a_number() {
    // U+0663 is a decimal digit of another script
    assert_eq!(scan_all("\u{663}"), vec![Token::Illegal('\u{663}')]);
    assert_eq!(scan_all("1\u{663}"), vec![num("1"), Token::Illegal('\u{663}')]);
}

#[test]
fn underscore_starts_an_identifier_but_does_not_continue_one() {
    assert_eq!(scan_all("_"), vec![word("_")]);
    assert_eq!(scan_all("_abc"), vec![word("_abc")]);
    assert_eq!(scan_all("foo_bar"), vec![word("foo"), word("_bar")]);
    assert_eq!(scan_all("__"), vec![word("_"), word("_")]);
}

#[test]
fn letters_of_any_script_make_an_identifier() {
    assert_eq!(scan_all("\u{e9}t\u{e9} = \u{4eac}"), vec![
        word("\u{e9}t\u{e9}"),
        Token::Assign,
        word("\u{4eac}"),
    ]);
}

#[test]
fn two_equals_signs_are_one_token() {
    assert_eq!(scan_all("=="), vec![Token::Eq]);
}

#[test]
fn equals_sign_before_semicolon_is_assign() {
    assert_eq!(scan_all("=;"), vec![Token::Assign, Token::Semicolon]);
}

#[test]
fn bang_with_and_without_equals_sign() {
    assert_eq!(scan_all("!="), vec![Token::NotEq]);
    assert_eq!(scan_all("!"), vec![Token::Bang]);
    assert_eq!(scan_all("!x"), vec![Token::Bang, word("x")]);
    assert_eq!(scan_all("!!="), vec![Token::Bang, Token::NotEq]);
}

#[test]
fn runs_of_equals_signs_pair_up_from_the_left() {
    assert_eq!(scan_all("="), vec![Token::Assign]);
    assert_eq!(scan_all("==="), vec![Token::Eq, Token::Assign]);
    assert_eq!(scan_all("===="), vec![Token::Eq, Token::Eq]);
    assert_eq!(scan_all("!=="), vec![Token::NotEq, Token::Assign]);
}

#[test]
fn whitespace_splits_a_two_character_operator() {
    assert_eq!(scan_all("= ="), vec![Token::Assign, Token::Assign]);
    assert_eq!(scan_all("! ="), vec![Token::Bang, Token::Assign]);
}

#[test]
fn keyword_needs_an_exact_match() {
    assert_eq!(scan_all("let"), vec![Token::Let]);
    assert_eq!(scan_all("letx"), vec![word("letx")]);
    assert_eq!(scan_all("le"), vec![word("le")]);
    assert_eq!(scan_all("Let"), vec![word("Let")]);
    assert_eq!(scan_all("LET"), vec![word("LET")]);
}

#[test]
fn every_keyword_is_recognised() {
    assert_eq!(scan_all("else false fn if let return true"), vec![
        Token::Else,
        Token::False,
        Token::Function,
        Token::If,
        Token::Let,
        Token::Return,
        Token::True,
    ]);
}

#[test]
fn lookup_keyword_knows_the_seven_keywords() {
    assert_eq!(Lexer::lookup_keyword("else".to_owned()), Token::Else);
    assert_eq!(Lexer::lookup_keyword("false".to_owned()), Token::False);
    assert_eq!(Lexer::lookup_keyword("fn".to_owned()), Token::Function);
    assert_eq!(Lexer::lookup_keyword("if".to_owned()), Token::If);
    assert_eq!(Lexer::lookup_keyword("let".to_owned()), Token::Let);
    assert_eq!(Lexer::lookup_keyword("return".to_owned()), Token::Return);
    assert_eq!(Lexer::lookup_keyword("true".to_owned()), Token::True);
}

#[test]
fn lookup_keyword_keeps_other_words_as_identifiers() {
    assert_eq!(Lexer::lookup_keyword("lets".to_owned()), word("lets"));
    assert_eq!(Lexer::lookup_keyword("function".to_owned()), word("function"));
    assert_eq!(Lexer::lookup_keyword("".to_owned()), word(""));
    assert_eq!(Lexer::lookup_keyword("If".to_owned()), word("If"));
}

#[test]
fn is_letter_takes_letters_and_underscore() {
    assert!(Lexer::is_letter('a'));
    assert!(Lexer::is_letter('Z'));
    assert!(Lexer::is_letter('_'));
    assert!(Lexer::is_letter('\u{4eac}'));
    assert!(!Lexer::is_letter('1'));
    assert!(!Lexer::is_letter(' '));
    assert!(!Lexer::is_letter('='));
    assert!(!Lexer::is_letter('\u{1f49d}'));
}

#[test]
fn unknown_character_is_illegal() {
    let mut lexer = Lexer::new("@");
    assert_eq!(lexer.next_token(), Some(Token::Illegal('@')));
    assert_eq!(lexer.next_token(), None);
}

#[test]
fn each_unknown_character_is_a_token_of_its_own() {
    assert_eq!(scan_all("@#x$"), vec![
        Token::Illegal('@'),
        Token::Illegal('#'),
        word("x"),
        Token::Illegal('$'),
    ]);
    assert_eq!(scan_all("\"a\""), vec![Token::Illegal('"'), word("a"), Token::Illegal('"')]);
}

#[test]
fn single_characters_have_their_tokens() {
    assert_eq!(scan_all("+-*/<>,;(){}"), vec![
        Token::Plus,
        Token::Minus,
        Token::Asterisk,
        Token::Slash,
        Token::Lt,
        Token::Gt,
        Token::Comma,
        Token::Semicolon,
        Token::LParen,
        Token::RParen,
        Token::LBrace,
        Token::RBrace,
    ]);
}

#[test]
fn comparison_operators_do_not_pair_with_equals_sign() {
    assert_eq!(scan_all("<="), vec![Token::Lt, Token::Assign]);
    assert_eq!(scan_all(">="), vec![Token::Gt, Token::Assign]);
}

#[test]
fn function_definition_end_to_end() {
    let mut lexer = Lexer::new("let add = fn(x, y) { x + y; };");
    let expected = vec![
        Token::Let,
        word("add"),
        Token::Assign,
        Token::Function,
        Token::LParen,
        word("x"),
        Token::Comma,
        word("y"),
        Token::RParen,
        Token::LBrace,
        word("x"),
        Token::Plus,
        word("y"),
        Token::Semicolon,
        Token::RBrace,
        Token::Semicolon,
    ];
    for e in expected {
        assert_eq!(lexer.next_token(), Some(e));
    }
    assert_eq!(lexer.next_token(), None);
}

#[test]
fn whitespace_before_and_after_is_invisible() {
    let plain = scan_all("let x=5;");
    assert_eq!(plain, vec![Token::Let, word("x"), Token::Assign, num("5"), Token::Semicolon]);
    assert_eq!(scan_all("   let x=5;"), plain);
    assert_eq!(scan_all("let x=5;\n\n"), plain);
    assert_eq!(scan_all("\t\r\n let x=5; \t"), plain);
}

#[test]
fn whitespace_between_tokens_is_invisible() {
    let plain = scan_all("let x=5;");
    assert_eq!(scan_all("let x = 5 ;"), plain);
    assert_eq!(scan_all("let\n\n\tx   =\r\n5\t;"), plain);
    assert_eq!(scan_all("let     x=5;"), plain);
}

#[test]
fn whitespace_of_other_scripts_is_skipped_too() {
    // no-break space, em space, line separator, ideographic space
    assert_eq!(scan_all("a\u{a0}b\u{2003}c\u{2028}d\u{3000}e"), vec![
        word("a"),
        word("b"),
        word("c"),
        word("d"),
        word("e"),
    ]);
}

#[test]
fn gap_keeps_two_pieces_apart() {
    let a = "let x";
    let b = "y = 1";
    let mut both = scan_all(a);
    both.extend(scan_all(b));
    assert_eq!(scan_all(&format!("{} {}", a, b)), both);
    assert_eq!(scan_all(&format!("{}\n\t  {}", a, b)), both);
    // without the gap the two identifiers run together
    assert_ne!(scan_all(&format!("{}{}", a, b)), both);
}

#[test]
fn tokenize_reads_what_next_token_would_read() {
    let input = "if (a != b) { return !true; } else { x1 = @ }";
    let mut one_by_one = Vec::new();
    let mut lexer = Lexer::new(input);
    while let Some(tok) = lexer.next_token() {
        one_by_one.push(tok);
    }
    assert_eq!(scan_all(input), one_by_one);
    assert_eq!(one_by_one, vec![
        Token::If,
        Token::LParen,
        word("a"),
        Token::NotEq,
        word("b"),
        Token::RParen,
        Token::LBrace,
        Token::Return,
        Token::Bang,
        Token::True,
        Token::Semicolon,
        Token::RBrace,
        Token::Else,
        Token::LBrace,
        word("x"),
        num("1"),
        Token::Assign,
        Token::Illegal('@'),
        Token::RBrace,
    ]);
}

#[test]
fn tokenize_reads_only_what_is_left() {
    let mut lexer = Lexer::new("a b c");
    assert_eq!(lexer.next_token(), Some(word("a")));
    assert_eq!(lexer.tokenize(), vec![word("b"), word("c")]);
    assert_eq!(lexer.tokenize(), vec![]);
    assert_eq!(lexer.next_token(), None);
}

#[test]
fn tokens_own_their_text() {
    let tok = {
        let input = String::from("name");
        let mut lexer = Lexer::new(&input);
        lexer.next_token()
    };
    assert_eq!(tok, Some(word("name")));
}

#[test]
fn same_input_gives_same_tokens() {
    let input = "let a = fn(b) { b == 1 };";
    assert_eq!(scan_all(input), scan_all(input));
}
