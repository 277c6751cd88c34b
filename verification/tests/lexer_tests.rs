use lamonz::lexer::Lexer;
use lamonz::token::{Token, TokenType};

#[test]
fn parse_symbols() {
    let input = "=+(){},;";

    let test_vec: Vec<Token> = vec![
        Token {
            token_type: TokenType::Assign,
            token_literal: String::from("="),
        },
        Token {
            token_type: TokenType::Plus,
            token_literal: String::from("+"),
        },
        Token {
            token_type: TokenType::Lparen,
            token_literal: String::from("("),
        },
        Token {
            token_type: TokenType::Rparen,
            token_literal: String::from(")"),
        },
        Token {
            token_type: TokenType::Lbrace,
            token_literal: String::from("{"),
        },
        Token {
            token_type: TokenType::Rbrace,
            token_literal: String::from("}"),
        },
        Token {
            token_type: TokenType::Comma,
            token_literal: String::from(","),
        },
        Token {
            token_type: TokenType::Semicolon,
            token_literal: String::from(";"),
        },
        Token {
            token_type: TokenType::Eof,
            token_literal: String::from(""),
        },
    ];

    let mut lexer = Lexer::new(input);

    for expected_token in test_vec {
        let tok = lexer.next_token().unwrap();
        assert!(tok.token_literal == expected_token.token_literal);
        assert!(tok.token_type == expected_token.token_type);
    }
}

#[test]
fn parse_ident_and_ints() {
    let input = "let five = 5;";

    let test_vec: Vec<Token> = vec![
        Token {
            token_type: TokenType::Let,
            token_literal: String::from("let"),
        },
        Token {
            token_type: TokenType::Ident,
            token_literal: String::from("five"),
        },
        Token {
            token_type: TokenType::Assign,
            token_literal: String::from("="),
        },
        Token {
            token_type: TokenType::Int,
            token_literal: String::from("5"),
        },
        Token {
            token_type: TokenType::Semicolon,
            token_literal: String::from(";"),
        },
        Token {
            token_type: TokenType::Eof,
            token_literal: String::from(""),
        },
    ];

    let mut lexer = Lexer::new(input);

    for expected_token in test_vec {
        let tok = lexer.next_token().unwrap();
        assert_eq!(tok.token_type, expected_token.token_type);
    }
}

#[test]
fn two_scans_are_identical() {
    let input = "let five = 5; fn(a, b) { a + b - 2 } @";

    let mut first: Vec<(TokenType, String)> = Vec::new();
    let mut lexer = Lexer::new(input);
    loop {
        let tok = lexer.next_token().unwrap();
        let done = tok.token_type == TokenType::Eof;
        first.push((tok.token_type, tok.token_literal));
        if done {
            break;
        }
    }

    let mut second: Vec<(TokenType, String)> = Vec::new();
    let mut lexer = Lexer::new(input);
    loop {
        let tok = lexer.next_token().unwrap();
        let done = tok.token_type == TokenType::Eof;
        second.push((tok.token_type, tok.token_literal));
        if done {
            break;
        }
    }

    assert_eq!(first, second);
}

#[test]
fn empty_input_yields_eof() {
    let mut lexer = Lexer::new("");
    let tok = lexer.next_token().unwrap();
    assert_eq!(tok.token_type, TokenType::Eof);
    assert_eq!(tok.token_literal, String::from(""));
}

#[test]
fn eof_is_stable_under_repeated_calls() {
    let mut lexer = Lexer::new("x");
    let tok = lexer.next_token().unwrap();
    assert_eq!(tok.token_type, TokenType::Ident);
    for _ in 0..5 {
        let tok = lexer.next_token().unwrap();
        assert_eq!(tok.token_type, TokenType::Eof);
        assert_eq!(tok.token_literal, String::from(""));
    }
}

#[test]
fn identifier_is_scanned_with_maximal_munch() {
    let mut lexer = Lexer::new("foobar");
    let tok = lexer.next_token().unwrap();
    assert_eq!(tok.token_type, TokenType::Ident);
    assert_eq!(tok.token_literal, String::from("foobar"));
    let tok = lexer.next_token().unwrap();
    assert_eq!(tok.token_type, TokenType::Eof);
}

#[test]
fn integer_is_scanned_with_maximal_munch() {
    let mut lexer = Lexer::new("12345");
    let tok = lexer.next_token().unwrap();
    assert_eq!(tok.token_type, TokenType::Int);
    assert_eq!(tok.token_literal, String::from("12345"));
    let tok = lexer.next_token().unwrap();
    assert_eq!(tok.token_type, TokenType::Eof);
}

#[test]
fn keyword_match_is_exact_not_prefix() {
    let mut lexer = Lexer::new("let");
    let tok = lexer.next_token().unwrap();
    assert_eq!(tok.token_type, TokenType::Let);
    assert_eq!(tok.token_literal, String::from("let"));

    let mut lexer = Lexer::new("letx");
    let tok = lexer.next_token().unwrap();
    assert_eq!(tok.token_type, TokenType::Ident);
    assert_eq!(tok.token_literal, String::from("letx"));

    let mut lexer = Lexer::new("fn");
    let tok = lexer.next_token().unwrap();
    assert_eq!(tok.token_type, TokenType::Function);
    assert_eq!(tok.token_literal, String::from("fn"));
}

#[test]
fn lookup_identifier_knows_the_keyword_table() {
    assert_eq!(Lexer::lookup_identifier("let"), Some(TokenType::Let));
    assert_eq!(Lexer::lookup_identifier("fn"), Some(TokenType::Function));
    assert_eq!(Lexer::lookup_identifier("five"), None);
    assert_eq!(Lexer::lookup_identifier("letter"), None);
    assert_eq!(Lexer::lookup_identifier(""), None);
}

#[test]
fn minus_is_scanned_as_its_own_token() {
    let mut lexer = Lexer::new("-");
    let tok = lexer.next_token().unwrap();
    assert_eq!(tok.token_type, TokenType::Minus);
    assert_eq!(tok.token_literal, String::from("-"));
    let tok = lexer.next_token().unwrap();
    assert_eq!(tok.token_type, TokenType::Eof);
}

#[test]
fn invalid_character_yields_invalid_then_eof() {
    let mut lexer = Lexer::new("@");
    let tok = lexer.next_token().unwrap();
    assert_eq!(tok.token_type, TokenType::Invalid);
    assert_eq!(tok.token_literal, String::from(""));
    let tok = lexer.next_token().unwrap();
    assert_eq!(tok.token_type, TokenType::Eof);
}

#[test]
fn non_ascii_character_yields_invalid() {
    let mut lexer = Lexer::new("é1");
    let tok = lexer.next_token().unwrap();
    assert_eq!(tok.token_type, TokenType::Invalid);
    assert_eq!(tok.token_literal, String::from(""));
    let tok = lexer.next_token().unwrap();
    assert_eq!(tok.token_type, TokenType::Int);
    assert_eq!(tok.token_literal, String::from("1"));
}

#[test]
fn whitespace_run_is_skipped_whole() {
    let mut lexer = Lexer::new("  a \t\r\n b ");
    let tok = lexer.next_token().unwrap();
    assert_eq!(tok.token_type, TokenType::Ident);
    assert_eq!(tok.token_literal, String::from("a"));
    let tok = lexer.next_token().unwrap();
    assert_eq!(tok.token_type, TokenType::Ident);
    assert_eq!(tok.token_literal, String::from("b"));
    let tok = lexer.next_token().unwrap();
    assert_eq!(tok.token_type, TokenType::Eof);
}

#[test]
fn advance_moves_one_character_and_stops_at_the_end() {
    let mut lexer = Lexer::new("ab");
    assert_eq!(lexer.pos, 0);
    lexer.advance();
    assert_eq!(lexer.pos, 1);
    lexer.advance();
    assert_eq!(lexer.pos, 2);
    lexer.advance();
    assert_eq!(lexer.pos, 2);
}

#[test]
fn skip_whitespace_stops_at_first_other_character() {
    let mut lexer = Lexer::new(" \t x");
    lexer.skip_whitespace();
    assert_eq!(lexer.pos, 3);
    lexer.skip_whitespace();
    assert_eq!(lexer.pos, 3);
}

#[test]
fn parse_identifier_consumes_only_letters() {
    let mut lexer = Lexer::new("abc123");
    let ident = lexer.parse_identifier();
    assert_eq!(ident, String::from("abc"));
    assert_eq!(lexer.pos, 3);
}

#[test]
fn parse_number_consumes_only_digits() {
    let mut lexer = Lexer::new("123abc");
    let number = lexer.parse_number();
    assert_eq!(number, String::from("123"));
    assert_eq!(lexer.pos, 3);
}
