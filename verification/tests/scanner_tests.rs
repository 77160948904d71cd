use lox_scanner::scanner::Scanner;
use lox_scanner::token::{ErrorKind, Literal, Token, TokenType};

/// The numeric value a token's numeral denotes, as the 64-bit float an
/// evaluator would use.
fn number_value(t: &Token) -> f64 {
    match &t.literal {
        Literal::Number(s) => s.parse::<f64>().unwrap(),
        _ => panic!("not a number token"),
    }
}

#[test]
fn test_single_left_paren() {
    let mut scanner = Scanner::new("(".to_string());
    scanner.scan_token();
    assert_eq!(
        scanner.tokens[0],
        Token {
            token_type: TokenType::LeftParen,
            literal: Literal::Nothing,
            lexeme: "(".to_string(),
            line: 1
        }
    )
}

#[test]
fn test_single_right_paren() {
    let mut scanner = Scanner::new(")".to_string());
    scanner.scan_token();
    assert_eq!(
        scanner.tokens[0],
        Token {
            token_type: TokenType::RightParen,
            literal: Literal::Nothing,
            lexeme: ")".to_string(),
            line: 1
        }
    )
}

#[test]
fn test_single_left_brace() {
    let mut scanner = Scanner::new("{".to_string());
    scanner.scan_token();
    assert_eq!(
        scanner.tokens[0],
        Token {
            token_type: TokenType::LeftBrace,
            literal: Literal::Nothing,
            lexeme: "{".to_string(),
            line: 1
        }
    )
}

#[test]
fn test_bang_and_bang_equal() {
    let mut scanner = Scanner::new("!".to_string());
    scanner.scan_token();
    scanner.scan_token();
    assert_eq!(
        scanner.tokens[0],
        Token {
            token_type: TokenType::Bang,
            literal: Literal::Nothing,
            lexeme: "!".to_string(),
            line: 1
        }
    );

    let mut scanner = Scanner::new("!=".to_string());
    scanner.scan_token();
    assert_eq!(
        scanner.tokens[0],
        Token {
            token_type: TokenType::BangEqual,
            literal: Literal::Nothing,
            lexeme: "!=".to_string(),
            line: 1
        }
    );
}

#[test]
fn test_equal_and_equal_equal() {
    let mut scanner = Scanner::new("=".to_string());
    scanner.scan_token();
    assert_eq!(
        scanner.tokens[0],
        Token {
            token_type: TokenType::Equal,
            literal: Literal::Nothing,
            lexeme: "=".to_string(),
            line: 1
        }
    );

    let mut scanner = Scanner::new("==".to_string());
    scanner.scan_token();
    assert_eq!(
        scanner.tokens[0],
        Token {
            token_type: TokenType::EqualEqual,
            literal: Literal::Nothing,
            lexeme: "==".to_string(),
            line: 1
        }
    );
}

#[test]
fn test_greater_and_greater_equal() {
    let mut scanner = Scanner::new(">".to_string());
    scanner.scan_token();
    assert_eq!(
        scanner.tokens[0],
        Token {
            token_type: TokenType::Greater,
            literal: Literal::Nothing,
            lexeme: ">".to_string(),
            line: 1
        }
    );

    let mut scanner = Scanner::new(">=".to_string());
    scanner.scan_token();
    assert_eq!(
        scanner.tokens[0],
        Token {
            token_type: TokenType::GreaterEqual,
            literal: Literal::Nothing,
            lexeme: ">=".to_string(),
            line: 1
        }
    );
}

#[test]
fn test_less_and_less_equal() {
    let mut scanner = Scanner::new("<".to_string());
    scanner.scan_token();
    assert_eq!(
        scanner.tokens[0],
        Token {
            token_type: TokenType::Less,
            literal: Literal::Nothing,
            lexeme: "<".to_string(),
            line: 1
        }
    );

    let mut scanner = Scanner::new("<=".to_string());
    scanner.scan_token();
    assert_eq!(
        scanner.tokens[0],
        Token {
            token_type: TokenType::LessEqual,
            literal: Literal::Nothing,
            lexeme: "<=".to_string(),
            line: 1
        }
    );
}

#[test]
fn test_add_number() {
    let mut scanner = Scanner::new("123.456".to_string());
    scanner.scan_token();
    assert_eq!(
        scanner.tokens[0],
        Token {
            token_type: TokenType::Number,
            literal: Literal::Number("123.456".to_string()),
            lexeme: "123.456".to_string(),
            line: 1
        }
    );
    assert_eq!(number_value(&scanner.tokens[0]), 123.456);

    let mut scanner = Scanner::new("123".to_string());
    scanner.scan_token();
    assert_eq!(
        scanner.tokens[0],
        Token {
            token_type: TokenType::Number,
            literal: Literal::Number("123".to_string()),
            lexeme: "123".to_string(),
            line: 1
        }
    );
    assert_eq!(number_value(&scanner.tokens[0]), 123.0);

    let mut scanner = Scanner::new("  123.567  ".to_string());
    scanner.scan_token();
    scanner.scan_token();
    scanner.scan_token();
    assert_eq!(
        scanner.tokens[0],
        Token {
            token_type: TokenType::Number,
            literal: Literal::Number("123.567".to_string()),
            lexeme: "123.567".to_string(),
            line: 1
        }
    );
    assert_eq!(number_value(&scanner.tokens[0]), 123.567);
}

#[test]
fn test_add_string() {
    let mut scanner = Scanner::new("\"hello\"".to_string());
    scanner.scan_token();
    assert_eq!(
        scanner.tokens[0],
        Token {
            token_type: TokenType::String,
            literal: Literal::String("hello".to_string()),
            lexeme: "\"hello\"".to_string(),
            line: 1
        }
    );

    let mut scanner = Scanner::new("\"he_llo\"".to_string());
    scanner.scan_token();
    assert_eq!(
        scanner.tokens[0],
        Token {
            token_type: TokenType::String,
            literal: Literal::String("he_llo".to_string()),
            lexeme: "\"he_llo\"".to_string(),
            line: 1
        }
    );

    let mut scanner = Scanner::new("  \"hello\"".to_string());
    scanner.scan_token();
    scanner.scan_token();
    scanner.scan_token();
    assert_eq!(
        scanner.tokens[0],
        Token {
            token_type: TokenType::String,
            literal: Literal::String("hello".to_string()),
            lexeme: "\"hello\"".to_string(),
            line: 1
        }
    );

    let mut scanner = Scanner::new("  \"hello\" ".to_string());
    scanner.scan_token();
    scanner.scan_token();
    scanner.scan_token();
    assert_eq!(
        scanner.tokens[0],
        Token {
            token_type: TokenType::String,
            literal: Literal::String("hello".to_string()),
            lexeme: "\"hello\"".to_string(),
            line: 1
        }
    );
}

#[test]
fn test_identifier() {
    let mut scanner = Scanner::new("hell_o".to_string());
    scanner.scan_token();
    assert_eq!(
        scanner.tokens[0],
        Token {
            token_type: TokenType::Identifier,
            literal: Literal::String("hell_o".to_string()),
            lexeme: "hell_o".to_string(),
            line: 1
        }
    );
}

#[test]
fn test_keyword() {
    let mut scanner = Scanner::new("fun".to_string());
    scanner.scan_token();
    assert_eq!(
        scanner.tokens[0],
        Token {
            token_type: TokenType::Fun,
            literal: Literal::Nothing,
            lexeme: "fun".to_string(),
            line: 1
        }
    );
}

#[test]
fn every_punctuation_symbol_scans_to_its_kind() {
    let cases = [
        ("(", TokenType::LeftParen),
        (")", TokenType::RightParen),
        ("{", TokenType::LeftBrace),
        ("}", TokenType::RightBrace),
        (",", TokenType::Comma),
        (".", TokenType::Dot),
        ("-", TokenType::Minus),
        ("+", TokenType::Plus),
        (";", TokenType::Semicolon),
        ("/", TokenType::Slash),
        ("*", TokenType::Star),
    ];
    for (text, kind) in cases {
        let mut scanner = Scanner::new(text.to_string());
        scanner.scan_all();
        assert_eq!(scanner.tokens.len(), 1);
        assert_eq!(scanner.errors.len(), 0);
        assert_eq!(
            scanner.tokens[0],
            Token {
                token_type: kind,
                literal: Literal::Nothing,
                lexeme: text.to_string(),
                line: 1
            }
        );
    }
}

#[test]
fn ambiguous_operators_are_greedy() {
    let cases = [
        ("!", TokenType::Bang, "!=", TokenType::BangEqual),
        ("=", TokenType::Equal, "==", TokenType::EqualEqual),
        ("<", TokenType::Less, "<=", TokenType::LessEqual),
        (">", TokenType::Greater, ">=", TokenType::GreaterEqual),
    ];
    for (single, single_kind, double, double_kind) in cases {
        let mut scanner = Scanner::new(single.to_string());
        scanner.scan_all();
        assert_eq!(scanner.tokens.len(), 1);
        assert_eq!(scanner.tokens[0].token_type, single_kind);

        let mut scanner = Scanner::new(double.to_string());
        scanner.scan_all();
        assert_eq!(scanner.tokens.len(), 1);
        assert_eq!(scanner.tokens[0].token_type, double_kind);
        assert_eq!(scanner.tokens[0].lexeme, double.to_string());
    }
}

#[test]
fn every_keyword_resolves_to_its_reserved_kind() {
    let cases = [
        ("and", TokenType::And),
        ("class", TokenType::Class),
        ("else", TokenType::Else),
        ("false", TokenType::False),
        ("for", TokenType::For),
        ("fun", TokenType::Fun),
        ("if", TokenType::If),
        ("nil", TokenType::Nil),
        ("or", TokenType::Or),
        ("print", TokenType::Print),
        ("return", TokenType::Return),
        ("super", TokenType::Super),
        ("this", TokenType::This),
        ("true", TokenType::True),
        ("var", TokenType::Var),
        ("while", TokenType::While),
    ];
    for (text, kind) in cases {
        let mut scanner = Scanner::new(text.to_string());
        scanner.scan_all();
        assert_eq!(scanner.tokens.len(), 1);
        assert_eq!(
            scanner.tokens[0],
            Token {
                token_type: kind,
                literal: Literal::Nothing,
                lexeme: text.to_string(),
                line: 1
            }
        );
    }
}

#[test]
fn underscore_starts_an_identifier() {
    let mut scanner = Scanner::new("_tmp1".to_string());
    scanner.scan_all();
    assert_eq!(scanner.tokens.len(), 1);
    assert_eq!(
        scanner.tokens[0],
        Token {
            token_type: TokenType::Identifier,
            literal: Literal::String("_tmp1".to_string()),
            lexeme: "_tmp1".to_string(),
            line: 1
        }
    );
}

#[test]
fn string_may_hold_blanks_and_punctuation() {
    let mut scanner = Scanner::new("\"a b;(\"".to_string());
    scanner.scan_all();
    assert_eq!(scanner.tokens.len(), 1);
    assert_eq!(scanner.errors.len(), 0);
    assert_eq!(scanner.tokens[0].literal, Literal::String("a b;(".to_string()));
    assert_eq!(scanner.tokens[0].lexeme, "\"a b;(\"".to_string());
}

#[test]
fn unterminated_string_is_an_error_not_a_token() {
    let mut scanner = Scanner::new("\"abc".to_string());
    scanner.scan_all();
    assert_eq!(scanner.tokens.len(), 0);
    assert_eq!(scanner.errors.len(), 1);
    assert_eq!(scanner.errors[0].kind, ErrorKind::UnterminatedString);
    assert_eq!(scanner.errors[0].line, 1);
    assert_eq!(scanner.errors[0].lexeme, "\"abc".to_string());
}

#[test]
fn number_with_two_decimal_points_is_one_error() {
    let mut scanner = Scanner::new("1.2.3".to_string());
    scanner.scan_all();
    assert_eq!(scanner.tokens.len(), 0);
    assert_eq!(scanner.errors.len(), 1);
    assert_eq!(scanner.errors[0].kind, ErrorKind::InvalidNumberFormat);
    assert_eq!(scanner.errors[0].lexeme, "1.2.3".to_string());
}

#[test]
fn trailing_decimal_point_is_not_part_of_the_number() {
    let mut scanner = Scanner::new("123.".to_string());
    scanner.scan_all();
    assert_eq!(scanner.tokens.len(), 2);
    assert_eq!(scanner.errors.len(), 0);
    assert_eq!(scanner.tokens[0].token_type, TokenType::Number);
    assert_eq!(scanner.tokens[0].lexeme, "123".to_string());
    assert_eq!(number_value(&scanner.tokens[0]), 123.0);
    assert_eq!(scanner.tokens[1].token_type, TokenType::Dot);
    assert_eq!(scanner.tokens[1].lexeme, ".".to_string());
}

#[test]
fn newline_advances_the_line_of_following_tokens() {
    let mut scanner = Scanner::new("a\nb".to_string());
    scanner.scan_all();
    assert_eq!(scanner.tokens.len(), 2);
    assert_eq!(scanner.tokens[0].lexeme, "a".to_string());
    assert_eq!(scanner.tokens[0].line, 1);
    assert_eq!(scanner.tokens[1].lexeme, "b".to_string());
    assert_eq!(scanner.tokens[1].line, 2);
}

#[test]
fn newline_inside_string_advances_later_lines() {
    let mut scanner = Scanner::new("\"a\nb\" c".to_string());
    scanner.scan_all();
    assert_eq!(scanner.tokens.len(), 2);
    assert_eq!(scanner.tokens[0].token_type, TokenType::String);
    assert_eq!(scanner.tokens[0].literal, Literal::String("a\nb".to_string()));
    assert_eq!(scanner.tokens[0].line, 1);
    assert_eq!(scanner.tokens[1].lexeme, "c".to_string());
    assert_eq!(scanner.tokens[1].line, 2);
}

#[test]
fn two_unexpected_characters_give_two_errors_and_scanning_goes_on() {
    let mut scanner = Scanner::new("@;\n#;".to_string());
    scanner.scan_all();
    assert_eq!(scanner.errors.len(), 2);
    assert_eq!(scanner.errors[0].kind, ErrorKind::UnexpectedCharacter);
    assert_eq!(scanner.errors[0].lexeme, "@".to_string());
    assert_eq!(scanner.errors[0].line, 1);
    assert_eq!(scanner.errors[1].kind, ErrorKind::UnexpectedCharacter);
    assert_eq!(scanner.errors[1].lexeme, "#".to_string());
    assert_eq!(scanner.errors[1].line, 2);
    assert_eq!(scanner.tokens.len(), 2);
    assert_eq!(scanner.tokens[0].token_type, TokenType::Semicolon);
    assert_eq!(scanner.tokens[0].line, 1);
    assert_eq!(scanner.tokens[1].token_type, TokenType::Semicolon);
    assert_eq!(scanner.tokens[1].line, 2);
}

#[test]
fn scanning_twice_gives_identical_results() {
    let source = "var x = 1.5;\nprint \"hi\" @";
    let mut first = Scanner::new(source.to_string());
    first.scan_all();
    let mut second = Scanner::new(source.to_string());
    second.scan_all();
    assert_eq!(first.tokens, second.tokens);
    assert_eq!(first.errors, second.errors);
}

#[test]
fn empty_source_yields_nothing() {
    let mut scanner = Scanner::new("".to_string());
    scanner.scan_all();
    assert_eq!(scanner.tokens.len(), 0);
    assert_eq!(scanner.errors.len(), 0);
}

#[test]
fn scan_token_at_end_of_input_emits_nothing() {
    let mut scanner = Scanner::new("(".to_string());
    scanner.scan_token();
    scanner.scan_token();
    scanner.scan_token();
    assert_eq!(scanner.tokens.len(), 1);
    assert_eq!(scanner.errors.len(), 0);
}

#[test]
fn mixed_statement_scans_in_order() {
    let mut scanner = Scanner::new("var answer = 6 * 7;".to_string());
    scanner.scan_all();
    let kinds: Vec<TokenType> = scanner.tokens.iter().map(|t| t.token_type).collect();
    assert_eq!(
        kinds,
        vec![
            TokenType::Var,
            TokenType::Identifier,
            TokenType::Equal,
            TokenType::Number,
            TokenType::Star,
            TokenType::Number,
            TokenType::Semicolon,
        ]
    );
    assert_eq!(scanner.errors.len(), 0);
    assert_eq!(number_value(&scanner.tokens[3]), 6.0);
    assert_eq!(number_value(&scanner.tokens[5]), 7.0);
}
