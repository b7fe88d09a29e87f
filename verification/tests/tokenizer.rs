use caustic::openscad::tokenizer::{
    openscad_tokenize, openscad_tokenize_with_positions, tokenize_classified,
    tokenize_classified_with_positions, Token, TokenWithPos, Tokenizer,
};
use caustic::text::{classify, classify_all, CharKind};

/// A number token for the text `text`, which must read as `value`.
fn number(text: &str, value: f64) -> Token {
    let read: f64 = text.parse().unwrap();
    assert!((read - value).abs() < 1e-10);
    Token::Number(text.to_string())
}

fn assert_tokens(input: &str, expected: &[TokenWithPos]) {
    let found = openscad_tokenize(input);
    assert_eq!(found, expected);
}

#[test]
fn test_re_number() {
    assert_tokens(
        "1",
        &vec![TokenWithPos {
            col: 1,
            line: 1,
            token: number("1", 1.0),
        }],
    );

    assert_tokens(
        "42",
        &vec![TokenWithPos {
            col: 1,
            line: 1,
            token: number("42", 42.0),
        }],
    );

    assert_tokens(
        "42.34",
        &vec![TokenWithPos {
            col: 1,
            line: 1,
            token: number("42.34", 42.34),
        }],
    );

    assert_tokens(
        "42.34e11",
        &vec![TokenWithPos {
            col: 1,
            line: 1,
            token: number("42.34e11", 42.34e11),
        }],
    );

    assert_tokens(
        "42.34E-11",
        &vec![TokenWithPos {
            col: 1,
            line: 1,
            token: number("42.34E-11", 42.34e-11),
        }],
    );

    assert_tokens(
        "42.34a",
        &vec![
            TokenWithPos {
                col: 1,
                line: 1,
                token: number("42.34", 42.34),
            },
            TokenWithPos {
                col: 6,
                line: 1,
                token: Token::Identifier("a".to_string()),
            },
        ],
    );
}

#[test]
fn test_re_identifier() {
    assert_tokens(
        "a",
        &vec![TokenWithPos {
            col: 1,
            line: 1,
            token: Token::Identifier("a".to_string()),
        }],
    );

    assert_tokens(
        "cube_2",
        &vec![TokenWithPos {
            col: 1,
            line: 1,
            token: Token::Identifier("cube_2".to_string()),
        }],
    );

    assert_tokens(
        "cube(",
        &vec![
            TokenWithPos {
                col: 1,
                line: 1,
                token: Token::Identifier("cube".to_string()),
            },
            TokenWithPos {
                col: 5,
                line: 1,
                token: Token::LeftParen,
            },
        ],
    );
}

#[test]
fn tokenizer_test_simple() {
    assert_tokens(
        "cube(10);",
        &vec![
            TokenWithPos {
                col: 1,
                line: 1,
                token: Token::Identifier("cube".to_string()),
            },
            TokenWithPos {
                col: 5,
                line: 1,
                token: Token::LeftParen,
            },
            TokenWithPos {
                col: 6,
                line: 1,
                token: number("10", 10.0),
            },
            TokenWithPos {
                col: 8,
                line: 1,
                token: Token::RightParen,
            },
            TokenWithPos {
                col: 9,
                line: 1,
                token: Token::Semicolon,
            },
        ],
    );
}

fn kinds(input: &str) -> Vec<Token> {
    openscad_tokenize(input).into_iter().map(|t| t.token).collect()
}

#[test]
fn test_empty_and_blank_texts_have_no_tokens() {
    assert_tokens("", &[]);
    assert_tokens(" \t\r\n  ", &[]);
    assert_tokens("// only a comment", &[]);
    assert_tokens("/* open to the end", &[]);
}

#[test]
fn test_lines_and_columns() {
    assert_tokens(
        "a\n  b\n\n;",
        &vec![
            TokenWithPos { token: Token::Identifier("a".to_string()), line: 1, col: 1 },
            TokenWithPos { token: Token::Identifier("b".to_string()), line: 2, col: 3 },
            TokenWithPos { token: Token::Semicolon, line: 4, col: 1 },
        ],
    );
}

#[test]
fn test_comments_are_skipped() {
    assert_tokens(
        "a // rest of line ; (\nb /* in\nblock */ c",
        &vec![
            TokenWithPos { token: Token::Identifier("a".to_string()), line: 1, col: 1 },
            TokenWithPos { token: Token::Identifier("b".to_string()), line: 2, col: 1 },
            TokenWithPos { token: Token::Identifier("c".to_string()), line: 3, col: 10 },
        ],
    );
    assert_eq!(kinds("/**/;"), vec![Token::Semicolon]);
    assert_eq!(kinds("/*/ ;"), Vec::<Token>::new());
    assert_eq!(kinds("/* * / */;"), vec![Token::Semicolon]);
}

#[test]
fn test_a_lone_slash_is_unknown() {
    assert_eq!(
        kinds("a / b"),
        vec![
            Token::Identifier("a".to_string()),
            Token::Unknown('/'),
            Token::Identifier("b".to_string()),
        ]
    );
}

#[test]
fn test_number_forms() {
    assert_eq!(kinds(".5"), vec![Token::Number(".5".to_string())]);
    assert_eq!(kinds("5."), vec![Token::Number("5.".to_string())]);
    assert_eq!(kinds("1.e3"), vec![Token::Number("1.e3".to_string())]);
    assert_eq!(kinds("1e+3"), vec![Token::Number("1e+3".to_string())]);
    assert_eq!(
        kinds("1.2.3"),
        vec![Token::Number("1.2".to_string()), Token::Number(".3".to_string())]
    );
    assert_eq!(kinds("."), vec![Token::Unknown('.')]);
    assert_eq!(kinds(".."), vec![Token::Unknown('.'), Token::Unknown('.')]);
}

#[test]
fn test_every_number_reads_as_a_float() {
    for text in ["0", "007", ".5", "5.", "1.e3", "1E-3", "1e+30", "12.5e0", "9e999"] {
        let tokens = kinds(text);
        assert_eq!(tokens, vec![Token::Number(text.to_string())]);
        assert!(text.parse::<f64>().is_ok());
    }
}

#[test]
fn test_exponent_without_digits_is_no_number() {
    assert_eq!(
        kinds("1e"),
        vec![Token::Unknown('1'), Token::Identifier("e".to_string())]
    );
    assert_eq!(
        kinds("2e+"),
        vec![Token::Unknown('2'), Token::Identifier("e".to_string()), Token::Unknown('+')]
    );
    assert_eq!(
        kinds("3em"),
        vec![Token::Unknown('3'), Token::Identifier("em".to_string())]
    );
    assert!("1e".parse::<f64>().is_err());
    assert!("2e+".parse::<f64>().is_err());
}

#[test]
fn test_keywords_and_signs_as_the_scanner_sees_them() {
    assert_eq!(kinds("for"), vec![Token::Identifier("for".to_string())]);
    assert_eq!(kinds("="), vec![Token::Unknown('=')]);
    assert_eq!(kinds("_x1"), vec![Token::Identifier("_x1".to_string())]);
}

#[test]
fn test_unicode_text() {
    assert_eq!(kinds("\u{e9}t\u{e9}"), vec![Token::Identifier("\u{e9}t\u{e9}".to_string())]);
    assert_eq!(kinds("a\u{a0}b").len(), 2);
    assert_eq!(kinds("x\u{b2}"), vec![Token::Identifier("x\u{b2}".to_string())]);
}

#[test]
fn test_tokens_with_offsets() {
    let tokens = openscad_tokenize_with_positions("cube(10);");
    let found: Vec<(Token, usize, usize)> =
        tokens.into_iter().map(|t| (t.item, t.start, t.end)).collect();
    assert_eq!(
        found,
        vec![
            (Token::Identifier("cube".to_string()), 0, 4),
            (Token::LeftParen, 4, 5),
            (Token::Number("10".to_string()), 5, 7),
            (Token::RightParen, 7, 8),
            (Token::Semicolon, 8, 9),
            (Token::Eof, 9, 9),
        ]
    );
}

#[test]
fn test_end_token_stands_behind_trailing_space() {
    let tokens = openscad_tokenize_with_positions(" ; // done\n");
    let found: Vec<(Token, usize, usize)> =
        tokens.into_iter().map(|t| (t.item, t.start, t.end)).collect();
    assert_eq!(found, vec![(Token::Semicolon, 1, 2), (Token::Eof, 11, 11)]);
    let empty = openscad_tokenize_with_positions("");
    assert_eq!(empty.len(), 1);
    assert_eq!(empty[0].item, Token::Eof);
}

#[test]
fn test_tokens_stand_in_order() {
    let text = "translate ( 1 2.5 ) /* c */ cube(3);\n;; $";
    let tokens = openscad_tokenize_with_positions(text);
    let mut last = 0;
    for t in &tokens {
        assert!(last <= t.start);
        assert!(t.start <= t.end);
        assert!(t.end <= text.chars().count());
        last = t.end;
    }
}

#[test]
fn test_scanner_steps() {
    let mut t = Tokenizer::new("ab\nc");
    assert_eq!(t.current(), Some('a'));
    assert_eq!(t.peek(1), Some('b'));
    assert_eq!(t.peek(4), None);
    assert_eq!(t.peek(usize::MAX), None);
    assert_eq!(t.advance(), Some('a'));
    t.advance_n(2);
    assert_eq!(t.current(), Some('c'));
    let next = t.next();
    assert_eq!(
        next,
        Some(TokenWithPos { token: Token::Identifier("c".to_string()), line: 2, col: 1 })
    );
    assert_eq!(t.advance(), None);
    assert_eq!(t.next(), None);
    t.advance_n(10);
    assert_eq!(t.current(), None);
}

#[test]
fn test_same_as() {
    assert!(Token::Semicolon.same_as(&Token::Semicolon));
    assert!(!Token::Semicolon.same_as(&Token::Eof));
    assert!(Token::Identifier("a".to_string()).same_as(&Token::Identifier("a".to_string())));
    assert!(!Token::Identifier("a".to_string()).same_as(&Token::Identifier("b".to_string())));
    assert!(!Token::Identifier("1".to_string()).same_as(&Token::Number("1".to_string())));
    assert!(Token::Unknown('$').same_as(&Token::Unknown('$')));
    assert!(!Token::Unknown('$').same_as(&Token::Unknown('%')));
}

#[test]
fn test_kinds_as_the_standard_library_tells_them() {
    for c in ['a', 'Z', '\u{e9}', '7', '\u{b2}', '_', ' ', '\t', '\n', '\u{a0}', '(', '$'] {
        assert_eq!(
            classify(c),
            CharKind {
                whitespace: c.is_whitespace(),
                alphabetic: c.is_alphabetic(),
                alphanumeric: c.is_alphanumeric(),
            }
        );
    }
    assert_eq!(
        classify('a'),
        CharKind { whitespace: false, alphabetic: true, alphanumeric: true }
    );
    assert_eq!(
        classify('7'),
        CharKind { whitespace: false, alphabetic: false, alphanumeric: true }
    );
    assert_eq!(
        classify(' '),
        CharKind { whitespace: true, alphabetic: false, alphanumeric: false }
    );
    assert_eq!(classify_all(&vec!['a', ' ']), vec![classify('a'), classify(' ')]);
    assert!(classify_all(&vec![]).is_empty());
}

#[test]
fn test_tokens_of_classified_text() {
    let chars: Vec<char> = "ab 1;".chars().collect();
    let kinds = classify_all(&chars);
    assert_eq!(tokenize_classified(chars.clone(), kinds.clone()), openscad_tokenize("ab 1;"));
    assert_eq!(
        tokenize_classified_with_positions(chars, kinds),
        openscad_tokenize_with_positions("ab 1;")
    );
}

#[test]
fn test_the_kinds_decide_not_the_characters() {
    let plain = CharKind { whitespace: false, alphabetic: false, alphanumeric: false };
    let space = CharKind { whitespace: true, alphabetic: false, alphanumeric: false };
    let letter = CharKind { whitespace: false, alphabetic: true, alphanumeric: true };
    // `#` told to be a letter, `x` told to be white space, `y` told to be nothing
    let tokens = tokenize_classified(vec!['#', '#', 'x', 'y'], vec![letter, letter, space, plain]);
    assert_eq!(
        tokens,
        vec![
            TokenWithPos { token: Token::Identifier("##".to_string()), line: 1, col: 1 },
            TokenWithPos { token: Token::Unknown('y'), line: 1, col: 4 },
        ]
    );
    // a letter that is told not to be alphanumeric still belongs to its name
    let odd = CharKind { whitespace: false, alphabetic: true, alphanumeric: false };
    let tokens = tokenize_classified(vec!['a', 'b'], vec![odd, odd]);
    assert_eq!(
        tokens,
        vec![TokenWithPos { token: Token::Identifier("ab".to_string()), line: 1, col: 1 }]
    );
}
