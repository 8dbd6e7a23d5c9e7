use cmakefmt::parser::lexer::{expect_char, expect_keyword, multispace1};
use cmakefmt::parser::operators::{operator, OperatorKind};
use cmakefmt::parser::{
    cmake_args, cmake_command, cmake_command_name, cmake_comment, cmake_parser,
    cmake_string_part, locate, locate_error, parse, parse_string, skip_empty_command,
    GrammarError, LexError, Location, ParseError, ParseFailure, Rule,
};
use cmakefmt::writer::normalize;

fn chars(text: &str) -> Vec<char> {
    text.chars().collect()
}

fn lex(kind: LexError, offset: usize) -> ParseError {
    ParseError::Lex { kind, offset }
}

fn grammar(kind: GrammarError, offset: usize) -> ParseError {
    ParseError::Grammar { kind, offset }
}

#[test]
fn lexical_errors() {
    assert_eq!(cmake_command_name(&chars("!x"), 0), Err(lex(LexError::InvalidCommandName, 0)));
    assert_eq!(cmake_command_name(&chars("\u{e9}x"), 0), Err(lex(LexError::InvalidCommandName, 0)));
    assert_eq!(cmake_command_name(&chars(""), 0), Err(lex(LexError::InvalidCommandName, 0)));
    assert_eq!(cmake_comment(&chars("x"), 0), Err(lex(LexError::ExpectedChar('#'), 0)));
    assert_eq!(expect_char(&chars("ab"), 1, 'b'), Ok(2));
    assert_eq!(expect_char(&chars("ab"), 2, 'b'), Err(lex(LexError::ExpectedChar('b'), 2)));
    assert_eq!(expect_char(&chars("ab"), 7, 'b'), Err(lex(LexError::ExpectedChar('b'), 7)));
    assert_eq!(parse_string(&chars("\"abc"), 0), Err(lex(LexError::UnterminatedString, 4)));
    assert_eq!(parse_string(&chars("\"ab\\\""), 0), Err(lex(LexError::UnterminatedString, 5)));
    assert_eq!(parse_string(&chars("abc\""), 0), Err(lex(LexError::ExpectedChar('"'), 0)));
    assert_eq!(multispace1(&chars("a \t\r\n b"), 1), Ok(6));
    assert_eq!(multispace1(&chars("ab"), 1), Err(lex(LexError::ExpectedWhitespace, 1)));
    assert_eq!(cmake_args(&chars("(a b"), 0), Err(lex(LexError::ExpectedChar(')'), 4)));
    assert_eq!(cmake_args(&chars("a"), 0), Err(lex(LexError::ExpectedChar('('), 0)));
}

#[test]
fn token_error_names_every_alternative() {
    let expected = ParseError::Context {
        rule: Rule::StringPart,
        offset: 1,
        cause: Box::new(ParseError::Or {
            first: Box::new(lex(LexError::ExpectedToken, 1)),
            second: Box::new(ParseError::Or {
                first: Box::new(lex(LexError::ExpectedChar('('), 1)),
                second: Box::new(lex(LexError::ExpectedChar('{'), 1)),
            }),
        }),
    };
    assert_eq!(cmake_string_part(&chars("a b"), 1), Err(expected));
}

#[test]
fn grammar_errors() {
    assert_eq!(cmake_command(&chars("else()"), 0), Err(grammar(GrammarError::ReservedWord, 4)));
    assert_eq!(expect_keyword(&chars("ENDIF()"), 0, "endif"), Ok(5));
    assert_eq!(expect_keyword(&chars("endi"), 0, "endif"), Err(grammar(GrammarError::ExpectedKeyword, 0)));
    assert_eq!(expect_keyword(&chars("bloc\u{212a}"), 0, "block"), Err(grammar(GrammarError::ExpectedKeyword, 0)));
    assert_eq!(
        skip_empty_command(&chars("foo()"), 0, "endif"),
        Err(grammar(GrammarError::ExpectedKeyword, 0))
    );
    assert_eq!(skip_empty_command(&chars("endif  (a)"), 0, "endif").map(|found| found.0), Ok(10));
    assert_eq!(
        operator(&chars("a XOR b"), 2, OperatorKind::Logical),
        Err(grammar(GrammarError::ExpectedOperator, 2))
    );
    assert_eq!(operator(&chars("a or b"), 2, OperatorKind::Logical), Ok((4, "or".to_string())));
    assert_eq!(
        operator(&chars("VERSION_LESS_EQUAL"), 0, OperatorKind::BinaryTest),
        Ok((18, "VERSION_LESS_EQUAL".to_string()))
    );
    assert_eq!(
        operator(&chars("NOT_IN_LIST"), 0, OperatorKind::BinaryTest),
        Ok((11, "NOT_IN_LIST".to_string()))
    );
    assert_eq!(operator(&chars("lessen"), 0, OperatorKind::BinaryTest), Ok((4, "less".to_string())));
    assert_eq!(operator(&chars("targets"), 0, OperatorKind::UnaryTest), Ok((6, "target".to_string())));
    assert_eq!(operator(&chars("nOt"), 0, OperatorKind::Not), Ok((3, "nOt".to_string())));
}

#[test]
fn trailing_input_is_an_error() {
    match cmake_parser(&chars("foo()\n )"), 0) {
        Err(ParseError::Or { first: _, second }) => {
            assert_eq!(*second, grammar(GrammarError::TrailingInput, 7));
        }
        other => panic!("no alternation: {:?}", other),
    }
    assert!(matches!(
        cmake_parser(&chars(")"), 0),
        Err(ParseError::Or { first: _, second: _ })
    ));
}

#[test]
fn offsets_become_lines_and_columns() {
    let input = chars("ab\ncd\n\nef");
    assert_eq!(locate(&input, 0), Location { line: 0, column: 0 });
    assert_eq!(locate(&input, 2), Location { line: 0, column: 2 });
    assert_eq!(locate(&input, 3), Location { line: 1, column: 0 });
    assert_eq!(locate(&input, 5), Location { line: 1, column: 2 });
    assert_eq!(locate(&input, 6), Location { line: 2, column: 0 });
    assert_eq!(locate(&input, 7), Location { line: 3, column: 0 });
    assert_eq!(locate(&input, 9), Location { line: 3, column: 2 });
    assert_eq!(locate(&input, 100), Location { line: 3, column: 2 });
    assert_eq!(locate(&chars(""), 0), Location { line: 0, column: 0 });
}

#[test]
fn excerpt_starts_two_lines_before() {
    let at = |line: usize| Location { line, column: 0 };
    assert_eq!(at(0).excerpt_start(), 0);
    assert_eq!(at(2).excerpt_start(), 0);
    assert_eq!(at(3).excerpt_start(), 1);
    assert_eq!(at(10).excerpt_start(), 8);
    assert_eq!(cmakefmt::parser::failure::EXCERPT_LINES, 6);
}

#[test]
fn alternations_are_flattened() {
    let input = chars("a\nbc");
    let error = ParseError::Or {
        first: Box::new(ParseError::Or {
            first: Box::new(lex(LexError::ExpectedToken, 0)),
            second: Box::new(ParseError::Context {
                rule: Rule::Value,
                offset: 2,
                cause: Box::new(ParseError::Or {
                    first: Box::new(grammar(GrammarError::ExpectedKeyword, 3)),
                    second: Box::new(grammar(GrammarError::ExpectedOperator, 4)),
                }),
            }),
        }),
        second: Box::new(lex(LexError::ExpectedWhitespace, 1)),
    };
    assert_eq!(
        locate_error(&input, &error),
        ParseFailure::AlternativeExhausted {
            branches: vec![
                ParseFailure::Lex {
                    kind: LexError::ExpectedToken,
                    at: Location { line: 0, column: 0 },
                },
                ParseFailure::Context {
                    rule: Rule::Value,
                    at: Location { line: 1, column: 0 },
                    cause: Box::new(ParseFailure::AlternativeExhausted {
                        branches: vec![
                            ParseFailure::Grammar {
                                kind: GrammarError::ExpectedKeyword,
                                at: Location { line: 1, column: 1 },
                            },
                            ParseFailure::Grammar {
                                kind: GrammarError::ExpectedOperator,
                                at: Location { line: 1, column: 2 },
                            },
                        ],
                    }),
                },
                ParseFailure::Lex {
                    kind: LexError::ExpectedWhitespace,
                    at: Location { line: 0, column: 1 },
                },
            ],
        }
    );
}

#[test]
fn parse_failure_has_one_branch_for_each_statement_kind() {
    match parse("foo(a)\nbar(") {
        Err(ParseFailure::AlternativeExhausted { branches }) => {
            assert_eq!(branches.len(), 9);
            assert_eq!(
                branches[0],
                ParseFailure::Context {
                    rule: Rule::Command,
                    at: Location { line: 1, column: 0 },
                    cause: Box::new(ParseFailure::Lex {
                        kind: LexError::ExpectedChar(')'),
                        at: Location { line: 1, column: 4 },
                    }),
                }
            );
            assert_eq!(
                branches[8],
                ParseFailure::Grammar {
                    kind: GrammarError::TrailingInput,
                    at: Location { line: 1, column: 0 },
                }
            );
        }
        other => panic!("no alternation: {:?}", other),
    }
}

#[test]
fn furthest_place_of_a_failure() {
    let failure = parse("foo(a)\nbar(b c").unwrap_err();
    assert_eq!(failure.furthest(), Location { line: 1, column: 7 });
    let failure = parse("if(A)\nfoo()\n").unwrap_err();
    assert_eq!(failure.furthest(), Location { line: 2, column: 0 });
    let lone = ParseFailure::Lex { kind: LexError::ExpectedToken, at: Location { line: 4, column: 2 } };
    assert_eq!(lone.furthest(), Location { line: 4, column: 2 });
    let empty = ParseFailure::AlternativeExhausted { branches: vec![] };
    assert_eq!(empty.furthest(), Location { line: 0, column: 0 });
    assert_eq!(
        Location { line: 1, column: 9 }.max(Location { line: 2, column: 0 }),
        Location { line: 2, column: 0 }
    );
    assert_eq!(
        Location { line: 2, column: 3 }.max(Location { line: 2, column: 1 }),
        Location { line: 2, column: 3 }
    );
}

#[test]
fn carriage_returns_are_not_written() {
    assert_eq!(normalize(b"a\r\nb\r\n"), b"a\nb\n".to_vec());
    assert_eq!(normalize(b"\r\r\r"), Vec::<u8>::new());
    assert_eq!(normalize(b""), Vec::<u8>::new());
    assert_eq!(normalize(b"abc"), b"abc".to_vec());
    assert_eq!(normalize("\u{e9}\r".as_bytes()), "\u{e9}".as_bytes().to_vec());
}
