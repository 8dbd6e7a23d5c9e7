use cmakefmt::parser::types::{
    CMakeCommand, CMakeCondition, CMakeDocument, CMakeIfBase, CMakeIfStatement, CMakeStatement,
    CMakeValue,
};
use cmakefmt::parser::{
    cmake_arg_list_inner, cmake_arg_parenthesis, cmake_args, cmake_command, cmake_command_name,
    cmake_comment, cmake_if_group, cmake_parser, cmake_quoted_string_literal,
    cmake_string_literal, cmake_value, parse_string, ParseError,
};

type Rule<T> = fn(&[char], usize) -> Result<(usize, T), ParseError>;

/// Runs `rule` on all of `input`: the value it matched, if it matched
/// everything.
fn whole<T>(rule: Rule<T>, input: &str) -> Option<T> {
    let chars: Vec<char> = input.chars().collect();
    match rule(&chars, 0) {
        Ok((end, value)) if end == chars.len() => Some(value),
        _ => None,
    }
}

fn literal(text: &str) -> CMakeValue {
    CMakeValue::StringLiteral(text.to_string())
}

fn specifier(text: &str) -> CMakeValue {
    CMakeValue::ArgumentSpecifier(text.to_string())
}

fn parenthesis(text: &str) -> CMakeValue {
    CMakeValue::Parenthesis(text.to_string())
}

fn call(name: &str) -> CMakeStatement {
    CMakeStatement::Command(CMakeCommand { name: name.to_string(), args: vec![] })
}

#[test]
fn test_parse_string() {
    let result = whole(parse_string, "\"test 1234\"").unwrap();
    assert_eq!(result, "test 1234");
}

#[test]
fn test_parse_string_with_quotes() {
    let result = whole(parse_string, "\"test \\\"quote\\\" 1234\"").unwrap();
    assert_eq!(result, "test \\\"quote\\\" 1234");
}

#[test]
fn test_parse_empty_string_literal() {
    assert!(whole(cmake_string_literal, "").is_none());
    let chars: Vec<char> = Vec::new();
    assert!(matches!(cmake_string_literal(&chars, 0), Err(_)));
}

#[test]
fn test_parse_string_literal_with_special_characters() {
    let result = whole(cmake_string_literal, "foo_bar123").unwrap();
    assert_eq!(result, CMakeValue::StringLiteral("foo_bar123".to_string()));
}

#[test]
fn test_parse_quoted_string_with_escaped_quotes() {
    let result = whole(cmake_quoted_string_literal, r#""foo""#).unwrap();
    assert_eq!(result, CMakeValue::QuotedString(r#"foo"#.to_string()));
}

#[test]
fn test_parse_quoted_string_with_inner_quotes() {
    let result = whole(cmake_quoted_string_literal, r#""foo\"bar""#).unwrap();
    assert_eq!(result, CMakeValue::QuotedString(r#"foo\"bar"#.to_string()));
}

#[test]
fn test_parse_quoted_string_empty() {
    let result = whole(cmake_quoted_string_literal, r#""""#).unwrap();
    assert_eq!(result, CMakeValue::QuotedString("".to_string()));
}

#[test]
fn test_parse_quoted_string_with_newline() {
    let result = whole(cmake_quoted_string_literal, "\"foo\nbar\"").unwrap();
    assert_eq!(result, CMakeValue::QuotedString("foo\nbar".to_string()));
}

#[test]
fn test_parse_comment_empty() {
    let result = whole(cmake_comment, "#").unwrap();
    assert_eq!(result, "");
}

#[test]
fn test_parse_comment_with_spaces() {
    let result = whole(cmake_comment, "#    ").unwrap();
    assert_eq!(result, "    ");
}

#[test]
fn test_parse_comment_with_content() {
    let result = whole(cmake_comment, "# This is a test").unwrap();
    assert_eq!(result, " This is a test");
}

#[test]
fn test_parse_comment_with_special_characters() {
    let result = whole(cmake_comment, "# Special_chars: @#$%^&*()").unwrap();
    assert_eq!(result, " Special_chars: @#$%^&*()");
}

#[test]
fn test_parse_command_name_simple() {
    let result = whole(cmake_command_name, "foo").unwrap();
    assert_eq!(result, "foo");
}

#[test]
fn test_parse_command_name_with_underscores() {
    let result = whole(cmake_command_name, "foo_bar").unwrap();
    assert_eq!(result, "foo_bar");
}

#[test]
fn test_parse_command_name_with_numbers() {
    let result = whole(cmake_command_name, "foo123").unwrap();
    assert_eq!(result, "foo123");
}

#[test]
fn test_parse_command_name_fail_with_special_char() {
    assert!(whole(cmake_command_name, "foo!bar").is_none());
    let chars: Vec<char> = "foo!bar".chars().collect();
    assert_eq!(cmake_command_name(&chars, 0), Ok((3, "foo".to_string())));
}

#[test]
fn test_parse_command_name_fail_with_space() {
    assert!(whole(cmake_command_name, "foo bar").is_none());
    let chars: Vec<char> = "foo bar".chars().collect();
    assert_eq!(cmake_command_name(&chars, 0), Ok((3, "foo".to_string())));
}

#[test]
fn test_parse_string_unquoted() {
    let result = whole(cmake_value, "foo").unwrap();
    assert_eq!(result, CMakeValue::StringLiteral("foo".to_string()));
}

#[test]
fn test_parse_comment() {
    let result = whole(cmake_comment, "# This is a comment").unwrap();
    assert_eq!(result, " This is a comment");
}

#[test]
fn test_parse_command_with_comment() {
    let result = whole(cmake_parser, "foo(bar) # comment").unwrap();
    assert_eq!(
        result,
        CMakeDocument {
            statements: vec![
                CMakeStatement::Command(CMakeCommand {
                    name: "foo".to_string(),
                    args: vec![CMakeValue::StringLiteral("bar".to_string())],
                }),
                CMakeStatement::Comment(" comment".to_string())
            ]
        }
    );
}

#[test]
fn test_parse_string_quoted() {
    let result = whole(cmake_value, "\"foo\"").unwrap();
    assert_eq!(result, CMakeValue::QuotedString("foo".to_string()));
}

#[test]
fn test_parse_number_literal() {
    let result = whole(cmake_value, "1.2").unwrap();
    assert_eq!(result, CMakeValue::StringLiteral("1.2".to_string()));
}

#[test]
fn test_parse_version_literal() {
    let result = whole(cmake_value, "1.2.3").unwrap();
    assert_eq!(result, CMakeValue::StringLiteral("1.2.3".to_string()));
}

#[test]
fn test_parse_empty_command() {
    let result = whole(cmake_command, "foo()").unwrap();
    assert_eq!(result, CMakeCommand { name: "foo".to_string(), args: vec![] });
}

#[test]
fn test_parse_command() {
    let result = whole(cmake_command, "foo(bar)").unwrap();
    assert_eq!(
        result,
        CMakeCommand {
            name: "foo".to_string(),
            args: vec![CMakeValue::StringLiteral("bar".to_string())],
        }
    );
}

#[test]
fn test_parse_command_multiple_args() {
    let result = whole(cmake_command, "foo(bar baz)").unwrap();
    assert_eq!(
        result,
        CMakeCommand {
            name: "foo".to_string(),
            args: vec![
                CMakeValue::StringLiteral("bar".to_string()),
                CMakeValue::StringLiteral("baz".to_string()),
            ],
        }
    );
}

#[test]
fn test_parse_command_with_variable() {
    let result = whole(cmake_command, "foo(\n  ${CMAKE_CURRENT_LIST_DIR}/vendor\n)").unwrap();
    assert_eq!(
        result,
        CMakeCommand {
            name: "foo".to_string(),
            args: vec![CMakeValue::StringLiteral(
                "${CMAKE_CURRENT_LIST_DIR}/vendor".to_string()
            ),],
        }
    );
}

#[test]
fn test_parse_command_with_line_break() {
    let result = whole(cmake_command, "foo(\n  name\n  VERSION bar\n  LANGUAGE ZIG\n)").unwrap();
    assert_eq!(
        result,
        CMakeCommand {
            name: "foo".to_string(),
            args: vec![
                CMakeValue::StringLiteral("name".to_string()),
                CMakeValue::ArgumentSpecifier("VERSION".to_string()),
                CMakeValue::StringLiteral("bar".to_string()),
                CMakeValue::ArgumentSpecifier("LANGUAGE".to_string()),
                CMakeValue::ArgumentSpecifier("ZIG".to_string()),
            ],
        }
    );
}

#[test]
fn test_parse_complex_expr() {
    let input = r#"
((NOT MSVC) OR (${CMAKE_CXX_COMPILER_ID} MATCHES "Clang"))
    "#
    .trim();
    let result = whole(cmake_args, input).unwrap();
    assert_eq!(
        result,
        vec![
            CMakeValue::Parenthesis(String::from("(")),
            CMakeValue::ArgumentSpecifier(String::from("NOT")),
            CMakeValue::ArgumentSpecifier(String::from("MSVC")),
            CMakeValue::Parenthesis(String::from(")")),
            CMakeValue::ArgumentSpecifier(String::from("OR")),
            CMakeValue::Parenthesis(String::from("(")),
            CMakeValue::StringLiteral(String::from("${CMAKE_CXX_COMPILER_ID}")),
            CMakeValue::ArgumentSpecifier(String::from("MATCHES")),
            CMakeValue::QuotedString(String::from("Clang")),
            CMakeValue::Parenthesis(String::from(")"))
        ]
    );
}

#[test]
fn test_parse_arg_list_inner() {
    let input = r#"
(NOT MSVC) OR
    "#
    .trim();
    let result = whole(cmake_arg_list_inner, input).unwrap();
    assert_eq!(
        result,
        vec![
            CMakeValue::Parenthesis(String::from("(")),
            CMakeValue::ArgumentSpecifier(String::from("NOT")),
            CMakeValue::ArgumentSpecifier(String::from("MSVC")),
            CMakeValue::Parenthesis(String::from(")")),
            CMakeValue::ArgumentSpecifier(String::from("OR"))
        ]
    );
}

#[test]
fn test_parse_cmake_arg_parenthesis() {
    let input = r#"
(NOT MSVC)
    "#
    .trim();
    let result = whole(cmake_arg_parenthesis, input).unwrap();
    assert_eq!(
        result,
        vec![
            CMakeValue::Parenthesis("(".to_string()),
            CMakeValue::ArgumentSpecifier("NOT".to_string()),
            CMakeValue::ArgumentSpecifier("MSVC".to_string()),
            CMakeValue::Parenthesis(")".to_string()),
        ]
    );
}

#[test]
fn test_parse_command_with_two_args() {
    let result = whole(cmake_command, "foo(bar foo)").unwrap();
    assert_eq!(
        result,
        CMakeCommand {
            name: "foo".to_string(),
            args: vec![
                CMakeValue::StringLiteral("bar".to_string()),
                CMakeValue::StringLiteral("foo".to_string()),
            ],
        }
    );
}

#[test]
fn test_whitespace_gets_parsed() {
    let result = whole(cmake_parser, "foo()\n\nbar()").unwrap();
    assert_eq!(
        result,
        CMakeDocument {
            statements: vec![
                call("foo"),
                CMakeStatement::Newline,
                CMakeStatement::Newline,
                call("bar"),
            ]
        }
    );
}

#[test]
fn test_command_whitespace_is_parsed() {
    let result = whole(
        cmake_parser,
        "
project(
pyramid_envelope
VERSION 0.0.1
LANGUAGES CXX
)"
        .trim(),
    )
    .unwrap();
    assert_eq!(
        result,
        CMakeDocument {
            statements: vec![CMakeStatement::Command(CMakeCommand {
                name: "project".to_string(),
                args: vec![
                    CMakeValue::StringLiteral("pyramid_envelope".to_string()),
                    CMakeValue::ArgumentSpecifier("VERSION".to_string()),
                    CMakeValue::StringLiteral("0.0.1".to_string()),
                    CMakeValue::ArgumentSpecifier("LANGUAGES".to_string()),
                    CMakeValue::ArgumentSpecifier("CXX".to_string()),
                ],
            }),]
        }
    );
}

#[test]
fn test_if_statements() {
    let input = "
if(CMAKE_COMPILER_IS_GNUCXX)
foo()
elseif(MSVC)
bar()                      
endif()
    "
    .trim();

    let result = whole(cmake_parser, input).unwrap();
    assert_eq!(
        result,
        CMakeDocument {
            statements: vec![CMakeStatement::If(CMakeIfStatement {
                base: CMakeIfBase {
                    condition: CMakeCondition::Value(specifier("CMAKE_COMPILER_IS_GNUCXX")),
                    body: vec![CMakeStatement::Newline, call("foo"), CMakeStatement::Newline],
                },
                else_ifs: vec![CMakeIfBase {
                    condition: CMakeCondition::Value(specifier("MSVC")),
                    body: vec![CMakeStatement::Newline, call("bar"), CMakeStatement::Newline],
                }],
                else_body: None,
            }),]
        }
    )
}

#[test]
fn test_parse_if_statement_with_single_condition() {
    let input = "if(ON)\nfoo()\nendif()";
    let result = whole(cmake_if_group, input).unwrap();
    assert_eq!(
        result,
        CMakeStatement::If(CMakeIfStatement {
            base: CMakeIfBase {
                condition: CMakeCondition::Value(specifier("ON")),
                body: vec![CMakeStatement::Newline, call("foo"), CMakeStatement::Newline],
            },
            else_ifs: vec![],
            else_body: None,
        })
    );
}

#[test]
fn test_parse_if_statement_with_else() {
    let input = "if(OFF)\nfoo()\nelse()\nbar()\nendif()";
    let result = whole(cmake_if_group, input).unwrap();
    assert_eq!(
        result,
        CMakeStatement::If(CMakeIfStatement {
            base: CMakeIfBase {
                condition: CMakeCondition::Value(specifier("OFF")),
                body: vec![CMakeStatement::Newline, call("foo"), CMakeStatement::Newline],
            },
            else_ifs: vec![],
            else_body: Some(vec![CMakeStatement::Newline, call("bar"), CMakeStatement::Newline]),
        })
    );
}

#[test]
fn test_parse_nested_if_statements() {
    let input = "if(ON)\nif(OFF)\nfoo()\nendif()\nendif()";
    let result = whole(cmake_if_group, input).unwrap();
    assert_eq!(
        result,
        CMakeStatement::If(CMakeIfStatement {
            base: CMakeIfBase {
                condition: CMakeCondition::Value(specifier("ON")),
                body: vec![
                    CMakeStatement::Newline,
                    CMakeStatement::If(CMakeIfStatement {
                        base: CMakeIfBase {
                            condition: CMakeCondition::Value(specifier("OFF")),
                            body: vec![
                                CMakeStatement::Newline,
                                call("foo"),
                                CMakeStatement::Newline,
                            ],
                        },
                        else_ifs: vec![],
                        else_body: None,
                    }),
                    CMakeStatement::Newline,
                ],
            },
            else_ifs: vec![],
            else_body: None,
        })
    );
}

#[test]
fn test_parse_multiple_commands() {
    let input = "foo()\nbar()";
    let result = whole(cmake_parser, input).unwrap();
    assert_eq!(
        result,
        CMakeDocument { statements: vec![call("foo"), CMakeStatement::Newline, call("bar")] }
    );
}

#[test]
fn test_parse_command_with_nested_parenthesis() {
    let input = "foo((bar baz))";
    let result = whole(cmake_command, input).unwrap();
    assert_eq!(
        result,
        CMakeCommand {
            name: "foo".to_string(),
            args: vec![parenthesis("("), literal("bar"), literal("baz"), parenthesis(")")],
        }
    );
}
