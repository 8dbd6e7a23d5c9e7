use cmakefmt::parser::types::{
    CMakeCommand, CMakeCommandGroup, CMakeCondition, CMakeDocument, CMakeForEachStatement,
    CMakeIfBase, CMakeIfStatement, CMakeStatement, CMakeValue,
};
use cmakefmt::parser::{
    cmake_command, cmake_condition, cmake_parser, cmake_statement, cmake_string_literal,
    cmake_string_part, cmake_value, parse, GrammarError, ParseError,
};
use cmakefmt::pretty_printer::{print_args, print_args_to_vec};

fn chars(text: &str) -> Vec<char> {
    text.chars().collect()
}

fn literal(text: &str) -> CMakeValue {
    CMakeValue::StringLiteral(text.to_string())
}

fn specifier(text: &str) -> CMakeValue {
    CMakeValue::ArgumentSpecifier(text.to_string())
}

fn operand(text: &str) -> Box<CMakeCondition> {
    Box::new(CMakeCondition::Value(literal(text)))
}

fn call(name: &str, args: Vec<CMakeValue>) -> CMakeStatement {
    CMakeStatement::Command(CMakeCommand { name: name.to_string(), args })
}

fn formatted(input: &str, width: usize) -> String {
    parse(input).unwrap().render(width).unwrap()
}

fn assert_round_trip(input: &str, width: usize) {
    let first = parse(input).unwrap();
    let text = first.render(width).unwrap();
    let second = parse(&text).unwrap();
    assert_eq!(second, first);
    assert_eq!(second.render(width).unwrap(), text);
}

#[test]
fn round_trip_keeps_document_and_text() {
    let inputs = [
        "cmake_minimum_required(VERSION 3.26)\nproject(demo VERSION 0.0.1 LANGUAGES CXX)",
        "if(A)\n  foo()\nelseif(B)\n  bar()\nelse()\n  baz()\nendif()",
        "if(NOT (A OR B) AND EXISTS c)\nelse()\nendif()",
        "foo(a # c\n b)",
        "foo(( a ))",
        "foo(\"a\nb\" \"c \\\" d\")",
        "# c\nfoo()\n\nbar(${X}/y $(Z))",
        "function(f a b)\n  macro(m)\n  endmacro()\nendfunction()",
        "foreach(x IN LISTS y)\nblock()\nfoo(${x})\nendblock()\nendforeach()",
        "if(A AND # c\n B)\nfoo()\nendif()",
    ];
    for input in inputs {
        for width in [0, 10, 20, 80, 200] {
            assert_round_trip(input, width);
        }
    }
}

#[test]
fn formatting_twice_changes_nothing() {
    let input = "foo()\n\n\n\n\nbar(  a\n\n b )   \n\n\nif( X )\nbaz( )\nendif( )";
    for width in [10, 80] {
        let once = formatted(input, width);
        assert_eq!(formatted(&once, width), once);
    }
}

#[test]
fn bare_token_classification() {
    let classify = |text: &str| {
        let input = chars(text);
        cmake_string_literal(&input, 0).map(|(_, value)| value)
    };
    assert_eq!(classify("VERSION"), Ok(specifier("VERSION")));
    assert_eq!(classify("v1.2.3"), Ok(literal("v1.2.3")));
    assert_eq!(classify("A_1"), Ok(specifier("A_1")));
    assert_eq!(classify("_"), Ok(specifier("_")));
    assert_eq!(classify("1234"), Ok(specifier("1234")));
    assert_eq!(classify("Ab"), Ok(literal("Ab")));
    assert_eq!(classify("A-B"), Ok(literal("A-B")));
    assert_eq!(classify("\u{c9}"), Ok(literal("\u{c9}")));
    assert_eq!(classify("\u{663}"), Ok(literal("\u{663}")));
    assert!(classify("").is_err());
}

#[test]
fn bare_token_ends_at_white_space_and_brackets() {
    let token = |text: &str| {
        let input = chars(text);
        cmake_string_part(&input, 0).unwrap()
    };
    assert_eq!(token("abc def"), (3, "abc".to_string()));
    assert_eq!(token("abc\tdef"), (3, "abc".to_string()));
    assert_eq!(token("abc\u{a0}def"), (3, "abc".to_string()));
    assert_eq!(token("abc\u{2003}def"), (3, "abc".to_string()));
    assert_eq!(token("abc)"), (3, "abc".to_string()));
    assert_eq!(token("a}"), (1, "a".to_string()));
    assert_eq!(token("a$(b)c d"), (6, "a$(b)c".to_string()));
    assert_eq!(token("${A}${B}/c"), (10, "${A}${B}/c".to_string()));
    assert_eq!(token("${A_${B}}"), (9, "${A_${B}}".to_string()));
    assert_eq!(token("a(b"), (1, "a".to_string()));
    assert_eq!(token("a{b)"), (1, "a".to_string()));
    assert_eq!(token("a#b\"c"), (5, "a#b\"c".to_string()));
}

#[test]
fn value_alternatives_in_order() {
    let value = |text: &str| {
        let input = chars(text);
        cmake_value(&input, 0).unwrap()
    };
    assert_eq!(value("# c\nx"), (3, CMakeValue::Comment(" c".to_string())));
    assert_eq!(value("\"a b\" c"), (5, CMakeValue::QuotedString("a b".to_string())));
    assert_eq!(value("\"a\\\\\" c"), (5, CMakeValue::QuotedString("a\\\\".to_string())));
    assert_eq!(value("\"abc"), (4, literal("\"abc")));
    assert_eq!(value("a\"b c\""), (3, literal("a\"b")));
}

#[test]
fn grouping_boundary() {
    let input = "foo(LANGUAGE cxx VERSION 1234)";
    assert_eq!(formatted(input, 80), "foo(LANGUAGE cxx VERSION 1234)");
    assert_eq!(formatted(input, 30), "foo(LANGUAGE cxx VERSION 1234)");
    assert_eq!(formatted(input, 29), "foo(\n  LANGUAGE cxx\n  VERSION\n  1234\n)");
    assert_eq!(formatted(input, 14), "foo(\n  LANGUAGE cxx\n  VERSION\n  1234\n)");
    assert_eq!(formatted(input, 10), "foo(\n  LANGUAGE\n  cxx\n  VERSION\n  1234\n)");
    assert_eq!(formatted("foo(A B c d E f)", 8), "foo(\n  A\n  B c d\n  E f\n)");
}

#[test]
fn runs_start_at_specifiers_and_comments() {
    let args = vec![
        literal("a"),
        literal("b"),
        specifier("KEY"),
        literal("c"),
        CMakeValue::Comment(" note".to_string()),
        literal("d"),
        specifier("ON"),
        specifier("OFF"),
    ];
    let render = |docs: Vec<pretty::RcDoc<'static, ()>>| -> Vec<String> {
        docs.iter().map(|doc| doc.pretty(80).to_string()).collect()
    };
    assert_eq!(
        render(print_args_to_vec(&args, false)),
        vec!["a b", "KEY c", "# note\nd", "ON", "OFF"]
    );
    assert_eq!(render(print_args_to_vec(&args, true)).len(), 1);
    assert_eq!(print_args_to_vec(&[], false).len(), 0);
    let plain = vec![literal("aaaa"), specifier("BBBB"), literal("cccc")];
    assert_eq!(render(print_args_to_vec(&plain, true)), vec!["aaaa BBBB cccc"]);
    assert_eq!(print_args(&plain, true).pretty(80).to_string(), "aaaa BBBB cccc");
    assert_eq!(print_args(&plain, true).pretty(9).to_string(), "\n  aaaa\n  BBBB\n  cccc\n  ");
    assert_eq!(print_args(&plain, false).pretty(9).to_string(), "\n  aaaa\n  BBBB\n  cccc\n  ");
    assert_eq!(print_args(&plain, false).pretty(11).to_string(), "\n  aaaa\n  BBBB cccc\n  ");
}

#[test]
fn blank_lines_are_capped() {
    let mut statements = vec![call("foo", vec![])];
    for _ in 0..5 {
        statements.push(CMakeStatement::Newline);
    }
    statements.push(call("bar", vec![]));
    let document = CMakeDocument { statements };
    assert_eq!(document.render(80).unwrap(), "foo()\n\nbar()");
    assert_eq!(formatted("a()\nb()\n\nc()\n\n\nd()\n\n\n\n\n\ne()", 80), "a()\nb()\n\nc()\n\nd()\n\ne()");
}

#[test]
fn if_statement_structure() {
    let document = parse("if(A)\nfoo()\nelseif(B)\nbar()\nendif()").unwrap();
    assert_eq!(
        document,
        CMakeDocument {
            statements: vec![CMakeStatement::If(CMakeIfStatement {
                base: CMakeIfBase {
                    condition: CMakeCondition::Value(specifier("A")),
                    body: vec![CMakeStatement::Newline, call("foo", vec![]), CMakeStatement::Newline],
                },
                else_ifs: vec![CMakeIfBase {
                    condition: CMakeCondition::Value(specifier("B")),
                    body: vec![CMakeStatement::Newline, call("bar", vec![]), CMakeStatement::Newline],
                }],
                else_body: None,
            })]
        }
    );
}

#[test]
fn endif_closes_the_nearest_if() {
    let document = parse("if(ON)\nif(OFF)\nfoo()\nendif()\nendif()").unwrap();
    assert_eq!(document.statements.len(), 1);
    match &document.statements[0] {
        CMakeStatement::If(outer) => {
            let nested: Vec<&CMakeStatement> = outer
                .base
                .body
                .iter()
                .filter(|statement| matches!(statement, CMakeStatement::If(_)))
                .collect();
            assert_eq!(nested.len(), 1);
            assert_eq!(outer.base.body.len(), 3);
        }
        other => panic!("not an if block: {:?}", other),
    }
}

#[test]
fn logical_operators_chain_to_the_right() {
    let input = chars("true AND false OR NOT true");
    let (end, condition) = cmake_condition(&input, 0).unwrap();
    assert_eq!(end, input.len());
    assert_eq!(
        condition,
        CMakeCondition::BinaryLogicalOperator {
            operator: "AND".to_string(),
            left: operand("true"),
            right: Box::new(CMakeCondition::BinaryLogicalOperator {
                operator: "OR".to_string(),
                left: operand("false"),
                right: Box::new(CMakeCondition::UnaryLogicalOperator {
                    operator: "NOT".to_string(),
                    value: operand("true"),
                }),
            }),
        }
    );
}

#[test]
fn operators_match_in_any_case_and_keep_their_text() {
    let input = chars("a and b Or not c");
    let (_, condition) = cmake_condition(&input, 0).unwrap();
    assert_eq!(
        condition,
        CMakeCondition::BinaryLogicalOperator {
            operator: "and".to_string(),
            left: operand("a"),
            right: Box::new(CMakeCondition::BinaryLogicalOperator {
                operator: "Or".to_string(),
                left: operand("b"),
                right: Box::new(CMakeCondition::UnaryLogicalOperator {
                    operator: "not".to_string(),
                    value: operand("c"),
                }),
            }),
        }
    );
}

#[test]
fn unary_test_wins_over_value() {
    let parse_condition = |text: &str| {
        let input = chars(text);
        cmake_condition(&input, 0).unwrap()
    };
    assert_eq!(
        parse_condition("DEFINED x"),
        (
            9,
            CMakeCondition::UnaryTest { operator: "DEFINED".to_string(), value: operand("x") }
        )
    );
    assert_eq!(parse_condition("DEFINED"), (7, CMakeCondition::Value(specifier("DEFINED"))));
    assert_eq!(
        parse_condition("a LESS_EQUAL b"),
        (
            14,
            CMakeCondition::BinaryTest {
                operator: "LESS_EQUAL".to_string(),
                left: operand("a"),
                right: operand("b"),
            }
        )
    );
    assert_eq!(parse_condition("a EQUALS b"), (1, *operand("a")));
    assert_eq!(
        parse_condition("# c\n"),
        (4, CMakeCondition::Comment { content: " c".to_string(), tail: None })
    );
}

#[test]
fn reserved_words_are_no_commands() {
    for word in [
        "if", "elseif", "else", "endif", "foreach", "endforeach", "function", "endfunction",
        "macro", "endmacro", "block", "endblock", "IF", "EndIf", "ELSE",
    ] {
        let input = chars(&format!("{}(bar)", word));
        assert_eq!(
            cmake_command(&input, 0),
            Err(ParseError::Grammar { kind: GrammarError::ReservedWord, offset: word.len() })
        );
    }
    let input = chars("iffy(bar)");
    assert_eq!(cmake_command(&input, 0), Ok((9, CMakeCommand { name: "iffy".to_string(), args: vec![literal("bar")] })));
    let input = chars("if(bar)\nendif()");
    let (end, statement) = cmake_statement(&input, 0).unwrap();
    assert_eq!(end, input.len());
    assert_eq!(
        statement,
        CMakeStatement::If(CMakeIfStatement {
            base: CMakeIfBase {
                condition: CMakeCondition::Value(literal("bar")),
                body: vec![CMakeStatement::Newline],
            },
            else_ifs: vec![],
            else_body: None,
        })
    );
}

#[test]
fn blocks_keep_their_clauses() {
    let document = parse("FOREACH(x IN LISTS y)\nfoo(${x})\nEndForEach(x)").unwrap();
    assert_eq!(
        document,
        CMakeDocument {
            statements: vec![CMakeStatement::For(CMakeForEachStatement {
                group: CMakeCommandGroup {
                    clause: vec![literal("x"), specifier("IN"), specifier("LISTS"), literal("y")],
                    body: vec![
                        CMakeStatement::Newline,
                        call("foo", vec![literal("${x}")]),
                        CMakeStatement::Newline,
                    ],
                    end_clause: vec![literal("x")],
                },
            })]
        }
    );
    assert_eq!(document.render(80).unwrap(), "foreach(x IN LISTS y)\n  foo(${x})\nendforeach()");
}

#[test]
fn statements_keep_line_structure() {
    let input = chars("foo()  bar()\n   # c\r");
    let (end, document) = cmake_parser(&chars("foo()  bar()\n   # c \n\n \t"), 0).unwrap();
    assert_eq!(end, 24);
    assert_eq!(
        document.statements,
        vec![
            call("foo", vec![]),
            call("bar", vec![]),
            CMakeStatement::Newline,
            CMakeStatement::Comment(" c ".to_string()),
        ]
    );
    let (_, document) = cmake_parser(&input, 0).unwrap();
    assert_eq!(document.statements.len(), 4);
    assert_eq!(parse("\n").unwrap().statements, vec![CMakeStatement::Newline]);
    assert_eq!(parse("foo()\n").unwrap().statements, vec![call("foo", vec![])]);
    assert!(parse("").is_err());
    assert!(parse("foo()\r\nbar()").is_err());
    assert!(parse("if(A)  endif()").is_err());
    assert!(parse("if(A)\nfoo()").is_err());
}

#[test]
fn comments_force_line_breaks_inside_arguments() {
    assert_eq!(formatted("foo(a # c\n)", 80), "foo(\n  a\n  # c\n)");
    assert_eq!(formatted("foo(a # c\n b)", 80), "foo(\n  a\n  # c\n  b\n)");
    assert_eq!(formatted("foo() # c", 80), "foo()# c");
    assert_eq!(formatted("if(A AND # c\n B)\nfoo()\nendif()", 80), "if(A AND # c\nB)\n  foo()\nendif()");
    assert_eq!(formatted("set(X \"\u{e9}\u{e9}\u{e9}\")", 10), "set(\n  X \"\u{e9}\u{e9}\u{e9}\"\n)");
    assert_eq!(formatted("set(X \"\u{e9}\u{e9}\u{e9}\")", 12), "set(X \"\u{e9}\u{e9}\u{e9}\")");
}
