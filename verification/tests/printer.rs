use cmakefmt::parser::parse;
use cmakefmt::parser::types::{
    CMakeCommand, CMakeCommandGroup, CMakeCondition, CMakeDocument, CMakeFunctionStatement,
    CMakeIfBase, CMakeIfStatement, CMakeStatement, CMakeValue,
};
use pretty::RcDoc;

fn render(doc: RcDoc<'static, ()>, width: usize) -> String {
    let mut vec_writer = Vec::new();
    doc.render(width, &mut vec_writer).unwrap();
    String::from_utf8(vec_writer).unwrap()
}

fn literal(text: &str) -> CMakeValue {
    CMakeValue::StringLiteral(String::from(text))
}

fn specifier(text: &str) -> CMakeValue {
    CMakeValue::ArgumentSpecifier(String::from(text))
}

fn call(name: &str, args: Vec<CMakeValue>) -> CMakeStatement {
    CMakeStatement::Command(CMakeCommand { name: String::from(name), args })
}

#[test]
fn pretty_print_command_without_args() {
    let command = CMakeCommand { name: "foo".to_string(), args: vec![] };
    let str = render(command.print(), 80);
    assert_eq!(str, "foo()");
}

#[test]
fn pretty_print_command_with_single_arg() {
    let command = CMakeCommand {
        name: "cmake_version".to_string(),
        args: vec![CMakeValue::StringLiteral(String::from("1.2.3"))],
    };
    let str = render(command.print(), 80);
    assert_eq!(str, "cmake_version(1.2.3)");
}

#[test]
fn pretty_print_command_with_multiple_args() {
    let command = CMakeCommand {
        name: "foo".to_string(),
        args: vec![literal("a"), literal("b"), literal("c"), literal("d"), literal("e")],
    };
    let str = render(command.print(), 80);
    assert_eq!(str, "foo(a b c d e)");
}

#[test]
fn pretty_print_command_with_long_line_args() {
    let command = CMakeCommand {
        name: "foo".to_string(),
        args: vec![
            literal("aaaaaaaaaaaaaaaaaaaaaaaaaaaaaaaaaaaaaaaaaaaaaaaaaa"),
            literal("bbbbbbbbbbbbbbbbbbbbbbbbbbbbbbbbbbbbbbbbbbbbbbbbbb"),
            literal("cccccccccccccccccccccccccccccccccccccccccccccccccc"),
            literal("dddddddddddddddddddddddddddddddddddddddddddddddddd"),
            literal("eeeeeeeeeeeeeeeeeeeeeeeeeeeeeeeeeeeeeeeeeeeeeeeeee"),
        ],
    };
    let str = render(command.print(), 80);
    assert_eq!(str, "foo(\n  aaaaaaaaaaaaaaaaaaaaaaaaaaaaaaaaaaaaaaaaaaaaaaaaaa\n  bbbbbbbbbbbbbbbbbbbbbbbbbbbbbbbbbbbbbbbbbbbbbbbbbb\n  cccccccccccccccccccccccccccccccccccccccccccccccccc\n  dddddddddddddddddddddddddddddddddddddddddddddddddd\n  eeeeeeeeeeeeeeeeeeeeeeeeeeeeeeeeeeeeeeeeeeeeeeeeee\n)");
}

#[test]
fn test_pretty_print_two_statements_has_no_blank_line() {
    let document = CMakeDocument {
        statements: vec![call("foo", vec![]), CMakeStatement::Newline, call("bar", vec![])],
    };
    let str = render(document.print(), 80);
    assert_eq!(str, "foo()\nbar()");
}

#[test]
fn test_args_still_stay_in_one_line_if_there_is_space() {
    let document = CMakeDocument {
        statements: vec![call("foo", vec![specifier("LANGUAGE"), specifier("VERSION")])],
    };
    let str = render(document.print(), 80);
    assert_eq!(str, "foo(LANGUAGE VERSION)");
}

#[test]
fn test_sample() {
    let input = call("set", vec![specifier("CMAKE_CXX_STANDARD_REQUIRED"), specifier("ON")]);
    let str = render(input.print(), 80);
    assert_eq!(str, "set(CMAKE_CXX_STANDARD_REQUIRED ON)");
}

#[test]
fn test_args_are_grouped_with_upper_case_args() {
    let document = CMakeDocument {
        statements: vec![call(
            "foo",
            vec![
                specifier("LANGUAGE"),
                literal("cxx"),
                specifier("VERSION"),
                literal("1234"),
                specifier("OTHER"),
                literal("here"),
                specifier("THING"),
                literal("0000000000000000000000000000000000"),
            ],
        )],
    };
    let str = render(document.print(), 80);
    assert_eq!(str, "foo(\n  LANGUAGE cxx\n  VERSION 1234\n  OTHER here\n  THING 0000000000000000000000000000000000\n)");
}

#[test]
fn test_print_if_statement() {
    let document = CMakeDocument {
        statements: vec![CMakeStatement::If(CMakeIfStatement {
            base: CMakeIfBase {
                condition: CMakeCondition::Value(specifier("CMAKE_COMPILER_IS_GNUCXX")),
                body: vec![CMakeStatement::Newline, call("foo", vec![]), CMakeStatement::Newline],
            },
            else_ifs: vec![CMakeIfBase {
                condition: CMakeCondition::Value(specifier("MSVC")),
                body: vec![CMakeStatement::Newline, call("bar", vec![]), CMakeStatement::Newline],
            }],
            else_body: None,
        })],
    };
    let str = render(document.print(), 80);
    assert_eq!(
        str,
        r#"
if(CMAKE_COMPILER_IS_GNUCXX)
  foo()
elseif(MSVC)
  bar()
endif()
    "#
        .trim()
    );
}

#[test]
fn test_print_nested_if_statement() {
    let document = CMakeDocument {
        statements: vec![CMakeStatement::If(CMakeIfStatement {
            base: CMakeIfBase {
                condition: CMakeCondition::Value(specifier("a")),
                body: vec![
                    CMakeStatement::Newline,
                    CMakeStatement::If(CMakeIfStatement {
                        base: CMakeIfBase {
                            condition: CMakeCondition::Value(specifier("b")),
                            body: vec![
                                CMakeStatement::Newline,
                                call("foo", vec![]),
                                CMakeStatement::Newline,
                            ],
                        },
                        else_ifs: vec![],
                        else_body: None,
                    }),
                    CMakeStatement::Newline,
                ],
            },
            else_ifs: vec![],
            else_body: Some(vec![
                CMakeStatement::Newline,
                call("bar", vec![]),
                CMakeStatement::Newline,
            ]),
        })],
    };
    let str = render(document.print(), 80);
    assert_eq!(
        str,
        r#"
if(a)
  if(b)
    foo()
  endif()
else()
  bar()
endif()
    "#
        .trim()
    );
}

#[test]
fn test_preseving_newlines() {
    let document = CMakeDocument {
        statements: vec![CMakeStatement::Function(CMakeFunctionStatement {
            group: CMakeCommandGroup {
                clause: vec![literal("foo")],
                body: vec![
                    CMakeStatement::Newline,
                    call("bar", vec![literal("x"), literal("y"), literal("z")]),
                    CMakeStatement::Newline,
                ],
                end_clause: vec![],
            },
        })],
    };
    let str = render(document.print(), 80);
    assert_eq!(
        str,
        r#"
function(foo)
  bar(x y z)
endfunction()
    "#
        .trim()
    )
}

#[test]
fn test_smoke_tests() {
    let input_output: Vec<&str> = vec![
        r#"
cmake_minimum_required(VERSION 3.26)
project(pyramid_envelope VERSION 0.0.1 LANGUAGES CXX)
add_subdirectory(
  ${CMAKE_CURRENT_LIST_DIR}/vendor/juce ${CMAKE_BINARY_DIR}/juce
  EXCLUDE_FROM_ALL
  # don't build examples etc, also don't install
)
            "#,
    ]
    .iter()
    .map(|s| s.trim())
    .collect();

    for input in input_output.iter() {
        let document = parse(input).unwrap();
        let output = document.render(80).unwrap();
        assert_eq!(input, &output.trim());
    }
}
