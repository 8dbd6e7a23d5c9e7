use cmakefmt::parser::types::{CMakeCondition, CMakeValue};
use cmakefmt::parser::cmake_condition;

fn condition(input: &str) -> (usize, usize, CMakeCondition) {
    let chars: Vec<char> = input.chars().collect();
    let (end, value) = cmake_condition(&chars, 0).unwrap();
    (chars.len(), end, value)
}

fn value(text: &str) -> Box<CMakeCondition> {
    Box::new(CMakeCondition::Value(CMakeValue::StringLiteral(text.to_string())))
}

fn and_or(operator: &str, left: Box<CMakeCondition>, right: Box<CMakeCondition>) -> Box<CMakeCondition> {
    Box::new(CMakeCondition::BinaryLogicalOperator { operator: operator.to_string(), left, right })
}

fn not(value: Box<CMakeCondition>) -> Box<CMakeCondition> {
    Box::new(CMakeCondition::UnaryLogicalOperator { operator: "NOT".to_string(), value })
}

fn brackets(value: Box<CMakeCondition>) -> Box<CMakeCondition> {
    Box::new(CMakeCondition::Parentheses { value })
}

#[test]
fn test_parse_condition_value() {
    let (_, _, result) = condition("value");
    assert_eq!(result, CMakeCondition::Value(CMakeValue::StringLiteral(String::from("value"))));
}

#[test]
fn test_parse_condition_unary() {
    let (_, _, result) = condition("EXISTS /usr/include");
    assert_eq!(
        result,
        CMakeCondition::UnaryTest { operator: "EXISTS".to_string(), value: value("/usr/include") }
    );
}

#[test]
fn test_parse_condition_binary() {
    let (_, _, result) = condition("/usr/include STRLESS other");
    assert_eq!(
        result,
        CMakeCondition::BinaryTest {
            operator: "STRLESS".to_string(),
            left: value("/usr/include"),
            right: value("other"),
        }
    );
}

#[test]
fn test_parse_version_binary_condition() {
    let (_, _, result) = condition("CUDA_VERSION VERSION_GREATER_EQUAL 10.1");
    assert_eq!(
        result,
        CMakeCondition::BinaryTest {
            operator: "VERSION_GREATER_EQUAL".to_string(),
            left: Box::new(CMakeCondition::Value(CMakeValue::ArgumentSpecifier(
                "CUDA_VERSION".to_string()
            ))),
            right: value("10.1"),
        }
    );
}

#[test]
fn test_parse_condition_unary_logical_operator() {
    let (_, _, result) = condition("NOT (EXISTS /usr/include)");
    assert_eq!(
        result,
        CMakeCondition::UnaryLogicalOperator {
            operator: "NOT".to_string(),
            value: brackets(Box::new(CMakeCondition::UnaryTest {
                operator: "EXISTS".to_string(),
                value: value("/usr/include"),
            })),
        }
    );
}

#[test]
fn test_parse_condition_binary_logical_operator() {
    let (_, _, result) = condition("true AND false");
    assert_eq!(result, *and_or("AND", value("true"), value("false")));
}

#[test]
fn test_parse_condition_with_comment() {
    let input = r#"true
            AND  # comment
            false"#;
    let (len, end, result) = condition(input);
    assert_eq!(end, len);
    assert_eq!(
        result,
        *and_or(
            "AND",
            value("true"),
            Box::new(CMakeCondition::Comment {
                content: " comment".to_string(),
                tail: Some(value("false")),
            })
        )
    );
}

#[test]
fn test_parse_complex_expression() {
    let input = "(true AND false OR NOT true) OR true OR (true AND NOT (false OR true))";
    let (_, _, result) = condition(input);
    assert_eq!(
        result,
        *and_or(
            "OR",
            brackets(and_or(
                "AND",
                value("true"),
                and_or("OR", value("false"), not(value("true")))
            )),
            and_or(
                "OR",
                value("true"),
                brackets(and_or(
                    "AND",
                    value("true"),
                    not(brackets(and_or("OR", value("false"), value("true"))))
                ))
            )
        )
    );
}

#[test]
fn test_multiline_condition() {
    let input = r#"CMAKE_C_COMPILER_ID STREQUAL "Clang" OR
CMAKE_C_COMPILER_ID STREQUAL "AppleClang""#
        .trim();
    let (len, end, result) = condition(input);
    assert_eq!(end, len);
    let test = |right: &str| {
        Box::new(CMakeCondition::BinaryTest {
            operator: String::from("STREQUAL"),
            left: Box::new(CMakeCondition::Value(CMakeValue::ArgumentSpecifier(String::from(
                "CMAKE_C_COMPILER_ID",
            )))),
            right: Box::new(CMakeCondition::Value(CMakeValue::QuotedString(String::from(right)))),
        })
    };
    assert_eq!(result, *and_or("OR", test("Clang"), test("AppleClang")));
}
