//! Conditions: the boolean expressions of `if` and `elseif`.
//!
//! Alternatives are tried in a fixed order and the first that matches wins:
//! a binary logical operator, a binary test, a unary logical operator, a
//! unary test, a bracketed condition, a comment, a value. The left operand of
//! a binary logical operator is any of these but a binary logical operator,
//! so `a AND b OR c` reads as `a AND (b OR c)`.
use vstd::prelude::*;
use crate::parser::error::{
    advances, agrees, consumes, lex_error, map_parsed, or_else, with_context, LexError,
    ParseError, Parsed, Rule,
};
use crate::parser::lexer::{
    cmake_comment, expect_char, lemma_run_end, multispace1, run_end, scan_run,
    spec_cmake_comment, spec_expect_char, spec_multispace1, CharClass,
};
use crate::parser::operators::{lemma_operator_end, operator, spec_operator, OperatorKind};
use crate::parser::types::{CMakeCondition, Condition, Value};
use crate::parser::values::{cmake_value, lemma_value_consumes, spec_cmake_value};

verus! {

/// A value at `pos`, as a condition.
pub open spec fn spec_cmake_condition_value(s: Seq<char>, pos: int) -> Parsed<Condition> {
    with_context(
        Rule::ConditionValue,
        pos,
        map_parsed(spec_cmake_value(s, pos), |v: Value| Condition::Value(v)),
    )
}

/// A binary test at `pos`: a value, white space, a comparison operator,
/// white space, a value.
pub open spec fn spec_cmake_condition_binary_test(s: Seq<char>, pos: int) -> Parsed<Condition> {
    with_context(
        Rule::ConditionBinaryTest,
        pos,
        match spec_cmake_condition_value(s, pos) {
            Err(e) => Err(e),
            Ok((left_end, left)) => match spec_multispace1(s, left_end) {
                Err(e) => Err(e),
                Ok(operator_start) => match spec_operator(
                    s,
                    operator_start,
                    OperatorKind::BinaryTest,
                ) {
                    Err(e) => Err(e),
                    Ok((operator_end, operator)) => match spec_multispace1(s, operator_end) {
                        Err(e) => Err(e),
                        Ok(right_start) => match spec_cmake_condition_value(s, right_start) {
                            Err(e) => Err(e),
                            Ok((end, right)) => Ok(
                                (
                                    end,
                                    Condition::BinaryTest {
                                        operator,
                                        left: Box::new(left),
                                        right: Box::new(right),
                                    },
                                ),
                            ),
                        },
                    },
                },
            },
        },
    )
}

/// An operator of `kind` at `pos`, white space, and a condition.
pub open spec fn spec_prefixed_condition(s: Seq<char>, pos: int, kind: OperatorKind) -> Parsed<
    (Seq<char>, Condition),
>
    decreases s.len() - pos, 0int,
{
    match spec_operator(s, pos, kind) {
        Err(e) => Err(e),
        Ok((operator_end, operator)) => match spec_multispace1(s, operator_end) {
            Err(e) => Err(e),
            Ok(start) => {
                proof {
                    lemma_operator_end(s, pos, kind);
                    lemma_run_end(s, operator_end, CharClass::Multispace);
                }
                match spec_cmake_condition(s, start) {
                    Err(e) => Err(e),
                    Ok((end, value)) => Ok((end, (operator, value))),
                }
            },
        },
    }
}

/// A unary test at `pos`: a test operator, white space, a condition.
pub open spec fn spec_cmake_condition_unary_test(s: Seq<char>, pos: int) -> Parsed<Condition>
    decreases s.len() - pos, 1int,
{
    with_context(
        Rule::ConditionUnaryTest,
        pos,
        match spec_prefixed_condition(s, pos, OperatorKind::UnaryTest) {
            Err(e) => Err(e),
            Ok((end, (operator, value))) => Ok(
                (end, Condition::UnaryTest { operator, value: Box::new(value) }),
            ),
        },
    )
}

/// A negation at `pos`: `NOT`, white space, a condition.
pub open spec fn spec_cmake_condition_unary_logical_operator(s: Seq<char>, pos: int) -> Parsed<
    Condition,
>
    decreases s.len() - pos, 1int,
{
    with_context(
        Rule::ConditionUnaryLogicalOperator,
        pos,
        match spec_prefixed_condition(s, pos, OperatorKind::Not) {
            Err(e) => Err(e),
            Ok((end, (operator, value))) => Ok(
                (end, Condition::UnaryLogicalOperator { operator, value: Box::new(value) }),
            ),
        },
    )
}

/// A bracketed condition at `pos`: `(`, a condition with white space around
/// it, `)`.
pub open spec fn spec_cmake_condition_parentheses(s: Seq<char>, pos: int) -> Parsed<Condition>
    decreases s.len() - pos, 1int,
{
    with_context(
        Rule::ConditionParentheses,
        pos,
        match spec_expect_char(s, pos, '(') {
            Err(e) => Err(e),
            Ok(inside) => {
                proof {
                    lemma_run_end(s, inside, CharClass::Multispace);
                }
                match spec_cmake_condition(s, run_end(s, inside, CharClass::Multispace)) {
                    Err(e) => Err(e),
                    Ok((end, value)) => match spec_expect_char(
                        s,
                        run_end(s, end, CharClass::Multispace),
                        ')',
                    ) {
                        Err(e) => Err(e),
                        Ok(after) => Ok((after, Condition::Parentheses { value: Box::new(value) })),
                    },
                }
            },
        },
    )
}

/// A comment inside a condition at `pos`: the comment, white space, and the
/// condition that goes on after it, if one does.
pub open spec fn spec_cmake_condition_comment(s: Seq<char>, pos: int) -> Parsed<Condition>
    decreases s.len() - pos, 1int,
{
    with_context(
        Rule::ConditionComment,
        pos,
        match spec_cmake_comment(s, pos) {
            Err(e) => Err(e),
            Ok((comment_end, content)) => {
                let start = run_end(s, comment_end, CharClass::Multispace);
                proof {
                    lemma_run_end(s, pos + 1, CharClass::CommentText);
                    lemma_run_end(s, comment_end, CharClass::Multispace);
                }
                match spec_cmake_condition(s, start) {
                    Err(_) => Ok((start, Condition::Comment { content, tail: None })),
                    Ok((end, tail)) => Ok(
                        (end, Condition::Comment { content, tail: Some(Box::new(tail)) }),
                    ),
                }
            },
        },
    )
}

/// An operand at `pos`: any condition but a binary logical operator.
pub open spec fn spec_condition_operand(s: Seq<char>, pos: int) -> Parsed<Condition>
    decreases s.len() - pos, 2int,
{
    or_else(
        spec_cmake_condition_binary_test(s, pos),
        or_else(
            spec_cmake_condition_unary_logical_operator(s, pos),
            or_else(
                spec_cmake_condition_unary_test(s, pos),
                or_else(
                    spec_cmake_condition_parentheses(s, pos),
                    or_else(
                        spec_cmake_condition_comment(s, pos),
                        spec_cmake_condition_value(s, pos),
                    ),
                ),
            ),
        ),
    )
}

/// A binary logical operator at `pos`: an operand, white space, `AND` or
/// `OR`, white space, a condition.
pub open spec fn spec_cmake_condition_binary_logical_operator(s: Seq<char>, pos: int) -> Parsed<
    Condition,
>
    decreases s.len() - pos, 3int,
{
    with_context(
        Rule::ConditionBinaryLogicalOperator,
        pos,
        match spec_condition_operand(s, pos) {
            Err(e) => Err(e),
            Ok((left_end, left)) => match spec_multispace1(s, left_end) {
                Err(e) => Err(e),
                Ok(operator_start) => match spec_operator(s, operator_start, OperatorKind::Logical) {
                    Err(e) => Err(e),
                    Ok((operator_end, operator)) => match spec_multispace1(s, operator_end) {
                        Err(e) => Err(e),
                        Ok(right_start) => if pos < right_start <= s.len() {
                            match spec_cmake_condition(s, right_start) {
                                Err(e) => Err(e),
                                Ok((end, right)) => Ok(
                                    (
                                        end,
                                        Condition::BinaryLogicalOperator {
                                            operator,
                                            left: Box::new(left),
                                            right: Box::new(right),
                                        },
                                    ),
                                ),
                            }
                        } else {
                            Err(lex_error(LexError::ExpectedWhitespace, operator_end))
                        },
                    },
                },
            },
        },
    )
}

/// A condition at `pos`.
pub open spec fn spec_cmake_condition(s: Seq<char>, pos: int) -> Parsed<Condition>
    decreases s.len() - pos, 4int,
{
    with_context(
        Rule::Condition,
        pos,
        or_else(spec_cmake_condition_binary_logical_operator(s, pos), spec_condition_operand(s, pos)),
    )
}

/// Parses a value at `pos` as a condition.
pub fn cmake_condition_value(input: &[char], pos: usize) -> (r: Result<
    (usize, CMakeCondition),
    ParseError,
>)
    ensures
        agrees(r, spec_cmake_condition_value(input@, pos as int)),
        advances(r, pos, input.len()),
{
    match cmake_value(input, pos) {
        Ok((end, value)) => Ok((end, CMakeCondition::Value(value))),
        Err(e) => Err(e.context(Rule::ConditionValue, pos)),
    }
}

/// Parses a binary test at `pos`.
pub fn cmake_condition_binary_test(input: &[char], pos: usize) -> (r: Result<
    (usize, CMakeCondition),
    ParseError,
>)
    ensures
        agrees(r, spec_cmake_condition_binary_test(input@, pos as int)),
        advances(r, pos, input.len()),
{
    let (left_end, left) = match cmake_condition_value(input, pos) {
        Ok(found) => found,
        Err(e) => {
            return Err(e.context(Rule::ConditionBinaryTest, pos));
        },
    };
    let operator_start = match multispace1(input, left_end) {
        Ok(end) => end,
        Err(e) => {
            return Err(e.context(Rule::ConditionBinaryTest, pos));
        },
    };
    let (operator_end, operator) = match operator(input, operator_start, OperatorKind::BinaryTest) {
        Ok(found) => found,
        Err(e) => {
            return Err(e.context(Rule::ConditionBinaryTest, pos));
        },
    };
    let right_start = match multispace1(input, operator_end) {
        Ok(end) => end,
        Err(e) => {
            return Err(e.context(Rule::ConditionBinaryTest, pos));
        },
    };
    match cmake_condition_value(input, right_start) {
        Ok((end, right)) => Ok(
            (
                end,
                CMakeCondition::BinaryTest {
                    operator,
                    left: Box::new(left),
                    right: Box::new(right),
                },
            ),
        ),
        Err(e) => Err(e.context(Rule::ConditionBinaryTest, pos)),
    }
}

/// An executable operator and operand are the ones that the specification
/// names.
pub open spec fn agrees_prefixed(
    r: Result<(usize, (String, CMakeCondition)), ParseError>,
    s: Parsed<(Seq<char>, Condition)>,
) -> bool {
    match r {
        Ok((end, (operator, value))) => s == Ok::<(int, (Seq<char>, Condition)), ParseError>(
            (end as int, (operator@, value@)),
        ),
        Err(e) => s == Err::<(int, (Seq<char>, Condition)), ParseError>(e),
    }
}

/// Parses an operator of `kind`, white space and a condition at `pos`.
fn prefixed_condition(input: &[char], pos: usize, kind: OperatorKind) -> (r: Result<
    (usize, (String, CMakeCondition)),
    ParseError,
>)
    ensures
        agrees_prefixed(r, spec_prefixed_condition(input@, pos as int, kind)),
        r matches Ok((end, _)) ==> pos < end <= input.len(),
    decreases input.len() - pos, 0int,
{
    match operator(input, pos, kind) {
        Err(e) => Err(e),
        Ok((operator_end, operator)) => match multispace1(input, operator_end) {
            Err(e) => Err(e),
            Ok(start) => match cmake_condition(input, start) {
                Err(e) => Err(e),
                Ok((end, value)) => Ok((end, (operator, value))),
            },
        },
    }
}

/// Parses a unary test at `pos`.
pub fn cmake_condition_unary_test(input: &[char], pos: usize) -> (r: Result<
    (usize, CMakeCondition),
    ParseError,
>)
    ensures
        agrees(r, spec_cmake_condition_unary_test(input@, pos as int)),
        advances(r, pos, input.len()),
    decreases input.len() - pos, 1int,
{
    match prefixed_condition(input, pos, OperatorKind::UnaryTest) {
        Err(e) => Err(e.context(Rule::ConditionUnaryTest, pos)),
        Ok((end, (operator, value))) => Ok(
            (end, CMakeCondition::UnaryTest { operator, value: Box::new(value) }),
        ),
    }
}

/// Parses a negation at `pos`.
pub fn cmake_condition_unary_logical_operator(input: &[char], pos: usize) -> (r: Result<
    (usize, CMakeCondition),
    ParseError,
>)
    ensures
        agrees(r, spec_cmake_condition_unary_logical_operator(input@, pos as int)),
        advances(r, pos, input.len()),
    decreases input.len() - pos, 1int,
{
    match prefixed_condition(input, pos, OperatorKind::Not) {
        Err(e) => Err(e.context(Rule::ConditionUnaryLogicalOperator, pos)),
        Ok((end, (operator, value))) => Ok(
            (end, CMakeCondition::UnaryLogicalOperator { operator, value: Box::new(value) }),
        ),
    }
}

/// Parses a bracketed condition at `pos`.
pub fn cmake_condition_parentheses(input: &[char], pos: usize) -> (r: Result<
    (usize, CMakeCondition),
    ParseError,
>)
    ensures
        agrees(r, spec_cmake_condition_parentheses(input@, pos as int)),
        advances(r, pos, input.len()),
    decreases input.len() - pos, 1int,
{
    let inside = match expect_char(input, pos, '(') {
        Ok(end) => end,
        Err(e) => {
            return Err(e.context(Rule::ConditionParentheses, pos));
        },
    };
    let start = scan_run(input, inside, CharClass::Multispace);
    let (end, value) = match cmake_condition(input, start) {
        Ok(found) => found,
        Err(e) => {
            return Err(e.context(Rule::ConditionParentheses, pos));
        },
    };
    let close = scan_run(input, end, CharClass::Multispace);
    match expect_char(input, close, ')') {
        Ok(after) => Ok((after, CMakeCondition::Parentheses { value: Box::new(value) })),
        Err(e) => Err(e.context(Rule::ConditionParentheses, pos)),
    }
}

/// Parses a comment inside a condition at `pos`.
pub fn cmake_condition_comment(input: &[char], pos: usize) -> (r: Result<
    (usize, CMakeCondition),
    ParseError,
>)
    ensures
        agrees(r, spec_cmake_condition_comment(input@, pos as int)),
        advances(r, pos, input.len()),
    decreases input.len() - pos, 1int,
{
    match cmake_comment(input, pos) {
        Err(e) => Err(e.context(Rule::ConditionComment, pos)),
        Ok((comment_end, content)) => {
            let start = scan_run(input, comment_end, CharClass::Multispace);
            match cmake_condition(input, start) {
                Err(_) => Ok((start, CMakeCondition::Comment { content, tail: None })),
                Ok((end, tail)) => Ok(
                    (end, CMakeCondition::Comment { content, tail: Some(Box::new(tail)) }),
                ),
            }
        },
    }
}

/// Parses an operand at `pos`: any condition but a binary logical operator.
fn condition_operand(input: &[char], pos: usize) -> (r: Result<
    (usize, CMakeCondition),
    ParseError,
>)
    ensures
        agrees(r, spec_condition_operand(input@, pos as int)),
        advances(r, pos, input.len()),
    decreases input.len() - pos, 2int,
{
    let e1 = match cmake_condition_binary_test(input, pos) {
        Ok(found) => {
            return Ok(found);
        },
        Err(e) => e,
    };
    let e2 = match cmake_condition_unary_logical_operator(input, pos) {
        Ok(found) => {
            return Ok(found);
        },
        Err(e) => e,
    };
    let e3 = match cmake_condition_unary_test(input, pos) {
        Ok(found) => {
            return Ok(found);
        },
        Err(e) => e,
    };
    let e4 = match cmake_condition_parentheses(input, pos) {
        Ok(found) => {
            return Ok(found);
        },
        Err(e) => e,
    };
    let e5 = match cmake_condition_comment(input, pos) {
        Ok(found) => {
            return Ok(found);
        },
        Err(e) => e,
    };
    match cmake_condition_value(input, pos) {
        Ok(found) => Ok(found),
        Err(e6) => Err(e1.or(e2.or(e3.or(e4.or(e5.or(e6)))))),
    }
}

/// Parses a binary logical operator at `pos`.
pub fn cmake_condition_binary_logical_operator(input: &[char], pos: usize) -> (r: Result<
    (usize, CMakeCondition),
    ParseError,
>)
    ensures
        agrees(r, spec_cmake_condition_binary_logical_operator(input@, pos as int)),
        advances(r, pos, input.len()),
    decreases input.len() - pos, 3int,
{
    let (left_end, left) = match condition_operand(input, pos) {
        Ok(found) => found,
        Err(e) => {
            return Err(e.context(Rule::ConditionBinaryLogicalOperator, pos));
        },
    };
    let operator_start = match multispace1(input, left_end) {
        Ok(end) => end,
        Err(e) => {
            return Err(e.context(Rule::ConditionBinaryLogicalOperator, pos));
        },
    };
    let (operator_end, operator) = match operator(input, operator_start, OperatorKind::Logical) {
        Ok(found) => found,
        Err(e) => {
            return Err(e.context(Rule::ConditionBinaryLogicalOperator, pos));
        },
    };
    let right_start = match multispace1(input, operator_end) {
        Ok(end) => end,
        Err(e) => {
            return Err(e.context(Rule::ConditionBinaryLogicalOperator, pos));
        },
    };
    match cmake_condition(input, right_start) {
        Ok((end, right)) => Ok(
            (
                end,
                CMakeCondition::BinaryLogicalOperator {
                    operator,
                    left: Box::new(left),
                    right: Box::new(right),
                },
            ),
        ),
        Err(e) => Err(e.context(Rule::ConditionBinaryLogicalOperator, pos)),
    }
}

/// Parses a condition at `pos`.
pub fn cmake_condition(input: &[char], pos: usize) -> (r: Result<
    (usize, CMakeCondition),
    ParseError,
>)
    ensures
        agrees(r, spec_cmake_condition(input@, pos as int)),
        advances(r, pos, input.len()),
    decreases input.len() - pos, 4int,
{
    match cmake_condition_binary_logical_operator(input, pos) {
        Ok(found) => Ok(found),
        Err(e1) => match condition_operand(input, pos) {
            Ok(found) => Ok(found),
            Err(e2) => Err(e1.or(e2).context(Rule::Condition, pos)),
        },
    }
}

/// A binary test that matches is not empty and ends inside the input.
proof fn lemma_binary_test_consumes(s: Seq<char>, pos: int)
    ensures
        consumes(spec_cmake_condition_binary_test(s, pos), pos, s.len()),
{
    lemma_value_consumes(s, pos);
    match spec_cmake_condition_value(s, pos) {
        Err(_) => {},
        Ok((left_end, _)) => {
            lemma_run_end(s, left_end, CharClass::Multispace);
            match spec_multispace1(s, left_end) {
                Err(_) => {},
                Ok(operator_start) => {
                    lemma_operator_end(s, operator_start, OperatorKind::BinaryTest);
                    match spec_operator(s, operator_start, OperatorKind::BinaryTest) {
                        Err(_) => {},
                        Ok((operator_end, _)) => {
                            lemma_run_end(s, operator_end, CharClass::Multispace);
                            match spec_multispace1(s, operator_end) {
                                Err(_) => {},
                                Ok(right_start) => {
                                    lemma_value_consumes(s, right_start);
                                },
                            }
                        },
                    }
                },
            }
        },
    }
}

/// An operator with its operand that matches is not empty and ends inside
/// the input.
proof fn lemma_prefixed_condition_consumes(s: Seq<char>, pos: int, kind: OperatorKind)
    ensures
        consumes(spec_prefixed_condition(s, pos, kind), pos, s.len()),
    decreases s.len() - pos, 0int,
{
    lemma_operator_end(s, pos, kind);
    match spec_operator(s, pos, kind) {
        Err(_) => {},
        Ok((operator_end, _)) => {
            lemma_run_end(s, operator_end, CharClass::Multispace);
            match spec_multispace1(s, operator_end) {
                Err(_) => {},
                Ok(start) => {
                    lemma_condition_consumes(s, start);
                },
            }
        },
    }
}

/// A bracketed condition that matches is not empty and ends inside the
/// input.
proof fn lemma_condition_parentheses_consumes(s: Seq<char>, pos: int)
    ensures
        consumes(spec_cmake_condition_parentheses(s, pos), pos, s.len()),
    decreases s.len() - pos, 1int,
{
    if spec_expect_char(s, pos, '(') is Ok {
        lemma_run_end(s, pos + 1, CharClass::Multispace);
        let start = run_end(s, pos + 1, CharClass::Multispace);
        lemma_condition_consumes(s, start);
        match spec_cmake_condition(s, start) {
            Err(_) => {},
            Ok((end, _)) => {
                lemma_run_end(s, end, CharClass::Multispace);
            },
        }
    }
}

/// A comment inside a condition that matches is not empty and ends inside
/// the input.
proof fn lemma_condition_comment_consumes(s: Seq<char>, pos: int)
    ensures
        consumes(spec_cmake_condition_comment(s, pos), pos, s.len()),
    decreases s.len() - pos, 1int,
{
    if spec_expect_char(s, pos, '#') is Ok {
        lemma_run_end(s, pos + 1, CharClass::CommentText);
        let comment_end = run_end(s, pos + 1, CharClass::CommentText);
        lemma_run_end(s, comment_end, CharClass::Multispace);
        lemma_condition_consumes(s, run_end(s, comment_end, CharClass::Multispace));
    }
}

/// An operand that matches is not empty and ends inside the input.
proof fn lemma_condition_operand_consumes(s: Seq<char>, pos: int)
    ensures
        consumes(spec_condition_operand(s, pos), pos, s.len()),
    decreases s.len() - pos, 2int,
{
    lemma_binary_test_consumes(s, pos);
    lemma_prefixed_condition_consumes(s, pos, OperatorKind::Not);
    lemma_prefixed_condition_consumes(s, pos, OperatorKind::UnaryTest);
    lemma_condition_parentheses_consumes(s, pos);
    lemma_condition_comment_consumes(s, pos);
    lemma_value_consumes(s, pos);
}

/// A binary logical operator that matches is not empty and ends inside the
/// input.
proof fn lemma_binary_logical_operator_consumes(s: Seq<char>, pos: int)
    ensures
        consumes(spec_cmake_condition_binary_logical_operator(s, pos), pos, s.len()),
    decreases s.len() - pos, 3int,
{
    lemma_condition_operand_consumes(s, pos);
    match spec_condition_operand(s, pos) {
        Err(_) => {},
        Ok((left_end, _)) => {
            lemma_run_end(s, left_end, CharClass::Multispace);
            match spec_multispace1(s, left_end) {
                Err(_) => {},
                Ok(operator_start) => {
                    lemma_operator_end(s, operator_start, OperatorKind::Logical);
                    match spec_operator(s, operator_start, OperatorKind::Logical) {
                        Err(_) => {},
                        Ok((operator_end, _)) => {
                            lemma_run_end(s, operator_end, CharClass::Multispace);
                            match spec_multispace1(s, operator_end) {
                                Err(_) => {},
                                Ok(right_start) => {
                                    lemma_condition_consumes(s, right_start);
                                },
                            }
                        },
                    }
                },
            }
        },
    }
}

/// A condition that matches is not empty and ends inside the input.
pub proof fn lemma_condition_consumes(s: Seq<char>, pos: int)
    ensures
        consumes(spec_cmake_condition(s, pos), pos, s.len()),
    decreases s.len() - pos, 4int,
{
    lemma_binary_logical_operator_consumes(s, pos);
    lemma_condition_operand_consumes(s, pos);
}

/// Logical operators chain to the right. An operand is never a binary
/// logical operator, and so neither is the left side of the binary logical
/// operator that a condition is: in `a AND b OR c` the left side of `AND` is
/// `a`, and all that follows `AND` is its right side.
pub proof fn lemma_logical_operators_chain_right(s: Seq<char>, pos: int)
    ensures
        spec_condition_operand(s, pos) matches Ok((_, operand))
            ==> !(operand is BinaryLogicalOperator),
        spec_cmake_condition(s, pos) matches Ok(
            (_, Condition::BinaryLogicalOperator { operator, left, right }),
        ) ==> !(*left is BinaryLogicalOperator),
{
}

} // verus!
