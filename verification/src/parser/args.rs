//! Argument lists: values separated by white space, with nested brackets.
use vstd::prelude::*;
use crate::parser::error::{consumes, map_parsed, or_else, ParseError, Parsed};
use crate::parser::lexer::{
    expect_char, lemma_run_end, multispace1, run_end, scan_run, spec_expect_char,
    spec_multispace1, CharClass,
};
use crate::parser::types::{values_view, CMakeValue, Value};
use vstd::string::StringExecFns;
use crate::parser::values::{cmake_value, lemma_value_consumes, spec_cmake_value};

verus! {

/// An executable list of values is the one that the specification names.
pub open spec fn agrees_values(
    r: Result<(usize, Vec<CMakeValue>), ParseError>,
    s: Parsed<Seq<Value>>,
) -> bool {
    match r {
        Ok((end, values)) => s == Ok::<(int, Seq<Value>), ParseError>(
            (end as int, values_view(values@)),
        ),
        Err(e) => s == Err::<(int, Seq<Value>), ParseError>(e),
    }
}

/// The view of a concatenation is the concatenation of the views.
pub proof fn lemma_values_view_add(a: Seq<CMakeValue>, b: Seq<CMakeValue>)
    ensures
        values_view(a + b) == values_view(a) + values_view(b),
{
    assert(values_view(a + b) =~= values_view(a) + values_view(b));
}

/// A bracketed group of arguments at `pos`: `(`, argument lists separated by
/// white space, `)`. The brackets are kept as values around the arguments.
pub open spec fn spec_cmake_arg_parenthesis(s: Seq<char>, pos: int) -> Parsed<Seq<Value>>
    decreases s.len() - pos, 1int,
{
    match spec_expect_char(s, pos, '(') {
        Err(e) => Err(e),
        Ok(inside) => {
            let (first_end, first) = spec_cmake_arg_list_inner(s, inside);
            let (end, values) = if inside <= first_end <= s.len() {
                spec_arg_groups_more(s, first_end, first)
            } else {
                (first_end, first)
            };
            match spec_expect_char(s, end, ')') {
                Err(e) => Err(e),
                Ok(after) => Ok(
                    (
                        after,
                        seq![Value::Parenthesis("("@)] + values + seq![Value::Parenthesis(")"@)],
                    ),
                ),
            }
        },
    }
}

/// The argument lists that follow inside a bracketed group from `pos`, each
/// after white space, added to `found`.
pub open spec fn spec_arg_groups_more(s: Seq<char>, pos: int, found: Seq<Value>) -> (int, Seq<Value>)
    decreases s.len() - pos, 4int,
{
    match spec_multispace1(s, pos) {
        Err(_) => (pos, found),
        Ok(start) => {
            proof {
                lemma_run_end(s, pos, CharClass::Multispace);
            }
            let (end, values) = spec_cmake_arg_list_inner(s, start);
            if start <= end <= s.len() {
                spec_arg_groups_more(s, end, found + values)
            } else {
                (pos, found)
            }
        },
    }
}

/// One element of an argument list at `pos`: a bracketed group, else a value.
pub open spec fn spec_arg_element(s: Seq<char>, pos: int) -> Parsed<Seq<Value>>
    decreases s.len() - pos, 2int,
{
    or_else(
        spec_cmake_arg_parenthesis(s, pos),
        map_parsed(spec_cmake_value(s, pos), |v: Value| seq![v]),
    )
}

/// The elements that follow in an argument list from `pos`, each after white
/// space, added to `found`. White space that no element follows is left.
pub open spec fn spec_arg_list_more(s: Seq<char>, pos: int, found: Seq<Value>) -> (int, Seq<Value>)
    decreases s.len() - pos, 4int,
{
    match spec_multispace1(s, pos) {
        Err(_) => (pos, found),
        Ok(start) => {
            proof {
                lemma_run_end(s, pos, CharClass::Multispace);
            }
            match spec_arg_element(s, start) {
                Err(_) => (pos, found),
                Ok((end, values)) => if start < end <= s.len() {
                    spec_arg_list_more(s, end, found + values)
                } else {
                    (pos, found)
                },
            }
        },
    }
}

/// The argument list at `pos`: elements separated by white space, possibly
/// none. It matches at every position.
pub open spec fn spec_cmake_arg_list_inner(s: Seq<char>, pos: int) -> (int, Seq<Value>)
    decreases s.len() - pos, 3int,
{
    match spec_arg_element(s, pos) {
        Err(_) => (pos, Seq::empty()),
        Ok((end, values)) => if pos < end <= s.len() {
            spec_arg_list_more(s, end, values)
        } else {
            (pos, Seq::empty())
        },
    }
}

/// The arguments of a command at `pos`: `(`, an argument list with white
/// space around it, `)`.
pub open spec fn spec_cmake_args(s: Seq<char>, pos: int) -> Parsed<Seq<Value>> {
    match spec_expect_char(s, pos, '(') {
        Err(e) => Err(e),
        Ok(inside) => {
            let (end, values) = spec_cmake_arg_list_inner(
                s,
                run_end(s, inside, CharClass::Multispace),
            );
            match spec_expect_char(s, run_end(s, end, CharClass::Multispace), ')') {
                Err(e) => Err(e),
                Ok(after) => Ok((after, values)),
            }
        },
    }
}

/// Parses a bracketed group of arguments at `pos`.
pub fn cmake_arg_parenthesis(input: &[char], pos: usize) -> (r: Result<
    (usize, Vec<CMakeValue>),
    ParseError,
>)
    ensures
        agrees_values(r, spec_cmake_arg_parenthesis(input@, pos as int)),
        r matches Ok((end, _)) ==> pos < end <= input.len(),
    decreases input.len() - pos, 1int,
{
    match expect_char(input, pos, '(') {
        Err(e) => Err(e),
        Ok(inside) => {
            let (first_end, first) = arg_list_inner(input, inside);
            let ghost first_view = values_view(first@);
            let mut end: usize = first_end;
            let mut found: Vec<CMakeValue> = first;
            loop
                invariant
                    pos < inside <= end <= input.len(),
                    spec_arg_groups_more(input@, end as int, values_view(found@))
                        == spec_arg_groups_more(input@, first_end as int, first_view),
                ensures
                    inside <= end <= input.len(),
                    (end as int, values_view(found@)) == spec_arg_groups_more(
                        input@,
                        first_end as int,
                        first_view,
                    ),
                decreases input.len() - end,
            {
                match multispace1(input, end) {
                    Err(_) => {
                        break ;
                    },
                    Ok(start) => {
                        let (next, mut values) = arg_list_inner(input, start);
                        proof {
                            lemma_values_view_add(found@, values@);
                        }
                        found.append(&mut values);
                        end = next;
                    },
                }
            }
            match expect_char(input, end, ')') {
                Err(e) => Err(e),
                Ok(after) => {
                    let mut values: Vec<CMakeValue> = Vec::new();
                    values.push(CMakeValue::Parenthesis(String::from_str("(")));
                    values.append(&mut found);
                    values.push(CMakeValue::Parenthesis(String::from_str(")")));
                    proof {
                        assert(values_view(values@) =~= seq![Value::Parenthesis("("@)]
                            + spec_arg_groups_more(input@, first_end as int, first_view).1 + seq![
                            Value::Parenthesis(")"@),
                        ]);
                    }
                    Ok((after, values))
                },
            }
        },
    }
}

/// Parses one element of an argument list at `pos`.
fn arg_element(input: &[char], pos: usize) -> (r: Result<(usize, Vec<CMakeValue>), ParseError>)
    ensures
        agrees_values(r, spec_arg_element(input@, pos as int)),
        r matches Ok((end, _)) ==> pos < end <= input.len(),
    decreases input.len() - pos, 2int,
{
    match cmake_arg_parenthesis(input, pos) {
        Ok(found) => Ok(found),
        Err(e1) => match cmake_value(input, pos) {
            Ok((end, value)) => {
                let mut values: Vec<CMakeValue> = Vec::new();
                values.push(value);
                proof {
                    assert(values_view(values@) =~= seq![value@]);
                }
                Ok((end, values))
            },
            Err(e2) => Err(e1.or(e2)),
        },
    }
}

/// Parses the argument list at `pos`.
fn arg_list_inner(input: &[char], pos: usize) -> (r: (usize, Vec<CMakeValue>))
    ensures
        (r.0 as int, values_view(r.1@)) == spec_cmake_arg_list_inner(input@, pos as int),
        pos <= r.0,
        pos <= input.len() ==> r.0 <= input.len(),
    decreases input.len() - pos, 3int,
{
    match arg_element(input, pos) {
        Err(_) => {
            let values: Vec<CMakeValue> = Vec::new();
            proof {
                assert(values_view(values@) =~= Seq::<Value>::empty());
            }
            (pos, values)
        },
        Ok((first_end, first)) => {
            let ghost first_view = values_view(first@);
            let mut end: usize = first_end;
            let mut found: Vec<CMakeValue> = first;
            loop
                invariant
                    pos < end <= input.len(),
                    spec_arg_list_more(input@, end as int, values_view(found@))
                        == spec_arg_list_more(input@, first_end as int, first_view),
                ensures
                    pos < end <= input.len(),
                    (end as int, values_view(found@)) == spec_arg_list_more(
                        input@,
                        first_end as int,
                        first_view,
                    ),
                decreases input.len() - end,
            {
                match multispace1(input, end) {
                    Err(_) => {
                        break ;
                    },
                    Ok(start) => match arg_element(input, start) {
                        Err(_) => {
                            break ;
                        },
                        Ok((next, mut values)) => {
                            proof {
                                lemma_values_view_add(found@, values@);
                            }
                            found.append(&mut values);
                            end = next;
                        },
                    },
                }
            }
            (end, found)
        },
    }
}

/// Parses the argument list at `pos`. Every position has one, possibly empty.
pub fn cmake_arg_list_inner(input: &[char], pos: usize) -> (r: Result<
    (usize, Vec<CMakeValue>),
    ParseError,
>)
    ensures
        r is Ok,
        agrees_values(r, Ok(spec_cmake_arg_list_inner(input@, pos as int))),
        r matches Ok((end, _)) ==> pos <= end && (pos <= input.len() ==> end <= input.len()),
{
    Ok(arg_list_inner(input, pos))
}

/// Parses the arguments of a command at `pos`.
pub fn cmake_args(input: &[char], pos: usize) -> (r: Result<(usize, Vec<CMakeValue>), ParseError>)
    ensures
        agrees_values(r, spec_cmake_args(input@, pos as int)),
        r matches Ok((end, _)) ==> pos < end <= input.len(),
{
    match expect_char(input, pos, '(') {
        Err(e) => Err(e),
        Ok(inside) => {
            let start = scan_run(input, inside, CharClass::Multispace);
            let (end, values) = arg_list_inner(input, start);
            let close = scan_run(input, end, CharClass::Multispace);
            match expect_char(input, close, ')') {
                Err(e) => Err(e),
                Ok(after) => Ok((after, values)),
            }
        },
    }
}

/// A bracketed group of arguments that matches is not empty and ends
/// inside the input.
proof fn lemma_arg_parenthesis_consumes(s: Seq<char>, pos: int)
    ensures
        consumes(spec_cmake_arg_parenthesis(s, pos), pos, s.len()),
    decreases s.len() - pos, 1int,
{
    if spec_expect_char(s, pos, '(') is Ok {
        let inside = pos + 1;
        lemma_arg_list_inner_bounds(s, inside);
        let (first_end, first) = spec_cmake_arg_list_inner(s, inside);
        lemma_arg_groups_more_bounds(s, first_end, first);
    }
}

/// The argument lists that follow inside a bracketed group end inside the
/// input, at or after the position they are looked for from.
proof fn lemma_arg_groups_more_bounds(s: Seq<char>, pos: int, found: Seq<Value>)
    requires
        0 <= pos <= s.len(),
    ensures
        pos <= spec_arg_groups_more(s, pos, found).0 <= s.len(),
    decreases s.len() - pos, 4int,
{
    lemma_run_end(s, pos, CharClass::Multispace);
    match spec_multispace1(s, pos) {
        Err(_) => {},
        Ok(start) => {
            lemma_arg_list_inner_bounds(s, start);
            let (end, values) = spec_cmake_arg_list_inner(s, start);
            lemma_arg_groups_more_bounds(s, end, found + values);
        },
    }
}

/// An element of an argument list that matches is not empty and ends
/// inside the input.
proof fn lemma_arg_element_consumes(s: Seq<char>, pos: int)
    ensures
        consumes(spec_arg_element(s, pos), pos, s.len()),
    decreases s.len() - pos, 2int,
{
    lemma_arg_parenthesis_consumes(s, pos);
    lemma_value_consumes(s, pos);
}

/// The elements that follow in an argument list end inside the input, at or
/// after the position they are looked for from.
proof fn lemma_arg_list_more_bounds(s: Seq<char>, pos: int, found: Seq<Value>)
    requires
        0 <= pos <= s.len(),
    ensures
        pos <= spec_arg_list_more(s, pos, found).0 <= s.len(),
    decreases s.len() - pos, 4int,
{
    lemma_run_end(s, pos, CharClass::Multispace);
    match spec_multispace1(s, pos) {
        Err(_) => {},
        Ok(start) => {
            lemma_arg_element_consumes(s, start);
            match spec_arg_element(s, start) {
                Err(_) => {},
                Ok((end, values)) => {
                    lemma_arg_list_more_bounds(s, end, found + values);
                },
            }
        },
    }
}

/// An argument list ends inside the input, at or after its start.
pub proof fn lemma_arg_list_inner_bounds(s: Seq<char>, pos: int)
    requires
        0 <= pos <= s.len(),
    ensures
        pos <= spec_cmake_arg_list_inner(s, pos).0 <= s.len(),
    decreases s.len() - pos, 3int,
{
    lemma_arg_element_consumes(s, pos);
    match spec_arg_element(s, pos) {
        Err(_) => {},
        Ok((end, values)) => {
            lemma_arg_list_more_bounds(s, end, values);
        },
    }
}

/// The arguments of a command that match are not empty and end inside the
/// input.
pub proof fn lemma_args_consume(s: Seq<char>, pos: int)
    ensures
        consumes(spec_cmake_args(s, pos), pos, s.len()),
{
    if spec_expect_char(s, pos, '(') is Ok {
        lemma_run_end(s, pos + 1, CharClass::Multispace);
        let start = run_end(s, pos + 1, CharClass::Multispace);
        lemma_arg_list_inner_bounds(s, start);
        lemma_run_end(s, spec_cmake_arg_list_inner(s, start).0, CharClass::Multispace);
    }
}

} // verus!
