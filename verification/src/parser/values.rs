//! Values: comments, quoted strings and bare tokens.
use vstd::prelude::*;
use crate::parser::error::{
    advances, agrees, agrees_at, consumes, in_context, lex_error, map_parsed, or_else,
    with_context,
    LexError, ParseError, Parsed, Rule, Skipped,
};
use crate::parser::lexer::{
    cmake_comment, expect_char, is_specifier_char, lemma_run_end, run_end, scan_run,
    spec_cmake_comment, spec_expect_char, CharClass,
};
use crate::parser::strings::{lemma_string_body_end, parse_string, spec_parse_string};
use crate::parser::text::string_from;
use crate::parser::types::{CMakeValue, Value};

verus! {

/// A bracketed part of a bare token at `pos`: `open`, a bare token, `close`.
pub open spec fn spec_token_group(s: Seq<char>, pos: int, open: char, close: char) -> Skipped
    decreases s.len() - pos, 0int,
{
    match spec_expect_char(s, pos, open) {
        Err(e) => Err(e),
        Ok(inside) => match spec_token_end(s, inside) {
            Err(e) => Err(e),
            Ok(end) => spec_expect_char(s, end, close),
        },
    }
}

/// One part of a bare token at `pos`: a run of token characters, or a bare
/// token in round brackets, or a bare token in braces.
pub open spec fn spec_token_piece(s: Seq<char>, pos: int) -> Skipped
    decreases s.len() - pos, 1int,
{
    or_else(
        if run_end(s, pos, CharClass::Token) > pos {
            Ok(run_end(s, pos, CharClass::Token))
        } else {
            Err(lex_error(LexError::ExpectedToken, pos))
        },
        or_else(spec_token_group(s, pos, '(', ')'), spec_token_group(s, pos, '{', '}')),
    )
}

/// The end of the parts of a bare token that follow one another from `pos`.
pub open spec fn spec_token_rest(s: Seq<char>, pos: int) -> int
    decreases s.len() - pos, 2int,
{
    match spec_token_piece(s, pos) {
        Ok(next) => if pos < next <= s.len() {
            spec_token_rest(s, next)
        } else {
            pos
        },
        Err(_) => pos,
    }
}

/// The end of the bare token at `pos`: one part, and then as many as follow.
pub open spec fn spec_token_end(s: Seq<char>, pos: int) -> Skipped
    decreases s.len() - pos, 3int,
{
    match spec_token_piece(s, pos) {
        Err(e) => Err(e),
        Ok(next) => if pos < next <= s.len() {
            Ok(spec_token_rest(s, next))
        } else {
            Ok(next)
        },
    }
}

/// A bare token at `pos`, with its text as written.
pub open spec fn spec_cmake_string_part(s: Seq<char>, pos: int) -> Parsed<Seq<char>> {
    match spec_token_end(s, pos) {
        Ok(end) => Ok((end, s.subrange(pos, end))),
        Err(e) => Err(in_context(Rule::StringPart, pos, e)),
    }
}

/// Every character of `text` may stand in an argument specifier.
pub open spec fn is_specifier(text: Seq<char>) -> bool {
    forall|i: int| 0 <= i < text.len() ==> is_specifier_char(#[trigger] text[i])
}

/// The value that a bare token with this text is: an argument specifier if
/// it is made of `A` to `Z`, `0` to `9` and `_` alone, else a string literal.
pub open spec fn classify(text: Seq<char>) -> Value {
    if is_specifier(text) {
        Value::ArgumentSpecifier(text)
    } else {
        Value::StringLiteral(text)
    }
}

/// A bare token at `pos`, classified.
pub open spec fn spec_cmake_string_literal(s: Seq<char>, pos: int) -> Parsed<Value> {
    map_parsed(spec_cmake_string_part(s, pos), |text: Seq<char>| classify(text))
}

/// A quoted string at `pos`, as a value.
pub open spec fn spec_cmake_quoted_string_literal(s: Seq<char>, pos: int) -> Parsed<Value> {
    map_parsed(spec_parse_string(s, pos), |text: Seq<char>| Value::QuotedString(text))
}

/// A value at `pos`: a comment, else a quoted string, else a bare token.
pub open spec fn spec_cmake_value(s: Seq<char>, pos: int) -> Parsed<Value> {
    with_context(
        Rule::Value,
        pos,
        or_else(
            with_context(
                Rule::Comment,
                pos,
                map_parsed(spec_cmake_comment(s, pos), |text: Seq<char>| Value::Comment(text)),
            ),
            or_else(
                with_context(Rule::QuotedStringLiteral, pos, spec_cmake_quoted_string_literal(s, pos)),
                with_context(Rule::StringLiteral, pos, spec_cmake_string_literal(s, pos)),
            ),
        ),
    )
}

/// Scans a bracketed part of a bare token.
fn token_group(input: &[char], pos: usize, open: char, close: char) -> (r: Result<
    usize,
    ParseError,
>)
    ensures
        agrees_at(r, spec_token_group(input@, pos as int, open, close)),
        r matches Ok(end) ==> pos < end <= input.len(),
    decreases input.len() - pos, 0int,
{
    match expect_char(input, pos, open) {
        Err(e) => Err(e),
        Ok(inside) => match token_end(input, inside) {
            Err(e) => Err(e),
            Ok(end) => expect_char(input, end, close),
        },
    }
}

/// Scans one part of a bare token.
fn token_piece(input: &[char], pos: usize) -> (r: Result<usize, ParseError>)
    ensures
        agrees_at(r, spec_token_piece(input@, pos as int)),
        r matches Ok(end) ==> pos < end <= input.len(),
    decreases input.len() - pos, 1int,
{
    let run = scan_run(input, pos, CharClass::Token);
    if run > pos {
        proof {
            lemma_run_end(input@, pos as int, CharClass::Token);
        }
        return Ok(run);
    }
    let e1 = ParseError::lex(LexError::ExpectedToken, pos);
    match token_group(input, pos, '(', ')') {
        Ok(end) => Ok(end),
        Err(e2) => match token_group(input, pos, '{', '}') {
            Ok(end) => Ok(end),
            Err(e3) => Err(e1.or(e2.or(e3))),
        },
    }
}

/// Scans a bare token and returns its end.
fn token_end(input: &[char], pos: usize) -> (r: Result<usize, ParseError>)
    ensures
        agrees_at(r, spec_token_end(input@, pos as int)),
        r matches Ok(end) ==> pos < end <= input.len(),
    decreases input.len() - pos, 3int,
{
    match token_piece(input, pos) {
        Err(e) => Err(e),
        Ok(first) => {
            let mut end: usize = first;
            loop
                invariant
                    pos < end <= input.len(),
                    spec_token_rest(input@, first as int) == spec_token_rest(input@, end as int),
                ensures
                    pos < end <= input.len(),
                    end == spec_token_rest(input@, first as int),
                decreases input.len() - end,
            {
                match token_piece(input, end) {
                    Ok(next) => {
                        end = next;
                    },
                    Err(_) => {
                        break ;
                    },
                }
            }
            Ok(end)
        },
    }
}

/// Parses a bare token at `pos` and returns its text.
pub fn cmake_string_part(input: &[char], pos: usize) -> (r: Result<(usize, String), ParseError>)
    ensures
        agrees(r, spec_cmake_string_part(input@, pos as int)),
        advances(r, pos, input.len()),
{
    match token_end(input, pos) {
        Ok(end) => Ok((end, string_from(input, pos, end))),
        Err(e) => Err(e.context(Rule::StringPart, pos)),
    }
}

/// Whether every character of `input[from..to]` may stand in an argument
/// specifier.
fn all_specifier_chars(input: &[char], from: usize, to: usize) -> (b: bool)
    requires
        from <= to <= input.len(),
    ensures
        b == is_specifier(input@.subrange(from as int, to as int)),
{
    let ghost text = input@.subrange(from as int, to as int);
    let mut i: usize = from;
    while i < to
        invariant
            from <= i <= to <= input.len(),
            text == input@.subrange(from as int, to as int),
            forall|j: int| 0 <= j < i - from ==> is_specifier_char(#[trigger] text[j]),
        decreases to - i,
    {
        let c = input[i];
        if !(('A' <= c && c <= 'Z') || ('0' <= c && c <= '9') || c == '_') {
            assert(!is_specifier_char(text[i - from]));
            return false;
        }
        i += 1;
    }
    true
}

/// Parses a bare token at `pos` and classifies it.
pub fn cmake_string_literal(input: &[char], pos: usize) -> (r: Result<
    (usize, CMakeValue),
    ParseError,
>)
    ensures
        agrees(r, spec_cmake_string_literal(input@, pos as int)),
        advances(r, pos, input.len()),
{
    match cmake_string_part(input, pos) {
        Err(e) => Err(e),
        Ok((end, text)) => {
            if all_specifier_chars(input, pos, end) {
                Ok((end, CMakeValue::ArgumentSpecifier(text)))
            } else {
                Ok((end, CMakeValue::StringLiteral(text)))
            }
        },
    }
}

/// Parses a quoted string at `pos` as a value.
pub fn cmake_quoted_string_literal(input: &[char], pos: usize) -> (r: Result<
    (usize, CMakeValue),
    ParseError,
>)
    ensures
        agrees(r, spec_cmake_quoted_string_literal(input@, pos as int)),
        advances(r, pos, input.len()),
{
    match parse_string(input, pos) {
        Err(e) => Err(e),
        Ok((end, text)) => Ok((end, CMakeValue::QuotedString(text))),
    }
}

/// Parses a value at `pos`.
pub fn cmake_value(input: &[char], pos: usize) -> (r: Result<(usize, CMakeValue), ParseError>)
    ensures
        agrees(r, spec_cmake_value(input@, pos as int)),
        advances(r, pos, input.len()),
{
    match cmake_comment(input, pos) {
        Ok((end, text)) => Ok((end, CMakeValue::Comment(text))),
        Err(e1) => match cmake_quoted_string_literal(input, pos) {
            Ok(found) => Ok(found),
            Err(e2) => match cmake_string_literal(input, pos) {
                Ok(found) => Ok(found),
                Err(e3) => Err(
                    e1.context(Rule::Comment, pos).or(
                        e2.context(Rule::QuotedStringLiteral, pos).or(
                            e3.context(Rule::StringLiteral, pos),
                        ),
                    ).context(Rule::Value, pos),
                ),
            },
        },
    }
}

/// A bracketed part of a bare token that matches is not empty and ends
/// inside the input.
proof fn lemma_token_group_advances(s: Seq<char>, pos: int, open: char, close: char)
    ensures
        spec_token_group(s, pos, open, close) matches Ok(end) ==> pos < end <= s.len(),
    decreases s.len() - pos, 0int,
{
    if spec_expect_char(s, pos, open) is Ok {
        lemma_token_end_advances(s, pos + 1);
    }
}

/// A part of a bare token that matches is not empty and ends inside the
/// input.
proof fn lemma_token_piece_advances(s: Seq<char>, pos: int)
    ensures
        spec_token_piece(s, pos) matches Ok(end) ==> pos < end <= s.len(),
    decreases s.len() - pos, 1int,
{
    lemma_run_end(s, pos, CharClass::Token);
    lemma_token_group_advances(s, pos, '(', ')');
    lemma_token_group_advances(s, pos, '{', '}');
}

/// The parts that follow one another from inside the input end inside it.
proof fn lemma_token_rest_bounds(s: Seq<char>, pos: int)
    requires
        0 <= pos <= s.len(),
    ensures
        pos <= spec_token_rest(s, pos) <= s.len(),
    decreases s.len() - pos, 2int,
{
    lemma_token_piece_advances(s, pos);
    match spec_token_piece(s, pos) {
        Ok(next) => {
            if pos < next <= s.len() {
                lemma_token_rest_bounds(s, next);
            }
        },
        Err(_) => {},
    }
}

/// A bare token that matches is not empty and ends inside the input.
pub proof fn lemma_token_end_advances(s: Seq<char>, pos: int)
    ensures
        spec_token_end(s, pos) matches Ok(end) ==> pos < end <= s.len(),
    decreases s.len() - pos, 3int,
{
    lemma_token_piece_advances(s, pos);
    match spec_token_piece(s, pos) {
        Ok(next) => {
            if pos < next <= s.len() {
                lemma_token_rest_bounds(s, next);
            }
        },
        Err(_) => {},
    }
}

/// How a bare token is classified. Where one stands at `pos`, it is not
/// empty, its text is the input as written, and it is an argument specifier
/// if and only if every character of it is one of `A` to `Z`, `0` to `9` and
/// `_`; else it is a string literal. At the end of the input, and so in the
/// empty input, no bare token stands.
pub proof fn lemma_bare_token_classification(s: Seq<char>, pos: int)
    ensures
        match spec_cmake_string_literal(s, pos) {
            Ok((end, value)) => {
                &&& pos < end <= s.len()
                &&& is_specifier(s.subrange(pos, end)) ==> value == Value::ArgumentSpecifier(
                    s.subrange(pos, end),
                )
                &&& !is_specifier(s.subrange(pos, end)) ==> value == Value::StringLiteral(
                    s.subrange(pos, end),
                )
            },
            Err(_) => true,
        },
        pos >= s.len() ==> spec_cmake_string_literal(s, pos) is Err,
{
    lemma_token_end_advances(s, pos);
}

/// A value that matches is not empty and ends inside the input.
pub proof fn lemma_value_consumes(s: Seq<char>, pos: int)
    ensures
        consumes(spec_cmake_value(s, pos), pos, s.len()),
{
    lemma_run_end(s, pos + 1, CharClass::CommentText);
    if spec_expect_char(s, pos, '"') is Ok {
        lemma_string_body_end(s, pos + 1);
    }
    lemma_token_end_advances(s, pos);
}

} // verus!
