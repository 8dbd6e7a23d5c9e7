//! Quoted strings.
use vstd::prelude::*;
use crate::parser::error::{advances, agrees, lex_error, LexError, ParseError, Parsed};
use crate::parser::lexer::{expect_char, spec_expect_char};
use crate::parser::text::string_from;

verus! {

/// The end of the body of a quoted string, from `pos` inside it: the position
/// of the first double quote that no backslash escapes, or the end of input.
/// A backslash escapes a double quote or a backslash that follows it.
pub open spec fn string_body_end(s: Seq<char>, pos: int) -> int
    decreases s.len() - pos,
{
    if pos < 0 || pos >= s.len() {
        pos
    } else if s[pos] == '\\' && pos + 1 < s.len() && (s[pos + 1] == '\\' || s[pos + 1] == '"') {
        string_body_end(s, pos + 2)
    } else if s[pos] != '"' {
        string_body_end(s, pos + 1)
    } else {
        pos
    }
}

/// The body of a quoted string ends at or after its start, inside the input,
/// and on a double quote if it ends before the end of input.
pub proof fn lemma_string_body_end(s: Seq<char>, pos: int)
    requires
        0 <= pos <= s.len(),
    ensures
        pos <= string_body_end(s, pos) <= s.len(),
        string_body_end(s, pos) < s.len() ==> s[string_body_end(s, pos)] == '"',
    decreases s.len() - pos,
{
    if pos >= s.len() {
    } else if s[pos] == '\\' && pos + 1 < s.len() && (s[pos + 1] == '\\' || s[pos + 1] == '"') {
        lemma_string_body_end(s, pos + 2);
    } else if s[pos] != '"' {
        lemma_string_body_end(s, pos + 1);
    }
}

/// A quoted string at `pos`: a double quote, the body, a double quote. The
/// value is the body as written, escapes included.
pub open spec fn spec_parse_string(s: Seq<char>, pos: int) -> Parsed<Seq<char>> {
    match spec_expect_char(s, pos, '"') {
        Err(e) => Err(e),
        Ok(start) => {
            let end = string_body_end(s, start);
            if end < s.len() {
                Ok((end + 1, s.subrange(start, end)))
            } else {
                Err(lex_error(LexError::UnterminatedString, end))
            }
        },
    }
}

/// Parses a quoted string at `pos` and returns its body.
pub fn parse_string(input: &[char], pos: usize) -> (r: Result<(usize, String), ParseError>)
    ensures
        agrees(r, spec_parse_string(input@, pos as int)),
        advances(r, pos, input.len()),
{
    match expect_char(input, pos, '"') {
        Err(e) => Err(e),
        Ok(start) => {
            let mut i: usize = start;
            proof {
                lemma_string_body_end(input@, start as int);
            }
            while i < input.len() && (input[i] != '"')
                invariant
                    start <= i <= input.len(),
                    string_body_end(input@, start as int) == string_body_end(input@, i as int),
                decreases input.len() - i,
            {
                if input[i] == '\\' && i + 1 < input.len() && (input[i + 1] == '\\' || input[i + 1]
                    == '"') {
                    i += 2;
                } else {
                    i += 1;
                }
            }
            if i < input.len() {
                Ok((i + 1, string_from(input, start, i)))
            } else {
                Err(ParseError::lex(LexError::UnterminatedString, i))
            }
        },
    }
}

} // verus!
