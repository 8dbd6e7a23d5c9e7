//! The parser: source text to document tree.
//!
//! Each grammar rule is a function from the input and a position to the
//! position after the match and the value matched, or to an error. A rule
//! never changes anything: an alternative that fails leaves no trace, and the
//! next one starts from the same position. Beside each executable rule
//! stands a specification function of the same name with `spec_` before it,
//! which says what the rule matches; the executable rule returns exactly
//! that.
use vstd::prelude::*;

pub mod args;
pub mod error;
pub mod failure;
pub mod well_formed;
pub mod lexer;
pub mod operators;
pub mod parse_condition;
pub mod statements;
pub mod strings;
pub mod text;
pub mod types;
pub mod values;

pub use args::{cmake_arg_list_inner, cmake_arg_parenthesis, cmake_args};
pub use error::{GrammarError, LexError, ParseError, Rule};
pub use failure::{locate, locate_error, Location, ParseFailure};
pub use lexer::{cmake_command_name, cmake_comment};
pub use parse_condition::cmake_condition;
pub use statements::{
    cmake_block_group, cmake_clause_body_block, cmake_command, cmake_else_if_block,
    cmake_foreach_group, cmake_function_group, cmake_if_group, cmake_macro_group, cmake_parser,
    cmake_statement, parse_statement_list, skip_empty_command,
};
pub use strings::parse_string;
pub use text::chars_of;
pub use values::{
    cmake_quoted_string_literal, cmake_string_literal, cmake_string_part, cmake_value,
};

verus! {

/// The document that `s` is, or why it is none.
pub open spec fn spec_parse(s: Seq<char>) -> Result<types::Document, failure::Failure> {
    match statements::spec_cmake_parser(s, 0) {
        Ok((_, document)) => Ok(document),
        Err(e) => Err(failure::located(s, e)),
    }
}

/// Parses a whole document. Either all of `text` is a document, which is
/// then well formed, or the failure is returned: there is no partial result.
pub fn parse(text: &str) -> (r: Result<types::CMakeDocument, ParseFailure>)
    ensures
        match r {
            Ok(document) => spec_parse(text@) == Ok::<types::Document, failure::Failure>(
                document@,
            ),
            Err(f) => spec_parse(text@) == Err::<types::Document, failure::Failure>(f@),
        },
        r matches Ok(document) ==> well_formed::document_well_formed(document@),
{
    let chars = chars_of(text);
    proof {
        well_formed::lemma_document_well_formed(text@, 0);
    }
    match cmake_parser(chars.as_slice(), 0) {
        Ok((_, document)) => Ok(document),
        Err(e) => Err(locate_error(chars.as_slice(), &e)),
    }
}

} // verus!
