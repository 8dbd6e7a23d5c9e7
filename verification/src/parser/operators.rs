//! The operator keywords of conditions.
use vstd::prelude::*;
use crate::parser::error::{agrees, grammar_error, GrammarError, ParseError, Parsed};
use crate::parser::lexer::{has_keyword, keyword_at};
use crate::parser::text::string_from;

verus! {

/// The families of operators that a condition may hold.
#[derive(Debug, Clone, Copy, PartialEq, Eq)]
pub enum OperatorKind {
    /// Tests of one operand, such as `EXISTS` and `DEFINED`.
    UnaryTest,
    /// Comparisons of two operands, such as `STREQUAL` and `VERSION_LESS`.
    BinaryTest,
    /// `NOT`.
    Not,
    /// `AND` and `OR`.
    Logical,
}

/// The operators of a family, in the order in which they are tried. An
/// operator that another one starts with stands after it.
pub open spec fn operators(kind: OperatorKind) -> Seq<Seq<char>> {
    match kind {
        OperatorKind::UnaryTest => seq![
            "EXISTS"@,
            "IS_ABSOLUTE"@,
            "IS_DIRECTORY"@,
            "IS_SYMLINK"@,
            "COMMAND"@,
            "DEFINED"@,
            "POLICY"@,
            "TEST"@,
            "TARGET"@,
        ],
        OperatorKind::BinaryTest => seq![
            "EQUAL"@,
            "LESS_EQUAL"@,
            "LESS"@,
            "GREATER_EQUAL"@,
            "GREATER"@,
            "STREQUAL"@,
            "STRLESS_EQUAL"@,
            "STRLESS"@,
            "STRGREATER_EQUAL"@,
            "STRGREATER"@,
            "VERSION_EQUAL"@,
            "VERSION_LESS_EQUAL"@,
            "VERSION_LESS"@,
            "VERSION_GREATER_EQUAL"@,
            "VERSION_GREATER"@,
            "PATH_EQUAL"@,
            "MATCHES"@,
            "INLIST"@,
            "IN_LIST"@,
            "NOTINLIST"@,
            "NOT_IN_LIST"@,
        ],
        OperatorKind::Not => seq!["NOT"@],
        OperatorKind::Logical => seq!["AND"@, "OR"@],
    }
}

/// The index of the first of `words`, from index `from` on, that stands in
/// `s` at `pos` in any letter case; the length of `words` if none does.
pub open spec fn first_keyword(s: Seq<char>, pos: int, words: Seq<Seq<char>>, from: int) -> int
    decreases words.len() - from,
{
    if from < 0 || from >= words.len() {
        words.len() as int
    } else if keyword_at(s, pos, words[from]) {
        from
    } else {
        first_keyword(s, pos, words, from + 1)
    }
}

/// The first keyword found is one of the words, stands at `pos`, and none
/// before it does.
pub proof fn lemma_first_keyword(s: Seq<char>, pos: int, words: Seq<Seq<char>>, from: int)
    requires
        0 <= from <= words.len(),
    ensures
        from <= first_keyword(s, pos, words, from) <= words.len(),
        first_keyword(s, pos, words, from) < words.len() ==> keyword_at(
            s,
            pos,
            words[first_keyword(s, pos, words, from)],
        ),
        forall|i: int|
            from <= i < first_keyword(s, pos, words, from) ==> !keyword_at(s, pos, #[trigger] words[i]),
    decreases words.len() - from,
{
    if from < words.len() && !keyword_at(s, pos, words[from]) {
        lemma_first_keyword(s, pos, words, from + 1);
    }
}

/// An operator of `kind` at `pos`, in any letter case: the first of the
/// family that stands there. The value is the text as written.
pub open spec fn spec_operator(s: Seq<char>, pos: int, kind: OperatorKind) -> Parsed<Seq<char>> {
    let words = operators(kind);
    let found = first_keyword(s, pos, words, 0);
    if found < words.len() {
        Ok((pos + words[found].len(), s.subrange(pos, pos + words[found].len())))
    } else {
        Err(grammar_error(GrammarError::ExpectedOperator, pos))
    }
}

/// An operator that matches ends inside the input, at or after `pos`.
pub proof fn lemma_operator_end(s: Seq<char>, pos: int, kind: OperatorKind)
    ensures
        spec_operator(s, pos, kind) matches Ok((end, _)) ==> 0 <= pos <= end <= s.len(),
{
    lemma_first_keyword(s, pos, operators(kind), 0);
}

/// The number of operators of a family.
pub fn operator_count(kind: OperatorKind) -> (n: usize)
    ensures
        n == operators(kind).len(),
{
    match kind {
        OperatorKind::UnaryTest => 9,
        OperatorKind::BinaryTest => 21,
        OperatorKind::Not => 1,
        OperatorKind::Logical => 2,
    }
}

/// The operator of a family at index `i`.
pub fn operator_word(kind: OperatorKind, i: usize) -> (word: &'static str)
    requires
        i < operators(kind).len(),
    ensures
        word@ == operators(kind)[i as int],
{
    match kind {
        OperatorKind::UnaryTest => match i {
            0 => "EXISTS",
            1 => "IS_ABSOLUTE",
            2 => "IS_DIRECTORY",
            3 => "IS_SYMLINK",
            4 => "COMMAND",
            5 => "DEFINED",
            6 => "POLICY",
            7 => "TEST",
            _ => "TARGET",
        },
        OperatorKind::BinaryTest => match i {
            0 => "EQUAL",
            1 => "LESS_EQUAL",
            2 => "LESS",
            3 => "GREATER_EQUAL",
            4 => "GREATER",
            5 => "STREQUAL",
            6 => "STRLESS_EQUAL",
            7 => "STRLESS",
            8 => "STRGREATER_EQUAL",
            9 => "STRGREATER",
            10 => "VERSION_EQUAL",
            11 => "VERSION_LESS_EQUAL",
            12 => "VERSION_LESS",
            13 => "VERSION_GREATER_EQUAL",
            14 => "VERSION_GREATER",
            15 => "PATH_EQUAL",
            16 => "MATCHES",
            17 => "INLIST",
            18 => "IN_LIST",
            19 => "NOTINLIST",
            _ => "NOT_IN_LIST",
        },
        OperatorKind::Not => "NOT",
        OperatorKind::Logical => match i {
            0 => "AND",
            _ => "OR",
        },
    }
}

/// Parses an operator of `kind` at `pos` and returns it as written.
pub fn operator(input: &[char], pos: usize, kind: OperatorKind) -> (r: Result<
    (usize, String),
    ParseError,
>)
    ensures
        agrees(r, spec_operator(input@, pos as int, kind)),
        r matches Ok((end, _)) ==> pos <= end <= input.len(),
{
    let n = operator_count(kind);
    let mut i: usize = 0;
    while i < n
        invariant
            i <= n,
            n == operators(kind).len(),
            first_keyword(input@, pos as int, operators(kind), 0) == first_keyword(
                input@,
                pos as int,
                operators(kind),
                i as int,
            ),
        decreases n - i,
    {
        let word = operator_word(kind, i);
        if has_keyword(input, pos, word) {
            let end = pos + word.unicode_len();
            return Ok((end, string_from(input, pos, end)));
        }
        i += 1;
    }
    Err(ParseError::grammar(GrammarError::ExpectedOperator, pos))
}

} // verus!
