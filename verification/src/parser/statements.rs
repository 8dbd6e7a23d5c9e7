//! Statements: commands, comments, line breaks and blocks; and documents.
use vstd::prelude::*;
use vstd::string::StringExecFns;
use crate::parser::args::{agrees_values, cmake_args, lemma_args_consume, spec_cmake_args};
use crate::parser::error::{
    advances, agrees, consumes, either, grammar_error, map_parsed, or_else, with_context,
    GrammarError, ParseError, Parsed, Rule,
};
use crate::parser::lexer::{
    cmake_command_name, cmake_comment, expect_char, expect_keyword, fold_case, has_keyword,
    keyword_at, lemma_run_end, run_end, same_word, scan_run, spec_cmake_command_name,
    spec_cmake_comment, spec_expect_char, spec_expect_keyword, CharClass,
};
use crate::parser::parse_condition::{
    cmake_condition, lemma_condition_consumes, spec_cmake_condition,
};
use crate::parser::types::{
    if_bases_view, statements_view, CMakeBlockStatement, CMakeCommand,
    CMakeCommandGroup, CMakeCondition, CMakeDocument, CMakeForEachStatement,
    CMakeFunctionStatement, CMakeIfBase, CMakeIfStatement, CMakeMacroStatement, CMakeStatement,
    CMakeValue, Command, CommandGroup, Condition, Document, IfBase, Statement, Value,
};

verus! {

/// The words that open, continue and close blocks. None of them is a command.
pub open spec fn reserved_words() -> Seq<Seq<char>> {
    seq![
        "if"@,
        "elseif"@,
        "else"@,
        "endif"@,
        "foreach"@,
        "endforeach"@,
        "function"@,
        "endfunction"@,
        "macro"@,
        "endmacro"@,
        "block"@,
        "endblock"@,
    ]
}

/// `name` is a reserved word, in any letter case.
pub open spec fn is_reserved_word(name: Seq<char>) -> bool {
    exists|i: int| 0 <= i < reserved_words().len() && same_word(name, #[trigger] reserved_words()[i])
}

/// A command at `pos`: a name that is no reserved word, blanks, arguments.
pub open spec fn spec_cmake_command(s: Seq<char>, pos: int) -> Parsed<Command> {
    match spec_cmake_command_name(s, pos) {
        Err(e) => Err(e),
        Ok((name_end, name)) => if is_reserved_word(name) {
            Err(grammar_error(GrammarError::ReservedWord, name_end))
        } else {
            match spec_cmake_args(s, run_end(s, name_end, CharClass::Space)) {
                Err(e) => Err(e),
                Ok((end, args)) => Ok((end, Command { name, args })),
            }
        },
    }
}

/// A keyword with its arguments at `pos`: the keyword in any letter case,
/// blanks, arguments. The value is the arguments.
pub open spec fn spec_skip_empty_command(s: Seq<char>, pos: int, word: Seq<char>) -> Parsed<
    Seq<Value>,
> {
    match spec_expect_keyword(s, pos, word) {
        Err(e) => Err(e),
        Ok(word_end) => spec_cmake_args(s, run_end(s, word_end, CharClass::Space)),
    }
}

/// The head of an `if` or `elseif` clause at `pos`: the keyword, `(`, a
/// condition, `)`, with white space after the keyword and around the condition.
pub open spec fn spec_condition_clause(s: Seq<char>, pos: int, word: Seq<char>) -> Parsed<
    Condition,
> {
    match spec_expect_keyword(s, pos, word) {
        Err(e) => Err(e),
        Ok(word_end) => match spec_expect_char(
            s,
            run_end(s, word_end, CharClass::Multispace),
            '(',
        ) {
            Err(e) => Err(e),
            Ok(inside) => match spec_cmake_condition(
                s,
                run_end(s, inside, CharClass::Multispace),
            ) {
                Err(e) => Err(e),
                Ok((condition_end, condition)) => match spec_expect_char(
                    s,
                    run_end(s, condition_end, CharClass::Multispace),
                    ')',
                ) {
                    Err(e) => Err(e),
                    Ok(end) => Ok((end, condition)),
                },
            },
        },
    }
}

/// A line break at `pos`, with the blanks that follow it.
pub open spec fn spec_newline(s: Seq<char>, pos: int) -> Parsed<Statement> {
    match spec_expect_char(s, pos, '\n') {
        Err(e) => Err(e),
        Ok(end) => Ok((run_end(s, end, CharClass::Space), Statement::Newline)),
    }
}

/// An `elseif` clause at `pos`: its head and the statements it guards.
pub open spec fn spec_cmake_else_if_block(s: Seq<char>, pos: int) -> Parsed<IfBase>
    decreases s.len() - pos, 1int,
{
    match spec_condition_clause(s, pos, "elseif"@) {
        Err(e) => Err(e),
        Ok((head_end, condition)) => {
            proof {
                lemma_condition_clause_consumes(s, pos, "elseif"@);
            }
            let (end, body) = spec_parse_statement_list(s, head_end);
            Ok((end, IfBase { condition, body }))
        },
    }
}

/// The `elseif` clauses that follow one another from `pos`, each with blanks
/// around it, added to `found`.
pub open spec fn spec_else_if_blocks(s: Seq<char>, pos: int, found: Seq<IfBase>) -> (
    int,
    Seq<IfBase>,
)
    decreases s.len() - pos, 3int,
{
    proof {
        lemma_run_end(s, pos, CharClass::Space);
    }
    match spec_cmake_else_if_block(s, run_end(s, pos, CharClass::Space)) {
        Err(_) => (pos, found),
        Ok((clause_end, clause)) => {
            let next = run_end(s, clause_end, CharClass::Space);
            if pos < next <= s.len() {
                spec_else_if_blocks(s, next, found.push(clause))
            } else {
                (pos, found)
            }
        },
    }
}

/// The `else` clause at `pos`, if one stands there: blanks, `else` with its
/// arguments, the statements of the body, blanks.
pub open spec fn spec_else_block(s: Seq<char>, pos: int) -> (int, Option<Seq<Statement>>)
    decreases s.len() - pos, 3int,
{
    proof {
        lemma_run_end(s, pos, CharClass::Space);
    }
    match spec_skip_empty_command(s, run_end(s, pos, CharClass::Space), "else"@) {
        Err(_) => (pos, None),
        Ok((clause_end, _)) => {
            proof {
                lemma_skip_empty_command_consumes(s, run_end(s, pos, CharClass::Space), "else"@);
            }
            let (body_end, body) = spec_parse_statement_list(s, clause_end);
            (run_end(s, body_end, CharClass::Space), Some(body))
        },
    }
}

/// An `if` block at `pos`: the `if` clause and its body, the `elseif`
/// clauses, the `else` clause if there is one, and `endif` with its arguments.
pub open spec fn spec_cmake_if_group(s: Seq<char>, pos: int) -> Parsed<Statement>
    decreases s.len() - pos, 1int,
{
    match with_context(Rule::IfCondition, pos, spec_condition_clause(s, pos, "if"@)) {
        Err(e) => Err(e),
        Ok((head_end, condition)) => {
            proof {
                lemma_condition_clause_consumes(s, pos, "if"@);
            }
            let (body_end, body) = spec_parse_statement_list(s, head_end);
            let (else_ifs_end, else_ifs) = if pos < body_end <= s.len() {
                spec_else_if_blocks(s, body_end, Seq::empty())
            } else {
                (body_end, Seq::empty())
            };
            let (else_end, else_body) = if pos < else_ifs_end <= s.len() {
                spec_else_block(s, else_ifs_end)
            } else {
                (else_ifs_end, None)
            };
            match with_context(
                Rule::EndIf,
                else_end,
                spec_skip_empty_command(s, else_end, "endif"@),
            ) {
                Err(e) => Err(e),
                Ok((end, _)) => Ok(
                    (end, Statement::If { base: IfBase { condition, body }, else_ifs, else_body }),
                ),
            }
        },
    }
}

/// A block at `pos` that `word` opens and `end` followed by `word` closes:
/// the opening keyword with its arguments, the statements of the body, the
/// closing keyword with its arguments.
pub open spec fn spec_cmake_clause_body_block(s: Seq<char>, pos: int, word: Seq<char>) -> Parsed<
    CommandGroup,
>
    decreases s.len() - pos, 1int,
{
    match spec_skip_empty_command(s, pos, word) {
        Err(e) => Err(e),
        Ok((clause_end, clause)) => {
            proof {
                lemma_skip_empty_command_consumes(s, pos, word);
            }
            let (body_end, body) = spec_parse_statement_list(s, clause_end);
            match spec_skip_empty_command(s, body_end, "end"@ + word) {
                Err(e) => Err(e),
                Ok((end, end_clause)) => Ok((end, CommandGroup { clause, body, end_clause })),
            }
        },
    }
}

/// A statement at `pos`: a command, else a comment, else a line break, else
/// an `if`, `foreach`, `function`, `macro` or `block` block.
pub open spec fn spec_cmake_statement(s: Seq<char>, pos: int) -> Parsed<Statement>
    decreases s.len() - pos, 2int,
{
    or_else(
        with_context(
            Rule::Command,
            pos,
            map_parsed(spec_cmake_command(s, pos), |c: Command| Statement::Command(c)),
        ),
        or_else(
            with_context(
                Rule::Comment,
                pos,
                map_parsed(spec_cmake_comment(s, pos), |text: Seq<char>| Statement::Comment(text)),
            ),
            or_else(
                with_context(Rule::Newline, pos, spec_newline(s, pos)),
                or_else(
                    with_context(Rule::If, pos, spec_cmake_if_group(s, pos)),
                    or_else(
                        with_context(
                            Rule::Foreach,
                            pos,
                            map_parsed(
                                spec_cmake_clause_body_block(s, pos, "foreach"@),
                                |group: CommandGroup| Statement::For { group },
                            ),
                        ),
                        or_else(
                            with_context(
                                Rule::Function,
                                pos,
                                map_parsed(
                                    spec_cmake_clause_body_block(s, pos, "function"@),
                                    |group: CommandGroup| Statement::Function { group },
                                ),
                            ),
                            or_else(
                                with_context(
                                    Rule::Macro,
                                    pos,
                                    map_parsed(
                                        spec_cmake_clause_body_block(s, pos, "macro"@),
                                        |group: CommandGroup| Statement::Macro { group },
                                    ),
                                ),
                                with_context(
                                    Rule::Block,
                                    pos,
                                    map_parsed(
                                        spec_cmake_clause_body_block(s, pos, "block"@),
                                        |group: CommandGroup| Statement::Block { group },
                                    ),
                                ),
                            ),
                        ),
                    ),
                ),
            ),
        ),
    )
}

/// The statements that follow one another from `pos`, each with blanks
/// around it, added to `found`. Blanks that no statement follows are left.
pub open spec fn spec_statements_more(s: Seq<char>, pos: int, found: Seq<Statement>) -> (
    int,
    Seq<Statement>,
)
    decreases s.len() - pos, 3int,
{
    proof {
        lemma_run_end(s, pos, CharClass::Space);
    }
    match spec_cmake_statement(s, run_end(s, pos, CharClass::Space)) {
        Err(_) => (pos, found),
        Ok((statement_end, statement)) => {
            let next = run_end(s, statement_end, CharClass::Space);
            if pos < next <= s.len() {
                spec_statements_more(s, next, found.push(statement))
            } else {
                (pos, found)
            }
        },
    }
}

/// The statements of a body at `pos`, possibly none. It matches at every
/// position.
pub open spec fn spec_parse_statement_list(s: Seq<char>, pos: int) -> (int, Seq<Statement>)
    decreases s.len() - pos, 4int,
{
    spec_statements_more(s, pos, Seq::empty())
}

/// The statements of a document from `pos` to the end of input, added to
/// `found`: a statement; then either white space up to the end of input, or
/// blanks and the statements that follow. Where a statement is missing after
/// the first, the error also names the input that is left over.
pub open spec fn spec_document_statements(s: Seq<char>, pos: int, found: Seq<Statement>) -> Parsed<
    Seq<Statement>,
>
    decreases s.len() - pos,
{
    match spec_cmake_statement(s, pos) {
        Err(e) => if found.len() == 0 {
            Err(e)
        } else {
            Err(
                either(
                    e,
                    grammar_error(
                        GrammarError::TrailingInput,
                        run_end(s, pos, CharClass::Multispace),
                    ),
                ),
            )
        },
        Ok((statement_end, statement)) => {
            let rest = run_end(s, statement_end, CharClass::Multispace);
            let next = run_end(s, statement_end, CharClass::Space);
            if rest >= s.len() {
                Ok((rest, found.push(statement)))
            } else if pos < next <= s.len() {
                spec_document_statements(s, next, found.push(statement))
            } else {
                Err(grammar_error(GrammarError::TrailingInput, rest))
            }
        },
    }
}

/// A document at `pos`: one statement or more, up to the end of input.
pub open spec fn spec_cmake_parser(s: Seq<char>, pos: int) -> Parsed<Document> {
    map_parsed(
        spec_document_statements(s, pos, Seq::empty()),
        |statements: Seq<Statement>| Document { statements },
    )
}

/// The view of a list with one more statement is the view of the list with
/// the view of the statement added.
pub proof fn lemma_statements_view_push(v: Seq<CMakeStatement>, st: CMakeStatement)
    ensures
        statements_view(v.push(st)) == statements_view(v).push(st@),
{
    assert(statements_view(v.push(st)) =~= statements_view(v).push(st@));
}

/// The view of a list with one more clause is the view of the list with the
/// view of the clause added.
pub proof fn lemma_if_bases_view_push(v: Seq<CMakeIfBase>, clause: CMakeIfBase)
    ensures
        if_bases_view(v.push(clause)) == if_bases_view(v).push(clause@),
{
    assert(if_bases_view(v.push(clause)) =~= if_bases_view(v).push(clause@));
}

/// The reserved word at index `i`.
fn reserved_word(i: usize) -> (word: &'static str)
    requires
        i < reserved_words().len(),
    ensures
        word@ == reserved_words()[i as int],
{
    match i {
        0 => "if",
        1 => "elseif",
        2 => "else",
        3 => "endif",
        4 => "foreach",
        5 => "endforeach",
        6 => "function",
        7 => "endfunction",
        8 => "macro",
        9 => "endmacro",
        10 => "block",
        _ => "endblock",
    }
}

/// Whether `input[from..to]` is a reserved word, in any letter case.
pub fn is_reserved(input: &[char], from: usize, to: usize) -> (b: bool)
    requires
        from <= to <= input.len(),
    ensures
        b == is_reserved_word(input@.subrange(from as int, to as int)),
{
    let ghost name = input@.subrange(from as int, to as int);
    let mut i: usize = 0;
    while i < 12
        invariant
            i <= 12,
            from <= to <= input.len(),
            name == input@.subrange(from as int, to as int),
            reserved_words().len() == 12,
            forall|j: int| 0 <= j < i ==> !same_word(name, #[trigger] reserved_words()[j]),
        decreases 12 - i,
    {
        let word = reserved_word(i);
        if word.unicode_len() == to - from && has_keyword(input, from, word) {
            proof {
                assert forall|k: int| 0 <= k < name.len() implies fold_case(#[trigger] name[k])
                    == fold_case(word@[k]) by {
                    assert(fold_case(input@[from + k]) == fold_case(word@[k]));
                }
                assert(same_word(name, reserved_words()[i as int]));
            }
            return true;
        }
        proof {
            if same_word(name, word@) {
                assert forall|k: int| 0 <= k < word@.len() implies fold_case(input@[from + k])
                    == fold_case(#[trigger] word@[k]) by {
                    assert(fold_case(name[k]) == fold_case(word@[k]));
                }
                assert(keyword_at(input@, from as int, word@));
            }
        }
        i += 1;
    }
    false
}

/// Parses a command at `pos`.
pub fn cmake_command(input: &[char], pos: usize) -> (r: Result<(usize, CMakeCommand), ParseError>)
    ensures
        agrees(r, spec_cmake_command(input@, pos as int)),
        advances(r, pos, input.len()),
{
    match cmake_command_name(input, pos) {
        Err(e) => Err(e),
        Ok((name_end, name)) => {
            if is_reserved(input, pos, name_end) {
                return Err(ParseError::grammar(GrammarError::ReservedWord, name_end));
            }
            let start = scan_run(input, name_end, CharClass::Space);
            match cmake_args(input, start) {
                Err(e) => Err(e),
                Ok((end, args)) => Ok((end, CMakeCommand { name, args })),
            }
        },
    }
}

/// Parses the keyword `word` with its arguments at `pos` and returns the
/// arguments.
pub fn skip_empty_command(input: &[char], pos: usize, word: &str) -> (r: Result<
    (usize, Vec<CMakeValue>),
    ParseError,
>)
    ensures
        agrees_values(r, spec_skip_empty_command(input@, pos as int, word@)),
        r matches Ok((end, _)) ==> pos < end <= input.len(),
{
    match expect_keyword(input, pos, word) {
        Err(e) => Err(e),
        Ok(word_end) => {
            let start = scan_run(input, word_end, CharClass::Space);
            cmake_args(input, start)
        },
    }
}

/// Parses the head of an `if` or `elseif` clause at `pos`.
fn condition_clause(input: &[char], pos: usize, word: &str) -> (r: Result<
    (usize, CMakeCondition),
    ParseError,
>)
    ensures
        agrees(r, spec_condition_clause(input@, pos as int, word@)),
        advances(r, pos, input.len()),
{
    match expect_keyword(input, pos, word) {
        Err(e) => Err(e),
        Ok(word_end) => {
            let open = scan_run(input, word_end, CharClass::Multispace);
            match expect_char(input, open, '(') {
                Err(e) => Err(e),
                Ok(inside) => {
                    let start = scan_run(input, inside, CharClass::Multispace);
                    match cmake_condition(input, start) {
                        Err(e) => Err(e),
                        Ok((condition_end, condition)) => {
                            let close = scan_run(input, condition_end, CharClass::Multispace);
                            match expect_char(input, close, ')') {
                                Err(e) => Err(e),
                                Ok(end) => Ok((end, condition)),
                            }
                        },
                    }
                },
            }
        },
    }
}

/// Parses a line break at `pos`, with the blanks that follow it.
fn newline(input: &[char], pos: usize) -> (r: Result<(usize, CMakeStatement), ParseError>)
    ensures
        agrees(r, spec_newline(input@, pos as int)),
        advances(r, pos, input.len()),
{
    match expect_char(input, pos, '\n') {
        Err(e) => Err(e),
        Ok(end) => Ok((scan_run(input, end, CharClass::Space), CMakeStatement::Newline)),
    }
}

/// Parses an `elseif` clause at `pos`.
pub fn cmake_else_if_block(input: &[char], pos: usize) -> (r: Result<
    (usize, CMakeIfBase),
    ParseError,
>)
    ensures
        agrees(r, spec_cmake_else_if_block(input@, pos as int)),
        advances(r, pos, input.len()),
    decreases input.len() - pos, 1int,
{
    match condition_clause(input, pos, "elseif") {
        Err(e) => Err(e),
        Ok((head_end, condition)) => {
            let (end, body) = statement_list(input, head_end);
            Ok((end, CMakeIfBase { condition, body }))
        },
    }
}

/// Parses the `elseif` clauses that follow one another from `pos`.
fn else_if_blocks(input: &[char], pos: usize) -> (r: (usize, Vec<CMakeIfBase>))
    ensures
        (r.0 as int, if_bases_view(r.1@)) == spec_else_if_blocks(
            input@,
            pos as int,
            Seq::empty(),
        ),
        pos <= r.0,
        pos <= input.len() ==> r.0 <= input.len(),
    decreases input.len() - pos, 3int,
{
    let mut end: usize = pos;
    let mut found: Vec<CMakeIfBase> = Vec::new();
    assert(if_bases_view(found@) =~= Seq::<IfBase>::empty());
    loop
        invariant
            pos <= end,
            pos <= input.len() ==> end <= input.len(),
            spec_else_if_blocks(input@, end as int, if_bases_view(found@)) == spec_else_if_blocks(
                input@,
                pos as int,
                Seq::empty(),
            ),
        ensures
            pos <= end,
            pos <= input.len() ==> end <= input.len(),
            (end as int, if_bases_view(found@)) == spec_else_if_blocks(
                input@,
                pos as int,
                Seq::empty(),
            ),
        decreases input.len() - end,
    {
        let start = scan_run(input, end, CharClass::Space);
        match cmake_else_if_block(input, start) {
            Err(_) => {
                break ;
            },
            Ok((clause_end, clause)) => {
                proof {
                    lemma_if_bases_view_push(found@, clause);
                }
                found.push(clause);
                end = scan_run(input, clause_end, CharClass::Space);
            },
        }
    }
    (end, found)
}

/// An executable `else` body is the one that the specification names.
pub open spec fn agrees_else(
    r: (usize, Option<Vec<CMakeStatement>>),
    s: (int, Option<Seq<Statement>>),
) -> bool {
    &&& r.0 == s.0
    &&& match r.1 {
        Some(body) => s.1 == Some(statements_view(body@)),
        None => s.1 is None,
    }
}

/// Parses the `else` clause at `pos`, if one stands there.
fn else_block(input: &[char], pos: usize) -> (r: (usize, Option<Vec<CMakeStatement>>))
    ensures
        agrees_else(r, spec_else_block(input@, pos as int)),
        pos <= r.0,
        pos <= input.len() ==> r.0 <= input.len(),
    decreases input.len() - pos, 3int,
{
    let start = scan_run(input, pos, CharClass::Space);
    match skip_empty_command(input, start, "else") {
        Err(_) => (pos, None),
        Ok((clause_end, _)) => {
            let (body_end, body) = statement_list(input, clause_end);
            (scan_run(input, body_end, CharClass::Space), Some(body))
        },
    }
}

/// Parses an `if` block at `pos`.
pub fn cmake_if_group(input: &[char], pos: usize) -> (r: Result<
    (usize, CMakeStatement),
    ParseError,
>)
    ensures
        agrees(r, spec_cmake_if_group(input@, pos as int)),
        advances(r, pos, input.len()),
    decreases input.len() - pos, 1int,
{
    match condition_clause(input, pos, "if") {
        Err(e) => Err(e.context(Rule::IfCondition, pos)),
        Ok((head_end, condition)) => {
            let (body_end, body) = statement_list(input, head_end);
            let (else_ifs_end, else_ifs) = else_if_blocks(input, body_end);
            let (else_end, else_body) = else_block(input, else_ifs_end);
            match skip_empty_command(input, else_end, "endif") {
                Err(e) => Err(e.context(Rule::EndIf, else_end)),
                Ok((end, _)) => Ok(
                    (
                        end,
                        CMakeStatement::If(
                            CMakeIfStatement {
                                base: CMakeIfBase { condition, body },
                                else_ifs,
                                else_body,
                            },
                        ),
                    ),
                ),
            }
        },
    }
}

/// Parses the block at `pos` that `keyword` opens and `end` followed by
/// `keyword` closes.
pub fn cmake_clause_body_block(input: &[char], pos: usize, keyword: &str) -> (r: Result<
    (usize, CMakeCommandGroup),
    ParseError,
>)
    ensures
        agrees(r, spec_cmake_clause_body_block(input@, pos as int, keyword@)),
        advances(r, pos, input.len()),
    decreases input.len() - pos, 1int,
{
    match skip_empty_command(input, pos, keyword) {
        Err(e) => Err(e),
        Ok((clause_end, clause)) => {
            let (body_end, body) = statement_list(input, clause_end);
            let keyword_end = String::from_str("end").concat(keyword);
            match skip_empty_command(input, body_end, keyword_end.as_str()) {
                Err(e) => Err(e),
                Ok((end, end_clause)) => Ok((end, CMakeCommandGroup { clause, body, end_clause })),
            }
        },
    }
}

/// Parses a `foreach` block at `pos`.
pub fn cmake_foreach_group(input: &[char], pos: usize) -> (r: Result<
    (usize, CMakeStatement),
    ParseError,
>)
    ensures
        agrees(
            r,
            map_parsed(
                spec_cmake_clause_body_block(input@, pos as int, "foreach"@),
                |group: CommandGroup| Statement::For { group },
            ),
        ),
        advances(r, pos, input.len()),
    decreases input.len() - pos, 2int,
{
    match cmake_clause_body_block(input, pos, "foreach") {
        Err(e) => Err(e),
        Ok((end, group)) => Ok((end, CMakeStatement::For(CMakeForEachStatement { group }))),
    }
}

/// Parses a `function` block at `pos`.
pub fn cmake_function_group(input: &[char], pos: usize) -> (r: Result<
    (usize, CMakeStatement),
    ParseError,
>)
    ensures
        agrees(
            r,
            map_parsed(
                spec_cmake_clause_body_block(input@, pos as int, "function"@),
                |group: CommandGroup| Statement::Function { group },
            ),
        ),
        advances(r, pos, input.len()),
    decreases input.len() - pos, 2int,
{
    match cmake_clause_body_block(input, pos, "function") {
        Err(e) => Err(e),
        Ok((end, group)) => Ok((end, CMakeStatement::Function(CMakeFunctionStatement { group }))),
    }
}

/// Parses a `macro` block at `pos`.
pub fn cmake_macro_group(input: &[char], pos: usize) -> (r: Result<
    (usize, CMakeStatement),
    ParseError,
>)
    ensures
        agrees(
            r,
            map_parsed(
                spec_cmake_clause_body_block(input@, pos as int, "macro"@),
                |group: CommandGroup| Statement::Macro { group },
            ),
        ),
        advances(r, pos, input.len()),
    decreases input.len() - pos, 2int,
{
    match cmake_clause_body_block(input, pos, "macro") {
        Err(e) => Err(e),
        Ok((end, group)) => Ok((end, CMakeStatement::Macro(CMakeMacroStatement { group }))),
    }
}

/// Parses a `block` block at `pos`.
pub fn cmake_block_group(input: &[char], pos: usize) -> (r: Result<
    (usize, CMakeStatement),
    ParseError,
>)
    ensures
        agrees(
            r,
            map_parsed(
                spec_cmake_clause_body_block(input@, pos as int, "block"@),
                |group: CommandGroup| Statement::Block { group },
            ),
        ),
        advances(r, pos, input.len()),
    decreases input.len() - pos, 2int,
{
    match cmake_clause_body_block(input, pos, "block") {
        Err(e) => Err(e),
        Ok((end, group)) => Ok((end, CMakeStatement::Block(CMakeBlockStatement { group }))),
    }
}

/// Parses a statement at `pos`.
pub fn cmake_statement(input: &[char], pos: usize) -> (r: Result<
    (usize, CMakeStatement),
    ParseError,
>)
    ensures
        agrees(r, spec_cmake_statement(input@, pos as int)),
        advances(r, pos, input.len()),
    decreases input.len() - pos, 3int,
{
    let e1 = match cmake_command(input, pos) {
        Ok((end, command)) => {
            return Ok((end, CMakeStatement::Command(command)));
        },
        Err(e) => e.context(Rule::Command, pos),
    };
    let e2 = match cmake_comment(input, pos) {
        Ok((end, text)) => {
            return Ok((end, CMakeStatement::Comment(text)));
        },
        Err(e) => e.context(Rule::Comment, pos),
    };
    let e3 = match newline(input, pos) {
        Ok(found) => {
            return Ok(found);
        },
        Err(e) => e.context(Rule::Newline, pos),
    };
    let e4 = match cmake_if_group(input, pos) {
        Ok(found) => {
            return Ok(found);
        },
        Err(e) => e.context(Rule::If, pos),
    };
    let e5 = match cmake_foreach_group(input, pos) {
        Ok(found) => {
            return Ok(found);
        },
        Err(e) => e.context(Rule::Foreach, pos),
    };
    let e6 = match cmake_function_group(input, pos) {
        Ok(found) => {
            return Ok(found);
        },
        Err(e) => e.context(Rule::Function, pos),
    };
    let e7 = match cmake_macro_group(input, pos) {
        Ok(found) => {
            return Ok(found);
        },
        Err(e) => e.context(Rule::Macro, pos),
    };
    match cmake_block_group(input, pos) {
        Ok(found) => Ok(found),
        Err(e) => Err(
            e1.or(e2.or(e3.or(e4.or(e5.or(e6.or(e7.or(e.context(Rule::Block, pos)))))))),
        ),
    }
}

/// Parses the statements of a body at `pos`.
fn statement_list(input: &[char], pos: usize) -> (r: (usize, Vec<CMakeStatement>))
    ensures
        (r.0 as int, statements_view(r.1@)) == spec_parse_statement_list(input@, pos as int),
        pos <= r.0,
        pos <= input.len() ==> r.0 <= input.len(),
    decreases input.len() - pos, 4int,
{
    let mut end: usize = pos;
    let mut found: Vec<CMakeStatement> = Vec::new();
    assert(statements_view(found@) =~= Seq::<Statement>::empty());
    loop
        invariant
            pos <= end,
            pos <= input.len() ==> end <= input.len(),
            spec_statements_more(input@, end as int, statements_view(found@))
                == spec_statements_more(input@, pos as int, Seq::empty()),
        ensures
            pos <= end,
            pos <= input.len() ==> end <= input.len(),
            (end as int, statements_view(found@)) == spec_statements_more(
                input@,
                pos as int,
                Seq::empty(),
            ),
        decreases input.len() - end,
    {
        let start = scan_run(input, end, CharClass::Space);
        match cmake_statement(input, start) {
            Err(_) => {
                break ;
            },
            Ok((statement_end, statement)) => {
                proof {
                    lemma_statements_view_push(found@, statement);
                }
                found.push(statement);
                end = scan_run(input, statement_end, CharClass::Space);
            },
        }
    }
    (end, found)
}

/// An executable list of statements is the one that the specification names.
pub open spec fn agrees_statements(
    r: Result<(usize, Vec<CMakeStatement>), ParseError>,
    s: Parsed<Seq<Statement>>,
) -> bool {
    match r {
        Ok((end, statements)) => s == Ok::<(int, Seq<Statement>), ParseError>(
            (end as int, statements_view(statements@)),
        ),
        Err(e) => s == Err::<(int, Seq<Statement>), ParseError>(e),
    }
}

/// Parses the statements of a body at `pos`. Every position has such a
/// list, possibly empty.
pub fn parse_statement_list(input: &[char], pos: usize) -> (r: Result<
    (usize, Vec<CMakeStatement>),
    ParseError,
>)
    ensures
        r is Ok,
        agrees_statements(r, Ok(spec_parse_statement_list(input@, pos as int))),
        r matches Ok((end, _)) ==> pos <= end && (pos <= input.len() ==> end <= input.len()),
{
    Ok(statement_list(input, pos))
}

/// Parses a document at `pos`: one statement or more, up to the end of input.
pub fn cmake_parser(input: &[char], pos: usize) -> (r: Result<(usize, CMakeDocument), ParseError>)
    ensures
        agrees(r, spec_cmake_parser(input@, pos as int)),
        r matches Ok((end, _)) ==> pos < end && end == input.len(),
{
    let mut at: usize = pos;
    let mut found: Vec<CMakeStatement> = Vec::new();
    assert(statements_view(found@) =~= Seq::<Statement>::empty());
    loop
        invariant
            pos <= at,
            found@.len() > 0 ==> pos < at <= input.len(),
            found@.len() == 0 ==> at == pos,
            spec_document_statements(input@, at as int, statements_view(found@))
                == spec_document_statements(input@, pos as int, Seq::empty()),
        decreases input.len() - at,
    {
        match cmake_statement(input, at) {
            Err(e) => {
                if found.len() == 0 {
                    return Err(e);
                }
                let rest = scan_run(input, at, CharClass::Multispace);
                return Err(e.or(ParseError::grammar(GrammarError::TrailingInput, rest)));
            },
            Ok((statement_end, statement)) => {
                proof {
                    lemma_statements_view_push(found@, statement);
                }
                found.push(statement);
                let rest = scan_run(input, statement_end, CharClass::Multispace);
                if rest >= input.len() {
                    return Ok((rest, CMakeDocument { statements: found }));
                }
                at = scan_run(input, statement_end, CharClass::Space);
            },
        }
    }
}

/// No command is named by a reserved word: where a reserved word stands,
/// in any letter case, the command rule fails, and a statement that is a
/// command has another name.
pub proof fn lemma_reserved_word_is_no_command(s: Seq<char>, pos: int)
    ensures
        spec_cmake_command(s, pos) matches Ok((_, command)) ==> !is_reserved_word(command.name),
        spec_cmake_statement(s, pos) matches Ok((_, Statement::Command(command)))
            ==> !is_reserved_word(command.name),
        spec_cmake_command_name(s, pos) matches Ok((_, name)) && is_reserved_word(name)
            ==> spec_cmake_command(s, pos) is Err,
{
}

/// A command that matches is not empty and ends inside the input.
pub proof fn lemma_command_consumes(s: Seq<char>, pos: int)
    ensures
        consumes(spec_cmake_command(s, pos), pos, s.len()),
{
    lemma_run_end(s, pos, CharClass::Name);
    let name_end = run_end(s, pos, CharClass::Name);
    lemma_run_end(s, name_end, CharClass::Space);
    lemma_args_consume(s, run_end(s, name_end, CharClass::Space));
}

/// A keyword with its arguments that matches is not empty and ends inside
/// the input.
pub proof fn lemma_skip_empty_command_consumes(s: Seq<char>, pos: int, word: Seq<char>)
    ensures
        consumes(spec_skip_empty_command(s, pos, word), pos, s.len()),
{
    if spec_expect_keyword(s, pos, word) is Ok {
        let word_end = pos + word.len();
        lemma_run_end(s, word_end, CharClass::Space);
        lemma_args_consume(s, run_end(s, word_end, CharClass::Space));
    }
}

/// The head of a clause that matches is not empty and ends inside the input.
pub proof fn lemma_condition_clause_consumes(s: Seq<char>, pos: int, word: Seq<char>)
    ensures
        consumes(spec_condition_clause(s, pos, word), pos, s.len()),
{
    if spec_expect_keyword(s, pos, word) is Ok {
        let word_end = pos + word.len();
        lemma_run_end(s, word_end, CharClass::Multispace);
        let open = run_end(s, word_end, CharClass::Multispace);
        if spec_expect_char(s, open, '(') is Ok {
            lemma_run_end(s, open + 1, CharClass::Multispace);
            let start = run_end(s, open + 1, CharClass::Multispace);
            lemma_condition_consumes(s, start);
            match spec_cmake_condition(s, start) {
                Err(_) => {},
                Ok((condition_end, _)) => {
                    lemma_run_end(s, condition_end, CharClass::Multispace);
                },
            }
        }
    }
}

/// An `elseif` clause that matches is not empty and ends inside the input.
proof fn lemma_else_if_block_consumes(s: Seq<char>, pos: int)
    ensures
        consumes(spec_cmake_else_if_block(s, pos), pos, s.len()),
    decreases s.len() - pos, 1int,
{
    lemma_condition_clause_consumes(s, pos, "elseif"@);
    match spec_condition_clause(s, pos, "elseif"@) {
        Err(_) => {},
        Ok((head_end, _)) => {
            lemma_statements_more_bounds(s, head_end, Seq::empty());
        },
    }
}

/// The `elseif` clauses that follow one another end inside the input, at or
/// after the position they are looked for from.
proof fn lemma_else_if_blocks_bounds(s: Seq<char>, pos: int, found: Seq<IfBase>)
    requires
        0 <= pos <= s.len(),
    ensures
        pos <= spec_else_if_blocks(s, pos, found).0 <= s.len(),
    decreases s.len() - pos, 3int,
{
    lemma_run_end(s, pos, CharClass::Space);
    let start = run_end(s, pos, CharClass::Space);
    lemma_else_if_block_consumes(s, start);
    match spec_cmake_else_if_block(s, start) {
        Err(_) => {},
        Ok((clause_end, clause)) => {
            lemma_run_end(s, clause_end, CharClass::Space);
            lemma_else_if_blocks_bounds(
                s,
                run_end(s, clause_end, CharClass::Space),
                found.push(clause),
            );
        },
    }
}

/// The `else` clause ends inside the input, at or after the position it is
/// looked for from.
proof fn lemma_else_block_bounds(s: Seq<char>, pos: int)
    requires
        0 <= pos <= s.len(),
    ensures
        pos <= spec_else_block(s, pos).0 <= s.len(),
    decreases s.len() - pos, 3int,
{
    lemma_run_end(s, pos, CharClass::Space);
    let start = run_end(s, pos, CharClass::Space);
    lemma_skip_empty_command_consumes(s, start, "else"@);
    match spec_skip_empty_command(s, start, "else"@) {
        Err(_) => {},
        Ok((clause_end, _)) => {
            lemma_statements_more_bounds(s, clause_end, Seq::empty());
            lemma_run_end(s, spec_parse_statement_list(s, clause_end).0, CharClass::Space);
        },
    }
}

/// An `if` block that matches is not empty and ends inside the input.
proof fn lemma_if_group_consumes(s: Seq<char>, pos: int)
    ensures
        consumes(spec_cmake_if_group(s, pos), pos, s.len()),
    decreases s.len() - pos, 1int,
{
    lemma_condition_clause_consumes(s, pos, "if"@);
    match spec_condition_clause(s, pos, "if"@) {
        Err(_) => {},
        Ok((head_end, _)) => {
            lemma_statements_more_bounds(s, head_end, Seq::empty());
            let body_end = spec_parse_statement_list(s, head_end).0;
            lemma_else_if_blocks_bounds(s, body_end, Seq::empty());
            let else_ifs_end = spec_else_if_blocks(s, body_end, Seq::empty()).0;
            lemma_else_block_bounds(s, else_ifs_end);
            lemma_skip_empty_command_consumes(s, spec_else_block(s, else_ifs_end).0, "endif"@);
        },
    }
}

/// A block that matches is not empty and ends inside the input.
proof fn lemma_clause_body_block_consumes(s: Seq<char>, pos: int, word: Seq<char>)
    ensures
        consumes(spec_cmake_clause_body_block(s, pos, word), pos, s.len()),
    decreases s.len() - pos, 1int,
{
    lemma_skip_empty_command_consumes(s, pos, word);
    match spec_skip_empty_command(s, pos, word) {
        Err(_) => {},
        Ok((clause_end, _)) => {
            lemma_statements_more_bounds(s, clause_end, Seq::empty());
            lemma_skip_empty_command_consumes(
                s,
                spec_parse_statement_list(s, clause_end).0,
                "end"@ + word,
            );
        },
    }
}

/// A statement that matches is not empty and ends inside the input.
pub proof fn lemma_statement_consumes(s: Seq<char>, pos: int)
    ensures
        consumes(spec_cmake_statement(s, pos), pos, s.len()),
    decreases s.len() - pos, 2int,
{
    lemma_command_consumes(s, pos);
    lemma_run_end(s, pos + 1, CharClass::CommentText);
    lemma_run_end(s, pos + 1, CharClass::Space);
    lemma_if_group_consumes(s, pos);
    lemma_clause_body_block_consumes(s, pos, "foreach"@);
    lemma_clause_body_block_consumes(s, pos, "function"@);
    lemma_clause_body_block_consumes(s, pos, "macro"@);
    lemma_clause_body_block_consumes(s, pos, "block"@);
}

/// The statements that follow one another end inside the input, at or
/// after the position they are looked for from.
pub proof fn lemma_statements_more_bounds(s: Seq<char>, pos: int, found: Seq<Statement>)
    requires
        0 <= pos <= s.len(),
    ensures
        pos <= spec_statements_more(s, pos, found).0 <= s.len(),
    decreases s.len() - pos, 3int,
{
    lemma_run_end(s, pos, CharClass::Space);
    let start = run_end(s, pos, CharClass::Space);
    lemma_statement_consumes(s, start);
    match spec_cmake_statement(s, start) {
        Err(_) => {},
        Ok((statement_end, statement)) => {
            lemma_run_end(s, statement_end, CharClass::Space);
            lemma_statements_more_bounds(
                s,
                run_end(s, statement_end, CharClass::Space),
                found.push(statement),
            );
        },
    }
}

/// A document that parses takes up the whole input: it ends where the
/// input ends, so nothing is left over.
pub proof fn lemma_document_is_whole_input(s: Seq<char>, pos: int, found: Seq<Statement>)
    ensures
        spec_document_statements(s, pos, found) matches Ok((end, _)) ==> pos < end == s.len(),
    decreases s.len() - pos,
{
    lemma_statement_consumes(s, pos);
    match spec_cmake_statement(s, pos) {
        Err(_) => {},
        Ok((statement_end, statement)) => {
            lemma_run_end(s, statement_end, CharClass::Multispace);
            lemma_run_end(s, statement_end, CharClass::Space);
            let rest = run_end(s, statement_end, CharClass::Multispace);
            let next = run_end(s, statement_end, CharClass::Space);
            if rest >= s.len() {
            } else if pos < next <= s.len() {
                lemma_document_is_whole_input(s, next, found.push(statement));
            }
        },
    }
}

} // verus!
