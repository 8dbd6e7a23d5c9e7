//! What holds of every tree that the parser builds.
use vstd::prelude::*;
use crate::parser::args::{
    spec_arg_element, spec_arg_groups_more, spec_arg_list_more, spec_cmake_arg_list_inner,
    spec_cmake_arg_parenthesis, spec_cmake_args,
};
use crate::parser::lexer::{
    in_class, is_specifier_char, lemma_keyword_is_same_word, lemma_run_end, run_end, same_word,
    spec_expect_char, spec_expect_keyword, spec_multispace1, CharClass,
};
use crate::parser::operators::{
    first_keyword, lemma_first_keyword, operators, spec_operator, OperatorKind,
};
use crate::parser::parse_condition::{
    spec_cmake_condition, spec_cmake_condition_binary_logical_operator,
    spec_cmake_condition_binary_test, spec_cmake_condition_comment,
    spec_cmake_condition_parentheses, spec_cmake_condition_unary_logical_operator,
    spec_cmake_condition_unary_test, spec_cmake_condition_value, spec_condition_operand,
    spec_prefixed_condition,
};
use crate::parser::statements::{
    is_reserved_word, lemma_condition_clause_consumes, lemma_skip_empty_command_consumes,
    spec_cmake_clause_body_block, spec_cmake_command,
    spec_cmake_else_if_block, spec_cmake_if_group, spec_cmake_parser, spec_cmake_statement,
    spec_condition_clause, spec_document_statements, spec_else_block, spec_else_if_blocks,
    spec_parse_statement_list, spec_skip_empty_command, spec_statements_more,
};
use crate::parser::types::{
    Command, CommandGroup, Condition, Document, IfBase, Statement, Value,
};
use crate::parser::values::{
    is_specifier, lemma_token_end_advances, spec_cmake_string_literal, spec_cmake_value,
};

verus! {

/// A value as the parser builds it: an argument specifier is not empty and
/// made of `A` to `Z`, `0` to `9` and `_` alone; a string literal is not
/// empty and holds some other character; a parenthesis is `(` or `)`.
pub open spec fn value_well_formed(v: Value) -> bool {
    match v {
        Value::ArgumentSpecifier(text) => text.len() > 0 && is_specifier(text),
        Value::StringLiteral(text) => text.len() > 0 && !is_specifier(text),
        Value::Parenthesis(text) => text == "("@ || text == ")"@,
        Value::QuotedString(_) => true,
        Value::Comment(_) => true,
    }
}

/// Every value of `values` is as the parser builds it.
pub open spec fn values_well_formed(values: Seq<Value>) -> bool {
    forall|i: int| 0 <= i < values.len() ==> value_well_formed(#[trigger] values[i])
}

/// `text` is an operator of `kind`, in some letter case.
pub open spec fn is_operator(text: Seq<char>, kind: OperatorKind) -> bool {
    exists|i: int| 0 <= i < operators(kind).len() && same_word(text, #[trigger] operators(kind)[i])
}

/// A condition as the parser builds it: each operator belongs to the family
/// of its node, the left side of a binary logical operator is none itself,
/// both sides of a binary test are values, and every value is well formed.
pub open spec fn condition_well_formed(c: Condition) -> bool
    decreases c,
{
    match c {
        Condition::Parentheses { value } => condition_well_formed(*value),
        Condition::UnaryTest { operator, value } => is_operator(operator, OperatorKind::UnaryTest)
            && condition_well_formed(*value),
        Condition::BinaryTest { operator, left, right } => {
            &&& is_operator(operator, OperatorKind::BinaryTest)
            &&& *left is Value
            &&& *right is Value
            &&& condition_well_formed(*left)
            &&& condition_well_formed(*right)
        },
        Condition::UnaryLogicalOperator { operator, value } => is_operator(
            operator,
            OperatorKind::Not,
        ) && condition_well_formed(*value),
        Condition::BinaryLogicalOperator { operator, left, right } => {
            &&& is_operator(operator, OperatorKind::Logical)
            &&& !(*left is BinaryLogicalOperator)
            &&& condition_well_formed(*left)
            &&& condition_well_formed(*right)
        },
        Condition::Comment { content, tail } => match tail {
            Some(t) => condition_well_formed(*t),
            None => true,
        },
        Condition::Value(v) => value_well_formed(v),
    }
}

/// A command as the parser builds it: its name is not empty, made of ASCII
/// letters, ASCII digits and underscores, and no reserved word; its
/// arguments are well formed.
pub open spec fn command_well_formed(c: Command) -> bool {
    &&& c.name.len() > 0
    &&& forall|i: int| 0 <= i < c.name.len() ==> in_class(CharClass::Name, #[trigger] c.name[i])
    &&& !is_reserved_word(c.name)
    &&& values_well_formed(c.args)
}

/// Every statement of `statements` is as the parser builds it.
pub open spec fn statements_well_formed(statements: Seq<Statement>) -> bool
    decreases statements, 1int,
{
    forall|i: int|
        0 <= i < statements.len() ==> statement_well_formed(#[trigger] statements[i])
}

/// A clause of an `if` block as the parser builds it.
pub open spec fn if_base_well_formed(clause: IfBase) -> bool
    decreases clause, 0int,
{
    condition_well_formed(clause.condition) && statements_well_formed(clause.body)
}

/// Every clause of `clauses` is as the parser builds it.
pub open spec fn if_bases_well_formed(clauses: Seq<IfBase>) -> bool
    decreases clauses, 1int,
{
    forall|i: int| 0 <= i < clauses.len() ==> if_base_well_formed(#[trigger] clauses[i])
}

/// A block as the parser builds it.
pub open spec fn group_well_formed(g: CommandGroup) -> bool
    decreases g, 0int,
{
    &&& values_well_formed(g.clause)
    &&& statements_well_formed(g.body)
    &&& values_well_formed(g.end_clause)
}

/// A statement as the parser builds it: every command, condition and value
/// in it is well formed.
pub open spec fn statement_well_formed(st: Statement) -> bool
    decreases st, 0int,
{
    match st {
        Statement::If { base, else_ifs, else_body } => {
            &&& if_base_well_formed(base)
            &&& if_bases_well_formed(else_ifs)
            &&& match else_body {
                Some(body) => statements_well_formed(body),
                None => true,
            }
        },
        Statement::For { group } => group_well_formed(group),
        Statement::Function { group } => group_well_formed(group),
        Statement::Macro { group } => group_well_formed(group),
        Statement::Block { group } => group_well_formed(group),
        Statement::Command(c) => command_well_formed(c),
        Statement::Comment(_) => true,
        Statement::Newline => true,
    }
}

/// A document as the parser builds it.
pub open spec fn document_well_formed(d: Document) -> bool {
    statements_well_formed(d.statements)
}

/// Every value that the value rule yields is well formed.
pub proof fn lemma_value_well_formed(s: Seq<char>, pos: int)
    ensures
        spec_cmake_value(s, pos) matches Ok((_, v)) ==> value_well_formed(v),
        spec_cmake_string_literal(s, pos) matches Ok((_, v)) ==> value_well_formed(v),
{
    lemma_token_end_advances(s, pos);
}

/// The text of an operator that matches is an operator of its family.
pub proof fn lemma_operator_well_formed(s: Seq<char>, pos: int, kind: OperatorKind)
    ensures
        spec_operator(s, pos, kind) matches Ok((_, text)) ==> is_operator(text, kind),
{
    let words = operators(kind);
    lemma_first_keyword(s, pos, words, 0);
    let found = first_keyword(s, pos, words, 0);
    if found < words.len() {
        lemma_keyword_is_same_word(s, pos, words[found]);
    }
}

/// Two lists of well-formed values make one.
proof fn lemma_values_well_formed_add(a: Seq<Value>, b: Seq<Value>)
    requires
        values_well_formed(a),
        values_well_formed(b),
    ensures
        values_well_formed(a + b),
{
    assert forall|i: int| 0 <= i < (a + b).len() implies value_well_formed(#[trigger] (a + b)[i]) by {
        if i < a.len() {
            assert((a + b)[i] == a[i]);
        } else {
            assert((a + b)[i] == b[i - a.len()]);
        }
    }
}

/// Every value of a bracketed group of arguments is well formed.
proof fn lemma_arg_parenthesis_well_formed(s: Seq<char>, pos: int)
    ensures
        spec_cmake_arg_parenthesis(s, pos) matches Ok((_, values)) ==> values_well_formed(values),
    decreases s.len() - pos, 1int,
{
    if spec_expect_char(s, pos, '(') is Ok {
        let inside = pos + 1;
        lemma_arg_list_inner_well_formed(s, inside);
        let (first_end, first) = spec_cmake_arg_list_inner(s, inside);
        let (end, values) = if inside <= first_end <= s.len() {
            lemma_arg_groups_more_well_formed(s, first_end, first);
            spec_arg_groups_more(s, first_end, first)
        } else {
            (first_end, first)
        };
        let open = seq![Value::Parenthesis("("@)];
        let close = seq![Value::Parenthesis(")"@)];
        assert(values_well_formed(open));
        assert(values_well_formed(close));
        lemma_values_well_formed_add(open, values);
        lemma_values_well_formed_add(open + values, close);
    }
}

/// The argument lists that follow inside a bracketed group add well-formed
/// values only.
proof fn lemma_arg_groups_more_well_formed(s: Seq<char>, pos: int, found: Seq<Value>)
    requires
        values_well_formed(found),
    ensures
        values_well_formed(spec_arg_groups_more(s, pos, found).1),
    decreases s.len() - pos, 4int,
{
    match spec_multispace1(s, pos) {
        Err(_) => {},
        Ok(start) => {
            lemma_run_end(s, pos, CharClass::Multispace);
            lemma_arg_list_inner_well_formed(s, start);
            let (end, values) = spec_cmake_arg_list_inner(s, start);
            if start <= end <= s.len() {
                lemma_values_well_formed_add(found, values);
                lemma_arg_groups_more_well_formed(s, end, found + values);
            }
        },
    }
}

/// Every value of an element of an argument list is well formed.
proof fn lemma_arg_element_well_formed(s: Seq<char>, pos: int)
    ensures
        spec_arg_element(s, pos) matches Ok((_, values)) ==> values_well_formed(values),
    decreases s.len() - pos, 2int,
{
    lemma_arg_parenthesis_well_formed(s, pos);
    lemma_value_well_formed(s, pos);
}

/// The elements that follow in an argument list add well-formed values only.
proof fn lemma_arg_list_more_well_formed(s: Seq<char>, pos: int, found: Seq<Value>)
    requires
        values_well_formed(found),
    ensures
        values_well_formed(spec_arg_list_more(s, pos, found).1),
    decreases s.len() - pos, 4int,
{
    match spec_multispace1(s, pos) {
        Err(_) => {},
        Ok(start) => {
            lemma_run_end(s, pos, CharClass::Multispace);
            lemma_arg_element_well_formed(s, start);
            match spec_arg_element(s, start) {
                Err(_) => {},
                Ok((end, values)) => {
                    if start < end <= s.len() {
                        lemma_values_well_formed_add(found, values);
                        lemma_arg_list_more_well_formed(s, end, found + values);
                    }
                },
            }
        },
    }
}

/// Every value of an argument list is well formed.
pub proof fn lemma_arg_list_inner_well_formed(s: Seq<char>, pos: int)
    ensures
        values_well_formed(spec_cmake_arg_list_inner(s, pos).1),
    decreases s.len() - pos, 3int,
{
    lemma_arg_element_well_formed(s, pos);
    match spec_arg_element(s, pos) {
        Err(_) => {},
        Ok((end, values)) => {
            if pos < end <= s.len() {
                lemma_arg_list_more_well_formed(s, end, values);
            }
        },
    }
}

/// Every argument of a command is well formed.
pub proof fn lemma_args_well_formed(s: Seq<char>, pos: int)
    ensures
        spec_cmake_args(s, pos) matches Ok((_, values)) ==> values_well_formed(values),
{
    if spec_expect_char(s, pos, '(') is Ok {
        lemma_arg_list_inner_well_formed(s, run_end(s, pos + 1, CharClass::Multispace));
    }
}

/// Every command that the command rule yields is well formed.
pub proof fn lemma_command_well_formed(s: Seq<char>, pos: int)
    ensures
        spec_cmake_command(s, pos) matches Ok((_, c)) ==> command_well_formed(c),
{
    lemma_run_end(s, pos, CharClass::Name);
    let name_end = run_end(s, pos, CharClass::Name);
    lemma_args_well_formed(s, run_end(s, name_end, CharClass::Space));
}

/// Every binary test that matches is well formed.
proof fn lemma_binary_test_well_formed(s: Seq<char>, pos: int)
    ensures
        spec_cmake_condition_binary_test(s, pos) matches Ok((_, c)) ==> condition_well_formed(c)
            && c is BinaryTest,
{
    reveal_with_fuel(condition_well_formed, 3);
    lemma_value_well_formed(s, pos);
    match spec_cmake_condition_value(s, pos) {
        Err(_) => {},
        Ok((left_end, _)) => match spec_multispace1(s, left_end) {
            Err(_) => {},
            Ok(operator_start) => {
                lemma_operator_well_formed(s, operator_start, OperatorKind::BinaryTest);
                match spec_operator(s, operator_start, OperatorKind::BinaryTest) {
                    Err(_) => {},
                    Ok((operator_end, _)) => match spec_multispace1(s, operator_end) {
                        Err(_) => {},
                        Ok(right_start) => {
                            lemma_value_well_formed(s, right_start);
                        },
                    },
                }
            },
        },
    }
}

/// An operator that matches with its operand belongs to its family, and the
/// operand is well formed.
proof fn lemma_prefixed_condition_well_formed(s: Seq<char>, pos: int, kind: OperatorKind)
    ensures
        spec_prefixed_condition(s, pos, kind) matches Ok((_, (operator, value))) ==> is_operator(
            operator,
            kind,
        ) && condition_well_formed(value),
    decreases s.len() - pos, 0int,
{
    lemma_operator_well_formed(s, pos, kind);
    match spec_operator(s, pos, kind) {
        Err(_) => {},
        Ok((operator_end, _)) => {
            crate::parser::operators::lemma_operator_end(s, pos, kind);
            lemma_run_end(s, operator_end, CharClass::Multispace);
            match spec_multispace1(s, operator_end) {
                Err(_) => {},
                Ok(start) => {
                    lemma_condition_well_formed(s, start);
                },
            }
        },
    }
}

/// Every bracketed condition that matches is well formed.
proof fn lemma_condition_parentheses_well_formed(s: Seq<char>, pos: int)
    ensures
        spec_cmake_condition_parentheses(s, pos) matches Ok((_, c)) ==> condition_well_formed(c)
            && c is Parentheses,
    decreases s.len() - pos, 1int,
{
    if spec_expect_char(s, pos, '(') is Ok {
        lemma_run_end(s, pos + 1, CharClass::Multispace);
        lemma_condition_well_formed(s, run_end(s, pos + 1, CharClass::Multispace));
    }
}

/// Every comment inside a condition that matches is well formed.
proof fn lemma_condition_comment_well_formed(s: Seq<char>, pos: int)
    ensures
        spec_cmake_condition_comment(s, pos) matches Ok((_, c)) ==> condition_well_formed(c)
            && c is Comment,
    decreases s.len() - pos, 1int,
{
    if spec_expect_char(s, pos, '#') is Ok {
        lemma_run_end(s, pos + 1, CharClass::CommentText);
        let comment_end = run_end(s, pos + 1, CharClass::CommentText);
        lemma_run_end(s, comment_end, CharClass::Multispace);
        lemma_condition_well_formed(s, run_end(s, comment_end, CharClass::Multispace));
    }
}

/// Every operand that matches is well formed, and no binary logical operator.
proof fn lemma_condition_operand_well_formed(s: Seq<char>, pos: int)
    ensures
        spec_condition_operand(s, pos) matches Ok((_, c)) ==> condition_well_formed(c) && !(c
            is BinaryLogicalOperator),
    decreases s.len() - pos, 2int,
{
    lemma_binary_test_well_formed(s, pos);
    lemma_prefixed_condition_well_formed(s, pos, OperatorKind::Not);
    lemma_prefixed_condition_well_formed(s, pos, OperatorKind::UnaryTest);
    lemma_condition_parentheses_well_formed(s, pos);
    lemma_condition_comment_well_formed(s, pos);
    lemma_value_well_formed(s, pos);
}

/// Every binary logical operator that matches is well formed.
proof fn lemma_binary_logical_operator_well_formed(s: Seq<char>, pos: int)
    ensures
        spec_cmake_condition_binary_logical_operator(s, pos) matches Ok((_, c))
            ==> condition_well_formed(c),
    decreases s.len() - pos, 3int,
{
    lemma_condition_operand_well_formed(s, pos);
    match spec_condition_operand(s, pos) {
        Err(_) => {},
        Ok((left_end, _)) => match spec_multispace1(s, left_end) {
            Err(_) => {},
            Ok(operator_start) => {
                lemma_operator_well_formed(s, operator_start, OperatorKind::Logical);
                match spec_operator(s, operator_start, OperatorKind::Logical) {
                    Err(_) => {},
                    Ok((operator_end, _)) => match spec_multispace1(s, operator_end) {
                        Err(_) => {},
                        Ok(right_start) => {
                            if pos < right_start <= s.len() {
                                lemma_condition_well_formed(s, right_start);
                            }
                        },
                    },
                }
            },
        },
    }
}

/// Every condition that the condition rule yields is well formed.
pub proof fn lemma_condition_well_formed(s: Seq<char>, pos: int)
    ensures
        spec_cmake_condition(s, pos) matches Ok((_, c)) ==> condition_well_formed(c),
    decreases s.len() - pos, 4int,
{
    lemma_binary_logical_operator_well_formed(s, pos);
    lemma_condition_operand_well_formed(s, pos);
}

/// The arguments of a keyword that matches are well formed.
proof fn lemma_skip_empty_command_well_formed(s: Seq<char>, pos: int, word: Seq<char>)
    ensures
        spec_skip_empty_command(s, pos, word) matches Ok((_, values)) ==> values_well_formed(
            values,
        ),
{
    if spec_expect_keyword(s, pos, word) is Ok {
        lemma_args_well_formed(s, run_end(s, pos + word.len(), CharClass::Space));
    }
}

/// The condition of a clause head that matches is well formed.
proof fn lemma_condition_clause_well_formed(s: Seq<char>, pos: int, word: Seq<char>)
    ensures
        spec_condition_clause(s, pos, word) matches Ok((_, c)) ==> condition_well_formed(c),
{
    if spec_expect_keyword(s, pos, word) is Ok {
        let open = run_end(s, pos + word.len(), CharClass::Multispace);
        if spec_expect_char(s, open, '(') is Ok {
            lemma_condition_well_formed(s, run_end(s, open + 1, CharClass::Multispace));
        }
    }
}

/// A well-formed list with one more well-formed statement is well formed.
proof fn lemma_statements_well_formed_push(statements: Seq<Statement>, st: Statement)
    requires
        statements_well_formed(statements),
        statement_well_formed(st),
    ensures
        statements_well_formed(statements.push(st)),
{
    assert forall|i: int| 0 <= i < statements.push(st).len() implies statement_well_formed(
        #[trigger] statements.push(st)[i],
    ) by {
        if i < statements.len() {
            assert(statements.push(st)[i] == statements[i]);
        }
    }
}

/// A well-formed list with one more well-formed clause is well formed.
proof fn lemma_if_bases_well_formed_push(clauses: Seq<IfBase>, clause: IfBase)
    requires
        if_bases_well_formed(clauses),
        if_base_well_formed(clause),
    ensures
        if_bases_well_formed(clauses.push(clause)),
{
    assert forall|i: int| 0 <= i < clauses.push(clause).len() implies if_base_well_formed(
        #[trigger] clauses.push(clause)[i],
    ) by {
        if i < clauses.len() {
            assert(clauses.push(clause)[i] == clauses[i]);
        }
    }
}

/// Every `elseif` clause that matches is well formed.
proof fn lemma_else_if_block_well_formed(s: Seq<char>, pos: int)
    ensures
        spec_cmake_else_if_block(s, pos) matches Ok((_, clause)) ==> if_base_well_formed(clause),
    decreases s.len() - pos, 1int,
{
    lemma_condition_clause_well_formed(s, pos, "elseif"@);
    lemma_condition_clause_consumes(s, pos, "elseif"@);
    match spec_condition_clause(s, pos, "elseif"@) {
        Err(_) => {},
        Ok((head_end, _)) => {
            lemma_statements_more_well_formed(s, head_end, Seq::empty());
        },
    }
}

/// The `elseif` clauses that follow one another add well-formed clauses only.
proof fn lemma_else_if_blocks_well_formed(s: Seq<char>, pos: int, found: Seq<IfBase>)
    requires
        if_bases_well_formed(found),
    ensures
        if_bases_well_formed(spec_else_if_blocks(s, pos, found).1),
    decreases s.len() - pos, 3int,
{
    lemma_run_end(s, pos, CharClass::Space);
    let start = run_end(s, pos, CharClass::Space);
    lemma_else_if_block_well_formed(s, start);
    match spec_cmake_else_if_block(s, start) {
        Err(_) => {},
        Ok((clause_end, clause)) => {
            let next = run_end(s, clause_end, CharClass::Space);
            if pos < next <= s.len() {
                lemma_if_bases_well_formed_push(found, clause);
                lemma_else_if_blocks_well_formed(s, next, found.push(clause));
            }
        },
    }
}

/// The body of an `else` clause that matches is well formed.
proof fn lemma_else_block_well_formed(s: Seq<char>, pos: int)
    ensures
        spec_else_block(s, pos).1 matches Some(body) ==> statements_well_formed(body),
    decreases s.len() - pos, 3int,
{
    lemma_run_end(s, pos, CharClass::Space);
    let start = run_end(s, pos, CharClass::Space);
    lemma_skip_empty_command_consumes(s, start, "else"@);
    match spec_skip_empty_command(s, start, "else"@) {
        Err(_) => {},
        Ok((clause_end, _)) => {
            lemma_statements_more_well_formed(s, clause_end, Seq::empty());
        },
    }
}

/// Every `if` block that matches is well formed.
proof fn lemma_if_group_well_formed(s: Seq<char>, pos: int)
    ensures
        spec_cmake_if_group(s, pos) matches Ok((_, st)) ==> statement_well_formed(st) && st is If,
    decreases s.len() - pos, 1int,
{
    lemma_condition_clause_well_formed(s, pos, "if"@);
    lemma_condition_clause_consumes(s, pos, "if"@);
    match spec_condition_clause(s, pos, "if"@) {
        Err(_) => {},
        Ok((head_end, _)) => {
            lemma_statements_more_well_formed(s, head_end, Seq::empty());
            let body_end = spec_parse_statement_list(s, head_end).0;
            let else_ifs_end = if pos < body_end <= s.len() {
                lemma_else_if_blocks_well_formed(s, body_end, Seq::empty());
                spec_else_if_blocks(s, body_end, Seq::empty()).0
            } else {
                body_end
            };
            if pos < else_ifs_end <= s.len() {
                lemma_else_block_well_formed(s, else_ifs_end);
            }
        },
    }
}

/// Every block that matches is well formed.
proof fn lemma_clause_body_block_well_formed(s: Seq<char>, pos: int, word: Seq<char>)
    ensures
        spec_cmake_clause_body_block(s, pos, word) matches Ok((_, g)) ==> group_well_formed(g),
    decreases s.len() - pos, 1int,
{
    lemma_skip_empty_command_well_formed(s, pos, word);
    lemma_skip_empty_command_consumes(s, pos, word);
    match spec_skip_empty_command(s, pos, word) {
        Err(_) => {},
        Ok((clause_end, _)) => {
            lemma_statements_more_well_formed(s, clause_end, Seq::empty());
            lemma_skip_empty_command_well_formed(
                s,
                spec_parse_statement_list(s, clause_end).0,
                "end"@ + word,
            );
        },
    }
}

/// Every statement that the statement rule yields is well formed.
pub proof fn lemma_statement_well_formed(s: Seq<char>, pos: int)
    ensures
        spec_cmake_statement(s, pos) matches Ok((_, st)) ==> statement_well_formed(st),
    decreases s.len() - pos, 2int,
{
    lemma_command_well_formed(s, pos);
    lemma_if_group_well_formed(s, pos);
    lemma_clause_body_block_well_formed(s, pos, "foreach"@);
    lemma_clause_body_block_well_formed(s, pos, "function"@);
    lemma_clause_body_block_well_formed(s, pos, "macro"@);
    lemma_clause_body_block_well_formed(s, pos, "block"@);
}

/// Every statement of a body is well formed.
pub proof fn lemma_statements_more_well_formed(s: Seq<char>, pos: int, found: Seq<Statement>)
    requires
        statements_well_formed(found),
    ensures
        statements_well_formed(spec_statements_more(s, pos, found).1),
    decreases s.len() - pos, 3int,
{
    lemma_run_end(s, pos, CharClass::Space);
    let start = run_end(s, pos, CharClass::Space);
    lemma_statement_well_formed(s, start);
    match spec_cmake_statement(s, start) {
        Err(_) => {},
        Ok((statement_end, statement)) => {
            let next = run_end(s, statement_end, CharClass::Space);
            if pos < next <= s.len() {
                lemma_statements_well_formed_push(found, statement);
                lemma_statements_more_well_formed(s, next, found.push(statement));
            }
        },
    }
}

/// The statements of a document that parses are well formed.
proof fn lemma_document_statements_well_formed(s: Seq<char>, pos: int, found: Seq<Statement>)
    requires
        statements_well_formed(found),
    ensures
        spec_document_statements(s, pos, found) matches Ok((_, statements))
            ==> statements_well_formed(statements),
    decreases s.len() - pos,
{
    lemma_statement_well_formed(s, pos);
    match spec_cmake_statement(s, pos) {
        Err(_) => {},
        Ok((statement_end, statement)) => {
            lemma_statements_well_formed_push(found, statement);
            let rest = run_end(s, statement_end, CharClass::Multispace);
            let next = run_end(s, statement_end, CharClass::Space);
            if rest >= s.len() {
            } else if pos < next <= s.len() {
                lemma_document_statements_well_formed(s, next, found.push(statement));
            }
        },
    }
}

/// The parser builds well-formed documents only: in a document that
/// parses, every argument specifier is made of `A` to `Z`, `0` to `9` and `_`
/// and every other bare token is a string literal, no command is named by a
/// reserved word, every operator belongs to the family of its node, and no
/// binary logical operator has one on its left side.
pub proof fn lemma_document_well_formed(s: Seq<char>, pos: int)
    ensures
        spec_cmake_parser(s, pos) matches Ok((_, d)) ==> document_well_formed(d),
{
    lemma_document_statements_well_formed(s, pos, Seq::empty());
}

} // verus!
