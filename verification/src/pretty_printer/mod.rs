//! The printer: document tree to layout document, and layout document to text.
//!
//! For each kind of node a specification function says which layout it has;
//! the executable printer builds a document that holds exactly that layout.
use vstd::prelude::*;
use vstd::string::StringExecFns;
use pretty::RcDoc;

pub mod layout;

use crate::parser::types::{
    statements_view, values_view, CMakeBlockStatement, CMakeCommand, CMakeCommandGroup,
    CMakeCondition, CMakeDocument, CMakeForEachStatement, CMakeFunctionStatement, CMakeIfBase,
    CMakeIfStatement, CMakeMacroStatement, CMakeStatement, CMakeValue, Command, CommandGroup,
    Condition, Document, IfBase, Statement, Value,
};
use layout::{
    append, doc_append, doc_flat_alt, doc_group, doc_hardline, doc_intersperse, doc_line,
    doc_line_, doc_model, doc_nest, doc_nil, doc_render, doc_softline, doc_space, doc_text,
    break_or_blank, break_or_nothing, docs_model, flat_alt, group, intersperse, nest, rendered,
    softline, text, Layout,
};

verus! {

/// The layout of a value: a quoted string between double quotes, a comment
/// after a `#`, anything else as it is. A comment that is laid out on one
/// line with what follows it forces a line break after itself.
pub open spec fn value_layout(v: Value) -> Layout {
    match v {
        Value::QuotedString(s) => text("\""@ + s + "\""@),
        Value::StringLiteral(s) => text(s),
        Value::Comment(s) => flat_alt(text("#"@ + s), append(text("#"@ + s), Layout::Hardline)),
        Value::ArgumentSpecifier(s) => text(s),
        Value::Parenthesis(s) => text(s),
    }
}

/// The layouts of the values of `values`, in order.
pub open spec fn value_layouts(values: Seq<Value>) -> Seq<Layout> {
    Seq::new(values.len(), |i: int| value_layout(values[i]))
}

/// A value that starts a new run of arguments: an argument specifier or a
/// comment.
pub open spec fn starts_run(v: Value) -> bool {
    v is ArgumentSpecifier || v is Comment
}

/// The arguments split into runs that follow one another. The first
/// argument starts a run, and so does every argument specifier and every
/// comment; with `grouping_disabled` only the first argument does.
pub open spec fn arg_runs(args: Seq<Value>, grouping_disabled: bool) -> Seq<Seq<Value>>
    decreases args.len(),
{
    if args.len() == 0 {
        Seq::empty()
    } else if args.len() == 1 {
        seq![args]
    } else {
        let before = arg_runs(args.drop_last(), grouping_disabled);
        if !grouping_disabled && starts_run(args.last()) {
            before.push(seq![args.last()])
        } else {
            before.drop_last().push(before.last().push(args.last()))
        }
    }
}

/// The layout of one run of arguments: its values with line breaks between
/// them, as a group; with `grouping_disabled`, its values with soft line
/// breaks between them.
pub open spec fn run_layout(run: Seq<Value>, grouping_disabled: bool) -> Layout {
    if grouping_disabled {
        intersperse(value_layouts(run), softline())
    } else {
        group(intersperse(value_layouts(run), break_or_blank()))
    }
}

/// The layouts of the runs of `args`, in order.
pub open spec fn args_layouts(args: Seq<Value>, grouping_disabled: bool) -> Seq<Layout> {
    Seq::new(
        arg_runs(args, grouping_disabled).len(),
        |i: int| run_layout(arg_runs(args, grouping_disabled)[i], grouping_disabled),
    )
}

/// The layout of an argument list: the runs with line breaks between them,
/// indented by two columns between two line breaks that vanish when the
/// list fits on the line, all as one group.
pub open spec fn args_layout(args: Seq<Value>, grouping_disabled: bool) -> Layout {
    group(
        nest(
            append(
                append(break_or_nothing(), intersperse(args_layouts(args, grouping_disabled), break_or_blank())),
                break_or_nothing(),
            ),
            2,
        ),
    )
}

/// The layout of a command: its name, `(`, its arguments, `)`, as a group.
pub open spec fn command_layout(c: Command) -> Layout {
    group(append(append(append(text(c.name), text("("@)), args_layout(c.args, false)), text(")"@)))
}

/// The layout of a condition: operators and operands on one line with one
/// blank between them; a comment with a line break after it.
pub open spec fn condition_layout(c: Condition) -> Layout
    decreases c,
{
    match c {
        Condition::Parentheses { value } => append(
            append(text("("@), condition_layout(*value)),
            text(")"@),
        ),
        Condition::UnaryTest { operator, value } => append(
            append(text(operator), Layout::Text(" "@)),
            condition_layout(*value),
        ),
        Condition::BinaryTest { operator, left, right } => append(
            append(
                append(append(condition_layout(*left), Layout::Text(" "@)), text(operator)),
                Layout::Text(" "@),
            ),
            condition_layout(*right),
        ),
        Condition::UnaryLogicalOperator { operator, value } => append(
            append(text(operator), Layout::Text(" "@)),
            condition_layout(*value),
        ),
        Condition::BinaryLogicalOperator { operator, left, right } => append(
            append(
                append(append(condition_layout(*left), Layout::Text(" "@)), text(operator)),
                Layout::Text(" "@),
            ),
            condition_layout(*right),
        ),
        Condition::Comment { content, tail } => append(
            append(text("#"@ + content), Layout::Hardline),
            match tail {
                Some(t) => condition_layout(*t),
                None => Layout::Nil,
            },
        ),
        Condition::Value(v) => value_layout(v),
    }
}

/// The layouts of the statements of `statements`, in order.
pub open spec fn statement_layouts(statements: Seq<Statement>) -> Seq<Layout>
    decreases statements, 0int,
{
    Seq::new(
        statements.len(),
        |i: int|
            if 0 <= i < statements.len() {
                statement_layout(statements[i])
            } else {
                Layout::Nil
            },
    )
}

/// The layout of a body: its statements one after another, indented by two
/// columns, as a group.
pub open spec fn body_layout(body: Seq<Statement>) -> Layout
    decreases body, 1int,
{
    group(nest(intersperse(statement_layouts(body), Layout::Nil), 2))
}

/// The layout of a clause of an `if` block: the keyword, `(`, the
/// condition, `)`, and the body.
pub open spec fn clause_layout(keyword: Seq<char>, clause: IfBase) -> Layout
    decreases clause, 0int,
{
    append(
        append(
            append(text(keyword + "("@), condition_layout(clause.condition)),
            text(")"@),
        ),
        body_layout(clause.body),
    )
}

/// `before`, and then the layouts of the `elseif` clauses in order.
pub open spec fn else_ifs_layout(before: Layout, else_ifs: Seq<IfBase>) -> Layout
    decreases else_ifs, 0int,
{
    if else_ifs.len() == 0 {
        before
    } else {
        append(
            else_ifs_layout(before, else_ifs.drop_last()),
            clause_layout("elseif"@, else_ifs.last()),
        )
    }
}

/// The layout of an `if` block: the `if` clause, the `elseif` clauses, the
/// `else` clause with an empty argument list if there is one, and `endif()`.
pub open spec fn if_layout(st: Statement) -> Layout
    decreases st, 0int,
{
    match st {
        Statement::If { base, else_ifs, else_body } => append(
            match else_body {
                Some(body) => append(
                    append(
                        append(
                            else_ifs_layout(clause_layout("if"@, base), else_ifs),
                            text("else("@),
                        ),
                        text(")"@),
                    ),
                    body_layout(body),
                ),
                None => else_ifs_layout(clause_layout("if"@, base), else_ifs),
            },
            text("endif()"@),
        ),
        _ => Layout::Nil,
    }
}

/// The layout of a block that `keyword` opens: the keyword with the
/// arguments of the opening clause, the body, and the closing keyword with
/// an empty argument list, each as a group.
pub open spec fn group_layout(keyword: Seq<char>, g: CommandGroup) -> Layout
    decreases g, 0int,
{
    intersperse(
        seq![
            group(
                append(
                    append(text(keyword + "("@), args_layout(g.clause, false)),
                    text(")"@),
                ),
            ),
            body_layout(g.body),
            group(text("end"@ + keyword + "()"@)),
        ],
        Layout::Nil,
    )
}

/// The layout of a statement, as a group.
pub open spec fn statement_layout(st: Statement) -> Layout
    decreases st, 1int,
{
    group(
        match st {
            Statement::Command(c) => command_layout(c),
            Statement::Comment(s) => text("#"@ + s),
            Statement::Newline => Layout::Hardline,
            Statement::If { .. } => if_layout(st),
            Statement::For { group } => group_layout("foreach"@, group),
            Statement::Function { group } => group_layout("function"@, group),
            Statement::Macro { group } => group_layout("macro"@, group),
            Statement::Block { group } => group_layout("block"@, group),
        },
    )
}

/// The number of line breaks that `statements` ends with.
pub open spec fn trailing_newlines(statements: Seq<Statement>) -> nat
    decreases statements.len(),
{
    if statements.len() > 0 && statements.last() is Newline {
        trailing_newlines(statements.drop_last()) + 1
    } else {
        0
    }
}

/// The statements of `statements` that are printed: all but the line breaks
/// that follow two line breaks or more.
pub open spec fn collapse_newlines(statements: Seq<Statement>) -> Seq<Statement>
    decreases statements.len(),
{
    if statements.len() == 0 {
        Seq::empty()
    } else if statements.last() is Newline && trailing_newlines(statements.drop_last()) >= 2 {
        collapse_newlines(statements.drop_last())
    } else {
        collapse_newlines(statements.drop_last()).push(statements.last())
    }
}

/// The layouts of the statements of `statements`, each as a group, in order.
pub open spec fn grouped_layouts(statements: Seq<Statement>) -> Seq<Layout> {
    Seq::new(statements.len(), |i: int| group(statement_layout(statements[i])))
}

/// The layout of a document: the statements that are printed, one after
/// another.
pub open spec fn document_layout(d: Document) -> Layout {
    intersperse(grouped_layouts(collapse_newlines(d.statements)), Layout::Nil)
}

/// The view of a list of documents with one more document.
proof fn lemma_docs_model_push(docs: Seq<RcDoc<'static, ()>>, doc: RcDoc<'static, ()>)
    ensures
        docs_model(docs.push(doc)) == docs_model(docs).push(doc_model(doc)),
{
    assert(docs_model(docs.push(doc)) =~= docs_model(docs).push(doc_model(doc)));
}

/// The document for the text `s`.
fn text_doc(s: &str) -> (doc: RcDoc<'static, ()>)
    ensures
        doc_model(doc) == text(s@),
{
    doc_text(String::from_str(s))
}

/// The document for `prefix` followed by `s`.
fn prefixed_text_doc(prefix: &str, s: &str) -> (doc: RcDoc<'static, ()>)
    ensures
        doc_model(doc) == text(prefix@ + s@),
{
    doc_text(String::from_str(prefix).concat(s))
}

impl CMakeValue {
    /// The layout document of this value.
    pub fn to_doc(&self) -> (doc: RcDoc<'static, ()>)
        ensures
            doc_model(doc) == value_layout(self@),
    {
        match self {
            CMakeValue::QuotedString(s) => doc_text(
                String::from_str("\"").concat(s.as_str()).concat("\""),
            ),
            CMakeValue::StringLiteral(s) => text_doc(s.as_str()),
            CMakeValue::Comment(s) => doc_flat_alt(
                prefixed_text_doc("#", s.as_str()),
                doc_append(prefixed_text_doc("#", s.as_str()), doc_hardline()),
            ),
            CMakeValue::ArgumentSpecifier(s) => text_doc(s.as_str()),
            CMakeValue::Parenthesis(s) => text_doc(s.as_str()),
        }
    }
}

/// Whether `v` starts a new run of arguments.
fn value_starts_run(v: &CMakeValue) -> (b: bool)
    ensures
        b == starts_run(v@),
{
    match v {
        CMakeValue::ArgumentSpecifier(_) => true,
        CMakeValue::Comment(_) => true,
        _ => false,
    }
}

/// The document of one run of arguments, from the documents of its values.
fn run_doc(values: Vec<RcDoc<'static, ()>>, grouping_disabled: bool) -> (doc: RcDoc<'static, ()>)
    ensures
        doc_model(doc) == if grouping_disabled {
            intersperse(docs_model(values@), softline())
        } else {
            group(intersperse(docs_model(values@), break_or_blank()))
        },
{
    if grouping_disabled {
        doc_intersperse(values, doc_softline())
    } else {
        doc_group(doc_intersperse(values, doc_line()))
    }
}

/// The layout documents of the runs of `args`, in order.
pub fn print_args_to_vec(args: &[CMakeValue], grouping_disabled: bool) -> (docs: Vec<
    RcDoc<'static, ()>,
>)
    ensures
        docs_model(docs@) == args_layouts(values_view(args@), grouping_disabled),
{
    let ghost all = values_view(args@);
    let mut docs: Vec<RcDoc<'static, ()>> = Vec::new();
    if args.len() == 0 {
        assert(docs_model(docs@) =~= args_layouts(all, grouping_disabled));
        return docs;
    }
    let mut run: Vec<RcDoc<'static, ()>> = Vec::new();
    run.push(args[0].to_doc());
    let ghost mut done: Seq<Seq<Value>> = Seq::empty();
    let ghost mut current: Seq<Value> = seq![all[0]];
    assert(all.take(1) =~= seq![all[0]]);
    assert(docs_model(run@) =~= value_layouts(current));
    assert(arg_runs(all.take(1), grouping_disabled) =~= done.push(current));
    let mut i: usize = 1;
    while i < args.len()
        invariant
            1 <= i <= args.len(),
            all == values_view(args@),
            arg_runs(all.take(i as int), grouping_disabled) == done.push(current),
            docs_model(docs@).len() == done.len(),
            forall|k: int|
                0 <= k < done.len() ==> (#[trigger] docs_model(docs@)[k]) == run_layout(
                    done[k],
                    grouping_disabled,
                ),
            docs_model(run@) == value_layouts(current),
        decreases args.len() - i,
    {
        let doc = args[i].to_doc();
        proof {
            assert(all.take(i + 1).drop_last() =~= all.take(i as int));
            assert(all.take(i + 1).last() == all[i as int]);
            lemma_docs_model_push(run@, doc);
        }
        if !grouping_disabled && value_starts_run(&args[i]) {
            let finished = run_doc(run, grouping_disabled);
            proof {
                lemma_docs_model_push(docs@, finished);
                done = done.push(current);
                current = seq![all[i as int]];
            }
            docs.push(finished);
            run = Vec::new();
            run.push(doc);
            assert(docs_model(run@) =~= value_layouts(current));
        } else {
            run.push(doc);
            proof {
                assert(done.push(current).drop_last() =~= done);
                current = current.push(all[i as int]);
                assert(docs_model(run@) =~= value_layouts(current));
            }
        }
        i += 1;
    }
    let finished = run_doc(run, grouping_disabled);
    proof {
        lemma_docs_model_push(docs@, finished);
        assert(all.take(args.len() as int) =~= all);
    }
    docs.push(finished);
    assert(docs_model(docs@) =~= args_layouts(all, grouping_disabled));
    docs
}

/// The layout document of an argument list.
pub fn print_args(args: &[CMakeValue], grouping_disabled: bool) -> (doc: RcDoc<'static, ()>)
    ensures
        doc_model(doc) == args_layout(values_view(args@), grouping_disabled),
{
    let runs = print_args_to_vec(args, grouping_disabled);
    doc_group(
        doc_nest(
            doc_append(doc_append(doc_line_(), doc_intersperse(runs, doc_line())), doc_line_()),
            2,
        ),
    )
}

impl CMakeCommand {
    /// The layout document of this command.
    pub fn print(&self) -> (doc: RcDoc<'static, ()>)
        ensures
            doc_model(doc) == command_layout(self@),
    {
        let args = print_args(self.args.as_slice(), false);
        doc_group(
            doc_append(
                doc_append(doc_append(text_doc(self.name.as_str()), text_doc("(")), args),
                text_doc(")"),
            ),
        )
    }
}

impl CMakeCondition {
    /// The layout document of this condition.
    pub fn print(&self) -> (doc: RcDoc<'static, ()>)
        ensures
            doc_model(doc) == condition_layout(self@),
        decreases self,
    {
        match self {
            CMakeCondition::Parentheses { value } => doc_append(
                doc_append(text_doc("("), value.print()),
                text_doc(")"),
            ),
            CMakeCondition::UnaryTest { operator, value } => doc_append(
                doc_append(text_doc(operator.as_str()), doc_space()),
                value.print(),
            ),
            CMakeCondition::BinaryTest { operator, left, right } => doc_append(
                doc_append(
                    doc_append(doc_append(left.print(), doc_space()), text_doc(operator.as_str())),
                    doc_space(),
                ),
                right.print(),
            ),
            CMakeCondition::UnaryLogicalOperator { operator, value } => doc_append(
                doc_append(text_doc(operator.as_str()), doc_space()),
                value.print(),
            ),
            CMakeCondition::BinaryLogicalOperator { operator, left, right } => doc_append(
                doc_append(
                    doc_append(doc_append(left.print(), doc_space()), text_doc(operator.as_str())),
                    doc_space(),
                ),
                right.print(),
            ),
            CMakeCondition::Comment { content, tail } => doc_append(
                doc_append(prefixed_text_doc("#", content.as_str()), doc_hardline()),
                match tail {
                    Some(t) => t.print(),
                    None => doc_nil(),
                },
            ),
            CMakeCondition::Value(v) => v.to_doc(),
        }
    }
}

/// The layout document of a body.
fn print_body(body: &Vec<CMakeStatement>) -> (doc: RcDoc<'static, ()>)
    ensures
        doc_model(doc) == body_layout(statements_view(body@)),
    decreases body, 1int,
{
    let ghost all = statements_view(body@);
    let mut docs: Vec<RcDoc<'static, ()>> = Vec::new();
    let mut i: usize = 0;
    while i < body.len()
        invariant
            i <= body.len(),
            all == statements_view(body@),
            docs_model(docs@) == statement_layouts(all.take(i as int)),
        decreases body.len() - i,
    {
        let doc = body[i].print();
        proof {
            lemma_docs_model_push(docs@, doc);
            assert(statement_layouts(all.take(i + 1)) =~= statement_layouts(
                all.take(i as int),
            ).push(statement_layout(all[i as int])));
        }
        docs.push(doc);
        i += 1;
    }
    proof {
        assert(all.take(body.len() as int) =~= all);
    }
    doc_group(doc_nest(doc_intersperse(docs, doc_nil()), 2))
}

/// The layout document of a clause of an `if` block, after `before`.
fn print_clause(before: RcDoc<'static, ()>, keyword: &str, clause: &CMakeIfBase) -> (doc: RcDoc<
    'static,
    (),
>)
    ensures
        doc_model(doc) == append(doc_model(before), clause_layout(keyword@, clause@)),
    decreases clause, 2int,
{
    let head = doc_append(
        doc_append(prefixed_text_doc(keyword, "("), clause.condition.print()),
        text_doc(")"),
    );
    doc_append(before, doc_append(head, print_body(&clause.body)))
}

impl CMakeIfStatement {
    /// The layout document of this `if` block.
    pub fn print(&self) -> (doc: RcDoc<'static, ()>)
        ensures
            doc_model(doc) == if_layout(self@),
        decreases self, 3int,
    {
        let mut output = print_clause(doc_nil(), "if", &self.base);
        let ghost else_ifs = crate::parser::types::if_bases_view(self.else_ifs@);
        let mut i: usize = 0;
        while i < self.else_ifs.len()
            invariant
                i <= self.else_ifs.len(),
                else_ifs == crate::parser::types::if_bases_view(self.else_ifs@),
                doc_model(output) == else_ifs_layout(
                    clause_layout("if"@, self.base@),
                    else_ifs.take(i as int),
                ),
            decreases self.else_ifs.len() - i,
        {
            proof {
                assert(else_ifs.take(i + 1).drop_last() =~= else_ifs.take(i as int));
            }
            output = print_clause(output, "elseif", &self.else_ifs[i]);
            i += 1;
        }
        proof {
            assert(else_ifs.take(self.else_ifs.len() as int) =~= else_ifs);
        }
        match &self.else_body {
            Some(body) => {
                output = doc_append(
                    doc_append(doc_append(output, text_doc("else(")), text_doc(")")),
                    print_body(body),
                );
            },
            None => {},
        }
        doc_append(output, text_doc("endif()"))
    }
}

/// The layout document of a block that `keyword` opens.
pub fn print_clause_body(keyword: &str, clause: &[CMakeValue], body: &Vec<CMakeStatement>) -> (doc:
    RcDoc<'static, ()>)
    ensures
        doc_model(doc) == group_layout(
            keyword@,
            CommandGroup {
                clause: values_view(clause@),
                body: statements_view(body@),
                end_clause: Seq::empty(),
            },
        ),
    decreases body, 2int,
{
    let head = doc_group(
        doc_append(
            doc_append(prefixed_text_doc(keyword, "("), print_args(clause, false)),
            text_doc(")"),
        ),
    );
    let inner = print_body(body);
    let end = doc_group(doc_text(String::from_str("end").concat(keyword).concat("()")));
    let mut parts: Vec<RcDoc<'static, ()>> = Vec::new();
    parts.push(head);
    parts.push(inner);
    parts.push(end);
    proof {
        assert(docs_model(parts@) =~= seq![doc_model(head), doc_model(inner), doc_model(end)]);
    }
    doc_intersperse(parts, doc_nil())
}

impl CMakeCommandGroup {
    /// The layout document of this block, opened by `name`.
    pub fn print(&self, name: &str) -> (doc: RcDoc<'static, ()>)
        ensures
            doc_model(doc) == group_layout(name@, self@),
        decreases self, 3int,
    {
        print_clause_body(name, self.clause.as_slice(), &self.body)
    }
}

impl CMakeForEachStatement {
    /// The layout document of this `foreach` block.
    pub fn print(&self) -> (doc: RcDoc<'static, ()>)
        ensures
            doc_model(doc) == group_layout("foreach"@, self.group@),
        decreases self, 4int,
    {
        self.group.print("foreach")
    }
}

impl CMakeFunctionStatement {
    /// The layout document of this `function` block.
    pub fn print(&self) -> (doc: RcDoc<'static, ()>)
        ensures
            doc_model(doc) == group_layout("function"@, self.group@),
        decreases self, 4int,
    {
        self.group.print("function")
    }
}

impl CMakeMacroStatement {
    /// The layout document of this `macro` block.
    pub fn print(&self) -> (doc: RcDoc<'static, ()>)
        ensures
            doc_model(doc) == group_layout("macro"@, self.group@),
        decreases self, 4int,
    {
        self.group.print("macro")
    }
}

impl CMakeBlockStatement {
    /// The layout document of this `block` block.
    pub fn print(&self) -> (doc: RcDoc<'static, ()>)
        ensures
            doc_model(doc) == group_layout("block"@, self.group@),
        decreases self, 4int,
    {
        self.group.print("block")
    }
}

impl CMakeStatement {
    /// The layout document of this statement.
    pub fn print(&self) -> (doc: RcDoc<'static, ()>)
        ensures
            doc_model(doc) == statement_layout(self@),
        decreases self, 5int,
    {
        doc_group(
            match self {
                CMakeStatement::Command(command) => command.print(),
                CMakeStatement::Comment(comment) => prefixed_text_doc("#", comment.as_str()),
                CMakeStatement::Newline => doc_hardline(),
                CMakeStatement::If(if_statement) => if_statement.print(),
                CMakeStatement::For(for_statement) => for_statement.print(),
                CMakeStatement::Function(fn_statement) => fn_statement.print(),
                CMakeStatement::Macro(m_statement) => m_statement.print(),
                CMakeStatement::Block(s) => s.print(),
            },
        )
    }
}

impl CMakeDocument {
    /// The layout document of this document.
    pub fn print(&self) -> (doc: RcDoc<'static, ()>)
        ensures
            doc_model(doc) == document_layout(self@),
    {
        let ghost all = statements_view(self.statements@);
        let mut docs: Vec<RcDoc<'static, ()>> = Vec::new();
        let mut newline_count: usize = 0;
        let mut i: usize = 0;
        while i < self.statements.len()
            invariant
                i <= self.statements.len(),
                all == statements_view(self.statements@),
                docs_model(docs@) == grouped_layouts(collapse_newlines(all.take(i as int))),
                newline_count <= 2,
                newline_count == if trailing_newlines(all.take(i as int)) >= 2 {
                    2
                } else {
                    trailing_newlines(all.take(i as int))
                },
            decreases self.statements.len() - i,
        {
            let statement = &self.statements[i];
            proof {
                assert(all.take(i + 1).drop_last() =~= all.take(i as int));
                assert(all.take(i + 1).last() == statement@);
            }
            let is_newline = match statement {
                CMakeStatement::Newline => true,
                _ => false,
            };
            if is_newline && newline_count >= 2 {
                i += 1;
                continue ;
            }
            if is_newline {
                newline_count += 1;
            } else {
                newline_count = 0;
            }
            let doc = doc_group(statement.print());
            proof {
                lemma_docs_model_push(docs@, doc);
                assert(grouped_layouts(collapse_newlines(all.take(i + 1))) =~= grouped_layouts(
                    collapse_newlines(all.take(i as int)),
                ).push(group(statement_layout(statement@))));
            }
            docs.push(doc);
            i += 1;
        }
        proof {
            assert(all.take(self.statements.len() as int) =~= all);
        }
        doc_intersperse(docs, doc_nil())
    }

    /// The text of this document, laid out at `width` columns; `None` if the
    /// renderer reports an error.
    pub fn render(&self, width: usize) -> (out: Option<String>)
        ensures
            match out {
                Some(text) => rendered(document_layout(self@), width) == Some(text@),
                None => rendered(document_layout(self@), width) is None,
            },
    {
        let doc = self.print();
        doc_render(&doc, width)
    }
}

/// Three line breaks stand in `statements` one after another from index `i`.
pub open spec fn three_newlines_at(statements: Seq<Statement>, i: int) -> bool {
    &&& 0 <= i
    &&& i + 2 < statements.len()
    &&& statements[i] is Newline
    &&& statements[i + 1] is Newline
    &&& statements[i + 2] is Newline
}

/// What is printed ends with as many line breaks as the statements end
/// with, but with two at most.
proof fn lemma_collapse_trailing(statements: Seq<Statement>)
    ensures
        trailing_newlines(collapse_newlines(statements)) == if trailing_newlines(statements) >= 2 {
            2
        } else {
            trailing_newlines(statements)
        },
    decreases statements.len(),
{
    if statements.len() > 0 {
        let before = statements.drop_last();
        lemma_collapse_trailing(before);
        if !(statements.last() is Newline && trailing_newlines(before) >= 2) {
            assert(collapse_newlines(statements).drop_last() =~= collapse_newlines(before));
        }
    }
}

/// Blank lines are capped: among the statements that are printed no three
/// line breaks follow one another, whatever the document holds.
pub proof fn lemma_collapse_newlines_caps_runs(statements: Seq<Statement>)
    ensures
        forall|i: int| !three_newlines_at(collapse_newlines(statements), i),
    decreases statements.len(),
{
    if statements.len() > 0 {
        let before = statements.drop_last();
        lemma_collapse_newlines_caps_runs(before);
        lemma_collapse_trailing(before);
        let kept = collapse_newlines(before);
        if !(statements.last() is Newline && trailing_newlines(before) >= 2) {
            let all = collapse_newlines(statements);
            assert(all == kept.push(statements.last()));
            assert forall|i: int| !three_newlines_at(all, i) by {
                if three_newlines_at(all, i) {
                    if i + 2 < kept.len() {
                        assert(three_newlines_at(kept, i));
                    } else {
                        // The run would end with the statement just added.
                        assert(kept.len() >= 2);
                        assert(kept.last() is Newline);
                        assert(kept.drop_last().last() is Newline);
                        assert(trailing_newlines(kept.drop_last()) >= 1);
                        assert(trailing_newlines(kept) >= 2);
                    }
                }
            }
        }
    }
}

/// Statements in which no three line breaks follow one another are printed
/// as they are.
pub proof fn lemma_collapse_newlines_keeps_short_runs(statements: Seq<Statement>)
    requires
        forall|i: int| !three_newlines_at(statements, i),
    ensures
        collapse_newlines(statements) == statements,
    decreases statements.len(),
{
    if statements.len() > 0 {
        let before = statements.drop_last();
        assert forall|i: int| !three_newlines_at(before, i) by {
            if three_newlines_at(before, i) {
                assert(three_newlines_at(statements, i));
            }
        }
        lemma_collapse_newlines_keeps_short_runs(before);
        if statements.last() is Newline && trailing_newlines(before) >= 2 {
            assert(before.last() is Newline);
            assert(trailing_newlines(before.drop_last()) >= 1);
            assert(before.drop_last().last() is Newline);
            assert(three_newlines_at(statements, statements.len() - 3));
        }
        assert(before.push(statements.last()) =~= statements);
    } else {
        assert(collapse_newlines(statements) =~= statements);
    }
}

/// Capping blank lines twice is capping them once: what is printed of the
/// statements that are printed is the same again.
pub proof fn lemma_collapse_newlines_idempotent(statements: Seq<Statement>)
    ensures
        collapse_newlines(collapse_newlines(statements)) == collapse_newlines(statements),
{
    lemma_collapse_newlines_caps_runs(statements);
    lemma_collapse_newlines_keeps_short_runs(collapse_newlines(statements));
}

/// Printing is the same after blank lines were capped: a document and the
/// document of its printed statements have one layout.
pub proof fn lemma_document_layout_of_printed_statements(d: Document)
    ensures
        document_layout(Document { statements: collapse_newlines(d.statements) })
            == document_layout(d),
{
    lemma_collapse_newlines_idempotent(d.statements);
}

/// The values of `runs`, one run after another.
pub open spec fn joined(runs: Seq<Seq<Value>>) -> Seq<Value>
    decreases runs.len(),
{
    if runs.len() == 0 {
        Seq::empty()
    } else {
        joined(runs.drop_last()) + runs.last()
    }
}

/// How arguments are split into runs. The runs, one after another, are the
/// arguments; no run is empty; with grouping, every run but the first
/// starts with an argument specifier or a comment and no run holds one after
/// its first value; without grouping there is one run at most.
pub proof fn lemma_arg_runs(args: Seq<Value>, grouping_disabled: bool)
    ensures
        joined(arg_runs(args, grouping_disabled)) == args,
        forall|k: int|
            0 <= k < arg_runs(args, grouping_disabled).len() ==> (#[trigger] arg_runs(
                args,
                grouping_disabled,
            )[k]).len() > 0,
        !grouping_disabled ==> forall|k: int|
            0 < k < arg_runs(args, grouping_disabled).len() ==> starts_run(
                (#[trigger] arg_runs(args, grouping_disabled)[k])[0],
            ),
        !grouping_disabled ==> forall|k: int, j: int|
            0 <= k < arg_runs(args, grouping_disabled).len() && 0 < j < arg_runs(
                args,
                grouping_disabled,
            )[k].len() ==> !starts_run(#[trigger] arg_runs(args, grouping_disabled)[k][j]),
        grouping_disabled ==> arg_runs(args, grouping_disabled).len() <= 1,
        (args.len() > 0) == (arg_runs(args, grouping_disabled).len() > 0),
    decreases args.len(),
{
    let runs = arg_runs(args, grouping_disabled);
    if args.len() == 0 {
        assert(joined(runs) =~= args);
    } else if args.len() == 1 {
        assert(runs.drop_last() =~= Seq::<Seq<Value>>::empty());
        assert(joined(runs.drop_last()) =~= Seq::<Value>::empty());
        assert(joined(runs) =~= args);
    } else {
        let before = arg_runs(args.drop_last(), grouping_disabled);
        lemma_arg_runs(args.drop_last(), grouping_disabled);
        if !grouping_disabled && starts_run(args.last()) {
            assert(runs.drop_last() =~= before);
            assert(runs.last() == seq![args.last()]);
            assert(joined(runs) == joined(before) + seq![args.last()]);
            assert(args.drop_last() + seq![args.last()] =~= args);
        } else {
            let open = before.last().push(args.last());
            assert(runs == before.drop_last().push(open));
            assert(runs.drop_last() =~= before.drop_last());
            assert(joined(before) == joined(before.drop_last()) + before.last());
            assert(joined(runs) == joined(before.drop_last()) + open);
            assert(joined(before.drop_last()) + open =~= (joined(before.drop_last())
                + before.last()).push(args.last()));
            assert(args.drop_last().push(args.last()) =~= args);
            assert forall|k: int| 0 <= k < runs.len() implies (#[trigger] runs[k]).len() > 0 by {
                if k < runs.len() - 1 {
                    assert(runs[k] == before[k]);
                }
            }
            if !grouping_disabled {
                assert forall|k: int| 0 < k < runs.len() implies starts_run(
                    (#[trigger] runs[k])[0],
                ) by {
                    if k < runs.len() - 1 {
                        assert(runs[k] == before[k]);
                    } else {
                        assert(open[0] == before[k][0]);
                    }
                }
                assert forall|k: int, j: int|
                    0 <= k < runs.len() && 0 < j < runs[k].len() implies !starts_run(
                    #[trigger] runs[k][j],
                ) by {
                    if k < runs.len() - 1 {
                        assert(runs[k] == before[k]);
                    } else if j < before[k].len() {
                        assert(open[j] == before[k][j]);
                    }
                }
            }
        }
    }
}

} // verus!
