//! The document tree, and the mathematical value that each node stands for.
//!
//! Every executable node type has a `view` that maps it to a specification
//! datatype over `Seq`; contracts of the parser and of the printer are stated
//! over those views.
use vstd::prelude::*;

verus! {

/// What a [`CMakeValue`] stands for.
pub enum Value {
    ArgumentSpecifier(Seq<char>),
    QuotedString(Seq<char>),
    StringLiteral(Seq<char>),
    Comment(Seq<char>),
    Parenthesis(Seq<char>),
}

/// What a [`CMakeCondition`] stands for.
pub enum Condition {
    Parentheses { value: Box<Condition> },
    UnaryTest { operator: Seq<char>, value: Box<Condition> },
    BinaryTest { operator: Seq<char>, left: Box<Condition>, right: Box<Condition> },
    UnaryLogicalOperator { operator: Seq<char>, value: Box<Condition> },
    BinaryLogicalOperator { operator: Seq<char>, left: Box<Condition>, right: Box<Condition> },
    Comment { content: Seq<char>, tail: Option<Box<Condition>> },
    Value(Value),
}

/// What a [`CMakeCommand`] stands for.
pub struct Command {
    pub name: Seq<char>,
    pub args: Seq<Value>,
}

/// What a [`CMakeCommandGroup`] stands for.
pub struct CommandGroup {
    pub clause: Seq<Value>,
    pub body: Seq<Statement>,
    pub end_clause: Seq<Value>,
}

/// What a [`CMakeIfBase`] stands for.
pub struct IfBase {
    pub condition: Condition,
    pub body: Seq<Statement>,
}

/// What a [`CMakeStatement`] stands for.
pub enum Statement {
    If { base: IfBase, else_ifs: Seq<IfBase>, else_body: Option<Seq<Statement>> },
    For { group: CommandGroup },
    Function { group: CommandGroup },
    Macro { group: CommandGroup },
    Block { group: CommandGroup },
    Command(Command),
    Comment(Seq<char>),
    Newline,
}

/// What a [`CMakeDocument`] stands for.
pub struct Document {
    pub statements: Seq<Statement>,
}

/// A leaf of the tree: one argument of a command or operand of a condition.
#[derive(Debug, PartialEq, PartialOrd)]
pub enum CMakeValue {
    /// A bare token made of upper-case letters, digits and underscores only.
    ArgumentSpecifier(String),
    /// The text between two double quotes, escapes kept as written.
    QuotedString(String),
    /// Any other bare token.
    StringLiteral(String),
    /// The text after a `#`, up to the end of the line.
    Comment(String),
    /// A literal `(` or `)` inside an argument list.
    Parenthesis(String),
}

/// The boolean expression of an `if` or `elseif` clause.
#[derive(Debug, PartialEq, PartialOrd)]
pub enum CMakeCondition {
    Parentheses { value: Box<CMakeCondition> },
    UnaryTest { operator: String, value: Box<CMakeCondition> },
    BinaryTest { operator: String, left: Box<CMakeCondition>, right: Box<CMakeCondition> },
    UnaryLogicalOperator { operator: String, value: Box<CMakeCondition> },
    BinaryLogicalOperator { operator: String, left: Box<CMakeCondition>, right: Box<CMakeCondition> },
    Comment { content: String, tail: Option<Box<CMakeCondition>> },
    Value(CMakeValue),
}

/// A command invocation: a name and its arguments.
#[derive(Debug, PartialEq, PartialOrd)]
pub struct CMakeCommand {
    pub name: String,
    pub args: Vec<CMakeValue>,
}

/// A condition and the statements it guards.
#[derive(Debug, PartialEq, PartialOrd)]
pub struct CMakeIfBase {
    pub condition: CMakeCondition,
    pub body: Vec<CMakeStatement>,
}

/// An `if` block with its `elseif` clauses and optional `else` body.
#[derive(Debug, PartialEq, PartialOrd)]
pub struct CMakeIfStatement {
    pub base: CMakeIfBase,
    pub else_ifs: Vec<CMakeIfBase>,
    pub else_body: Option<Vec<CMakeStatement>>,
}

/// The shape shared by `foreach`, `function`, `macro` and `block`.
#[derive(Debug, PartialEq, PartialOrd)]
pub struct CMakeCommandGroup {
    pub clause: Vec<CMakeValue>,
    pub body: Vec<CMakeStatement>,
    pub end_clause: Vec<CMakeValue>,
}

/// A `foreach` block.
#[derive(Debug, PartialEq, PartialOrd)]
pub struct CMakeForEachStatement {
    pub group: CMakeCommandGroup,
}

/// A `function` block.
#[derive(Debug, PartialEq, PartialOrd)]
pub struct CMakeFunctionStatement {
    pub group: CMakeCommandGroup,
}

/// A `macro` block.
#[derive(Debug, PartialEq, PartialOrd)]
pub struct CMakeMacroStatement {
    pub group: CMakeCommandGroup,
}

/// A `block` block.
#[derive(Debug, PartialEq, PartialOrd)]
pub struct CMakeBlockStatement {
    pub group: CMakeCommandGroup,
}

/// One statement of a document or of a block body.
#[derive(Debug, PartialEq, PartialOrd)]
pub enum CMakeStatement {
    If(CMakeIfStatement),
    For(CMakeForEachStatement),
    Function(CMakeFunctionStatement),
    Block(CMakeBlockStatement),
    Macro(CMakeMacroStatement),
    Command(CMakeCommand),
    Comment(String),
    Newline,
}

/// The root of the tree.
#[derive(Debug, PartialEq, PartialOrd)]
pub struct CMakeDocument {
    pub statements: Vec<CMakeStatement>,
}

impl View for CMakeValue {
    type V = Value;

    open spec fn view(&self) -> Value {
        match self {
            CMakeValue::ArgumentSpecifier(s) => Value::ArgumentSpecifier(s@),
            CMakeValue::QuotedString(s) => Value::QuotedString(s@),
            CMakeValue::StringLiteral(s) => Value::StringLiteral(s@),
            CMakeValue::Comment(s) => Value::Comment(s@),
            CMakeValue::Parenthesis(s) => Value::Parenthesis(s@),
        }
    }
}

/// The values that a vector of values stands for, in order.
pub open spec fn values_view(v: Seq<CMakeValue>) -> Seq<Value> {
    Seq::new(v.len(), |i: int| v[i]@)
}

/// The condition that `c` stands for.
pub open spec fn condition_view(c: CMakeCondition) -> Condition
    decreases c,
{
    match c {
        CMakeCondition::Parentheses { value } => Condition::Parentheses {
            value: Box::new(condition_view(*value)),
        },
        CMakeCondition::UnaryTest { operator, value } => Condition::UnaryTest {
            operator: operator@,
            value: Box::new(condition_view(*value)),
        },
        CMakeCondition::BinaryTest { operator, left, right } => Condition::BinaryTest {
            operator: operator@,
            left: Box::new(condition_view(*left)),
            right: Box::new(condition_view(*right)),
        },
        CMakeCondition::UnaryLogicalOperator { operator, value } => {
            Condition::UnaryLogicalOperator {
                operator: operator@,
                value: Box::new(condition_view(*value)),
            }
        },
        CMakeCondition::BinaryLogicalOperator { operator, left, right } => {
            Condition::BinaryLogicalOperator {
                operator: operator@,
                left: Box::new(condition_view(*left)),
                right: Box::new(condition_view(*right)),
            }
        },
        CMakeCondition::Comment { content, tail } => Condition::Comment {
            content: content@,
            tail: match tail {
                Some(t) => Some(Box::new(condition_view(*t))),
                None => None,
            },
        },
        CMakeCondition::Value(v) => Condition::Value(v@),
    }
}

impl View for CMakeCondition {
    type V = Condition;

    open spec fn view(&self) -> Condition {
        condition_view(*self)
    }
}

impl View for CMakeCommand {
    type V = Command;

    open spec fn view(&self) -> Command {
        Command { name: self.name@, args: values_view(self.args@) }
    }
}

/// The statements that a vector of statements stands for, in order.
pub open spec fn statements_view(v: Seq<CMakeStatement>) -> Seq<Statement>
    decreases v,
{
    Seq::new(
        v.len(),
        |i: int| if 0 <= i < v.len() { statement_view(v[i]) } else { Statement::Newline },
    )
}

/// The clause that `b` stands for.
pub open spec fn if_base_view(b: CMakeIfBase) -> IfBase
    decreases b,
{
    IfBase { condition: b.condition@, body: statements_view(b.body@) }
}

/// The clauses that a vector of `elseif` clauses stands for, in order.
pub open spec fn if_bases_view(v: Seq<CMakeIfBase>) -> Seq<IfBase>
    decreases v,
{
    Seq::new(v.len(), |i: int| if 0 <= i < v.len() { if_base_view(v[i]) } else { arbitrary() })
}

/// The group that `g` stands for.
pub open spec fn group_view(g: CMakeCommandGroup) -> CommandGroup
    decreases g,
{
    CommandGroup {
        clause: values_view(g.clause@),
        body: statements_view(g.body@),
        end_clause: values_view(g.end_clause@),
    }
}

/// The statement that `st` stands for.
pub open spec fn statement_view(st: CMakeStatement) -> Statement
    decreases st,
{
    match st {
        CMakeStatement::If(s) => Statement::If {
            base: if_base_view(s.base),
            else_ifs: if_bases_view(s.else_ifs@),
            else_body: match s.else_body {
                Some(b) => Some(statements_view(b@)),
                None => None,
            },
        },
        CMakeStatement::For(s) => Statement::For { group: group_view(s.group) },
        CMakeStatement::Function(s) => Statement::Function { group: group_view(s.group) },
        CMakeStatement::Macro(s) => Statement::Macro { group: group_view(s.group) },
        CMakeStatement::Block(s) => Statement::Block { group: group_view(s.group) },
        CMakeStatement::Command(c) => Statement::Command(c@),
        CMakeStatement::Comment(s) => Statement::Comment(s@),
        CMakeStatement::Newline => Statement::Newline,
    }
}

impl View for CMakeIfBase {
    type V = IfBase;

    open spec fn view(&self) -> IfBase {
        if_base_view(*self)
    }
}

impl View for CMakeCommandGroup {
    type V = CommandGroup;

    open spec fn view(&self) -> CommandGroup {
        group_view(*self)
    }
}

impl View for CMakeIfStatement {
    type V = Statement;

    open spec fn view(&self) -> Statement {
        Statement::If {
            base: if_base_view(self.base),
            else_ifs: if_bases_view(self.else_ifs@),
            else_body: match self.else_body {
                Some(b) => Some(statements_view(b@)),
                None => None,
            },
        }
    }
}

impl View for CMakeForEachStatement {
    type V = Statement;

    open spec fn view(&self) -> Statement {
        Statement::For { group: group_view(self.group) }
    }
}

impl View for CMakeFunctionStatement {
    type V = Statement;

    open spec fn view(&self) -> Statement {
        Statement::Function { group: group_view(self.group) }
    }
}

impl View for CMakeMacroStatement {
    type V = Statement;

    open spec fn view(&self) -> Statement {
        Statement::Macro { group: group_view(self.group) }
    }
}

impl View for CMakeBlockStatement {
    type V = Statement;

    open spec fn view(&self) -> Statement {
        Statement::Block { group: group_view(self.group) }
    }
}

impl View for CMakeStatement {
    type V = Statement;

    open spec fn view(&self) -> Statement {
        statement_view(*self)
    }
}

impl View for CMakeDocument {
    type V = Document;

    open spec fn view(&self) -> Document {
        Document { statements: statements_view(self.statements@) }
    }
}

} // verus!
