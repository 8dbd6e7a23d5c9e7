//! Parse errors: what went wrong, where, and while parsing what.
use vstd::prelude::*;

verus! {

/// A lexical primitive could not match at the current position.
#[derive(Debug, Clone, Copy, PartialEq, Eq)]
pub enum LexError {
    /// No letter, digit or underscore where a command name must start.
    InvalidCommandName,
    /// The given character was required and something else, or nothing,
    /// stood there.
    ExpectedChar(char),
    /// A quoted string was opened and the input ended before it was closed.
    UnterminatedString,
    /// At least one blank, tab or line break was required.
    ExpectedWhitespace,
    /// A bare token was required and a blank, a bracket or the end of input
    /// stood there.
    ExpectedToken,
}

/// A construct above the lexical level was malformed.
#[derive(Debug, Clone, Copy, PartialEq, Eq)]
pub enum GrammarError {
    /// A control-flow keyword stood where a command name was required.
    ReservedWord,
    /// The keyword that opens or closes a block was required.
    ExpectedKeyword,
    /// One of the operators of a condition was required.
    ExpectedOperator,
    /// The document ended and input was left over.
    TrailingInput,
}

/// The grammar rules that label an error on its way up.
#[derive(Debug, Clone, Copy, PartialEq, Eq)]
pub enum Rule {
    /// A bare token.
    StringPart,
    /// A value: a comment, a quoted string or a bare token.
    Value,
    /// A comment.
    Comment,
    /// A quoted string, as a value.
    QuotedStringLiteral,
    /// A bare token, as a value.
    StringLiteral,
    /// A command.
    Command,
    /// A line break.
    Newline,
    /// An `if` block.
    If,
    /// The head of an `if` block.
    IfCondition,
    /// The `endif` of an `if` block.
    EndIf,
    /// A `foreach` block.
    Foreach,
    /// A `function` block.
    Function,
    /// A `macro` block.
    Macro,
    /// A `block` block.
    Block,
    /// A condition.
    Condition,
    /// A bracketed condition.
    ConditionParentheses,
    /// A unary test.
    ConditionUnaryTest,
    /// A binary test.
    ConditionBinaryTest,
    /// A value, as a condition.
    ConditionValue,
    /// A negation.
    ConditionUnaryLogicalOperator,
    /// A binary logical operator.
    ConditionBinaryLogicalOperator,
    /// A comment inside a condition.
    ConditionComment,
}

/// Why a parse failed. Positions are offsets into the input, in characters.
#[derive(Debug, PartialEq, Eq)]
#[allow(inconsistent_fields)]
pub enum ParseError {
    /// A lexical primitive failed at `offset`.
    Lex { kind: LexError, offset: usize },
    /// A grammar rule was violated at `offset`.
    Grammar { kind: GrammarError, offset: usize },
    /// `cause` happened while parsing `rule`, which started at `offset`.
    Context { rule: Rule, offset: usize, cause: Box<ParseError> },
    /// Two alternatives were tried at one position, in this order, and both
    /// failed. Longer alternations nest to the right.
    Or { first: Box<ParseError>, second: Box<ParseError> },
}

/// The outcome of a grammar rule in specifications: the position after the
/// match and the value matched, or the error.
pub type Parsed<T> = Result<(int, T), ParseError>;

/// An executable outcome `r` is the one that the specification `s` names.
pub open spec fn agrees<T: View>(r: Result<(usize, T), ParseError>, s: Parsed<T::V>) -> bool {
    match r {
        Ok((end, value)) => s == Ok::<(int, T::V), ParseError>((end as int, value@)),
        Err(e) => s == Err::<(int, T::V), ParseError>(e),
    }
}

/// The outcome of a rule that yields no value: the position after the match,
/// or the error.
pub type Skipped = Result<int, ParseError>;

/// An executable outcome `r` is the one that the specification `s` names.
pub open spec fn agrees_at(r: Result<usize, ParseError>, s: Skipped) -> bool {
    match r {
        Ok(end) => s == Ok::<int, ParseError>(end as int),
        Err(e) => s == Err::<int, ParseError>(e),
    }
}

/// A match that started at `pos` consumed at least one of the `len`
/// characters of the input.
pub open spec fn advances<T>(r: Result<(usize, T), ParseError>, pos: usize, len: usize) -> bool {
    match r {
        Ok((end, _)) => pos < end <= len,
        Err(_) => true,
    }
}

/// A match named by a specification that started at `pos` consumed at least
/// one character of an input of `len` characters.
pub open spec fn consumes<T>(s: Parsed<T>, pos: int, len: nat) -> bool {
    match s {
        Ok((end, _)) => pos < end <= len,
        Err(_) => true,
    }
}

/// A lexical error at `pos`.
pub open spec fn lex_error(kind: LexError, pos: int) -> ParseError {
    ParseError::Lex { kind, offset: pos as usize }
}

/// A grammar error at `pos`.
pub open spec fn grammar_error(kind: GrammarError, pos: int) -> ParseError {
    ParseError::Grammar { kind, offset: pos as usize }
}

/// `cause`, labelled with the rule that was being parsed from `pos`.
pub open spec fn in_context(rule: Rule, pos: int, cause: ParseError) -> ParseError {
    ParseError::Context { rule, offset: pos as usize, cause: Box::new(cause) }
}

/// The failure of two alternatives tried in turn.
pub open spec fn either(first: ParseError, second: ParseError) -> ParseError {
    ParseError::Or { first: Box::new(first), second: Box::new(second) }
}

/// Labels the error of `r`, if it is one, with `rule` and `pos`.
pub open spec fn with_context<T>(rule: Rule, pos: int, r: Parsed<T>) -> Parsed<T> {
    match r {
        Ok(v) => Ok(v),
        Err(e) => Err(in_context(rule, pos, e)),
    }
}

/// The first of two alternatives that matches; the error of both if neither does.
pub open spec fn or_else<T>(first: Result<T, ParseError>, second: Result<T, ParseError>) -> Result<
    T,
    ParseError,
> {
    match first {
        Ok(v) => Ok(v),
        Err(e1) => match second {
            Ok(v) => Ok(v),
            Err(e2) => Err(either(e1, e2)),
        },
    }
}

/// The outcome `r` with its value passed through `f`.
pub open spec fn map_parsed<A, B>(r: Parsed<A>, f: spec_fn(A) -> B) -> Parsed<B> {
    match r {
        Ok((end, v)) => Ok((end, f(v))),
        Err(e) => Err(e),
    }
}

impl ParseError {
    /// A lexical error at `pos`.
    pub fn lex(kind: LexError, pos: usize) -> (e: ParseError)
        ensures
            e == lex_error(kind, pos as int),
    {
        ParseError::Lex { kind, offset: pos }
    }

    /// A grammar error at `pos`.
    pub fn grammar(kind: GrammarError, pos: usize) -> (e: ParseError)
        ensures
            e == grammar_error(kind, pos as int),
    {
        ParseError::Grammar { kind, offset: pos }
    }

    /// This error, labelled with the rule that was being parsed from `pos`.
    pub fn context(self, rule: Rule, pos: usize) -> (e: ParseError)
        ensures
            e == in_context(rule, pos as int, self),
    {
        ParseError::Context { rule, offset: pos, cause: Box::new(self) }
    }

    /// The failure of this alternative and then of `second`.
    pub fn or(self, second: ParseError) -> (e: ParseError)
        ensures
            e == either(self, second),
    {
        ParseError::Or { first: Box::new(self), second: Box::new(second) }
    }
}

} // verus!
