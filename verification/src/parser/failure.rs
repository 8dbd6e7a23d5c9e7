//! Parse failures as a caller sees them: anchored to lines and columns, with
//! the alternatives that were tried at one place side by side.
use vstd::prelude::*;
use crate::parser::error::{GrammarError, LexError, ParseError, Rule};

verus! {

/// A place in the input. Both numbers count from zero.
#[derive(Debug, Clone, Copy, PartialEq, Eq)]
pub struct Location {
    /// The number of line breaks before the place.
    pub line: usize,
    /// The number of characters between the start of the line and the place.
    pub column: usize,
}

/// The number of source lines that are shown around a place.
pub const EXCERPT_LINES: usize = 6;

impl Location {
    /// The first line of the excerpt that shows this place, counted from
    /// zero: two lines before the place, or the first line of the source.
    pub fn excerpt_start(&self) -> (first: usize)
        ensures
            first == if self.line >= 3 {
                self.line - 2
            } else {
                0
            },
            first <= self.line < first + EXCERPT_LINES,
    {
        if self.line >= 3 {
            self.line - 2
        } else {
            0
        }
    }
}

/// The number of line feeds among the first `offset` characters of `s`.
pub open spec fn line_breaks_before(s: Seq<char>, offset: int) -> int
    decreases offset,
{
    if offset <= 0 || offset > s.len() {
        0
    } else if s[offset - 1] == '\n' {
        line_breaks_before(s, offset - 1) + 1
    } else {
        line_breaks_before(s, offset - 1)
    }
}

/// The offset at which the line that holds `offset` starts: just after the
/// last line feed before `offset`, or zero.
pub open spec fn line_start(s: Seq<char>, offset: int) -> int
    decreases offset,
{
    if offset <= 0 || offset > s.len() {
        0
    } else if s[offset - 1] == '\n' {
        offset
    } else {
        line_start(s, offset - 1)
    }
}

/// The place of `offset` in `s`. An offset after the end of `s` counts as
/// the end.
pub open spec fn location_of(s: Seq<char>, offset: usize) -> Location {
    let at = if offset <= s.len() {
        offset as int
    } else {
        s.len() as int
    };
    Location {
        line: line_breaks_before(s, at) as usize,
        column: (at - line_start(s, at)) as usize,
    }
}

/// The place of `offset` in `input`.
pub fn locate(input: &[char], offset: usize) -> (at: Location)
    ensures
        at == location_of(input@, offset),
{
    let end = if offset <= input.len() {
        offset
    } else {
        input.len()
    };
    let mut line: usize = 0;
    let mut start: usize = 0;
    let mut i: usize = 0;
    while i < end
        invariant
            i <= end <= input.len(),
            line == line_breaks_before(input@, i as int),
            start == line_start(input@, i as int),
            line <= i,
            start <= i,
        decreases end - i,
    {
        if input[i] == '\n' {
            line += 1;
            start = i + 1;
        }
        i += 1;
    }
    Location { line, column: end - start }
}

/// What a [`ParseFailure`] stands for.
#[allow(inconsistent_fields)]
pub enum Failure {
    Lex { kind: LexError, at: Location },
    Grammar { kind: GrammarError, at: Location },
    Context { rule: Rule, at: Location, cause: Box<Failure> },
    AlternativeExhausted { branches: Seq<Failure> },
}

/// Why a parse failed, with the place of each step in lines and columns.
#[derive(Debug, PartialEq, Eq)]
#[allow(inconsistent_fields)]
pub enum ParseFailure {
    /// A lexical primitive failed at `at`.
    Lex { kind: LexError, at: Location },
    /// A grammar rule was violated at `at`.
    Grammar { kind: GrammarError, at: Location },
    /// `cause` happened while parsing `rule`, which started at `at`.
    Context { rule: Rule, at: Location, cause: Box<ParseFailure> },
    /// Every alternative at one place failed; `branches` holds the failure of
    /// each, in the order in which they were tried.
    AlternativeExhausted { branches: Vec<ParseFailure> },
}

/// The failures that a vector of failures stands for, in order.
pub open spec fn failures_view(v: Seq<ParseFailure>) -> Seq<Failure>
    decreases v,
{
    Seq::new(v.len(), |i: int| if 0 <= i < v.len() { failure_view(v[i]) } else { arbitrary() })
}

/// The failure that `f` stands for.
pub open spec fn failure_view(f: ParseFailure) -> Failure
    decreases f,
{
    match f {
        ParseFailure::Lex { kind, at } => Failure::Lex { kind, at },
        ParseFailure::Grammar { kind, at } => Failure::Grammar { kind, at },
        ParseFailure::Context { rule, at, cause } => Failure::Context {
            rule,
            at,
            cause: Box::new(failure_view(*cause)),
        },
        ParseFailure::AlternativeExhausted { branches } => Failure::AlternativeExhausted {
            branches: failures_view(branches@),
        },
    }
}

impl View for ParseFailure {
    type V = Failure;

    open spec fn view(&self) -> Failure {
        failure_view(*self)
    }
}

/// The failures of the alternatives that `e` holds, in the order in which
/// they were tried: those of both sides if `e` is an alternation, else `e`
/// alone.
pub open spec fn located_branches(s: Seq<char>, e: ParseError) -> Seq<Failure>
    decreases e, 1int,
{
    match e {
        ParseError::Or { first, second } => located_branches(s, *first) + located_branches(
            s,
            *second,
        ),
        _ => seq![located(s, e)],
    }
}

/// The error `e` of a parse of `s`, with each offset turned into a line and
/// a column, and each alternation flattened into one list of branches.
pub open spec fn located(s: Seq<char>, e: ParseError) -> Failure
    decreases e, 0int,
{
    match e {
        ParseError::Lex { kind, offset } => Failure::Lex { kind, at: location_of(s, offset) },
        ParseError::Grammar { kind, offset } => Failure::Grammar {
            kind,
            at: location_of(s, offset),
        },
        ParseError::Context { rule, offset, cause } => Failure::Context {
            rule,
            at: location_of(s, offset),
            cause: Box::new(located(s, *cause)),
        },
        ParseError::Or { first, second } => Failure::AlternativeExhausted {
            branches: located_branches(s, *first) + located_branches(s, *second),
        },
    }
}

/// Adds to `out` the failures of the alternatives that `e` holds.
fn collect_branches(input: &[char], e: &ParseError, out: &mut Vec<ParseFailure>)
    ensures
        failures_view(final(out)@) == failures_view(old(out)@) + located_branches(input@, *e),
    decreases e, 1int,
{
    match e {
        ParseError::Or { first, second } => {
            collect_branches(input, first, out);
            collect_branches(input, second, out);
            assert(failures_view(out@) =~= failures_view(old(out)@) + located_branches(
                input@,
                *e,
            ));
        },
        _ => {
            let f = locate_error(input, e);
            out.push(f);
            assert(failures_view(out@) =~= failures_view(old(out)@) + seq![f@]);
        },
    }
}

/// Turns the offsets of `e` into lines and columns of `input`.
pub fn locate_error(input: &[char], e: &ParseError) -> (f: ParseFailure)
    ensures
        f@ == located(input@, *e),
    decreases e, 0int,
{
    match e {
        ParseError::Lex { kind, offset } => ParseFailure::Lex {
            kind: *kind,
            at: locate(input, *offset),
        },
        ParseError::Grammar { kind, offset } => ParseFailure::Grammar {
            kind: *kind,
            at: locate(input, *offset),
        },
        ParseError::Context { rule, offset, cause } => ParseFailure::Context {
            rule: *rule,
            at: locate(input, *offset),
            cause: Box::new(locate_error(input, cause)),
        },
        ParseError::Or { first, second } => {
            let mut branches: Vec<ParseFailure> = Vec::new();
            assert(failures_view(branches@) =~= Seq::<Failure>::empty());
            collect_branches(input, first, &mut branches);
            collect_branches(input, second, &mut branches);
            assert(failures_view(branches@) =~= located_branches(input@, **first)
                + located_branches(input@, **second));
            ParseFailure::AlternativeExhausted { branches }
        },
    }
}

/// The later of two places: the one on the later line, or at the later
/// column of the same line; the first if they are the same place.
pub open spec fn later(a: Location, b: Location) -> Location {
    if a.line < b.line || (a.line == b.line && a.column < b.column) {
        b
    } else {
        a
    }
}

/// The latest place among the first `n` failures of `failures`; the start
/// of the input if there is none.
pub open spec fn furthest_of(failures: Seq<Failure>, n: int) -> Location
    decreases failures, n,
{
    if n <= 0 || n > failures.len() {
        Location { line: 0, column: 0 }
    } else {
        later(furthest_of(failures, n - 1), furthest(failures[n - 1]))
    }
}

/// The latest place that a failure names: how far the parser got.
pub open spec fn furthest(f: Failure) -> Location
    decreases f, 0int,
{
    match f {
        Failure::Lex { at, .. } => at,
        Failure::Grammar { at, .. } => at,
        Failure::Context { at, cause, .. } => later(at, furthest(*cause)),
        Failure::AlternativeExhausted { branches } => furthest_of(branches, branches.len() as int),
    }
}

impl Location {
    /// The later of this place and `other`.
    pub fn max(self, other: Location) -> (at: Location)
        ensures
            at == later(self, other),
    {
        if self.line < other.line || (self.line == other.line && self.column < other.column) {
            other
        } else {
            self
        }
    }
}

/// The latest place that the failures of `branches` name.
fn furthest_among(branches: &Vec<ParseFailure>) -> (at: Location)
    ensures
        at == furthest_of(failures_view(branches@), branches@.len() as int),
    decreases branches, 1int,
{
    let mut at = Location { line: 0, column: 0 };
    let mut i: usize = 0;
    while i < branches.len()
        invariant
            i <= branches.len(),
            at == furthest_of(failures_view(branches@), i as int),
        decreases branches.len() - i,
    {
        at = at.max(branches[i].furthest());
        i += 1;
    }
    at
}

impl ParseFailure {
    /// The latest place that this failure names: how far the parser got
    /// before every alternative had failed.
    pub fn furthest(&self) -> (at: Location)
        ensures
            at == furthest(self@),
        decreases self, 0int,
    {
        match self {
            ParseFailure::Lex { at, .. } => *at,
            ParseFailure::Grammar { at, .. } => *at,
            ParseFailure::Context { at, cause, .. } => at.max(cause.furthest()),
            ParseFailure::AlternativeExhausted { branches } => furthest_among(branches),
        }
    }
}

} // verus!
