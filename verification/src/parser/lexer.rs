//! Lexical primitives: character classes, runs of characters, keywords.
use vstd::prelude::*;
use crate::parser::error::{
    advances, agrees, agrees_at, grammar_error, lex_error, GrammarError, LexError, ParseError,
    Parsed, Skipped,
};
use crate::parser::text::string_from;

verus! {

/// Whether `c` has the Unicode property `White_Space`.
pub uninterp spec fn is_unicode_whitespace(c: char) -> bool;

/// `char::is_whitespace` tells whether a character has the Unicode property
/// `White_Space`; the contract gives that answer a name.
pub assume_specification[ char::is_whitespace ](c: char) -> (b: bool)
    ensures
        b == is_unicode_whitespace(c),
;

/// The sets of characters that the grammar scans runs of.
#[derive(Debug, Clone, Copy, PartialEq, Eq)]
pub enum CharClass {
    /// Blank and tab.
    Space,
    /// Blank, tab, carriage return and line feed.
    Multispace,
    /// Everything but a line feed: the text of a comment.
    CommentText,
    /// ASCII letters, ASCII digits and the underscore: a command name.
    Name,
    /// Everything but white space, round brackets and braces: a bare token.
    Token,
}

/// `c` is an ASCII letter or an ASCII digit.
pub open spec fn is_ascii_alphanumeric(c: char) -> bool {
    ('a' <= c && c <= 'z') || ('A' <= c && c <= 'Z') || ('0' <= c && c <= '9')
}

/// `c` may stand in an argument specifier: `A` to `Z`, `0` to `9`, or `_`.
pub open spec fn is_specifier_char(c: char) -> bool {
    ('A' <= c && c <= 'Z') || ('0' <= c && c <= '9') || c == '_'
}

/// `c` belongs to `class`.
pub open spec fn in_class(class: CharClass, c: char) -> bool {
    match class {
        CharClass::Space => c == ' ' || c == '\t',
        CharClass::Multispace => c == ' ' || c == '\t' || c == '\r' || c == '\n',
        CharClass::CommentText => c != '\n',
        CharClass::Name => is_ascii_alphanumeric(c) || c == '_',
        CharClass::Token => !is_unicode_whitespace(c) && c != '(' && c != ')' && c != '{' && c
            != '}',
    }
}

/// The end of the longest run of characters of `class` that starts at `pos`.
pub open spec fn run_end(s: Seq<char>, pos: int, class: CharClass) -> int
    decreases s.len() - pos,
{
    if 0 <= pos < s.len() && in_class(class, s[pos]) {
        run_end(s, pos + 1, class)
    } else {
        pos
    }
}

/// A run ends at or after its start, and inside the input if it started
/// there; every character of it is of the class and the character after it,
/// if any, is not.
pub proof fn lemma_run_end(s: Seq<char>, pos: int, class: CharClass)
    ensures
        pos <= run_end(s, pos, class),
        pos <= s.len() ==> run_end(s, pos, class) <= s.len(),
        pos < run_end(s, pos, class) ==> 0 <= pos && run_end(s, pos, class) <= s.len(),
        forall|i: int| pos <= i < run_end(s, pos, class) ==> in_class(class, #[trigger] s[i]),
        0 <= run_end(s, pos, class) < s.len() ==> !in_class(class, s[run_end(s, pos, class)]),
    decreases s.len() - pos,
{
    if 0 <= pos < s.len() && in_class(class, s[pos]) {
        lemma_run_end(s, pos + 1, class);
    }
}

/// Whether `c` belongs to `class`.
pub fn class_contains(class: CharClass, c: char) -> (b: bool)
    ensures
        b == in_class(class, c),
{
    match class {
        CharClass::Space => c == ' ' || c == '\t',
        CharClass::Multispace => c == ' ' || c == '\t' || c == '\r' || c == '\n',
        CharClass::CommentText => c != '\n',
        CharClass::Name => ('a' <= c && c <= 'z') || ('A' <= c && c <= 'Z') || ('0' <= c && c
            <= '9') || c == '_',
        CharClass::Token => !c.is_whitespace() && c != '(' && c != ')' && c != '{' && c != '}',
    }
}

/// Scans the longest run of characters of `class` from `pos` and returns its end.
pub fn scan_run(input: &[char], pos: usize, class: CharClass) -> (end: usize)
    ensures
        end == run_end(input@, pos as int, class),
        pos <= end,
        pos <= input.len() ==> end <= input.len(),
{
    let mut i: usize = pos;
    while i < input.len() && class_contains(class, input[i])
        invariant
            pos <= i,
            pos <= input.len() ==> i <= input.len(),
            run_end(input@, pos as int, class) == run_end(input@, i as int, class),
        decreases input.len() - i,
    {
        i += 1;
    }
    i
}

/// The number that stands for `c` when letter case is ignored: ASCII capitals
/// count as their small letters.
pub open spec fn fold_case(c: char) -> int {
    if 'A' <= c && c <= 'Z' {
        c as int + 32
    } else {
        c as int
    }
}

/// `word` stands in `s` at `pos`, up to the case of ASCII letters.
pub open spec fn keyword_at(s: Seq<char>, pos: int, word: Seq<char>) -> bool {
    &&& 0 <= pos
    &&& pos + word.len() <= s.len()
    &&& forall|i: int| 0 <= i < word.len() ==> fold_case(s[pos + i]) == fold_case(#[trigger] word[i])
}

/// `a` and `b` are the same word, up to the case of ASCII letters.
pub open spec fn same_word(a: Seq<char>, b: Seq<char>) -> bool {
    &&& a.len() == b.len()
    &&& forall|i: int| 0 <= i < a.len() ==> fold_case(#[trigger] a[i]) == fold_case(b[i])
}

/// A word that stands at `pos` in any letter case is the same word as the
/// text that stands there.
pub proof fn lemma_keyword_is_same_word(s: Seq<char>, pos: int, word: Seq<char>)
    requires
        keyword_at(s, pos, word),
    ensures
        same_word(s.subrange(pos, pos + word.len()), word),
{
    let text = s.subrange(pos, pos + word.len());
    assert forall|i: int| 0 <= i < text.len() implies fold_case(#[trigger] text[i]) == fold_case(
        word[i],
    ) by {
        assert(fold_case(s[pos + i]) == fold_case(word[i]));
    }
}

/// The case-folded number of `c`.
pub fn fold(c: char) -> (n: u32)
    ensures
        n == fold_case(c),
{
    let x: u32 = c as u32;
    if 'A' <= c && c <= 'Z' {
        x + 32
    } else {
        x
    }
}

/// Whether `word` stands in `input` at `pos`, up to the case of ASCII letters.
pub fn has_keyword(input: &[char], pos: usize, word: &str) -> (b: bool)
    ensures
        b == keyword_at(input@, pos as int, word@),
        b ==> pos + word@.len() <= input.len(),
{
    let n = word.unicode_len();
    if pos > input.len() || n > input.len() - pos {
        return false;
    }
    let mut i: usize = 0;
    while i < n
        invariant
            i <= n,
            n == word@.len(),
            pos + n <= input.len(),
            forall|j: int| 0 <= j < i ==> fold_case(input@[pos + j]) == fold_case(#[trigger] word@[j]),
        decreases n - i,
    {
        if fold(input[pos + i]) != fold(word.get_char(i)) {
            return false;
        }
        i += 1;
    }
    true
}

/// The character `c` at `pos`: the position after it.
pub open spec fn spec_expect_char(s: Seq<char>, pos: int, c: char) -> Skipped {
    if 0 <= pos < s.len() && s[pos] == c {
        Ok(pos + 1)
    } else {
        Err(lex_error(LexError::ExpectedChar(c), pos))
    }
}

/// The keyword `word` at `pos`, in any letter case: the position after it.
pub open spec fn spec_expect_keyword(s: Seq<char>, pos: int, word: Seq<char>) -> Skipped {
    if keyword_at(s, pos, word) {
        Ok(pos + word.len())
    } else {
        Err(grammar_error(GrammarError::ExpectedKeyword, pos))
    }
}

/// One or more blanks, tabs or line breaks at `pos`: the position after them.
pub open spec fn spec_multispace1(s: Seq<char>, pos: int) -> Skipped {
    if run_end(s, pos, CharClass::Multispace) > pos {
        Ok(run_end(s, pos, CharClass::Multispace))
    } else {
        Err(lex_error(LexError::ExpectedWhitespace, pos))
    }
}

/// A comment at `pos`: a `#` and the text up to the end of the line.
pub open spec fn spec_cmake_comment(s: Seq<char>, pos: int) -> Parsed<Seq<char>> {
    match spec_expect_char(s, pos, '#') {
        Err(e) => Err(e),
        Ok(start) => {
            let end = run_end(s, start, CharClass::CommentText);
            Ok((end, s.subrange(start, end)))
        },
    }
}

/// A command name at `pos`: the longest run of ASCII letters, ASCII digits
/// and underscores, which must not be empty.
pub open spec fn spec_cmake_command_name(s: Seq<char>, pos: int) -> Parsed<Seq<char>> {
    let end = run_end(s, pos, CharClass::Name);
    if end > pos {
        Ok((end, s.subrange(pos, end)))
    } else {
        Err(lex_error(LexError::InvalidCommandName, pos))
    }
}

/// Requires the character `c` at `pos`.
pub fn expect_char(input: &[char], pos: usize, c: char) -> (r: Result<usize, ParseError>)
    ensures
        agrees_at(r, spec_expect_char(input@, pos as int, c)),
        r matches Ok(end) ==> end == pos + 1 && end <= input.len(),
{
    if pos < input.len() && input[pos] == c {
        Ok(pos + 1)
    } else {
        Err(ParseError::lex(LexError::ExpectedChar(c), pos))
    }
}

/// Requires the keyword `word` at `pos`, in any letter case.
pub fn expect_keyword(input: &[char], pos: usize, word: &str) -> (r: Result<usize, ParseError>)
    ensures
        agrees_at(r, spec_expect_keyword(input@, pos as int, word@)),
        r matches Ok(end) ==> end == pos + word@.len() && end <= input.len(),
{
    if has_keyword(input, pos, word) {
        Ok(pos + word.unicode_len())
    } else {
        Err(ParseError::grammar(GrammarError::ExpectedKeyword, pos))
    }
}

/// Requires one or more blanks, tabs or line breaks at `pos`.
pub fn multispace1(input: &[char], pos: usize) -> (r: Result<usize, ParseError>)
    ensures
        agrees_at(r, spec_multispace1(input@, pos as int)),
        r matches Ok(end) ==> pos < end <= input.len(),
{
    let end = scan_run(input, pos, CharClass::Multispace);
    if end > pos {
        proof {
            lemma_run_end(input@, pos as int, CharClass::Multispace);
        }
        Ok(end)
    } else {
        Err(ParseError::lex(LexError::ExpectedWhitespace, pos))
    }
}

/// Parses a comment at `pos` and returns its text, without the `#`.
pub fn cmake_comment(input: &[char], pos: usize) -> (r: Result<(usize, String), ParseError>)
    ensures
        agrees(r, spec_cmake_comment(input@, pos as int)),
        advances(r, pos, input.len()),
{
    match expect_char(input, pos, '#') {
        Err(e) => Err(e),
        Ok(start) => {
            let end = scan_run(input, start, CharClass::CommentText);
            Ok((end, string_from(input, start, end)))
        },
    }
}

/// Parses a command name at `pos`.
pub fn cmake_command_name(input: &[char], pos: usize) -> (r: Result<(usize, String), ParseError>)
    ensures
        agrees(r, spec_cmake_command_name(input@, pos as int)),
        advances(r, pos, input.len()),
{
    let end = scan_run(input, pos, CharClass::Name);
    if end > pos {
        proof {
            lemma_run_end(input@, pos as int, CharClass::Name);
        }
        Ok((end, string_from(input, pos, end)))
    } else {
        Err(ParseError::lex(LexError::InvalidCommandName, pos))
    }
}

} // verus!
