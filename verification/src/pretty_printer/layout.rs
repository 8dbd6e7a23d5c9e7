//! Layout documents: what the `pretty` crate builds and renders, and the
//! value that each document stands for.
//!
//! Nothing in this file is proved. The contracts say of `pretty`'s
//! constructors what its source shows: which document each one builds from
//! its arguments, with the simplifications it makes on the way.
use vstd::prelude::*;

verus! {

/// What a layout document holds.
pub enum Layout {
    /// Nothing.
    Nil,
    /// Text, written as it is.
    Text(Seq<char>),
    /// A line break that is always taken.
    Hardline,
    /// One document after another.
    Append(Box<Layout>, Box<Layout>),
    /// A document that is laid out on one line if it fits.
    Group(Box<Layout>),
    /// A document whose lines are indented by that many more columns.
    Nest(int, Box<Layout>),
    /// The first document where the enclosing group is broken over lines,
    /// the second where it is on one line.
    FlatAlt(Box<Layout>, Box<Layout>),
}

/// `pretty::RcDoc`, a reference-counted layout document. Nothing inside it
/// is visible here.
#[verifier::external_type_specification]
#[verifier::external_body]
#[verifier::reject_recursive_types(A)]
pub struct ExRcDoc<'a, A>(pretty::RcDoc<'a, A>);

/// What the document `doc` holds.
pub uninterp spec fn doc_model(doc: pretty::RcDoc<'static, ()>) -> Layout;

/// The text that a document that holds `layout` renders to at `width`
/// columns; `None` if the renderer reports an error.
pub uninterp spec fn rendered(layout: Layout, width: usize) -> Option<Seq<char>>;

/// Every character of `text` is an ASCII character.
pub open spec fn is_ascii_text(text: Seq<char>) -> bool {
    forall|i: int| 0 <= i < text.len() ==> (#[trigger] text[i]) as int <= 127
}

/// The document for `text`: nothing if the text is empty.
pub open spec fn text(text: Seq<char>) -> Layout {
    if text.len() == 0 {
        Layout::Nil
    } else {
        Layout::Text(text)
    }
}

/// `first` and then `second`; either alone if the other is nothing.
pub open spec fn append(first: Layout, second: Layout) -> Layout {
    if first is Nil {
        second
    } else if second is Nil {
        first
    } else {
        Layout::Append(Box::new(first), Box::new(second))
    }
}

/// `layout` as a group. A group, nothing and ASCII text stay as they are.
pub open spec fn group(layout: Layout) -> Layout {
    match layout {
        Layout::Group(_) => layout,
        Layout::Nil => layout,
        Layout::Text(t) => if is_ascii_text(t) {
            layout
        } else {
            Layout::Group(Box::new(layout))
        },
        _ => Layout::Group(Box::new(layout)),
    }
}

/// `layout`, indented by `offset` more columns. Nothing stays nothing, and
/// an offset of zero changes nothing.
pub open spec fn nest(layout: Layout, offset: int) -> Layout {
    if layout is Nil || offset == 0 {
        layout
    } else {
        Layout::Nest(offset, Box::new(layout))
    }
}

/// `broken` where the enclosing group is broken, `flat` where it is not.
pub open spec fn flat_alt(broken: Layout, flat: Layout) -> Layout {
    Layout::FlatAlt(Box::new(broken), Box::new(flat))
}

/// A line break, or a blank where the enclosing group is on one line.
pub open spec fn break_or_blank() -> Layout {
    flat_alt(Layout::Hardline, Layout::Text(" "@))
}

/// A line break, or nothing where the enclosing group is on one line.
pub open spec fn break_or_nothing() -> Layout {
    flat_alt(Layout::Hardline, Layout::Nil)
}

/// A blank if what follows fits the line, else a line break.
pub open spec fn softline() -> Layout {
    Layout::Group(Box::new(break_or_blank()))
}

/// The documents `docs` one after another, with `separator` between each two.
pub open spec fn intersperse(docs: Seq<Layout>, separator: Layout) -> Layout
    decreases docs.len(),
{
    if docs.len() == 0 {
        Layout::Nil
    } else if docs.len() == 1 {
        docs[0]
    } else {
        append(append(intersperse(docs.drop_last(), separator), separator), docs.last())
    }
}

/// What the documents of `docs` hold, in order.
pub open spec fn docs_model(docs: Seq<pretty::RcDoc<'static, ()>>) -> Seq<Layout> {
    Seq::new(docs.len(), |i: int| doc_model(docs[i]))
}

/// `RcDoc::nil` builds the empty document.
#[verifier::external_body]
pub(crate) fn doc_nil() -> (doc: pretty::RcDoc<'static, ()>)
    ensures
        doc_model(doc) == Layout::Nil,
{
    pretty::RcDoc::nil()
}

/// `RcDoc::text` builds a text document, or the empty document from an
/// empty string.
#[verifier::external_body]
pub(crate) fn doc_text(data: String) -> (doc: pretty::RcDoc<'static, ()>)
    ensures
        doc_model(doc) == text(data@),
{
    pretty::RcDoc::text(data)
}

/// `RcDoc::hardline` builds a line break that is always taken.
#[verifier::external_body]
pub(crate) fn doc_hardline() -> (doc: pretty::RcDoc<'static, ()>)
    ensures
        doc_model(doc) == Layout::Hardline,
{
    pretty::RcDoc::hardline()
}

/// `RcDoc::space` builds the text of one blank.
#[verifier::external_body]
pub(crate) fn doc_space() -> (doc: pretty::RcDoc<'static, ()>)
    ensures
        doc_model(doc) == Layout::Text(" "@),
{
    pretty::RcDoc::space()
}

/// `RcDoc::line` builds a hard line break with a blank as its flat
/// alternative.
#[verifier::external_body]
pub(crate) fn doc_line() -> (doc: pretty::RcDoc<'static, ()>)
    ensures
        doc_model(doc) == break_or_blank(),
{
    pretty::RcDoc::line()
}

/// `RcDoc::line_` builds a hard line break with nothing as its flat
/// alternative.
#[verifier::external_body]
pub(crate) fn doc_line_() -> (doc: pretty::RcDoc<'static, ()>)
    ensures
        doc_model(doc) == break_or_nothing(),
{
    pretty::RcDoc::line_()
}

/// `RcDoc::softline` builds the group of what `RcDoc::line` builds.
#[verifier::external_body]
pub(crate) fn doc_softline() -> (doc: pretty::RcDoc<'static, ()>)
    ensures
        doc_model(doc) == softline(),
{
    pretty::RcDoc::softline()
}

/// `RcDoc::append` returns the other document if one of the two is empty,
/// else a document that holds both in order.
#[verifier::external_body]
pub(crate) fn doc_append(
    first: pretty::RcDoc<'static, ()>,
    second: pretty::RcDoc<'static, ()>,
) -> (doc: pretty::RcDoc<'static, ()>)
    ensures
        doc_model(doc) == append(doc_model(first), doc_model(second)),
{
    first.append(second)
}

/// `RcDoc::flat_alt` builds the document that acts as the first where it is
/// laid out over several lines and as the second on one line.
#[verifier::external_body]
pub(crate) fn doc_flat_alt(
    broken: pretty::RcDoc<'static, ()>,
    flat: pretty::RcDoc<'static, ()>,
) -> (doc: pretty::RcDoc<'static, ()>)
    ensures
        doc_model(doc) == flat_alt(doc_model(broken), doc_model(flat)),
{
    broken.flat_alt(flat)
}

/// `RcDoc::group` returns a group, an empty document or an ASCII text as it
/// is, and wraps any other document in a group.
#[verifier::external_body]
pub(crate) fn doc_group(inner: pretty::RcDoc<'static, ()>) -> (doc: pretty::RcDoc<'static, ()>)
    ensures
        doc_model(doc) == group(doc_model(inner)),
{
    inner.group()
}

/// `RcDoc::nest` returns an empty document as it is, and any document as it
/// is for an offset of zero; else it wraps the document with the offset.
#[verifier::external_body]
pub(crate) fn doc_nest(inner: pretty::RcDoc<'static, ()>, offset: isize) -> (doc: pretty::RcDoc<
    'static,
    (),
>)
    ensures
        doc_model(doc) == nest(doc_model(inner), offset as int),
{
    inner.nest(offset)
}

/// `RcDoc::intersperse` appends the documents in order, starting from the
/// empty document, with a copy of the separator appended before each
/// document but the first.
#[verifier::external_body]
pub(crate) fn doc_intersperse(
    docs: Vec<pretty::RcDoc<'static, ()>>,
    separator: pretty::RcDoc<'static, ()>,
) -> (doc: pretty::RcDoc<'static, ()>)
    ensures
        doc_model(doc) == intersperse(docs_model(docs@), doc_model(separator)),
{
    pretty::RcDoc::intersperse(docs, separator)
}

/// `Doc::render_fmt` lays the document out at `width` columns and writes
/// the text to a string. The text depends on what the document holds and on
/// the width alone; the contract gives it a name.
#[verifier::external_body]
pub(crate) fn doc_render(doc: &pretty::RcDoc<'static, ()>, width: usize) -> (out: Option<String>)
    ensures
        match out {
            Some(text) => rendered(doc_model(*doc), width) == Some(text@),
            None => rendered(doc_model(*doc), width) is None,
        },
{
    let mut text = String::new();
    match doc.render_fmt(width, &mut text) {
        Ok(()) => Some(text),
        Err(_) => None,
    }
}

} // verus!
