//! Building the events of a generated document.

use vstd::prelude::*;
use crate::generator::writer::{attrs_v, XmlOp, XmlOpV};
use crate::model::views;
use crate::text::copy_str;

verus! {

/// The events with one more appended.
pub fn push_op(ops: &mut Vec<XmlOp>, op: XmlOp)
    ensures
        views(final(ops)@) == views(old(ops)@).push(op@),
{
    ops.push(op);
    assert(views(ops@) =~= views(old(ops)@).push(op@));
}

/// Appends an attribute.
pub fn push_attr(a: &mut Vec<(String, String)>, k: &str, v: String)
    ensures
        attrs_v(final(a)@) == attrs_v(old(a)@).push((k@, v@)),
{
    a.push((copy_str(k), v));
    assert(attrs_v(a@) =~= attrs_v(old(a)@).push((k@, v@)));
}

/// No attributes.
pub fn no_attrs() -> (a: Vec<(String, String)>)
    ensures
        attrs_v(a@) == Seq::<(Seq<char>, Seq<char>)>::empty(),
{
    let a: Vec<(String, String)> = Vec::new();
    assert(attrs_v(a@) =~= Seq::<(Seq<char>, Seq<char>)>::empty());
    a
}

/// A start tag.
pub open spec fn start_v(name: Seq<char>, attrs: Seq<(Seq<char>, Seq<char>)>) -> XmlOpV {
    XmlOpV::Start { name, attrs }
}

/// An end tag.
pub open spec fn end_v(name: Seq<char>) -> XmlOpV {
    XmlOpV::End { name }
}

/// A text.
pub open spec fn text_v(text: Seq<char>) -> XmlOpV {
    XmlOpV::Text { text }
}

/// Appends a start tag.
pub fn push_start(ops: &mut Vec<XmlOp>, name: &str, attrs: Vec<(String, String)>)
    ensures
        views(final(ops)@) == views(old(ops)@).push(start_v(name@, attrs_v(attrs@))),
{
    push_op(ops, XmlOp::Start { name: copy_str(name), attrs });
}

/// Appends an end tag.
pub fn push_end(ops: &mut Vec<XmlOp>, name: &str)
    ensures
        views(final(ops)@) == views(old(ops)@).push(end_v(name@)),
{
    push_op(ops, XmlOp::End { name: copy_str(name) });
}

/// Appends an empty element.
pub fn push_empty(ops: &mut Vec<XmlOp>, name: &str, attrs: Vec<(String, String)>)
    ensures
        views(final(ops)@) == views(old(ops)@).push(XmlOpV::Empty { name: name@, attrs: attrs_v(attrs@) }),
{
    push_op(ops, XmlOp::Empty { name: copy_str(name), attrs });
}

/// Appends a text.
pub fn push_text(ops: &mut Vec<XmlOp>, text: &str)
    ensures
        views(final(ops)@) == views(old(ops)@).push(text_v(text@)),
{
    push_op(ops, XmlOp::Text { text: copy_str(text) });
}

/// An element holding only a text: its start tag, the text and its end tag.
pub open spec fn text_elem(name: Seq<char>, attrs: Seq<(Seq<char>, Seq<char>)>, text: Seq<char>) -> Seq<XmlOpV> {
    seq![start_v(name, attrs), text_v(text), end_v(name)]
}

/// Appends an element holding only a text.
pub fn push_text_elem(ops: &mut Vec<XmlOp>, name: &str, attrs: Vec<(String, String)>, text: &str)
    ensures
        views(final(ops)@) == views(old(ops)@) + text_elem(name@, attrs_v(attrs@), text@),
{
    let ghost a = attrs_v(attrs@);
    push_start(ops, name, attrs);
    push_text(ops, text);
    push_end(ops, name);
    assert(views(ops@) =~= views(old(ops)@) + text_elem(name@, a, text@));
}

} // verus!
