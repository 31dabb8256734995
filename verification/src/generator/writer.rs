//! The events of a generated document, and the `quick_xml` writer that turns them into text.

use vstd::prelude::*;
use vstd::utf8::{decode_utf8, valid_utf8};
use quick_xml::Writer;
use quick_xml::events::{BytesEnd, BytesStart, BytesText, Event};

verus! {

/// `quick_xml::Writer`, the XML writer.
#[verifier::external_type_specification]
#[verifier::external_body]
#[verifier::reject_recursive_types(W)]
pub struct ExWriter<W>(Writer<W>);

/// One event of a generated document; attribute values and texts are unescaped.
#[derive(Debug)]
pub enum XmlOp {
    /// A start tag with its attributes, in order.
    Start { name: String, attrs: Vec<(String, String)> },
    /// An end tag.
    End { name: String },
    /// An empty element with its attributes, in order.
    Empty { name: String, attrs: Vec<(String, String)> },
    /// A text.
    Text { text: String },
}

/// The view of attributes.
pub open spec fn attrs_v(a: Seq<(String, String)>) -> Seq<(Seq<char>, Seq<char>)> {
    a.map_values(|p: (String, String)| (p.0@, p.1@))
}

/// Mathematical model of an [`XmlOp`].
pub enum XmlOpV {
    Start { name: Seq<char>, attrs: Seq<(Seq<char>, Seq<char>)> },
    End { name: Seq<char> },
    Empty { name: Seq<char>, attrs: Seq<(Seq<char>, Seq<char>)> },
    Text { text: Seq<char> },
}

impl View for XmlOp {
    type V = XmlOpV;

    open spec fn view(&self) -> XmlOpV {
        match self {
            XmlOp::Start { name, attrs } => XmlOpV::Start { name: name@, attrs: attrs_v(attrs@) },
            XmlOp::End { name } => XmlOpV::End { name: name@ },
            XmlOp::Empty { name, attrs } => XmlOpV::Empty { name: name@, attrs: attrs_v(attrs@) },
            XmlOp::Text { text } => XmlOpV::Text { text: text@ },
        }
    }
}

/// Whether a text holds a line feed.
pub open spec fn has_newline(t: Seq<char>) -> bool {
    t.contains('\n')
}

/// Whether an event holds a line feed in its name, an attribute or its text.
pub open spec fn op_has_newline(op: XmlOpV) -> bool {
    match op {
        XmlOpV::Start { name, attrs } => has_newline(name) || exists|k: int|
            0 <= k < attrs.len() && (has_newline(#[trigger] attrs[k].0) || has_newline(attrs[k].1)),
        XmlOpV::Empty { name, attrs } => has_newline(name) || exists|k: int|
            0 <= k < attrs.len() && (has_newline(#[trigger] attrs[k].0) || has_newline(attrs[k].1)),
        XmlOpV::End { name } => has_newline(name),
        XmlOpV::Text { text } => has_newline(text),
    }
}

/// Whether no event holds a line feed.
pub open spec fn ops_free_of_newline(ops: Seq<XmlOpV>) -> bool {
    forall|k: int| 0 <= k < ops.len() ==> !op_has_newline(#[trigger] ops[k])
}

/// The events a writer has written.
pub uninterp spec fn writer_events(w: Writer<Vec<u8>>) -> Seq<XmlOpV>;

/// Whether a writer indents its output.
pub uninterp spec fn writer_indented(w: Writer<Vec<u8>>) -> bool;

/// The bytes that a writer gives for the events `ops`, indented with four spaces per level
/// when `indent`, each tag with its attributes in order and texts and values escaped.
pub uninterp spec fn xml_document(ops: Seq<XmlOpV>, indent: bool) -> Seq<u8>;

/// `Writer::new` (or `Writer::new_with_indent` with four spaces when `indent`) over an empty
/// buffer: a writer that has written nothing.
#[verifier::external_body]
pub(crate) fn writer_new(indent: bool) -> (w: Writer<Vec<u8>>)
    ensures
        writer_events(w) == Seq::<XmlOpV>::empty(),
        writer_indented(w) == indent,
{
    if indent {
        Writer::new_with_indent(Vec::new(), b' ', 4)
    } else {
        Writer::new(Vec::new())
    }
}

/// `Writer::write_event` of one event: the event is written after the others. The writer
/// only fails when its underlying `io::Write` fails, and writing into a `Vec<u8>` does not
/// fail.
#[verifier::external_body]
pub(crate) fn writer_write(w: &mut Writer<Vec<u8>>, op: &XmlOp) -> (r: Result<(), String>)
    ensures
        r is Ok,
        writer_indented(*final(w)) == writer_indented(*old(w)),
        writer_events(*final(w)) == writer_events(*old(w)).push(op@),
{
    let ev = match op {
        XmlOp::Start { name, attrs } => Event::Start(BytesStart::new(name.as_str()).with_attributes(attrs.iter().map(|(k, v)| (k.as_str(), v.as_str())))),
        XmlOp::End { name } => Event::End(BytesEnd::new(name.as_str())),
        XmlOp::Empty { name, attrs } => Event::Empty(BytesStart::new(name.as_str()).with_attributes(attrs.iter().map(|(k, v)| (k.as_str(), v.as_str())))),
        XmlOp::Text { text } => Event::Text(BytesText::new(text.as_str())),
    };
    w.write_event(ev).map_err(|e| e.to_string())
}

/// `Writer::into_inner`: the bytes written. They are UTF-8: names, attribute values and
/// texts come from strings (values and texts escaped with ASCII entities) and the markup and
/// indentation are ASCII. Without indentation the writer adds no line feed of its own.
#[verifier::external_body]
pub(crate) fn writer_into_inner(w: Writer<Vec<u8>>) -> (b: Vec<u8>)
    ensures
        b@ == xml_document(writer_events(w), writer_indented(w)),
        valid_utf8(b@),
        !writer_indented(w) && ops_free_of_newline(writer_events(w)) ==> !has_newline(decode_utf8(b@)),
{
    w.into_inner()
}

/// `String::from_utf8`: the bytes as a string when they are valid UTF-8.
#[verifier::external_body]
pub(crate) fn string_from_utf8(b: Vec<u8>) -> (r: Result<String, ()>)
    ensures
        r is Ok <==> valid_utf8(b@),
        r matches Ok(s) ==> s@ == decode_utf8(b@),
{
    String::from_utf8(b).map_err(|_| ())
}

} // verus!
