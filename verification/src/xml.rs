//! The XML layer: the events that `quick_xml` reads from a document, as plain values, and the
//! few helpers of `quick_xml` and std that the parser needs on attribute values and references.

use vstd::prelude::*;
use quick_xml::events::BytesRef;
use quick_xml::events::Event::{End, Eof, GeneralRef, Start, Text};
use quick_xml::events::attributes::{Attribute, Attributes};
use quick_xml::Reader;
use vstd::utf8::{decode_utf8, encode_utf8, valid_utf8};
use vstd::string::StringSliceAdditionalSpecFns;
use crate::model::views;

verus! {

/// `quick_xml::Reader`, the pull parser of XML.
#[verifier::external_type_specification]
#[verifier::external_body]
#[verifier::reject_recursive_types(R)]
pub struct ExReader<R>(Reader<R>);

/// `std::str::Utf8Error`.
#[verifier::external_type_specification]
#[verifier::external_body]
pub struct ExUtf8Error(core::str::Utf8Error);

/// One event read from an XML document. `pos` is the reader's byte position after it.
#[derive(Debug)]
pub enum XmlToken {
    /// A start tag: its raw name, and the whole tag text between `<` and `>`.
    Start { name: Vec<u8>, content: String, pos: u64 },
    /// An end tag, with its raw name.
    End { name: Vec<u8>, pos: u64 },
    /// Raw (escaped) text between markup.
    Text { bytes: Vec<u8>, pos: u64 },
    /// A reference `&name;`, with the bytes between `&` and `;`.
    Ref { bytes: Vec<u8>, pos: u64 },
    /// The end of the document.
    Eof { pos: u64 },
    /// Any other event: comment, CDATA, declaration, processing instruction, DTD.
    Other { pos: u64 },
    /// A syntax error, with its message.
    Error { message: String, pos: u64 },
}

/// Mathematical model of an [`XmlToken`].
pub enum XmlTokenV {
    Start { name: Seq<u8>, content: Seq<char>, pos: u64 },
    End { name: Seq<u8>, pos: u64 },
    Text { bytes: Seq<u8>, pos: u64 },
    Ref { bytes: Seq<u8>, pos: u64 },
    Eof { pos: u64 },
    Other { pos: u64 },
    Error { message: Seq<char>, pos: u64 },
}

impl View for XmlToken {
    type V = XmlTokenV;

    open spec fn view(&self) -> XmlTokenV {
        match self {
            XmlToken::Start { name, content, pos } => XmlTokenV::Start {
                name: name@,
                content: content@,
                pos: *pos,
            },
            XmlToken::End { name, pos } => XmlTokenV::End { name: name@, pos: *pos },
            XmlToken::Text { bytes, pos } => XmlTokenV::Text { bytes: bytes@, pos: *pos },
            XmlToken::Ref { bytes, pos } => XmlTokenV::Ref { bytes: bytes@, pos: *pos },
            XmlToken::Eof { pos } => XmlTokenV::Eof { pos: *pos },
            XmlToken::Other { pos } => XmlTokenV::Other { pos: *pos },
            XmlToken::Error { message, pos } => XmlTokenV::Error { message: message@, pos: *pos },
        }
    }
}

/// Whether reading stops at this event: the end of the document or an error.
pub open spec fn is_final_token(t: XmlTokenV) -> bool {
    t is Eof || t is Error
}

/// The events that a reader over `src`, with empty elements expanded into a start and an end
/// event, hands out one by one, up to and including the first end of document or error.
pub uninterp spec fn xml_events(src: Seq<char>) -> Seq<XmlTokenV>;

/// Whether a start tag's raw name is the first bytes of the UTF-8 text of the tag (so its
/// attributes are those of `start_attrs`); any other event qualifies.
pub open spec fn name_heads_text(t: XmlTokenV) -> bool {
    t matches XmlTokenV::Start { name, content, .. } ==> name.len() <= encode_utf8(content).len() && name
        == encode_utf8(content).subrange(0, name.len() as int)
}

/// The document a reader reads.
pub uninterp spec fn reader_source(r: Reader<&[u8]>) -> Seq<char>;

/// How many events a reader has handed out.
pub uninterp spec fn reader_count(r: Reader<&[u8]>) -> nat;

/// `Reader::from_str` with `expand_empty_elements` set: a reader at the start of `src`.
/// Its events end with the end of the document or an error, which come nowhere before.
#[verifier::external_body]
pub(crate) fn reader_new(src: &str) -> (r: Reader<&[u8]>)
    ensures
        reader_source(r) == src@,
        reader_count(r) == 0,
        xml_events(reader_source(r)).len() > 0,
        is_final_token(xml_events(reader_source(r)).last()),
        forall|k: int|
            0 <= k < xml_events(reader_source(r)).len() - 1 ==> !is_final_token(
                #[trigger] xml_events(reader_source(r))[k],
            ),
{
    let mut r = Reader::from_str(src);
    r.config_mut().expand_empty_elements = true;
    r
}

/// `Reader::read_event` and `Reader::buffer_position`: the next event, as a plain value. The
/// text of a start tag is the reader's buffer between `<` and `>` (or `/>`), which is UTF-8
/// since the source is a string and the delimiters are ASCII; its name is the first bytes of
/// that buffer (`BytesStart::name`).
#[verifier::external_body]
pub(crate) fn reader_next(r: &mut Reader<&[u8]>) -> (t: XmlToken)
    requires
        reader_count(*old(r)) < xml_events(reader_source(*old(r))).len(),
    ensures
        reader_source(*final(r)) == reader_source(*old(r)),
        reader_count(*final(r)) == reader_count(*old(r)) + 1,
        t@ == xml_events(reader_source(*old(r)))[reader_count(*old(r)) as int],
        name_heads_text(t@),
{
    let ev = r.read_event();
    let pos = r.buffer_position();
    match ev {
        Ok(Start(e)) => XmlToken::Start { name: e.name().as_ref().to_vec(), content: String::from_utf8_lossy(&e).into_owned(), pos },
        Ok(End(e)) => XmlToken::End { name: e.to_vec(), pos },
        Ok(Text(e)) => XmlToken::Text { bytes: e.to_vec(), pos },
        Ok(GeneralRef(e)) => XmlToken::Ref { bytes: e.to_vec(), pos },
        Ok(Eof) => XmlToken::Eof { pos },
        Ok(_) => XmlToken::Other { pos },
        Err(e) => XmlToken::Error { message: e.to_string(), pos },
    }
}

/// All the events of a document, up to and including the end of document or the first error.
pub fn read_xml_events(src: &str) -> (t: Vec<XmlToken>)
    ensures
        views(t@) == xml_events(src@),
        t.len() > 0,
        is_final_token(xml_events(src@).last()),
        forall|k: int| 0 <= k < t.len() - 1 ==> !is_final_token(#[trigger] xml_events(src@)[k]),
        forall|k: int| 0 <= k < t.len() ==> name_heads_text(#[trigger] t@[k]@),
{
    let mut r = reader_new(src);
    let mut t: Vec<XmlToken> = Vec::new();
    let ghost evs = xml_events(src@);
    loop
        invariant
            reader_source(r) == src@,
            evs == xml_events(src@),
            evs.len() > 0,
            is_final_token(evs.last()),
            forall|k: int| 0 <= k < evs.len() - 1 ==> !is_final_token(#[trigger] evs[k]),
            reader_count(r) == t.len() < evs.len(),
            views(t@) == evs.take(t.len() as int),
            forall|k: int| 0 <= k < t.len() ==> name_heads_text(#[trigger] t@[k]@),
        decreases evs.len() - t.len(),
    {
        let ghost k = t.len() as int;
        let tok = reader_next(&mut r);
        let last = match &tok {
            XmlToken::Eof { .. } => true,
            XmlToken::Error { .. } => true,
            _ => false,
        };
        t.push(tok);
        assert(views(t@) =~= evs.take(t.len() as int));
        if last {
            assert(k == evs.len() - 1);
            assert(evs.take(t.len() as int) =~= evs);
            return t;
        }
    }
}

/// One attribute of a start tag, or an error met while reading the attributes.
#[derive(Debug)]
pub enum XmlAttr {
    /// An attribute: its name and its raw (escaped) value.
    Attr { key: String, value: Vec<u8> },
    /// A malformed attribute, with the error message.
    Error { message: String },
}

/// Mathematical model of an [`XmlAttr`].
pub enum XmlAttrV {
    Attr { key: Seq<char>, value: Seq<u8> },
    Error { message: Seq<char> },
}

impl View for XmlAttr {
    type V = XmlAttrV;

    open spec fn view(&self) -> XmlAttrV {
        match self {
            XmlAttr::Attr { key, value } => XmlAttrV::Attr { key: key@, value: value@ },
            XmlAttr::Error { message } => XmlAttrV::Error { message: message@ },
        }
    }
}

/// The attributes that `quick_xml` reads from a tag text whose name is `name_len` bytes
/// long, without the check for duplicates.
pub uninterp spec fn xml_attributes(content: Seq<char>, name_len: usize) -> Seq<XmlAttrV>;

/// The attributes of a start tag with raw name `name` and tag text `content`: none when the
/// name is longer than the tag text, which no tag read from a document is.
pub open spec fn start_attrs(name: Seq<u8>, content: Seq<char>) -> Seq<XmlAttrV> {
    if name.len() <= encode_utf8(content).len() {
        xml_attributes(content, name.len() as usize)
    } else {
        Seq::empty()
    }
}

/// `Attributes::new(..).with_checks(false)`, collected: the attributes of a start tag, in
/// order, each as an attribute or an error. The iterator slices the text after the name, so
/// the name may not be longer than the text.
#[verifier::external_body]
pub(crate) fn tag_attributes(content: &str, name_len: usize) -> (r: Vec<XmlAttr>)
    requires
        name_len <= content.spec_bytes().len(),
    ensures
        views(r@) == xml_attributes(content@, name_len),
{
    Attributes::new(content, name_len).with_checks(false).map(|a| match a {
        Ok(a) => XmlAttr::Attr {
            key: String::from_utf8_lossy(a.key.as_ref()).into_owned(),
            value: a.value.into_owned(),
        },
        Err(e) => XmlAttr::Error { message: e.to_string() },
    }).collect()
}

impl XmlToken {
    /// The attributes of a start tag, in order; none for any other event, and none when the
    /// name is longer than the tag text.
    pub fn attributes(&self) -> (r: Vec<XmlAttr>)
        ensures
            match self@ {
                XmlTokenV::Start { name, content, .. } => views(r@) == start_attrs(name, content),
                _ => r@.len() == 0,
            },
    {
        match self {
            XmlToken::Start { name, content, .. } => {
                let text = content.as_str();
                assert(text@ == content@);
                let n = text.as_bytes().len();
                if name.len() <= n {
                    tag_attributes(text, name.len())
                } else {
                    let r: Vec<XmlAttr> = Vec::new();
                    assert(views(r@) =~= Seq::<XmlAttrV>::empty());
                    r
                }
            },
            _ => Vec::new(),
        }
    }
}

/// What `Attribute::unescape_value` makes of a raw attribute value: the text, or the message
/// of the error.
pub uninterp spec fn xml_unescape(raw: Seq<u8>) -> Result<Seq<char>, Seq<char>>;

/// `Attribute::unescape_value`: the decoded, unescaped value of an attribute, or the message
/// of the error.
#[verifier::external_body]
pub(crate) fn unescape_value(raw: &[u8]) -> (r: Result<String, String>)
    ensures
        match (r, xml_unescape(raw@)) {
            (Ok(s), Ok(v)) => s@ == v,
            (Err(s), Err(m)) => s@ == m,
            _ => false,
        },
{
    Attribute::from((&b""[..], raw)).unescape_value().map(|v| v.into_owned()).map_err(
        |e| e.to_string(),
    )
}

/// What `BytesRef::resolve_char_ref` makes of a reference name: the character of a
/// character reference (`#..`), `None` for another reference, or an error.
pub uninterp spec fn xml_char_ref(name: Seq<char>) -> Result<Option<char>, ()>;

/// `BytesRef::resolve_char_ref` on a reference name.
#[verifier::external_body]
pub(crate) fn resolve_char_ref(name: &str) -> (r: Result<Option<char>, ()>)
    ensures
        r == xml_char_ref(name@),
{
    BytesRef::new(name).resolve_char_ref().map_err(|_| ())
}

/// The text of the predefined XML entities.
pub open spec fn spec_predefined_entity(name: Seq<char>) -> Option<Seq<char>> {
    if name == "lt"@ {
        Some("<"@)
    } else if name == "gt"@ {
        Some(">"@)
    } else if name == "amp"@ {
        Some("&"@)
    } else if name == "apos"@ {
        Some("'"@)
    } else if name == "quot"@ {
        Some("\""@)
    } else {
        None
    }
}

/// `quick_xml::escape::resolve_predefined_entity`: the five predefined entities of XML.
#[verifier::external_body]
pub(crate) fn resolve_predefined_entity(name: &str) -> (r: Option<String>)
    ensures
        opt_str_v(r) == spec_predefined_entity(name@),
{
    quick_xml::escape::resolve_predefined_entity(name).map(|s| s.to_owned())
}

/// The view of an optional string.
pub open spec fn opt_str_v(o: Option<String>) -> Option<Seq<char>> {
    match o {
        Some(s) => Some(s@),
        None => None,
    }
}

/// `std::str::from_utf8`: the bytes as a string when they are valid UTF-8.
pub assume_specification[ core::str::from_utf8 ](v: &[u8]) -> (r: core::result::Result<&str, core::str::Utf8Error>)
    ensures
        r is Ok <==> valid_utf8(v@),
        r matches Ok(s) ==> s@ == decode_utf8(v@),
;

/// The message (`Display`) of the `Utf8Error` that `std::str::from_utf8` gives for bytes.
pub uninterp spec fn utf8_error_text(b: Seq<u8>) -> Seq<char>;

/// `std::str::from_utf8` on bytes that are not UTF-8: the message of its error, such as
/// `invalid utf-8 sequence of 1 bytes from index 3`.
#[verifier::external_body]
pub(crate) fn utf8_error_message(b: &[u8]) -> (r: String)
    requires
        !valid_utf8(b@),
    ensures
        r@ == utf8_error_text(b@),
{
    match core::str::from_utf8(b) {
        Err(e) => e.to_string(),
        Ok(_) => String::new(),
    }
}

/// What `String::from_utf8_lossy` makes of bytes.
pub uninterp spec fn utf8_lossy(b: Seq<u8>) -> Seq<char>;

/// `String::from_utf8_lossy`: the bytes as text, invalid sequences replaced; valid UTF-8 is
/// decoded as it is.
#[verifier::external_body]
pub(crate) fn lossy_string(b: &[u8]) -> (r: String)
    ensures
        r@ == utf8_lossy(b@),
        valid_utf8(b@) ==> r@ == decode_utf8(b@),
{
    String::from_utf8_lossy(b).into_owned()
}

} // verus!
