//! The generator: from a [`crate::model::TTMLResult`] to a TTML document.

pub mod body;
pub mod head;
pub mod head_laws;
pub mod laws;
pub mod nesting;
pub mod one_line;
pub mod ops;
pub mod span;
pub mod sub_lyric;
pub mod writer;

use vstd::prelude::*;
use vstd::utf8::{decode_utf8, valid_utf8};
use crate::error::{TTMLProcessorError};
use crate::generator::body::{body_ops, write_body};
use crate::generator::head::{head_ops, write_head};
use crate::generator::nesting::{lemma_document_well_nested, well_nested};
use crate::generator::one_line::{lemma_document_free_of_newline, lyric_nl_free};
use crate::generator::ops::{end_v, no_attrs, push_attr, push_end, push_start, start_v};
use crate::generator::writer::{
    attrs_v, has_newline, ops_free_of_newline, string_from_utf8, writer_events, writer_indented, writer_into_inner, writer_new,
    writer_write, xml_document, XmlOp, XmlOpV,
};
use crate::model::{views, TTMLMetadataV, TTMLResult, TTMLResultV};
use crate::text::copy_str;

verus! {

/// How a document is generated.
#[derive(Debug, Clone, Copy, Default)]
pub struct GeneratorConfig {
    /// Follow Apple Music's rules: line-timed translations and transliterations go into the
    /// head, a background vocal that starts first is written first, and the background vocal
    /// span has no `begin` and `end`. Otherwise line-timed translations and transliterations
    /// are written inline, as `x-translation` and `x-roman` spans. Word-timed ones always go
    /// into the head.
    pub use_apple_format_rules: bool,
    /// Pretty-print the XML instead of writing it on one line.
    pub format: bool,
    /// Write line-by-line lyrics: `itunes:timing="Line"`, the plain text of each line without
    /// syllable spans, word-timed translations and transliterations flattened to their line
    /// text, and no background vocals.
    pub line_timing: bool,
}

/// The attributes of `<tt>`: the namespaces, the timing mode (`Line` when flattened to line
/// timing) and the language.
pub open spec fn tt_attrs(m: TTMLMetadataV, cfg: GeneratorConfig) -> Seq<(Seq<char>, Seq<char>)> {
    seq![
        ("xmlns"@, "http://www.w3.org/ns/ttml"@),
        ("xmlns:itunes"@, "http://music.apple.com/lyric-ttml-internal"@),
        ("xmlns:ttm"@, "http://www.w3.org/ns/ttml#metadata"@),
        ("xmlns:tts"@, "http://www.w3.org/ns/ttml#styling"@),
        ("xmlns:amll"@, "http://www.example.com/ns/amll"@),
    ] + (if cfg.line_timing {
        seq![("itunes:timing"@, "Line"@)]
    } else {
        match m.timing_mode {
            Some(t) => seq![("itunes:timing"@, t)],
            None => Seq::empty(),
        }
    }) + match m.language {
        Some(l) => seq![("xml:lang"@, l)],
        None => Seq::empty(),
    }
}

/// The events of the document of a lyric: `<tt>` holding the head and the body.
pub open spec fn spec_document_ops(r: TTMLResultV, cfg: GeneratorConfig) -> Seq<XmlOpV> {
    seq![start_v("tt"@, tt_attrs(r.metadata, cfg))] + head_ops(r.metadata, r.lines, cfg) + body_ops(r.lines, cfg)
        + seq![end_v("tt"@)]
}

/// The events of the document of a lyric; every start tag is closed in order.
pub fn document_ops(result: &TTMLResult, config: &GeneratorConfig) -> (ops: Vec<XmlOp>)
    ensures
        views(ops@) == spec_document_ops(result@, *config),
        well_nested(views(ops@)),
{
    let mut ops: Vec<XmlOp> = Vec::new();
    let mut a = no_attrs();
    push_attr(&mut a, "xmlns", copy_str("http://www.w3.org/ns/ttml"));
    push_attr(&mut a, "xmlns:itunes", copy_str("http://music.apple.com/lyric-ttml-internal"));
    push_attr(&mut a, "xmlns:ttm", copy_str("http://www.w3.org/ns/ttml#metadata"));
    push_attr(&mut a, "xmlns:tts", copy_str("http://www.w3.org/ns/ttml#styling"));
    push_attr(&mut a, "xmlns:amll", copy_str("http://www.example.com/ns/amll"));
    if config.line_timing {
        push_attr(&mut a, "itunes:timing", copy_str("Line"));
    } else if let Some(t) = &result.metadata.timing_mode {
        push_attr(&mut a, "itunes:timing", copy_str(t.as_str()));
    }
    if let Some(l) = &result.metadata.language {
        push_attr(&mut a, "xml:lang", copy_str(l.as_str()));
    }
    assert(attrs_v(a@) =~= tt_attrs(result@.metadata, *config));
    push_start(&mut ops, "tt", a);
    write_head(&mut ops, &result.metadata, &result.lines, config);
    write_body(&mut ops, &result.lines, config);
    push_end(&mut ops, "tt");
    assert(views(ops@) =~= spec_document_ops(result@, *config));
    proof {
        lemma_document_well_nested(result@, *config);
    }
    ops
}

/// Writes events with the XML writer, indented when `format`: the document as a string.
/// Without indentation, events free of line feeds give a document on one line.
pub fn render_document(ops: &Vec<XmlOp>, format: bool) -> (r: Result<String, TTMLProcessorError>)
    ensures
        r matches Ok(s) && s@ == decode_utf8(xml_document(views(ops@), format)),
        valid_utf8(xml_document(views(ops@), format)),
        !format && ops_free_of_newline(views(ops@)) ==> (r matches Ok(s) && !has_newline(s@)),
{
    let mut w = writer_new(format);
    let mut i: usize = 0;
    while i < ops.len()
        invariant
            i <= ops.len(),
            writer_indented(w) == format,
            writer_events(w) == views(ops@).take(i as int),
        decreases ops.len() - i,
    {
        let written = writer_write(&mut w, &ops[i]);
        assert(written is Ok);
        assert(views(ops@).take(i + 1) =~= views(ops@).take(i as int).push(ops@[i as int]@));
        i = i + 1;
    }
    assert(views(ops@).take(i as int) =~= views(ops@));
    let bytes = writer_into_inner(w);
    match string_from_utf8(bytes) {
        Ok(s) => Ok(s),
        Err(()) => {
            assert(false);
            Err(TTMLProcessorError::FromUtf8Error)
        },
    }
}

/// Generates the TTML document of a lyric: always succeeds. Without `format`, a lyric none of
/// whose texts, ids and metadata values holds a line feed gives a document on one line.
pub fn generate_ttml(result: &TTMLResult, config: &GeneratorConfig) -> (r: Result<String, TTMLProcessorError>)
    ensures
        r matches Ok(s) && s@ == decode_utf8(xml_document(spec_document_ops(result@, *config), config.format)),
        valid_utf8(xml_document(spec_document_ops(result@, *config), config.format)),
        !config.format && lyric_nl_free(result@) ==> (r matches Ok(s) && !has_newline(s@)),
{
    let ops = document_ops(result, config);
    proof {
        if lyric_nl_free(result@) {
            lemma_document_free_of_newline(result@, *config);
        }
    }
    render_document(&ops, config.format)
}

} // verus!
