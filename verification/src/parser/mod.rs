//! The parser: from the events of a TTML document to a [`crate::model::TTMLResult`].

pub mod body;
pub mod head;
pub mod laws;
pub mod span;
pub mod state;
pub mod sub_lyric;
pub mod utils;

use vstd::prelude::*;
use crate::error::{ParseErrorKind, ParseErrorKindV, TTMLProcessorError, TTMLProcessorErrorV};
use crate::model::{views, LyricLine, LyricLineV, TTMLMetadataV, TTMLResult, TTMLResultV};
use crate::parser::body::{lemma_body_range, parse_body, spec_body};
use crate::parser::head::{lemma_head_range, parse_head, spec_head};
use crate::parser::state::{
    utf8_err,
    ctx_err, initial_context, make_err, pop_tag, pop_tag_exec, push_tag, push_tag_exec,
    tokens_wf, utf8_exec, utf8_text, ParserContext, ParserContextV,
};
use crate::parser::utils::{get_attr_value, spec_find_attr, views_t};
use crate::text::{copy_str, str_eq};
use crate::xml::{is_final_token, read_xml_events, start_attrs, xml_events, XmlToken, XmlTokenV};

verus! {

/// Reads the events of a document from `i` on, up to its end: `<tt>` gives the language and
/// the timing mode, `<head>` the metadata, `<body>` the lines.
pub open spec fn spec_document(
    tv: Seq<XmlTokenV>,
    i: int,
    ctx: ParserContextV,
    lines: Seq<LyricLineV>,
) -> Result<(ParserContextV, Seq<LyricLineV>), TTMLProcessorErrorV>
    decreases tv.len() - i,
{
    if i < 0 || i >= tv.len() {
        Ok((ctx, lines))
    } else {
        match tv[i] {
            XmlTokenV::Error { message, pos } => Err(
                ctx_err(ParseErrorKindV::XmlError(message), pos, ctx, None, None),
            ),
            XmlTokenV::Eof { .. } => Ok((ctx, lines)),
            XmlTokenV::Start { name, content, pos } => match utf8_text(name) {
                None => Err(utf8_err(name)),
                Some(n) => {
                    let c1 = push_tag(ctx, n);
                    let attrs = start_attrs(name, content);
                    if n == "tt"@ {
                        match spec_find_attr(attrs, 0, "xml:lang"@, pos, c1) {
                            Err(e) => Err(e),
                            Ok(lang) => {
                                let c2 = ParserContextV {
                                    metadata: TTMLMetadataV { language: lang, ..c1.metadata },
                                    ..c1
                                };
                                match spec_find_attr(attrs, 0, "itunes:timing"@, pos, c2) {
                                    Err(e) => Err(e),
                                    Ok(timing) => spec_document(
                                        tv,
                                        i + 1,
                                        ParserContextV {
                                            metadata: TTMLMetadataV { timing_mode: timing, ..c2.metadata },
                                            ..c2
                                        },
                                        lines,
                                    ),
                                }
                            },
                        }
                    } else if n == "head"@ {
                        match spec_head(tv, i + 1, c1) {
                            Err(e) => Err(e),
                            Ok((c2, j)) => {
                                proof {
                                    lemma_head_range(tv, i + 1, c1);
                                }
                                spec_document(tv, j, pop_tag(c2), lines)
                            },
                        }
                    } else if n == "body"@ {
                        match spec_body(tv, i + 1, c1, lines) {
                            Err(e) => Err(e),
                            Ok((c2, ls, j)) => {
                                proof {
                                    lemma_body_range(tv, i + 1, c1, lines);
                                }
                                spec_document(tv, j, pop_tag(c2), ls)
                            },
                        }
                    } else {
                        spec_document(tv, i + 1, c1, lines)
                    }
                },
            },
            XmlTokenV::End { .. } => spec_document(tv, i + 1, pop_tag(ctx), lines),
            _ => spec_document(tv, i + 1, ctx, lines),
        }
    }
}

/// What reading the events `tv` of a document gives: the metadata and the lines, or the
/// first error.
pub open spec fn spec_parse_events(tv: Seq<XmlTokenV>) -> Result<TTMLResultV, TTMLProcessorErrorV> {
    match spec_document(tv, 0, initial_context(), Seq::empty()) {
        Err(e) => Err(e),
        Ok((c, lines)) => Ok(TTMLResultV { metadata: c.metadata, lines }),
    }
}

/// What parsing the document `src` gives: the metadata and the lines, or the first error.
pub open spec fn spec_parse_ttml(src: Seq<char>) -> Result<TTMLResultV, TTMLProcessorErrorV> {
    spec_parse_events(xml_events(src))
}

/// Parses a TTML document into its metadata and lines.
///
/// Fails on malformed XML, on tag names or texts that are not UTF-8, on a timestamp that
/// cannot be read, on a missing required attribute, and on a document that ends inside an
/// element.
pub fn parse_ttml(ttml_content: &str) -> (r: Result<TTMLResult, TTMLProcessorError>)
    ensures
        match (r, spec_parse_ttml(ttml_content@)) {
            (Ok(res), Ok(v)) => res@ == v,
            (Err(e), Err(ev)) => e@ == ev,
            _ => false,
        },
{
    let t = read_xml_events(ttml_content);
    assert(tokens_wf(views_t(t@)));
    parse_events(&t)
}

/// Reads the events `t` of a document, up to its end or its first error: `<tt>` gives the
/// language and the timing mode, `<head>` the metadata, `<body>` the lines.
pub fn parse_events(t: &Vec<XmlToken>) -> (r: Result<TTMLResult, TTMLProcessorError>)
    requires
        tokens_wf(views_t(t@)),
    ensures
        match (r, spec_parse_events(views_t(t@))) {
            (Ok(res), Ok(v)) => res@ == v,
            (Err(e), Err(ev)) => e@ == ev,
            _ => false,
        },
{
    let ghost tv = views_t(t@);
    assert(tokens_wf(tv));
    let mut ctx = ParserContext::new();
    let mut lines: Vec<LyricLine> = Vec::new();
    let mut k: usize = 0;
    assert(views(lines@) =~= Seq::<LyricLineV>::empty());
    loop
        invariant
            tv == views_t(t@),
            tokens_wf(tv),
            k < t.len(),
            spec_document(tv, k as int, ctx@, views(lines@)) == spec_document(
                tv,
                0,
                initial_context(),
                Seq::empty(),
            ),
        decreases t.len() - k,
    {
        assert(t@[k as int]@ == tv[k as int]);
        assert(!is_final_token(tv[k as int]) ==> k + 1 < t.len());
        match &t[k] {
            XmlToken::Error { message, pos } => {
                return Err(make_err(ParseErrorKind::XmlError(copy_str(message.as_str())), *pos, &ctx, None, None));
            },
            XmlToken::Eof { .. } => {
                return Ok(TTMLResult { metadata: ctx.metadata, lines });
            },
            XmlToken::Start { name, content, pos } => {
                let n = match utf8_exec(name.as_slice()) {
                    Ok(n) => n,
                    Err(e) => return Err(e),
                };
                push_tag_exec(&mut ctx, n.as_str());
                if str_eq(n.as_str(), "tt") {
                    let attrs = t[k].attributes();
                    let lang = match get_attr_value(&attrs, "xml:lang", *pos, &ctx) {
                        Ok(l) => l,
                        Err(e) => return Err(e),
                    };
                    ctx.metadata.language = lang;
                    let timing = match get_attr_value(&attrs, "itunes:timing", *pos, &ctx) {
                        Ok(l) => l,
                        Err(e) => return Err(e),
                    };
                    ctx.metadata.timing_mode = timing;
                    k = k + 1;
                } else if str_eq(n.as_str(), "head") {
                    let j = match parse_head(t, k + 1, &mut ctx) {
                        Ok(j) => j,
                        Err(e) => return Err(e),
                    };
                    pop_tag_exec(&mut ctx);
                    k = j;
                } else if str_eq(n.as_str(), "body") {
                    let j = match parse_body(t, k + 1, &mut ctx, &mut lines) {
                        Ok(j) => j,
                        Err(e) => return Err(e),
                    };
                    pop_tag_exec(&mut ctx);
                    k = j;
                } else {
                    k = k + 1;
                }
            },
            XmlToken::End { .. } => {
                pop_tag_exec(&mut ctx);
                k = k + 1;
            },
            _ => {
                k = k + 1;
            },
        }
    }
}

} // verus!
