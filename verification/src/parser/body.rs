//! The `<body>` of a document: blocks (`<div>`) of lines (`<p>`).

use vstd::prelude::*;
use crate::error::{ParseErrorKind, ParseErrorKindV, TTMLProcessorError, TTMLProcessorErrorV};
use crate::maps::entries_get;
use crate::model::{
    empty_bg, normalize_subs, opt_v, spaced_words, spec_normalized_bg, spec_normalized_sub, views,
    BackgroundVocal, BackgroundVocalV, LyricLine, LyricLineV, SubLyricContentV, SyllableV,
};
use crate::parser::span::{
    lemma_span_block, lemma_span_range, mark_last_syllable_space, mark_line_last, process_span,
    same_block, spec_span,
};
use crate::parser::state::{
    utf8_err,
    copy_opt_str, ctx_err, make_err, name_is, QNameExt, pop_tag, pop_tag_exec, push_tag,
    push_tag_exec, tokens_wf, utf8_exec, utf8_text, ParserContext, ParserContextV,
};
use crate::parser::sub_lyric::{unmark_last, unmarked_last};
use crate::parser::utils::{
    attr_timestamp, get_attr_value, resolve_xml_entity, spec_find_attr, spec_resolve_entity,
    ts_err, views_a, views_t,
};
use crate::text::{copy_str, push_str_chars, str_eq, string_from_chars};
use crate::timestamp::spec_parse_timestamp;
use crate::utils::{build_full_text, is_spacing_text, normalize_line_text, normalize_words_spaces, spec_full_text, spec_normalize_line_text};
use crate::xml::{is_final_token, unescape_value, start_attrs, xml_unescape, XmlAttr, XmlAttrV, XmlToken, XmlTokenV};

verus! {

/// The syllables with the flag of the last one cleared, when there are syllables.
pub open spec fn opt_unmarked(o: Option<Seq<SyllableV>>) -> Option<Seq<SyllableV>> {
    match o {
        Some(ws) => Some(unmarked_last(ws)),
        None => None,
    }
}

/// A line after [`post_process_line`] with raw text `raw`.
pub open spec fn spec_post_process(l: LyricLineV, raw: Seq<char>) -> LyricLineV {
    let ws0 = opt_unmarked(l.words);
    let has = ws0 is Some && ws0->0.len() > 0;
    LyricLineV {
        words: if has {
            Some(spaced_words(ws0->0))
        } else {
            None
        },
        text: if has {
            spec_full_text(spaced_words(ws0->0), false)
        } else {
            spec_normalize_line_text(raw)
        },
        translations: match l.translations {
            Some(ts) => Some(ts.map_values(|c: SubLyricContentV| spec_normalized_sub(c, false))),
            None => None,
        },
        romanizations: match l.romanizations {
            Some(rs) => Some(rs.map_values(|c: SubLyricContentV| spec_normalized_sub(c, true))),
            None => None,
        },
        background_vocal: match l.background_vocal {
            Some(b) => Some(spec_normalized_bg(BackgroundVocalV { words: opt_unmarked(b.words), ..b })),
            None => None,
        },
        ..l
    }
}

/// Finishes a line: clears the space flag of the last syllables, normalises the spaces of the
/// syllables and rebuilds the text from them (or, without syllables, takes the normalised raw
/// text `raw`), normalises the translations and transliterations (transliteration syllables
/// joined by spaces), and takes the parentheses off the background vocal.
pub fn post_process_line(line: &mut LyricLine, raw: String)
    ensures
        final(line)@ == spec_post_process(old(line)@, raw@),
{
    if let Some(words) = &mut line.words {
        unmark_last(words);
    }
    if let Some(bg) = &mut line.background_vocal {
        if let Some(ws) = &mut bg.words {
            unmark_last(ws);
        }
    }
    let has = match &line.words {
        Some(ws) => ws.len() > 0,
        None => false,
    };
    if has {
        if let Some(words) = &mut line.words {
            let ghost w0 = views(words@);
            normalize_words_spaces(words);
            assert(views(words@) =~= spaced_words(w0));
            let t = build_full_text(words.as_slice(), false);
            line.text = t;
        }
    } else {
        line.words = None;
        line.text = raw;
        normalize_line_text(&mut line.text);
    }
    if let Some(ts) = &mut line.translations {
        normalize_subs(ts, false);
    }
    if let Some(rs) = &mut line.romanizations {
        normalize_subs(rs, true);
    }
    if let Some(bg) = &mut line.background_vocal {
        bg.normalize();
    }
}

/// The attributes of a `<p>` read so far: `itunes:key`, `ttm:agent`, start and end times.
pub type LineAttrsV = (Option<Seq<char>>, Option<Seq<char>>, Option<u32>, Option<u32>);

/// The attributes of a `<p>` from `attrs[k..]` on; unescaping and timestamps are checked as
/// each attribute is met.
pub open spec fn spec_line_attrs(
    attrs: Seq<XmlAttrV>,
    k: int,
    acc: LineAttrsV,
    pos: u64,
    ctx: ParserContextV,
) -> Result<LineAttrsV, TTMLProcessorErrorV>
    decreases attrs.len() - k,
{
    if k < 0 || k >= attrs.len() {
        Ok(acc)
    } else {
        match attrs[k] {
            XmlAttrV::Error { message } => Err(
                ctx_err(ParseErrorKindV::AttrError(message), pos, ctx, Some("p"@), None),
            ),
            XmlAttrV::Attr { key, value } => if key == "itunes:key"@ || key == "ttm:agent"@ {
                match xml_unescape(value) {
                    Err(m) => Err(ctx_err(ParseErrorKindV::EntityError(m), pos, ctx, Some(key), None)),
                    Ok(v) => if key == "itunes:key"@ {
                        spec_line_attrs(attrs, k + 1, (Some(v), acc.1, acc.2, acc.3), pos, ctx)
                    } else {
                        spec_line_attrs(attrs, k + 1, (acc.0, Some(v), acc.2, acc.3), pos, ctx)
                    },
                }
            } else if key == "begin"@ {
                match spec_parse_timestamp(value) {
                    None => Err(ts_err(value, pos, ctx, "begin"@)),
                    Some(v) => spec_line_attrs(attrs, k + 1, (acc.0, acc.1, Some(v), acc.3), pos, ctx),
                }
            } else if key == "end"@ {
                match spec_parse_timestamp(value) {
                    None => Err(ts_err(value, pos, ctx, "end"@)),
                    Some(v) => spec_line_attrs(attrs, k + 1, (acc.0, acc.1, acc.2, Some(v)), pos, ctx),
                }
            } else {
                spec_line_attrs(attrs, k + 1, acc, pos, ctx)
            },
        }
    }
}

/// Reads the attributes of a `<p>`.
fn line_attrs(attrs: &Vec<XmlAttr>, pos: u64, ctx: &ParserContext) -> (r: Result<
    (Option<String>, Option<String>, Option<u32>, Option<u32>),
    TTMLProcessorError,
>)
    ensures
        match (r, spec_line_attrs(views_a(attrs@), 0, (None, None, None, None), pos, ctx@)) {
            (Ok(a), Ok(av)) => opt_v(a.0) == av.0 && opt_v(a.1) == av.1 && a.2 == av.2 && a.3 == av.3,
            (Err(e), Err(ev)) => e@ == ev,
            _ => false,
        },
{
    let ghost av = views_a(attrs@);
    let mut id: Option<String> = None;
    let mut agent: Option<String> = None;
    let mut st: Option<u32> = None;
    let mut en: Option<u32> = None;
    let mut k: usize = 0;
    while k < attrs.len()
        invariant
            k <= attrs.len(),
            av == views_a(attrs@),
            spec_line_attrs(av, k as int, (opt_v(id), opt_v(agent), st, en), pos, ctx@) == spec_line_attrs(
                av,
                0,
                (None, None, None, None),
                pos,
                ctx@,
            ),
        decreases attrs.len() - k,
    {
        assert(attrs@[k as int]@ == av[k as int]);
        match &attrs[k] {
            XmlAttr::Error { message } => {
                return Err(make_err(ParseErrorKind::AttrError(copy_str(message.as_str())), pos, ctx, Some(copy_str("p")), None));
            },
            XmlAttr::Attr { key, value } => {
                let is_key = str_eq(key.as_str(), "itunes:key");
                if is_key || str_eq(key.as_str(), "ttm:agent") {
                    match unescape_value(value.as_slice()) {
                        Err(m) => return Err(make_err(ParseErrorKind::EntityError(m), pos, ctx, Some(copy_str(key.as_str())), None)),
                        Ok(v) => {
                            if is_key {
                                id = Some(v);
                            } else {
                                agent = Some(v);
                            }
                        },
                    }
                } else if str_eq(key.as_str(), "begin") {
                    match attr_timestamp(value.as_slice(), pos, ctx, "begin") {
                        Ok(v) => st = Some(v),
                        Err(e) => return Err(e),
                    }
                } else if str_eq(key.as_str(), "end") {
                    match attr_timestamp(value.as_slice(), pos, ctx, "end") {
                        Ok(v) => en = Some(v),
                        Err(e) => return Err(e),
                    }
                }
            },
        }
        k = k + 1;
    }
    Ok((id, agent, st, en))
}

/// The line that a `<p>` opens, before its spans: its attributes, the block and song part of
/// the state, and the translations and transliterations filed under its id.
pub open spec fn line_start(ctx: ParserContextV, a: LineAttrsV, st: u32, en: u32) -> LyricLineV {
    let base = LyricLineV {
        text: Seq::empty(),
        start_time: st,
        end_time: en,
        words: None,
        translations: None,
        romanizations: None,
        background_vocal: None,
        id: a.0,
        agent_id: a.1,
        song_part: ctx.last_song_part,
        block_index: Some(ctx.current_block_index),
    };
    match a.0 {
        None => base,
        Some(id) => {
            let bt = entries_get(ctx.bg_translations_map, id);
            let br = entries_get(ctx.bg_romanizations_map, id);
            LyricLineV {
                translations: entries_get(ctx.translations_map, id),
                romanizations: entries_get(ctx.romanizations_map, id),
                background_vocal: if bt is Some || br is Some {
                    Some(BackgroundVocalV { translations: bt, romanizations: br, ..empty_bg() })
                } else {
                    None
                },
                ..base
            }
        },
    }
}

/// The state once a `<p>` opens: the line id set, and the contents filed under it taken out.
pub open spec fn ctx_line_start(ctx: ParserContextV, a: LineAttrsV) -> ParserContextV {
    match a.0 {
        None => ParserContextV { current_line_id: None, ..ctx },
        Some(id) => ParserContextV {
            current_line_id: Some(id),
            translations_map: crate::parser::state::entries_remove(ctx.translations_map, id),
            romanizations_map: crate::parser::state::entries_remove(ctx.romanizations_map, id),
            bg_translations_map: crate::parser::state::entries_remove(ctx.bg_translations_map, id),
            bg_romanizations_map: crate::parser::state::entries_remove(ctx.bg_romanizations_map, id),
            ..ctx
        },
    }
}

/// Reads the events of a `<p>` from `i` on, up to its end tag; gives the state, the line and
/// the raw text then, and the position after the end tag.
pub open spec fn spec_line_loop(
    tv: Seq<XmlTokenV>,
    i: int,
    ctx: ParserContextV,
    line: LyricLineV,
    raw: Seq<char>,
) -> Result<(ParserContextV, LyricLineV, Seq<char>, int), TTMLProcessorErrorV>
    decreases tv.len() - i,
{
    if i < 0 || i >= tv.len() {
        Err(ctx_err(ParseErrorKindV::UnexpectedEof, 0, ctx, None, None))
    } else {
        match tv[i] {
            XmlTokenV::Error { message, pos } => Err(
                ctx_err(ParseErrorKindV::XmlError(message), pos, ctx, None, None),
            ),
            XmlTokenV::Eof { pos } => Err(ctx_err(ParseErrorKindV::UnexpectedEof, pos, ctx, None, None)),
            XmlTokenV::Start { name, content, pos } => match utf8_text(name) {
                None => Err(utf8_err(name)),
                Some(n) => {
                    let c1 = push_tag(ctx, n);
                    if n == "span"@ {
                        match spec_span(tv, i + 1, c1, line, start_attrs(name, content), pos, false) {
                            Err(e) => Err(e),
                            Ok((c2, l2, j)) => {
                                proof {
                                    lemma_span_range(tv, i + 1, c1, line, start_attrs(name, content), pos, false);
                                }
                                spec_line_loop(tv, j, pop_tag(c2), l2, raw)
                            },
                        }
                    } else {
                        spec_line_loop(tv, i + 1, c1, line, raw)
                    }
                },
            },
            XmlTokenV::Text { bytes, .. } => match utf8_text(bytes) {
                None => Err(utf8_err(bytes)),
                Some(s) => spec_line_loop(
                    tv,
                    i + 1,
                    ctx,
                    if s.len() > 0 && !s.contains('\n') {
                        mark_line_last(line, false)
                    } else {
                        line
                    },
                    raw + s,
                ),
            },
            XmlTokenV::Ref { bytes, pos } => match spec_resolve_entity(bytes) {
                Err(k) => Err(ctx_err(k, pos, ctx, None, None)),
                Ok(s) => spec_line_loop(tv, i + 1, ctx, line, raw + s),
            },
            XmlTokenV::End { name, .. } => if name_is(name, "p"@) {
                Ok((ctx, line, raw, i + 1))
            } else {
                spec_line_loop(tv, i + 1, pop_tag(ctx), line, raw)
            },
            XmlTokenV::Other { .. } => spec_line_loop(tv, i + 1, ctx, line, raw),
        }
    }
}

/// A `<p>` whose start tag, with attributes `attrs`, was read at `pos`, read from event `i`
/// on: the finished line, the state (line id cleared) and the position after its end tag.
pub open spec fn spec_line(
    tv: Seq<XmlTokenV>,
    i: int,
    ctx: ParserContextV,
    attrs: Seq<XmlAttrV>,
    pos: u64,
) -> Result<(ParserContextV, LyricLineV, int), TTMLProcessorErrorV> {
    match spec_line_attrs(attrs, 0, (None, None, None, None), pos, ctx) {
        Err(e) => Err(e),
        Ok(a) => match (a.2, a.3) {
            (None, _) => Err(ctx_err(ParseErrorKindV::MissingAttribute("begin"@), pos, ctx, None, None)),
            (Some(_), None) => Err(ctx_err(ParseErrorKindV::MissingAttribute("end"@), pos, ctx, None, None)),
            (Some(st), Some(en)) => match spec_line_loop(
                tv,
                i,
                ctx_line_start(ctx, a),
                line_start(ctx, a, st, en),
                Seq::empty(),
            ) {
                Err(e) => Err(e),
                Ok((c, l, raw, j)) => Ok(
                    (ParserContextV { current_line_id: None, ..c }, spec_post_process(l, raw), j),
                ),
            },
        },
    }
}

/// Whether an exec result of reading a line matches the spec.
pub open spec fn line_out_matches(
    r: Result<(LyricLine, usize), TTMLProcessorError>,
    s: Result<(ParserContextV, LyricLineV, int), TTMLProcessorErrorV>,
    c: ParserContextV,
    i: int,
    len: int,
) -> bool {
    match (r, s) {
        (Ok((l, j)), Ok((cv, lv, jv))) => l@ == lv && c == cv && j == jv && i < j < len,
        (Err(e), Err(ev)) => e@ == ev,
        _ => false,
    }
}

/// The line that a `<p>` opens, with the contents filed under its id taken out of the maps.
fn start_line(ctx: &mut ParserContext, id: Option<String>, agent: Option<String>, st: u32, en: u32) -> (l: LyricLine)
    ensures
        l@ == line_start(old(ctx)@, (opt_v(id), opt_v(agent), Some(st), Some(en)), st, en),
        final(ctx)@ == ctx_line_start(old(ctx)@, (opt_v(id), opt_v(agent), Some(st), Some(en))),
{
    ctx.current_line_id = copy_opt_str(&id);
    let mut line = LyricLine {
        text: String::new(),
        start_time: st,
        end_time: en,
        words: None,
        translations: None,
        romanizations: None,
        background_vocal: None,
        id: None,
        agent_id: agent,
        song_part: copy_opt_str(&ctx.last_song_part),
        block_index: Some(ctx.current_block_index),
    };
    match id {
        None => {},
        Some(key) => {
            line.translations = ctx.translations_map.remove(key.as_str());
            line.romanizations = ctx.romanizations_map.remove(key.as_str());
            let bt = ctx.bg_translations_map.remove(key.as_str());
            let br = ctx.bg_romanizations_map.remove(key.as_str());
            if bt.is_some() || br.is_some() {
                line.background_vocal = Some(
                    BackgroundVocal {
                        text: String::new(),
                        start_time: 0,
                        end_time: 0,
                        words: None,
                        translations: bt,
                        romanizations: br,
                    },
                );
            }
            line.id = Some(key);
        },
    }
    line
}

/// Reads a `<p>` whose start tag, with attributes `attrs`, was read at `pos`, from event `i`
/// on: its timing, id and singer, the translations and transliterations filed under its id,
/// its spans and text; the line is then finished by [`post_process_line`].
pub fn parse_line(t: &Vec<XmlToken>, i: usize, ctx: &mut ParserContext, attrs: &Vec<XmlAttr>, pos: u64) -> (r:
    Result<(LyricLine, usize), TTMLProcessorError>)
    requires
        tokens_wf(views_t(t@)),
        i < t.len(),
    ensures
        line_out_matches(r, spec_line(views_t(t@), i as int, old(ctx)@, views_a(attrs@), pos), final(ctx)@, i as int, t.len() as int),
{
    let ghost tv = views_t(t@);
    let (id, agent, st, en) = match line_attrs(attrs, pos, ctx) {
        Ok(a) => a,
        Err(e) => return Err(e),
    };
    let ghost av = (opt_v(id), opt_v(agent), st, en);
    let st = match st {
        Some(v) => v,
        None => return Err(make_err(ParseErrorKind::MissingAttribute(copy_str("begin")), pos, ctx, None, None)),
    };
    let en = match en {
        Some(v) => v,
        None => return Err(make_err(ParseErrorKind::MissingAttribute(copy_str("end")), pos, ctx, None, None)),
    };
    let mut line = start_line(ctx, id, agent, st, en);
    let ghost c0 = ctx@;
    let ghost l0 = line@;
    let mut raw: Vec<char> = Vec::new();
    let mut k = i;
    loop
        invariant
            tv == views_t(t@),
            tokens_wf(tv),
            i <= k < t.len(),
            spec_line_attrs(views_a(attrs@), 0, (None, None, None, None), pos, old(ctx)@)
                == Ok::<LineAttrsV, TTMLProcessorErrorV>(av),
            av.2 == Some(st),
            av.3 == Some(en),
            c0 == ctx_line_start(old(ctx)@, av),
            l0 == line_start(old(ctx)@, av, st, en),
            spec_line_loop(tv, k as int, ctx@, line@, raw@) == spec_line_loop(tv, i as int, c0, l0, Seq::empty()),
        decreases t.len() - k,
    {
        assert(t@[k as int]@ == tv[k as int]);
        assert(!is_final_token(tv[k as int]) ==> k + 1 < t.len());
        match &t[k] {
            XmlToken::Error { message, pos } => {
                return Err(make_err(ParseErrorKind::XmlError(copy_str(message.as_str())), *pos, ctx, None, None));
            },
            XmlToken::Eof { pos } => {
                return Err(make_err(ParseErrorKind::UnexpectedEof, *pos, ctx, None, None));
            },
            XmlToken::Other { .. } => {
                k = k + 1;
            },
            XmlToken::Start { name, content, pos } => {
                let n = match utf8_exec(name.as_slice()) {
                    Ok(n) => n,
                    Err(e) => return Err(e),
                };
                push_tag_exec(ctx, n.as_str());
                if str_eq(n.as_str(), "span") {
                    let sub_attrs = t[k].attributes();
                    let j = match process_span(t, k + 1, ctx, &sub_attrs, *pos, &mut line, false) {
                        Ok(j) => j,
                        Err(e) => return Err(e),
                    };
                    pop_tag_exec(ctx);
                    k = j;
                } else {
                    k = k + 1;
                }
            },
            XmlToken::Text { bytes, .. } => {
                let s = match utf8_exec(bytes.as_slice()) {
                    Ok(s) => s,
                    Err(e) => return Err(e),
                };
                if is_spacing_text(s.as_str()) {
                    mark_last_syllable_space(&mut line, false);
                }
                push_str_chars(&mut raw, s.as_str());
                k = k + 1;
            },
            XmlToken::Ref { bytes, pos } => {
                match resolve_xml_entity(bytes.as_slice()) {
                    Ok(s) => push_str_chars(&mut raw, s.as_str()),
                    Err(kind) => return Err(make_err(kind, *pos, ctx, None, None)),
                }
                k = k + 1;
            },
            XmlToken::End { name, .. } => {
                if name.is("p") {
                    let raw_text = string_from_chars(&raw, 0, raw.len());
                    assert(raw@.subrange(0, raw.len() as int) =~= raw@);
                    post_process_line(&mut line, raw_text);
                    ctx.current_line_id = None;
                    return Ok((line, k + 1));
                }
                pop_tag_exec(ctx);
                k = k + 1;
            },
        }
    }
}

/// Reads the events of a `<div>` from `i` on, up to its end tag: each `<p>` gives a line.
pub open spec fn spec_section_loop(
    tv: Seq<XmlTokenV>,
    i: int,
    ctx: ParserContextV,
    lines: Seq<LyricLineV>,
) -> Result<(ParserContextV, Seq<LyricLineV>, int), TTMLProcessorErrorV>
    decreases tv.len() - i,
{
    if i < 0 || i >= tv.len() {
        Err(ctx_err(ParseErrorKindV::UnexpectedEof, 0, ctx, None, None))
    } else {
        match tv[i] {
            XmlTokenV::Error { message, pos } => Err(
                ctx_err(ParseErrorKindV::XmlError(message), pos, ctx, None, None),
            ),
            XmlTokenV::Eof { pos } => Err(ctx_err(ParseErrorKindV::UnexpectedEof, pos, ctx, None, None)),
            XmlTokenV::Start { name, content, pos } => match utf8_text(name) {
                None => Err(utf8_err(name)),
                Some(n) => {
                    let c1 = push_tag(ctx, n);
                    if n == "p"@ {
                        match spec_line(tv, i + 1, c1, start_attrs(name, content), pos) {
                            Err(e) => Err(e),
                            Ok((c2, l, j)) => {
                                proof {
                                    lemma_line_range(tv, i + 1, c1, start_attrs(name, content), pos);
                                }
                                spec_section_loop(tv, j, pop_tag(c2), lines.push(l))
                            },
                        }
                    } else {
                        spec_section_loop(tv, i + 1, c1, lines)
                    }
                },
            },
            XmlTokenV::End { name, .. } => if name_is(name, "div"@) {
                Ok((ctx, lines, i + 1))
            } else {
                spec_section_loop(tv, i + 1, pop_tag(ctx), lines)
            },
            _ => spec_section_loop(tv, i + 1, ctx, lines),
        }
    }
}

/// The song part of a `<div>`: `itunes:songPart`, or else `itunes:song-part`.
pub open spec fn spec_song_part(attrs: Seq<XmlAttrV>, pos: u64, ctx: ParserContextV) -> Result<
    Option<Seq<char>>,
    TTMLProcessorErrorV,
> {
    match spec_find_attr(attrs, 0, "itunes:songPart"@, pos, ctx) {
        Err(e) => Err(e),
        Ok(Some(p)) => Ok(Some(p)),
        Ok(None) => spec_find_attr(attrs, 0, "itunes:song-part"@, pos, ctx),
    }
}

/// A `<div>` whose start tag, with attributes `attrs`, was read at `pos`, read from event `i`
/// on: the block index goes up by one (wrapping), the song part becomes the block's, and the
/// lines of the block are appended to `lines`.
pub open spec fn spec_section(
    tv: Seq<XmlTokenV>,
    i: int,
    ctx: ParserContextV,
    lines: Seq<LyricLineV>,
    attrs: Seq<XmlAttrV>,
    pos: u64,
) -> Result<(ParserContextV, Seq<LyricLineV>, int), TTMLProcessorErrorV> {
    match spec_song_part(attrs, pos, ctx) {
        Err(e) => Err(e),
        Ok(part) => spec_section_loop(
            tv,
            i,
            ParserContextV {
                current_block_index: if ctx.current_block_index == u32::MAX {
                    0
                } else {
                    (ctx.current_block_index + 1) as u32
                },
                last_song_part: part,
                ..ctx
            },
            lines,
        ),
    }
}

/// Whether an exec result of reading lines matches the spec.
pub open spec fn lines_res_matches(
    r: Result<usize, TTMLProcessorError>,
    s: Result<(ParserContextV, Seq<LyricLineV>, int), TTMLProcessorErrorV>,
    c: ParserContextV,
    lines: Seq<LyricLineV>,
    i: int,
    len: int,
) -> bool {
    match (r, s) {
        (Ok(j), Ok((cv, lv, jv))) => c == cv && lines == lv && j == jv && i < j < len,
        (Err(e), Err(ev)) => e@ == ev,
        _ => false,
    }
}

/// Reads a `<div>` whose start tag, with attributes `attrs`, was read at `pos`, from event `i`
/// on, appending its lines to `lines`.
pub fn parse_section(
    t: &Vec<XmlToken>,
    i: usize,
    ctx: &mut ParserContext,
    lines: &mut Vec<LyricLine>,
    attrs: &Vec<XmlAttr>,
    pos: u64,
) -> (r: Result<usize, TTMLProcessorError>)
    requires
        tokens_wf(views_t(t@)),
        i < t.len(),
    ensures
        lines_res_matches(
            r,
            spec_section(views_t(t@), i as int, old(ctx)@, views(old(lines)@), views_a(attrs@), pos),
            final(ctx)@,
            views(final(lines)@),
            i as int,
            t.len() as int,
        ),
{
    let ghost tv = views_t(t@);
    let mut part = match get_attr_value(attrs, "itunes:songPart", pos, ctx) {
        Ok(p) => p,
        Err(e) => return Err(e),
    };
    if part.is_none() {
        part = match get_attr_value(attrs, "itunes:song-part", pos, ctx) {
            Ok(p) => p,
            Err(e) => return Err(e),
        };
    }
    ctx.current_block_index = ctx.current_block_index.wrapping_add(1);
    ctx.last_song_part = part;
    let ghost c0 = ctx@;
    let mut k = i;
    loop
        invariant
            tv == views_t(t@),
            tokens_wf(tv),
            i <= k < t.len(),
            spec_section(tv, i as int, old(ctx)@, views(old(lines)@), views_a(attrs@), pos)
                == spec_section_loop(tv, i as int, c0, views(old(lines)@)),
            spec_section_loop(tv, k as int, ctx@, views(lines@)) == spec_section_loop(
                tv,
                i as int,
                c0,
                views(old(lines)@),
            ),
        decreases t.len() - k,
    {
        assert(t@[k as int]@ == tv[k as int]);
        assert(!is_final_token(tv[k as int]) ==> k + 1 < t.len());
        match &t[k] {
            XmlToken::Error { message, pos } => {
                return Err(make_err(ParseErrorKind::XmlError(copy_str(message.as_str())), *pos, ctx, None, None));
            },
            XmlToken::Eof { pos } => {
                return Err(make_err(ParseErrorKind::UnexpectedEof, *pos, ctx, None, None));
            },
            XmlToken::Start { name, content, pos } => {
                let n = match utf8_exec(name.as_slice()) {
                    Ok(n) => n,
                    Err(e) => return Err(e),
                };
                push_tag_exec(ctx, n.as_str());
                if str_eq(n.as_str(), "p") {
                    let sub_attrs = t[k].attributes();
                    let (line, j) = match parse_line(t, k + 1, ctx, &sub_attrs, *pos) {
                        Ok(x) => x,
                        Err(e) => return Err(e),
                    };
                    let ghost prev = views(lines@);
                    lines.push(line);
                    assert(views(lines@) =~= prev.push(line@));
                    pop_tag_exec(ctx);
                    k = j;
                } else {
                    k = k + 1;
                }
            },
            XmlToken::End { name, .. } => {
                if name.is("div") {
                    return Ok(k + 1);
                }
                pop_tag_exec(ctx);
                k = k + 1;
            },
            _ => {
                k = k + 1;
            },
        }
    }
}

/// Reads the events of the `<body>` from `i` on, up to its end tag: each `<div>` is a block
/// of lines.
pub open spec fn spec_body(
    tv: Seq<XmlTokenV>,
    i: int,
    ctx: ParserContextV,
    lines: Seq<LyricLineV>,
) -> Result<(ParserContextV, Seq<LyricLineV>, int), TTMLProcessorErrorV>
    decreases tv.len() - i,
{
    if i < 0 || i >= tv.len() {
        Err(ctx_err(ParseErrorKindV::UnexpectedEof, 0, ctx, None, None))
    } else {
        match tv[i] {
            XmlTokenV::Error { message, pos } => Err(
                ctx_err(ParseErrorKindV::XmlError(message), pos, ctx, None, None),
            ),
            XmlTokenV::Eof { pos } => Err(ctx_err(ParseErrorKindV::UnexpectedEof, pos, ctx, None, None)),
            XmlTokenV::Start { name, content, pos } => match utf8_text(name) {
                None => Err(utf8_err(name)),
                Some(n) => {
                    let c1 = push_tag(ctx, n);
                    if n == "div"@ {
                        match spec_section(tv, i + 1, c1, lines, start_attrs(name, content), pos) {
                            Err(e) => Err(e),
                            Ok((c2, ls, j)) => {
                                proof {
                                    lemma_section_range(tv, i + 1, c1, lines, start_attrs(name, content), pos);
                                }
                                spec_body(tv, j, pop_tag(c2), ls)
                            },
                        }
                    } else {
                        spec_body(tv, i + 1, c1, lines)
                    }
                },
            },
            XmlTokenV::End { name, .. } => if name_is(name, "body"@) {
                Ok((ctx, lines, i + 1))
            } else {
                spec_body(tv, i + 1, pop_tag(ctx), lines)
            },
            _ => spec_body(tv, i + 1, ctx, lines),
        }
    }
}

/// Reads the `<body>` from event `i` on, appending its lines to `lines`.
pub fn parse_body(t: &Vec<XmlToken>, i: usize, ctx: &mut ParserContext, lines: &mut Vec<LyricLine>) -> (r:
    Result<usize, TTMLProcessorError>)
    requires
        tokens_wf(views_t(t@)),
        i < t.len(),
    ensures
        lines_res_matches(
            r,
            spec_body(views_t(t@), i as int, old(ctx)@, views(old(lines)@)),
            final(ctx)@,
            views(final(lines)@),
            i as int,
            t.len() as int,
        ),
{
    let ghost tv = views_t(t@);
    let mut k = i;
    loop
        invariant
            tv == views_t(t@),
            tokens_wf(tv),
            i <= k < t.len(),
            spec_body(tv, k as int, ctx@, views(lines@)) == spec_body(
                tv,
                i as int,
                old(ctx)@,
                views(old(lines)@),
            ),
        decreases t.len() - k,
    {
        assert(t@[k as int]@ == tv[k as int]);
        assert(!is_final_token(tv[k as int]) ==> k + 1 < t.len());
        match &t[k] {
            XmlToken::Error { message, pos } => {
                return Err(make_err(ParseErrorKind::XmlError(copy_str(message.as_str())), *pos, ctx, None, None));
            },
            XmlToken::Eof { pos } => {
                return Err(make_err(ParseErrorKind::UnexpectedEof, *pos, ctx, None, None));
            },
            XmlToken::Start { name, content, pos } => {
                let n = match utf8_exec(name.as_slice()) {
                    Ok(n) => n,
                    Err(e) => return Err(e),
                };
                push_tag_exec(ctx, n.as_str());
                if str_eq(n.as_str(), "div") {
                    let sub_attrs = t[k].attributes();
                    let j = match parse_section(t, k + 1, ctx, lines, &sub_attrs, *pos) {
                        Ok(j) => j,
                        Err(e) => return Err(e),
                    };
                    pop_tag_exec(ctx);
                    k = j;
                } else {
                    k = k + 1;
                }
            },
            XmlToken::End { name, .. } => {
                if name.is("body") {
                    return Ok(k + 1);
                }
                pop_tag_exec(ctx);
                k = k + 1;
            },
            _ => {
                k = k + 1;
            },
        }
    }
}

/// The `<body>` read from event `i` on ends after `i` and within the events.
pub proof fn lemma_body_range(tv: Seq<XmlTokenV>, i: int, ctx: ParserContextV, lines: Seq<LyricLineV>)
    ensures
        spec_body(tv, i, ctx, lines) matches Ok((_, _, j)) ==> i < j <= tv.len(),
    decreases tv.len() - i,
{
    if 0 <= i < tv.len() {
        match tv[i] {
            XmlTokenV::Start { name, content, pos } => {
                if let Some(n) = utf8_text(name) {
                    let c1 = push_tag(ctx, n);
                    if n == "div"@ {
                        let attrs = start_attrs(name, content);
                        lemma_section_range(tv, i + 1, c1, lines, attrs, pos);
                        if let Ok((c2, ls, j)) = spec_section(tv, i + 1, c1, lines, attrs, pos) {
                            lemma_body_range(tv, j, pop_tag(c2), ls);
                        }
                    } else {
                        lemma_body_range(tv, i + 1, c1, lines);
                    }
                }
            },
            XmlTokenV::End { .. } => {
                lemma_body_range(tv, i + 1, pop_tag(ctx), lines);
            },
            _ => {
                lemma_body_range(tv, i + 1, ctx, lines);
            },
        }
    }
}

/// The events of a `<p>` read from event `i` on end after `i` and within the events.
pub proof fn lemma_line_loop_range(tv: Seq<XmlTokenV>, i: int, ctx: ParserContextV, line: LyricLineV, raw: Seq<char>)
    ensures
        spec_line_loop(tv, i, ctx, line, raw) matches Ok((_, _, _, j)) ==> i < j <= tv.len(),
    decreases tv.len() - i,
{
    if 0 <= i < tv.len() {
        match tv[i] {
            XmlTokenV::Start { name, content, pos } => {
                if let Some(n) = utf8_text(name) {
                    let c1 = push_tag(ctx, n);
                    let attrs = start_attrs(name, content);
                    lemma_span_range(tv, i + 1, c1, line, attrs, pos, false);
                    if let Ok((c2, l2, j)) = spec_span(tv, i + 1, c1, line, attrs, pos, false) {
                        lemma_line_loop_range(tv, j, pop_tag(c2), l2, raw);
                    }
                    lemma_line_loop_range(tv, i + 1, c1, line, raw);
                }
            },
            XmlTokenV::Text { bytes, .. } => {
                if let Some(s) = utf8_text(bytes) {
                    lemma_line_loop_range(
                        tv,
                        i + 1,
                        ctx,
                        if s.len() > 0 && !s.contains('\n') {
                            mark_line_last(line, false)
                        } else {
                            line
                        },
                        raw + s,
                    );
                }
            },
            XmlTokenV::Ref { bytes, .. } => {
                if let Ok(s) = spec_resolve_entity(bytes) {
                    lemma_line_loop_range(tv, i + 1, ctx, line, raw + s);
                }
            },
            XmlTokenV::End { .. } => {
                lemma_line_loop_range(tv, i + 1, pop_tag(ctx), line, raw);
            },
            XmlTokenV::Other { .. } => {
                lemma_line_loop_range(tv, i + 1, ctx, line, raw);
            },
            _ => {},
        }
    }
}

/// A `<p>` read from event `i` on ends after `i` and within the events.
pub proof fn lemma_line_range(tv: Seq<XmlTokenV>, i: int, ctx: ParserContextV, attrs: Seq<XmlAttrV>, pos: u64)
    ensures
        spec_line(tv, i, ctx, attrs, pos) matches Ok((_, _, j)) ==> i < j <= tv.len(),
{
    if let Ok(a) = spec_line_attrs(attrs, 0, (None, None, None, None), pos, ctx) {
        if let (Some(st), Some(en)) = (a.2, a.3) {
            lemma_line_loop_range(tv, i, ctx_line_start(ctx, a), line_start(ctx, a, st, en), Seq::empty());
        }
    }
}

/// The events of a `<div>` read from event `i` on end after `i` and within the events.
pub proof fn lemma_section_loop_range(tv: Seq<XmlTokenV>, i: int, ctx: ParserContextV, lines: Seq<LyricLineV>)
    ensures
        spec_section_loop(tv, i, ctx, lines) matches Ok((_, _, j)) ==> i < j <= tv.len(),
    decreases tv.len() - i,
{
    if 0 <= i < tv.len() {
        match tv[i] {
            XmlTokenV::Start { name, content, pos } => {
                if let Some(n) = utf8_text(name) {
                    let c1 = push_tag(ctx, n);
                    let attrs = start_attrs(name, content);
                    lemma_line_range(tv, i + 1, c1, attrs, pos);
                    if let Ok((c2, l, j)) = spec_line(tv, i + 1, c1, attrs, pos) {
                        lemma_section_loop_range(tv, j, pop_tag(c2), lines.push(l));
                    }
                    lemma_section_loop_range(tv, i + 1, c1, lines);
                }
            },
            XmlTokenV::End { .. } => {
                lemma_section_loop_range(tv, i + 1, pop_tag(ctx), lines);
            },
            _ => {
                lemma_section_loop_range(tv, i + 1, ctx, lines);
            },
        }
    }
}

/// A `<div>` read from event `i` on ends after `i` and within the events.
pub proof fn lemma_section_range(
    tv: Seq<XmlTokenV>,
    i: int,
    ctx: ParserContextV,
    lines: Seq<LyricLineV>,
    attrs: Seq<XmlAttrV>,
    pos: u64,
)
    ensures
        spec_section(tv, i, ctx, lines, attrs, pos) matches Ok((_, _, j)) ==> i < j <= tv.len(),
{
    if let Ok(part) = spec_song_part(attrs, pos, ctx) {
        lemma_section_loop_range(
            tv,
            i,
            ParserContextV {
                current_block_index: if ctx.current_block_index == u32::MAX {
                    0
                } else {
                    (ctx.current_block_index + 1) as u32
                },
                last_song_part: part,
                ..ctx
            },
            lines,
        );
    }
}


/// The events of a `<p>` keep the block and song part of the state and of the line.
proof fn lemma_line_loop_block(tv: Seq<XmlTokenV>, i: int, ctx: ParserContextV, line: LyricLineV, raw: Seq<char>)
    ensures
        spec_line_loop(tv, i, ctx, line, raw) matches Ok((c, l, _, _)) ==> same_block(ctx, c)
            && l.song_part == line.song_part && l.block_index == line.block_index,
    decreases tv.len() - i,
{
    if 0 <= i < tv.len() {
        match tv[i] {
            XmlTokenV::Start { name, content, pos } => {
                if let Some(n) = utf8_text(name) {
                    let c1 = push_tag(ctx, n);
                    let attrs = start_attrs(name, content);
                    lemma_span_range(tv, i + 1, c1, line, attrs, pos, false);
                    lemma_span_block(tv, i + 1, c1, line, attrs, pos, false);
                    if let Ok((c2, l2, j)) = spec_span(tv, i + 1, c1, line, attrs, pos, false) {
                        lemma_line_loop_block(tv, j, pop_tag(c2), l2, raw);
                    }
                    lemma_line_loop_block(tv, i + 1, c1, line, raw);
                }
            },
            XmlTokenV::Text { bytes, .. } => {
                if let Some(s) = utf8_text(bytes) {
                    lemma_line_loop_block(
                        tv,
                        i + 1,
                        ctx,
                        if s.len() > 0 && !s.contains('\n') {
                            mark_line_last(line, false)
                        } else {
                            line
                        },
                        raw + s,
                    );
                }
            },
            XmlTokenV::Ref { bytes, .. } => {
                if let Ok(s) = spec_resolve_entity(bytes) {
                    lemma_line_loop_block(tv, i + 1, ctx, line, raw + s);
                }
            },
            XmlTokenV::End { .. } => {
                lemma_line_loop_block(tv, i + 1, pop_tag(ctx), line, raw);
            },
            XmlTokenV::Other { .. } => {
                lemma_line_loop_block(tv, i + 1, ctx, line, raw);
            },
            _ => {},
        }
    }
}

/// A `<p>` keeps the block and song part of the state, and its line carries them.
pub proof fn lemma_line_block(tv: Seq<XmlTokenV>, i: int, ctx: ParserContextV, attrs: Seq<XmlAttrV>, pos: u64)
    ensures
        spec_line(tv, i, ctx, attrs, pos) matches Ok((c, l, _)) ==> same_block(ctx, c)
            && l.song_part == ctx.last_song_part && l.block_index == Some(ctx.current_block_index),
{
    if let Ok(a) = spec_line_attrs(attrs, 0, (None, None, None, None), pos, ctx) {
        if let (Some(st), Some(en)) = (a.2, a.3) {
            lemma_line_loop_block(tv, i, ctx_line_start(ctx, a), line_start(ctx, a, st, en), Seq::empty());
        }
    }
}

/// The events of a `<div>` keep the block and song part of the state and the lines read
/// before; each line they add carries that block and song part.
pub proof fn lemma_section_loop_block(tv: Seq<XmlTokenV>, i: int, ctx: ParserContextV, lines: Seq<LyricLineV>)
    ensures
        spec_section_loop(tv, i, ctx, lines) matches Ok((c, ls, _)) ==> {
            &&& same_block(ctx, c)
            &&& lines.len() <= ls.len()
            &&& ls.subrange(0, lines.len() as int) == lines
            &&& forall|k: int|
                lines.len() <= k < ls.len() ==> (#[trigger] ls[k]).song_part == ctx.last_song_part
                    && ls[k].block_index == Some(ctx.current_block_index)
        },
    decreases tv.len() - i,
{
    if 0 <= i < tv.len() {
        match tv[i] {
            XmlTokenV::Start { name, content, pos } => {
                if let Some(n) = utf8_text(name) {
                    let c1 = push_tag(ctx, n);
                    let attrs = start_attrs(name, content);
                    lemma_line_range(tv, i + 1, c1, attrs, pos);
                    lemma_line_block(tv, i + 1, c1, attrs, pos);
                    if let Ok((c2, l, j)) = spec_line(tv, i + 1, c1, attrs, pos) {
                        let c3 = pop_tag(c2);
                        let lines2 = lines.push(l);
                        lemma_section_loop_block(tv, j, c3, lines2);
                        if let Ok((c, ls, _)) = spec_section_loop(tv, j, c3, lines2) {
                            assert(ls.subrange(0, lines.len() as int) == lines2.subrange(0, lines.len() as int));
                            assert(ls[lines.len() as int] == l) by {
                                assert(ls.subrange(0, lines2.len() as int)[lines.len() as int] == lines2[lines.len() as int]);
                            }
                        }
                    }
                    lemma_section_loop_block(tv, i + 1, c1, lines);
                }
            },
            XmlTokenV::End { .. } => {
                lemma_section_loop_block(tv, i + 1, pop_tag(ctx), lines);
            },
            _ => {
                lemma_section_loop_block(tv, i + 1, ctx, lines);
            },
        }
    }
}

} // verus!
