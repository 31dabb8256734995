//! Translations and transliterations written in `<iTunesMetadata>` of the head.

use vstd::prelude::*;
use crate::error::{ParseErrorKind, ParseErrorKindV, TTMLProcessorError, TTMLProcessorErrorV};
use crate::maps::entries_push;
use crate::model::{views, SubLyricContent, SubLyricContentV, Syllable, SyllableV, spaced_words};
use crate::parser::state::{
    utf8_err,
    ctx_err, make_err, name_is, QNameExt, pop_tag, pop_tag_exec, push_tag, push_tag_exec,
    tokens_wf, utf8_exec, utf8_text, ParserContext, ParserContextV,
};
use crate::parser::utils::{
    get_attr_value, get_required_attr, lemma_read_text_range, parse_basic_syllable, resolve_xml_entity, spec_basic_syllable, spec_find_attr, spec_required_attr,
    spec_resolve_entity, views_a, views_t, };
use crate::text::{copy_str, push_str_chars, str_eq, string_from_chars, trim_range, trim_s};
use crate::utils::{build_full_text, is_spacing_text, mark_slice_last_space, normalize_words_spaces, spec_full_text};
use crate::xml::{start_attrs, XmlAttr, XmlAttrV, XmlToken, XmlTokenV, is_final_token};

verus! {

/// Whether a content of the head is a translation or a transliteration.
#[derive(Debug, Clone, Copy, PartialEq, Eq, Structural)]
pub enum SubLyricType {
    /// A translation.
    Translation,
    /// A transliteration.
    Transliteration,
}

/// The syllables with the last one flagged as followed by a space.
pub open spec fn marked_last(ws: Seq<SyllableV>) -> Seq<SyllableV> {
    if ws.len() > 0 {
        ws.update(ws.len() - 1, SyllableV { ends_with_space: Some(true), ..ws.last() })
    } else {
        ws
    }
}

/// The syllables with the flag of the last one cleared.
pub open spec fn unmarked_last(ws: Seq<SyllableV>) -> Seq<SyllableV> {
    if ws.len() > 0 {
        ws.update(ws.len() - 1, SyllableV { ends_with_space: None, ..ws.last() })
    } else {
        ws
    }
}

/// Whether the first well-formed `ttm:role` attribute from `attrs[k..]` on is `x-bg`
/// (malformed attributes are passed over).
pub open spec fn role_is_bg(attrs: Seq<XmlAttrV>, k: int) -> bool
    decreases attrs.len() - k,
{
    if k < 0 || k >= attrs.len() {
        false
    } else {
        match attrs[k] {
            XmlAttrV::Attr { key, value } => if key == "ttm:role"@ {
                name_is(value, "x-bg"@)
            } else {
                role_is_bg(attrs, k + 1)
            },
            XmlAttrV::Error { .. } => role_is_bg(attrs, k + 1),
        }
    }
}

/// Whether a `<span>` with these attributes opens the background vocal of a `<text>`.
fn is_bg_role(attrs: &Vec<XmlAttr>) -> (b: bool)
    ensures
        b == role_is_bg(views_a(attrs@), 0),
{
    let ghost av = views_a(attrs@);
    let mut k: usize = 0;
    while k < attrs.len()
        invariant
            k <= attrs.len(),
            av == views_a(attrs@),
            role_is_bg(av, k as int) == role_is_bg(av, 0),
        decreases attrs.len() - k,
    {
        assert(attrs@[k as int]@ == av[k as int]);
        match &attrs[k] {
            XmlAttr::Attr { key, value } => {
                if str_eq(key.as_str(), "ttm:role") {
                    return value.is("x-bg");
                }
            },
            XmlAttr::Error { .. } => {},
        }
        k = k + 1;
    }
    false
}

/// The state while reading a `<text>`: the parser state, the main and background
/// syllables, the raw main and background texts, and whether a background span is open.
pub struct SubTextState {
    pub ctx: ParserContextV,
    pub main: Seq<SyllableV>,
    pub bg: Seq<SyllableV>,
    pub raw_main: Seq<char>,
    pub raw_bg: Seq<char>,
    pub in_bg: bool,
}

/// Reads the events of a `<text>` from `i` on, up to its end tag; gives the state then and
/// the position after the end tag.
pub open spec fn spec_sub_text_loop(tv: Seq<XmlTokenV>, i: int, st: SubTextState) -> Result<
    (SubTextState, int),
    TTMLProcessorErrorV,
>
    decreases tv.len() - i,
{
    if i < 0 || i >= tv.len() {
        Err(ctx_err(ParseErrorKindV::UnexpectedEof, 0, st.ctx, None, None))
    } else {
        match tv[i] {
            XmlTokenV::Error { message, pos } => Err(
                ctx_err(ParseErrorKindV::XmlError(message), pos, st.ctx, None, None),
            ),
            XmlTokenV::Eof { pos } => Err(
                ctx_err(ParseErrorKindV::UnexpectedEof, pos, st.ctx, None, None),
            ),
            XmlTokenV::Other { .. } => spec_sub_text_loop(tv, i + 1, st),
            XmlTokenV::Start { name, content, pos } => match utf8_text(name) {
                None => Err(utf8_err(name)),
                Some(n) => {
                    let c1 = push_tag(st.ctx, n);
                    if n == "span"@ {
                        let attrs = start_attrs(name, content);
                        if role_is_bg(attrs, 0) {
                            spec_sub_text_loop(tv, i + 1, SubTextState { ctx: c1, in_bg: true, ..st })
                        } else {
                            match spec_basic_syllable(tv, i + 1, c1, attrs, pos) {
                                Err(e) => Err(e),
                                Ok((syl, j)) => {
                                    proof {
                                        lemma_read_text_range(tv, i + 1, c1, "span"@, 1, Seq::empty());
                                    }
                                    let c2 = pop_tag(c1);
                                    if st.in_bg {
                                        spec_sub_text_loop(
                                            tv,
                                            j,
                                            SubTextState { ctx: c2, bg: st.bg.push(syl), ..st },
                                        )
                                    } else {
                                        spec_sub_text_loop(
                                            tv,
                                            j,
                                            SubTextState { ctx: c2, main: st.main.push(syl), ..st },
                                        )
                                    }
                                },
                            }
                        }
                    } else {
                        spec_sub_text_loop(tv, i + 1, SubTextState { ctx: c1, ..st })
                    }
                },
            },
            XmlTokenV::End { name, .. } => if name_is(name, "span"@) {
                spec_sub_text_loop(tv, i + 1, SubTextState { ctx: pop_tag(st.ctx), in_bg: false, ..st })
            } else if name_is(name, "text"@) {
                Ok((st, i + 1))
            } else {
                spec_sub_text_loop(tv, i + 1, SubTextState { ctx: pop_tag(st.ctx), ..st })
            },
            XmlTokenV::Text { bytes, .. } => match utf8_text(bytes) {
                None => Err(utf8_err(bytes)),
                Some(s) => {
                    let spacing = s.len() > 0 && !s.contains('\n');
                    if st.in_bg {
                        spec_sub_text_loop(
                            tv,
                            i + 1,
                            SubTextState {
                                bg: if spacing {
                                    marked_last(st.bg)
                                } else {
                                    st.bg
                                },
                                raw_bg: st.raw_bg + s,
                                ..st
                            },
                        )
                    } else {
                        spec_sub_text_loop(
                            tv,
                            i + 1,
                            SubTextState {
                                main: if spacing {
                                    marked_last(st.main)
                                } else {
                                    st.main
                                },
                                raw_main: st.raw_main + s,
                                ..st
                            },
                        )
                    }
                },
            },
            XmlTokenV::Ref { bytes, pos } => match spec_resolve_entity(bytes) {
                Err(k) => Err(ctx_err(k, pos, st.ctx, None, None)),
                Ok(s) => if st.in_bg {
                    spec_sub_text_loop(tv, i + 1, SubTextState { raw_bg: st.raw_bg + s, ..st })
                } else {
                    spec_sub_text_loop(tv, i + 1, SubTextState { raw_main: st.raw_main + s, ..st })
                },
            },
        }
    }
}

/// The content built from the syllables of a `<text>` or, without syllables, from its
/// trimmed raw text; none when both are empty.
pub open spec fn spec_build_content(
    ws: Seq<SyllableV>,
    raw: Seq<char>,
    lang: Option<Seq<char>>,
) -> Option<SubLyricContentV> {
    if ws.len() == 0 {
        if trim_s(raw).len() == 0 {
            None
        } else {
            Some(SubLyricContentV { language: lang, text: trim_s(raw), words: None })
        }
    } else {
        Some(
            SubLyricContentV {
                language: lang,
                text: spec_full_text(spaced_words(ws), false),
                words: Some(spaced_words(ws)),
            },
        )
    }
}

/// The map entries with a content pushed under `key`, when there is one.
pub open spec fn push_content(
    e: Seq<(Seq<char>, Seq<SubLyricContentV>)>,
    key: Seq<char>,
    c: Option<SubLyricContentV>,
) -> Seq<(Seq<char>, Seq<SubLyricContentV>)> {
    match c {
        Some(x) => entries_push(e, key, x),
        None => e,
    }
}

/// The parser state once a `<text>` for line `id` is read: the line id cleared and the main
/// and background contents filed under `id`.
pub open spec fn finish_sub_text(
    st: SubTextState,
    id: Seq<char>,
    lang: Option<Seq<char>>,
    ty: SubLyricType,
) -> ParserContextV {
    let main = spec_build_content(unmarked_last(st.main), st.raw_main, lang);
    let bg = spec_build_content(unmarked_last(st.bg), st.raw_bg, lang);
    let c = ParserContextV { current_line_id: None, ..st.ctx };
    match ty {
        SubLyricType::Translation => ParserContextV {
            translations_map: push_content(c.translations_map, id, main),
            bg_translations_map: push_content(c.bg_translations_map, id, bg),
            ..c
        },
        SubLyricType::Transliteration => ParserContextV {
            romanizations_map: push_content(c.romanizations_map, id, main),
            bg_romanizations_map: push_content(c.bg_romanizations_map, id, bg),
            ..c
        },
    }
}

/// Reads the content of a `<text>` for line `id` from event `i` on.
pub open spec fn spec_sub_text(
    tv: Seq<XmlTokenV>,
    i: int,
    ctx: ParserContextV,
    id: Seq<char>,
    lang: Option<Seq<char>>,
    ty: SubLyricType,
) -> Result<(ParserContextV, int), TTMLProcessorErrorV> {
    let st = SubTextState {
        ctx: ParserContextV { current_line_id: Some(id), ..ctx },
        main: Seq::empty(),
        bg: Seq::empty(),
        raw_main: Seq::empty(),
        raw_bg: Seq::empty(),
        in_bg: false,
    };
    match spec_sub_text_loop(tv, i, st) {
        Err(e) => Err(e),
        Ok((s, j)) => Ok((finish_sub_text(s, id, lang, ty), j)),
    }
}

/// Whether an exec result of a reader that updates the state matches the spec.
pub open spec fn ctx_res_matches(
    r: Result<usize, TTMLProcessorError>,
    s: Result<(ParserContextV, int), TTMLProcessorErrorV>,
    c: ParserContextV,
    i: int,
    len: int,
) -> bool {
    match (r, s) {
        (Ok(j), Ok((cv, jv))) => j == jv && c == cv && i < j < len,
        (Err(e), Err(ev)) => e@ == ev,
        _ => false,
    }
}

/// Clears the flag of the last syllable.
pub fn unmark_last(words: &mut Vec<Syllable>)
    ensures
        views(final(words)@) == unmarked_last(views(old(words)@)),
{
    let n = words.len();
    if n > 0 {
        words[n - 1].ends_with_space = None;
    }
    assert(views(words@) =~= unmarked_last(views(old(words)@)));
}

/// Builds the content of a `<text>` from its syllables or its raw text.
fn build_content(words: Vec<Syllable>, raw: &Vec<char>, lang: &Option<String>) -> (r: Option<SubLyricContent>)
    ensures
        crate::model::opt_v(r) == spec_build_content(views(words@), raw@, crate::model::opt_v(*lang)),
{
    let mut words = words;
    if words.len() == 0 {
        let (a, b) = trim_range(raw, 0, raw.len());
        assert(raw@.subrange(0, raw.len() as int) =~= raw@);
        if a == b {
            None
        } else {
            Some(SubLyricContent { language: crate::parser::state::copy_opt_str(lang), text: string_from_chars(raw, a, b), words: None })
        }
    } else {
        let ghost orig = views(words@);
        normalize_words_spaces(&mut words);
        assert(views(words@) =~= spaced_words(orig));
        let text = build_full_text(words.as_slice(), false);
        Some(SubLyricContent { language: crate::parser::state::copy_opt_str(lang), text, words: Some(words) })
    }
}

/// Reads the content of a `<text>` for line `line_id`, from event `i` on, and files the main
/// and background contents under that id in the maps of `ty`.
pub fn parse_sub_lyric_text(
    t: &Vec<XmlToken>,
    i: usize,
    ctx: &mut ParserContext,
    line_id: String,
    lang: &Option<String>,
    ty: SubLyricType,
) -> (r: Result<usize, TTMLProcessorError>)
    requires
        tokens_wf(views_t(t@)),
        i < t.len(),
    ensures
        ctx_res_matches(
            r,
            spec_sub_text(views_t(t@), i as int, old(ctx)@, line_id@, crate::model::opt_v(*lang), ty),
            final(ctx)@,
            i as int,
            t.len() as int,
        ),
{
    let ghost tv = views_t(t@);
    ctx.current_line_id = Some(copy_str(line_id.as_str()));
    let ghost st0 = SubTextState {
        ctx: ctx@,
        main: Seq::empty(),
        bg: Seq::empty(),
        raw_main: Seq::empty(),
        raw_bg: Seq::empty(),
        in_bg: false,
    };
    assert(st0.ctx == ParserContextV { current_line_id: Some(line_id@), ..old(ctx)@ });
    let mut main: Vec<Syllable> = Vec::new();
    let mut bg: Vec<Syllable> = Vec::new();
    let mut raw_main: Vec<char> = Vec::new();
    let mut raw_bg: Vec<char> = Vec::new();
    let mut in_bg = false;
    let mut k = i;
    assert(views(main@) =~= Seq::<SyllableV>::empty());
    assert(views(bg@) =~= Seq::<SyllableV>::empty());
    loop
        invariant
            tv == views_t(t@),
            tokens_wf(tv),
            i <= k < t.len(),
            st0 == (SubTextState {
                ctx: ParserContextV { current_line_id: Some(line_id@), ..old(ctx)@ },
                main: Seq::empty(),
                bg: Seq::empty(),
                raw_main: Seq::empty(),
                raw_bg: Seq::empty(),
                in_bg: false,
            }),
            spec_sub_text_loop(
                tv,
                k as int,
                SubTextState {
                    ctx: ctx@,
                    main: views(main@),
                    bg: views(bg@),
                    raw_main: raw_main@,
                    raw_bg: raw_bg@,
                    in_bg,
                },
            ) == spec_sub_text_loop(tv, i as int, st0),
        decreases t.len() - k,
    {
        let ghost st = SubTextState {
            ctx: ctx@,
            main: views(main@),
            bg: views(bg@),
            raw_main: raw_main@,
            raw_bg: raw_bg@,
            in_bg,
        };
        assert(t@[k as int]@ == tv[k as int]);
        assert(!is_final_token(tv[k as int]) ==> k + 1 < t.len());
        match &t[k] {
            XmlToken::Error { message, pos } => {
                return Err(make_err(ParseErrorKind::XmlError(copy_str(message.as_str())), *pos, ctx, None, None));
            },
            XmlToken::Eof { pos } => {
                return Err(make_err(ParseErrorKind::UnexpectedEof, *pos, ctx, None, None));
            },
            XmlToken::Other { .. } => {
                k = k + 1;
            },
            XmlToken::Start { name, content, pos } => {
                let n = match utf8_exec(name.as_slice()) {
                    Ok(n) => n,
                    Err(e) => return Err(e),
                };
                push_tag_exec(ctx, n.as_str());
                if str_eq(n.as_str(), "span") {
                    let attrs = t[k].attributes();
                    if is_bg_role(&attrs) {
                        in_bg = true;
                        k = k + 1;
                    } else {
                        let (syl, j) = match parse_basic_syllable(t, k + 1, ctx, &attrs, *pos) {
                            Ok(x) => x,
                            Err(e) => return Err(e),
                        };
                        pop_tag_exec(ctx);
                        if in_bg {
                            bg.push(syl);
                            assert(views(bg@) =~= st.bg.push(syl@));
                        } else {
                            main.push(syl);
                            assert(views(main@) =~= st.main.push(syl@));
                        }
                        k = j;
                    }
                } else {
                    k = k + 1;
                }
            },
            XmlToken::End { name, .. } => {
                if name.is("span") {
                    in_bg = false;
                    pop_tag_exec(ctx);
                    k = k + 1;
                } else if name.is("text") {
                    let ghost stf = st;
                    ctx.current_line_id = None;
                    unmark_last(&mut main);
                    unmark_last(&mut bg);
                    let main_content = build_content(main, &raw_main, lang);
                    let bg_content = build_content(bg, &raw_bg, lang);
                    match ty {
                        SubLyricType::Translation => {
                            if let Some(c) = main_content {
                                ctx.translations_map.push(copy_str(line_id.as_str()), c);
                            }
                            if let Some(c) = bg_content {
                                ctx.bg_translations_map.push(copy_str(line_id.as_str()), c);
                            }
                        },
                        SubLyricType::Transliteration => {
                            if let Some(c) = main_content {
                                ctx.romanizations_map.push(copy_str(line_id.as_str()), c);
                            }
                            if let Some(c) = bg_content {
                                ctx.bg_romanizations_map.push(copy_str(line_id.as_str()), c);
                            }
                        },
                    }
                    assert(ctx@ == finish_sub_text(stf, line_id@, crate::model::opt_v(*lang), ty));
                    return Ok(k + 1);
                } else {
                    pop_tag_exec(ctx);
                    k = k + 1;
                }
            },
            XmlToken::Text { bytes, .. } => {
                let s = match utf8_exec(bytes.as_slice()) {
                    Ok(s) => s,
                    Err(e) => return Err(e),
                };
                let spacing = is_spacing_text(s.as_str());
                if in_bg {
                    if spacing {
                        mark_slice_last_space(&mut bg);
                        assert(views(bg@) =~= marked_last(st.bg));
                    }
                    push_str_chars(&mut raw_bg, s.as_str());
                } else {
                    if spacing {
                        mark_slice_last_space(&mut main);
                        assert(views(main@) =~= marked_last(st.main));
                    }
                    push_str_chars(&mut raw_main, s.as_str());
                }
                k = k + 1;
            },
            XmlToken::Ref { bytes, pos } => {
                let s = match resolve_xml_entity(bytes.as_slice()) {
                    Ok(s) => s,
                    Err(kind) => return Err(make_err(kind, *pos, ctx, None, None)),
                };
                if in_bg {
                    push_str_chars(&mut raw_bg, s.as_str());
                } else {
                    push_str_chars(&mut raw_main, s.as_str());
                }
                k = k + 1;
            },
        }
    }
}

/// Reads the events of a `<translation>` or `<transliteration>` (end tag `item`) from `i` on:
/// each `<text for=..>` is read as the content of that line.
pub open spec fn spec_sub_block(
    tv: Seq<XmlTokenV>,
    i: int,
    ctx: ParserContextV,
    item: Seq<char>,
    lang: Option<Seq<char>>,
    ty: SubLyricType,
) -> Result<(ParserContextV, int), TTMLProcessorErrorV>
    decreases tv.len() - i,
{
    if i < 0 || i >= tv.len() {
        Err(ctx_err(ParseErrorKindV::UnexpectedEof, 0, ctx, None, None))
    } else {
        match tv[i] {
            XmlTokenV::Error { message, pos } => Err(
                ctx_err(ParseErrorKindV::XmlError(message), pos, ctx, None, None),
            ),
            XmlTokenV::Eof { pos } => Err(ctx_err(ParseErrorKindV::UnexpectedEof, pos, ctx, None, None)),
            XmlTokenV::Start { name, content, pos } => match utf8_text(name) {
                None => Err(utf8_err(name)),
                Some(n) => {
                    let c1 = push_tag(ctx, n);
                    if n == "text"@ {
                        match spec_required_attr(start_attrs(name, content), "for"@, pos, c1) {
                            Err(e) => Err(e),
                            Ok(id) => match spec_sub_text(tv, i + 1, c1, id, lang, ty) {
                                Err(e) => Err(e),
                                Ok((c2, j)) => {
                                    proof {
                                        lemma_sub_text_range(tv, i + 1, c1, id, lang, ty);
                                    }
                                    spec_sub_block(tv, j, pop_tag(c2), item, lang, ty)
                                },
                            },
                        }
                    } else {
                        spec_sub_block(tv, i + 1, c1, item, lang, ty)
                    }
                },
            },
            XmlTokenV::End { name, .. } => if name_is(name, item) {
                Ok((ctx, i + 1))
            } else {
                spec_sub_block(tv, i + 1, pop_tag(ctx), item, lang, ty)
            },
            _ => spec_sub_block(tv, i + 1, ctx, item, lang, ty),
        }
    }
}

/// Reads a `<translation>` or `<transliteration>` (end tag `item_tag`) in language `lang`,
/// from event `i` on.
pub fn parse_sub_lyric_block(
    t: &Vec<XmlToken>,
    i: usize,
    ctx: &mut ParserContext,
    item_tag: &str,
    lang: &Option<String>,
    ty: SubLyricType,
) -> (r: Result<usize, TTMLProcessorError>)
    requires
        tokens_wf(views_t(t@)),
        i < t.len(),
    ensures
        ctx_res_matches(
            r,
            spec_sub_block(views_t(t@), i as int, old(ctx)@, item_tag@, crate::model::opt_v(*lang), ty),
            final(ctx)@,
            i as int,
            t.len() as int,
        ),
{
    let ghost tv = views_t(t@);
    let mut k = i;
    loop
        invariant
            tv == views_t(t@),
            tokens_wf(tv),
            i <= k < t.len(),
            spec_sub_block(tv, k as int, ctx@, item_tag@, crate::model::opt_v(*lang), ty)
                == spec_sub_block(tv, i as int, old(ctx)@, item_tag@, crate::model::opt_v(*lang), ty),
        decreases t.len() - k,
    {
        assert(t@[k as int]@ == tv[k as int]);
        assert(!is_final_token(tv[k as int]) ==> k + 1 < t.len());
        match &t[k] {
            XmlToken::Error { message, pos } => {
                return Err(make_err(ParseErrorKind::XmlError(copy_str(message.as_str())), *pos, ctx, None, None));
            },
            XmlToken::Eof { pos } => {
                return Err(make_err(ParseErrorKind::UnexpectedEof, *pos, ctx, None, None));
            },
            XmlToken::Start { name, content, pos } => {
                let n = match utf8_exec(name.as_slice()) {
                    Ok(n) => n,
                    Err(e) => return Err(e),
                };
                push_tag_exec(ctx, n.as_str());
                if str_eq(n.as_str(), "text") {
                    let attrs = t[k].attributes();
                    let id = match get_required_attr(&attrs, "for", *pos, ctx) {
                        Ok(id) => id,
                        Err(e) => return Err(e),
                    };
                    let j = match parse_sub_lyric_text(t, k + 1, ctx, id, lang, ty) {
                        Ok(j) => j,
                        Err(e) => return Err(e),
                    };
                    pop_tag_exec(ctx);
                    k = j;
                } else {
                    k = k + 1;
                }
            },
            XmlToken::End { name, .. } => {
                if name.is(item_tag) {
                    return Ok(k + 1);
                }
                pop_tag_exec(ctx);
                k = k + 1;
            },
            _ => {
                k = k + 1;
            },
        }
    }
}

/// Reads the events of a `<translations>` or `<transliterations>` (end tag `group`) from `i`
/// on: each item `item` is read as a block in the language of its `xml:lang`.
pub open spec fn spec_sub_lyrics(
    tv: Seq<XmlTokenV>,
    i: int,
    ctx: ParserContextV,
    group: Seq<char>,
    item: Seq<char>,
    ty: SubLyricType,
) -> Result<(ParserContextV, int), TTMLProcessorErrorV>
    decreases tv.len() - i,
{
    if i < 0 || i >= tv.len() {
        Err(ctx_err(ParseErrorKindV::UnexpectedEof, 0, ctx, None, None))
    } else {
        match tv[i] {
            XmlTokenV::Error { message, pos } => Err(
                ctx_err(ParseErrorKindV::XmlError(message), pos, ctx, None, None),
            ),
            XmlTokenV::Eof { pos } => Err(ctx_err(ParseErrorKindV::UnexpectedEof, pos, ctx, None, None)),
            XmlTokenV::Start { name, content, pos } => match utf8_text(name) {
                None => Err(utf8_err(name)),
                Some(n) => {
                    let c1 = push_tag(ctx, n);
                    if n == item {
                        match spec_find_attr(start_attrs(name, content), 0, "xml:lang"@, pos, c1) {
                            Err(e) => Err(e),
                            Ok(lang) => match spec_sub_block(tv, i + 1, c1, item, lang, ty) {
                                Err(e) => Err(e),
                                Ok((c2, j)) => {
                                    proof {
                                        lemma_sub_block_range(tv, i + 1, c1, item, lang, ty);
                                    }
                                    spec_sub_lyrics(tv, j, pop_tag(c2), group, item, ty)
                                },
                            },
                        }
                    } else {
                        spec_sub_lyrics(tv, i + 1, c1, group, item, ty)
                    }
                },
            },
            XmlTokenV::End { name, .. } => if name_is(name, group) {
                Ok((ctx, i + 1))
            } else {
                spec_sub_lyrics(tv, i + 1, pop_tag(ctx), group, item, ty)
            },
            _ => spec_sub_lyrics(tv, i + 1, ctx, group, item, ty),
        }
    }
}

/// Reads a `<translations>` or `<transliterations>` group (end tag `group_tag`, items
/// `item_tag`) from event `i` on.
pub fn parse_sub_lyrics(
    t: &Vec<XmlToken>,
    i: usize,
    ctx: &mut ParserContext,
    group_tag: &str,
    item_tag: &str,
    ty: SubLyricType,
) -> (r: Result<usize, TTMLProcessorError>)
    requires
        tokens_wf(views_t(t@)),
        i < t.len(),
    ensures
        ctx_res_matches(
            r,
            spec_sub_lyrics(views_t(t@), i as int, old(ctx)@, group_tag@, item_tag@, ty),
            final(ctx)@,
            i as int,
            t.len() as int,
        ),
{
    let ghost tv = views_t(t@);
    let mut k = i;
    loop
        invariant
            tv == views_t(t@),
            tokens_wf(tv),
            i <= k < t.len(),
            spec_sub_lyrics(tv, k as int, ctx@, group_tag@, item_tag@, ty) == spec_sub_lyrics(
                tv,
                i as int,
                old(ctx)@,
                group_tag@,
                item_tag@,
                ty,
            ),
        decreases t.len() - k,
    {
        assert(t@[k as int]@ == tv[k as int]);
        assert(!is_final_token(tv[k as int]) ==> k + 1 < t.len());
        match &t[k] {
            XmlToken::Error { message, pos } => {
                return Err(make_err(ParseErrorKind::XmlError(copy_str(message.as_str())), *pos, ctx, None, None));
            },
            XmlToken::Eof { pos } => {
                return Err(make_err(ParseErrorKind::UnexpectedEof, *pos, ctx, None, None));
            },
            XmlToken::Start { name, content, pos } => {
                let n = match utf8_exec(name.as_slice()) {
                    Ok(n) => n,
                    Err(e) => return Err(e),
                };
                push_tag_exec(ctx, n.as_str());
                if str_eq(n.as_str(), item_tag) {
                    let attrs = t[k].attributes();
                    let lang = match get_attr_value(&attrs, "xml:lang", *pos, ctx) {
                        Ok(l) => l,
                        Err(e) => return Err(e),
                    };
                    let j = match parse_sub_lyric_block(t, k + 1, ctx, item_tag, &lang, ty) {
                        Ok(j) => j,
                        Err(e) => return Err(e),
                    };
                    pop_tag_exec(ctx);
                    k = j;
                } else {
                    k = k + 1;
                }
            },
            XmlToken::End { name, .. } => {
                if name.is(group_tag) {
                    return Ok(k + 1);
                }
                pop_tag_exec(ctx);
                k = k + 1;
            },
            _ => {
                k = k + 1;
            },
        }
    }
}

/// A `<translations>` or `<transliterations>` group read from event `i` on ends after `i`
/// and within the events.
pub proof fn lemma_sub_lyrics_range(
    tv: Seq<XmlTokenV>,
    i: int,
    ctx: ParserContextV,
    group: Seq<char>,
    item: Seq<char>,
    ty: SubLyricType,
)
    ensures
        spec_sub_lyrics(tv, i, ctx, group, item, ty) matches Ok((_, j)) ==> i < j <= tv.len(),
    decreases tv.len() - i,
{
    if 0 <= i < tv.len() {
        match tv[i] {
            XmlTokenV::Start { name, content, pos } => {
                if let Some(n) = utf8_text(name) {
                    let c1 = push_tag(ctx, n);
                    if n == item {
                        if let Ok(lang) = spec_find_attr(start_attrs(name, content), 0, "xml:lang"@, pos, c1) {
                            lemma_sub_block_range(tv, i + 1, c1, item, lang, ty);
                            if let Ok((c2, j)) = spec_sub_block(tv, i + 1, c1, item, lang, ty) {
                                lemma_sub_lyrics_range(tv, j, pop_tag(c2), group, item, ty);
                            }
                        }
                    } else {
                        lemma_sub_lyrics_range(tv, i + 1, c1, group, item, ty);
                    }
                }
            },
            XmlTokenV::End { .. } => {
                lemma_sub_lyrics_range(tv, i + 1, pop_tag(ctx), group, item, ty);
            },
            _ => {
                lemma_sub_lyrics_range(tv, i + 1, ctx, group, item, ty);
            },
        }
    }
}

/// A `<text>` read from event `i` on ends after `i` and within the events.
pub proof fn lemma_sub_text_loop_range(tv: Seq<XmlTokenV>, i: int, st: SubTextState)
    ensures
        spec_sub_text_loop(tv, i, st) matches Ok((_, j)) ==> i < j <= tv.len(),
    decreases tv.len() - i,
{
    if 0 <= i < tv.len() {
        match tv[i] {
            XmlTokenV::Other { .. } => lemma_sub_text_loop_range(tv, i + 1, st),
            XmlTokenV::Start { name, content, pos } => {
                if let Some(n) = utf8_text(name) {
                    let c1 = push_tag(st.ctx, n);
                    let attrs = start_attrs(name, content);
                    lemma_sub_text_loop_range(tv, i + 1, SubTextState { ctx: c1, in_bg: true, ..st });
                    lemma_sub_text_loop_range(tv, i + 1, SubTextState { ctx: c1, ..st });
                    lemma_read_text_range(tv, i + 1, c1, "span"@, 1, Seq::empty());
                    if let Ok((syl, j)) = spec_basic_syllable(tv, i + 1, c1, attrs, pos) {
                        let c2 = pop_tag(c1);
                        lemma_sub_text_loop_range(tv, j, SubTextState { ctx: c2, bg: st.bg.push(syl), ..st });
                        lemma_sub_text_loop_range(tv, j, SubTextState { ctx: c2, main: st.main.push(syl), ..st });
                    }
                }
            },
            XmlTokenV::End { .. } => {
                lemma_sub_text_loop_range(tv, i + 1, SubTextState { ctx: pop_tag(st.ctx), in_bg: false, ..st });
                lemma_sub_text_loop_range(tv, i + 1, SubTextState { ctx: pop_tag(st.ctx), ..st });
            },
            XmlTokenV::Text { bytes, .. } => {
                if let Some(s) = utf8_text(bytes) {
                    let spacing = s.len() > 0 && !s.contains('\n');
                    lemma_sub_text_loop_range(
                        tv,
                        i + 1,
                        SubTextState {
                            bg: if spacing {
                                marked_last(st.bg)
                            } else {
                                st.bg
                            },
                            raw_bg: st.raw_bg + s,
                            ..st
                        },
                    );
                    lemma_sub_text_loop_range(
                        tv,
                        i + 1,
                        SubTextState {
                            main: if spacing {
                                marked_last(st.main)
                            } else {
                                st.main
                            },
                            raw_main: st.raw_main + s,
                            ..st
                        },
                    );
                }
            },
            XmlTokenV::Ref { bytes, .. } => {
                if let Ok(s) = spec_resolve_entity(bytes) {
                    lemma_sub_text_loop_range(tv, i + 1, SubTextState { raw_bg: st.raw_bg + s, ..st });
                    lemma_sub_text_loop_range(tv, i + 1, SubTextState { raw_main: st.raw_main + s, ..st });
                }
            },
            _ => {},
        }
    }
}

/// A `<text>` read from event `i` on ends after `i` and within the events.
pub proof fn lemma_sub_text_range(
    tv: Seq<XmlTokenV>,
    i: int,
    ctx: ParserContextV,
    id: Seq<char>,
    lang: Option<Seq<char>>,
    ty: SubLyricType,
)
    ensures
        spec_sub_text(tv, i, ctx, id, lang, ty) matches Ok((_, j)) ==> i < j <= tv.len(),
{
    let st = SubTextState {
        ctx: ParserContextV { current_line_id: Some(id), ..ctx },
        main: Seq::empty(),
        bg: Seq::empty(),
        raw_main: Seq::empty(),
        raw_bg: Seq::empty(),
        in_bg: false,
    };
    lemma_sub_text_loop_range(tv, i, st);
}

/// A `<translation>` or `<transliteration>` read from event `i` on ends after `i` and within
/// the events.
pub proof fn lemma_sub_block_range(
    tv: Seq<XmlTokenV>,
    i: int,
    ctx: ParserContextV,
    item: Seq<char>,
    lang: Option<Seq<char>>,
    ty: SubLyricType,
)
    ensures
        spec_sub_block(tv, i, ctx, item, lang, ty) matches Ok((_, j)) ==> i < j <= tv.len(),
    decreases tv.len() - i,
{
    if 0 <= i < tv.len() {
        match tv[i] {
            XmlTokenV::Start { name, content, pos } => {
                if let Some(n) = utf8_text(name) {
                    let c1 = push_tag(ctx, n);
                    if let Ok(id) = spec_required_attr(start_attrs(name, content), "for"@, pos, c1) {
                        lemma_sub_text_range(tv, i + 1, c1, id, lang, ty);
                        if let Ok((c2, j)) = spec_sub_text(tv, i + 1, c1, id, lang, ty) {
                            lemma_sub_block_range(tv, j, pop_tag(c2), item, lang, ty);
                        }
                    }
                    lemma_sub_block_range(tv, i + 1, c1, item, lang, ty);
                }
            },
            XmlTokenV::End { .. } => {
                lemma_sub_block_range(tv, i + 1, pop_tag(ctx), item, lang, ty);
            },
            _ => {
                lemma_sub_block_range(tv, i + 1, ctx, item, lang, ty);
            },
        }
    }
}

} // verus!
