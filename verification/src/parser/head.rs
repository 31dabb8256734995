//! The `<head>` of a document: singers, AMLL metadata, songwriters, title, and the
//! translations and transliterations of `<iTunesMetadata>`.

use vstd::prelude::*;
use crate::error::{ParseErrorKind, ParseErrorKindV, TTMLProcessorError, TTMLProcessorErrorV};
use crate::maps::entries_push;
use crate::model::{opt_pushed, Agent, AgentV, PlatformId, TTMLMetadataV};
use crate::parser::state::{
    utf8_err,
    ctx_err, make_err, name_is, QNameExt, pop_tag, pop_tag_exec, push_tag, push_tag_exec,
    tokens_wf, utf8_exec, utf8_text, ParserContext, ParserContextV,
};
use crate::parser::sub_lyric::{ctx_res_matches, lemma_sub_lyrics_range, parse_sub_lyrics, spec_sub_lyrics, SubLyricType};
use crate::parser::utils::{
    get_attr_value, get_required_attr, lemma_read_text_range, read_text_content, spec_find_attr, spec_read_text,
    spec_required_attr, views_a, views_t,
};
use crate::text::{copy_str, str_eq, trim_s, trim_string};
use crate::xml::{is_final_token, start_attrs, XmlAttr, XmlAttrV, XmlToken, XmlTokenV};

verus! {

/// The entries of an optional list, none when absent.
pub open spec fn or_empty<T>(o: Option<Seq<T>>) -> Seq<T> {
    match o {
        Some(s) => s,
        None => Seq::empty(),
    }
}

/// The platform whose id an AMLL metadata key names, if any.
pub open spec fn platform_of_key(key: Seq<char>) -> Option<PlatformId> {
    if key == "ncmMusicId"@ {
        Some(PlatformId::NcmMusicId)
    } else if key == "qqMusicId"@ {
        Some(PlatformId::QqMusicId)
    } else if key == "spotifyId"@ {
        Some(PlatformId::SpotifyId)
    } else if key == "appleMusicId"@ {
        Some(PlatformId::AppleMusicId)
    } else {
        None
    }
}

/// The metadata once an `<amll:meta key=.. value=..>` is read: the trimmed value, when not
/// empty, goes to the field that the key names, or to the raw properties.
pub open spec fn spec_amll_meta(m: TTMLMetadataV, key: Seq<char>, value: Seq<char>) -> TTMLMetadataV {
    let v = trim_s(value);
    if v.len() == 0 {
        m
    } else if key == "musicName"@ {
        TTMLMetadataV { title: opt_pushed(m.title, v), ..m }
    } else if key == "artists"@ {
        TTMLMetadataV { artist: opt_pushed(m.artist, v), ..m }
    } else if key == "album"@ {
        TTMLMetadataV { album: opt_pushed(m.album, v), ..m }
    } else if key == "isrc"@ {
        TTMLMetadataV { isrc: opt_pushed(m.isrc, v), ..m }
    } else if key == "ttmlAuthorGithub"@ {
        TTMLMetadataV { author_ids: opt_pushed(m.author_ids, v), ..m }
    } else if key == "ttmlAuthorGithubLogin"@ {
        TTMLMetadataV { author_names: opt_pushed(m.author_names, v), ..m }
    } else {
        match platform_of_key(key) {
            Some(p) => TTMLMetadataV {
                platform_ids: Some(entries_push(or_empty(m.platform_ids), p, v)),
                ..m
            },
            None => TTMLMetadataV {
                raw_properties: Some(entries_push(or_empty(m.raw_properties), key, v)),
                ..m
            },
        }
    }
}

/// Files one `<amll:meta>` entry into the metadata.
pub fn parse_amll_meta(ctx: &mut ParserContext, key: &str, value: &str)
    ensures
        final(ctx)@ == (ParserContextV {
            metadata: spec_amll_meta(old(ctx)@.metadata, key@, value@),
            ..old(ctx)@
        }),
{
    let val = trim_string(value);
    if val.as_str().is_empty() {
        assert(val@.len() == 0);
        return;
    }
    assert(val@.len() > 0);
    let meta = &mut ctx.metadata;
    if str_eq(key, "musicName") {
        meta.push_title(val);
    } else if str_eq(key, "artists") {
        meta.push_artist(val);
    } else if str_eq(key, "album") {
        meta.push_album(val);
    } else if str_eq(key, "isrc") {
        meta.push_isrc(val);
    } else if str_eq(key, "ttmlAuthorGithub") {
        meta.push_author_id(val);
    } else if str_eq(key, "ttmlAuthorGithubLogin") {
        meta.push_author_name(val);
    } else if str_eq(key, "ncmMusicId") {
        meta.push_platform_id(PlatformId::NcmMusicId, val);
    } else if str_eq(key, "qqMusicId") {
        meta.push_platform_id(PlatformId::QqMusicId, val);
    } else if str_eq(key, "spotifyId") {
        meta.push_platform_id(PlatformId::SpotifyId, val);
    } else if str_eq(key, "appleMusicId") {
        meta.push_platform_id(PlatformId::AppleMusicId, val);
    } else {
        meta.push_raw_property(copy_str(key), val);
    }
}

/// Reads the events inside a `<ttm:agent>` from `i` on, up to its end tag; gives the state,
/// the name of the last `<ttm:name>`, and the position after the end tag.
pub open spec fn spec_agent_loop(
    tv: Seq<XmlTokenV>,
    i: int,
    ctx: ParserContextV,
    name: Option<Seq<char>>,
) -> Result<(ParserContextV, Option<Seq<char>>, int), TTMLProcessorErrorV>
    decreases tv.len() - i,
{
    if i < 0 || i >= tv.len() {
        Err(ctx_err(ParseErrorKindV::UnexpectedEof, 0, ctx, None, None))
    } else {
        match tv[i] {
            XmlTokenV::Error { message, pos } => Err(
                ctx_err(ParseErrorKindV::XmlError(message), pos, ctx, None, None),
            ),
            XmlTokenV::Eof { pos } => Err(ctx_err(ParseErrorKindV::UnexpectedEof, pos, ctx, None, None)),
            XmlTokenV::Start { name: raw, .. } => match utf8_text(raw) {
                None => Err(utf8_err(raw)),
                Some(n) => {
                    let c1 = push_tag(ctx, n);
                    if n == "ttm:name"@ {
                        match spec_read_text(tv, i + 1, c1, "ttm:name"@, 1, Seq::empty()) {
                            Err(e) => Err(e),
                            Ok((text, j)) => {
                                proof {
                                    lemma_read_text_range(tv, i + 1, c1, "ttm:name"@, 1, Seq::empty());
                                }
                                spec_agent_loop(tv, j, pop_tag(c1), Some(text))
                            },
                        }
                    } else {
                        spec_agent_loop(tv, i + 1, c1, name)
                    }
                },
            },
            XmlTokenV::End { name: raw, .. } => if name_is(raw, "ttm:agent"@) {
                Ok((ctx, name, i + 1))
            } else {
                spec_agent_loop(tv, i + 1, pop_tag(ctx), name)
            },
            _ => spec_agent_loop(tv, i + 1, ctx, name),
        }
    }
}

/// Reads a `<ttm:agent>` whose start tag, with attributes `attrs`, was read at `pos`: its
/// required id, its type, its name; the singer is then added to the metadata.
pub open spec fn spec_agent(
    tv: Seq<XmlTokenV>,
    i: int,
    ctx: ParserContextV,
    attrs: Seq<XmlAttrV>,
    pos: u64,
) -> Result<(ParserContextV, int), TTMLProcessorErrorV> {
    match spec_required_attr(attrs, "xml:id"@, pos, ctx) {
        Err(e) => Err(e),
        Ok(id) => match spec_find_attr(attrs, 0, "type"@, pos, ctx) {
            Err(e) => Err(e),
            Ok(ty) => match spec_agent_loop(tv, i, ctx, None) {
                Err(e) => Err(e),
                Ok((c, name, j)) => {
                    let agent = AgentV { id, name, type_: ty };
                    Ok(
                        (
                            ParserContextV {
                                metadata: TTMLMetadataV {
                                    agents: Some(
                                        crate::maps::entries_insert(or_empty(c.metadata.agents), id, agent),
                                    ),
                                    ..c.metadata
                                },
                                ..c
                            },
                            j,
                        ),
                    )
                },
            },
        },
    }
}

/// Reads a `<ttm:agent>` whose start tag, with attributes `attrs`, was read at `pos`, from
/// event `i` on, and adds the singer to the metadata.
pub fn parse_agent(t: &Vec<XmlToken>, i: usize, ctx: &mut ParserContext, attrs: &Vec<XmlAttr>, pos: u64) -> (r:
    Result<usize, TTMLProcessorError>)
    requires
        tokens_wf(views_t(t@)),
        i < t.len(),
    ensures
        ctx_res_matches(r, spec_agent(views_t(t@), i as int, old(ctx)@, views_a(attrs@), pos), final(ctx)@, i as int, t.len() as int),
{
    let ghost tv = views_t(t@);
    let id = match get_required_attr(attrs, "xml:id", pos, ctx) {
        Ok(id) => id,
        Err(e) => return Err(e),
    };
    let type_ = match get_attr_value(attrs, "type", pos, ctx) {
        Ok(ty) => ty,
        Err(e) => return Err(e),
    };
    let mut name: Option<String> = None;
    let mut k = i;
    loop
        invariant
            tv == views_t(t@),
            tokens_wf(tv),
            i <= k < t.len(),
            spec_required_attr(views_a(attrs@), "xml:id"@, pos, old(ctx)@) == Ok::<Seq<char>, TTMLProcessorErrorV>(id@),
            spec_find_attr(views_a(attrs@), 0, "type"@, pos, old(ctx)@) == Ok::<Option<Seq<char>>, TTMLProcessorErrorV>(crate::model::opt_v(type_)),
            spec_agent_loop(tv, k as int, ctx@, crate::model::opt_v(name)) == spec_agent_loop(
                tv,
                i as int,
                old(ctx)@,
                None,
            ),
        decreases t.len() - k,
    {
        assert(t@[k as int]@ == tv[k as int]);
        assert(!is_final_token(tv[k as int]) ==> k + 1 < t.len());
        match &t[k] {
            XmlToken::Error { message, pos } => {
                return Err(make_err(ParseErrorKind::XmlError(copy_str(message.as_str())), *pos, ctx, None, None));
            },
            XmlToken::Eof { pos } => {
                return Err(make_err(ParseErrorKind::UnexpectedEof, *pos, ctx, None, None));
            },
            XmlToken::Start { name: raw, .. } => {
                let n = match utf8_exec(raw.as_slice()) {
                    Ok(n) => n,
                    Err(e) => return Err(e),
                };
                push_tag_exec(ctx, n.as_str());
                if str_eq(n.as_str(), "ttm:name") {
                    let (text, j) = match read_text_content(t, k + 1, ctx, "ttm:name") {
                        Ok(x) => x,
                        Err(e) => return Err(e),
                    };
                    name = Some(text);
                    pop_tag_exec(ctx);
                    k = j;
                } else {
                    k = k + 1;
                }
            },
            XmlToken::End { name: raw, .. } => {
                if raw.is("ttm:agent") {
                    let agent = Agent { id, name, type_ };
                    ctx.metadata.insert_agent(agent);
                    return Ok(k + 1);
                }
                pop_tag_exec(ctx);
                k = k + 1;
            },
            _ => {
                k = k + 1;
            },
        }
    }
}

/// Reads the events inside a `<songwriters>` from `i` on, up to its end tag: the trimmed
/// text of each `<songwriter>`, when not empty, is added to the metadata.
pub open spec fn spec_songwriters(tv: Seq<XmlTokenV>, i: int, ctx: ParserContextV) -> Result<
    (ParserContextV, int),
    TTMLProcessorErrorV,
>
    decreases tv.len() - i,
{
    if i < 0 || i >= tv.len() {
        Err(ctx_err(ParseErrorKindV::UnexpectedEof, 0, ctx, None, None))
    } else {
        match tv[i] {
            XmlTokenV::Error { message, pos } => Err(
                ctx_err(ParseErrorKindV::XmlError(message), pos, ctx, None, None),
            ),
            XmlTokenV::Eof { pos } => Err(ctx_err(ParseErrorKindV::UnexpectedEof, pos, ctx, None, None)),
            XmlTokenV::Start { name, .. } => match utf8_text(name) {
                None => Err(utf8_err(name)),
                Some(n) => {
                    let c1 = push_tag(ctx, n);
                    if n == "songwriter"@ {
                        match spec_read_text(tv, i + 1, c1, "songwriter"@, 1, Seq::empty()) {
                            Err(e) => Err(e),
                            Ok((text, j)) => {
                                proof {
                                    lemma_read_text_range(tv, i + 1, c1, "songwriter"@, 1, Seq::empty());
                                }
                                let v = trim_s(text);
                                let c2 = if v.len() > 0 {
                                    ParserContextV {
                                        metadata: TTMLMetadataV {
                                            songwriters: opt_pushed(c1.metadata.songwriters, v),
                                            ..c1.metadata
                                        },
                                        ..c1
                                    }
                                } else {
                                    c1
                                };
                                spec_songwriters(tv, j, pop_tag(c2))
                            },
                        }
                    } else {
                        spec_songwriters(tv, i + 1, c1)
                    }
                },
            },
            XmlTokenV::End { name, .. } => if name_is(name, "songwriters"@) {
                Ok((ctx, i + 1))
            } else {
                spec_songwriters(tv, i + 1, pop_tag(ctx))
            },
            _ => spec_songwriters(tv, i + 1, ctx),
        }
    }
}

/// Reads a `<songwriters>` from event `i` on.
pub fn parse_songwriters(t: &Vec<XmlToken>, i: usize, ctx: &mut ParserContext) -> (r: Result<
    usize,
    TTMLProcessorError,
>)
    requires
        tokens_wf(views_t(t@)),
        i < t.len(),
    ensures
        ctx_res_matches(r, spec_songwriters(views_t(t@), i as int, old(ctx)@), final(ctx)@, i as int, t.len() as int),
{
    let ghost tv = views_t(t@);
    let mut k = i;
    loop
        invariant
            tv == views_t(t@),
            tokens_wf(tv),
            i <= k < t.len(),
            spec_songwriters(tv, k as int, ctx@) == spec_songwriters(tv, i as int, old(ctx)@),
        decreases t.len() - k,
    {
        assert(t@[k as int]@ == tv[k as int]);
        assert(!is_final_token(tv[k as int]) ==> k + 1 < t.len());
        match &t[k] {
            XmlToken::Error { message, pos } => {
                return Err(make_err(ParseErrorKind::XmlError(copy_str(message.as_str())), *pos, ctx, None, None));
            },
            XmlToken::Eof { pos } => {
                return Err(make_err(ParseErrorKind::UnexpectedEof, *pos, ctx, None, None));
            },
            XmlToken::Start { name, .. } => {
                let n = match utf8_exec(name.as_slice()) {
                    Ok(n) => n,
                    Err(e) => return Err(e),
                };
                push_tag_exec(ctx, n.as_str());
                if str_eq(n.as_str(), "songwriter") {
                    let (text, j) = match read_text_content(t, k + 1, ctx, "songwriter") {
                        Ok(x) => x,
                        Err(e) => return Err(e),
                    };
                    let v = trim_string(text.as_str());
                    if !v.as_str().is_empty() {
                        ctx.metadata.push_songwriter(v);
                    }
                    pop_tag_exec(ctx);
                    k = j;
                } else {
                    k = k + 1;
                }
            },
            XmlToken::End { name, .. } => {
                if name.is("songwriters") {
                    return Ok(k + 1);
                }
                pop_tag_exec(ctx);
                k = k + 1;
            },
            _ => {
                k = k + 1;
            },
        }
    }
}

/// The state after an `<amll:meta>` start tag with attributes `attrs`: when both `key` and
/// `value` can be read, the entry is filed; otherwise the tag is passed over.
pub open spec fn spec_meta_tag(attrs: Seq<XmlAttrV>, pos: u64, ctx: ParserContextV) -> ParserContextV {
    match (spec_required_attr(attrs, "key"@, pos, ctx), spec_required_attr(attrs, "value"@, pos, ctx)) {
        (Ok(key), Ok(value)) => ParserContextV {
            metadata: spec_amll_meta(ctx.metadata, key, value),
            ..ctx
        },
        _ => ctx,
    }
}

/// Reads a `<translations>`, `<transliterations>`, `<ttm:agent>`, `<songwriters>` or
/// `<ttm:title>` element named `n` of the head, whose start tag (attributes `attrs`, read at
/// `pos`) was just read, from event `i` on.
pub open spec fn spec_head_item(
    tv: Seq<XmlTokenV>,
    i: int,
    c1: ParserContextV,
    n: Seq<char>,
    attrs: Seq<XmlAttrV>,
    pos: u64,
) -> Result<(ParserContextV, int), TTMLProcessorErrorV> {
    if n == "translations"@ {
        spec_sub_lyrics(tv, i, c1, n, "translation"@, SubLyricType::Translation)
    } else if n == "transliterations"@ {
        spec_sub_lyrics(
            tv,
            i,
            c1,
            n,
            "transliteration"@,
            SubLyricType::Transliteration,
        )
    } else if n == "ttm:agent"@ {
        spec_agent(tv, i, c1, attrs, pos)
    } else if n == "songwriters"@ {
        spec_songwriters(tv, i, c1)
    } else {
        match spec_read_text(tv, i, c1, n, 1, Seq::empty()) {
            Err(e) => Err(e),
            Ok((text, j)) => if trim_s(text).len() > 0 {
                Ok(
                    (
                        ParserContextV {
                            metadata: TTMLMetadataV {
                                title: opt_pushed(c1.metadata.title, trim_s(text)),
                                ..c1.metadata
                            },
                            ..c1
                        },
                        j,
                    ),
                )
            } else {
                Ok((c1, j))
            },
        }
    }
}

/// An element of the head read from event `i` on ends after `i` and within the events.
pub proof fn lemma_head_item_range(
    tv: Seq<XmlTokenV>,
    i: int,
    c1: ParserContextV,
    n: Seq<char>,
    attrs: Seq<XmlAttrV>,
    pos: u64,
)
    ensures
        spec_head_item(tv, i, c1, n, attrs, pos) matches Ok((_, j)) ==> i < j <= tv.len(),
{
    lemma_sub_lyrics_range(tv, i, c1, n, "translation"@, SubLyricType::Translation);
    lemma_sub_lyrics_range(tv, i, c1, n, "transliteration"@, SubLyricType::Transliteration);
    lemma_agent_loop_range(tv, i, c1, None);
    lemma_songwriters_range(tv, i, c1);
    lemma_read_text_range(tv, i, c1, n, 1, Seq::empty());
}

/// Reads the events of the `<head>` from `i` on, up to its end tag.
pub open spec fn spec_head(tv: Seq<XmlTokenV>, i: int, ctx: ParserContextV) -> Result<
    (ParserContextV, int),
    TTMLProcessorErrorV,
>
    decreases tv.len() - i,
{
    if i < 0 || i >= tv.len() {
        Err(ctx_err(ParseErrorKindV::UnexpectedEof, 0, ctx, None, None))
    } else {
        match tv[i] {
            XmlTokenV::Error { message, pos } => Err(
                ctx_err(ParseErrorKindV::XmlError(message), pos, ctx, None, None),
            ),
            XmlTokenV::Eof { pos } => Err(ctx_err(ParseErrorKindV::UnexpectedEof, pos, ctx, None, None)),
            XmlTokenV::Start { name, content, pos } => match utf8_text(name) {
                None => Err(utf8_err(name)),
                Some(n) => {
                    let c1 = push_tag(ctx, n);
                    let attrs = start_attrs(name, content);
                    if n == "amll:meta"@ {
                        spec_head(tv, i + 1, spec_meta_tag(attrs, pos, c1))
                    } else if n == "translations"@ || n == "transliterations"@ || n == "ttm:agent"@
                        || n == "songwriters"@ || n == "ttm:title"@ {
                        match spec_head_item(tv, i + 1, c1, n, attrs, pos) {
                            Err(e) => Err(e),
                            Ok((c2, j)) => {
                                proof {
                                    lemma_head_item_range(tv, i + 1, c1, n, attrs, pos);
                                }
                                spec_head(tv, j, pop_tag(c2))
                            },
                        }
                    } else {
                        spec_head(tv, i + 1, c1)
                    }
                },
            },
            XmlTokenV::End { name, .. } => if name_is(name, "head"@) {
                Ok((ctx, i + 1))
            } else {
                spec_head(tv, i + 1, pop_tag(ctx))
            },
            _ => spec_head(tv, i + 1, ctx),
        }
    }
}

/// Reads the title of a `<ttm:title>`, adding it to the metadata when not blank.
fn parse_title(t: &Vec<XmlToken>, i: usize, ctx: &mut ParserContext) -> (r: Result<usize, TTMLProcessorError>)
    requires
        tokens_wf(views_t(t@)),
        i < t.len(),
    ensures
        ctx_res_matches(
            r,
            match spec_read_text(views_t(t@), i as int, old(ctx)@, "ttm:title"@, 1, Seq::empty()) {
                Err(e) => Err(e),
                Ok((text, j)) => if trim_s(text).len() > 0 {
                    Ok(
                        (
                            ParserContextV {
                                metadata: TTMLMetadataV {
                                    title: opt_pushed(old(ctx)@.metadata.title, trim_s(text)),
                                    ..old(ctx)@.metadata
                                },
                                ..old(ctx)@
                            },
                            j,
                        ),
                    )
                } else {
                    Ok((old(ctx)@, j))
                },
            },
            final(ctx)@,
            i as int,
            t.len() as int,
        ),
{
    let (text, j) = match read_text_content(t, i, ctx, "ttm:title") {
        Ok(x) => x,
        Err(e) => return Err(e),
    };
    let v = trim_string(text.as_str());
    if !v.as_str().is_empty() {
        ctx.metadata.push_title(v);
    }
    Ok(j)
}

/// Files the entry of an `<amll:meta>` start tag, when its key and value can be read.
fn parse_meta_tag(attrs: &Vec<XmlAttr>, pos: u64, ctx: &mut ParserContext)
    ensures
        final(ctx)@ == spec_meta_tag(views_a(attrs@), pos, old(ctx)@),
{
    let key = get_required_attr(attrs, "key", pos, ctx);
    let value = get_required_attr(attrs, "value", pos, ctx);
    match (key, value) {
        (Ok(k), Ok(v)) => parse_amll_meta(ctx, k.as_str(), v.as_str()),
        _ => {},
    }
}

/// Reads the `<head>` from event `i` on, up to its end tag: singers, AMLL metadata,
/// songwriters, the title, and the translations and transliterations filed by line id.
pub fn parse_head(t: &Vec<XmlToken>, i: usize, ctx: &mut ParserContext) -> (r: Result<usize, TTMLProcessorError>)
    requires
        tokens_wf(views_t(t@)),
        i < t.len(),
    ensures
        ctx_res_matches(r, spec_head(views_t(t@), i as int, old(ctx)@), final(ctx)@, i as int, t.len() as int),
{
    let ghost tv = views_t(t@);
    let mut k = i;
    loop
        invariant
            tv == views_t(t@),
            tokens_wf(tv),
            i <= k < t.len(),
            spec_head(tv, k as int, ctx@) == spec_head(tv, i as int, old(ctx)@),
        decreases t.len() - k,
    {
        assert(t@[k as int]@ == tv[k as int]);
        assert(!is_final_token(tv[k as int]) ==> k + 1 < t.len());
        match &t[k] {
            XmlToken::Error { message, pos } => {
                return Err(make_err(ParseErrorKind::XmlError(copy_str(message.as_str())), *pos, ctx, None, None));
            },
            XmlToken::Eof { pos } => {
                return Err(make_err(ParseErrorKind::UnexpectedEof, *pos, ctx, None, None));
            },
            XmlToken::Start { name, content, pos } => {
                let n = match utf8_exec(name.as_slice()) {
                    Ok(n) => n,
                    Err(e) => return Err(e),
                };
                push_tag_exec(ctx, n.as_str());
                let attrs = t[k].attributes();
                if str_eq(n.as_str(), "amll:meta") {
                    parse_meta_tag(&attrs, *pos, ctx);
                    k = k + 1;
                } else if str_eq(n.as_str(), "translations") || str_eq(n.as_str(), "transliterations")
                    || str_eq(n.as_str(), "ttm:agent") || str_eq(n.as_str(), "songwriters")
                    || str_eq(n.as_str(), "ttm:title") {
                    let sub = if str_eq(n.as_str(), "translations") {
                        parse_sub_lyrics(t, k + 1, ctx, "translations", "translation", SubLyricType::Translation)
                    } else if str_eq(n.as_str(), "transliterations") {
                        parse_sub_lyrics(
                            t,
                            k + 1,
                            ctx,
                            "transliterations",
                            "transliteration",
                            SubLyricType::Transliteration,
                        )
                    } else if str_eq(n.as_str(), "ttm:agent") {
                        parse_agent(t, k + 1, ctx, &attrs, *pos)
                    } else if str_eq(n.as_str(), "songwriters") {
                        parse_songwriters(t, k + 1, ctx)
                    } else {
                        parse_title(t, k + 1, ctx)
                    };
                    let j = match sub {
                        Ok(j) => j,
                        Err(e) => return Err(e),
                    };
                    pop_tag_exec(ctx);
                    k = j;
                } else {
                    k = k + 1;
                }
            },
            XmlToken::End { name, .. } => {
                if name.is("head") {
                    return Ok(k + 1);
                }
                pop_tag_exec(ctx);
                k = k + 1;
            },
            _ => {
                k = k + 1;
            },
        }
    }
}

/// A `<ttm:agent>` read from event `i` on ends after `i` and within the events.
pub proof fn lemma_agent_loop_range(tv: Seq<XmlTokenV>, i: int, ctx: ParserContextV, name: Option<Seq<char>>)
    ensures
        spec_agent_loop(tv, i, ctx, name) matches Ok((_, _, j)) ==> i < j <= tv.len(),
    decreases tv.len() - i,
{
    if 0 <= i < tv.len() {
        match tv[i] {
            XmlTokenV::Start { name: raw, .. } => {
                if let Some(n) = utf8_text(raw) {
                    let c1 = push_tag(ctx, n);
                    if n == "ttm:name"@ {
                        lemma_read_text_range(tv, i + 1, c1, "ttm:name"@, 1, Seq::empty());
                        if let Ok((text, j)) = spec_read_text(tv, i + 1, c1, "ttm:name"@, 1, Seq::empty()) {
                            lemma_agent_loop_range(tv, j, pop_tag(c1), Some(text));
                        }
                    } else {
                        lemma_agent_loop_range(tv, i + 1, c1, name);
                    }
                }
            },
            XmlTokenV::End { .. } => {
                lemma_agent_loop_range(tv, i + 1, pop_tag(ctx), name);
            },
            _ => {
                lemma_agent_loop_range(tv, i + 1, ctx, name);
            },
        }
    }
}

/// A `<songwriters>` read from event `i` on ends after `i` and within the events.
pub proof fn lemma_songwriters_range(tv: Seq<XmlTokenV>, i: int, ctx: ParserContextV)
    ensures
        spec_songwriters(tv, i, ctx) matches Ok((_, j)) ==> i < j <= tv.len(),
    decreases tv.len() - i,
{
    if 0 <= i < tv.len() {
        match tv[i] {
            XmlTokenV::Start { name, .. } => {
                if let Some(n) = utf8_text(name) {
                    let c1 = push_tag(ctx, n);
                    if n == "songwriter"@ {
                        lemma_read_text_range(tv, i + 1, c1, "songwriter"@, 1, Seq::empty());
                        if let Ok((text, j)) = spec_read_text(tv, i + 1, c1, "songwriter"@, 1, Seq::empty()) {
                            let v = trim_s(text);
                            let c2 = if v.len() > 0 {
                                ParserContextV {
                                    metadata: TTMLMetadataV {
                                        songwriters: opt_pushed(c1.metadata.songwriters, v),
                                        ..c1.metadata
                                    },
                                    ..c1
                                }
                            } else {
                                c1
                            };
                            lemma_songwriters_range(tv, j, pop_tag(c2));
                        }
                    } else {
                        lemma_songwriters_range(tv, i + 1, c1);
                    }
                }
            },
            XmlTokenV::End { .. } => {
                lemma_songwriters_range(tv, i + 1, pop_tag(ctx));
            },
            _ => {
                lemma_songwriters_range(tv, i + 1, ctx);
            },
        }
    }
}

/// The `<head>` read from event `i` on ends after `i` and within the events.
pub proof fn lemma_head_range(tv: Seq<XmlTokenV>, i: int, ctx: ParserContextV)
    ensures
        spec_head(tv, i, ctx) matches Ok((_, j)) ==> i < j <= tv.len(),
    decreases tv.len() - i,
{
    if 0 <= i < tv.len() {
        match tv[i] {
            XmlTokenV::Start { name, content, pos } => {
                if let Some(n) = utf8_text(name) {
                    let c1 = push_tag(ctx, n);
                    let attrs = start_attrs(name, content);
                    if n == "amll:meta"@ {
                        lemma_head_range(tv, i + 1, spec_meta_tag(attrs, pos, c1));
                    } else if n == "translations"@ || n == "transliterations"@ || n == "ttm:agent"@
                        || n == "songwriters"@ || n == "ttm:title"@ {
                        lemma_head_item_range(tv, i + 1, c1, n, attrs, pos);
                        if let Ok((c2, j)) = spec_head_item(tv, i + 1, c1, n, attrs, pos) {
                            lemma_head_range(tv, j, pop_tag(c2));
                        }
                    } else {
                        lemma_head_range(tv, i + 1, c1);
                    }
                }
            },
            XmlTokenV::End { .. } => {
                lemma_head_range(tv, i + 1, pop_tag(ctx));
            },
            _ => {
                lemma_head_range(tv, i + 1, ctx);
            },
        }
    }
}

} // verus!
