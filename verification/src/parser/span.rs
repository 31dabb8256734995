//! The `<span>`s of a line: syllables, ruby containers, inline translations and
//! transliterations, and background vocals.

use vstd::prelude::*;
use crate::error::{ParseErrorKind, ParseErrorKindV, TTMLProcessorError, TTMLProcessorErrorV};
use crate::model::{
    empty_bg, opt_pushed, views, BackgroundVocalV, LyricLine, LyricLineV, RubyTag, RubyTagV,
    SubLyricContent, SubLyricContentV, Syllable, SyllableV,
};
use crate::parser::state::{
    utf8_err,
    ctx_err, make_err, name_is, QNameExt, pop_tag, pop_tag_exec, push_tag, push_tag_exec,
    tokens_wf, utf8_exec, utf8_text, ParserContext, ParserContextV,
};
use crate::parser::sub_lyric::marked_last;
use crate::parser::utils::{
    attr_timestamp, lemma_read_text_range, copy_bytes, get_attr_value, opt_bytes, parse_basic_syllable,
    read_text_content, resolve_xml_entity, spec_basic_syllable, spec_find_attr,
    spec_read_text, spec_resolve_entity, spec_syl_attrs, ts_err, views_a, views_t,
};
use crate::text::{copy_str, push_str_chars, str_eq, string_from_chars, trim_s, trim_string};
use crate::timestamp::spec_parse_timestamp;
use crate::utils::{is_spacing_text, mark_slice_last_space};
use crate::xml::{
    is_final_token, lossy_string, utf8_lossy, start_attrs, XmlAttr, XmlAttrV,
    XmlToken, XmlTokenV,
};

verus! {

/// The background vocal of a line, empty when the line has none yet.
pub open spec fn bg_of(l: LyricLineV) -> BackgroundVocalV {
    match l.background_vocal {
        Some(b) => b,
        None => empty_bg(),
    }
}

/// The line with the given background vocal.
pub open spec fn with_bg(l: LyricLineV, b: BackgroundVocalV) -> LyricLineV {
    LyricLineV { background_vocal: Some(b), ..l }
}

/// The line with a syllable appended to its main lyric or to its background vocal.
pub open spec fn push_syllable(l: LyricLineV, s: SyllableV, in_bg: bool) -> LyricLineV {
    if in_bg {
        with_bg(l, BackgroundVocalV { words: opt_pushed(bg_of(l).words, s), ..bg_of(l) })
    } else {
        LyricLineV { words: opt_pushed(l.words, s), ..l }
    }
}

/// The line with the last syllable of its main lyric, or of its background vocal, flagged as
/// followed by a space.
pub open spec fn mark_line_last(l: LyricLineV, is_bg: bool) -> LyricLineV {
    if is_bg {
        match l.background_vocal {
            Some(b) => match b.words {
                Some(ws) => with_bg(l, BackgroundVocalV { words: Some(marked_last(ws)), ..b }),
                None => l,
            },
            None => l,
        }
    } else {
        match l.words {
            Some(ws) => LyricLineV { words: Some(marked_last(ws)), ..l },
            None => l,
        }
    }
}

/// Flags the last syllable of the main lyric (or of the background vocal, when `is_bg`) of
/// the line as followed by a space.
pub fn mark_last_syllable_space(line: &mut LyricLine, is_bg: bool)
    ensures
        final(line)@ == mark_line_last(old(line)@, is_bg),
{
    if is_bg {
        if let Some(bg) = &mut line.background_vocal {
            if let Some(words) = &mut bg.words {
                let ghost w = views(words@);
                mark_slice_last_space(words);
                assert(views(words@) =~= marked_last(w));
            }
        }
    } else {
        if let Some(words) = &mut line.words {
            let ghost w = views(words@);
            mark_slice_last_space(words);
            assert(views(words@) =~= marked_last(w));
        }
    }
}

/// The line with an inline translation (`is_trans`) or transliteration added to it, or to its
/// background vocal.
pub open spec fn push_inline_sub(l: LyricLineV, c: SubLyricContentV, is_trans: bool, in_bg: bool) -> LyricLineV {
    if in_bg {
        if is_trans {
            with_bg(l, BackgroundVocalV { translations: opt_pushed(bg_of(l).translations, c), ..bg_of(l) })
        } else {
            with_bg(l, BackgroundVocalV { romanizations: opt_pushed(bg_of(l).romanizations, c), ..bg_of(l) })
        }
    } else if is_trans {
        LyricLineV { translations: opt_pushed(l.translations, c), ..l }
    } else {
        LyricLineV { romanizations: opt_pushed(l.romanizations, c), ..l }
    }
}

/// Appends a syllable to the main lyric or to the background vocal of the line.
fn push_syllable_exec(line: &mut LyricLine, s: Syllable, in_bg: bool)
    ensures
        final(line)@ == push_syllable(old(line)@, s@, in_bg),
{
    if in_bg {
        line.bg_vocal_mut().push_word(s);
    } else {
        line.push_word(s);
    }
}

/// The attributes of a `<span>` of a line read so far: raw `ttm:role`, raw `xml:lang`,
/// whether `tts:ruby` is `container`, raw `begin` and raw `end`.
pub type SpanAttrsV = (Option<Seq<u8>>, Option<Seq<u8>>, bool, Option<Seq<u8>>, Option<Seq<u8>>);

/// One attribute folded into the attributes of a `<span>` of a line.
pub open spec fn span_attr_step(a: SpanAttrsV, key: Seq<char>, value: Seq<u8>) -> SpanAttrsV {
    if key == "ttm:role"@ {
        (Some(value), a.1, a.2, a.3, a.4)
    } else if key == "xml:lang"@ {
        (a.0, Some(value), a.2, a.3, a.4)
    } else if key == "tts:ruby"@ {
        (a.0, a.1, name_is(value, "container"@), a.3, a.4)
    } else if key == "begin"@ {
        (a.0, a.1, a.2, Some(value), a.4)
    } else if key == "end"@ {
        (a.0, a.1, a.2, a.3, Some(value))
    } else {
        a
    }
}

/// The attributes of a `<span>` of a line from `attrs[k..]` on.
pub open spec fn spec_span_attrs(
    attrs: Seq<XmlAttrV>,
    k: int,
    acc: SpanAttrsV,
    pos: u64,
    ctx: ParserContextV,
) -> Result<SpanAttrsV, TTMLProcessorErrorV>
    decreases attrs.len() - k,
{
    if k < 0 || k >= attrs.len() {
        Ok(acc)
    } else {
        match attrs[k] {
            XmlAttrV::Error { message } => Err(
                ctx_err(ParseErrorKindV::AttrError(message), pos, ctx, Some("span"@), None),
            ),
            XmlAttrV::Attr { key, value } => spec_span_attrs(attrs, k + 1, span_attr_step(acc, key, value), pos, ctx),
        }
    }
}

/// Reads the attributes of a `<span>` of a line.
fn span_attrs(attrs: &Vec<XmlAttr>, pos: u64, ctx: &ParserContext) -> (r: Result<
    (Option<Vec<u8>>, Option<Vec<u8>>, bool, Option<Vec<u8>>, Option<Vec<u8>>),
    TTMLProcessorError,
>)
    ensures
        match (r, spec_span_attrs(views_a(attrs@), 0, (None, None, false, None, None), pos, ctx@)) {
            (Ok(a), Ok(av)) => opt_bytes(a.0) == av.0 && opt_bytes(a.1) == av.1 && a.2 == av.2
                && opt_bytes(a.3) == av.3 && opt_bytes(a.4) == av.4,
            (Err(e), Err(ev)) => e@ == ev,
            _ => false,
        },
{
    let ghost av = views_a(attrs@);
    let mut role: Option<Vec<u8>> = None;
    let mut lang: Option<Vec<u8>> = None;
    let mut ruby = false;
    let mut b: Option<Vec<u8>> = None;
    let mut e: Option<Vec<u8>> = None;
    let mut k: usize = 0;
    while k < attrs.len()
        invariant
            k <= attrs.len(),
            av == views_a(attrs@),
            spec_span_attrs(av, k as int, (opt_bytes(role), opt_bytes(lang), ruby, opt_bytes(b), opt_bytes(e)), pos, ctx@)
                == spec_span_attrs(av, 0, (None, None, false, None, None), pos, ctx@),
        decreases attrs.len() - k,
    {
        assert(attrs@[k as int]@ == av[k as int]);
        match &attrs[k] {
            XmlAttr::Error { message } => {
                return Err(make_err(ParseErrorKind::AttrError(copy_str(message.as_str())), pos, ctx, Some(copy_str("span")), None));
            },
            XmlAttr::Attr { key, value } => {
                if str_eq(key.as_str(), "ttm:role") {
                    role = Some(copy_bytes(value));
                } else if str_eq(key.as_str(), "xml:lang") {
                    lang = Some(copy_bytes(value));
                } else if str_eq(key.as_str(), "tts:ruby") {
                    ruby = value.is("container");
                } else if str_eq(key.as_str(), "begin") {
                    b = Some(copy_bytes(value));
                } else if str_eq(key.as_str(), "end") {
                    e = Some(copy_bytes(value));
                }
            },
        }
        k = k + 1;
    }
    Ok((role, lang, ruby, b, e))
}

/// Whether an exec result of a reader that updates the state and a line matches the spec.
pub open spec fn line_res_matches(
    r: Result<usize, TTMLProcessorError>,
    s: Result<(ParserContextV, LyricLineV, int), TTMLProcessorErrorV>,
    c: ParserContextV,
    l: LyricLineV,
    i: int,
    len: int,
) -> bool {
    match (r, s) {
        (Ok(j), Ok((cv, lv, jv))) => j == jv && c == cv && l == lv && i < j < len,
        (Err(e), Err(ev)) => e@ == ev,
        _ => false,
    }
}

/// The attributes of a ruby text `<span>` read so far: whether `tts:ruby` is `text`, and the
/// start and end times.
pub type RubyTextAttrsV = (bool, Option<u32>, Option<u32>);

/// The attributes of a ruby text `<span>` from `attrs[k..]` on; a timestamp that cannot be
/// read is an error at once.
pub open spec fn spec_ruby_text_attrs(
    attrs: Seq<XmlAttrV>,
    k: int,
    acc: RubyTextAttrsV,
    pos: u64,
    ctx: ParserContextV,
) -> Result<RubyTextAttrsV, TTMLProcessorErrorV>
    decreases attrs.len() - k,
{
    if k < 0 || k >= attrs.len() {
        Ok(acc)
    } else {
        match attrs[k] {
            XmlAttrV::Error { message } => Err(
                ctx_err(ParseErrorKindV::AttrError(message), pos, ctx, Some("span"@), None),
            ),
            XmlAttrV::Attr { key, value } => if key == "tts:ruby"@ {
                spec_ruby_text_attrs(attrs, k + 1, (name_is(value, "text"@), acc.1, acc.2), pos, ctx)
            } else if key == "begin"@ {
                match spec_parse_timestamp(value) {
                    None => Err(ts_err(value, pos, ctx, "begin"@)),
                    Some(v) => spec_ruby_text_attrs(attrs, k + 1, (acc.0, Some(v), acc.2), pos, ctx),
                }
            } else if key == "end"@ {
                match spec_parse_timestamp(value) {
                    None => Err(ts_err(value, pos, ctx, "end"@)),
                    Some(v) => spec_ruby_text_attrs(attrs, k + 1, (acc.0, acc.1, Some(v)), pos, ctx),
                }
            } else {
                spec_ruby_text_attrs(attrs, k + 1, acc, pos, ctx)
            },
        }
    }
}

/// A ruby text `<span>` with attributes `attrs` read at `pos`, its text from event `i` on: the
/// annotation and the position after its end tag, or none when `tts:ruby` is not `text`.
pub open spec fn spec_ruby_text_span(
    tv: Seq<XmlTokenV>,
    i: int,
    ctx: ParserContextV,
    attrs: Seq<XmlAttrV>,
    pos: u64,
) -> Result<Option<(RubyTagV, int)>, TTMLProcessorErrorV> {
    match spec_ruby_text_attrs(attrs, 0, (false, None, None), pos, ctx) {
        Err(e) => Err(e),
        Ok(a) => if !a.0 {
            Ok(None)
        } else {
            match (a.1, a.2) {
                (None, _) => Err(ctx_err(ParseErrorKindV::MissingAttribute("begin"@), pos, ctx, Some("begin"@), None)),
                (Some(_), None) => Err(ctx_err(ParseErrorKindV::MissingAttribute("end"@), pos, ctx, Some("end"@), None)),
                (Some(st), Some(et)) => match spec_read_text(tv, i, ctx, "span"@, 1, Seq::empty()) {
                    Err(e) => Err(e),
                    Ok((text, j)) => Ok(Some((RubyTagV { text, start_time: st, end_time: et }, j))),
                },
            }
        },
    }
}

/// Reads a ruby text `<span>` whose start tag, with attributes `attrs`, was read at `pos`.
pub fn process_ruby_text_span(
    t: &Vec<XmlToken>,
    i: usize,
    ctx: &ParserContext,
    attrs: &Vec<XmlAttr>,
    pos: u64,
) -> (r: Result<Option<(RubyTag, usize)>, TTMLProcessorError>)
    requires
        tokens_wf(views_t(t@)),
        i < t.len(),
    ensures
        match (r, spec_ruby_text_span(views_t(t@), i as int, ctx@, views_a(attrs@), pos)) {
            (Ok(None), Ok(None)) => true,
            (Ok(Some((tag, j))), Ok(Some((tv, jv)))) => tag@ == tv && j == jv && i < j < t.len(),
            (Err(e), Err(ev)) => e@ == ev,
            _ => false,
        },
{
    let ghost av = views_a(attrs@);
    let mut is_text = false;
    let mut st: Option<u32> = None;
    let mut et: Option<u32> = None;
    let mut k: usize = 0;
    while k < attrs.len()
        invariant
            k <= attrs.len(),
            av == views_a(attrs@),
            spec_ruby_text_attrs(av, k as int, (is_text, st, et), pos, ctx@) == spec_ruby_text_attrs(
                av,
                0,
                (false, None, None),
                pos,
                ctx@,
            ),
        decreases attrs.len() - k,
    {
        assert(attrs@[k as int]@ == av[k as int]);
        match &attrs[k] {
            XmlAttr::Error { message } => {
                return Err(make_err(ParseErrorKind::AttrError(copy_str(message.as_str())), pos, ctx, Some(copy_str("span")), None));
            },
            XmlAttr::Attr { key, value } => {
                if str_eq(key.as_str(), "tts:ruby") {
                    is_text = value.is("text");
                } else if str_eq(key.as_str(), "begin") {
                    match attr_timestamp(value.as_slice(), pos, ctx, "begin") {
                        Ok(v) => st = Some(v),
                        Err(e) => return Err(e),
                    }
                } else if str_eq(key.as_str(), "end") {
                    match attr_timestamp(value.as_slice(), pos, ctx, "end") {
                        Ok(v) => et = Some(v),
                        Err(e) => return Err(e),
                    }
                }
            },
        }
        k = k + 1;
    }
    if !is_text {
        return Ok(None);
    }
    let start_time = match st {
        Some(v) => v,
        None => return Err(make_err(ParseErrorKind::MissingAttribute(copy_str("begin")), pos, ctx, Some(copy_str("begin")), None)),
    };
    let end_time = match et {
        Some(v) => v,
        None => return Err(make_err(ParseErrorKind::MissingAttribute(copy_str("end")), pos, ctx, Some(copy_str("end")), None)),
    };
    match read_text_content(t, i, ctx, "span") {
        Err(e) => Err(e),
        Ok((text, j)) => Ok(Some((RubyTag { text, start_time, end_time }, j))),
    }
}

/// Reads the events of a ruby text container from `i` on, up to the first `</span>`: the
/// annotations of its ruby text spans.
pub open spec fn spec_ruby_texts(
    tv: Seq<XmlTokenV>,
    i: int,
    ctx: ParserContextV,
    tags: Seq<RubyTagV>,
) -> Result<(ParserContextV, Seq<RubyTagV>, int), TTMLProcessorErrorV>
    decreases tv.len() - i,
{
    if i < 0 || i >= tv.len() {
        Err(ctx_err(ParseErrorKindV::UnexpectedEof, 0, ctx, None, None))
    } else {
        match tv[i] {
            XmlTokenV::Error { message, pos } => Err(
                ctx_err(ParseErrorKindV::XmlError(message), pos, ctx, None, None),
            ),
            XmlTokenV::Eof { pos } => Err(ctx_err(ParseErrorKindV::UnexpectedEof, pos, ctx, None, None)),
            XmlTokenV::Start { name, content, pos } => match utf8_text(name) {
                None => Err(utf8_err(name)),
                Some(n) => {
                    let c1 = push_tag(ctx, n);
                    if n == "span"@ {
                        match spec_ruby_text_span(tv, i + 1, c1, start_attrs(name, content), pos) {
                            Err(e) => Err(e),
                            Ok(None) => spec_ruby_texts(tv, i + 1, c1, tags),
                            Ok(Some((tag, j))) => {
                                proof {
                                    lemma_read_text_range(tv, i + 1, c1, "span"@, 1, Seq::empty());
                                }
                                spec_ruby_texts(tv, j, pop_tag(c1), tags.push(tag))
                            },
                        }
                    } else {
                        spec_ruby_texts(tv, i + 1, c1, tags)
                    }
                },
            },
            XmlTokenV::End { name, .. } => if name_is(name, "span"@) {
                Ok((ctx, tags, i + 1))
            } else {
                spec_ruby_texts(tv, i + 1, pop_tag(ctx), tags)
            },
            _ => spec_ruby_texts(tv, i + 1, ctx, tags),
        }
    }
}

/// Reads a ruby text container (`tts:ruby="textContainer"`) from event `i` on.
pub fn process_ruby_text_container(t: &Vec<XmlToken>, i: usize, ctx: &mut ParserContext) -> (r: Result<
    (Vec<RubyTag>, usize),
    TTMLProcessorError,
>)
    requires
        tokens_wf(views_t(t@)),
        i < t.len(),
    ensures
        match (r, spec_ruby_texts(views_t(t@), i as int, old(ctx)@, Seq::empty())) {
            (Ok((tags, j)), Ok((c, tv, jv))) => views(tags@) == tv && j == jv && final(ctx)@ == c && i
                < j < t.len(),
            (Err(e), Err(ev)) => e@ == ev,
            _ => false,
        },
{
    let ghost tv = views_t(t@);
    let mut tags: Vec<RubyTag> = Vec::new();
    let mut k = i;
    assert(views(tags@) =~= Seq::<RubyTagV>::empty());
    loop
        invariant
            tv == views_t(t@),
            tokens_wf(tv),
            i <= k < t.len(),
            spec_ruby_texts(tv, k as int, ctx@, views(tags@)) == spec_ruby_texts(
                tv,
                i as int,
                old(ctx)@,
                Seq::empty(),
            ),
        decreases t.len() - k,
    {
        assert(t@[k as int]@ == tv[k as int]);
        assert(!is_final_token(tv[k as int]) ==> k + 1 < t.len());
        match &t[k] {
            XmlToken::Error { message, pos } => {
                return Err(make_err(ParseErrorKind::XmlError(copy_str(message.as_str())), *pos, ctx, None, None));
            },
            XmlToken::Eof { pos } => {
                return Err(make_err(ParseErrorKind::UnexpectedEof, *pos, ctx, None, None));
            },
            XmlToken::Start { name, content, pos } => {
                let n = match utf8_exec(name.as_slice()) {
                    Ok(n) => n,
                    Err(e) => return Err(e),
                };
                push_tag_exec(ctx, n.as_str());
                if str_eq(n.as_str(), "span") {
                    let attrs = t[k].attributes();
                    match process_ruby_text_span(t, k + 1, ctx, &attrs, *pos) {
                        Err(e) => return Err(e),
                        Ok(None) => {
                            k = k + 1;
                        },
                        Ok(Some((tag, j))) => {
                            let ghost prev = views(tags@);
                            tags.push(tag);
                            assert(views(tags@) =~= prev.push(tag@));
                            pop_tag_exec(ctx);
                            k = j;
                        },
                    }
                } else {
                    k = k + 1;
                }
            },
            XmlToken::End { name, .. } => {
                if name.is("span") {
                    return Ok((tags, k + 1));
                }
                pop_tag_exec(ctx);
                k = k + 1;
            },
            _ => {
                k = k + 1;
            },
        }
    }
}

/// Reads the events of a ruby container from `i` on, up to its `</span>`: the base text and
/// the annotations.
pub open spec fn spec_ruby_loop(
    tv: Seq<XmlTokenV>,
    i: int,
    ctx: ParserContextV,
    base: Seq<char>,
    tags: Seq<RubyTagV>,
) -> Result<(ParserContextV, Seq<char>, Seq<RubyTagV>, int), TTMLProcessorErrorV>
    decreases tv.len() - i,
{
    if i < 0 || i >= tv.len() {
        Err(ctx_err(ParseErrorKindV::UnexpectedEof, 0, ctx, None, None))
    } else {
        match tv[i] {
            XmlTokenV::Error { message, pos } => Err(
                ctx_err(ParseErrorKindV::XmlError(message), pos, ctx, None, None),
            ),
            XmlTokenV::Eof { pos } => Err(ctx_err(ParseErrorKindV::UnexpectedEof, pos, ctx, None, None)),
            XmlTokenV::Start { name, content, pos } => match utf8_text(name) {
                None => Err(utf8_err(name)),
                Some(n) => {
                    let c1 = push_tag(ctx, n);
                    if n == "span"@ {
                        match spec_find_attr(start_attrs(name, content), 0, "tts:ruby"@, pos, c1) {
                            Err(e) => Err(e),
                            Ok(r) => if r == Some("textContainer"@) {
                                match spec_ruby_texts(tv, i + 1, c1, Seq::empty()) {
                                    Err(e) => Err(e),
                                    Ok((c2, ts, j)) => {
                                        proof {
                                            lemma_ruby_texts_range(tv, i + 1, c1, Seq::empty());
                                        }
                                        spec_ruby_loop(tv, j, pop_tag(c2), base, ts)
                                    },
                                }
                            } else {
                                match spec_read_text(tv, i + 1, c1, "span"@, 1, Seq::empty()) {
                                    Err(e) => Err(e),
                                    Ok((text, j)) => {
                                        proof {
                                            lemma_read_text_range(tv, i + 1, c1, "span"@, 1, Seq::empty());
                                        }
                                        spec_ruby_loop(
                                            tv,
                                            j,
                                            pop_tag(c1),
                                            if r == Some("base"@) {
                                                text
                                            } else {
                                                base
                                            },
                                            tags,
                                        )
                                    },
                                }
                            },
                        }
                    } else {
                        spec_ruby_loop(tv, i + 1, c1, base, tags)
                    }
                },
            },
            XmlTokenV::End { name, .. } => if name_is(name, "span"@) {
                Ok((ctx, base, tags, i + 1))
            } else {
                spec_ruby_loop(tv, i + 1, pop_tag(ctx), base, tags)
            },
            _ => spec_ruby_loop(tv, i + 1, ctx, base, tags),
        }
    }
}

/// The syllable of a ruby container: its base text, timed from the first annotation's start
/// to the last annotation's end (0 without annotations).
pub open spec fn ruby_syllable(base: Seq<char>, tags: Seq<RubyTagV>, obscene: Option<bool>, empty_beat: Option<u32>) -> SyllableV {
    SyllableV {
        text: base,
        start_time: if tags.len() > 0 {
            tags[0].start_time
        } else {
            0
        },
        end_time: if tags.len() > 0 {
            tags.last().end_time
        } else {
            0
        },
        ends_with_space: None,
        ruby: Some(tags),
        obscene,
        empty_beat,
    }
}

/// A ruby container whose start tag, with attributes `attrs`, was read at `pos`, read from
/// event `i` on; its syllable goes to the main lyric or to the background vocal.
pub open spec fn spec_ruby_container(
    tv: Seq<XmlTokenV>,
    i: int,
    ctx: ParserContextV,
    line: LyricLineV,
    attrs: Seq<XmlAttrV>,
    pos: u64,
    in_bg: bool,
) -> Result<(ParserContextV, LyricLineV, int), TTMLProcessorErrorV> {
    match spec_syl_attrs(attrs, 0, (None, None, None, None), pos, ctx, "span"@) {
        Err(e) => Err(e),
        Ok(a) => match spec_ruby_loop(tv, i, ctx, Seq::empty(), Seq::empty()) {
            Err(e) => Err(e),
            Ok((c, base, tags, j)) => Ok((c, push_syllable(line, ruby_syllable(base, tags, a.2, a.3), in_bg), j)),
        },
    }
}

/// Reads a ruby container (`tts:ruby="container"`) whose start tag, with attributes `attrs`,
/// was read at `pos`: the base text and the annotations make one syllable.
pub fn process_ruby_container(
    t: &Vec<XmlToken>,
    i: usize,
    ctx: &mut ParserContext,
    attrs: &Vec<XmlAttr>,
    pos: u64,
    line: &mut LyricLine,
    in_bg: bool,
) -> (r: Result<usize, TTMLProcessorError>)
    requires
        tokens_wf(views_t(t@)),
        i < t.len(),
    ensures
        line_res_matches(
            r,
            spec_ruby_container(views_t(t@), i as int, old(ctx)@, old(line)@, views_a(attrs@), pos, in_bg),
            final(ctx)@,
            final(line)@,
            i as int,
            t.len() as int,
        ),
{
    let ghost tv = views_t(t@);
    let a = match crate::parser::utils::syl_attrs(attrs, pos, ctx, "span") {
        Ok(a) => a,
        Err(e) => return Err(e),
    };
    let mut base: String = String::new();
    let mut tags: Vec<RubyTag> = Vec::new();
    let mut k = i;
    assert(views(tags@) =~= Seq::<RubyTagV>::empty());
    loop
        invariant
            tv == views_t(t@),
            tokens_wf(tv),
            i <= k < t.len(),
            *line == *old(line),
            match spec_syl_attrs(views_a(attrs@), 0, (None, None, None, None), pos, old(ctx)@, "span"@) {
                Ok(av) => av.2 == a.2 && av.3 == a.3,
                Err(_) => false,
            },
            spec_ruby_loop(tv, k as int, ctx@, base@, views(tags@)) == spec_ruby_loop(
                tv,
                i as int,
                old(ctx)@,
                Seq::empty(),
                Seq::empty(),
            ),
        decreases t.len() - k,
    {
        assert(t@[k as int]@ == tv[k as int]);
        assert(!is_final_token(tv[k as int]) ==> k + 1 < t.len());
        match &t[k] {
            XmlToken::Error { message, pos } => {
                return Err(make_err(ParseErrorKind::XmlError(copy_str(message.as_str())), *pos, ctx, None, None));
            },
            XmlToken::Eof { pos } => {
                return Err(make_err(ParseErrorKind::UnexpectedEof, *pos, ctx, None, None));
            },
            XmlToken::Start { name, content, pos } => {
                let n = match utf8_exec(name.as_slice()) {
                    Ok(n) => n,
                    Err(e) => return Err(e),
                };
                push_tag_exec(ctx, n.as_str());
                if str_eq(n.as_str(), "span") {
                    let sub_attrs = t[k].attributes();
                    let r = match get_attr_value(&sub_attrs, "tts:ruby", *pos, ctx) {
                        Ok(r) => r,
                        Err(e) => return Err(e),
                    };
                    let is_container = match &r {
                        Some(v) => str_eq(v.as_str(), "textContainer"),
                        None => false,
                    };
                    let is_base = match &r {
                        Some(v) => str_eq(v.as_str(), "base"),
                        None => false,
                    };
                    if is_container {
                        let (ts, j) = match process_ruby_text_container(t, k + 1, ctx) {
                            Ok(x) => x,
                            Err(e) => return Err(e),
                        };
                        tags = ts;
                        pop_tag_exec(ctx);
                        k = j;
                    } else {
                        let (text, j) = match read_text_content(t, k + 1, ctx, "span") {
                            Ok(x) => x,
                            Err(e) => return Err(e),
                        };
                        if is_base {
                            base = text;
                        }
                        pop_tag_exec(ctx);
                        k = j;
                    }
                } else {
                    k = k + 1;
                }
            },
            XmlToken::End { name, .. } => {
                if name.is("span") {
                    let n = tags.len();
                    let start_time = if n > 0 {
                        tags[0].start_time
                    } else {
                        0
                    };
                    let end_time = if n > 0 {
                        tags[n - 1].end_time
                    } else {
                        0
                    };
                    let ghost tagsv = views(tags@);
                    let syl = Syllable {
                        text: base,
                        start_time,
                        end_time,
                        ends_with_space: None,
                        ruby: Some(tags),
                        obscene: a.2,
                        empty_beat: a.3,
                    };
                    assert(syl@ == ruby_syllable(base@, tagsv, a.2, a.3));
                    push_syllable_exec(line, syl, in_bg);
                    return Ok(k + 1);
                }
                pop_tag_exec(ctx);
                k = k + 1;
            },
            _ => {
                k = k + 1;
            },
        }
    }
}

/// Whether a raw `ttm:role` is the given role.
pub open spec fn role_is(role: Option<Seq<u8>>, r: Seq<char>) -> bool {
    match role {
        Some(v) => name_is(v, r),
        None => false,
    }
}

/// The language of an inline translation, from its raw `xml:lang`.
pub open spec fn inline_lang(raw: Option<Seq<u8>>, pos: u64, ctx: ParserContextV) -> Result<
    Option<Seq<char>>,
    TTMLProcessorErrorV,
> {
    match raw {
        None => Ok(None),
        Some(b) => match utf8_text(b) {
            Some(s) => Ok(Some(s)),
            None => Err(
                ctx_err(
                    ParseErrorKindV::EntityError("Invalid UTF-8"@),
                    pos,
                    ctx,
                    None,
                    Some(utf8_lossy(b)),
                ),
            ),
        },
    }
}

/// An inline translation (`is_trans`) or transliteration `<span>`, its text read from event
/// `i` on; a blank text adds nothing.
pub open spec fn spec_inline_sub(
    tv: Seq<XmlTokenV>,
    i: int,
    ctx: ParserContextV,
    line: LyricLineV,
    lang_raw: Option<Seq<u8>>,
    pos: u64,
    is_trans: bool,
    in_bg: bool,
) -> Result<(ParserContextV, LyricLineV, int), TTMLProcessorErrorV> {
    match inline_lang(lang_raw, pos, ctx) {
        Err(e) => Err(e),
        Ok(lang) => match spec_read_text(tv, i, ctx, "span"@, 1, Seq::empty()) {
            Err(e) => Err(e),
            Ok((text, j)) => if trim_s(text).len() > 0 {
                Ok(
                    (
                        ctx,
                        push_inline_sub(
                            line,
                            SubLyricContentV { language: lang, text: trim_s(text), words: None },
                            is_trans,
                            in_bg,
                        ),
                        j,
                    ),
                )
            } else {
                Ok((ctx, line, j))
            },
        },
    }
}

/// A `<span>` of a line other than the opening of a background vocal, its attributes `a`
/// already read: an inline translation or transliteration, a ruby container, or a plain
/// syllable.
pub open spec fn spec_span_leaf(
    tv: Seq<XmlTokenV>,
    i: int,
    ctx: ParserContextV,
    line: LyricLineV,
    attrs: Seq<XmlAttrV>,
    pos: u64,
    in_bg: bool,
    a: SpanAttrsV,
) -> Result<(ParserContextV, LyricLineV, int), TTMLProcessorErrorV> {
    let is_trans = role_is(a.0, "x-translation"@);
    let is_rom = role_is(a.0, "x-roman"@);
    if is_trans || is_rom {
        spec_inline_sub(tv, i, ctx, line, a.1, pos, is_trans, in_bg)
    } else if a.2 {
        spec_ruby_container(tv, i, ctx, line, attrs, pos, in_bg)
    } else {
        match spec_basic_syllable(tv, i, ctx, attrs, pos) {
            Err(e) => Err(e),
            Ok((syl, j)) => Ok((ctx, push_syllable(line, syl, in_bg), j)),
        }
    }
}

/// Reads an inline translation or transliteration `<span>`.
fn process_inline_sub(
    t: &Vec<XmlToken>,
    i: usize,
    ctx: &ParserContext,
    line: &mut LyricLine,
    lang_raw: &Option<Vec<u8>>,
    pos: u64,
    is_trans: bool,
    in_bg: bool,
) -> (r: Result<usize, TTMLProcessorError>)
    requires
        tokens_wf(views_t(t@)),
        i < t.len(),
    ensures
        line_res_matches(
            r,
            spec_inline_sub(views_t(t@), i as int, ctx@, old(line)@, opt_bytes(*lang_raw), pos, is_trans, in_bg),
            ctx@,
            final(line)@,
            i as int,
            t.len() as int,
        ),
{
    let lang = match lang_raw {
        None => None,
        Some(b) => match core::str::from_utf8(b.as_slice()) {
            Ok(s) => Some(copy_str(s)),
            Err(_) => return Err(make_err(
                ParseErrorKind::EntityError(copy_str("Invalid UTF-8")),
                pos,
                ctx,
                None,
                Some(lossy_string(b.as_slice())),
            )),
        },
    };
    let (text, j) = match read_text_content(t, i, ctx, "span") {
        Ok(x) => x,
        Err(e) => return Err(e),
    };
    let trimmed = trim_string(text.as_str());
    if !trimmed.as_str().is_empty() {
        let sub = SubLyricContent { language: lang, text: trimmed, words: None };
        if in_bg {
            let bg = line.bg_vocal_mut();
            if is_trans {
                bg.push_translation(sub);
            } else {
                bg.push_romanization(sub);
            }
        } else if is_trans {
            line.push_translation(sub);
        } else {
            line.push_romanization(sub);
        }
    }
    Ok(j)
}

/// Reads a `<span>` of a line other than the opening of a background vocal, its attributes
/// already read.
fn process_span_leaf(
    t: &Vec<XmlToken>,
    i: usize,
    ctx: &mut ParserContext,
    attrs: &Vec<XmlAttr>,
    pos: u64,
    line: &mut LyricLine,
    in_bg: bool,
    a: &(Option<Vec<u8>>, Option<Vec<u8>>, bool, Option<Vec<u8>>, Option<Vec<u8>>),
) -> (r: Result<usize, TTMLProcessorError>)
    requires
        tokens_wf(views_t(t@)),
        i < t.len(),
    ensures
        line_res_matches(
            r,
            spec_span_leaf(
                views_t(t@),
                i as int,
                old(ctx)@,
                old(line)@,
                views_a(attrs@),
                pos,
                in_bg,
                (opt_bytes(a.0), opt_bytes(a.1), a.2, opt_bytes(a.3), opt_bytes(a.4)),
            ),
            final(ctx)@,
            final(line)@,
            i as int,
            t.len() as int,
        ),
{
    let is_trans = match &a.0 {
        Some(r) => r.is("x-translation"),
        None => false,
    };
    let is_rom = match &a.0 {
        Some(r) => r.is("x-roman"),
        None => false,
    };
    if is_trans || is_rom {
        process_inline_sub(t, i, ctx, line, &a.1, pos, is_trans, in_bg)
    } else if a.2 {
        process_ruby_container(t, i, ctx, attrs, pos, line, in_bg)
    } else {
        match parse_basic_syllable(t, i, ctx, attrs, pos) {
            Err(e) => Err(e),
            Ok((syl, j)) => {
                push_syllable_exec(line, syl, in_bg);
                Ok(j)
            },
        }
    }
}

/// A `<span>` inside a background vocal, with attributes `attrs` read at `pos`.
pub open spec fn spec_span_in_bg(
    tv: Seq<XmlTokenV>,
    i: int,
    ctx: ParserContextV,
    line: LyricLineV,
    attrs: Seq<XmlAttrV>,
    pos: u64,
) -> Result<(ParserContextV, LyricLineV, int), TTMLProcessorErrorV> {
    match spec_span_attrs(attrs, 0, (None, None, false, None, None), pos, ctx) {
        Err(e) => Err(e),
        Ok(a) => spec_span_leaf(tv, i, ctx, line, attrs, pos, true, a),
    }
}

/// Reads the events of a background vocal from `i` on, up to its `</span>`; gives the
/// state, the line and the raw text then, and the position after the end tag.
pub open spec fn spec_bg_loop(
    tv: Seq<XmlTokenV>,
    i: int,
    ctx: ParserContextV,
    line: LyricLineV,
    raw: Seq<char>,
) -> Result<(ParserContextV, LyricLineV, Seq<char>, int), TTMLProcessorErrorV>
    decreases tv.len() - i,
{
    if i < 0 || i >= tv.len() {
        Err(ctx_err(ParseErrorKindV::UnexpectedEof, 0, ctx, None, None))
    } else {
        match tv[i] {
            XmlTokenV::Error { message, pos } => Err(
                ctx_err(ParseErrorKindV::XmlError(message), pos, ctx, None, None),
            ),
            XmlTokenV::Eof { pos } => Err(ctx_err(ParseErrorKindV::UnexpectedEof, pos, ctx, None, None)),
            XmlTokenV::Start { name, content, pos } => match utf8_text(name) {
                None => Err(utf8_err(name)),
                Some(n) => {
                    let c1 = push_tag(ctx, n);
                    if n == "span"@ {
                        match spec_span_in_bg(tv, i + 1, c1, line, start_attrs(name, content), pos) {
                            Err(e) => Err(e),
                            Ok((c2, l2, j)) => {
                                proof {
                                    lemma_span_in_bg_range(tv, i + 1, c1, line, start_attrs(name, content), pos);
                                }
                                spec_bg_loop(tv, j, pop_tag(c2), l2, raw)
                            },
                        }
                    } else {
                        spec_bg_loop(tv, i + 1, c1, line, raw)
                    }
                },
            },
            XmlTokenV::Text { bytes, .. } => match utf8_text(bytes) {
                None => Err(utf8_err(bytes)),
                Some(s) => spec_bg_loop(
                    tv,
                    i + 1,
                    ctx,
                    if s.len() > 0 && !s.contains('\n') {
                        mark_line_last(line, true)
                    } else {
                        line
                    },
                    raw + s,
                ),
            },
            XmlTokenV::Ref { bytes, pos } => match spec_resolve_entity(bytes) {
                Err(k) => Err(ctx_err(k, pos, ctx, None, Some(utf8_lossy(bytes)))),
                Ok(s) => spec_bg_loop(tv, i + 1, ctx, line, raw + s),
            },
            XmlTokenV::End { name, .. } => if name_is(name, "span"@) {
                Ok((ctx, line, raw, i + 1))
            } else {
                spec_bg_loop(tv, i + 1, pop_tag(ctx), line, raw)
            },
            XmlTokenV::Other { .. } => spec_bg_loop(tv, i + 1, ctx, line, raw),
        }
    }
}

/// The line once its background vocal is read: the vocal is timed by its explicit `begin`
/// and `end`, or else from its first and last syllables (0 without syllables); without
/// syllables it takes the raw text.
pub open spec fn finish_bg(l: LyricLineV, start: Option<u32>, end: Option<u32>, raw: Seq<char>) -> LyricLineV {
    let b = bg_of(l);
    let has_words = b.words is Some && b.words->0.len() > 0;
    let st = match start {
        Some(v) => v,
        None => if has_words {
            b.words->0[0].start_time
        } else {
            0
        },
    };
    let en = match end {
        Some(v) => v,
        None => if has_words {
            b.words->0.last().end_time
        } else {
            0
        },
    };
    if has_words {
        with_bg(l, BackgroundVocalV { start_time: st, end_time: en, ..b })
    } else {
        with_bg(l, BackgroundVocalV { start_time: st, end_time: en, words: None, text: raw, ..b })
    }
}

/// An optional explicit timestamp of a background vocal.
pub open spec fn opt_ts(raw: Option<Seq<u8>>, pos: u64, ctx: ParserContextV, attr: Seq<char>) -> Result<
    Option<u32>,
    TTMLProcessorErrorV,
> {
    match raw {
        None => Ok(None),
        Some(b) => match spec_parse_timestamp(b) {
            Some(v) => Ok(Some(v)),
            None => Err(ts_err(b, pos, ctx, attr)),
        },
    }
}

/// A background vocal `<span>` with raw `begin` and `end`, read from event `i` on.
pub open spec fn spec_bg_vocal(
    tv: Seq<XmlTokenV>,
    i: int,
    ctx: ParserContextV,
    line: LyricLineV,
    b: Option<Seq<u8>>,
    e: Option<Seq<u8>>,
    pos: u64,
) -> Result<(ParserContextV, LyricLineV, int), TTMLProcessorErrorV> {
    match opt_ts(b, pos, ctx, "begin"@) {
        Err(err) => Err(err),
        Ok(st) => match opt_ts(e, pos, ctx, "end"@) {
            Err(err) => Err(err),
            Ok(en) => match spec_bg_loop(tv, i, ctx, line, Seq::empty()) {
                Err(err) => Err(err),
                Ok((c, l, raw, j)) => Ok((c, finish_bg(l, st, en, raw), j)),
            },
        },
    }
}

/// A `<span>` of a line whose start tag, with attributes `attrs`, was read at `pos`, read from
/// event `i` on; `in_bg` when it stands inside a background vocal.
pub open spec fn spec_span(
    tv: Seq<XmlTokenV>,
    i: int,
    ctx: ParserContextV,
    line: LyricLineV,
    attrs: Seq<XmlAttrV>,
    pos: u64,
    in_bg: bool,
) -> Result<(ParserContextV, LyricLineV, int), TTMLProcessorErrorV> {
    match spec_span_attrs(attrs, 0, (None, None, false, None, None), pos, ctx) {
        Err(e) => Err(e),
        Ok(a) => if !in_bg && role_is(a.0, "x-bg"@) && !role_is(a.0, "x-translation"@) && !role_is(
            a.0,
            "x-roman"@,
        ) {
            spec_bg_vocal(tv, i, ctx, line, a.3, a.4, pos)
        } else {
            spec_span_leaf(tv, i, ctx, line, attrs, pos, in_bg, a)
        },
    }
}

/// Reads an optional explicit timestamp of a background vocal.
fn opt_timestamp(raw: &Option<Vec<u8>>, pos: u64, ctx: &ParserContext, attr: &str) -> (r: Result<Option<u32>, TTMLProcessorError>)
    ensures
        match (r, opt_ts(opt_bytes(*raw), pos, ctx@, attr@)) {
            (Ok(x), Ok(y)) => x == y,
            (Err(e), Err(ev)) => e@ == ev,
            _ => false,
        },
{
    match raw {
        None => Ok(None),
        Some(b) => match attr_timestamp(b.as_slice(), pos, ctx, attr) {
            Ok(v) => Ok(Some(v)),
            Err(e) => Err(e),
        },
    }
}

/// Times the background vocal of the line and, without syllables, gives it the raw text.
fn finish_bg_exec(line: &mut LyricLine, start: Option<u32>, end: Option<u32>, raw: &Vec<char>)
    ensures
        final(line)@ == finish_bg(old(line)@, start, end, raw@),
{
    let bg = line.bg_vocal_mut();
    let has_words = match &bg.words {
        Some(ws) => ws.len() > 0,
        None => false,
    };
    let st = match start {
        Some(v) => v,
        None => match &bg.words {
            Some(ws) => if ws.len() > 0 {
                ws[0].start_time
            } else {
                0
            },
            None => 0,
        },
    };
    let en = match end {
        Some(v) => v,
        None => match &bg.words {
            Some(ws) => if ws.len() > 0 {
                ws[ws.len() - 1].end_time
            } else {
                0
            },
            None => 0,
        },
    };
    bg.start_time = st;
    bg.end_time = en;
    if !has_words {
        bg.words = None;
        bg.text = string_from_chars(raw, 0, raw.len());
        assert(raw@.subrange(0, raw.len() as int) =~= raw@);
    }
}

/// Reads a background vocal `<span>` from event `i` on: its spans go to the background vocal,
/// which is then timed.
fn process_bg_vocal(
    t: &Vec<XmlToken>,
    i: usize,
    ctx: &mut ParserContext,
    line: &mut LyricLine,
    b: &Option<Vec<u8>>,
    e: &Option<Vec<u8>>,
    pos: u64,
) -> (r: Result<usize, TTMLProcessorError>)
    requires
        tokens_wf(views_t(t@)),
        i < t.len(),
    ensures
        line_res_matches(
            r,
            spec_bg_vocal(views_t(t@), i as int, old(ctx)@, old(line)@, opt_bytes(*b), opt_bytes(*e), pos),
            final(ctx)@,
            final(line)@,
            i as int,
            t.len() as int,
        ),
{
    let ghost tv = views_t(t@);
    let st = match opt_timestamp(b, pos, ctx, "begin") {
        Ok(v) => v,
        Err(err) => return Err(err),
    };
    let en = match opt_timestamp(e, pos, ctx, "end") {
        Ok(v) => v,
        Err(err) => return Err(err),
    };
    let mut raw: Vec<char> = Vec::new();
    let mut k = i;
    loop
        invariant
            tv == views_t(t@),
            tokens_wf(tv),
            i <= k < t.len(),
            opt_ts(opt_bytes(*b), pos, old(ctx)@, "begin"@) == Ok::<Option<u32>, TTMLProcessorErrorV>(st),
            opt_ts(opt_bytes(*e), pos, old(ctx)@, "end"@) == Ok::<Option<u32>, TTMLProcessorErrorV>(en),
            spec_bg_loop(tv, k as int, ctx@, line@, raw@) == spec_bg_loop(
                tv,
                i as int,
                old(ctx)@,
                old(line)@,
                Seq::empty(),
            ),
        decreases t.len() - k,
    {
        assert(t@[k as int]@ == tv[k as int]);
        assert(!is_final_token(tv[k as int]) ==> k + 1 < t.len());
        match &t[k] {
            XmlToken::Error { message, pos } => {
                return Err(make_err(ParseErrorKind::XmlError(copy_str(message.as_str())), *pos, ctx, None, None));
            },
            XmlToken::Eof { pos } => {
                return Err(make_err(ParseErrorKind::UnexpectedEof, *pos, ctx, None, None));
            },
            XmlToken::Other { .. } => {
                k = k + 1;
            },
            XmlToken::Start { name, content, pos } => {
                let n = match utf8_exec(name.as_slice()) {
                    Ok(n) => n,
                    Err(e) => return Err(e),
                };
                push_tag_exec(ctx, n.as_str());
                if str_eq(n.as_str(), "span") {
                    let sub_attrs = t[k].attributes();
                    let a = match span_attrs(&sub_attrs, *pos, ctx) {
                        Ok(a) => a,
                        Err(e) => return Err(e),
                    };
                    let j = match process_span_leaf(t, k + 1, ctx, &sub_attrs, *pos, line, true, &a) {
                        Ok(j) => j,
                        Err(e) => return Err(e),
                    };
                    pop_tag_exec(ctx);
                    k = j;
                } else {
                    k = k + 1;
                }
            },
            XmlToken::Text { bytes, .. } => {
                let s = match utf8_exec(bytes.as_slice()) {
                    Ok(s) => s,
                    Err(e) => return Err(e),
                };
                if is_spacing_text(s.as_str()) {
                    mark_last_syllable_space(line, true);
                }
                push_str_chars(&mut raw, s.as_str());
                k = k + 1;
            },
            XmlToken::Ref { bytes, pos } => {
                match resolve_xml_entity(bytes.as_slice()) {
                    Ok(s) => push_str_chars(&mut raw, s.as_str()),
                    Err(kind) => return Err(make_err(kind, *pos, ctx, None, Some(lossy_string(bytes.as_slice())))),
                }
                k = k + 1;
            },
            XmlToken::End { name, .. } => {
                if name.is("span") {
                    finish_bg_exec(line, st, en, &raw);
                    return Ok(k + 1);
                }
                pop_tag_exec(ctx);
                k = k + 1;
            },
        }
    }
}

/// Reads a `<span>` of a line whose start tag, with attributes `attrs`, was read at `pos`,
/// from event `i` on: a syllable, a ruby container, an inline translation or
/// transliteration, or (outside a background vocal) a whole background vocal. `in_bg` when
/// the span stands inside a background vocal.
pub fn process_span(
    t: &Vec<XmlToken>,
    i: usize,
    ctx: &mut ParserContext,
    attrs: &Vec<XmlAttr>,
    pos: u64,
    line: &mut LyricLine,
    in_bg: bool,
) -> (r: Result<usize, TTMLProcessorError>)
    requires
        tokens_wf(views_t(t@)),
        i < t.len(),
    ensures
        line_res_matches(
            r,
            spec_span(views_t(t@), i as int, old(ctx)@, old(line)@, views_a(attrs@), pos, in_bg),
            final(ctx)@,
            final(line)@,
            i as int,
            t.len() as int,
        ),
{
    let a = match span_attrs(attrs, pos, ctx) {
        Ok(a) => a,
        Err(e) => return Err(e),
    };
    let (is_bg, is_trans, is_rom) = match &a.0 {
        Some(r) => (
            r.is("x-bg"),
            r.is("x-translation"),
            r.is("x-roman"),
        ),
        None => (false, false, false),
    };
    if !in_bg && is_bg && !is_trans && !is_rom {
        process_bg_vocal(t, i, ctx, line, &a.3, &a.4, pos)
    } else {
        process_span_leaf(t, i, ctx, attrs, pos, line, in_bg, &a)
    }
}

/// The ruby texts read from event `i` on end after `i` and within the events.
pub proof fn lemma_ruby_texts_range(tv: Seq<XmlTokenV>, i: int, ctx: ParserContextV, tags: Seq<RubyTagV>)
    ensures
        spec_ruby_texts(tv, i, ctx, tags) matches Ok((_, _, j)) ==> i < j <= tv.len(),
    decreases tv.len() - i,
{
    if 0 <= i < tv.len() {
        match tv[i] {
            XmlTokenV::Start { name, content, pos } => {
                if let Some(n) = utf8_text(name) {
                    let c1 = push_tag(ctx, n);
                    lemma_read_text_range(tv, i + 1, c1, "span"@, 1, Seq::empty());
                    match spec_ruby_text_span(tv, i + 1, c1, start_attrs(name, content), pos) {
                        Ok(Some((tag, j))) => lemma_ruby_texts_range(tv, j, pop_tag(c1), tags.push(tag)),
                        _ => {},
                    }
                    lemma_ruby_texts_range(tv, i + 1, c1, tags);
                }
            },
            XmlTokenV::End { .. } => {
                lemma_ruby_texts_range(tv, i + 1, pop_tag(ctx), tags);
            },
            _ => {
                lemma_ruby_texts_range(tv, i + 1, ctx, tags);
            },
        }
    }
}

/// A ruby container read from event `i` on ends after `i` and within the events.
pub proof fn lemma_ruby_loop_range(
    tv: Seq<XmlTokenV>,
    i: int,
    ctx: ParserContextV,
    base: Seq<char>,
    tags: Seq<RubyTagV>,
)
    ensures
        spec_ruby_loop(tv, i, ctx, base, tags) matches Ok((_, _, _, j)) ==> i < j <= tv.len(),
    decreases tv.len() - i,
{
    if 0 <= i < tv.len() {
        match tv[i] {
            XmlTokenV::Start { name, content, pos } => {
                if let Some(n) = utf8_text(name) {
                    let c1 = push_tag(ctx, n);
                    lemma_ruby_loop_range(tv, i + 1, c1, base, tags);
                    if let Ok(r) = spec_find_attr(start_attrs(name, content), 0, "tts:ruby"@, pos, c1) {
                        lemma_ruby_texts_range(tv, i + 1, c1, Seq::empty());
                        if let Ok((c2, ts, j)) = spec_ruby_texts(tv, i + 1, c1, Seq::empty()) {
                            lemma_ruby_loop_range(tv, j, pop_tag(c2), base, ts);
                        }
                        lemma_read_text_range(tv, i + 1, c1, "span"@, 1, Seq::empty());
                        if let Ok((text, j)) = spec_read_text(tv, i + 1, c1, "span"@, 1, Seq::empty()) {
                            lemma_ruby_loop_range(
                                tv,
                                j,
                                pop_tag(c1),
                                if r == Some("base"@) {
                                    text
                                } else {
                                    base
                                },
                                tags,
                            );
                        }
                    }
                }
            },
            XmlTokenV::End { .. } => {
                lemma_ruby_loop_range(tv, i + 1, pop_tag(ctx), base, tags);
            },
            _ => {
                lemma_ruby_loop_range(tv, i + 1, ctx, base, tags);
            },
        }
    }
}

/// A span without nested spans read from event `i` on ends after `i` and within the events.
pub proof fn lemma_span_leaf_range(
    tv: Seq<XmlTokenV>,
    i: int,
    ctx: ParserContextV,
    line: LyricLineV,
    attrs: Seq<XmlAttrV>,
    pos: u64,
    in_bg: bool,
    a: SpanAttrsV,
)
    ensures
        spec_span_leaf(tv, i, ctx, line, attrs, pos, in_bg, a) matches Ok((_, _, j)) ==> i < j <= tv.len(),
{
    lemma_read_text_range(tv, i, ctx, "span"@, 1, Seq::empty());
    lemma_ruby_loop_range(tv, i, ctx, Seq::empty(), Seq::empty());
}

/// A span of a background vocal read from event `i` on ends after `i` and within the events.
pub proof fn lemma_span_in_bg_range(
    tv: Seq<XmlTokenV>,
    i: int,
    ctx: ParserContextV,
    line: LyricLineV,
    attrs: Seq<XmlAttrV>,
    pos: u64,
)
    ensures
        spec_span_in_bg(tv, i, ctx, line, attrs, pos) matches Ok((_, _, j)) ==> i < j <= tv.len(),
{
    if let Ok(a) = spec_span_attrs(attrs, 0, (None, None, false, None, None), pos, ctx) {
        lemma_span_leaf_range(tv, i, ctx, line, attrs, pos, true, a);
    }
}

/// A background vocal read from event `i` on ends after `i` and within the events.
pub proof fn lemma_bg_loop_range(tv: Seq<XmlTokenV>, i: int, ctx: ParserContextV, line: LyricLineV, raw: Seq<char>)
    ensures
        spec_bg_loop(tv, i, ctx, line, raw) matches Ok((_, _, _, j)) ==> i < j <= tv.len(),
    decreases tv.len() - i,
{
    if 0 <= i < tv.len() {
        match tv[i] {
            XmlTokenV::Start { name, content, pos } => {
                if let Some(n) = utf8_text(name) {
                    let c1 = push_tag(ctx, n);
                    let attrs = start_attrs(name, content);
                    lemma_span_in_bg_range(tv, i + 1, c1, line, attrs, pos);
                    if let Ok((c2, l2, j)) = spec_span_in_bg(tv, i + 1, c1, line, attrs, pos) {
                        lemma_bg_loop_range(tv, j, pop_tag(c2), l2, raw);
                    }
                    lemma_bg_loop_range(tv, i + 1, c1, line, raw);
                }
            },
            XmlTokenV::Text { bytes, .. } => {
                if let Some(s) = utf8_text(bytes) {
                    lemma_bg_loop_range(
                        tv,
                        i + 1,
                        ctx,
                        if s.len() > 0 && !s.contains('\n') {
                            mark_line_last(line, true)
                        } else {
                            line
                        },
                        raw + s,
                    );
                }
            },
            XmlTokenV::Ref { bytes, .. } => {
                if let Ok(s) = spec_resolve_entity(bytes) {
                    lemma_bg_loop_range(tv, i + 1, ctx, line, raw + s);
                }
            },
            XmlTokenV::End { .. } => {
                lemma_bg_loop_range(tv, i + 1, pop_tag(ctx), line, raw);
            },
            XmlTokenV::Other { .. } => {
                lemma_bg_loop_range(tv, i + 1, ctx, line, raw);
            },
            _ => {},
        }
    }
}

/// A span of a line read from event `i` on ends after `i` and within the events.
pub proof fn lemma_span_range(
    tv: Seq<XmlTokenV>,
    i: int,
    ctx: ParserContextV,
    line: LyricLineV,
    attrs: Seq<XmlAttrV>,
    pos: u64,
    in_bg: bool,
)
    ensures
        spec_span(tv, i, ctx, line, attrs, pos, in_bg) matches Ok((_, _, j)) ==> i < j <= tv.len(),
{
    if let Ok(a) = spec_span_attrs(attrs, 0, (None, None, false, None, None), pos, ctx) {
        lemma_span_leaf_range(tv, i, ctx, line, attrs, pos, in_bg, a);
        lemma_bg_loop_range(tv, i, ctx, line, Seq::empty());
    }
}

/// Whether two states are in the same block: same song part and block index.
pub open spec fn same_block(a: ParserContextV, b: ParserContextV) -> bool {
    a.last_song_part == b.last_song_part && a.current_block_index == b.current_block_index
}

/// Whether two lines have the same song part and block index.
pub open spec fn same_place(a: LyricLineV, b: LyricLineV) -> bool {
    a.song_part == b.song_part && a.block_index == b.block_index
}

proof fn lemma_ruby_texts_block(tv: Seq<XmlTokenV>, i: int, ctx: ParserContextV, tags: Seq<RubyTagV>)
    ensures
        spec_ruby_texts(tv, i, ctx, tags) matches Ok((c, _, _)) ==> same_block(ctx, c),
    decreases tv.len() - i,
{
    if 0 <= i < tv.len() {
        match tv[i] {
            XmlTokenV::Start { name, content, pos } => {
                if let Some(n) = utf8_text(name) {
                    let c1 = push_tag(ctx, n);
                    lemma_read_text_range(tv, i + 1, c1, "span"@, 1, Seq::empty());
                    match spec_ruby_text_span(tv, i + 1, c1, start_attrs(name, content), pos) {
                        Ok(Some((tag, j))) => lemma_ruby_texts_block(tv, j, pop_tag(c1), tags.push(tag)),
                        _ => {},
                    }
                    lemma_ruby_texts_block(tv, i + 1, c1, tags);
                }
            },
            XmlTokenV::End { .. } => {
                lemma_ruby_texts_block(tv, i + 1, pop_tag(ctx), tags);
            },
            _ => {
                lemma_ruby_texts_block(tv, i + 1, ctx, tags);
            },
        }
    }
}

proof fn lemma_ruby_loop_block(tv: Seq<XmlTokenV>, i: int, ctx: ParserContextV, base: Seq<char>, tags: Seq<RubyTagV>)
    ensures
        spec_ruby_loop(tv, i, ctx, base, tags) matches Ok((c, _, _, _)) ==> same_block(ctx, c),
    decreases tv.len() - i,
{
    if 0 <= i < tv.len() {
        match tv[i] {
            XmlTokenV::Start { name, content, pos } => {
                if let Some(n) = utf8_text(name) {
                    let c1 = push_tag(ctx, n);
                    lemma_ruby_loop_block(tv, i + 1, c1, base, tags);
                    if let Ok(r) = spec_find_attr(start_attrs(name, content), 0, "tts:ruby"@, pos, c1) {
                        lemma_ruby_texts_range(tv, i + 1, c1, Seq::empty());
                        lemma_ruby_texts_block(tv, i + 1, c1, Seq::empty());
                        if let Ok((c2, ts, j)) = spec_ruby_texts(tv, i + 1, c1, Seq::empty()) {
                            lemma_ruby_loop_block(tv, j, pop_tag(c2), base, ts);
                        }
                        lemma_read_text_range(tv, i + 1, c1, "span"@, 1, Seq::empty());
                        if let Ok((text, j)) = spec_read_text(tv, i + 1, c1, "span"@, 1, Seq::empty()) {
                            lemma_ruby_loop_block(
                                tv,
                                j,
                                pop_tag(c1),
                                if r == Some("base"@) {
                                    text
                                } else {
                                    base
                                },
                                tags,
                            );
                        }
                    }
                }
            },
            XmlTokenV::End { .. } => {
                lemma_ruby_loop_block(tv, i + 1, pop_tag(ctx), base, tags);
            },
            _ => {
                lemma_ruby_loop_block(tv, i + 1, ctx, base, tags);
            },
        }
    }
}

proof fn lemma_span_leaf_block(
    tv: Seq<XmlTokenV>,
    i: int,
    ctx: ParserContextV,
    line: LyricLineV,
    attrs: Seq<XmlAttrV>,
    pos: u64,
    in_bg: bool,
    a: SpanAttrsV,
)
    ensures
        spec_span_leaf(tv, i, ctx, line, attrs, pos, in_bg, a) matches Ok((c, l, _)) ==> same_block(ctx, c)
            && same_place(line, l),
{
    lemma_ruby_loop_block(tv, i, ctx, Seq::empty(), Seq::empty());
}

proof fn lemma_span_in_bg_block(
    tv: Seq<XmlTokenV>,
    i: int,
    ctx: ParserContextV,
    line: LyricLineV,
    attrs: Seq<XmlAttrV>,
    pos: u64,
)
    ensures
        spec_span_in_bg(tv, i, ctx, line, attrs, pos) matches Ok((c, l, _)) ==> same_block(ctx, c) && same_place(line, l),
{
    if let Ok(a) = spec_span_attrs(attrs, 0, (None, None, false, None, None), pos, ctx) {
        lemma_span_leaf_block(tv, i, ctx, line, attrs, pos, true, a);
    }
}

proof fn lemma_bg_loop_block(tv: Seq<XmlTokenV>, i: int, ctx: ParserContextV, line: LyricLineV, raw: Seq<char>)
    ensures
        spec_bg_loop(tv, i, ctx, line, raw) matches Ok((c, l, _, _)) ==> same_block(ctx, c) && same_place(line, l),
    decreases tv.len() - i,
{
    if 0 <= i < tv.len() {
        match tv[i] {
            XmlTokenV::Start { name, content, pos } => {
                if let Some(n) = utf8_text(name) {
                    let c1 = push_tag(ctx, n);
                    let attrs = start_attrs(name, content);
                    lemma_span_in_bg_range(tv, i + 1, c1, line, attrs, pos);
                    lemma_span_in_bg_block(tv, i + 1, c1, line, attrs, pos);
                    if let Ok((c2, l2, j)) = spec_span_in_bg(tv, i + 1, c1, line, attrs, pos) {
                        lemma_bg_loop_block(tv, j, pop_tag(c2), l2, raw);
                    }
                    lemma_bg_loop_block(tv, i + 1, c1, line, raw);
                }
            },
            XmlTokenV::Text { bytes, .. } => {
                if let Some(s) = utf8_text(bytes) {
                    lemma_bg_loop_block(
                        tv,
                        i + 1,
                        ctx,
                        if s.len() > 0 && !s.contains('\n') {
                            mark_line_last(line, true)
                        } else {
                            line
                        },
                        raw + s,
                    );
                }
            },
            XmlTokenV::Ref { bytes, .. } => {
                if let Ok(s) = spec_resolve_entity(bytes) {
                    lemma_bg_loop_block(tv, i + 1, ctx, line, raw + s);
                }
            },
            XmlTokenV::End { .. } => {
                lemma_bg_loop_block(tv, i + 1, pop_tag(ctx), line, raw);
            },
            XmlTokenV::Other { .. } => {
                lemma_bg_loop_block(tv, i + 1, ctx, line, raw);
            },
            _ => {},
        }
    }
}

/// Reading a span of a line leaves the block of the state and the song part and block index
/// of the line as they were.
pub proof fn lemma_span_block(
    tv: Seq<XmlTokenV>,
    i: int,
    ctx: ParserContextV,
    line: LyricLineV,
    attrs: Seq<XmlAttrV>,
    pos: u64,
    in_bg: bool,
)
    ensures
        spec_span(tv, i, ctx, line, attrs, pos, in_bg) matches Ok((c, l, _)) ==> same_block(ctx, c) && same_place(line, l),
{
    if let Ok(a) = spec_span_attrs(attrs, 0, (None, None, false, None, None), pos, ctx) {
        lemma_span_leaf_block(tv, i, ctx, line, attrs, pos, in_bg, a);
        lemma_bg_loop_block(tv, i, ctx, line, Seq::empty());
    }
}

} // verus!
