//! Reading texts, attributes, references and plain syllables from the events.

use vstd::prelude::*;
use crate::error::{ParseErrorKind, ParseErrorKindV, TTMLProcessorError, TTMLProcessorErrorV};
use crate::model::{Syllable, SyllableV};
use crate::parser::state::{
    utf8_err,
    ctx_err, make_err, name_is, QNameExt, tokens_wf, utf8_exec, utf8_text, ParserContext,
    ParserContextV,
};
use crate::text::{copy_str, str_chars, str_eq};
use crate::timestamp::{parse_timestamp, spec_parse_timestamp};
use crate::xml::{
    lossy_string, resolve_char_ref, resolve_predefined_entity, spec_predefined_entity,
    unescape_value, utf8_lossy, xml_char_ref, xml_unescape, XmlAttr, XmlAttrV, XmlToken, XmlTokenV,
};

verus! {

/// What a reference `&name;` stands for, or the error it raises.
pub open spec fn spec_resolve_entity(b: Seq<u8>) -> Result<Seq<char>, ParseErrorKindV> {
    match utf8_text(b) {
        None => Err(ParseErrorKindV::EntityError("Invalid char ref"@)),
        Some(s) => match xml_char_ref(s) {
            Err(()) => Err(ParseErrorKindV::EntityError("Invalid char ref"@)),
            Ok(Some(c)) => Ok(seq![c]),
            Ok(None) => match spec_predefined_entity(s) {
                Some(v) => Ok(v),
                None => Err(ParseErrorKindV::EntityError(s)),
            },
        },
    }
}

/// Turns a reference `&name;` into the character or text it stands for.
pub fn resolve_xml_entity(bytes: &[u8]) -> (r: Result<String, ParseErrorKind>)
    ensures
        match (r, spec_resolve_entity(bytes@)) {
            (Ok(s), Ok(v)) => s@ == v,
            (Err(k), Err(kv)) => k@ == kv,
            _ => false,
        },
{
    let name = match core::str::from_utf8(bytes) {
        Ok(s) => s,
        Err(_) => return Err(ParseErrorKind::EntityError(copy_str("Invalid char ref"))),
    };
    match resolve_char_ref(name) {
        Err(()) => Err(ParseErrorKind::EntityError(copy_str("Invalid char ref"))),
        Ok(Some(c)) => {
            let mut s = String::new();
            s.push(c);
            Ok(s)
        },
        Ok(None) => match resolve_predefined_entity(name) {
            Some(v) => Ok(v),
            None => Err(ParseErrorKind::EntityError(copy_str(name))),
        },
    }
}

/// The text of the events from `i` on, up to the end tag `end` that closes the element (nested
/// elements of the same name counted in `depth`), with `acc` read so far; and the position
/// after that end tag.
pub open spec fn spec_read_text(
    tv: Seq<XmlTokenV>,
    i: int,
    ctx: ParserContextV,
    end: Seq<char>,
    depth: int,
    acc: Seq<char>,
) -> Result<(Seq<char>, int), TTMLProcessorErrorV>
    decreases tv.len() - i,
{
    if i < 0 || i >= tv.len() {
        Err(ctx_err(ParseErrorKindV::UnexpectedEof, 0, ctx, None, None))
    } else {
        match tv[i] {
            XmlTokenV::Error { message, pos } => Err(
                ctx_err(ParseErrorKindV::XmlError(message), pos, ctx, None, None),
            ),
            XmlTokenV::Start { name, .. } => if name_is(name, end) {
                spec_read_text(tv, i + 1, ctx, end, depth + 1, acc)
            } else {
                spec_read_text(tv, i + 1, ctx, end, depth, acc)
            },
            XmlTokenV::End { name, .. } => if name_is(name, end) {
                if depth - 1 == 0 {
                    Ok((acc, i + 1))
                } else {
                    spec_read_text(tv, i + 1, ctx, end, depth - 1, acc)
                }
            } else {
                spec_read_text(tv, i + 1, ctx, end, depth, acc)
            },
            XmlTokenV::Text { bytes, .. } => match utf8_text(bytes) {
                None => Err(utf8_err(bytes)),
                Some(s) => spec_read_text(tv, i + 1, ctx, end, depth, acc + s),
            },
            XmlTokenV::Ref { bytes, pos } => match spec_resolve_entity(bytes) {
                Err(k) => Err(ctx_err(k, pos, ctx, None, None)),
                Ok(s) => spec_read_text(tv, i + 1, ctx, end, depth, acc + s),
            },
            XmlTokenV::Eof { pos } => Err(ctx_err(ParseErrorKindV::UnexpectedEof, pos, ctx, None, None)),
            XmlTokenV::Other { .. } => spec_read_text(tv, i + 1, ctx, end, depth, acc),
        }
    }
}

/// A text read from event `i` on ends after `i` and within the events.
pub proof fn lemma_read_text_range(
    tv: Seq<XmlTokenV>,
    i: int,
    ctx: ParserContextV,
    end: Seq<char>,
    depth: int,
    acc: Seq<char>,
)
    ensures
        spec_read_text(tv, i, ctx, end, depth, acc) matches Ok((_, j)) ==> i < j <= tv.len(),
    decreases tv.len() - i,
{
    if 0 <= i < tv.len() {
        match tv[i] {
            XmlTokenV::Start { name, .. } => {
                lemma_read_text_range(tv, i + 1, ctx, end, depth + 1, acc);
                lemma_read_text_range(tv, i + 1, ctx, end, depth, acc);
            },
            XmlTokenV::End { name, .. } => {
                lemma_read_text_range(tv, i + 1, ctx, end, depth - 1, acc);
                lemma_read_text_range(tv, i + 1, ctx, end, depth, acc);
            },
            XmlTokenV::Text { bytes, .. } => {
                if let Some(s) = utf8_text(bytes) {
                    lemma_read_text_range(tv, i + 1, ctx, end, depth, acc + s);
                }
            },
            XmlTokenV::Ref { bytes, .. } => {
                if let Ok(s) = spec_resolve_entity(bytes) {
                    lemma_read_text_range(tv, i + 1, ctx, end, depth, acc + s);
                }
            },
            XmlTokenV::Other { .. } => {
                lemma_read_text_range(tv, i + 1, ctx, end, depth, acc);
            },
            _ => {},
        }
    }
}

/// Whether an exec result of reading a text matches the spec.
pub open spec fn text_res_matches(
    r: Result<(String, usize), TTMLProcessorError>,
    s: Result<(Seq<char>, int), TTMLProcessorErrorV>,
    i: int,
    len: int,
) -> bool {
    match (r, s) {
        (Ok((t, j)), Ok((tv, jv))) => t@ == tv && j == jv && i < j < len,
        (Err(e), Err(ev)) => e@ == ev,
        _ => false,
    }
}

/// Reads all the text inside the element whose start tag was just read, up to its end tag
/// `end_tag`; gives the text and the position after the end tag.
pub fn read_text_content(t: &Vec<XmlToken>, i: usize, ctx: &ParserContext, end_tag: &str) -> (r:
    Result<(String, usize), TTMLProcessorError>)
    requires
        tokens_wf(views_t(t@)),
        i < t.len(),
    ensures
        text_res_matches(r, spec_read_text(views_t(t@), i as int, ctx@, end_tag@, 1, Seq::empty()), i as int, t.len() as int),
{
    let ghost tv = views_t(t@);
    let mut acc: Vec<char> = Vec::new();
    let mut depth: u128 = 1;
    let mut k = i;
    loop
        invariant
            tv == views_t(t@),
            tokens_wf(tv),
            i <= k < t.len(),
            1 <= depth <= (k - i) + 1,
            spec_read_text(tv, k as int, ctx@, end_tag@, depth as int, acc@) == spec_read_text(
                tv,
                i as int,
                ctx@,
                end_tag@,
                1,
                Seq::empty(),
            ),
        decreases t.len() - k,
    {
        assert(t@[k as int]@ == tv[k as int]);
        match &t[k] {
            XmlToken::Error { message, pos } => {
                return Err(make_err(ParseErrorKind::XmlError(copy_str(message.as_str())), *pos, ctx, None, None));
            },
            XmlToken::Start { name, .. } => {
                if name.is(end_tag) {
                    depth = depth + 1;
                }
            },
            XmlToken::End { name, .. } => {
                if name.is(end_tag) {
                    depth = depth - 1;
                    if depth == 0 {
                        let s = crate::text::string_from_chars(&acc, 0, acc.len());
                        assert(acc@.subrange(0, acc.len() as int) =~= acc@);
                        assert(k + 1 < t.len()) by {
                            assert(!crate::xml::is_final_token(tv[k as int]));
                        }
                        return Ok((s, k + 1));
                    }
                }
            },
            XmlToken::Text { bytes, .. } => {
                let s = match utf8_exec(bytes.as_slice()) {
                    Ok(s) => s,
                    Err(e) => return Err(e),
                };
                crate::text::push_str_chars(&mut acc, s.as_str());
            },
            XmlToken::Ref { bytes, pos } => {
                match resolve_xml_entity(bytes.as_slice()) {
                    Ok(s) => crate::text::push_str_chars(&mut acc, s.as_str()),
                    Err(kind) => return Err(make_err(kind, *pos, ctx, None, None)),
                }
            },
            XmlToken::Eof { pos } => {
                return Err(make_err(ParseErrorKind::UnexpectedEof, *pos, ctx, None, None));
            },
            XmlToken::Other { .. } => {},
        }
        assert(!crate::xml::is_final_token(tv[k as int]));
        k = k + 1;
    }
}

/// The views of a vector of events.
pub open spec fn views_t(t: Seq<XmlToken>) -> Seq<XmlTokenV> {
    crate::model::views(t)
}

/// The views of the attributes of a start tag.
pub open spec fn views_a(a: Seq<XmlAttr>) -> Seq<XmlAttrV> {
    crate::model::views(a)
}

/// The value of attribute `key` among `attrs[k..]`, unescaped; the first malformed attribute
/// met before it is an error.
pub open spec fn spec_find_attr(
    attrs: Seq<XmlAttrV>,
    k: int,
    key: Seq<char>,
    pos: u64,
    ctx: ParserContextV,
) -> Result<Option<Seq<char>>, TTMLProcessorErrorV>
    decreases attrs.len() - k,
{
    if k < 0 || k >= attrs.len() {
        Ok(None)
    } else {
        match attrs[k] {
            XmlAttrV::Error { message } => Err(
                ctx_err(ParseErrorKindV::AttrError(message), pos, ctx, Some(key), None),
            ),
            XmlAttrV::Attr { key: k2, value } => if k2 == key {
                match xml_unescape(value) {
                    Ok(v) => Ok(Some(v)),
                    Err(m) => Err(ctx_err(ParseErrorKindV::EntityError(m), pos, ctx, Some(key), None)),
                }
            } else {
                spec_find_attr(attrs, k + 1, key, pos, ctx)
            },
        }
    }
}

/// Whether an exec optional string result matches the spec.
pub open spec fn opt_res_matches(
    r: Result<Option<String>, TTMLProcessorError>,
    s: Result<Option<Seq<char>>, TTMLProcessorErrorV>,
) -> bool {
    match (r, s) {
        (Ok(o), Ok(ov)) => crate::model::opt_v(o) == ov,
        (Err(e), Err(ev)) => e@ == ev,
        _ => false,
    }
}

/// The unescaped value of attribute `key`, `None` when absent.
pub fn get_attr_value(attrs: &Vec<XmlAttr>, key: &str, pos: u64, ctx: &ParserContext) -> (r: Result<
    Option<String>,
    TTMLProcessorError,
>)
    ensures
        opt_res_matches(r, spec_find_attr(views_a(attrs@), 0, key@, pos, ctx@)),
{
    let ghost av = views_a(attrs@);
    let mut k: usize = 0;
    while k < attrs.len()
        invariant
            k <= attrs.len(),
            av == views_a(attrs@),
            spec_find_attr(av, k as int, key@, pos, ctx@) == spec_find_attr(av, 0, key@, pos, ctx@),
        decreases attrs.len() - k,
    {
        assert(attrs@[k as int]@ == av[k as int]);
        match &attrs[k] {
            XmlAttr::Error { message } => {
                return Err(make_err(ParseErrorKind::AttrError(copy_str(message.as_str())), pos, ctx, Some(copy_str(key)), None));
            },
            XmlAttr::Attr { key: k2, value } => {
                if str_eq(k2.as_str(), key) {
                    return match unescape_value(value.as_slice()) {
                        Ok(v) => Ok(Some(v)),
                        Err(m) => Err(make_err(ParseErrorKind::EntityError(m), pos, ctx, Some(copy_str(key)), None)),
                    };
                }
            },
        }
        k = k + 1;
    }
    Ok(None)
}

/// The value of the required attribute `key`: absent, it is an error.
pub open spec fn spec_required_attr(
    attrs: Seq<XmlAttrV>,
    key: Seq<char>,
    pos: u64,
    ctx: ParserContextV,
) -> Result<Seq<char>, TTMLProcessorErrorV> {
    match spec_find_attr(attrs, 0, key, pos, ctx) {
        Err(e) => Err(e),
        Ok(Some(v)) => Ok(v),
        Ok(None) => Err(ctx_err(ParseErrorKindV::MissingAttribute(key), pos, ctx, Some(key), None)),
    }
}

/// The unescaped value of the required attribute `key`.
pub fn get_required_attr(attrs: &Vec<XmlAttr>, key: &str, pos: u64, ctx: &ParserContext) -> (r:
    Result<String, TTMLProcessorError>)
    ensures
        match (r, spec_required_attr(views_a(attrs@), key@, pos, ctx@)) {
            (Ok(s), Ok(v)) => s@ == v,
            (Err(e), Err(ev)) => e@ == ev,
            _ => false,
        },
{
    match get_attr_value(attrs, key, pos, ctx) {
        Err(e) => Err(e),
        Ok(Some(v)) => Ok(v),
        Ok(None) => Err(make_err(ParseErrorKind::MissingAttribute(copy_str(key)), pos, ctx, Some(copy_str(key)), None)),
    }
}

/// Whether a character is an ASCII digit.
pub open spec fn is_digit_char(c: char) -> bool {
    '0' <= c <= '9'
}

/// The decimal value of a run of digits.
pub open spec fn digits_value(s: Seq<char>) -> int
    decreases s.len(),
{
    if s.len() == 0 {
        0
    } else {
        digits_value(s.drop_last()) * 10 + (s.last() as int - '0' as int)
    }
}

/// The digits of a `u32` literal: the text without its optional leading `+`.
pub open spec fn u32_digits(s: Seq<char>) -> Seq<char> {
    if s.len() > 0 && s[0] == '+' {
        s.drop_first()
    } else {
        s
    }
}

/// Whether all characters are ASCII digits.
pub open spec fn all_digits(d: Seq<char>) -> bool {
    forall|j: int| 0 <= j < d.len() ==> is_digit_char(#[trigger] d[j])
}

/// `str::parse::<u32>`: an optional `+`, then one or more decimal digits, of a value that
/// fits in `u32`.
pub open spec fn spec_parse_u32(s: Seq<char>) -> Option<u32> {
    let d = u32_digits(s);
    if d.len() > 0 && all_digits(d) && digits_value(d) <= u32::MAX {
        Some(digits_value(d) as u32)
    } else {
        None
    }
}

proof fn lemma_digits_value_mono(d: Seq<char>, k: int)
    requires
        0 <= k <= d.len(),
        forall|j: int| 0 <= j < d.len() ==> is_digit_char(#[trigger] d[j]),
    ensures
        digits_value(d.take(k)) <= digits_value(d),
        digits_value(d.take(k)) >= 0,
    decreases d.len(),
{
    if k < d.len() {
        lemma_digits_value_mono(d.drop_last(), k);
        assert(d.drop_last().take(k) =~= d.take(k));
        lemma_digits_value_mono(d.drop_last(), d.len() - 1);
        assert(d.drop_last().take(d.len() - 1) =~= d.drop_last());
    } else {
        assert(d.take(k) =~= d);
        if d.len() > 0 {
            lemma_digits_value_mono(d.drop_last(), d.len() - 1);
            assert(d.drop_last().take(d.len() - 1) =~= d.drop_last());
        }
    }
}

/// Reads a decimal `u32` as `str::parse` does.
pub fn parse_u32(s: &str) -> (r: Option<u32>)
    ensures
        r == spec_parse_u32(s@),
{
    let cs = str_chars(s);
    let start: usize = if cs.len() > 0 && cs[0] == '+' {
        1
    } else {
        0
    };
    let ghost d = u32_digits(s@);
    assert(d =~= cs@.subrange(start as int, cs.len() as int));
    if start == cs.len() {
        return None;
    }
    let mut v: u64 = 0;
    let mut i = start;
    while i < cs.len()
        invariant
            start <= i <= cs.len(),
            cs@ == s@,
            d == cs@.subrange(start as int, cs.len() as int),
            d == u32_digits(s@),
            forall|j: int| start <= j < i ==> is_digit_char(#[trigger] cs@[j]),
            v as int == digits_value(d.take(i - start)),
            v <= u32::MAX,
        decreases cs.len() - i,
    {
        let c = cs[i];
        if !('0' <= c && c <= '9') {
            assert(!is_digit_char(d[i - start]));
            assert(!all_digits(d));
            return None;
        }
        let dv = (c as u32 - '0' as u32) as u64;
        assert(d.take(i - start + 1).drop_last() =~= d.take(i - start));
        v = v * 10 + dv;
        i = i + 1;
        if v > 0xffff_ffff {
            proof {
                if all_digits(d) {
                    lemma_digits_value_mono(d, i - start);
                }
            }
            return None;
        }
    }
    assert(d.take(i - start) =~= d);
    Some(v as u32)
}

/// The error raised for a timestamp that cannot be read, written `raw`, in attribute `attr`.
pub open spec fn ts_err(raw: Seq<u8>, pos: u64, ctx: ParserContextV, attr: Seq<char>) -> TTMLProcessorErrorV {
    ctx_err(
        ParseErrorKindV::InvalidTimestamp(utf8_lossy(raw)),
        pos,
        ctx,
        Some(attr),
        Some(utf8_lossy(raw)),
    )
}

/// Reads the timestamp of attribute `attr`, written `raw`.
pub fn attr_timestamp(raw: &[u8], pos: u64, ctx: &ParserContext, attr: &str) -> (r: Result<u32, TTMLProcessorError>)
    ensures
        match spec_parse_timestamp(raw@) {
            Some(v) => r matches Ok(x) && x == v,
            None => r matches Err(e) && e@ == ts_err(raw@, pos, ctx@, attr@),
        },
{
    match parse_timestamp(raw) {
        Some(v) => Ok(v),
        None => {
            let shown = lossy_string(raw);
            let offending = lossy_string(raw);
            Err(make_err(ParseErrorKind::InvalidTimestamp(shown), pos, ctx, Some(copy_str(attr)), Some(offending)))
        },
    }
}

/// The attributes of a plain syllable read so far: raw `begin`, raw `end`, `amll:obscene`
/// and `amll:empty-beat`.
pub type SylAttrsV = (Option<Seq<u8>>, Option<Seq<u8>>, Option<bool>, Option<u32>);

/// One attribute folded into the attributes of a plain syllable.
pub open spec fn syl_attr_step(acc: SylAttrsV, key: Seq<char>, value: Seq<u8>) -> SylAttrsV {
    if key == "begin"@ {
        (Some(value), acc.1, acc.2, acc.3)
    } else if key == "end"@ {
        (acc.0, Some(value), acc.2, acc.3)
    } else if key == "amll:obscene"@ {
        (acc.0, acc.1, Some(name_is(value, "true"@)), acc.3)
    } else if key == "amll:empty-beat"@ {
        match utf8_text(value) {
            Some(s) => (acc.0, acc.1, acc.2, spec_parse_u32(s)),
            None => acc,
        }
    } else {
        acc
    }
}

/// The attributes of a plain syllable from `attrs[k..]` on; a malformed attribute is an
/// error raised for the tag `tag`.
pub open spec fn spec_syl_attrs(
    attrs: Seq<XmlAttrV>,
    k: int,
    acc: SylAttrsV,
    pos: u64,
    ctx: ParserContextV,
    tag: Seq<char>,
) -> Result<SylAttrsV, TTMLProcessorErrorV>
    decreases attrs.len() - k,
{
    if k < 0 || k >= attrs.len() {
        Ok(acc)
    } else {
        match attrs[k] {
            XmlAttrV::Error { message } => Err(
                ctx_err(ParseErrorKindV::AttrError(message), pos, ctx, Some(tag), None),
            ),
            XmlAttrV::Attr { key, value } => spec_syl_attrs(
                attrs,
                k + 1,
                syl_attr_step(acc, key, value),
                pos,
                ctx,
                tag,
            ),
        }
    }
}

/// The syllable that a `<span>` with attributes `attrs` (read at `pos`) holds, its text read
/// from event `i` on; and the position after its end tag.
pub open spec fn spec_basic_syllable(
    tv: Seq<XmlTokenV>,
    i: int,
    ctx: ParserContextV,
    attrs: Seq<XmlAttrV>,
    pos: u64,
) -> Result<(SyllableV, int), TTMLProcessorErrorV> {
    match spec_syl_attrs(attrs, 0, (None, None, None, None), pos, ctx, "span"@) {
        Err(e) => Err(e),
        Ok(a) => match (a.0, a.1) {
            (None, _) => Err(ctx_err(ParseErrorKindV::MissingAttribute("begin"@), pos, ctx, None, None)),
            (Some(_), None) => Err(ctx_err(ParseErrorKindV::MissingAttribute("end"@), pos, ctx, None, None)),
            (Some(b), Some(e)) => match spec_parse_timestamp(b) {
                None => Err(ts_err(b, pos, ctx, "begin"@)),
                Some(st) => match spec_parse_timestamp(e) {
                    None => Err(ts_err(e, pos, ctx, "end"@)),
                    Some(et) => match spec_read_text(tv, i, ctx, "span"@, 1, Seq::empty()) {
                        Err(err) => Err(err),
                        Ok((text, j)) => Ok(
                            (
                                SyllableV {
                                    text,
                                    start_time: st,
                                    end_time: et,
                                    ends_with_space: None,
                                    ruby: None,
                                    obscene: a.2,
                                    empty_beat: a.3,
                                },
                                j,
                            ),
                        ),
                    },
                },
            },
        },
    }
}

/// Whether an exec result carrying a value and a position matches the spec.
pub open spec fn pos_res_matches<T: View>(
    r: Result<(T, usize), TTMLProcessorError>,
    s: Result<(T::V, int), TTMLProcessorErrorV>,
    i: int,
    len: int,
) -> bool {
    match (r, s) {
        (Ok((x, j)), Ok((xv, jv))) => x@ == xv && j == jv && i < j < len,
        (Err(e), Err(ev)) => e@ == ev,
        _ => false,
    }
}

/// Reads the attributes of a plain syllable.
pub fn syl_attrs(attrs: &Vec<XmlAttr>, pos: u64, ctx: &ParserContext, tag: &str) -> (r: Result<
    (Option<Vec<u8>>, Option<Vec<u8>>, Option<bool>, Option<u32>),
    TTMLProcessorError,
>)
    ensures
        match (r, spec_syl_attrs(views_a(attrs@), 0, (None, None, None, None), pos, ctx@, tag@)) {
            (Ok(a), Ok(av)) => opt_bytes(a.0) == av.0 && opt_bytes(a.1) == av.1 && a.2 == av.2 && a.3
                == av.3,
            (Err(e), Err(ev)) => e@ == ev,
            _ => false,
        },
{
    let ghost av = views_a(attrs@);
    let mut b: Option<Vec<u8>> = None;
    let mut e: Option<Vec<u8>> = None;
    let mut obscene: Option<bool> = None;
    let mut empty_beat: Option<u32> = None;
    let mut k: usize = 0;
    while k < attrs.len()
        invariant
            k <= attrs.len(),
            av == views_a(attrs@),
            spec_syl_attrs(av, k as int, (opt_bytes(b), opt_bytes(e), obscene, empty_beat), pos, ctx@, tag@)
                == spec_syl_attrs(av, 0, (None, None, None, None), pos, ctx@, tag@),
        decreases attrs.len() - k,
    {
        assert(attrs@[k as int]@ == av[k as int]);
        match &attrs[k] {
            XmlAttr::Error { message } => {
                return Err(make_err(ParseErrorKind::AttrError(copy_str(message.as_str())), pos, ctx, Some(copy_str(tag)), None));
            },
            XmlAttr::Attr { key, value } => {
                if str_eq(key.as_str(), "begin") {
                    b = Some(copy_bytes(value));
                } else if str_eq(key.as_str(), "end") {
                    e = Some(copy_bytes(value));
                } else if str_eq(key.as_str(), "amll:obscene") {
                    obscene = Some(value.is("true"));
                } else if str_eq(key.as_str(), "amll:empty-beat") {
                    match core::str::from_utf8(value.as_slice()) {
                        Ok(s) => {
                            empty_beat = parse_u32(s);
                        },
                        Err(_) => {},
                    }
                }
            },
        }
        k = k + 1;
    }
    Ok((b, e, obscene, empty_beat))
}

/// The view of optional bytes.
pub open spec fn opt_bytes(o: Option<Vec<u8>>) -> Option<Seq<u8>> {
    match o {
        Some(v) => Some(v@),
        None => None,
    }
}

/// A copy of a byte vector.
pub fn copy_bytes(v: &Vec<u8>) -> (r: Vec<u8>)
    ensures
        r@ == v@,
{
    let mut r: Vec<u8> = Vec::new();
    let mut i: usize = 0;
    while i < v.len()
        invariant
            i <= v.len(),
            r@ == v@.take(i as int),
        decreases v.len() - i,
    {
        r.push(v[i]);
        i = i + 1;
        assert(r@ =~= v@.take(i as int));
    }
    assert(v@.take(i as int) =~= v@);
    r
}

/// Reads a plain `<span>` syllable whose start tag, with attributes `attrs`, was read at
/// `pos`: its timing and AMLL attributes, then its text up to the end tag.
pub fn parse_basic_syllable(
    t: &Vec<XmlToken>,
    i: usize,
    ctx: &ParserContext,
    attrs: &Vec<XmlAttr>,
    pos: u64,
) -> (r: Result<(Syllable, usize), TTMLProcessorError>)
    requires
        tokens_wf(views_t(t@)),
        i < t.len(),
    ensures
        pos_res_matches(r, spec_basic_syllable(views_t(t@), i as int, ctx@, views_a(attrs@), pos), i as int, t.len() as int),
{
    let a = match syl_attrs(attrs, pos, ctx, "span") {
        Ok(a) => a,
        Err(e) => return Err(e),
    };
    let (b, e, obscene, empty_beat) = a;
    let b = match b {
        Some(b) => b,
        None => return Err(make_err(ParseErrorKind::MissingAttribute(copy_str("begin")), pos, ctx, None, None)),
    };
    let e = match e {
        Some(e) => e,
        None => return Err(make_err(ParseErrorKind::MissingAttribute(copy_str("end")), pos, ctx, None, None)),
    };
    let start_time = match attr_timestamp(b.as_slice(), pos, ctx, "begin") {
        Ok(v) => v,
        Err(err) => return Err(err),
    };
    let end_time = match attr_timestamp(e.as_slice(), pos, ctx, "end") {
        Ok(v) => v,
        Err(err) => return Err(err),
    };
    match read_text_content(t, i, ctx, "span") {
        Err(err) => Err(err),
        Ok((text, j)) => Ok((
            Syllable {
                text,
                start_time,
                end_time,
                ends_with_space: None,
                ruby: None,
                obscene,
                empty_beat,
            },
            j,
        )),
    }
}

} // verus!
