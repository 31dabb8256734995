//! The spans of a line: syllables, ruby containers, background vocals and inline
//! translations and transliterations.

use vstd::prelude::*;
use crate::generator::GeneratorConfig;
use crate::generator::ops::{
    end_v, no_attrs, push_attr, push_end, push_start, push_text, push_text_elem, start_v, text_elem, text_v,
};
use crate::generator::sub_lyric::{
    inline_worthy, inline_worthy_exec, lang_attrs, timing_attrs, trailing,
};
use crate::generator::writer::{attrs_v, XmlOp, XmlOpV};
use crate::model::{opt_views, views, BackgroundVocal, BackgroundVocalV, LyricLine, LyricLineV, RubyTag, RubyTagV, SubLyricContent, SubLyricContentV, Syllable, SyllableV};
use crate::text::copy_str;
use crate::timestamp::{dec, format_timestamp, push_dec};

verus! {

/// The AMLL attributes of a syllable: `amll:obscene="true"` when obscene, and the number of
/// empty beats.
pub open spec fn amll_attrs(s: SyllableV) -> Seq<(Seq<char>, Seq<char>)> {
    (if s.obscene == Some(true) {
        seq![("amll:obscene"@, "true"@)]
    } else {
        Seq::empty()
    }) + match s.empty_beat {
        Some(b) => seq![("amll:empty-beat"@, dec(b as nat))],
        None => Seq::empty(),
    }
}

/// The spans of the first `k` ruby annotations.
pub open spec fn ruby_texts_ops(rs: Seq<RubyTagV>, k: int) -> Seq<XmlOpV>
    decreases k,
{
    if k <= 0 {
        Seq::empty()
    } else {
        ruby_texts_ops(rs, k - 1) + text_elem(
            "span"@,
            seq![("tts:ruby"@, "text"@)] + timing_attrs(rs[k - 1].start_time, rs[k - 1].end_time),
            rs[k - 1].text,
        )
    }
}

/// A ruby container: the base text, then the annotations in a text container.
pub open spec fn ruby_ops(s: SyllableV, rs: Seq<RubyTagV>) -> Seq<XmlOpV> {
    seq![start_v("span"@, seq![("tts:ruby"@, "container"@)] + amll_attrs(s))] + text_elem(
        "span"@,
        seq![("tts:ruby"@, "base"@)],
        s.text,
    ) + seq![start_v("span"@, seq![("tts:ruby"@, "textContainer"@)])] + ruby_texts_ops(rs, rs.len() as int)
        + seq![end_v("span"@), end_v("span"@)]
}

/// An optional text event.
pub open spec fn opt_text(o: Option<Seq<char>>) -> Seq<XmlOpV> {
    match o {
        Some(t) => seq![text_v(t)],
        None => Seq::empty(),
    }
}

/// A syllable: a ruby container, or a timed span with an optional prefix and suffix around
/// its text.
pub open spec fn syllable_ops(s: SyllableV, prefix: Option<Seq<char>>, suffix: Option<Seq<char>>) -> Seq<XmlOpV> {
    match s.ruby {
        Some(rs) => ruby_ops(s, rs),
        None => seq![start_v("span"@, timing_attrs(s.start_time, s.end_time) + amll_attrs(s))]
            + opt_text(prefix) + seq![text_v(s.text)] + opt_text(suffix) + seq![end_v("span"@)],
    }
}

/// Appends the AMLL attributes of a syllable.
fn push_amll_attrs(a: &mut Vec<(String, String)>, s: &Syllable)
    ensures
        attrs_v(final(a)@) == attrs_v(old(a)@) + amll_attrs(s@),
{
    if s.obscene == Some(true) {
        push_attr(a, "amll:obscene", copy_str("true"));
    }
    if let Some(b) = s.empty_beat {
        let mut cs: Vec<char> = Vec::new();
        push_dec(&mut cs, b);
        assert(cs@ =~= dec(b as nat));
        assert(cs@.subrange(0, cs.len() as int) =~= cs@);
        push_attr(a, "amll:empty-beat", crate::text::string_from_chars(&cs, 0, cs.len()));
    }
    assert(attrs_v(a@) =~= attrs_v(old(a)@) + amll_attrs(s@));
}

/// Appends a ruby container.
fn write_ruby_container(ops: &mut Vec<XmlOp>, s: &Syllable, rs: &Vec<RubyTag>)
    ensures
        views(final(ops)@) == views(old(ops)@) + ruby_ops(s@, views(rs@)),
{
    let ghost rv = views(rs@);
    let mut a = no_attrs();
    push_attr(&mut a, "tts:ruby", copy_str("container"));
    push_amll_attrs(&mut a, s);
    push_start(ops, "span", a);
    let mut ba = no_attrs();
    push_attr(&mut ba, "tts:ruby", copy_str("base"));
    push_text_elem(ops, "span", ba, s.text.as_str());
    let mut ca = no_attrs();
    push_attr(&mut ca, "tts:ruby", copy_str("textContainer"));
    push_start(ops, "span", ca);
    let ghost base = views(ops@);
    let mut i: usize = 0;
    assert(views(ops@) =~= base + ruby_texts_ops(rv, 0));
    while i < rs.len()
        invariant
            i <= rs.len(),
            rv == views(rs@),
            views(ops@) == base + ruby_texts_ops(rv, i as int),
        decreases rs.len() - i,
    {
        let r = &rs[i];
        assert(r@ == rv[i as int]);
        let mut ra = no_attrs();
        push_attr(&mut ra, "tts:ruby", copy_str("text"));
        push_attr(&mut ra, "begin", format_timestamp(r.start_time));
        push_attr(&mut ra, "end", format_timestamp(r.end_time));
        assert(attrs_v(ra@) =~= seq![("tts:ruby"@, "text"@)] + timing_attrs(r.start_time, r.end_time));
        push_text_elem(ops, "span", ra, r.text.as_str());
        assert(views(ops@) =~= base + ruby_texts_ops(rv, i + 1));
        i = i + 1;
    }
    push_end(ops, "span");
    push_end(ops, "span");
    assert(views(ops@) =~= views(old(ops)@) + ruby_ops(s@, rv));
}

/// Appends a syllable with an optional prefix and suffix.
fn write_syllable(ops: &mut Vec<XmlOp>, s: &Syllable, prefix: Option<&str>, suffix: Option<&str>)
    ensures
        views(final(ops)@) == views(old(ops)@) + syllable_ops(
            s@,
            match prefix {
                Some(p) => Some(p@),
                None => None,
            },
            match suffix {
                Some(p) => Some(p@),
                None => None,
            },
        ),
{
    if let Some(rs) = &s.ruby {
        write_ruby_container(ops, s, rs);
        return;
    }
    let mut a = no_attrs();
    push_attr(&mut a, "begin", format_timestamp(s.start_time));
    push_attr(&mut a, "end", format_timestamp(s.end_time));
    assert(attrs_v(a@) =~= timing_attrs(s.start_time, s.end_time));
    push_amll_attrs(&mut a, s);
    push_start(ops, "span", a);
    if let Some(p) = prefix {
        push_text(ops, p);
    }
    push_text(ops, s.text.as_str());
    if let Some(x) = suffix {
        push_text(ops, x);
    }
    push_end(ops, "span");
    assert(views(ops@) =~= views(old(ops)@) + syllable_ops(
        s@,
        match prefix {
            Some(p) => Some(p@),
            None => None,
        },
        match suffix {
            Some(p) => Some(p@),
            None => None,
        },
    ));
}

/// The events of a syllable of the main lyric: pretty-printed, the trailing space of a
/// syllable other than a ruby container goes into its span; otherwise it follows the span.
pub open spec fn main_syl_ops(s: SyllableV, format: bool) -> Seq<XmlOpV> {
    let space_in_span = format && trailing(s) && s.ruby is None;
    syllable_ops(
        s,
        None,
        if space_in_span {
            Some(" "@)
        } else {
            None
        },
    ) + if trailing(s) && !space_in_span {
        seq![text_v(" "@)]
    } else {
        Seq::empty()
    }
}

/// The events of the first `k` syllables of the main lyric.
pub open spec fn main_syls_ops(ws: Seq<SyllableV>, k: int, format: bool) -> Seq<XmlOpV>
    decreases k,
{
    if k <= 0 {
        Seq::empty()
    } else {
        main_syls_ops(ws, k - 1, format) + main_syl_ops(ws[k - 1], format)
    }
}

/// The events of the `i`-th syllable of a background vocal: the first opens the parenthesis
/// and the last closes it, outside a ruby container and inside a plain span; a ruby
/// container is always followed by its space, a plain span holds it when pretty-printed.
pub open spec fn bg_syl_ops(ws: Seq<SyllableV>, i: int, format: bool) -> Seq<XmlOpV> {
    let s = ws[i];
    let is_first = i == 0;
    let is_last = i == ws.len() - 1;
    if s.ruby is Some {
        (if is_first {
            seq![text_v("("@)]
        } else {
            Seq::empty()
        }) + syllable_ops(s, None, None) + (if is_last {
            seq![text_v(")"@)]
        } else {
            Seq::empty()
        }) + (if trailing(s) {
            seq![text_v(" "@)]
        } else {
            Seq::empty()
        })
    } else {
        let space_in_span = format && trailing(s);
        let suffix = if space_in_span {
            Some(
                (if is_last {
                    ")"@
                } else {
                    Seq::empty()
                }) + " "@,
            )
        } else if is_last {
            Some(")"@)
        } else {
            None
        };
        let prefix = if is_first {
            Some("("@)
        } else {
            None
        };
        syllable_ops(s, prefix, suffix) + if trailing(s) && !space_in_span {
            seq![text_v(" "@)]
        } else {
            Seq::empty()
        }
    }
}

/// The events of the first `k` syllables of a background vocal.
pub open spec fn bg_syls_ops(ws: Seq<SyllableV>, k: int, format: bool) -> Seq<XmlOpV>
    decreases k,
{
    if k <= 0 {
        Seq::empty()
    } else {
        bg_syls_ops(ws, k - 1, format) + bg_syl_ops(ws, k - 1, format)
    }
}

/// Appends a syllable of the main lyric.
fn write_main_syl(ops: &mut Vec<XmlOp>, s: &Syllable, format: bool)
    ensures
        views(final(ops)@) == views(old(ops)@) + main_syl_ops(s@, format),
{
    let tr = s.ends_with_space == Some(true);
    let space_in_span = format && tr && s.ruby.is_none();
    let suffix: Option<&str> = if space_in_span {
        Some(" ")
    } else {
        None
    };
    write_syllable(ops, s, None, suffix);
    if tr && !space_in_span {
        push_text(ops, " ");
    }
    assert(views(ops@) =~= views(old(ops)@) + main_syl_ops(s@, format));
}

/// Appends the syllables of the main lyric.
fn write_main_syls(ops: &mut Vec<XmlOp>, ws: &Vec<Syllable>, format: bool)
    ensures
        views(final(ops)@) == views(old(ops)@) + main_syls_ops(views(ws@), ws.len() as int, format),
{
    let ghost wv = views(ws@);
    let mut i: usize = 0;
    assert(views(ops@) =~= views(old(ops)@) + main_syls_ops(wv, 0, format));
    while i < ws.len()
        invariant
            i <= ws.len(),
            wv == views(ws@),
            views(ops@) == views(old(ops)@) + main_syls_ops(wv, i as int, format),
        decreases ws.len() - i,
    {
        assert(ws@[i as int]@ == wv[i as int]);
        write_main_syl(ops, &ws[i], format);
        assert(views(ops@) =~= views(old(ops)@) + main_syls_ops(wv, i + 1, format));
        i = i + 1;
    }
}

/// Appends the `i`-th syllable of a background vocal.
fn write_bg_syl(ops: &mut Vec<XmlOp>, ws: &Vec<Syllable>, i: usize, format: bool)
    requires
        i < ws.len(),
    ensures
        views(final(ops)@) == views(old(ops)@) + bg_syl_ops(views(ws@), i as int, format),
{
    let ghost wv = views(ws@);
    let s = &ws[i];
    assert(s@ == wv[i as int]);
    let is_first = i == 0;
    let is_last = i == ws.len() - 1;
    let tr = s.ends_with_space == Some(true);
    if s.ruby.is_some() {
        if is_first {
            push_text(ops, "(");
        }
        write_syllable(ops, s, None, None);
        if is_last {
            push_text(ops, ")");
        }
        if tr {
            push_text(ops, " ");
        }
    } else {
        let space_in_span = format && tr;
        let suffix: Option<&str> = if space_in_span {
            if is_last {
                Some(") ")
            } else {
                Some(" ")
            }
        } else if is_last {
            Some(")")
        } else {
            None
        };
        let prefix: Option<&str> = if is_first {
            Some("(")
        } else {
            None
        };
        proof {
            reveal_strlit(") ");
            reveal_strlit(")");
            reveal_strlit(" ");
            assert((")"@ + " "@) =~= ") "@);
            assert((Seq::<char>::empty() + " "@) =~= " "@);
        }
        write_syllable(ops, s, prefix, suffix);
        if tr && !space_in_span {
            push_text(ops, " ");
        }
    }
    assert(views(ops@) =~= views(old(ops)@) + bg_syl_ops(wv, i as int, format));
}

/// The inline spans of contents in role `role`, when they are written inline.
pub open spec fn inline_items_ops(o: Option<Seq<SubLyricContentV>>, role: Seq<char>, cfg: GeneratorConfig) -> Seq<XmlOpV> {
    match o {
        Some(cs) => if inline_worthy(cs, cfg) {
            inline_list_ops(cs, cs.len() as int, role)
        } else {
            Seq::empty()
        },
        None => Seq::empty(),
    }
}

/// The inline spans of the first `k` contents in role `role`.
pub open spec fn inline_list_ops(cs: Seq<SubLyricContentV>, k: int, role: Seq<char>) -> Seq<XmlOpV>
    decreases k,
{
    if k <= 0 {
        Seq::empty()
    } else {
        inline_list_ops(cs, k - 1, role) + text_elem(
            "span"@,
            seq![("ttm:role"@, role)] + lang_attrs(cs[k - 1].language),
            cs[k - 1].text,
        )
    }
}

/// The inline translations and transliterations: none under Apple Music's rules.
pub open spec fn inline_ops(
    trans: Option<Seq<SubLyricContentV>>,
    roms: Option<Seq<SubLyricContentV>>,
    cfg: GeneratorConfig,
) -> Seq<XmlOpV> {
    if cfg.use_apple_format_rules {
        Seq::empty()
    } else {
        inline_items_ops(trans, "x-translation"@, cfg) + inline_items_ops(roms, "x-roman"@, cfg)
    }
}

/// Appends the inline spans of contents in role `role`, when they are written inline.
fn write_inline_items(ops: &mut Vec<XmlOp>, o: &Option<Vec<SubLyricContent>>, role: &str, cfg: &GeneratorConfig)
    ensures
        views(final(ops)@) == views(old(ops)@) + inline_items_ops(opt_views(*o), role@, *cfg),
{
    match o {
        Some(cs) => {
            if inline_worthy_exec(cs, cfg) {
                let ghost cv = views(cs@);
                let mut i: usize = 0;
                assert(views(ops@) =~= views(old(ops)@) + inline_list_ops(cv, 0, role@));
                while i < cs.len()
                    invariant
                        i <= cs.len(),
                        cv == views(cs@),
                        views(ops@) == views(old(ops)@) + inline_list_ops(cv, i as int, role@),
                    decreases cs.len() - i,
                {
                    let c = &cs[i];
                    assert(c@ == cv[i as int]);
                    let mut a = no_attrs();
                    push_attr(&mut a, "ttm:role", copy_str(role));
                    if let Some(l) = &c.language {
                        push_attr(&mut a, "xml:lang", copy_str(l.as_str()));
                    }
                    assert(attrs_v(a@) =~= seq![("ttm:role"@, role@)] + lang_attrs(cv[i as int].language));
                    push_text_elem(ops, "span", a, c.text.as_str());
                    assert(views(ops@) =~= views(old(ops)@) + inline_list_ops(cv, i + 1, role@));
                    i = i + 1;
                }
            } else {
                assert(views(ops@) =~= views(old(ops)@) + inline_items_ops(opt_views(*o), role@, *cfg));
            }
        },
        None => {
            assert(views(ops@) =~= views(old(ops)@) + inline_items_ops(opt_views(*o), role@, *cfg));
        },
    }
}

/// Appends the inline translations and transliterations.
fn write_inline_subline(
    ops: &mut Vec<XmlOp>,
    trans: &Option<Vec<SubLyricContent>>,
    roms: &Option<Vec<SubLyricContent>>,
    cfg: &GeneratorConfig,
)
    ensures
        views(final(ops)@) == views(old(ops)@) + inline_ops(opt_views(*trans), opt_views(*roms), *cfg),
{
    if cfg.use_apple_format_rules {
        assert(views(ops@) =~= views(old(ops)@) + inline_ops(opt_views(*trans), opt_views(*roms), *cfg));
        return;
    }
    write_inline_items(ops, trans, "x-translation", cfg);
    write_inline_items(ops, roms, "x-roman", cfg);
    assert(views(ops@) =~= views(old(ops)@) + inline_ops(opt_views(*trans), opt_views(*roms), *cfg));
}

/// The attributes of a background vocal span: its role, and its timing unless under Apple
/// Music's rules.
pub open spec fn bg_attrs(b: BackgroundVocalV, cfg: GeneratorConfig) -> Seq<(Seq<char>, Seq<char>)> {
    seq![("ttm:role"@, "x-bg"@)] + if !cfg.use_apple_format_rules {
        timing_attrs(b.start_time, b.end_time)
    } else {
        Seq::empty()
    }
}

/// The inside of a background vocal span: its syllables, or its text in parentheses.
pub open spec fn bg_body_ops(b: BackgroundVocalV, format: bool) -> Seq<XmlOpV> {
    if b.words is Some && b.words->0.len() > 0 {
        bg_syls_ops(b.words->0, b.words->0.len() as int, format)
    } else if b.text.len() > 0 {
        seq![text_v("("@), text_v(b.text), text_v(")"@)]
    } else {
        Seq::empty()
    }
}

/// The inline contents, when they are written.
pub open spec fn opt_inline_ops(
    inline: bool,
    trans: Option<Seq<SubLyricContentV>>,
    roms: Option<Seq<SubLyricContentV>>,
    cfg: GeneratorConfig,
) -> Seq<XmlOpV> {
    if inline {
        inline_ops(trans, roms, cfg)
    } else {
        Seq::empty()
    }
}

/// A background vocal: an `x-bg` span (timed unless under Apple Music's rules) holding its
/// syllables, or its text in parentheses, then its inline contents.
pub open spec fn bg_ops(b: BackgroundVocalV, inline: bool, cfg: GeneratorConfig) -> Seq<XmlOpV> {
    seq![start_v("span"@, bg_attrs(b, cfg))] + bg_body_ops(b, cfg.format) + opt_inline_ops(
        inline,
        b.translations,
        b.romanizations,
        cfg,
    ) + seq![end_v("span"@)]
}

/// Appends the inside of a background vocal span.
fn write_bg_body(ops: &mut Vec<XmlOp>, b: &BackgroundVocal, format: bool)
    ensures
        views(final(ops)@) == views(old(ops)@) + bg_body_ops(b@, format),
{
    let has_words = match &b.words {
        Some(ws) => ws.len() > 0,
        None => false,
    };
    if has_words {
        if let Some(ws) = &b.words {
            let ghost wv = views(ws@);
            let mut i: usize = 0;
            assert(views(ops@) =~= views(old(ops)@) + bg_syls_ops(wv, 0, format));
            while i < ws.len()
                invariant
                    i <= ws.len(),
                    wv == views(ws@),
                    views(ops@) == views(old(ops)@) + bg_syls_ops(wv, i as int, format),
                decreases ws.len() - i,
            {
                write_bg_syl(ops, ws, i, format);
                assert(views(ops@) =~= views(old(ops)@) + bg_syls_ops(wv, i + 1, format));
                i = i + 1;
            }
        }
    } else if !b.text.as_str().is_empty() {
        push_text(ops, "(");
        push_text(ops, b.text.as_str());
        push_text(ops, ")");
        assert(views(ops@) =~= views(old(ops)@) + bg_body_ops(b@, format));
    } else {
        assert(views(ops@) =~= views(old(ops)@) + bg_body_ops(b@, format));
    }
}

/// Appends the inline contents, when they are written.
fn write_opt_inline(
    ops: &mut Vec<XmlOp>,
    inline: bool,
    trans: &Option<Vec<SubLyricContent>>,
    roms: &Option<Vec<SubLyricContent>>,
    cfg: &GeneratorConfig,
)
    ensures
        views(final(ops)@) == views(old(ops)@) + opt_inline_ops(inline, opt_views(*trans), opt_views(*roms), *cfg),
{
    if inline {
        write_inline_subline(ops, trans, roms, cfg);
    } else {
        assert(views(ops@) =~= views(old(ops)@) + opt_inline_ops(inline, opt_views(*trans), opt_views(*roms), *cfg));
    }
}

/// Appends a background vocal.
fn write_bg_vocal(ops: &mut Vec<XmlOp>, b: &BackgroundVocal, inline: bool, cfg: &GeneratorConfig)
    ensures
        views(final(ops)@) == views(old(ops)@) + bg_ops(b@, inline, *cfg),
{
    let mut a = no_attrs();
    push_attr(&mut a, "ttm:role", copy_str("x-bg"));
    if !cfg.use_apple_format_rules {
        push_attr(&mut a, "begin", format_timestamp(b.start_time));
        push_attr(&mut a, "end", format_timestamp(b.end_time));
    }
    assert(attrs_v(a@) =~= bg_attrs(b@, *cfg));
    push_start(ops, "span", a);
    write_bg_body(ops, b, cfg.format);
    write_opt_inline(ops, inline, &b.translations, &b.romanizations, cfg);
    push_end(ops, "span");
    assert(views(ops@) =~= views(old(ops)@) + bg_ops(b@, inline, *cfg));
}

/// Whether the background vocal is written before the main lyric: under Apple Music's rules,
/// when it starts before the first syllable.
pub open spec fn bg_first(l: LyricLineV, cfg: GeneratorConfig) -> bool {
    cfg.use_apple_format_rules && l.background_vocal is Some && l.words is Some && l.words->0.len() > 0
        && l.background_vocal->0.start_time < l.words->0[0].start_time
}

/// The text of a line, when not empty.
pub open spec fn line_text_ops(l: LyricLineV) -> Seq<XmlOpV> {
    if l.text.len() > 0 {
        seq![text_v(l.text)]
    } else {
        Seq::empty()
    }
}

/// The main lyric of a line: its syllables, or its text.
pub open spec fn main_body_ops(l: LyricLineV, format: bool) -> Seq<XmlOpV> {
    if l.words is Some && l.words->0.len() > 0 {
        main_syls_ops(l.words->0, l.words->0.len() as int, format)
    } else {
        line_text_ops(l)
    }
}

/// The background vocal of a line, when `cond` and it has one.
pub open spec fn opt_bg_ops(l: LyricLineV, cond: bool, inline: bool, cfg: GeneratorConfig) -> Seq<XmlOpV> {
    if cond && l.background_vocal is Some {
        bg_ops(l.background_vocal->0, inline, cfg)
    } else {
        Seq::empty()
    }
}

/// The spans of a line. Flattened to line timing, its text and its inline contents;
/// otherwise its syllables (or its text), its inline contents and its background vocal,
/// which comes first when [`bg_first`].
pub open spec fn line_spans_ops(l: LyricLineV, inline: bool, cfg: GeneratorConfig) -> Seq<XmlOpV> {
    let inl = opt_inline_ops(inline, l.translations, l.romanizations, cfg);
    if cfg.line_timing {
        line_text_ops(l) + inl
    } else {
        let first = bg_first(l, cfg);
        opt_bg_ops(l, first, inline, cfg) + main_body_ops(l, cfg.format) + inl + opt_bg_ops(
            l,
            !first,
            inline,
            cfg,
        )
    }
}

/// Appends the text of a line, when not empty.
fn write_line_text(ops: &mut Vec<XmlOp>, line: &LyricLine)
    ensures
        views(final(ops)@) == views(old(ops)@) + line_text_ops(line@),
{
    if !line.text.as_str().is_empty() {
        push_text(ops, line.text.as_str());
    }
    assert(views(ops@) =~= views(old(ops)@) + line_text_ops(line@));
}

/// Appends the main lyric of a line.
fn write_main_body(ops: &mut Vec<XmlOp>, line: &LyricLine, format: bool)
    ensures
        views(final(ops)@) == views(old(ops)@) + main_body_ops(line@, format),
{
    let has_words = match &line.words {
        Some(ws) => ws.len() > 0,
        None => false,
    };
    if has_words {
        if let Some(ws) = &line.words {
            write_main_syls(ops, ws, format);
        }
    } else {
        write_line_text(ops, line);
    }
}

/// Appends the background vocal of a line, when `cond` and it has one.
fn write_opt_bg(ops: &mut Vec<XmlOp>, line: &LyricLine, cond: bool, inline: bool, cfg: &GeneratorConfig)
    ensures
        views(final(ops)@) == views(old(ops)@) + opt_bg_ops(line@, cond, inline, *cfg),
{
    if cond {
        if let Some(bg) = &line.background_vocal {
            write_bg_vocal(ops, bg, inline, cfg);
            return;
        }
    }
    assert(views(ops@) =~= views(old(ops)@) + opt_bg_ops(line@, cond, inline, *cfg));
}

/// Appends the spans of a line that is not flattened to line timing.
fn write_timed_line_spans(ops: &mut Vec<XmlOp>, line: &LyricLine, inline: bool, cfg: &GeneratorConfig)
    requires
        !cfg.line_timing,
    ensures
        views(final(ops)@) == views(old(ops)@) + line_spans_ops(line@, inline, *cfg),
{
    let first = match (&line.background_vocal, &line.words) {
        (Some(bg), Some(ws)) => cfg.use_apple_format_rules && ws.len() > 0 && bg.start_time < ws[0].start_time,
        _ => false,
    };
    assert(first == bg_first(line@, *cfg));
    let ghost s0 = views(ops@);
    write_opt_bg(ops, line, first, inline, cfg);
    write_main_body(ops, line, cfg.format);
    write_opt_inline(ops, inline, &line.translations, &line.romanizations, cfg);
    write_opt_bg(ops, line, !first, inline, cfg);
    let ghost s4 = views(ops@);
    let ghost a = opt_bg_ops(line@, first, inline, *cfg);
    let ghost b = main_body_ops(line@, cfg.format);
    let ghost c = opt_inline_ops(inline, line@.translations, line@.romanizations, *cfg);
    let ghost d = opt_bg_ops(line@, !first, inline, *cfg);
    assert(s4 =~= s0 + (a + b + c + d));
}

/// Appends the spans of a line.
pub fn write_line_spans(ops: &mut Vec<XmlOp>, line: &LyricLine, inline: bool, cfg: &GeneratorConfig)
    ensures
        views(final(ops)@) == views(old(ops)@) + line_spans_ops(line@, inline, *cfg),
{
    if cfg.line_timing {
        write_line_text(ops, line);
        write_opt_inline(ops, inline, &line.translations, &line.romanizations, cfg);
        assert(views(ops@) =~= views(old(ops)@) + line_spans_ops(line@, inline, *cfg));
    } else {
        write_timed_line_spans(ops, line, inline, cfg);
    }
}

} // verus!
