//! Every generated document is well nested: each start tag is closed by an end tag of the
//! same name, in order.

use vstd::prelude::*;
use crate::generator::GeneratorConfig;
use crate::generator::body::{body_ops, chunk_end, div_attrs, line_ops, lines_ops, sections_ops};
use crate::generator::head::{
    agent_ops, agents_list_ops, agents_ops, amll_metas_ops, empty_v, head_ops, itunes_ops,
    meta_ops, opt_meta_ops, person_attrs, persons_ops, platform_metas_ops, raw_metas_ops, songwriter_list_ops,
    line_agent_ids, has_songwriters,
};
use crate::generator::ops::{end_v, start_v, text_elem, text_v};
use crate::generator::spec_document_ops;
use crate::generator::span::{
    bg_body_ops, bg_first, bg_ops, bg_syl_ops, bg_syls_ops, inline_items_ops, inline_list_ops,
    line_spans_ops, line_text_ops, main_body_ops, main_syl_ops, main_syls_ops, opt_bg_ops, opt_inline_ops, opt_text,
    ruby_texts_ops, syllable_ops,
};
use crate::generator::sub_lyric::{
    content_ops, entries_langs, entries_text_ops, entry_text_ops, find_lang, head_syl_ops, head_syl_text, head_syls_ops,
    items_ops, lang_attrs, spec_item_tag, spec_sub_lyrics_ops, sub_entries, timing_attrs, trailing, SubEntry,
    SubLyricKind,
};
use crate::generator::writer::XmlOpV;
use crate::amll::to_amll::platform_key;
use crate::model::{
    AgentV, BackgroundVocalV, LyricLineV, PlatformId, RubyTagV, SubLyricContentV, SyllableV, TTMLMetadataV, TTMLResultV,
};
use crate::parser::head::or_empty;

verus! {

/// The open tags after one more event, or `None` when an end tag closes no open tag of its
/// name.
pub open spec fn nest_step(st: Seq<Seq<char>>, op: XmlOpV) -> Option<Seq<Seq<char>>> {
    match op {
        XmlOpV::Start { name, .. } => Some(st.push(name)),
        XmlOpV::End { name } => if st.len() > 0 && st.last() == name {
            Some(st.drop_last())
        } else {
            None
        },
        _ => Some(st),
    }
}

/// The open tags after the events `ops`, starting with the open tags `st`.
pub open spec fn nest(ops: Seq<XmlOpV>, st: Seq<Seq<char>>) -> Option<Seq<Seq<char>>>
    decreases ops.len(),
{
    if ops.len() == 0 {
        Some(st)
    } else {
        match nest(ops.drop_last(), st) {
            None => None,
            Some(s) => nest_step(s, ops.last()),
        }
    }
}

/// Whether every start tag of the events is closed by an end tag of the same name, in order,
/// and no end tag closes anything else.
pub open spec fn well_nested(ops: Seq<XmlOpV>) -> bool {
    nest(ops, Seq::empty()) == Some(Seq::<Seq<char>>::empty())
}

proof fn lemma_nest_concat(a: Seq<XmlOpV>, b: Seq<XmlOpV>, st: Seq<Seq<char>>)
    ensures
        nest(a + b, st) == match nest(a, st) {
            None => None,
            Some(s) => nest(b, s),
        },
    decreases b.len(),
{
    if b.len() == 0 {
        assert(a + b =~= a);
    } else {
        lemma_nest_concat(a, b.drop_last(), st);
        assert((a + b).drop_last() =~= a + b.drop_last());
        assert((a + b).last() == b.last());
    }
}

proof fn lemma_nest_shift(a: Seq<XmlOpV>, t: Seq<Seq<char>>, base: Seq<Seq<char>>)
    requires
        nest(a, t) is Some,
    ensures
        nest(a, base + t) == Some(base + nest(a, t)->0),
    decreases a.len(),
{
    if a.len() > 0 {
        lemma_nest_shift(a.drop_last(), t, base);
        let s = nest(a.drop_last(), t)->0;
        match a.last() {
            XmlOpV::Start { name, .. } => {
                assert((base + s).push(name) =~= base + s.push(name));
            },
            XmlOpV::End { name } => {
                assert((base + s).last() == s.last());
                assert((base + s).drop_last() =~= base + s.drop_last());
            },
            _ => {},
        }
    } else {
        assert(base + t =~= base + t);
    }
}

proof fn lemma_nested_concat(a: Seq<XmlOpV>, b: Seq<XmlOpV>)
    requires
        well_nested(a),
        well_nested(b),
    ensures
        well_nested(a + b),
{
    lemma_nest_concat(a, b, Seq::empty());
}

proof fn lemma_nested_concat3(a: Seq<XmlOpV>, b: Seq<XmlOpV>, c: Seq<XmlOpV>)
    requires
        well_nested(a),
        well_nested(b),
        well_nested(c),
    ensures
        well_nested(a + b + c),
{
    lemma_nested_concat(a, b);
    lemma_nested_concat(a + b, c);
}

proof fn lemma_nested_empty()
    ensures
        well_nested(Seq::<XmlOpV>::empty()),
{
}

proof fn lemma_nested_leaf(op: XmlOpV)
    requires
        !(op is Start),
        !(op is End),
    ensures
        well_nested(seq![op]),
{
    assert(seq![op].drop_last() =~= Seq::<XmlOpV>::empty());
    assert(nest(seq![op].drop_last(), Seq::empty()) == Some(Seq::<Seq<char>>::empty()));
}

proof fn lemma_nested_text(t: Seq<char>)
    ensures
        well_nested(seq![text_v(t)]),
{
    lemma_nested_leaf(text_v(t));
}

proof fn lemma_nested_wrap(name: Seq<char>, attrs: Seq<(Seq<char>, Seq<char>)>, x: Seq<XmlOpV>)
    requires
        well_nested(x),
    ensures
        well_nested(seq![start_v(name, attrs)] + x + seq![end_v(name)]),
{
    let e = Seq::<Seq<char>>::empty();
    let s = seq![start_v(name, attrs)];
    assert(s.drop_last() =~= Seq::<XmlOpV>::empty());
    assert(nest(s.drop_last(), e) == Some(e));
    assert(nest(s, e) == Some(e.push(name)));
    assert(e.push(name) =~= seq![name] + e);
    lemma_nest_shift(x, e, seq![name]);
    lemma_nest_concat(s, x, e);
    let z = seq![end_v(name)];
    assert(z.drop_last() =~= Seq::<XmlOpV>::empty());
    assert(seq![name] + e =~= seq![name]);
    assert(seq![name].drop_last() =~= e);
    assert(nest(z.drop_last(), seq![name]) == Some(seq![name]));
    assert(nest(z, seq![name]) == Some(e));
    lemma_nest_concat(s + x, z, e);
}

proof fn lemma_nested_text_elem(name: Seq<char>, attrs: Seq<(Seq<char>, Seq<char>)>, t: Seq<char>)
    ensures
        well_nested(text_elem(name, attrs, t)),
{
    lemma_nested_text(t);
    lemma_nested_wrap(name, attrs, seq![text_v(t)]);
    assert(seq![start_v(name, attrs)] + seq![text_v(t)] + seq![end_v(name)] =~= text_elem(name, attrs, t));
}

proof fn lemma_nested_wrap_op(op: XmlOpV, x: Seq<XmlOpV>)
    requires
        op is Start,
        well_nested(x),
    ensures
        well_nested(seq![op] + x + seq![end_v(op->Start_name)]),
{
    lemma_nested_wrap(op->Start_name, op->Start_attrs, x);
    assert(op == start_v(op->Start_name, op->Start_attrs));
}

proof fn lemma_nested_opt_text(o: Option<Seq<char>>)
    ensures
        well_nested(opt_text(o)),
{
    if let Some(t) = o {
        lemma_nested_text(t);
    }
}

proof fn lemma_nested_ruby_texts(rs: Seq<RubyTagV>, k: int)
    ensures
        well_nested(ruby_texts_ops(rs, k)),
    decreases k,
{
    if k > 0 {
        lemma_nested_ruby_texts(rs, k - 1);
        let e = text_elem(
            "span"@,
            seq![("tts:ruby"@, "text"@)] + timing_attrs(rs[k - 1].start_time, rs[k - 1].end_time),
            rs[k - 1].text,
        );
        lemma_nested_text_elem(
            "span"@,
            seq![("tts:ruby"@, "text"@)] + timing_attrs(rs[k - 1].start_time, rs[k - 1].end_time),
            rs[k - 1].text,
        );
        lemma_nested_concat(ruby_texts_ops(rs, k - 1), e);
    }
}

proof fn lemma_nested_syllable(s: SyllableV, prefix: Option<Seq<char>>, suffix: Option<Seq<char>>)
    ensures
        well_nested(syllable_ops(s, prefix, suffix)),
{
    let ops = syllable_ops(s, prefix, suffix);
    match s.ruby {
        Some(rs) => {
            let tc = start_v("span"@, seq![("tts:ruby"@, "textContainer"@)]);
            let texts = ruby_texts_ops(rs, rs.len() as int);
            lemma_nested_ruby_texts(rs, rs.len() as int);
            lemma_nested_wrap_op(tc, texts);
            let inner = seq![tc] + texts + seq![end_v("span"@)];
            let base = text_elem("span"@, seq![("tts:ruby"@, "base"@)], s.text);
            lemma_nested_text_elem("span"@, seq![("tts:ruby"@, "base"@)], s.text);
            lemma_nested_concat(base, inner);
            let c = ops[0];
            lemma_nested_wrap_op(c, base + inner);
            assert(ops =~= seq![c] + (base + inner) + seq![end_v("span"@)]);
        },
        None => {
            lemma_nested_opt_text(prefix);
            lemma_nested_opt_text(suffix);
            lemma_nested_text(s.text);
            let body = opt_text(prefix) + seq![text_v(s.text)] + opt_text(suffix);
            lemma_nested_concat3(opt_text(prefix), seq![text_v(s.text)], opt_text(suffix));
            let c = ops[0];
            lemma_nested_wrap_op(c, body);
            assert(ops =~= seq![c] + body + seq![end_v("span"@)]);
        },
    }
}

proof fn lemma_nested_main_syls(ws: Seq<SyllableV>, k: int, format: bool)
    ensures
        well_nested(main_syls_ops(ws, k, format)),
    decreases k,
{
    if k > 0 {
        lemma_nested_main_syls(ws, k - 1, format);
        let s = ws[k - 1];
        let space_in_span = format && trailing(s) && s.ruby is None;
        lemma_nested_syllable(
            s,
            None,
            if space_in_span {
                Some(" "@)
            } else {
                None
            },
        );
        lemma_nested_text(" "@);
        lemma_nested_empty();
        lemma_nested_concat(
            syllable_ops(
                s,
                None,
                if space_in_span {
                    Some(" "@)
                } else {
                    None
                },
            ),
            if trailing(s) && !space_in_span {
                seq![text_v(" "@)]
            } else {
                Seq::empty()
            },
        );
        lemma_nested_concat(main_syls_ops(ws, k - 1, format), main_syl_ops(s, format));
    }
}

proof fn lemma_nested_bg_syl(ws: Seq<SyllableV>, i: int, format: bool)
    ensures
        well_nested(bg_syl_ops(ws, i, format)),
{
    let s = ws[i];
    let is_first = i == 0;
    let is_last = i == ws.len() - 1;
    lemma_nested_text("("@);
    lemma_nested_text(")"@);
    lemma_nested_text(" "@);
    lemma_nested_empty();
    if s.ruby is Some {
        let p: Seq<XmlOpV> = if is_first {
            seq![text_v("("@)]
        } else {
            Seq::empty()
        };
        let q: Seq<XmlOpV> = if is_last {
            seq![text_v(")"@)]
        } else {
            Seq::empty()
        };
        let r: Seq<XmlOpV> = if trailing(s) {
            seq![text_v(" "@)]
        } else {
            Seq::empty()
        };
        lemma_nested_syllable(s, None, None);
        lemma_nested_concat3(p, syllable_ops(s, None, None), q);
        lemma_nested_concat(p + syllable_ops(s, None, None) + q, r);
    } else {
        let space_in_span = format && trailing(s);
        let suffix = if space_in_span {
            Some(
                (if is_last {
                    ")"@
                } else {
                    Seq::empty()
                }) + " "@,
            )
        } else if is_last {
            Some(")"@)
        } else {
            None
        };
        let prefix = if is_first {
            Some("("@)
        } else {
            None
        };
        let r: Seq<XmlOpV> = if trailing(s) && !space_in_span {
            seq![text_v(" "@)]
        } else {
            Seq::empty()
        };
        lemma_nested_syllable(s, prefix, suffix);
        lemma_nested_concat(syllable_ops(s, prefix, suffix), r);
    }
}

proof fn lemma_nested_bg_syls(ws: Seq<SyllableV>, k: int, format: bool)
    ensures
        well_nested(bg_syls_ops(ws, k, format)),
    decreases k,
{
    if k > 0 {
        lemma_nested_bg_syls(ws, k - 1, format);
        lemma_nested_bg_syl(ws, k - 1, format);
        lemma_nested_concat(bg_syls_ops(ws, k - 1, format), bg_syl_ops(ws, k - 1, format));
    }
}

proof fn lemma_nested_inline_list(cs: Seq<SubLyricContentV>, k: int, role: Seq<char>)
    ensures
        well_nested(inline_list_ops(cs, k, role)),
    decreases k,
{
    if k > 0 {
        lemma_nested_inline_list(cs, k - 1, role);
        lemma_nested_text_elem("span"@, seq![("ttm:role"@, role)] + lang_attrs(cs[k - 1].language), cs[k - 1].text);
        lemma_nested_concat(
            inline_list_ops(cs, k - 1, role),
            text_elem("span"@, seq![("ttm:role"@, role)] + lang_attrs(cs[k - 1].language), cs[k - 1].text),
        );
    }
}

proof fn lemma_nested_inline_items(o: Option<Seq<SubLyricContentV>>, role: Seq<char>, cfg: GeneratorConfig)
    ensures
        well_nested(inline_items_ops(o, role, cfg)),
{
    if let Some(cs) = o {
        lemma_nested_inline_list(cs, cs.len() as int, role);
    }
}

proof fn lemma_nested_opt_inline(
    inline: bool,
    trans: Option<Seq<SubLyricContentV>>,
    roms: Option<Seq<SubLyricContentV>>,
    cfg: GeneratorConfig,
)
    ensures
        well_nested(opt_inline_ops(inline, trans, roms, cfg)),
{
    lemma_nested_inline_items(trans, "x-translation"@, cfg);
    lemma_nested_inline_items(roms, "x-roman"@, cfg);
    lemma_nested_concat(inline_items_ops(trans, "x-translation"@, cfg), inline_items_ops(roms, "x-roman"@, cfg));
}

proof fn lemma_nested_bg(b: BackgroundVocalV, inline: bool, cfg: GeneratorConfig)
    ensures
        well_nested(bg_ops(b, inline, cfg)),
{
    let body = bg_body_ops(b, cfg.format);
    assert(well_nested(body)) by {
        if b.words is Some && b.words->0.len() > 0 {
            lemma_nested_bg_syls(b.words->0, b.words->0.len() as int, cfg.format);
        } else if b.text.len() > 0 {
            lemma_nested_text("("@);
            lemma_nested_text(b.text);
            lemma_nested_text(")"@);
            lemma_nested_concat3(seq![text_v("("@)], seq![text_v(b.text)], seq![text_v(")"@)]);
            assert(body =~= seq![text_v("("@)] + seq![text_v(b.text)] + seq![text_v(")"@)]);
        }
    }
    let inl = opt_inline_ops(inline, b.translations, b.romanizations, cfg);
    lemma_nested_opt_inline(inline, b.translations, b.romanizations, cfg);
    lemma_nested_concat(body, inl);
    let ops = bg_ops(b, inline, cfg);
    let c = ops[0];
    lemma_nested_wrap_op(c, body + inl);
    assert(ops =~= seq![c] + (body + inl) + seq![end_v("span"@)]);
}

proof fn lemma_nested_line_spans(l: LyricLineV, inline: bool, cfg: GeneratorConfig)
    ensures
        well_nested(line_spans_ops(l, inline, cfg)),
{
    let inl = opt_inline_ops(inline, l.translations, l.romanizations, cfg);
    lemma_nested_opt_inline(inline, l.translations, l.romanizations, cfg);
    assert(well_nested(line_text_ops(l))) by {
        if l.text.len() > 0 {
            lemma_nested_text(l.text);
        }
    }
    if cfg.line_timing {
        lemma_nested_concat(line_text_ops(l), inl);
    } else {
        let first = bg_first(l, cfg);
        assert(well_nested(main_body_ops(l, cfg.format))) by {
            if l.words is Some && l.words->0.len() > 0 {
                lemma_nested_main_syls(l.words->0, l.words->0.len() as int, cfg.format);
            }
        }
        assert(well_nested(opt_bg_ops(l, first, inline, cfg))) by {
            if first && l.background_vocal is Some {
                lemma_nested_bg(l.background_vocal->0, inline, cfg);
            }
        }
        assert(well_nested(opt_bg_ops(l, !first, inline, cfg))) by {
            if !first && l.background_vocal is Some {
                lemma_nested_bg(l.background_vocal->0, inline, cfg);
            }
        }
        lemma_nested_concat3(opt_bg_ops(l, first, inline, cfg), main_body_ops(l, cfg.format), inl);
        lemma_nested_concat(
            opt_bg_ops(l, first, inline, cfg) + main_body_ops(l, cfg.format) + inl,
            opt_bg_ops(l, !first, inline, cfg),
        );
    }
}

proof fn lemma_nested_head_syls(ws: Seq<SyllableV>, k: int, is_bg: bool, format: bool)
    ensures
        well_nested(head_syls_ops(ws, k, is_bg, format)),
    decreases k,
{
    if k > 0 {
        lemma_nested_head_syls(ws, k - 1, is_bg, format);
        let i = k - 1;
        let e = text_elem("span"@, timing_attrs(ws[i].start_time, ws[i].end_time), head_syl_text(ws, i, is_bg, format));
        lemma_nested_text_elem("span"@, timing_attrs(ws[i].start_time, ws[i].end_time), head_syl_text(ws, i, is_bg, format));
        lemma_nested_text(" "@);
        lemma_nested_empty();
        let r: Seq<XmlOpV> = if trailing(ws[i]) && !format {
            seq![text_v(" "@)]
        } else {
            Seq::empty()
        };
        lemma_nested_concat(e, r);
        assert(head_syl_ops(ws, i, is_bg, format) == e + r);
        lemma_nested_concat(head_syls_ops(ws, k - 1, is_bg, format), head_syl_ops(ws, i, is_bg, format));
    }
}

proof fn lemma_nested_content(c: SubLyricContentV, is_bg: bool, cfg: GeneratorConfig)
    ensures
        well_nested(content_ops(c, is_bg, cfg)),
{
    if c.words is Some && !cfg.line_timing {
        lemma_nested_head_syls(c.words->0, c.words->0.len() as int, is_bg, cfg.format);
    } else if is_bg {
        lemma_nested_text("("@);
        lemma_nested_text(c.text);
        lemma_nested_text(")"@);
        lemma_nested_concat3(seq![text_v("("@)], seq![text_v(c.text)], seq![text_v(")"@)]);
        assert(content_ops(c, is_bg, cfg) =~= seq![text_v("("@)] + seq![text_v(c.text)] + seq![text_v(")"@)]);
    } else {
        lemma_nested_text(c.text);
    }
}

proof fn lemma_nested_entry_text(e: SubEntry, lang: Option<Seq<char>>, cfg: GeneratorConfig)
    ensures
        well_nested(entry_text_ops(e, lang, cfg)),
{
    let m = find_lang(e.main, lang);
    let b = match e.bg {
        Some(bs) => find_lang(bs, lang),
        None => None,
    };
    if !(m is None && b is None) {
        let mo: Seq<XmlOpV> = match m {
            Some(c) => content_ops(c, false, cfg),
            None => Seq::empty(),
        };
        let bo: Seq<XmlOpV> = match b {
            Some(c) => seq![start_v("span"@, seq![("ttm:role"@, "x-bg"@)])] + content_ops(c, true, cfg) + seq![
                end_v("span"@),
            ],
            None => Seq::empty(),
        };
        assert(well_nested(mo)) by {
            if let Some(c) = m {
                lemma_nested_content(c, false, cfg);
            }
        }
        assert(well_nested(bo)) by {
            if let Some(c) = b {
                lemma_nested_content(c, true, cfg);
                lemma_nested_wrap("span"@, seq![("ttm:role"@, "x-bg"@)], content_ops(c, true, cfg));
            }
        }
        lemma_nested_concat(mo, bo);
        lemma_nested_wrap("text"@, seq![("for"@, e.id)], mo + bo);
        assert(entry_text_ops(e, lang, cfg) =~= seq![start_v("text"@, seq![("for"@, e.id)])] + (mo + bo) + seq![
            end_v("text"@),
        ]);
    }
}

proof fn lemma_nested_entries_text(es: Seq<SubEntry>, k: int, lang: Option<Seq<char>>, cfg: GeneratorConfig)
    ensures
        well_nested(entries_text_ops(es, k, lang, cfg)),
    decreases k,
{
    if k > 0 {
        lemma_nested_entries_text(es, k - 1, lang, cfg);
        lemma_nested_entry_text(es[k - 1], lang, cfg);
        lemma_nested_concat(entries_text_ops(es, k - 1, lang, cfg), entry_text_ops(es[k - 1], lang, cfg));
    }
}

proof fn lemma_nested_items(
    langs: Seq<Option<Seq<char>>>,
    k: int,
    es: Seq<SubEntry>,
    kind: SubLyricKind,
    cfg: GeneratorConfig,
)
    ensures
        well_nested(items_ops(langs, k, es, kind, cfg)),
    decreases k,
{
    if k > 0 {
        lemma_nested_items(langs, k - 1, es, kind, cfg);
        let body = entries_text_ops(es, es.len() as int, langs[k - 1], cfg);
        lemma_nested_entries_text(es, es.len() as int, langs[k - 1], cfg);
        let w = seq![start_v(spec_item_tag(kind), lang_attrs(langs[k - 1]))] + body + seq![end_v(spec_item_tag(kind))];
        lemma_nested_wrap(spec_item_tag(kind), lang_attrs(langs[k - 1]), body);
        lemma_nested_concat(items_ops(langs, k - 1, es, kind, cfg), w);
        assert(items_ops(langs, k, es, kind, cfg) =~= items_ops(langs, k - 1, es, kind, cfg) + w);
    }
}

proof fn lemma_nested_sub_lyrics(ls: Seq<LyricLineV>, kind: SubLyricKind, cfg: GeneratorConfig)
    ensures
        well_nested(spec_sub_lyrics_ops(ls, kind, cfg)),
{
    let es = sub_entries(ls, kind, cfg);
    if es.len() > 0 {
        let langs = entries_langs(es);
        lemma_nested_items(langs, langs.len() as int, es, kind, cfg);
        let ops = spec_sub_lyrics_ops(ls, kind, cfg);
        lemma_nested_wrap_op(ops[0], items_ops(langs, langs.len() as int, es, kind, cfg));
        assert(ops =~= seq![ops[0]] + items_ops(langs, langs.len() as int, es, kind, cfg) + seq![
            end_v(ops[0]->Start_name),
        ]);
    }
}

proof fn lemma_nested_empty_elem(name: Seq<char>, attrs: Seq<(Seq<char>, Seq<char>)>)
    ensures
        well_nested(seq![empty_v(name, attrs)]),
{
    lemma_nested_leaf(empty_v(name, attrs));
}

proof fn lemma_nested_agent(a: AgentV)
    ensures
        well_nested(agent_ops(a)),
{
    let ops = agent_ops(a);
    match a.name {
        Some(n) => {
            lemma_nested_text_elem("ttm:name"@, Seq::empty(), n);
            lemma_nested_wrap_op(ops[0], text_elem("ttm:name"@, Seq::empty(), n));
            assert(ops =~= seq![ops[0]] + text_elem("ttm:name"@, Seq::empty(), n) + seq![end_v(ops[0]->Start_name)]);
        },
        None => {
            lemma_nested_leaf(ops[0]);
            assert(ops =~= seq![ops[0]]);
        },
    }
}

proof fn lemma_nested_agents_list(es: Seq<(Seq<char>, AgentV)>, k: int)
    ensures
        well_nested(agents_list_ops(es, k)),
    decreases k,
{
    if k > 0 {
        lemma_nested_agents_list(es, k - 1);
        lemma_nested_agent(es[k - 1].1);
        lemma_nested_concat(agents_list_ops(es, k - 1), agent_ops(es[k - 1].1));
    }
}

proof fn lemma_nested_persons(ids: Seq<Seq<char>>, k: int)
    ensures
        well_nested(persons_ops(ids, k)),
    decreases k,
{
    if k > 0 {
        lemma_nested_persons(ids, k - 1);
        lemma_nested_empty_elem("ttm:agent"@, person_attrs(ids[k - 1]));
        lemma_nested_concat(persons_ops(ids, k - 1), seq![empty_v("ttm:agent"@, person_attrs(ids[k - 1]))]);
    }
}

proof fn lemma_nested_agents(m: TTMLMetadataV, ls: Seq<LyricLineV>)
    ensures
        well_nested(agents_ops(m, ls)),
{
    match m.agents {
        Some(es) => lemma_nested_agents_list(es, es.len() as int),
        None => {
            let ids = line_agent_ids(ls);
            lemma_nested_empty_elem("ttm:agent"@, person_attrs("v1"@));
            lemma_nested_persons(ids, ids.len() as int);
        },
    }
}

proof fn lemma_nested_metas(key: Seq<char>, vals: Seq<Seq<char>>, k: int)
    ensures
        well_nested(meta_ops(key, vals, k)),
    decreases k,
{
    if k > 0 {
        lemma_nested_metas(key, vals, k - 1);
        lemma_nested_empty_elem("amll:meta"@, seq![("key"@, key), ("value"@, vals[k - 1])]);
        lemma_nested_concat(
            meta_ops(key, vals, k - 1),
            seq![empty_v("amll:meta"@, seq![("key"@, key), ("value"@, vals[k - 1])])],
        );
    }
}

proof fn lemma_nested_opt_metas(key: Seq<char>, o: Option<Seq<Seq<char>>>)
    ensures
        well_nested(opt_meta_ops(key, o)),
{
    if let Some(v) = o {
        lemma_nested_metas(key, v, v.len() as int);
    }
}

proof fn lemma_nested_platform_metas(es: Seq<(PlatformId, Seq<Seq<char>>)>, k: int)
    ensures
        well_nested(platform_metas_ops(es, k)),
    decreases k,
{
    if k > 0 {
        lemma_nested_platform_metas(es, k - 1);
        lemma_nested_metas(platform_key(es[k - 1].0), es[k - 1].1, es[k - 1].1.len() as int);
        lemma_nested_concat(
            platform_metas_ops(es, k - 1),
            meta_ops(platform_key(es[k - 1].0), es[k - 1].1, es[k - 1].1.len() as int),
        );
    }
}

proof fn lemma_nested_raw_metas(es: Seq<(Seq<char>, Seq<Seq<char>>)>, k: int)
    ensures
        well_nested(raw_metas_ops(es, k)),
    decreases k,
{
    if k > 0 {
        lemma_nested_raw_metas(es, k - 1);
        lemma_nested_metas(es[k - 1].0, es[k - 1].1, es[k - 1].1.len() as int);
        lemma_nested_concat(raw_metas_ops(es, k - 1), meta_ops(es[k - 1].0, es[k - 1].1, es[k - 1].1.len() as int));
    }
}

proof fn lemma_nested_amll_metas(m: TTMLMetadataV)
    ensures
        well_nested(amll_metas_ops(m)),
{
    let pe = or_empty(m.platform_ids);
    let re = or_empty(m.raw_properties);
    let a = opt_meta_ops("musicName"@, m.title);
    let b = opt_meta_ops("artists"@, m.artist);
    let c = opt_meta_ops("album"@, m.album);
    let d = opt_meta_ops("isrc"@, m.isrc);
    let e = platform_metas_ops(pe, pe.len() as int);
    let f = opt_meta_ops("ttmlAuthorGithub"@, m.author_ids);
    let g = opt_meta_ops("ttmlAuthorGithubLogin"@, m.author_names);
    let h = raw_metas_ops(re, re.len() as int);
    lemma_nested_opt_metas("musicName"@, m.title);
    lemma_nested_opt_metas("artists"@, m.artist);
    lemma_nested_opt_metas("album"@, m.album);
    lemma_nested_opt_metas("isrc"@, m.isrc);
    lemma_nested_platform_metas(pe, pe.len() as int);
    lemma_nested_opt_metas("ttmlAuthorGithub"@, m.author_ids);
    lemma_nested_opt_metas("ttmlAuthorGithubLogin"@, m.author_names);
    lemma_nested_raw_metas(re, re.len() as int);
    lemma_nested_concat3(a, b, c);
    lemma_nested_concat3(a + b + c, d, e);
    lemma_nested_concat3(a + b + c + d + e, f, g);
    lemma_nested_concat(a + b + c + d + e + f + g, h);
}

proof fn lemma_nested_songwriters(sw: Seq<Seq<char>>, k: int)
    ensures
        well_nested(songwriter_list_ops(sw, k)),
    decreases k,
{
    if k > 0 {
        lemma_nested_songwriters(sw, k - 1);
        lemma_nested_text_elem("songwriter"@, Seq::empty(), sw[k - 1]);
        lemma_nested_concat(songwriter_list_ops(sw, k - 1), text_elem("songwriter"@, Seq::empty(), sw[k - 1]));
    }
}

proof fn lemma_nested_itunes(m: TTMLMetadataV, ls: Seq<LyricLineV>, cfg: GeneratorConfig)
    ensures
        well_nested(itunes_ops(m, ls, cfg)),
{
    let ops = itunes_ops(m, ls, cfg);
    if ops.len() > 0 {
        let t = spec_sub_lyrics_ops(ls, SubLyricKind::Translation, cfg);
        let r = spec_sub_lyrics_ops(ls, SubLyricKind::Transliteration, cfg);
        let sw: Seq<XmlOpV> = if has_songwriters(m) {
            seq![start_v("songwriters"@, Seq::empty())] + songwriter_list_ops(
                m.songwriters->0,
                m.songwriters->0.len() as int,
            ) + seq![end_v("songwriters"@)]
        } else {
            Seq::empty()
        };
        lemma_nested_sub_lyrics(ls, SubLyricKind::Translation, cfg);
        lemma_nested_sub_lyrics(ls, SubLyricKind::Transliteration, cfg);
        assert(well_nested(sw)) by {
            if has_songwriters(m) {
                lemma_nested_songwriters(m.songwriters->0, m.songwriters->0.len() as int);
                lemma_nested_wrap(
                    "songwriters"@,
                    Seq::empty(),
                    songwriter_list_ops(m.songwriters->0, m.songwriters->0.len() as int),
                );
            }
        }
        lemma_nested_concat3(t, r, sw);
        lemma_nested_wrap_op(ops[0], t + r + sw);
        assert(ops =~= seq![ops[0]] + (t + r + sw) + seq![end_v(ops[0]->Start_name)]);
    }
}

proof fn lemma_nested_head(m: TTMLMetadataV, ls: Seq<LyricLineV>, cfg: GeneratorConfig)
    ensures
        well_nested(head_ops(m, ls, cfg)),
{
    let a = agents_ops(m, ls);
    let b = amll_metas_ops(m);
    let c = itunes_ops(m, ls, cfg);
    lemma_nested_agents(m, ls);
    lemma_nested_amll_metas(m);
    lemma_nested_itunes(m, ls, cfg);
    lemma_nested_concat3(a, b, c);
    lemma_nested_wrap("metadata"@, Seq::empty(), a + b + c);
    let md = seq![start_v("metadata"@, Seq::empty())] + (a + b + c) + seq![end_v("metadata"@)];
    lemma_nested_wrap("head"@, Seq::empty(), md);
    assert(head_ops(m, ls, cfg) =~= seq![start_v("head"@, Seq::empty())] + md + seq![end_v("head"@)]);
}

proof fn lemma_nested_line(l: LyricLineV, cfg: GeneratorConfig, all_id: bool, index: nat)
    ensures
        well_nested(line_ops(l, cfg, all_id, index)),
{
    let ops = line_ops(l, cfg, all_id, index);
    let inline = crate::generator::sub_lyric::spec_has_inline_sub_lyrics(l, cfg);
    lemma_nested_line_spans(l, inline, cfg);
    lemma_nested_wrap_op(ops[0], line_spans_ops(l, inline, cfg));
    assert(ops =~= seq![ops[0]] + line_spans_ops(l, inline, cfg) + seq![end_v(ops[0]->Start_name)]);
}

proof fn lemma_nested_lines(ls: Seq<LyricLineV>, from: int, to: int, cfg: GeneratorConfig, all_id: bool, index: nat)
    ensures
        well_nested(lines_ops(ls, from, to, cfg, all_id, index)),
    decreases to - from,
{
    if from < to {
        lemma_nested_lines(ls, from, to - 1, cfg, all_id, index);
        lemma_nested_line(ls[to - 1], cfg, all_id, (index + (to - 1 - from)) as nat);
        lemma_nested_concat(
            lines_ops(ls, from, to - 1, cfg, all_id, index),
            line_ops(ls[to - 1], cfg, all_id, (index + (to - 1 - from)) as nat),
        );
    }
}

proof fn lemma_nested_sections(ls: Seq<LyricLineV>, i: int, cfg: GeneratorConfig, all_id: bool)
    ensures
        well_nested(sections_ops(ls, i, cfg, all_id)),
    decreases ls.len() - i,
{
    if 0 <= i < ls.len() {
        let e = chunk_end(ls, i + 1);
        if i < e <= ls.len() {
            let body = lines_ops(ls, i, e, cfg, all_id, (i + 1) as nat);
            lemma_nested_lines(ls, i, e, cfg, all_id, (i + 1) as nat);
            lemma_nested_wrap("div"@, div_attrs(ls, i, e, cfg), body);
            lemma_nested_sections(ls, e, cfg, all_id);
            lemma_nested_concat(
                seq![start_v("div"@, div_attrs(ls, i, e, cfg))] + body + seq![end_v("div"@)],
                sections_ops(ls, e, cfg, all_id),
            );
        }
    }
}

proof fn lemma_nested_body(ls: Seq<LyricLineV>, cfg: GeneratorConfig)
    ensures
        well_nested(body_ops(ls, cfg)),
{
    let ops = body_ops(ls, cfg);
    let all_id = crate::generator::body::all_have_id(ls);
    lemma_nested_sections(ls, 0, cfg, all_id);
    lemma_nested_wrap_op(ops[0], sections_ops(ls, 0, cfg, all_id));
    assert(ops =~= seq![ops[0]] + sections_ops(ls, 0, cfg, all_id) + seq![end_v(ops[0]->Start_name)]);
}

/// The events of every generated document are well nested: each start tag is closed by an
/// end tag of the same name, in order, whatever the lyric and the configuration.
pub proof fn lemma_document_well_nested(r: TTMLResultV, cfg: GeneratorConfig)
    ensures
        well_nested(spec_document_ops(r, cfg)),
{
    let ops = spec_document_ops(r, cfg);
    let h = head_ops(r.metadata, r.lines, cfg);
    let b = body_ops(r.lines, cfg);
    lemma_nested_head(r.metadata, r.lines, cfg);
    lemma_nested_body(r.lines, cfg);
    lemma_nested_concat(h, b);
    lemma_nested_wrap_op(ops[0], h + b);
    assert(ops =~= seq![ops[0]] + (h + b) + seq![end_v(ops[0]->Start_name)]);
}

} // verus!
