//! What the generator keeps whatever the lyric: the shape of line-timed output.

use vstd::prelude::*;
use crate::generator::GeneratorConfig;
use crate::generator::body::{
    all_have_id, block_of, body_ops, chunk_end, div_attrs, line_ops, lines_ops, max_end, min_start, sections_ops,
};
use crate::generator::ops::{end_v, start_v, text_elem};
use crate::generator::span::{inline_items_ops, inline_list_ops, line_text_ops, opt_inline_ops};
use crate::generator::sub_lyric::{
    any_word_timed, entries_langs, head_worthy, inline_worthy, lang_attrs, lang_insert_from, lang_lt, langs_of,
    spec_has_inline_sub_lyrics, text_lt_from, SubEntry,
};
use crate::parser::head::or_empty;
use crate::generator::writer::XmlOpV;
use crate::model::{LyricLineV, SubLyricContentV};
use crate::timestamp::{line_key, spec_format_timestamp};

verus! {

/// Whether an event opens a span.
pub open spec fn opens_span(op: XmlOpV) -> bool {
    op matches XmlOpV::Start { name, .. } && name == "span"@
}

/// Whether an event opens an inline translation or transliteration span.
pub open spec fn opens_inline_sub(op: XmlOpV) -> bool {
    op matches XmlOpV::Start { name, attrs } && name == "span"@ && attrs.len() > 0 && attrs[0].0 == "ttm:role"@
        && (attrs[0].1 == "x-translation"@ || attrs[0].1 == "x-roman"@)
}

/// Whether every span that the events open is an inline translation or transliteration.
pub open spec fn only_inline_sub_spans(ops: Seq<XmlOpV>) -> bool {
    forall|k: int| 0 <= k < ops.len() && opens_span(#[trigger] ops[k]) ==> opens_inline_sub(ops[k])
}

proof fn lemma_other_start_only(name: Seq<char>, attrs: Seq<(Seq<char>, Seq<char>)>)
    requires
        name != "span"@,
    ensures
        only_inline_sub_spans(seq![start_v(name, attrs)]),
{
    assert(seq![start_v(name, attrs)][0] == start_v(name, attrs));
}

proof fn lemma_only_inline_concat(a: Seq<XmlOpV>, b: Seq<XmlOpV>)
    requires
        only_inline_sub_spans(a),
        only_inline_sub_spans(b),
    ensures
        only_inline_sub_spans(a + b),
{
    assert forall|k: int| 0 <= k < (a + b).len() && opens_span(#[trigger] (a + b)[k]) implies opens_inline_sub(
        (a + b)[k],
    ) by {
        if k < a.len() {
            assert((a + b)[k] == a[k]);
        } else {
            assert((a + b)[k] == b[k - a.len()]);
        }
    }
}

proof fn lemma_inline_list_only(cs: Seq<SubLyricContentV>, k: int, role: Seq<char>)
    requires
        role == "x-translation"@ || role == "x-roman"@,
    ensures
        only_inline_sub_spans(inline_list_ops(cs, k, role)),
    decreases k,
{
    if k > 0 {
        lemma_inline_list_only(cs, k - 1, role);
        let e = text_elem("span"@, seq![("ttm:role"@, role)] + lang_attrs(cs[k - 1].language), cs[k - 1].text);
        assert(only_inline_sub_spans(e)) by {
            assert((seq![("ttm:role"@, role)] + lang_attrs(cs[k - 1].language))[0] == ("ttm:role"@, role));
            assert(!opens_span(e[1]));
            assert(!opens_span(e[2]));
        }
        lemma_only_inline_concat(inline_list_ops(cs, k - 1, role), e);
    }
}

proof fn lemma_line_ops_only(l: LyricLineV, cfg: GeneratorConfig, all_id: bool, index: nat)
    requires
        cfg.line_timing,
    ensures
        only_inline_sub_spans(line_ops(l, cfg, all_id, index)),
{
    let inline = spec_has_inline_sub_lyrics(l, cfg);
    let t = line_text_ops(l);
    assert(only_inline_sub_spans(t));
    assert(only_inline_sub_spans(inline_items_ops(l.translations, "x-translation"@, cfg))) by {
        if let Some(cs) = l.translations {
            lemma_inline_list_only(cs, cs.len() as int, "x-translation"@);
        }
    }
    assert(only_inline_sub_spans(inline_items_ops(l.romanizations, "x-roman"@, cfg))) by {
        if let Some(cs) = l.romanizations {
            lemma_inline_list_only(cs, cs.len() as int, "x-roman"@);
        }
    }
    lemma_only_inline_concat(
        inline_items_ops(l.translations, "x-translation"@, cfg),
        inline_items_ops(l.romanizations, "x-roman"@, cfg),
    );
    let inl = opt_inline_ops(inline, l.translations, l.romanizations, cfg);
    assert(only_inline_sub_spans(inl));
    lemma_only_inline_concat(t, inl);
    let key = if all_id {
        match l.id {
            Some(id) => seq![("itunes:key"@, id)],
            None => Seq::empty(),
        }
    } else {
        seq![("itunes:key"@, line_key(index))]
    };
    let agent = match l.agent_id {
        Some(a) => seq![("ttm:agent"@, a)],
        None => Seq::empty(),
    };
    let p = seq![
        start_v(
            "p"@,
            seq![("begin"@, spec_format_timestamp(l.start_time)), ("end"@, spec_format_timestamp(l.end_time))] + key
                + agent,
        ),
    ];
    assert(only_inline_sub_spans(p)) by {
        reveal_strlit("p");
        reveal_strlit("span");
        assert("p"@.len() != "span"@.len());
        lemma_other_start_only("p"@, p[0]->Start_attrs);
    }
    assert(only_inline_sub_spans(seq![end_v("p"@)])) by {
        assert(!opens_span(seq![end_v("p"@)][0]));
    }
    lemma_only_inline_concat(p, t + inl);
    lemma_only_inline_concat(p + (t + inl), seq![end_v("p"@)]);
    assert(line_ops(l, cfg, all_id, index) == p + (t + inl) + seq![end_v("p"@)]);
}

proof fn lemma_lines_ops_only(ls: Seq<LyricLineV>, from: int, to: int, cfg: GeneratorConfig, all_id: bool, index: nat)
    requires
        cfg.line_timing,
    ensures
        only_inline_sub_spans(lines_ops(ls, from, to, cfg, all_id, index)),
    decreases to - from,
{
    if from < to {
        lemma_lines_ops_only(ls, from, to - 1, cfg, all_id, index);
        lemma_line_ops_only(ls[to - 1], cfg, all_id, (index + (to - 1 - from)) as nat);
        lemma_only_inline_concat(
            lines_ops(ls, from, to - 1, cfg, all_id, index),
            line_ops(ls[to - 1], cfg, all_id, (index + (to - 1 - from)) as nat),
        );
    }
}

proof fn lemma_sections_ops_only(ls: Seq<LyricLineV>, i: int, cfg: GeneratorConfig, all_id: bool)
    requires
        cfg.line_timing,
    ensures
        only_inline_sub_spans(sections_ops(ls, i, cfg, all_id)),
    decreases ls.len() - i,
{
    if 0 <= i < ls.len() {
        let e = chunk_end(ls, i + 1);
        if i < e <= ls.len() {
            let d = seq![start_v("div"@, div_attrs(ls, i, e, cfg))];
            let l = lines_ops(ls, i, e, cfg, all_id, (i + 1) as nat);
            let c = seq![end_v("div"@)];
            lemma_sections_ops_only(ls, e, cfg, all_id);
            lemma_lines_ops_only(ls, i, e, cfg, all_id, (i + 1) as nat);
            assert(only_inline_sub_spans(d)) by {
                reveal_strlit("div");
                reveal_strlit("span");
                assert("div"@.len() != "span"@.len());
                lemma_other_start_only("div"@, div_attrs(ls, i, e, cfg));
            }
            assert(only_inline_sub_spans(c)) by {
                assert(!opens_span(c[0]));
            }
            lemma_only_inline_concat(d, l);
            lemma_only_inline_concat(d + l, c);
            lemma_only_inline_concat(d + l + c, sections_ops(ls, e, cfg, all_id));
        }
    }
}

/// Line-timed output holds no syllable span and no background vocal: every span that the
/// body opens is an inline translation or transliteration.
pub proof fn lemma_line_timing_body_spans(ls: Seq<LyricLineV>, cfg: GeneratorConfig)
    requires
        cfg.line_timing,
    ensures
        only_inline_sub_spans(body_ops(ls, cfg)),
{
    let m = max_end(ls, ls.len() as int, cfg);
    let b = seq![
        start_v(
            "body"@,
            if m > 0 {
                seq![("dur"@, spec_format_timestamp(m))]
            } else {
                Seq::empty()
            },
        ),
    ];
    let c = seq![end_v("body"@)];
    assert(only_inline_sub_spans(b)) by {
        reveal_strlit("body");
        reveal_strlit("span");
        assert("body"@[0] != "span"@[0]);
        lemma_other_start_only("body"@, b[0]->Start_attrs);
    }
    assert(only_inline_sub_spans(c)) by {
        assert(!opens_span(c[0]));
    }
    lemma_sections_ops_only(ls, 0, cfg, all_have_id(ls));
    lemma_only_inline_concat(b, sections_ops(ls, 0, cfg, all_have_id(ls)));
    lemma_only_inline_concat(b + sections_ops(ls, 0, cfg, all_have_id(ls)), c);
}

/// Every list of translations or transliterations has one place: the head or inline in its
/// line, never both and never neither. Word-timed ones go into the head unless lines are
/// flattened to line timing; under Apple Music's rules all go into the head.
pub proof fn lemma_sub_lyric_placement(cs: Seq<SubLyricContentV>, cfg: GeneratorConfig)
    ensures
        head_worthy(cs, cfg) <==> !inline_worthy(cs, cfg),
        !cfg.line_timing && any_word_timed(cs) ==> head_worthy(cs, cfg),
        cfg.use_apple_format_rules ==> head_worthy(cs, cfg),
{
}

proof fn lemma_text_lt_irreflexive(a: Seq<char>, i: int)
    requires
        0 <= i,
    ensures
        !text_lt_from(a, a, i),
    decreases a.len() - i,
{
    if i < a.len() {
        lemma_text_lt_irreflexive(a, i + 1);
    }
}

proof fn lemma_text_lt_transitive(a: Seq<char>, b: Seq<char>, c: Seq<char>, i: int)
    requires
        0 <= i,
        text_lt_from(a, b, i),
        text_lt_from(b, c, i),
    ensures
        text_lt_from(a, c, i),
    decreases a.len() - i,
{
    if i < a.len() && a[i] == b[i] && b[i] == c[i] {
        lemma_text_lt_transitive(a, b, c, i + 1);
    }
}

proof fn lemma_text_lt_total(a: Seq<char>, b: Seq<char>, i: int)
    requires
        0 <= i <= a.len(),
        i <= b.len(),
        a.subrange(0, i) == b.subrange(0, i),
        a != b,
    ensures
        text_lt_from(a, b, i) || text_lt_from(b, a, i),
    decreases a.len() - i,
{
    if i == a.len() && i == b.len() {
        assert(a =~= a.subrange(0, i));
        assert(b =~= b.subrange(0, i));
    } else if i < a.len() && i < b.len() && a[i] == b[i] {
        assert(a.subrange(0, i + 1) =~= a.subrange(0, i).push(a[i]));
        assert(b.subrange(0, i + 1) =~= b.subrange(0, i).push(b[i]));
        lemma_text_lt_total(a, b, i + 1);
    } else if i < a.len() && i < b.len() {
        let (x, y) = (a[i], b[i]);
        assert(x != y);
        vstd::utf8::char_u32_cast(x, x as u32);
        vstd::utf8::char_u32_cast(y, y as u32);
        assert(x as u32 != y as u32);
    }
}

/// The order of languages is a strict total order: no language before itself, transitive,
/// and any two different languages ordered one way or the other.
pub proof fn lemma_lang_lt_order(a: Option<Seq<char>>, b: Option<Seq<char>>, c: Option<Seq<char>>)
    ensures
        !lang_lt(a, a),
        lang_lt(a, b) && lang_lt(b, c) ==> lang_lt(a, c),
        a != b ==> lang_lt(a, b) || lang_lt(b, a),
{
    if let Some(x) = a {
        lemma_text_lt_irreflexive(x, 0);
    }
    if let (Some(x), Some(y), Some(z)) = (a, b, c) {
        if text_lt_from(x, y, 0) && text_lt_from(y, z, 0) {
            lemma_text_lt_transitive(x, y, z, 0);
        }
    }
    if let (Some(x), Some(y)) = (a, b) {
        if x != y {
            assert(x.subrange(0, 0) =~= y.subrange(0, 0));
            lemma_text_lt_total(x, y, 0);
        }
    }
}

/// Whether a list of languages is sorted, with no language twice.
pub open spec fn langs_sorted(s: Seq<Option<Seq<char>>>) -> bool {
    forall|i: int, j: int| 0 <= i < j < s.len() ==> lang_lt(#[trigger] s[i], #[trigger] s[j])
}

proof fn lemma_lang_insert_sorted(s: Seq<Option<Seq<char>>>, x: Option<Seq<char>>, i: int)
    requires
        langs_sorted(s),
        0 <= i <= s.len(),
        forall|k: int| 0 <= k < i ==> lang_lt(#[trigger] s[k], x),
    ensures
        langs_sorted(lang_insert_from(s, x, i)),
    decreases s.len() - i,
{
    if i >= s.len() {
        let r = s.push(x);
        assert forall|p: int, q: int| 0 <= p < q < r.len() implies lang_lt(#[trigger] r[p], #[trigger] r[q]) by {
            assert(r[p] == s[p]);
        }
    } else if s[i] == x {
    } else if lang_lt(x, s[i]) {
        let r = s.insert(i, x);
        assert forall|p: int, q: int| 0 <= p < q < r.len() implies lang_lt(#[trigger] r[p], #[trigger] r[q]) by {
            if q < i {
                assert(r[p] == s[p] && r[q] == s[q]);
            } else if q == i {
                assert(r[p] == s[p] && r[q] == x);
            } else if p < i {
                assert(r[p] == s[p] && r[q] == s[q - 1]);
                lemma_lang_lt_order(s[p], x, s[i]);
                if q - 1 > i {
                    lemma_lang_lt_order(s[p], s[i], s[q - 1]);
                }
            } else if p == i {
                assert(r[p] == x && r[q] == s[q - 1]);
                if q - 1 > i {
                    lemma_lang_lt_order(x, s[i], s[q - 1]);
                }
            } else {
                assert(r[p] == s[p - 1] && r[q] == s[q - 1]);
            }
        }
    } else {
        lemma_lang_lt_order(x, s[i], s[i]);
        assert(lang_lt(s[i], x));
        lemma_lang_insert_sorted(s, x, i + 1);
    }
}

proof fn lemma_langs_of_sorted(s: Seq<Option<Seq<char>>>, cs: Seq<crate::model::SubLyricContentV>)
    requires
        langs_sorted(s),
    ensures
        langs_sorted(langs_of(s, cs)),
    decreases cs.len(),
{
    if cs.len() > 0 {
        lemma_langs_of_sorted(s, cs.drop_last());
        lemma_lang_insert_sorted(langs_of(s, cs.drop_last()), cs.last().language, 0);
    }
}

/// The languages of the translations or transliterations in the head are sorted (no language
/// first) and none comes twice.
pub proof fn lemma_entries_langs_sorted(es: Seq<SubEntry>)
    ensures
        langs_sorted(entries_langs(es)),
        forall|i: int, j: int|
            0 <= i < j < entries_langs(es).len() ==> #[trigger] entries_langs(es)[i] != #[trigger] entries_langs(
                es,
            )[j],
    decreases es.len(),
{
    if es.len() > 0 {
        lemma_entries_langs_sorted(es.drop_last());
        let e = es.last();
        lemma_langs_of_sorted(entries_langs(es.drop_last()), e.main);
        lemma_langs_of_sorted(langs_of(entries_langs(es.drop_last()), e.main), or_empty(e.bg));
    }
    let l = entries_langs(es);
    assert forall|i: int, j: int| 0 <= i < j < l.len() implies #[trigger] l[i] != #[trigger] l[j] by {
        lemma_lang_lt_order(l[i], l[j], l[j]);
    }
}


/// Whether an event opens a `<div>` that carries the song part `p`.
pub open spec fn opens_div_with_part(op: XmlOpV, p: Seq<char>) -> bool {
    op matches XmlOpV::Start { name, attrs } && name == "div"@ && attrs.contains(("itunes:songPart"@, p))
}

/// Whether line `i` begins a block: it is the first line, or its block index differs from
/// that of the line before.
pub open spec fn begins_block(ls: Seq<LyricLineV>, i: int) -> bool {
    i == 0 || block_of(ls[i]) != block_of(ls[i - 1])
}

/// Whether, for every line from `j` on that begins a block (or is line `j`) and has a song
/// part, the events hold a `<div>` carrying that song part.
pub open spec fn parts_written(ls: Seq<LyricLineV>, j: int, ops: Seq<XmlOpV>) -> bool {
    forall|i: int|
        j <= i < ls.len() && (i == j || begins_block(ls, i)) && (#[trigger] ls[i]).song_part is Some
            ==> exists|k: int| 0 <= k < ops.len() && opens_div_with_part(#[trigger] ops[k], ls[i].song_part->0)
}

/// A block searched from `j` ends after `j`, and no line inside it changes the block index.
proof fn lemma_chunk_end_inside(ls: Seq<LyricLineV>, j: int)
    requires
        1 <= j <= ls.len(),
    ensures
        j <= chunk_end(ls, j) <= ls.len(),
        forall|m: int| j <= m < chunk_end(ls, j) ==> block_of(#[trigger] ls[m]) == block_of(ls[m - 1]),
        chunk_end(ls, j) < ls.len() ==> block_of(ls[chunk_end(ls, j)]) != block_of(ls[chunk_end(ls, j) - 1]),
    decreases ls.len() - j,
{
    if j < ls.len() && !(block_of(ls[j]) != block_of(ls[j - 1])) {
        lemma_chunk_end_inside(ls, j + 1);
    }
}

/// The `<div>` of a block carries the song part of its first line.
proof fn lemma_div_attrs_part(ls: Seq<LyricLineV>, from: int, to: int, cfg: GeneratorConfig)
    requires
        0 <= from < to <= ls.len(),
        ls[from].song_part is Some,
    ensures
        div_attrs(ls, from, to, cfg).contains(("itunes:songPart"@, ls[from].song_part->0)),
{
    let a = div_attrs(ls, from, to, cfg);
    let chunk = ls.subrange(from, to);
    let lo = min_start(chunk, chunk.len() as int, cfg);
    let hi = max_end(chunk, chunk.len() as int, cfg);
    let pre: Seq<(Seq<char>, Seq<char>)> = if lo <= hi {
        seq![("begin"@, spec_format_timestamp(lo)), ("end"@, spec_format_timestamp(hi))]
    } else {
        Seq::empty()
    };
    let x = ("itunes:songPart"@, ls[from].song_part->0);
    assert(a == pre + seq![x]);
    assert(a[pre.len() as int] == x);
}

/// A `<div>` with song part `p` somewhere in `rest` is still there with events before it.
proof fn lemma_part_after(pre: Seq<XmlOpV>, rest: Seq<XmlOpV>, p: Seq<char>)
    requires
        exists|k: int| 0 <= k < rest.len() && opens_div_with_part(#[trigger] rest[k], p),
    ensures
        exists|k: int| 0 <= k < (pre + rest).len() && opens_div_with_part(#[trigger] (pre + rest)[k], p),
{
    let k2 = choose|k: int| 0 <= k < rest.len() && opens_div_with_part(#[trigger] rest[k], p);
    assert((pre + rest)[pre.len() + k2] == rest[k2]);
}

proof fn lemma_sections_parts(ls: Seq<LyricLineV>, j: int, cfg: GeneratorConfig, all_id: bool)
    requires
        0 <= j,
    ensures
        parts_written(ls, j, sections_ops(ls, j, cfg, all_id)),
    decreases ls.len() - j,
{
    if j < ls.len() {
        lemma_chunk_end_inside(ls, j + 1);
        let e = chunk_end(ls, j + 1);
        let pre = seq![start_v("div"@, div_attrs(ls, j, e, cfg))] + lines_ops(ls, j, e, cfg, all_id, (j + 1) as nat)
            + seq![end_v("div"@)];
        let rest = sections_ops(ls, e, cfg, all_id);
        let ops = sections_ops(ls, j, cfg, all_id);
        assert(ops == pre + rest);
        lemma_sections_parts(ls, e, cfg, all_id);
        assert forall|i: int|
            j <= i < ls.len() && (i == j || begins_block(ls, i)) && (#[trigger] ls[i]).song_part is Some implies exists|k: int|
                0 <= k < ops.len() && opens_div_with_part(#[trigger] ops[k], ls[i].song_part->0) by {
            let p = ls[i].song_part->0;
            if i == j {
                lemma_div_attrs_part(ls, j, e, cfg);
                assert(ops[0] == start_v("div"@, div_attrs(ls, j, e, cfg)));
                assert(opens_div_with_part(ops[0], p));
            } else {
                assert(i >= e) by {
                    if i < e {
                        assert(block_of(ls[i]) == block_of(ls[i - 1]));
                    }
                }
                assert(ls[i].song_part is Some);
                lemma_part_after(pre, rest, p);
            }
        }
    }
}

/// Every block of lines is written as a `<div>` that carries the song part of its first line,
/// when that line has one: for each line that begins a block and has song part `p`, the body
/// holds a `<div>` with the attribute `itunes:songPart="p"`.
pub proof fn lemma_block_song_part_written(ls: Seq<LyricLineV>, cfg: GeneratorConfig, i: int)
    requires
        0 <= i < ls.len(),
        begins_block(ls, i),
        ls[i].song_part is Some,
    ensures
        exists|k: int| 0 <= k < body_ops(ls, cfg).len() && opens_div_with_part(#[trigger] body_ops(ls, cfg)[k], ls[i].song_part->0),
{
    let all_id = all_have_id(ls);
    lemma_sections_parts(ls, 0, cfg, all_id);
    let s = sections_ops(ls, 0, cfg, all_id);
    let p = ls[i].song_part->0;
    let k2 = choose|k2: int| 0 <= k2 < s.len() && opens_div_with_part(#[trigger] s[k2], p);
    let m = max_end(ls, ls.len() as int, cfg);
    let b = seq![
        start_v(
            "body"@,
            if m > 0 {
                seq![("dur"@, spec_format_timestamp(m))]
            } else {
                Seq::empty()
            },
        ),
    ];
    assert(body_ops(ls, cfg) == b + s + seq![end_v("body"@)]);
    assert(body_ops(ls, cfg)[k2 + 1] == s[k2]);
    assert(opens_div_with_part(body_ops(ls, cfg)[k2 + 1], p));
}

} // verus!
