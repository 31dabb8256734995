//! Without indentation, a lyric whose texts hold no line feed gives a document on one line:
//! none of the events of its document holds a line feed.

use vstd::prelude::*;
use crate::generator::{spec_document_ops, tt_attrs, GeneratorConfig};
use crate::generator::body::{all_have_id, body_ops, chunk_end, div_attrs, line_ops, lines_ops, max_end, min_start, sections_ops};
use crate::generator::head::{
    agent_ops, agents_list_ops, agents_ops, amll_metas_ops, empty_v, has_songwriters, head_ops, itunes_ops,
    line_agent_ids, meta_ops, opt_meta_ops, person_attrs, persons_ops, platform_metas_ops, raw_metas_ops,
    songwriter_list_ops, text_insert_from,
};
use crate::amll::to_amll::platform_key;
use crate::generator::ops::{end_v, start_v, text_elem, text_v};
use crate::generator::span::{
    amll_attrs, bg_attrs, bg_body_ops, bg_first, bg_ops, bg_syl_ops, bg_syls_ops, inline_items_ops, inline_list_ops,
    line_spans_ops, line_text_ops, main_body_ops, main_syl_ops, main_syls_ops, opt_bg_ops, opt_inline_ops, opt_text,
    ruby_texts_ops, syllable_ops,
};
use crate::generator::sub_lyric::{
    bg_kind_subs, content_ops, entries_langs, entries_text_ops, entry_text_ops, find_lang, find_lang_from, head_syl_ops,
    head_syl_text, head_syls_ops, items_ops, keep_head, kind_subs, lang_attrs, lang_insert_from, langs_of,
    spec_group_tag, spec_item_tag, spec_sub_lyrics_ops, sub_entries, sub_entry, timing_attrs, trailing, SubEntry,
    SubLyricKind,
};
use crate::parser::head::or_empty;
use crate::generator::writer::{has_newline, op_has_newline, ops_free_of_newline, XmlOpV};
use crate::model::{
    AgentV, BackgroundVocalV, LyricLineV, PlatformId, SubLyricContentV, SyllableV, TTMLMetadataV, TTMLResultV,
};
use crate::timestamp::{dec, digit_char, line_key, pad2, pad3, spec_format_timestamp};

verus! {

/// Whether a text holds no line feed.
pub open spec fn nl_free(t: Seq<char>) -> bool {
    !has_newline(t)
}

/// Whether an optional text holds no line feed.
pub open spec fn opt_nl_free(o: Option<Seq<char>>) -> bool {
    match o {
        Some(t) => nl_free(t),
        None => true,
    }
}

/// Whether no text of a list holds a line feed.
pub open spec fn texts_nl_free(s: Seq<Seq<char>>) -> bool {
    forall|k: int| 0 <= k < s.len() ==> nl_free(#[trigger] s[k])
}

/// Whether no text of an optional list holds a line feed.
pub open spec fn opt_texts_nl_free(o: Option<Seq<Seq<char>>>) -> bool {
    match o {
        Some(s) => texts_nl_free(s),
        None => true,
    }
}

/// Whether neither the text nor a ruby text of a syllable holds a line feed.
pub open spec fn syllable_nl_free(s: SyllableV) -> bool {
    nl_free(s.text) && match s.ruby {
        Some(rs) => forall|k: int| 0 <= k < rs.len() ==> nl_free(#[trigger] rs[k].text),
        None => true,
    }
}

/// Whether no syllable of a list holds a line feed.
pub open spec fn syls_nl_free(ws: Seq<SyllableV>) -> bool {
    forall|k: int| 0 <= k < ws.len() ==> syllable_nl_free(#[trigger] ws[k])
}

/// Whether no syllable of an optional list holds a line feed.
pub open spec fn syllables_nl_free(o: Option<Seq<SyllableV>>) -> bool {
    match o {
        Some(ws) => syls_nl_free(ws),
        None => true,
    }
}

/// Whether neither the language, the text nor a syllable of a content holds a line feed.
pub open spec fn content_nl_free(c: SubLyricContentV) -> bool {
    opt_nl_free(c.language) && nl_free(c.text) && syllables_nl_free(c.words)
}

/// Whether no content of a list holds a line feed.
pub open spec fn contents_nl_free(cs: Seq<SubLyricContentV>) -> bool {
    forall|k: int| 0 <= k < cs.len() ==> content_nl_free(#[trigger] cs[k])
}

/// Whether no content of an optional list holds a line feed.
pub open spec fn opt_contents_nl_free(o: Option<Seq<SubLyricContentV>>) -> bool {
    match o {
        Some(cs) => contents_nl_free(cs),
        None => true,
    }
}

/// Whether no text of a background vocal holds a line feed.
pub open spec fn bg_nl_free(b: BackgroundVocalV) -> bool {
    nl_free(b.text) && syllables_nl_free(b.words) && opt_contents_nl_free(b.translations) && opt_contents_nl_free(
        b.romanizations,
    )
}

/// Whether no text of a line (its text, syllables, contents, background vocal, id, singer
/// and song part) holds a line feed.
pub open spec fn line_nl_free(l: LyricLineV) -> bool {
    &&& nl_free(l.text)
    &&& syllables_nl_free(l.words)
    &&& opt_contents_nl_free(l.translations)
    &&& opt_contents_nl_free(l.romanizations)
    &&& match l.background_vocal {
        Some(b) => bg_nl_free(b),
        None => true,
    }
    &&& opt_nl_free(l.id)
    &&& opt_nl_free(l.agent_id)
    &&& opt_nl_free(l.song_part)
}

/// Whether no line holds a line feed.
pub open spec fn lines_nl_free(ls: Seq<LyricLineV>) -> bool {
    forall|k: int| 0 <= k < ls.len() ==> line_nl_free(#[trigger] ls[k])
}

/// Whether no text of an agent holds a line feed.
pub open spec fn agent_nl_free(a: AgentV) -> bool {
    nl_free(a.id) && opt_nl_free(a.name) && opt_nl_free(a.type_)
}

/// Whether no text of the metadata holds a line feed.
pub open spec fn metadata_nl_free(m: TTMLMetadataV) -> bool {
    &&& opt_nl_free(m.language)
    &&& opt_nl_free(m.timing_mode)
    &&& opt_texts_nl_free(m.songwriters)
    &&& opt_texts_nl_free(m.title)
    &&& opt_texts_nl_free(m.artist)
    &&& opt_texts_nl_free(m.album)
    &&& opt_texts_nl_free(m.isrc)
    &&& opt_texts_nl_free(m.author_ids)
    &&& opt_texts_nl_free(m.author_names)
    &&& match m.agents {
        Some(es) => forall|k: int| 0 <= k < es.len() ==> agent_nl_free(#[trigger] es[k].1),
        None => true,
    }
    &&& match m.platform_ids {
        Some(es) => forall|k: int| 0 <= k < es.len() ==> texts_nl_free(#[trigger] es[k].1),
        None => true,
    }
    &&& match m.raw_properties {
        Some(es) => forall|k: int| 0 <= k < es.len() ==> nl_free(#[trigger] es[k].0) && texts_nl_free(es[k].1),
        None => true,
    }
}

/// Whether no text of a lyric holds a line feed.
pub open spec fn lyric_nl_free(r: TTMLResultV) -> bool {
    metadata_nl_free(r.metadata) && lines_nl_free(r.lines)
}

/// Whether no name or value of attributes holds a line feed.
pub open spec fn attrs_nl_free(a: Seq<(Seq<char>, Seq<char>)>) -> bool {
    forall|k: int| 0 <= k < a.len() ==> nl_free(#[trigger] a[k].0) && nl_free(a[k].1)
}

proof fn lemma_text_concat(a: Seq<char>, b: Seq<char>)
    requires
        nl_free(a),
        nl_free(b),
    ensures
        nl_free(a + b),
{
    if (a + b).contains('\n') {
        let i = choose|i: int| 0 <= i < (a + b).len() && (a + b)[i] == '\n';
        if i < a.len() {
            assert(a[i] == '\n');
        } else {
            assert(b[i - a.len()] == '\n');
        }
    }
}

proof fn lemma_char_free(c: char)
    requires
        c != '\n',
    ensures
        nl_free(seq![c]),
{
    if seq![c].contains('\n') {
        let i = choose|i: int| 0 <= i < seq![c].len() && seq![c][i] == '\n';
        assert(seq![c][i] == c);
    }
}

proof fn lemma_attrs_concat(a: Seq<(Seq<char>, Seq<char>)>, b: Seq<(Seq<char>, Seq<char>)>)
    requires
        attrs_nl_free(a),
        attrs_nl_free(b),
    ensures
        attrs_nl_free(a + b),
{
    assert forall|k: int| 0 <= k < (a + b).len() implies nl_free(#[trigger] (a + b)[k].0) && nl_free((a + b)[k].1) by {
        if k < a.len() {
            assert((a + b)[k] == a[k]);
            assert(nl_free(a[k].0) && nl_free(a[k].1));
        } else {
            assert((a + b)[k] == b[k - a.len()]);
            assert(nl_free(b[k - a.len()].0) && nl_free(b[k - a.len()].1));
        }
    }
}

proof fn lemma_attr_one(k: Seq<char>, v: Seq<char>)
    requires
        nl_free(k),
        nl_free(v),
    ensures
        attrs_nl_free(seq![(k, v)]),
{
    assert forall|i: int| 0 <= i < seq![(k, v)].len() implies nl_free(#[trigger] seq![(k, v)][i].0) && nl_free(
        seq![(k, v)][i].1,
    ) by {
        assert(seq![(k, v)][i] == (k, v));
    }
}

proof fn lemma_attrs_empty()
    ensures
        attrs_nl_free(Seq::<(Seq<char>, Seq<char>)>::empty()),
{
}

proof fn lemma_ops_concat(a: Seq<XmlOpV>, b: Seq<XmlOpV>)
    requires
        ops_free_of_newline(a),
        ops_free_of_newline(b),
    ensures
        ops_free_of_newline(a + b),
{
    assert forall|k: int| 0 <= k < (a + b).len() implies !op_has_newline(#[trigger] (a + b)[k]) by {
        if k < a.len() {
            assert((a + b)[k] == a[k]);
        } else {
            assert((a + b)[k] == b[k - a.len()]);
        }
    }
}

proof fn lemma_ops_concat3(a: Seq<XmlOpV>, b: Seq<XmlOpV>, c: Seq<XmlOpV>)
    requires
        ops_free_of_newline(a),
        ops_free_of_newline(b),
        ops_free_of_newline(c),
    ensures
        ops_free_of_newline(a + b + c),
{
    lemma_ops_concat(a, b);
    lemma_ops_concat(a + b, c);
}

proof fn lemma_op_one(op: XmlOpV)
    requires
        !op_has_newline(op),
    ensures
        ops_free_of_newline(seq![op]),
{
    assert forall|k: int| 0 <= k < seq![op].len() implies !op_has_newline(#[trigger] seq![op][k]) by {
        assert(seq![op][k] == op);
    }
}

proof fn lemma_start_free(name: Seq<char>, attrs: Seq<(Seq<char>, Seq<char>)>)
    requires
        nl_free(name),
        attrs_nl_free(attrs),
    ensures
        ops_free_of_newline(seq![start_v(name, attrs)]),
        ops_free_of_newline(seq![XmlOpV::Empty { name, attrs }]),
        ops_free_of_newline(seq![end_v(name)]),
{
    assert(!op_has_newline(start_v(name, attrs))) by {
        if exists|k: int| 0 <= k < attrs.len() && (has_newline(#[trigger] attrs[k].0) || has_newline(attrs[k].1)) {
            let k = choose|k: int| 0 <= k < attrs.len() && (has_newline(#[trigger] attrs[k].0) || has_newline(attrs[k].1));
            assert(nl_free(attrs[k].0) && nl_free(attrs[k].1));
        }
    }
    lemma_op_one(start_v(name, attrs));
    lemma_op_one(XmlOpV::Empty { name, attrs });
    lemma_op_one(end_v(name));
}

proof fn lemma_text_free(t: Seq<char>)
    requires
        nl_free(t),
    ensures
        ops_free_of_newline(seq![text_v(t)]),
{
    lemma_op_one(text_v(t));
}

proof fn lemma_wrap_free(name: Seq<char>, attrs: Seq<(Seq<char>, Seq<char>)>, x: Seq<XmlOpV>)
    requires
        nl_free(name),
        attrs_nl_free(attrs),
        ops_free_of_newline(x),
    ensures
        ops_free_of_newline(seq![start_v(name, attrs)] + x + seq![end_v(name)]),
{
    lemma_start_free(name, attrs);
    lemma_ops_concat3(seq![start_v(name, attrs)], x, seq![end_v(name)]);
}

proof fn lemma_text_elem_free(name: Seq<char>, attrs: Seq<(Seq<char>, Seq<char>)>, t: Seq<char>)
    requires
        nl_free(name),
        attrs_nl_free(attrs),
        nl_free(t),
    ensures
        ops_free_of_newline(text_elem(name, attrs, t)),
{
    lemma_text_free(t);
    lemma_wrap_free(name, attrs, seq![text_v(t)]);
    assert(seq![start_v(name, attrs)] + seq![text_v(t)] + seq![end_v(name)] =~= text_elem(name, attrs, t));
}

proof fn lemma_opt_free(o: Option<Seq<char>>)
    requires
        opt_nl_free(o),
    ensures
        ops_free_of_newline(opt_text(o)),
{
    if let Some(t) = o {
        lemma_text_free(t);
    }
}

/// The fixed names and values that the generator writes hold no line feed.
proof fn lemma_literals()
    ensures
        nl_free("tt"@),
        nl_free("head"@),
        nl_free("metadata"@),
        nl_free("body"@),
        nl_free("div"@),
        nl_free("p"@),
        nl_free("span"@),
        nl_free("ttm:agent"@),
        nl_free("ttm:name"@),
        nl_free("amll:meta"@),
        nl_free("iTunesMetadata"@),
        nl_free("songwriters"@),
        nl_free("songwriter"@),
        nl_free("translations"@),
        nl_free("translation"@),
        nl_free("transliterations"@),
        nl_free("transliteration"@),
        nl_free("text"@),
        nl_free("xmlns"@),
        nl_free("xmlns:itunes"@),
        nl_free("xmlns:ttm"@),
        nl_free("xmlns:tts"@),
        nl_free("xmlns:amll"@),
        nl_free("itunes:timing"@),
        nl_free("xml:lang"@),
        nl_free("type"@),
        nl_free("xml:id"@),
        nl_free("key"@),
        nl_free("value"@),
        nl_free("begin"@),
        nl_free("end"@),
        nl_free("dur"@),
        nl_free("itunes:key"@),
        nl_free("itunes:songPart"@),
        nl_free("for"@),
        nl_free("ttm:role"@),
        nl_free("tts:ruby"@),
        nl_free("amll:obscene"@),
        nl_free("amll:empty-beat"@),
        nl_free("http://www.w3.org/ns/ttml"@),
        nl_free("http://music.apple.com/lyric-ttml-internal"@),
        nl_free("http://www.w3.org/ns/ttml#metadata"@),
        nl_free("http://www.w3.org/ns/ttml#styling"@),
        nl_free("http://www.example.com/ns/amll"@),
        nl_free("Line"@),
        nl_free("person"@),
        nl_free("v1"@),
        nl_free("true"@),
        nl_free("x-bg"@),
        nl_free("x-translation"@),
        nl_free("x-roman"@),
        nl_free("container"@),
        nl_free("base"@),
        nl_free("textContainer"@),
        nl_free("musicName"@),
        nl_free("artists"@),
        nl_free("album"@),
        nl_free("isrc"@),
        nl_free("ttmlAuthorGithub"@),
        nl_free("ttmlAuthorGithubLogin"@),
        nl_free("ncmMusicId"@),
        nl_free("qqMusicId"@),
        nl_free("spotifyId"@),
        nl_free("appleMusicId"@),
        nl_free("("@),
        nl_free(")"@),
        nl_free(" "@),
{
    reveal_strlit("tt");
    reveal_strlit("head");
    reveal_strlit("metadata");
    reveal_strlit("body");
    reveal_strlit("div");
    reveal_strlit("p");
    reveal_strlit("span");
    reveal_strlit("ttm:agent");
    reveal_strlit("ttm:name");
    reveal_strlit("amll:meta");
    reveal_strlit("iTunesMetadata");
    reveal_strlit("songwriters");
    reveal_strlit("songwriter");
    reveal_strlit("translations");
    reveal_strlit("translation");
    reveal_strlit("transliterations");
    reveal_strlit("transliteration");
    reveal_strlit("text");
    reveal_strlit("xmlns");
    reveal_strlit("xmlns:itunes");
    reveal_strlit("xmlns:ttm");
    reveal_strlit("xmlns:tts");
    reveal_strlit("xmlns:amll");
    reveal_strlit("itunes:timing");
    reveal_strlit("xml:lang");
    reveal_strlit("type");
    reveal_strlit("xml:id");
    reveal_strlit("key");
    reveal_strlit("value");
    reveal_strlit("begin");
    reveal_strlit("end");
    reveal_strlit("dur");
    reveal_strlit("itunes:key");
    reveal_strlit("itunes:songPart");
    reveal_strlit("for");
    reveal_strlit("ttm:role");
    reveal_strlit("tts:ruby");
    reveal_strlit("amll:obscene");
    reveal_strlit("amll:empty-beat");
    reveal_strlit("http://www.w3.org/ns/ttml");
    reveal_strlit("http://music.apple.com/lyric-ttml-internal");
    reveal_strlit("http://www.w3.org/ns/ttml#metadata");
    reveal_strlit("http://www.w3.org/ns/ttml#styling");
    reveal_strlit("http://www.example.com/ns/amll");
    reveal_strlit("Line");
    reveal_strlit("person");
    reveal_strlit("v1");
    reveal_strlit("true");
    reveal_strlit("x-bg");
    reveal_strlit("x-translation");
    reveal_strlit("x-roman");
    reveal_strlit("container");
    reveal_strlit("base");
    reveal_strlit("textContainer");
    reveal_strlit("musicName");
    reveal_strlit("artists");
    reveal_strlit("album");
    reveal_strlit("isrc");
    reveal_strlit("ttmlAuthorGithub");
    reveal_strlit("ttmlAuthorGithubLogin");
    reveal_strlit("ncmMusicId");
    reveal_strlit("qqMusicId");
    reveal_strlit("spotifyId");
    reveal_strlit("appleMusicId");
    reveal_strlit("(");
    reveal_strlit(")");
    reveal_strlit(" ");
}

proof fn lemma_dec_free(n: nat)
    ensures
        nl_free(dec(n)),
    decreases n,
{
    assert(digit_char(n % 10) != '\n') by {
        assert(n % 10 < 10);
    }
    if n < 10 {
        lemma_char_free(digit_char(n));
        assert(dec(n) == seq![digit_char(n)]);
    } else {
        lemma_dec_free(n / 10);
        lemma_char_free(digit_char(n % 10));
        lemma_text_concat(dec(n / 10), seq![digit_char(n % 10)]);
        assert(dec(n) =~= dec(n / 10) + seq![digit_char(n % 10)]);
    }
}

proof fn lemma_pads_free(n: nat)
    ensures
        nl_free(pad2(n)),
        nl_free(pad3(n)),
{
    lemma_char_free('0');
    lemma_dec_free(n);
    lemma_text_concat(seq!['0'], seq!['0']);
    assert(seq!['0'] + seq!['0'] =~= seq!['0', '0']);
    lemma_text_concat(seq!['0'], dec(n));
    lemma_text_concat(seq!['0', '0'], dec(n));
}

proof fn lemma_ts_parts_free(h: nat, mi: nat, se: nat, ms: nat)
    ensures
        nl_free(dec(h) + seq![':'] + pad2(mi) + seq![':'] + pad2(se) + seq!['.'] + pad3(ms)),
        nl_free(dec(mi) + seq![':'] + pad2(se) + seq!['.'] + pad3(ms)),
        nl_free(dec(se) + seq!['.'] + pad3(ms)),
{
    lemma_char_free(':');
    lemma_char_free('.');
    lemma_dec_free(h);
    lemma_dec_free(mi);
    lemma_dec_free(se);
    lemma_pads_free(mi);
    lemma_pads_free(se);
    lemma_pads_free(ms);
    lemma_text_concat(dec(se), seq!['.']);
    lemma_text_concat(dec(se) + seq!['.'], pad3(ms));
    lemma_text_concat(dec(mi), seq![':']);
    lemma_text_concat(dec(mi) + seq![':'], pad2(se));
    lemma_text_concat(dec(mi) + seq![':'] + pad2(se), seq!['.']);
    lemma_text_concat(dec(mi) + seq![':'] + pad2(se) + seq!['.'], pad3(ms));
    lemma_text_concat(dec(h), seq![':']);
    lemma_text_concat(dec(h) + seq![':'], pad2(mi));
    lemma_text_concat(dec(h) + seq![':'] + pad2(mi), seq![':']);
    lemma_text_concat(dec(h) + seq![':'] + pad2(mi) + seq![':'], pad2(se));
    lemma_text_concat(dec(h) + seq![':'] + pad2(mi) + seq![':'] + pad2(se), seq!['.']);
    lemma_text_concat(dec(h) + seq![':'] + pad2(mi) + seq![':'] + pad2(se) + seq!['.'], pad3(ms));
}

proof fn lemma_timestamp_free(t: u32)
    ensures
        nl_free(spec_format_timestamp(t)),
{
    lemma_ts_parts_free((t / 3600000) as nat, ((t / 60000) % 60) as nat, ((t / 1000) % 60) as nat, (t % 1000) as nat);
}

proof fn lemma_line_key_free(n: nat)
    ensures
        nl_free(line_key(n)),
{
    lemma_char_free('L');
    lemma_dec_free(n);
    lemma_text_concat(seq!['L'], dec(n));
}

proof fn lemma_timing_attrs_free(start: u32, end: u32)
    ensures
        attrs_nl_free(timing_attrs(start, end)),
{
    lemma_literals();
    lemma_timestamp_free(start);
    lemma_timestamp_free(end);
    lemma_attr_one("begin"@, spec_format_timestamp(start));
    lemma_attr_one("end"@, spec_format_timestamp(end));
    lemma_attrs_concat(seq![("begin"@, spec_format_timestamp(start))], seq![("end"@, spec_format_timestamp(end))]);
    assert(seq![("begin"@, spec_format_timestamp(start))] + seq![("end"@, spec_format_timestamp(end))]
        =~= timing_attrs(start, end));
}

proof fn lemma_opt_attr(k: Seq<char>, o: Option<Seq<char>>)
    requires
        nl_free(k),
        opt_nl_free(o),
    ensures
        attrs_nl_free(
            match o {
                Some(v) => seq![(k, v)],
                None => Seq::empty(),
            },
        ),
{
    if let Some(v) = o {
        lemma_attr_one(k, v);
    }
}

proof fn lemma_lang_attrs_free(lang: Option<Seq<char>>)
    requires
        opt_nl_free(lang),
    ensures
        attrs_nl_free(lang_attrs(lang)),
{
    lemma_literals();
    lemma_opt_attr("xml:lang"@, lang);
}

proof fn lemma_amll_attrs_free(s: SyllableV)
    ensures
        attrs_nl_free(amll_attrs(s)),
{
    lemma_literals();
    let a: Seq<(Seq<char>, Seq<char>)> = if s.obscene == Some(true) {
        seq![("amll:obscene"@, "true"@)]
    } else {
        Seq::empty()
    };
    assert(attrs_nl_free(a)) by {
        if s.obscene == Some(true) {
            lemma_attr_one("amll:obscene"@, "true"@);
        }
    }
    let b: Seq<(Seq<char>, Seq<char>)> = match s.empty_beat {
        Some(n) => seq![("amll:empty-beat"@, dec(n as nat))],
        None => Seq::empty(),
    };
    assert(attrs_nl_free(b)) by {
        if let Some(n) = s.empty_beat {
            lemma_dec_free(n as nat);
            lemma_attr_one("amll:empty-beat"@, dec(n as nat));
        }
    }
    lemma_attrs_concat(a, b);
}

proof fn lemma_ruby_texts_free(rs: Seq<crate::model::RubyTagV>, k: int)
    requires
        k <= rs.len(),
        forall|j: int| 0 <= j < rs.len() ==> nl_free(#[trigger] rs[j].text),
    ensures
        ops_free_of_newline(ruby_texts_ops(rs, k)),
    decreases k,
{
    if k > 0 {
        lemma_literals();
        lemma_ruby_texts_free(rs, k - 1);
        let a = seq![("tts:ruby"@, "text"@)] + timing_attrs(rs[k - 1].start_time, rs[k - 1].end_time);
        lemma_attr_one("tts:ruby"@, "text"@);
        lemma_timing_attrs_free(rs[k - 1].start_time, rs[k - 1].end_time);
        lemma_attrs_concat(seq![("tts:ruby"@, "text"@)], timing_attrs(rs[k - 1].start_time, rs[k - 1].end_time));
        lemma_text_elem_free("span"@, a, rs[k - 1].text);
        lemma_ops_concat(ruby_texts_ops(rs, k - 1), text_elem("span"@, a, rs[k - 1].text));
    }
}

proof fn lemma_syllable_free(s: SyllableV, prefix: Option<Seq<char>>, suffix: Option<Seq<char>>)
    requires
        syllable_nl_free(s),
        opt_nl_free(prefix),
        opt_nl_free(suffix),
    ensures
        ops_free_of_newline(syllable_ops(s, prefix, suffix)),
{
    lemma_literals();
    lemma_amll_attrs_free(s);
    match s.ruby {
        Some(rs) => {
            let ca = seq![("tts:ruby"@, "container"@)] + amll_attrs(s);
            lemma_attr_one("tts:ruby"@, "container"@);
            lemma_attrs_concat(seq![("tts:ruby"@, "container"@)], amll_attrs(s));
            lemma_start_free("span"@, ca);
            lemma_attr_one("tts:ruby"@, "base"@);
            lemma_text_elem_free("span"@, seq![("tts:ruby"@, "base"@)], s.text);
            lemma_attr_one("tts:ruby"@, "textContainer"@);
            lemma_start_free("span"@, seq![("tts:ruby"@, "textContainer"@)]);
            lemma_ruby_texts_free(rs, rs.len() as int);
            let ends = seq![end_v("span"@), end_v("span"@)];
            lemma_ops_concat(seq![end_v("span"@)], seq![end_v("span"@)]);
            assert(seq![end_v("span"@)] + seq![end_v("span"@)] =~= ends);
            let p1 = seq![start_v("span"@, ca)];
            let p2 = text_elem("span"@, seq![("tts:ruby"@, "base"@)], s.text);
            let p3 = seq![start_v("span"@, seq![("tts:ruby"@, "textContainer"@)])];
            let p4 = ruby_texts_ops(rs, rs.len() as int);
            lemma_ops_concat(p1, p2);
            lemma_ops_concat(p1 + p2, p3);
            lemma_ops_concat(p1 + p2 + p3, p4);
            lemma_ops_concat(p1 + p2 + p3 + p4, ends);
        },
        None => {
            let a = timing_attrs(s.start_time, s.end_time) + amll_attrs(s);
            lemma_timing_attrs_free(s.start_time, s.end_time);
            lemma_attrs_concat(timing_attrs(s.start_time, s.end_time), amll_attrs(s));
            lemma_start_free("span"@, a);
            lemma_opt_free(prefix);
            lemma_opt_free(suffix);
            lemma_text_free(s.text);
            let p1 = seq![start_v("span"@, a)];
            lemma_ops_concat(p1, opt_text(prefix));
            lemma_ops_concat(p1 + opt_text(prefix), seq![text_v(s.text)]);
            lemma_ops_concat(p1 + opt_text(prefix) + seq![text_v(s.text)], opt_text(suffix));
            lemma_ops_concat(p1 + opt_text(prefix) + seq![text_v(s.text)] + opt_text(suffix), seq![end_v("span"@)]);
        },
    }
}

proof fn lemma_space_free()
    ensures
        ops_free_of_newline(seq![text_v(" "@)]),
        ops_free_of_newline(Seq::<XmlOpV>::empty()),
        nl_free(" "@),
{
    lemma_literals();
    lemma_text_free(" "@);
}

proof fn lemma_main_syls_free(ws: Seq<SyllableV>, k: int, format: bool)
    requires
        k <= ws.len(),
        syls_nl_free(ws),
    ensures
        ops_free_of_newline(main_syls_ops(ws, k, format)),
    decreases k,
{
    if k > 0 {
        lemma_main_syls_free(ws, k - 1, format);
        let s = ws[k - 1];
        assert(syllable_nl_free(s));
        let space_in_span = format && trailing(s) && s.ruby is None;
        let suf = if space_in_span {
            Some(" "@)
        } else {
            None
        };
        lemma_space_free();
        lemma_syllable_free(s, None, suf);
        let r: Seq<XmlOpV> = if trailing(s) && !space_in_span {
            seq![text_v(" "@)]
        } else {
            Seq::empty()
        };
        lemma_ops_concat(syllable_ops(s, None, suf), r);
        lemma_ops_concat(main_syls_ops(ws, k - 1, format), main_syl_ops(s, format));
    }
}

proof fn lemma_bg_syl_free(ws: Seq<SyllableV>, i: int, format: bool)
    requires
        0 <= i < ws.len(),
        syls_nl_free(ws),
    ensures
        ops_free_of_newline(bg_syl_ops(ws, i, format)),
{
    lemma_literals();
    lemma_space_free();
    let s = ws[i];
    assert(syllable_nl_free(s));
    let is_first = i == 0;
    let is_last = i == ws.len() - 1;
    lemma_text_free("("@);
    lemma_text_free(")"@);
    if s.ruby is Some {
        let p: Seq<XmlOpV> = if is_first {
            seq![text_v("("@)]
        } else {
            Seq::empty()
        };
        let q: Seq<XmlOpV> = if is_last {
            seq![text_v(")"@)]
        } else {
            Seq::empty()
        };
        let r: Seq<XmlOpV> = if trailing(s) {
            seq![text_v(" "@)]
        } else {
            Seq::empty()
        };
        lemma_syllable_free(s, None, None);
        lemma_ops_concat3(p, syllable_ops(s, None, None), q);
        lemma_ops_concat(p + syllable_ops(s, None, None) + q, r);
    } else {
        let space_in_span = format && trailing(s);
        let lastp: Seq<char> = if is_last {
            ")"@
        } else {
            Seq::empty()
        };
        assert(nl_free(Seq::<char>::empty()));
        lemma_text_concat(lastp, " "@);
        let suffix = if space_in_span {
            Some(lastp + " "@)
        } else if is_last {
            Some(")"@)
        } else {
            None
        };
        let prefix = if is_first {
            Some("("@)
        } else {
            None
        };
        let r: Seq<XmlOpV> = if trailing(s) && !space_in_span {
            seq![text_v(" "@)]
        } else {
            Seq::empty()
        };
        lemma_syllable_free(s, prefix, suffix);
        lemma_ops_concat(syllable_ops(s, prefix, suffix), r);
    }
}

proof fn lemma_bg_syls_free(ws: Seq<SyllableV>, k: int, format: bool)
    requires
        k <= ws.len(),
        syls_nl_free(ws),
    ensures
        ops_free_of_newline(bg_syls_ops(ws, k, format)),
    decreases k,
{
    if k > 0 {
        lemma_bg_syls_free(ws, k - 1, format);
        lemma_bg_syl_free(ws, k - 1, format);
        lemma_ops_concat(bg_syls_ops(ws, k - 1, format), bg_syl_ops(ws, k - 1, format));
    }
}

proof fn lemma_inline_list_free(cs: Seq<SubLyricContentV>, k: int, role: Seq<char>)
    requires
        k <= cs.len(),
        contents_nl_free(cs),
        nl_free(role),
    ensures
        ops_free_of_newline(inline_list_ops(cs, k, role)),
    decreases k,
{
    if k > 0 {
        lemma_literals();
        lemma_inline_list_free(cs, k - 1, role);
        assert(content_nl_free(cs[k - 1]));
        lemma_attr_one("ttm:role"@, role);
        lemma_lang_attrs_free(cs[k - 1].language);
        lemma_attrs_concat(seq![("ttm:role"@, role)], lang_attrs(cs[k - 1].language));
        lemma_text_elem_free("span"@, seq![("ttm:role"@, role)] + lang_attrs(cs[k - 1].language), cs[k - 1].text);
        lemma_ops_concat(
            inline_list_ops(cs, k - 1, role),
            text_elem("span"@, seq![("ttm:role"@, role)] + lang_attrs(cs[k - 1].language), cs[k - 1].text),
        );
    }
}

proof fn lemma_opt_inline_free(
    inline: bool,
    trans: Option<Seq<SubLyricContentV>>,
    roms: Option<Seq<SubLyricContentV>>,
    cfg: GeneratorConfig,
)
    requires
        opt_contents_nl_free(trans),
        opt_contents_nl_free(roms),
    ensures
        ops_free_of_newline(opt_inline_ops(inline, trans, roms, cfg)),
{
    lemma_literals();
    assert(ops_free_of_newline(inline_items_ops(trans, "x-translation"@, cfg))) by {
        if let Some(cs) = trans {
            lemma_inline_list_free(cs, cs.len() as int, "x-translation"@);
        }
    }
    assert(ops_free_of_newline(inline_items_ops(roms, "x-roman"@, cfg))) by {
        if let Some(cs) = roms {
            lemma_inline_list_free(cs, cs.len() as int, "x-roman"@);
        }
    }
    lemma_ops_concat(inline_items_ops(trans, "x-translation"@, cfg), inline_items_ops(roms, "x-roman"@, cfg));
}

proof fn lemma_bg_free(b: BackgroundVocalV, inline: bool, cfg: GeneratorConfig)
    requires
        bg_nl_free(b),
    ensures
        ops_free_of_newline(bg_ops(b, inline, cfg)),
{
    lemma_literals();
    let body = bg_body_ops(b, cfg.format);
    assert(ops_free_of_newline(body)) by {
        if b.words is Some && b.words->0.len() > 0 {
            lemma_bg_syls_free(b.words->0, b.words->0.len() as int, cfg.format);
        } else if b.text.len() > 0 {
            lemma_text_free("("@);
            lemma_text_free(b.text);
            lemma_text_free(")"@);
            lemma_ops_concat3(seq![text_v("("@)], seq![text_v(b.text)], seq![text_v(")"@)]);
            assert(body =~= seq![text_v("("@)] + seq![text_v(b.text)] + seq![text_v(")"@)]);
        }
    }
    let inl = opt_inline_ops(inline, b.translations, b.romanizations, cfg);
    lemma_opt_inline_free(inline, b.translations, b.romanizations, cfg);
    assert(attrs_nl_free(bg_attrs(b, cfg))) by {
        lemma_attr_one("ttm:role"@, "x-bg"@);
        lemma_timing_attrs_free(b.start_time, b.end_time);
        lemma_attrs_concat(seq![("ttm:role"@, "x-bg"@)], timing_attrs(b.start_time, b.end_time));
        lemma_attrs_concat(seq![("ttm:role"@, "x-bg"@)], Seq::empty());
        assert(seq![("ttm:role"@, "x-bg"@)] + Seq::<(Seq<char>, Seq<char>)>::empty() =~= seq![("ttm:role"@, "x-bg"@)]);
    }
    lemma_start_free("span"@, bg_attrs(b, cfg));
    lemma_ops_concat3(seq![start_v("span"@, bg_attrs(b, cfg))], body, inl);
    lemma_ops_concat(seq![start_v("span"@, bg_attrs(b, cfg))] + body + inl, seq![end_v("span"@)]);
}

proof fn lemma_line_spans_free(l: LyricLineV, inline: bool, cfg: GeneratorConfig)
    requires
        line_nl_free(l),
    ensures
        ops_free_of_newline(line_spans_ops(l, inline, cfg)),
{
    let inl = opt_inline_ops(inline, l.translations, l.romanizations, cfg);
    lemma_opt_inline_free(inline, l.translations, l.romanizations, cfg);
    assert(ops_free_of_newline(line_text_ops(l))) by {
        if l.text.len() > 0 {
            lemma_text_free(l.text);
        }
    }
    if cfg.line_timing {
        lemma_ops_concat(line_text_ops(l), inl);
    } else {
        let first = bg_first(l, cfg);
        assert(ops_free_of_newline(main_body_ops(l, cfg.format))) by {
            if l.words is Some && l.words->0.len() > 0 {
                lemma_main_syls_free(l.words->0, l.words->0.len() as int, cfg.format);
            }
        }
        assert(ops_free_of_newline(opt_bg_ops(l, first, inline, cfg))) by {
            if first && l.background_vocal is Some {
                lemma_bg_free(l.background_vocal->0, inline, cfg);
            }
        }
        assert(ops_free_of_newline(opt_bg_ops(l, !first, inline, cfg))) by {
            if !first && l.background_vocal is Some {
                lemma_bg_free(l.background_vocal->0, inline, cfg);
            }
        }
        lemma_ops_concat3(opt_bg_ops(l, first, inline, cfg), main_body_ops(l, cfg.format), inl);
        lemma_ops_concat(
            opt_bg_ops(l, first, inline, cfg) + main_body_ops(l, cfg.format) + inl,
            opt_bg_ops(l, !first, inline, cfg),
        );
    }
}

proof fn lemma_head_syl_text_free(ws: Seq<SyllableV>, i: int, is_bg: bool, format: bool)
    requires
        nl_free(ws[i].text),
    ensures
        nl_free(head_syl_text(ws, i, is_bg, format)),
{
    let t = ws[i].text;
    lemma_char_free('(');
    lemma_char_free(')');
    lemma_char_free(' ');
    lemma_text_concat(seq!['('], t);
    lemma_text_concat(seq!['('] + t, seq![')']);
    lemma_text_concat(t, seq![')']);
    let base = if is_bg {
        if ws.len() == 1 {
            seq!['('] + t + seq![')']
        } else if i == 0 {
            seq!['('] + t
        } else if i == ws.len() - 1 {
            t + seq![')']
        } else {
            t
        }
    } else {
        t
    };
    lemma_text_concat(base, seq![' ']);
    assert(base.push(' ') =~= base + seq![' ']);
}

proof fn lemma_head_syls_free(ws: Seq<SyllableV>, k: int, is_bg: bool, format: bool)
    requires
        k <= ws.len(),
        syls_nl_free(ws),
    ensures
        ops_free_of_newline(head_syls_ops(ws, k, is_bg, format)),
    decreases k,
{
    if k > 0 {
        lemma_literals();
        lemma_space_free();
        lemma_head_syls_free(ws, k - 1, is_bg, format);
        let i = k - 1;
        assert(syllable_nl_free(ws[i]));
        lemma_head_syl_text_free(ws, i, is_bg, format);
        lemma_timing_attrs_free(ws[i].start_time, ws[i].end_time);
        let e = text_elem("span"@, timing_attrs(ws[i].start_time, ws[i].end_time), head_syl_text(ws, i, is_bg, format));
        lemma_text_elem_free("span"@, timing_attrs(ws[i].start_time, ws[i].end_time), head_syl_text(ws, i, is_bg, format));
        let r: Seq<XmlOpV> = if trailing(ws[i]) && !format {
            seq![text_v(" "@)]
        } else {
            Seq::empty()
        };
        lemma_ops_concat(e, r);
        assert(head_syl_ops(ws, i, is_bg, format) == e + r);
        lemma_ops_concat(head_syls_ops(ws, k - 1, is_bg, format), head_syl_ops(ws, i, is_bg, format));
    }
}

proof fn lemma_content_free(c: SubLyricContentV, is_bg: bool, cfg: GeneratorConfig)
    requires
        content_nl_free(c),
    ensures
        ops_free_of_newline(content_ops(c, is_bg, cfg)),
{
    lemma_literals();
    if c.words is Some && !cfg.line_timing {
        lemma_head_syls_free(c.words->0, c.words->0.len() as int, is_bg, cfg.format);
    } else if is_bg {
        lemma_text_free("("@);
        lemma_text_free(c.text);
        lemma_text_free(")"@);
        lemma_ops_concat3(seq![text_v("("@)], seq![text_v(c.text)], seq![text_v(")"@)]);
        assert(content_ops(c, is_bg, cfg) =~= seq![text_v("("@)] + seq![text_v(c.text)] + seq![text_v(")"@)]);
    } else {
        lemma_text_free(c.text);
    }
}

proof fn lemma_find_lang_free(cs: Seq<SubLyricContentV>, lang: Option<Seq<char>>, i: int)
    requires
        contents_nl_free(cs),
    ensures
        find_lang_from(cs, lang, i) matches Some(c) ==> content_nl_free(c),
    decreases cs.len() - i,
{
    if 0 <= i < cs.len() {
        assert(content_nl_free(cs[i]));
        lemma_find_lang_free(cs, lang, i + 1);
    }
}

/// Whether no text of an entry of the head holds a line feed.
pub open spec fn entry_nl_free(e: SubEntry) -> bool {
    nl_free(e.id) && contents_nl_free(e.main) && opt_contents_nl_free(e.bg)
}

proof fn lemma_entry_text_free(e: SubEntry, lang: Option<Seq<char>>, cfg: GeneratorConfig)
    requires
        entry_nl_free(e),
    ensures
        ops_free_of_newline(entry_text_ops(e, lang, cfg)),
{
    lemma_literals();
    let m = find_lang(e.main, lang);
    let b = match e.bg {
        Some(bs) => find_lang(bs, lang),
        None => None,
    };
    lemma_find_lang_free(e.main, lang, 0);
    if let Some(bs) = e.bg {
        lemma_find_lang_free(bs, lang, 0);
    }
    if !(m is None && b is None) {
        let mo: Seq<XmlOpV> = match m {
            Some(c) => content_ops(c, false, cfg),
            None => Seq::empty(),
        };
        let bo: Seq<XmlOpV> = match b {
            Some(c) => seq![start_v("span"@, seq![("ttm:role"@, "x-bg"@)])] + content_ops(c, true, cfg) + seq![
                end_v("span"@),
            ],
            None => Seq::empty(),
        };
        assert(ops_free_of_newline(mo)) by {
            if let Some(c) = m {
                lemma_content_free(c, false, cfg);
            }
        }
        assert(ops_free_of_newline(bo)) by {
            if let Some(c) = b {
                lemma_content_free(c, true, cfg);
                lemma_attr_one("ttm:role"@, "x-bg"@);
                lemma_wrap_free("span"@, seq![("ttm:role"@, "x-bg"@)], content_ops(c, true, cfg));
            }
        }
        lemma_attr_one("for"@, e.id);
        lemma_start_free("text"@, seq![("for"@, e.id)]);
        lemma_ops_concat3(seq![start_v("text"@, seq![("for"@, e.id)])], mo, bo);
        lemma_ops_concat(seq![start_v("text"@, seq![("for"@, e.id)])] + mo + bo, seq![end_v("text"@)]);
    }
}

proof fn lemma_entries_text_free(es: Seq<SubEntry>, k: int, lang: Option<Seq<char>>, cfg: GeneratorConfig)
    requires
        k <= es.len(),
        forall|j: int| 0 <= j < es.len() ==> entry_nl_free(#[trigger] es[j]),
    ensures
        ops_free_of_newline(entries_text_ops(es, k, lang, cfg)),
    decreases k,
{
    if k > 0 {
        lemma_entries_text_free(es, k - 1, lang, cfg);
        lemma_entry_text_free(es[k - 1], lang, cfg);
        lemma_ops_concat(entries_text_ops(es, k - 1, lang, cfg), entry_text_ops(es[k - 1], lang, cfg));
    }
}

/// Whether no language of a list holds a line feed.
pub open spec fn langs_nl_free(s: Seq<Option<Seq<char>>>) -> bool {
    forall|k: int| 0 <= k < s.len() ==> opt_nl_free(#[trigger] s[k])
}

proof fn lemma_kind_tags_free(kind: SubLyricKind)
    ensures
        nl_free(spec_group_tag(kind)),
        nl_free(spec_item_tag(kind)),
{
    lemma_literals();
}

proof fn lemma_items_free(
    langs: Seq<Option<Seq<char>>>,
    k: int,
    es: Seq<SubEntry>,
    kind: SubLyricKind,
    cfg: GeneratorConfig,
)
    requires
        k <= langs.len(),
        langs_nl_free(langs),
        forall|j: int| 0 <= j < es.len() ==> entry_nl_free(#[trigger] es[j]),
    ensures
        ops_free_of_newline(items_ops(langs, k, es, kind, cfg)),
    decreases k,
{
    if k > 0 {
        lemma_items_free(langs, k - 1, es, kind, cfg);
        lemma_kind_tags_free(kind);
        assert(opt_nl_free(langs[k - 1]));
        lemma_lang_attrs_free(langs[k - 1]);
        lemma_entries_text_free(es, es.len() as int, langs[k - 1], cfg);
        lemma_start_free(spec_item_tag(kind), lang_attrs(langs[k - 1]));
        let prev = items_ops(langs, k - 1, es, kind, cfg);
        let st = seq![start_v(spec_item_tag(kind), lang_attrs(langs[k - 1]))];
        let body = entries_text_ops(es, es.len() as int, langs[k - 1], cfg);
        lemma_ops_concat(prev, st);
        lemma_ops_concat(prev + st, body);
        lemma_ops_concat(prev + st + body, seq![end_v(spec_item_tag(kind))]);
    }
}

proof fn lemma_keep_head_free(o: Option<Seq<SubLyricContentV>>, cfg: GeneratorConfig)
    requires
        opt_contents_nl_free(o),
    ensures
        opt_contents_nl_free(keep_head(o, cfg)),
        contents_nl_free(or_empty(keep_head(o, cfg))),
{
}

proof fn lemma_sub_entries_free(ls: Seq<LyricLineV>, kind: SubLyricKind, cfg: GeneratorConfig)
    requires
        lines_nl_free(ls),
    ensures
        forall|j: int|
            0 <= j < sub_entries(ls, kind, cfg).len() ==> entry_nl_free(#[trigger] sub_entries(ls, kind, cfg)[j]),
    decreases ls.len(),
{
    if ls.len() > 0 {
        let prev = ls.drop_last();
        assert(lines_nl_free(prev)) by {
            assert forall|k: int| 0 <= k < prev.len() implies line_nl_free(#[trigger] prev[k]) by {
                assert(prev[k] == ls[k]);
            }
        }
        lemma_sub_entries_free(prev, kind, cfg);
        let l = ls.last();
        assert(line_nl_free(l));
        lemma_keep_head_free(kind_subs(l, kind), cfg);
        if let Some(b) = l.background_vocal {
            lemma_keep_head_free(bg_kind_subs(b, kind), cfg);
        }
        let es = sub_entries(prev, kind, cfg);
        if let Some(e) = sub_entry(l, kind, cfg) {
            assert(entry_nl_free(e));
            assert forall|j: int| 0 <= j < es.push(e).len() implies entry_nl_free(#[trigger] es.push(e)[j]) by {
                if j < es.len() {
                    assert(es.push(e)[j] == es[j]);
                }
            }
        }
    }
}

proof fn lemma_lang_insert_free(s: Seq<Option<Seq<char>>>, x: Option<Seq<char>>, i: int)
    requires
        langs_nl_free(s),
        opt_nl_free(x),
    ensures
        langs_nl_free(lang_insert_from(s, x, i)),
    decreases s.len() - i,
{
    if i < 0 || i >= s.len() {
        assert forall|k: int| 0 <= k < s.push(x).len() implies opt_nl_free(#[trigger] s.push(x)[k]) by {
            if k < s.len() {
                assert(s.push(x)[k] == s[k]);
            }
        }
    } else if s[i] == x {
    } else if crate::generator::sub_lyric::lang_lt(x, s[i]) {
        assert forall|k: int| 0 <= k < s.insert(i, x).len() implies opt_nl_free(#[trigger] s.insert(i, x)[k]) by {
            if k < i {
                assert(s.insert(i, x)[k] == s[k]);
            } else if k > i {
                assert(s.insert(i, x)[k] == s[k - 1]);
            }
        }
    } else {
        lemma_lang_insert_free(s, x, i + 1);
    }
}

proof fn lemma_langs_of_free(s: Seq<Option<Seq<char>>>, cs: Seq<SubLyricContentV>)
    requires
        langs_nl_free(s),
        contents_nl_free(cs),
    ensures
        langs_nl_free(langs_of(s, cs)),
    decreases cs.len(),
{
    if cs.len() > 0 {
        let prev = cs.drop_last();
        assert(contents_nl_free(prev)) by {
            assert forall|k: int| 0 <= k < prev.len() implies content_nl_free(#[trigger] prev[k]) by {
                assert(prev[k] == cs[k]);
            }
        }
        lemma_langs_of_free(s, prev);
        assert(content_nl_free(cs.last()));
        lemma_lang_insert_free(langs_of(s, prev), cs.last().language, 0);
    }
}

proof fn lemma_entries_langs_free(es: Seq<SubEntry>)
    requires
        forall|j: int| 0 <= j < es.len() ==> entry_nl_free(#[trigger] es[j]),
    ensures
        langs_nl_free(entries_langs(es)),
    decreases es.len(),
{
    if es.len() > 0 {
        let prev = es.drop_last();
        assert forall|j: int| 0 <= j < prev.len() implies entry_nl_free(#[trigger] prev[j]) by {
            assert(prev[j] == es[j]);
        }
        lemma_entries_langs_free(prev);
        let e = es.last();
        assert(entry_nl_free(e));
        lemma_langs_of_free(entries_langs(prev), e.main);
        lemma_langs_of_free(langs_of(entries_langs(prev), e.main), or_empty(e.bg));
    }
}

proof fn lemma_sub_lyrics_free(ls: Seq<LyricLineV>, kind: SubLyricKind, cfg: GeneratorConfig)
    requires
        lines_nl_free(ls),
    ensures
        ops_free_of_newline(spec_sub_lyrics_ops(ls, kind, cfg)),
{
    let es = sub_entries(ls, kind, cfg);
    if es.len() > 0 {
        lemma_sub_entries_free(ls, kind, cfg);
        let langs = entries_langs(es);
        lemma_entries_langs_free(es);
        lemma_items_free(langs, langs.len() as int, es, kind, cfg);
        lemma_kind_tags_free(kind);
        lemma_attrs_empty();
        lemma_wrap_free(spec_group_tag(kind), Seq::empty(), items_ops(langs, langs.len() as int, es, kind, cfg));
    }
}

proof fn lemma_agent_free(a: AgentV)
    requires
        agent_nl_free(a),
    ensures
        ops_free_of_newline(agent_ops(a)),
{
    lemma_literals();
    let attrs = (match a.type_ {
        Some(t) => seq![("type"@, t)],
        None => Seq::empty(),
    }) + seq![("xml:id"@, a.id)];
    lemma_opt_attr("type"@, a.type_);
    lemma_attr_one("xml:id"@, a.id);
    lemma_attrs_concat(
        match a.type_ {
            Some(t) => seq![("type"@, t)],
            None => Seq::empty(),
        },
        seq![("xml:id"@, a.id)],
    );
    lemma_start_free("ttm:agent"@, attrs);
    if let Some(n) = a.name {
        lemma_attrs_empty();
        lemma_text_elem_free("ttm:name"@, Seq::empty(), n);
        lemma_ops_concat3(seq![start_v("ttm:agent"@, attrs)], text_elem("ttm:name"@, Seq::empty(), n), seq![
            end_v("ttm:agent"@),
        ]);
    }
}

proof fn lemma_agents_list_free(es: Seq<(Seq<char>, AgentV)>, k: int)
    requires
        k <= es.len(),
        forall|j: int| 0 <= j < es.len() ==> agent_nl_free(#[trigger] es[j].1),
    ensures
        ops_free_of_newline(agents_list_ops(es, k)),
    decreases k,
{
    if k > 0 {
        lemma_agents_list_free(es, k - 1);
        lemma_agent_free(es[k - 1].1);
        lemma_ops_concat(agents_list_ops(es, k - 1), agent_ops(es[k - 1].1));
    }
}

proof fn lemma_text_insert_free(s: Seq<Seq<char>>, x: Seq<char>, i: int)
    requires
        texts_nl_free(s),
        nl_free(x),
    ensures
        texts_nl_free(text_insert_from(s, x, i)),
    decreases s.len() - i,
{
    if i < 0 || i >= s.len() {
        assert forall|k: int| 0 <= k < s.push(x).len() implies nl_free(#[trigger] s.push(x)[k]) by {
            if k < s.len() {
                assert(s.push(x)[k] == s[k]);
            }
        }
    } else if s[i] == x {
    } else if crate::generator::sub_lyric::text_lt_from(x, s[i], 0) {
        assert forall|k: int| 0 <= k < s.insert(i, x).len() implies nl_free(#[trigger] s.insert(i, x)[k]) by {
            if k < i {
                assert(s.insert(i, x)[k] == s[k]);
            } else if k > i {
                assert(s.insert(i, x)[k] == s[k - 1]);
            }
        }
    } else {
        lemma_text_insert_free(s, x, i + 1);
    }
}

proof fn lemma_line_agent_ids_free(ls: Seq<LyricLineV>)
    requires
        lines_nl_free(ls),
    ensures
        texts_nl_free(line_agent_ids(ls)),
    decreases ls.len(),
{
    if ls.len() > 0 {
        let prev = ls.drop_last();
        assert(lines_nl_free(prev)) by {
            assert forall|k: int| 0 <= k < prev.len() implies line_nl_free(#[trigger] prev[k]) by {
                assert(prev[k] == ls[k]);
            }
        }
        lemma_line_agent_ids_free(prev);
        assert(line_nl_free(ls.last()));
        if let Some(a) = ls.last().agent_id {
            lemma_text_insert_free(line_agent_ids(prev), a, 0);
        }
    }
}

proof fn lemma_persons_free(ids: Seq<Seq<char>>, k: int)
    requires
        k <= ids.len(),
        texts_nl_free(ids),
    ensures
        ops_free_of_newline(persons_ops(ids, k)),
    decreases k,
{
    if k > 0 {
        lemma_literals();
        lemma_persons_free(ids, k - 1);
        assert(nl_free(ids[k - 1]));
        lemma_attr_one("type"@, "person"@);
        lemma_attr_one("xml:id"@, ids[k - 1]);
        lemma_attrs_concat(seq![("type"@, "person"@)], seq![("xml:id"@, ids[k - 1])]);
        assert(seq![("type"@, "person"@)] + seq![("xml:id"@, ids[k - 1])] =~= person_attrs(ids[k - 1]));
        lemma_start_free("ttm:agent"@, person_attrs(ids[k - 1]));
        lemma_ops_concat(persons_ops(ids, k - 1), seq![empty_v("ttm:agent"@, person_attrs(ids[k - 1]))]);
    }
}

proof fn lemma_agents_free(m: TTMLMetadataV, ls: Seq<LyricLineV>)
    requires
        metadata_nl_free(m),
        lines_nl_free(ls),
    ensures
        ops_free_of_newline(agents_ops(m, ls)),
{
    lemma_literals();
    match m.agents {
        Some(es) => lemma_agents_list_free(es, es.len() as int),
        None => {
            let ids = line_agent_ids(ls);
            lemma_line_agent_ids_free(ls);
            lemma_persons_free(ids, ids.len() as int);
            lemma_attr_one("type"@, "person"@);
            lemma_attr_one("xml:id"@, "v1"@);
            lemma_attrs_concat(seq![("type"@, "person"@)], seq![("xml:id"@, "v1"@)]);
            assert(seq![("type"@, "person"@)] + seq![("xml:id"@, "v1"@)] =~= person_attrs("v1"@));
            lemma_start_free("ttm:agent"@, person_attrs("v1"@));
        },
    }
}

proof fn lemma_metas_free(key: Seq<char>, vals: Seq<Seq<char>>, k: int)
    requires
        k <= vals.len(),
        nl_free(key),
        texts_nl_free(vals),
    ensures
        ops_free_of_newline(meta_ops(key, vals, k)),
    decreases k,
{
    if k > 0 {
        lemma_literals();
        lemma_metas_free(key, vals, k - 1);
        assert(nl_free(vals[k - 1]));
        lemma_attr_one("key"@, key);
        lemma_attr_one("value"@, vals[k - 1]);
        lemma_attrs_concat(seq![("key"@, key)], seq![("value"@, vals[k - 1])]);
        assert(seq![("key"@, key)] + seq![("value"@, vals[k - 1])] =~= seq![("key"@, key), ("value"@, vals[k - 1])]);
        lemma_start_free("amll:meta"@, seq![("key"@, key), ("value"@, vals[k - 1])]);
        lemma_ops_concat(
            meta_ops(key, vals, k - 1),
            seq![empty_v("amll:meta"@, seq![("key"@, key), ("value"@, vals[k - 1])])],
        );
    }
}

proof fn lemma_opt_metas_free(key: Seq<char>, o: Option<Seq<Seq<char>>>)
    requires
        nl_free(key),
        opt_texts_nl_free(o),
    ensures
        ops_free_of_newline(opt_meta_ops(key, o)),
{
    if let Some(v) = o {
        lemma_metas_free(key, v, v.len() as int);
    }
}

proof fn lemma_platform_metas_free(es: Seq<(PlatformId, Seq<Seq<char>>)>, k: int)
    requires
        k <= es.len(),
        forall|j: int| 0 <= j < es.len() ==> texts_nl_free(#[trigger] es[j].1),
    ensures
        ops_free_of_newline(platform_metas_ops(es, k)),
    decreases k,
{
    if k > 0 {
        lemma_literals();
        lemma_platform_metas_free(es, k - 1);
        assert(texts_nl_free(es[k - 1].1));
        assert(nl_free(platform_key(es[k - 1].0)));
        lemma_metas_free(platform_key(es[k - 1].0), es[k - 1].1, es[k - 1].1.len() as int);
        lemma_ops_concat(
            platform_metas_ops(es, k - 1),
            meta_ops(platform_key(es[k - 1].0), es[k - 1].1, es[k - 1].1.len() as int),
        );
    }
}

proof fn lemma_raw_metas_free(es: Seq<(Seq<char>, Seq<Seq<char>>)>, k: int)
    requires
        k <= es.len(),
        forall|j: int| 0 <= j < es.len() ==> nl_free(#[trigger] es[j].0) && texts_nl_free(es[j].1),
    ensures
        ops_free_of_newline(raw_metas_ops(es, k)),
    decreases k,
{
    if k > 0 {
        lemma_raw_metas_free(es, k - 1);
        assert(nl_free(es[k - 1].0) && texts_nl_free(es[k - 1].1));
        lemma_metas_free(es[k - 1].0, es[k - 1].1, es[k - 1].1.len() as int);
        lemma_ops_concat(raw_metas_ops(es, k - 1), meta_ops(es[k - 1].0, es[k - 1].1, es[k - 1].1.len() as int));
    }
}

proof fn lemma_amll_metas_free(m: TTMLMetadataV)
    requires
        metadata_nl_free(m),
    ensures
        ops_free_of_newline(amll_metas_ops(m)),
{
    lemma_literals();
    let pe = or_empty(m.platform_ids);
    let re = or_empty(m.raw_properties);
    let a = opt_meta_ops("musicName"@, m.title);
    let b = opt_meta_ops("artists"@, m.artist);
    let c = opt_meta_ops("album"@, m.album);
    let d = opt_meta_ops("isrc"@, m.isrc);
    let e = platform_metas_ops(pe, pe.len() as int);
    let f = opt_meta_ops("ttmlAuthorGithub"@, m.author_ids);
    let g = opt_meta_ops("ttmlAuthorGithubLogin"@, m.author_names);
    let h = raw_metas_ops(re, re.len() as int);
    lemma_opt_metas_free("musicName"@, m.title);
    lemma_opt_metas_free("artists"@, m.artist);
    lemma_opt_metas_free("album"@, m.album);
    lemma_opt_metas_free("isrc"@, m.isrc);
    lemma_platform_metas_free(pe, pe.len() as int);
    lemma_opt_metas_free("ttmlAuthorGithub"@, m.author_ids);
    lemma_opt_metas_free("ttmlAuthorGithubLogin"@, m.author_names);
    lemma_raw_metas_free(re, re.len() as int);
    lemma_ops_concat3(a, b, c);
    lemma_ops_concat3(a + b + c, d, e);
    lemma_ops_concat3(a + b + c + d + e, f, g);
    lemma_ops_concat(a + b + c + d + e + f + g, h);
}

proof fn lemma_songwriters_free(sw: Seq<Seq<char>>, k: int)
    requires
        k <= sw.len(),
        texts_nl_free(sw),
    ensures
        ops_free_of_newline(songwriter_list_ops(sw, k)),
    decreases k,
{
    if k > 0 {
        lemma_literals();
        lemma_attrs_empty();
        lemma_songwriters_free(sw, k - 1);
        assert(nl_free(sw[k - 1]));
        lemma_text_elem_free("songwriter"@, Seq::empty(), sw[k - 1]);
        lemma_ops_concat(songwriter_list_ops(sw, k - 1), text_elem("songwriter"@, Seq::empty(), sw[k - 1]));
    }
}

proof fn lemma_itunes_free(m: TTMLMetadataV, ls: Seq<LyricLineV>, cfg: GeneratorConfig)
    requires
        metadata_nl_free(m),
        lines_nl_free(ls),
    ensures
        ops_free_of_newline(itunes_ops(m, ls, cfg)),
{
    lemma_literals();
    lemma_attrs_empty();
    let t = spec_sub_lyrics_ops(ls, SubLyricKind::Translation, cfg);
    let r = spec_sub_lyrics_ops(ls, SubLyricKind::Transliteration, cfg);
    let sw: Seq<XmlOpV> = if has_songwriters(m) {
        seq![start_v("songwriters"@, Seq::empty())] + songwriter_list_ops(
            m.songwriters->0,
            m.songwriters->0.len() as int,
        ) + seq![end_v("songwriters"@)]
    } else {
        Seq::empty()
    };
    lemma_sub_lyrics_free(ls, SubLyricKind::Translation, cfg);
    lemma_sub_lyrics_free(ls, SubLyricKind::Transliteration, cfg);
    assert(ops_free_of_newline(sw)) by {
        if has_songwriters(m) {
            lemma_songwriters_free(m.songwriters->0, m.songwriters->0.len() as int);
            lemma_wrap_free(
                "songwriters"@,
                Seq::empty(),
                songwriter_list_ops(m.songwriters->0, m.songwriters->0.len() as int),
            );
        }
    }
    let xa = seq![("xmlns"@, "http://music.apple.com/lyric-ttml-internal"@)];
    lemma_attr_one("xmlns"@, "http://music.apple.com/lyric-ttml-internal"@);
    lemma_start_free("iTunesMetadata"@, xa);
    let st = seq![start_v("iTunesMetadata"@, xa)];
    lemma_ops_concat(st, t);
    lemma_ops_concat(st + t, r);
    lemma_ops_concat(st + t + r, sw);
    lemma_ops_concat(st + t + r + sw, seq![end_v("iTunesMetadata"@)]);
}

proof fn lemma_head_free(m: TTMLMetadataV, ls: Seq<LyricLineV>, cfg: GeneratorConfig)
    requires
        metadata_nl_free(m),
        lines_nl_free(ls),
    ensures
        ops_free_of_newline(head_ops(m, ls, cfg)),
{
    lemma_literals();
    lemma_attrs_empty();
    lemma_start_free("head"@, Seq::empty());
    lemma_start_free("metadata"@, Seq::empty());
    let p = seq![start_v("head"@, Seq::empty()), start_v("metadata"@, Seq::empty())];
    let q = seq![end_v("metadata"@), end_v("head"@)];
    lemma_ops_concat(seq![start_v("head"@, Seq::empty())], seq![start_v("metadata"@, Seq::empty())]);
    assert(seq![start_v("head"@, Seq::empty())] + seq![start_v("metadata"@, Seq::empty())] =~= p);
    lemma_ops_concat(seq![end_v("metadata"@)], seq![end_v("head"@)]);
    assert(seq![end_v("metadata"@)] + seq![end_v("head"@)] =~= q);
    let a = agents_ops(m, ls);
    let b = amll_metas_ops(m);
    let c = itunes_ops(m, ls, cfg);
    lemma_agents_free(m, ls);
    lemma_amll_metas_free(m);
    lemma_itunes_free(m, ls, cfg);
    lemma_ops_concat(p, a);
    lemma_ops_concat(p + a, b);
    lemma_ops_concat(p + a + b, c);
    lemma_ops_concat(p + a + b + c, q);
}

proof fn lemma_line_free(l: LyricLineV, cfg: GeneratorConfig, all_id: bool, index: nat)
    requires
        line_nl_free(l),
    ensures
        ops_free_of_newline(line_ops(l, cfg, all_id, index)),
{
    lemma_literals();
    let key: Seq<(Seq<char>, Seq<char>)> = if all_id {
        match l.id {
            Some(id) => seq![("itunes:key"@, id)],
            None => Seq::empty(),
        }
    } else {
        seq![("itunes:key"@, line_key(index))]
    };
    let agent: Seq<(Seq<char>, Seq<char>)> = match l.agent_id {
        Some(a) => seq![("ttm:agent"@, a)],
        None => Seq::empty(),
    };
    assert(attrs_nl_free(key)) by {
        if all_id {
            lemma_opt_attr("itunes:key"@, l.id);
        } else {
            lemma_line_key_free(index);
            lemma_attr_one("itunes:key"@, line_key(index));
        }
    }
    lemma_opt_attr("ttm:agent"@, l.agent_id);
    lemma_timing_attrs_free(l.start_time, l.end_time);
    let times = seq![("begin"@, spec_format_timestamp(l.start_time)), ("end"@, spec_format_timestamp(l.end_time))];
    assert(times =~= timing_attrs(l.start_time, l.end_time));
    lemma_attrs_concat(times, key);
    lemma_attrs_concat(times + key, agent);
    lemma_start_free("p"@, times + key + agent);
    let inline = crate::generator::sub_lyric::spec_has_inline_sub_lyrics(l, cfg);
    lemma_line_spans_free(l, inline, cfg);
    lemma_ops_concat3(seq![start_v("p"@, times + key + agent)], line_spans_ops(l, inline, cfg), seq![end_v("p"@)]);
}

proof fn lemma_lines_free(ls: Seq<LyricLineV>, from: int, to: int, cfg: GeneratorConfig, all_id: bool, index: nat)
    requires
        0 <= from,
        to <= ls.len(),
        lines_nl_free(ls),
    ensures
        ops_free_of_newline(lines_ops(ls, from, to, cfg, all_id, index)),
    decreases to - from,
{
    if from < to {
        lemma_lines_free(ls, from, to - 1, cfg, all_id, index);
        assert(line_nl_free(ls[to - 1]));
        lemma_line_free(ls[to - 1], cfg, all_id, (index + (to - 1 - from)) as nat);
        lemma_ops_concat(
            lines_ops(ls, from, to - 1, cfg, all_id, index),
            line_ops(ls[to - 1], cfg, all_id, (index + (to - 1 - from)) as nat),
        );
    }
}

proof fn lemma_sections_free(ls: Seq<LyricLineV>, i: int, cfg: GeneratorConfig, all_id: bool)
    requires
        lines_nl_free(ls),
    ensures
        ops_free_of_newline(sections_ops(ls, i, cfg, all_id)),
    decreases ls.len() - i,
{
    if 0 <= i < ls.len() {
        let e = chunk_end(ls, i + 1);
        if i < e <= ls.len() {
            lemma_literals();
            let chunk = ls.subrange(i, e);
            let lo = min_start(chunk, chunk.len() as int, cfg);
            let hi = max_end(chunk, chunk.len() as int, cfg);
            let t: Seq<(Seq<char>, Seq<char>)> = if lo <= hi {
                seq![("begin"@, spec_format_timestamp(lo)), ("end"@, spec_format_timestamp(hi))]
            } else {
                Seq::empty()
            };
            assert(attrs_nl_free(t)) by {
                if lo <= hi {
                    lemma_timing_attrs_free(lo, hi);
                    assert(t =~= timing_attrs(lo, hi));
                }
            }
            assert(line_nl_free(ls[i]));
            lemma_opt_attr("itunes:songPart"@, ls[i].song_part);
            lemma_attrs_concat(
                t,
                match ls[i].song_part {
                    Some(p) => seq![("itunes:songPart"@, p)],
                    None => Seq::empty(),
                },
            );
            let body = lines_ops(ls, i, e, cfg, all_id, (i + 1) as nat);
            lemma_lines_free(ls, i, e, cfg, all_id, (i + 1) as nat);
            lemma_wrap_free("div"@, div_attrs(ls, i, e, cfg), body);
            lemma_sections_free(ls, e, cfg, all_id);
            lemma_ops_concat(
                seq![start_v("div"@, div_attrs(ls, i, e, cfg))] + body + seq![end_v("div"@)],
                sections_ops(ls, e, cfg, all_id),
            );
        }
    }
}

proof fn lemma_body_free(ls: Seq<LyricLineV>, cfg: GeneratorConfig)
    requires
        lines_nl_free(ls),
    ensures
        ops_free_of_newline(body_ops(ls, cfg)),
{
    lemma_literals();
    let m = max_end(ls, ls.len() as int, cfg);
    let a: Seq<(Seq<char>, Seq<char>)> = if m > 0 {
        seq![("dur"@, spec_format_timestamp(m))]
    } else {
        Seq::empty()
    };
    assert(attrs_nl_free(a)) by {
        if m > 0 {
            lemma_timestamp_free(m);
            lemma_attr_one("dur"@, spec_format_timestamp(m));
        }
    }
    let all_id = all_have_id(ls);
    lemma_sections_free(ls, 0, cfg, all_id);
    lemma_wrap_free("body"@, a, sections_ops(ls, 0, cfg, all_id));
}

/// A lyric none of whose texts, ids or metadata values holds a line feed gives a document
/// none of whose events holds one, whatever the configuration; written without indentation,
/// the document is a single line.
pub proof fn lemma_document_free_of_newline(r: TTMLResultV, cfg: GeneratorConfig)
    requires
        lyric_nl_free(r),
    ensures
        ops_free_of_newline(spec_document_ops(r, cfg)),
{
    lemma_literals();
    let m = r.metadata;
    let x = seq![
        ("xmlns"@, "http://www.w3.org/ns/ttml"@),
        ("xmlns:itunes"@, "http://music.apple.com/lyric-ttml-internal"@),
        ("xmlns:ttm"@, "http://www.w3.org/ns/ttml#metadata"@),
        ("xmlns:tts"@, "http://www.w3.org/ns/ttml#styling"@),
        ("xmlns:amll"@, "http://www.example.com/ns/amll"@),
    ];
    assert(attrs_nl_free(x)) by {
        assert forall|k: int| 0 <= k < x.len() implies nl_free(#[trigger] x[k].0) && nl_free(x[k].1) by {
            if k == 0 {
            } else if k == 1 {
            } else if k == 2 {
            } else if k == 3 {
            } else {
            }
        }
    }
    let tm: Seq<(Seq<char>, Seq<char>)> = if cfg.line_timing {
        seq![("itunes:timing"@, "Line"@)]
    } else {
        match m.timing_mode {
            Some(t) => seq![("itunes:timing"@, t)],
            None => Seq::empty(),
        }
    };
    assert(attrs_nl_free(tm)) by {
        if cfg.line_timing {
            lemma_attr_one("itunes:timing"@, "Line"@);
        } else {
            lemma_opt_attr("itunes:timing"@, m.timing_mode);
        }
    }
    lemma_opt_attr("xml:lang"@, m.language);
    lemma_attrs_concat(x, tm);
    lemma_attrs_concat(
        x + tm,
        match m.language {
            Some(l) => seq![("xml:lang"@, l)],
            None => Seq::empty(),
        },
    );
    lemma_start_free("tt"@, tt_attrs(m, cfg));
    lemma_head_free(m, r.lines, cfg);
    lemma_body_free(r.lines, cfg);
    let st = seq![start_v("tt"@, tt_attrs(m, cfg))];
    lemma_ops_concat(st, head_ops(m, r.lines, cfg));
    lemma_ops_concat(st + head_ops(m, r.lines, cfg), body_ops(r.lines, cfg));
    lemma_ops_concat(st + head_ops(m, r.lines, cfg) + body_ops(r.lines, cfg), seq![end_v("tt"@)]);
}

} // verus!
