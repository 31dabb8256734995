//! What reading the lines of a document keeps, whatever the document.

use vstd::prelude::*;
use crate::model::{meta_list, spaced_words, LyricLineV, MetaList, TTMLMetadataV};
use crate::parser::head::spec_amll_meta;
use crate::text::trim_s;
use crate::parser::body::{
    lemma_body_range, lemma_line_block, lemma_section_loop_block, lemma_section_range,
    opt_unmarked, spec_body, spec_line, spec_post_process, spec_section, spec_song_part,
};
use crate::parser::head::{lemma_head_range, spec_head};
use crate::parser::state::{initial_context, pop_tag, push_tag, utf8_text, ParserContextV};
use crate::parser::utils::spec_find_attr;
use crate::parser::{spec_document, spec_parse_events};
use crate::text::is_ws;
use crate::utils::{
    is_normalized_text, lemma_full_text_no_trailing_space, lemma_normalize_line_text_idempotent,
    spec_normalize_line_text,
};
use crate::xml::{start_attrs, XmlAttrV, XmlTokenV};

verus! {

/// The text of a finished line never ends with a space, whether it was built from the
/// syllables or taken from the raw text.
pub proof fn lemma_post_processed_text(l: LyricLineV, raw: Seq<char>)
    ensures
        spec_post_process(l, raw).text.len() == 0 || spec_post_process(l, raw).text.last() != ' ',
{
    let ws0 = opt_unmarked(l.words);
    if ws0 is Some && ws0->0.len() > 0 {
        lemma_full_text_no_trailing_space(spaced_words(ws0->0), false);
    } else {
        lemma_normalize_line_text_idempotent(raw);
        let n = spec_normalize_line_text(raw);
        if n.len() > 0 && n.last() == ' ' {
            assert(is_ws(n[n.len() - 1]));
            assert(is_normalized_text(n));
        }
    }
}

/// Leaving a `<p>` clears the id of the current line.
pub proof fn lemma_line_clears_id(tv: Seq<XmlTokenV>, i: int, ctx: ParserContextV, attrs: Seq<XmlAttrV>, pos: u64)
    ensures
        spec_line(tv, i, ctx, attrs, pos) matches Ok((c, _, _)) ==> c.current_line_id is None,
{
}


/// The block index that follows `b`: one more, back to 0 after `u32::MAX`.
pub open spec fn next_block_index(b: u32) -> u32 {
    if b == u32::MAX {
        0
    } else {
        (b + 1) as u32
    }
}

/// A `<p>` gives one line, placed in the block being read: the line carries the song part and
/// the block index of the state, and the state keeps both.
pub proof fn lemma_line_in_block(tv: Seq<XmlTokenV>, i: int, ctx: ParserContextV, attrs: Seq<XmlAttrV>, pos: u64)
    ensures
        spec_line(tv, i, ctx, attrs, pos) matches Ok((c, l, _)) ==> {
            &&& l.song_part == ctx.last_song_part
            &&& l.block_index == Some(ctx.current_block_index)
            &&& c.last_song_part == ctx.last_song_part
            &&& c.current_block_index == ctx.current_block_index
        },
{
    lemma_line_block(tv, i, ctx, attrs, pos);
}

/// Reading a `<div>` keeps the lines read before it, in order, and appends the lines of its
/// `<p>`s after them. The block takes the next block index and its song part
/// (`itunes:songPart`, or else `itunes:song-part`), and every line it appends carries both.
pub proof fn lemma_section_lines(
    tv: Seq<XmlTokenV>,
    i: int,
    ctx: ParserContextV,
    lines: Seq<LyricLineV>,
    attrs: Seq<XmlAttrV>,
    pos: u64,
)
    ensures
        spec_section(tv, i, ctx, lines, attrs, pos) matches Ok((c, ls, _)) ==> {
            &&& spec_song_part(attrs, pos, ctx) matches Ok(part)
            &&& c.last_song_part == part
            &&& c.current_block_index == next_block_index(ctx.current_block_index)
            &&& lines.len() <= ls.len()
            &&& ls.subrange(0, lines.len() as int) == lines
            &&& forall|k: int|
                lines.len() <= k < ls.len() ==> (#[trigger] ls[k]).song_part == part
                    && ls[k].block_index == Some(next_block_index(ctx.current_block_index))
        },
{
    if let Ok(part) = spec_song_part(attrs, pos, ctx) {
        let c0 = ParserContextV {
            current_block_index: next_block_index(ctx.current_block_index),
            last_song_part: part,
            ..ctx
        };
        lemma_section_loop_block(tv, i, c0, lines);
    }
}

/// Reading the `<body>` keeps the lines read before it, in order, and appends the lines of
/// its blocks after them; every line it appends belongs to a block.
pub proof fn lemma_body_lines(tv: Seq<XmlTokenV>, i: int, ctx: ParserContextV, lines: Seq<LyricLineV>)
    ensures
        spec_body(tv, i, ctx, lines) matches Ok((_, ls, _)) ==> {
            &&& lines.len() <= ls.len()
            &&& ls.subrange(0, lines.len() as int) == lines
            &&& forall|k: int| lines.len() <= k < ls.len() ==> (#[trigger] ls[k]).block_index is Some
        },
    decreases tv.len() - i,
{
    if 0 <= i < tv.len() {
        match tv[i] {
            XmlTokenV::Start { name, content, pos } => {
                if let Some(n) = utf8_text(name) {
                    let c1 = push_tag(ctx, n);
                    if n == "div"@ {
                        let attrs = start_attrs(name, content);
                        lemma_section_range(tv, i + 1, c1, lines, attrs, pos);
                        lemma_section_lines(tv, i + 1, c1, lines, attrs, pos);
                        if let Ok((c2, ls, j)) = spec_section(tv, i + 1, c1, lines, attrs, pos) {
                            lemma_body_lines(tv, j, pop_tag(c2), ls);
                            if let Ok((_, ls2, _)) = spec_body(tv, j, pop_tag(c2), ls) {
                                assert(ls2.subrange(0, lines.len() as int) == ls.subrange(0, lines.len() as int)) by {
                                    assert(ls2.subrange(0, lines.len() as int) =~= ls2.subrange(0, ls.len() as int).subrange(0, lines.len() as int));
                                }
                                assert forall|k: int| lines.len() <= k < ls2.len() implies (#[trigger] ls2[k]).block_index is Some by {
                                    if k < ls.len() {
                                        assert(ls2.subrange(0, ls.len() as int)[k] == ls2[k]);
                                        assert(ls[k].block_index is Some);
                                    }
                                }
                            }
                        }
                    } else {
                        lemma_body_lines(tv, i + 1, c1, lines);
                    }
                }
            },
            XmlTokenV::End { .. } => {
                lemma_body_lines(tv, i + 1, pop_tag(ctx), lines);
            },
            _ => {
                lemma_body_lines(tv, i + 1, ctx, lines);
            },
        }
    }
}


/// Whether every line belongs to a block.
pub open spec fn all_in_blocks(lines: Seq<LyricLineV>) -> bool {
    forall|k: int| 0 <= k < lines.len() ==> (#[trigger] lines[k]).block_index is Some
}

proof fn lemma_document_blocks(tv: Seq<XmlTokenV>, i: int, ctx: ParserContextV, lines: Seq<LyricLineV>)
    requires
        all_in_blocks(lines),
    ensures
        spec_document(tv, i, ctx, lines) matches Ok((_, ls)) ==> all_in_blocks(ls),
    decreases tv.len() - i,
{
    if 0 <= i < tv.len() {
        match tv[i] {
            XmlTokenV::Start { name, content, pos } => {
                if let Some(n) = utf8_text(name) {
                    let c1 = push_tag(ctx, n);
                    let attrs = start_attrs(name, content);
                    if n == "tt"@ {
                        if let Ok(lang) = spec_find_attr(attrs, 0, "xml:lang"@, pos, c1) {
                            let c2 = ParserContextV {
                                metadata: TTMLMetadataV { language: lang, ..c1.metadata },
                                ..c1
                            };
                            if let Ok(timing) = spec_find_attr(attrs, 0, "itunes:timing"@, pos, c2) {
                                lemma_document_blocks(
                                    tv,
                                    i + 1,
                                    ParserContextV {
                                        metadata: TTMLMetadataV { timing_mode: timing, ..c2.metadata },
                                        ..c2
                                    },
                                    lines,
                                );
                            }
                        }
                    } else if n == "head"@ {
                        lemma_head_range(tv, i + 1, c1);
                        if let Ok((c2, j)) = spec_head(tv, i + 1, c1) {
                            lemma_document_blocks(tv, j, pop_tag(c2), lines);
                        }
                    } else if n == "body"@ {
                        lemma_body_range(tv, i + 1, c1, lines);
                        lemma_body_lines(tv, i + 1, c1, lines);
                        if let Ok((c2, ls, j)) = spec_body(tv, i + 1, c1, lines) {
                            assert(all_in_blocks(ls)) by {
                                assert forall|k: int| 0 <= k < ls.len() implies (#[trigger] ls[k]).block_index is Some by {
                                    if k < lines.len() {
                                        assert(ls.subrange(0, lines.len() as int)[k] == ls[k]);
                                        assert(lines[k].block_index is Some);
                                    }
                                }
                            }
                            lemma_document_blocks(tv, j, pop_tag(c2), ls);
                        }
                    } else {
                        lemma_document_blocks(tv, i + 1, c1, lines);
                    }
                }
            },
            XmlTokenV::End { .. } => {
                lemma_document_blocks(tv, i + 1, pop_tag(ctx), lines);
            },
            _ => {
                lemma_document_blocks(tv, i + 1, ctx, lines);
            },
        }
    }
}

/// Every line that reading a document gives comes from a `<p>` inside a `<div>`, and carries
/// the index of its block.
pub proof fn lemma_parsed_lines_in_blocks(tv: Seq<XmlTokenV>)
    ensures
        spec_parse_events(tv) matches Ok(r) ==> all_in_blocks(r.lines),
{
    lemma_document_blocks(tv, 0, initial_context(), Seq::empty());
}


/// Whether an `<amll:meta>` with key `key` files its value in the list `f` of the metadata.
pub open spec fn meta_key_fills(key: Seq<char>, f: MetaList) -> bool {
    match f {
        MetaList::Title => key == "musicName"@,
        MetaList::Artist => key == "artists"@,
        MetaList::Album => key == "album"@,
        MetaList::Songwriters => false,
        MetaList::Isrc => key == "isrc"@,
        MetaList::AuthorIds => key == "ttmlAuthorGithub"@,
        MetaList::AuthorNames => key == "ttmlAuthorGithubLogin"@,
    }
}

/// The keys of `<amll:meta>` that name a list are all different.
proof fn lemma_meta_keys_differ()
    ensures
        "musicName"@.len() == 9,
        "artists"@.len() == 7,
        "album"@.len() == 5,
        "isrc"@.len() == 4,
        "ttmlAuthorGithub"@.len() == 16,
        "ttmlAuthorGithubLogin"@.len() == 21,
{
    reveal_strlit("musicName");
    reveal_strlit("artists");
    reveal_strlit("album");
    reveal_strlit("isrc");
    reveal_strlit("ttmlAuthorGithub");
    reveal_strlit("ttmlAuthorGithubLogin");
}

/// Reading an `<amll:meta key=.. value=..>` appends the trimmed value, when it is not blank,
/// to the one list of the metadata that the key names, and leaves every other list, the
/// language, the timing mode and the singers as they were.
pub proof fn lemma_amll_meta_lists(m: TTMLMetadataV, key: Seq<char>, value: Seq<char>, f: MetaList)
    ensures
        meta_list(spec_amll_meta(m, key, value), f) == meta_list(m, f) + if trim_s(value).len() > 0
            && meta_key_fills(key, f) {
            seq![trim_s(value)]
        } else {
            Seq::empty()
        },
        spec_amll_meta(m, key, value).language == m.language,
        spec_amll_meta(m, key, value).timing_mode == m.timing_mode,
        spec_amll_meta(m, key, value).agents == m.agents,
{
    lemma_meta_keys_differ();
    let r = spec_amll_meta(m, key, value);
    if trim_s(value).len() > 0 && meta_key_fills(key, f) {
        assert(meta_list(r, f) =~= meta_list(m, f).push(trim_s(value)));
    } else {
        assert(meta_list(r, f) =~= meta_list(m, f));
    }
}

} // verus!
