//! The `<body>` of a generated document: a `<div>` per block of lines, a `<p>` per line.

use vstd::prelude::*;
use crate::generator::GeneratorConfig;
use crate::generator::ops::{end_v, no_attrs, push_attr, push_end, push_start, start_v};
use crate::generator::span::{line_spans_ops, write_line_spans};
use crate::generator::sub_lyric::{has_inline_sub_lyrics, spec_has_inline_sub_lyrics};
use crate::generator::writer::{attrs_v, XmlOp, XmlOpV};
use crate::model::{views, LyricLine, LyricLineV};
use crate::text::copy_str;
use crate::timestamp::{format_timestamp, line_key, line_key_string, spec_format_timestamp};

verus! {

/// The time span of a line for the body and block ranges: with its background vocal, unless
/// lines are flattened to line timing (background vocals are then not written).
pub open spec fn line_range(l: LyricLineV, cfg: GeneratorConfig) -> (u32, u32) {
    match l.background_vocal {
        Some(b) if !cfg.line_timing => (
            if l.start_time <= b.start_time {
                l.start_time
            } else {
                b.start_time
            },
            if l.end_time >= b.end_time {
                l.end_time
            } else {
                b.end_time
            },
        ),
        _ => (l.start_time, l.end_time),
    }
}

/// The time span of a line for the body and block ranges.
fn line_time_range(l: &LyricLine, cfg: &GeneratorConfig) -> (r: (u32, u32))
    ensures
        r == line_range(l@, *cfg),
{
    match &l.background_vocal {
        Some(b) if !cfg.line_timing => (
            if l.start_time <= b.start_time {
                l.start_time
            } else {
                b.start_time
            },
            if l.end_time >= b.end_time {
                l.end_time
            } else {
                b.end_time
            },
        ),
        _ => (l.start_time, l.end_time),
    }
}

/// The latest end of the first `k` lines, 0 without lines.
pub open spec fn max_end(ls: Seq<LyricLineV>, k: int, cfg: GeneratorConfig) -> u32
    decreases k,
{
    if k <= 0 {
        0
    } else {
        let m = max_end(ls, k - 1, cfg);
        let e = line_range(ls[k - 1], cfg).1;
        if k == 1 || e > m {
            e
        } else {
            m
        }
    }
}

/// The earliest start of the first `k` lines, 0 without lines.
pub open spec fn min_start(ls: Seq<LyricLineV>, k: int, cfg: GeneratorConfig) -> u32
    decreases k,
{
    if k <= 0 {
        0
    } else {
        let m = min_start(ls, k - 1, cfg);
        let s = line_range(ls[k - 1], cfg).0;
        if k == 1 || s < m {
            s
        } else {
            m
        }
    }
}

/// The block index of a line, 0 when it has none.
pub open spec fn block_of(l: LyricLineV) -> u32 {
    match l.block_index {
        Some(b) => b,
        None => 0,
    }
}

/// The end of a block of lines, searched from `j` on: the first line `j` whose block differs
/// from the block of line `j - 1`, or the end.
pub open spec fn chunk_end(ls: Seq<LyricLineV>, j: int) -> int
    decreases ls.len() - j,
{
    if j >= ls.len() {
        ls.len() as int
    } else if j > 0 && block_of(ls[j]) != block_of(ls[j - 1]) {
        j
    } else {
        chunk_end(ls, j + 1)
    }
}

/// Whether every line has an id.
pub open spec fn all_have_id(ls: Seq<LyricLineV>) -> bool {
    forall|i: int| 0 <= i < ls.len() ==> (#[trigger] ls[i]).id is Some
}

/// The `<p>` of a line: its timing, its id (when every line has one) or `L<index>`, its
/// singer, then its spans.
pub open spec fn line_ops(l: LyricLineV, cfg: GeneratorConfig, all_id: bool, index: nat) -> Seq<XmlOpV> {
    let key = if all_id {
        match l.id {
            Some(id) => seq![("itunes:key"@, id)],
            None => Seq::empty(),
        }
    } else {
        seq![("itunes:key"@, line_key(index))]
    };
    let agent = match l.agent_id {
        Some(a) => seq![("ttm:agent"@, a)],
        None => Seq::empty(),
    };
    seq![
        start_v(
            "p"@,
            seq![("begin"@, spec_format_timestamp(l.start_time)), ("end"@, spec_format_timestamp(l.end_time))] + key
                + agent,
        ),
    ] + line_spans_ops(l, spec_has_inline_sub_lyrics(l, cfg), cfg) + seq![end_v("p"@)]
}

/// The `<p>`s of the lines `ls[from..to]`, numbered from `index`.
pub open spec fn lines_ops(ls: Seq<LyricLineV>, from: int, to: int, cfg: GeneratorConfig, all_id: bool, index: nat) -> Seq<
    XmlOpV,
>
    decreases to - from,
{
    if from >= to {
        Seq::empty()
    } else {
        lines_ops(ls, from, to - 1, cfg, all_id, index) + line_ops(
            ls[to - 1],
            cfg,
            all_id,
            (index + (to - 1 - from)) as nat,
        )
    }
}

/// The attributes of the `<div>` of the block `ls[from..to]`: its time span when it is not
/// reversed, and the song part of its first line.
pub open spec fn div_attrs(ls: Seq<LyricLineV>, from: int, to: int, cfg: GeneratorConfig) -> Seq<(Seq<char>, Seq<char>)> {
    let chunk = ls.subrange(from, to);
    let lo = min_start(chunk, chunk.len() as int, cfg);
    let hi = max_end(chunk, chunk.len() as int, cfg);
    (if lo <= hi {
        seq![("begin"@, spec_format_timestamp(lo)), ("end"@, spec_format_timestamp(hi))]
    } else {
        Seq::empty()
    }) + match ls[from].song_part {
        Some(p) => seq![("itunes:songPart"@, p)],
        None => Seq::empty(),
    }
}

/// The `<div>`s of the blocks of lines from line `i` on, lines numbered from `i + 1`.
pub open spec fn sections_ops(ls: Seq<LyricLineV>, i: int, cfg: GeneratorConfig, all_id: bool) -> Seq<XmlOpV>
    decreases ls.len() - i,
{
    if i < 0 || i >= ls.len() {
        Seq::empty()
    } else {
        let e = chunk_end(ls, i + 1);
        if i < e <= ls.len() {
            seq![start_v("div"@, div_attrs(ls, i, e, cfg))] + lines_ops(ls, i, e, cfg, all_id, (i + 1) as nat)
                + seq![end_v("div"@)] + sections_ops(ls, e, cfg, all_id)
        } else {
            Seq::empty()
        }
    }
}

/// The `<body>`: its duration when some line ends after 0, then a `<div>` per block of
/// consecutive lines with the same block index.
pub open spec fn body_ops(ls: Seq<LyricLineV>, cfg: GeneratorConfig) -> Seq<XmlOpV> {
    let m = max_end(ls, ls.len() as int, cfg);
    seq![
        start_v(
            "body"@,
            if m > 0 {
                seq![("dur"@, spec_format_timestamp(m))]
            } else {
                Seq::empty()
            },
        ),
    ] + sections_ops(ls, 0, cfg, all_have_id(ls)) + seq![end_v("body"@)]
}

/// The end of the block of lines that starts at `i`.
fn block_end(lines: &Vec<LyricLine>, i: usize) -> (e: usize)
    requires
        i < lines.len(),
    ensures
        e as int == chunk_end(views(lines@), i as int + 1),
        i < e <= lines.len(),
{
    let ghost lv = views(lines@);
    let mut j = i + 1;
    while j < lines.len()
        invariant
            i < j <= lines.len(),
            lv == views(lines@),
            chunk_end(lv, j as int) == chunk_end(lv, i as int + 1),
        decreases lines.len() - j,
    {
        assert(lines@[j as int]@ == lv[j as int]);
        assert(lines@[j - 1]@ == lv[j - 1]);
        let bj = match lines[j].block_index {
            Some(b) => b,
            None => 0,
        };
        let bp = match lines[j - 1].block_index {
            Some(b) => b,
            None => 0,
        };
        if bj != bp {
            return j;
        }
        j = j + 1;
    }
    j
}

/// Appends the `<p>` of a line.
fn write_line(ops: &mut Vec<XmlOp>, line: &LyricLine, cfg: &GeneratorConfig, all_id: bool, index: usize)
    ensures
        views(final(ops)@) == views(old(ops)@) + line_ops(line@, *cfg, all_id, index as nat),
{
    let mut a = no_attrs();
    push_attr(&mut a, "begin", format_timestamp(line.start_time));
    push_attr(&mut a, "end", format_timestamp(line.end_time));
    if all_id {
        if let Some(id) = &line.id {
            push_attr(&mut a, "itunes:key", copy_str(id.as_str()));
        }
    } else {
        push_attr(&mut a, "itunes:key", line_key_string(index));
    }
    if let Some(ag) = &line.agent_id {
        push_attr(&mut a, "ttm:agent", copy_str(ag.as_str()));
    }
    let ghost av = attrs_v(a@);
    assert(av =~= seq![("begin"@, spec_format_timestamp(line@.start_time)), ("end"@, spec_format_timestamp(line@.end_time))]
        + (if all_id {
        match line@.id {
            Some(id) => seq![("itunes:key"@, id)],
            None => Seq::empty(),
        }
    } else {
        seq![("itunes:key"@, line_key(index as nat))]
    }) + match line@.agent_id {
        Some(x) => seq![("ttm:agent"@, x)],
        None => Seq::empty(),
    });
    let inline = has_inline_sub_lyrics(line, cfg);
    push_start(ops, "p", a);
    write_line_spans(ops, line, inline, cfg);
    push_end(ops, "p");
    assert(views(ops@) =~= views(old(ops)@) + line_ops(line@, *cfg, all_id, index as nat));
}

/// The earliest start and latest end of the lines `ls[from..to]`.
fn chunk_range(lines: &Vec<LyricLine>, from: usize, to: usize, cfg: &GeneratorConfig) -> (r: (u32, u32))
    requires
        from < to <= lines.len(),
    ensures
        r.0 == min_start(views(lines@).subrange(from as int, to as int), to - from, *cfg),
        r.1 == max_end(views(lines@).subrange(from as int, to as int), to - from, *cfg),
{
    let ghost chunk = views(lines@).subrange(from as int, to as int);
    let mut lo: u32 = 0;
    let mut hi: u32 = 0;
    let mut k = from;
    while k < to
        invariant
            from <= k <= to <= lines.len(),
            chunk == views(lines@).subrange(from as int, to as int),
            lo == min_start(chunk, k - from, *cfg),
            hi == max_end(chunk, k - from, *cfg),
        decreases to - k,
    {
        assert(chunk[k - from] == lines@[k as int]@);
        let (s, e) = line_time_range(&lines[k], cfg);
        if k == from || s < lo {
            lo = s;
        }
        if k == from || e > hi {
            hi = e;
        }
        k = k + 1;
    }
    (lo, hi)
}

/// Appends the `<div>` of the block `lines[from..to]`, its lines numbered from `from + 1`.
fn write_section(ops: &mut Vec<XmlOp>, lines: &Vec<LyricLine>, from: usize, to: usize, cfg: &GeneratorConfig, all_id: bool)
    requires
        from < to <= lines.len(),
    ensures
        views(final(ops)@) == views(old(ops)@) + (seq![start_v("div"@, div_attrs(views(lines@), from as int, to as int, *cfg))]
            + lines_ops(views(lines@), from as int, to as int, *cfg, all_id, (from + 1) as nat) + seq![end_v("div"@)]),
{
    let ghost lv = views(lines@);
    let (lo, hi) = chunk_range(lines, from, to, cfg);
    let mut a = no_attrs();
    if lo <= hi {
        push_attr(&mut a, "begin", format_timestamp(lo));
        push_attr(&mut a, "end", format_timestamp(hi));
    }
    assert(lines@[from as int]@ == lv[from as int]);
    if let Some(p) = &lines[from].song_part {
        push_attr(&mut a, "itunes:songPart", copy_str(p.as_str()));
    }
    assert(attrs_v(a@) =~= div_attrs(lv, from as int, to as int, *cfg));
    push_start(ops, "div", a);
    let ghost base = views(ops@);
    let mut k = from;
    assert(views(ops@) =~= base + lines_ops(lv, from as int, from as int, *cfg, all_id, (from + 1) as nat));
    while k < to
        invariant
            from <= k <= to <= lines.len(),
            lv == views(lines@),
            views(ops@) == base + lines_ops(lv, from as int, k as int, *cfg, all_id, (from + 1) as nat),
        decreases to - k,
    {
        assert(lines@[k as int]@ == lv[k as int]);
        write_line(ops, &lines[k], cfg, all_id, k + 1);
        assert(views(ops@) =~= base + lines_ops(lv, from as int, k + 1, *cfg, all_id, (from + 1) as nat));
        k = k + 1;
    }
    push_end(ops, "div");
    assert(views(ops@) =~= views(old(ops)@) + (seq![start_v("div"@, div_attrs(lv, from as int, to as int, *cfg))]
        + lines_ops(lv, from as int, to as int, *cfg, all_id, (from + 1) as nat) + seq![end_v("div"@)]));
}

/// Appends the `<body>`.
pub fn write_body(ops: &mut Vec<XmlOp>, lines: &Vec<LyricLine>, config: &GeneratorConfig)
    ensures
        views(final(ops)@) == views(old(ops)@) + body_ops(views(lines@), *config),
{
    let ghost lv = views(lines@);
    let mut m: u32 = 0;
    let mut all_id = true;
    let mut i: usize = 0;
    while i < lines.len()
        invariant
            i <= lines.len(),
            lv == views(lines@),
            m == max_end(lv, i as int, *config),
            all_id == (forall|j: int| 0 <= j < i ==> (#[trigger] lv[j]).id is Some),
        decreases lines.len() - i,
    {
        assert(lines@[i as int]@ == lv[i as int]);
        let (_, e) = line_time_range(&lines[i], config);
        if i == 0 || e > m {
            m = e;
        }
        if lines[i].id.is_none() {
            all_id = false;
        }
        i = i + 1;
    }
    assert(all_id == all_have_id(lv));
    let mut a = no_attrs();
    if m > 0 {
        push_attr(&mut a, "dur", format_timestamp(m));
    }
    push_start(ops, "body", a);
    let ghost base = views(ops@);
    let mut s: usize = 0;
    while s < lines.len()
        invariant
            s <= lines.len(),
            lv == views(lines@),
            all_id == all_have_id(lv),
            views(ops@) + sections_ops(lv, s as int, *config, all_id) == base + sections_ops(lv, 0, *config, all_id),
        decreases lines.len() - s,
    {
        let e = block_end(lines, s);
        let ghost before = views(ops@);
        assert(sections_ops(lv, s as int, *config, all_id) == seq![start_v("div"@, div_attrs(lv, s as int, e as int, *config))]
            + lines_ops(lv, s as int, e as int, *config, all_id, (s + 1) as nat) + seq![end_v("div"@)] + sections_ops(lv, e as int, *config, all_id));
        write_section(ops, lines, s, e, config, all_id);
        assert(views(ops@) + sections_ops(lv, e as int, *config, all_id) =~= before + sections_ops(
            lv,
            s as int,
            *config,
            all_id,
        ));
        s = e;
    }
    assert(views(ops@) =~= base + sections_ops(lv, 0, *config, all_id));
    push_end(ops, "body");
    assert(views(ops@) =~= views(old(ops)@) + body_ops(lv, *config));
}

} // verus!
