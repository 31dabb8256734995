//! The `<head>` of a generated document: singers, AMLL metadata, and `<iTunesMetadata>`.

use vstd::prelude::*;
use crate::amll::to_amll::platform_key;
use crate::generator::GeneratorConfig;
use crate::generator::ops::{end_v, no_attrs, push_attr, push_empty, push_end, push_start, push_text_elem, start_v, text_elem};
use crate::generator::sub_lyric::{
    text_lt,
    has_any_itunes_sub_lyrics, spec_has_any_itunes_sub_lyrics, spec_sub_lyrics_ops, text_lt_from, write_sub_lyrics,
    SubLyricKind,
};
use crate::generator::writer::{attrs_v, XmlOp, XmlOpV};
use crate::maps::{agent_entries, agents_values, platform_entries, platforms_iter, properties_iter, property_entries, str_views};
use crate::model::{views, AgentV, LyricLine, LyricLineV, PlatformId, TTMLMetadata, TTMLMetadataV};
use crate::parser::head::or_empty;
use crate::text::{copy_str, str_eq};

verus! {

/// An empty element.
pub open spec fn empty_v(name: Seq<char>, attrs: Seq<(Seq<char>, Seq<char>)>) -> XmlOpV {
    XmlOpV::Empty { name, attrs }
}

/// The element of a singer: its type and id, and its name inside when it has one.
pub open spec fn agent_ops(a: AgentV) -> Seq<XmlOpV> {
    let attrs = (match a.type_ {
        Some(t) => seq![("type"@, t)],
        None => Seq::empty(),
    }) + seq![("xml:id"@, a.id)];
    match a.name {
        Some(n) => seq![start_v("ttm:agent"@, attrs)] + text_elem("ttm:name"@, Seq::empty(), n) + seq![
            end_v("ttm:agent"@),
        ],
        None => seq![empty_v("ttm:agent"@, attrs)],
    }
}

/// The elements of the first `k` singers.
pub open spec fn agents_list_ops(es: Seq<(Seq<char>, AgentV)>, k: int) -> Seq<XmlOpV>
    decreases k,
{
    if k <= 0 {
        Seq::empty()
    } else {
        agents_list_ops(es, k - 1) + agent_ops(es[k - 1].1)
    }
}

/// A sorted list of distinct texts with `x` added at its place from position `i` on.
pub open spec fn text_insert_from(s: Seq<Seq<char>>, x: Seq<char>, i: int) -> Seq<Seq<char>>
    decreases s.len() - i,
{
    if i < 0 || i >= s.len() {
        s.push(x)
    } else if s[i] == x {
        s
    } else if text_lt_from(x, s[i], 0) {
        s.insert(i, x)
    } else {
        text_insert_from(s, x, i + 1)
    }
}

/// The distinct singer ids of the lines, sorted.
pub open spec fn line_agent_ids(ls: Seq<LyricLineV>) -> Seq<Seq<char>>
    decreases ls.len(),
{
    if ls.len() == 0 {
        Seq::empty()
    } else {
        match ls.last().agent_id {
            Some(a) => text_insert_from(line_agent_ids(ls.drop_last()), a, 0),
            None => line_agent_ids(ls.drop_last()),
        }
    }
}

/// The attributes of a singer of type `person`.
pub open spec fn person_attrs(id: Seq<char>) -> Seq<(Seq<char>, Seq<char>)> {
    seq![("type"@, "person"@), ("xml:id"@, id)]
}

/// The empty elements of the first `k` singer ids, as persons.
pub open spec fn persons_ops(ids: Seq<Seq<char>>, k: int) -> Seq<XmlOpV>
    decreases k,
{
    if k <= 0 {
        Seq::empty()
    } else {
        persons_ops(ids, k - 1) + seq![empty_v("ttm:agent"@, person_attrs(ids[k - 1]))]
    }
}

/// The singers written without singers in the metadata: the singer ids of the lines, sorted,
/// or the single singer `v1`.
pub open spec fn fallback_agents_ops(ls: Seq<LyricLineV>) -> Seq<XmlOpV> {
    let ids = line_agent_ids(ls);
    if ids.len() == 0 {
        seq![empty_v("ttm:agent"@, person_attrs("v1"@))]
    } else {
        persons_ops(ids, ids.len() as int)
    }
}

/// The singers: those of the metadata, in order, or else the fallback.
pub open spec fn agents_ops(m: TTMLMetadataV, ls: Seq<LyricLineV>) -> Seq<XmlOpV> {
    match m.agents {
        Some(es) => agents_list_ops(es, es.len() as int),
        None => fallback_agents_ops(ls),
    }
}

/// The `<amll:meta>` elements of the first `k` values of a key.
pub open spec fn meta_ops(key: Seq<char>, vals: Seq<Seq<char>>, k: int) -> Seq<XmlOpV>
    decreases k,
{
    if k <= 0 {
        Seq::empty()
    } else {
        meta_ops(key, vals, k - 1) + seq![empty_v("amll:meta"@, seq![("key"@, key), ("value"@, vals[k - 1])])]
    }
}

/// The `<amll:meta>` elements of an optional list of values.
pub open spec fn opt_meta_ops(key: Seq<char>, o: Option<Seq<Seq<char>>>) -> Seq<XmlOpV> {
    match o {
        Some(v) => meta_ops(key, v, v.len() as int),
        None => Seq::empty(),
    }
}

/// The `<amll:meta>` elements of the first `k` platform entries.
pub open spec fn platform_metas_ops(es: Seq<(PlatformId, Seq<Seq<char>>)>, k: int) -> Seq<XmlOpV>
    decreases k,
{
    if k <= 0 {
        Seq::empty()
    } else {
        platform_metas_ops(es, k - 1) + meta_ops(platform_key(es[k - 1].0), es[k - 1].1, es[k - 1].1.len() as int)
    }
}

/// The `<amll:meta>` elements of the first `k` raw properties.
pub open spec fn raw_metas_ops(es: Seq<(Seq<char>, Seq<Seq<char>>)>, k: int) -> Seq<XmlOpV>
    decreases k,
{
    if k <= 0 {
        Seq::empty()
    } else {
        raw_metas_ops(es, k - 1) + meta_ops(es[k - 1].0, es[k - 1].1, es[k - 1].1.len() as int)
    }
}

/// The AMLL metadata: titles, artists, albums, ISRC codes, platform ids, author ids and
/// names, then the raw properties, each value in its own element.
pub open spec fn amll_metas_ops(m: TTMLMetadataV) -> Seq<XmlOpV> {
    let pe = or_empty(m.platform_ids);
    let re = or_empty(m.raw_properties);
    opt_meta_ops("musicName"@, m.title) + opt_meta_ops("artists"@, m.artist) + opt_meta_ops("album"@, m.album)
        + opt_meta_ops("isrc"@, m.isrc) + platform_metas_ops(pe, pe.len() as int) + opt_meta_ops(
        "ttmlAuthorGithub"@,
        m.author_ids,
    ) + opt_meta_ops("ttmlAuthorGithubLogin"@, m.author_names) + raw_metas_ops(re, re.len() as int)
}

/// Whether the metadata has songwriters.
pub open spec fn has_songwriters(m: TTMLMetadataV) -> bool {
    m.songwriters is Some && m.songwriters->0.len() > 0
}

/// The elements of the first `k` songwriters.
pub open spec fn songwriter_list_ops(sw: Seq<Seq<char>>, k: int) -> Seq<XmlOpV>
    decreases k,
{
    if k <= 0 {
        Seq::empty()
    } else {
        songwriter_list_ops(sw, k - 1) + text_elem("songwriter"@, Seq::empty(), sw[k - 1])
    }
}

/// `<iTunesMetadata>`, when there are songwriters or contents for the head: the translations,
/// the transliterations, then the songwriters.
pub open spec fn itunes_ops(m: TTMLMetadataV, ls: Seq<LyricLineV>, cfg: GeneratorConfig) -> Seq<XmlOpV> {
    if has_songwriters(m) || spec_has_any_itunes_sub_lyrics(ls, cfg) {
        seq![start_v("iTunesMetadata"@, seq![("xmlns"@, "http://music.apple.com/lyric-ttml-internal"@)])]
            + spec_sub_lyrics_ops(ls, SubLyricKind::Translation, cfg) + spec_sub_lyrics_ops(
            ls,
            SubLyricKind::Transliteration,
            cfg,
        ) + (if has_songwriters(m) {
            seq![start_v("songwriters"@, Seq::empty())] + songwriter_list_ops(
                m.songwriters->0,
                m.songwriters->0.len() as int,
            ) + seq![end_v("songwriters"@)]
        } else {
            Seq::empty()
        }) + seq![end_v("iTunesMetadata"@)]
    } else {
        Seq::empty()
    }
}

/// The `<head>`: in its `<metadata>`, the singers, the AMLL metadata and `<iTunesMetadata>`.
pub open spec fn head_ops(m: TTMLMetadataV, ls: Seq<LyricLineV>, cfg: GeneratorConfig) -> Seq<XmlOpV> {
    seq![start_v("head"@, Seq::empty()), start_v("metadata"@, Seq::empty())] + agents_ops(m, ls) + amll_metas_ops(m)
        + itunes_ops(m, ls, cfg) + seq![end_v("metadata"@), end_v("head"@)]
}

/// Adds a text at its place in a sorted list of distinct texts.
fn text_insert(s: &mut Vec<String>, x: &str)
    ensures
        views(final(s)@) == text_insert_from(views(old(s)@), x@, 0),
{
    let ghost s0 = views(s@);
    let mut i: usize = 0;
    while i < s.len()
        invariant
            i <= s.len(),
            s0 == views(s@),
            *s == *old(s),
            text_insert_from(s0, x@, i as int) == text_insert_from(s0, x@, 0),
        decreases s.len() - i,
    {
        if str_eq(s[i].as_str(), x) {
            return;
        }
        if text_lt(x, s[i].as_str()) {
            s.insert(i, copy_str(x));
            assert(views(s@) =~= s0.insert(i as int, x@));
            return;
        }
        i = i + 1;
    }
    s.push(copy_str(x));
    assert(views(s@) =~= s0.push(x@));
}

/// Appends the element of a singer.
fn write_agent(ops: &mut Vec<XmlOp>, a: &crate::model::Agent)
    ensures
        views(final(ops)@) == views(old(ops)@) + agent_ops(a@),
{
    let mut attrs = no_attrs();
    if let Some(t) = &a.type_ {
        push_attr(&mut attrs, "type", copy_str(t.as_str()));
    }
    push_attr(&mut attrs, "xml:id", copy_str(a.id.as_str()));
    let ghost av = attrs_v(attrs@);
    assert(av =~= (match a@.type_ {
        Some(t) => seq![("type"@, t)],
        None => Seq::<(Seq<char>, Seq<char>)>::empty(),
    }) + seq![("xml:id"@, a@.id)]);
    match &a.name {
        Some(n) => {
            push_start(ops, "ttm:agent", attrs);
            push_text_elem(ops, "ttm:name", no_attrs(), n.as_str());
            push_end(ops, "ttm:agent");
        },
        None => {
            push_empty(ops, "ttm:agent", attrs);
        },
    }
    assert(views(ops@) =~= views(old(ops)@) + agent_ops(a@));
}

/// Appends the singers from the singer ids of the lines, or the single singer `v1`.
fn write_fallback_agents(ops: &mut Vec<XmlOp>, lines: &Vec<LyricLine>)
    ensures
        views(final(ops)@) == views(old(ops)@) + fallback_agents_ops(views(lines@)),
{
    let ghost lv = views(lines@);
    let mut ids: Vec<String> = Vec::new();
    let mut i: usize = 0;
    assert(lv.take(0) =~= Seq::<LyricLineV>::empty());
    assert(views(ids@) =~= Seq::<Seq<char>>::empty());
    while i < lines.len()
        invariant
            i <= lines.len(),
            lv == views(lines@),
            views(ids@) == line_agent_ids(lv.take(i as int)),
        decreases lines.len() - i,
    {
        assert(lv.take(i + 1).drop_last() =~= lv.take(i as int));
        assert(lines@[i as int]@ == lv[i as int]);
        if let Some(a) = &lines[i].agent_id {
            text_insert(&mut ids, a.as_str());
        }
        i = i + 1;
    }
    assert(lv.take(i as int) =~= lv);
    let ghost iv = views(ids@);
    if ids.len() == 0 {
        let mut a = no_attrs();
        push_attr(&mut a, "type", copy_str("person"));
        push_attr(&mut a, "xml:id", copy_str("v1"));
        assert(attrs_v(a@) =~= person_attrs("v1"@));
        push_empty(ops, "ttm:agent", a);
        assert(views(ops@) =~= views(old(ops)@) + fallback_agents_ops(lv));
        return;
    }
    let mut k: usize = 0;
    assert(views(ops@) =~= views(old(ops)@) + persons_ops(iv, 0));
    while k < ids.len()
        invariant
            k <= ids.len(),
            iv == views(ids@),
            views(ops@) == views(old(ops)@) + persons_ops(iv, k as int),
        decreases ids.len() - k,
    {
        let mut a = no_attrs();
        push_attr(&mut a, "type", copy_str("person"));
        push_attr(&mut a, "xml:id", copy_str(ids[k].as_str()));
        assert(attrs_v(a@) =~= person_attrs(iv[k as int]));
        push_empty(ops, "ttm:agent", a);
        assert(views(ops@) =~= views(old(ops)@) + persons_ops(iv, k + 1));
        k = k + 1;
    }
}

/// Appends the singers.
fn write_agents(ops: &mut Vec<XmlOp>, m: &TTMLMetadata, lines: &Vec<LyricLine>)
    ensures
        views(final(ops)@) == views(old(ops)@) + agents_ops(m@, views(lines@)),
{
    match &m.agents {
        Some(map) => {
            let vals = agents_values(map);
            let ghost es = agent_entries(*map);
            let mut i: usize = 0;
            assert(views(ops@) =~= views(old(ops)@) + agents_list_ops(es, 0));
            while i < vals.len()
                invariant
                    i <= vals.len() == es.len(),
                    es == agent_entries(*map),
                    forall|j: int| 0 <= j < vals@.len() ==> #[trigger] vals@[j]@ == es[j].1,
                    views(ops@) == views(old(ops)@) + agents_list_ops(es, i as int),
                decreases vals.len() - i,
            {
                let a = vals[i];
                assert(a@ == es[i as int].1);
                write_agent(ops, a);
                assert(views(ops@) =~= views(old(ops)@) + agents_list_ops(es, i + 1));
                i = i + 1;
            }
        },
        None => {
            write_fallback_agents(ops, lines);
        },
    }
}

/// Appends the `<amll:meta>` elements of a key's values.
fn write_meta_list(ops: &mut Vec<XmlOp>, key: &str, vals: &Vec<String>)
    ensures
        views(final(ops)@) == views(old(ops)@) + meta_ops(key@, views(vals@), vals.len() as int),
{
    let ghost vv = views(vals@);
    let mut i: usize = 0;
    assert(views(ops@) =~= views(old(ops)@) + meta_ops(key@, vv, 0));
    while i < vals.len()
        invariant
            i <= vals.len(),
            vv == views(vals@),
            views(ops@) == views(old(ops)@) + meta_ops(key@, vv, i as int),
        decreases vals.len() - i,
    {
        let mut a = no_attrs();
        push_attr(&mut a, "key", copy_str(key));
        push_attr(&mut a, "value", copy_str(vals[i].as_str()));
        assert(attrs_v(a@) =~= seq![("key"@, key@), ("value"@, vv[i as int])]);
        push_empty(ops, "amll:meta", a);
        assert(views(ops@) =~= views(old(ops)@) + meta_ops(key@, vv, i + 1));
        i = i + 1;
    }
}

/// Appends the `<amll:meta>` elements of an optional list of values.
fn write_opt_meta(ops: &mut Vec<XmlOp>, key: &str, o: &Option<Vec<String>>)
    ensures
        views(final(ops)@) == views(old(ops)@) + opt_meta_ops(key@, crate::model::opt_views(*o)),
{
    match o {
        Some(v) => write_meta_list(ops, key, v),
        None => {
            assert(views(ops@) =~= views(old(ops)@) + opt_meta_ops(key@, crate::model::opt_views(*o)));
        },
    }
}

/// The AMLL metadata key of a platform.
fn platform_key_exec(p: PlatformId) -> (r: &'static str)
    ensures
        r@ == platform_key(p),
{
    match p {
        PlatformId::NcmMusicId => "ncmMusicId",
        PlatformId::QqMusicId => "qqMusicId",
        PlatformId::SpotifyId => "spotifyId",
        PlatformId::AppleMusicId => "appleMusicId",
    }
}

/// Appends the `<amll:meta>` elements of the platform ids.
fn write_platform_metas(ops: &mut Vec<XmlOp>, m: &TTMLMetadata)
    ensures
        views(final(ops)@) == views(old(ops)@) + platform_metas_ops(
            or_empty(m@.platform_ids),
            or_empty(m@.platform_ids).len() as int,
        ),
{
    let ghost pe = or_empty(m@.platform_ids);
    match &m.platform_ids {
        Some(map) => {
            let items = platforms_iter(map);
            let mut i: usize = 0;
            assert(views(ops@) =~= views(old(ops)@) + platform_metas_ops(pe, 0));
            while i < items.len()
                invariant
                    i <= items.len() == pe.len(),
                    pe == platform_entries(*map),
                    forall|j: int|
                        0 <= j < items@.len() ==> *(#[trigger] items@[j]).0 == pe[j].0 && str_views(
                            items@[j].1@,
                        ) == pe[j].1,
                    views(ops@) == views(old(ops)@) + platform_metas_ops(pe, i as int),
                decreases items.len() - i,
            {
                let (p, ids) = items[i];
                assert(views(ids@) =~= pe[i as int].1);
                write_meta_list(ops, platform_key_exec(*p), ids);
                assert(views(ops@) =~= views(old(ops)@) + platform_metas_ops(pe, i + 1));
                i = i + 1;
            }
        },
        None => {
            assert(views(ops@) =~= views(old(ops)@) + platform_metas_ops(pe, pe.len() as int));
        },
    }
}

/// Appends the `<amll:meta>` elements of the raw properties.
fn write_raw_metas(ops: &mut Vec<XmlOp>, m: &TTMLMetadata)
    ensures
        views(final(ops)@) == views(old(ops)@) + raw_metas_ops(
            or_empty(m@.raw_properties),
            or_empty(m@.raw_properties).len() as int,
        ),
{
    let ghost re = or_empty(m@.raw_properties);
    match &m.raw_properties {
        Some(map) => {
            let items = properties_iter(map);
            let mut i: usize = 0;
            assert(views(ops@) =~= views(old(ops)@) + raw_metas_ops(re, 0));
            while i < items.len()
                invariant
                    i <= items.len() == re.len(),
                    re == property_entries(*map),
                    forall|j: int|
                        0 <= j < items@.len() ==> (#[trigger] items@[j]).0@ == re[j].0 && str_views(
                            items@[j].1@,
                        ) == re[j].1,
                    views(ops@) == views(old(ops)@) + raw_metas_ops(re, i as int),
                decreases items.len() - i,
            {
                let (k, vals) = items[i];
                assert(views(vals@) =~= re[i as int].1);
                write_meta_list(ops, k.as_str(), vals);
                assert(views(ops@) =~= views(old(ops)@) + raw_metas_ops(re, i + 1));
                i = i + 1;
            }
        },
        None => {
            assert(views(ops@) =~= views(old(ops)@) + raw_metas_ops(re, re.len() as int));
        },
    }
}

/// Appends the AMLL metadata.
fn write_amll_metas(ops: &mut Vec<XmlOp>, m: &TTMLMetadata)
    ensures
        views(final(ops)@) == views(old(ops)@) + amll_metas_ops(m@),
{
    write_opt_meta(ops, "musicName", &m.title);
    write_opt_meta(ops, "artists", &m.artist);
    write_opt_meta(ops, "album", &m.album);
    write_opt_meta(ops, "isrc", &m.isrc);
    write_platform_metas(ops, m);
    write_opt_meta(ops, "ttmlAuthorGithub", &m.author_ids);
    write_opt_meta(ops, "ttmlAuthorGithubLogin", &m.author_names);
    write_raw_metas(ops, m);
    assert(views(ops@) =~= views(old(ops)@) + amll_metas_ops(m@));
}

/// Appends the songwriters.
fn write_songwriters(ops: &mut Vec<XmlOp>, sw: &Vec<String>)
    ensures
        views(final(ops)@) == views(old(ops)@) + (seq![start_v("songwriters"@, Seq::empty())] + songwriter_list_ops(
            views(sw@),
            sw.len() as int,
        ) + seq![end_v("songwriters"@)]),
{
    let ghost sv = views(sw@);
    push_start(ops, "songwriters", no_attrs());
    let ghost base = views(ops@);
    let mut i: usize = 0;
    assert(views(ops@) =~= base + songwriter_list_ops(sv, 0));
    while i < sw.len()
        invariant
            i <= sw.len(),
            sv == views(sw@),
            views(ops@) == base + songwriter_list_ops(sv, i as int),
        decreases sw.len() - i,
    {
        push_text_elem(ops, "songwriter", no_attrs(), sw[i].as_str());
        assert(views(ops@) =~= base + songwriter_list_ops(sv, i + 1));
        i = i + 1;
    }
    push_end(ops, "songwriters");
    assert(views(ops@) =~= views(old(ops)@) + (seq![start_v("songwriters"@, Seq::empty())] + songwriter_list_ops(
        sv,
        sw.len() as int,
    ) + seq![end_v("songwriters"@)]));
}

/// Appends `<iTunesMetadata>`, when there are songwriters or contents for the head.
fn write_itunes(ops: &mut Vec<XmlOp>, m: &TTMLMetadata, lines: &Vec<LyricLine>, cfg: &GeneratorConfig)
    ensures
        views(final(ops)@) == views(old(ops)@) + itunes_ops(m@, views(lines@), *cfg),
{
    let has_sw = match &m.songwriters {
        Some(sw) => sw.len() > 0,
        None => false,
    };
    let has_sub = has_any_itunes_sub_lyrics(lines, cfg);
    if !(has_sw || has_sub) {
        assert(views(ops@) =~= views(old(ops)@) + itunes_ops(m@, views(lines@), *cfg));
        return;
    }
    let mut a = no_attrs();
    push_attr(&mut a, "xmlns", copy_str("http://music.apple.com/lyric-ttml-internal"));
    push_start(ops, "iTunesMetadata", a);
    write_sub_lyrics(ops, lines, SubLyricKind::Translation, cfg);
    write_sub_lyrics(ops, lines, SubLyricKind::Transliteration, cfg);
    if has_sw {
        if let Some(sw) = &m.songwriters {
            write_songwriters(ops, sw);
        }
    }
    push_end(ops, "iTunesMetadata");
    assert(views(ops@) =~= views(old(ops)@) + itunes_ops(m@, views(lines@), *cfg));
}

/// Appends the `<head>`: the singers, the AMLL metadata and `<iTunesMetadata>`.
pub fn write_head(ops: &mut Vec<XmlOp>, metadata: &TTMLMetadata, lines: &Vec<LyricLine>, config: &GeneratorConfig)
    ensures
        views(final(ops)@) == views(old(ops)@) + head_ops(metadata@, views(lines@), *config),
{
    push_start(ops, "head", no_attrs());
    push_start(ops, "metadata", no_attrs());
    write_agents(ops, metadata, lines);
    write_amll_metas(ops, metadata);
    write_itunes(ops, metadata, lines, config);
    push_end(ops, "metadata");
    push_end(ops, "head");
    assert(views(ops@) =~= views(old(ops)@) + head_ops(metadata@, views(lines@), *config));
}

} // verus!
