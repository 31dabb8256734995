//! What the `<amll:meta>` elements of a generated head give back when they are read.

use vstd::prelude::*;
use crate::generator::head::{amll_metas_ops, empty_v, meta_ops, opt_meta_ops, platform_metas_ops, raw_metas_ops};
use crate::generator::writer::XmlOpV;
use crate::model::{meta_list, MetaList, PlatformId, TTMLMetadataV};
use crate::amll::to_amll::platform_key;
use crate::parser::head::{or_empty, spec_amll_meta};
use crate::parser::laws::{lemma_amll_meta_lists, meta_key_fills};
use crate::text::trim_s;

verus! {

/// The metadata once the `<amll:meta key=.. value=..>` elements among the events are read,
/// in order, into `m`, as the parser reads them.
pub open spec fn read_metas(ops: Seq<XmlOpV>, m: TTMLMetadataV) -> TTMLMetadataV
    decreases ops.len(),
{
    if ops.len() == 0 {
        m
    } else {
        let m1 = read_metas(ops.drop_last(), m);
        match ops.last() {
            XmlOpV::Empty { name, attrs } => if name == "amll:meta"@ && attrs.len() == 2 && attrs[0].0 == "key"@
                && attrs[1].0 == "value"@ {
                spec_amll_meta(m1, attrs[0].1, attrs[1].1)
            } else {
                m1
            },
            _ => m1,
        }
    }
}

/// The values trimmed, without the blank ones, in order.
pub open spec fn trimmed_values(v: Seq<Seq<char>>) -> Seq<Seq<char>>
    decreases v.len(),
{
    if v.len() == 0 {
        Seq::empty()
    } else if trim_s(v.last()).len() > 0 {
        trimmed_values(v.drop_last()).push(trim_s(v.last()))
    } else {
        trimmed_values(v.drop_last())
    }
}

proof fn lemma_read_metas_concat(a: Seq<XmlOpV>, b: Seq<XmlOpV>, m: TTMLMetadataV)
    ensures
        read_metas(a + b, m) == read_metas(b, read_metas(a, m)),
    decreases b.len(),
{
    if b.len() == 0 {
        assert(a + b =~= a);
    } else {
        assert((a + b).drop_last() =~= a + b.drop_last());
        assert((a + b).last() == b.last());
        lemma_read_metas_concat(a, b.drop_last(), m);
    }
}

/// Reading the elements of the first `k` values of a key appends them, trimmed and without
/// the blank ones, to the list the key names, and leaves the other lists.
proof fn lemma_read_meta_ops(key: Seq<char>, vals: Seq<Seq<char>>, k: int, m: TTMLMetadataV, f: MetaList)
    requires
        0 <= k <= vals.len(),
    ensures
        meta_list(read_metas(meta_ops(key, vals, k), m), f) == meta_list(m, f) + if meta_key_fills(key, f) {
            trimmed_values(vals.take(k))
        } else {
            Seq::empty()
        },
    decreases k,
{
    reveal_strlit("amll:meta");
    reveal_strlit("key");
    reveal_strlit("value");
    let z = Seq::<Seq<char>>::empty();
    if k == 0 {
        assert(vals.take(0) =~= z);
        assert(meta_list(m, f) + z =~= meta_list(m, f));
    } else {
        let prev = meta_ops(key, vals, k - 1);
        let op = empty_v("amll:meta"@, seq![("key"@, key), ("value"@, vals[k - 1])]);
        assert(meta_ops(key, vals, k) == prev + seq![op]);
        assert((prev + seq![op]).drop_last() =~= prev);
        assert((prev + seq![op]).last() == op);
        lemma_read_meta_ops(key, vals, k - 1, m, f);
        let m1 = read_metas(prev, m);
        lemma_amll_meta_lists(m1, key, vals[k - 1], f);
        assert(vals.take(k).drop_last() =~= vals.take(k - 1));
        assert(vals.take(k).last() == vals[k - 1]);
        if meta_key_fills(key, f) {
            if trim_s(vals[k - 1]).len() > 0 {
                assert(meta_list(m, f) + trimmed_values(vals.take(k - 1)) + seq![trim_s(vals[k - 1])] =~= meta_list(m, f)
                    + trimmed_values(vals.take(k - 1)).push(trim_s(vals[k - 1])));
            } else {
                assert(meta_list(m, f) + trimmed_values(vals.take(k - 1)) + z =~= meta_list(m, f) + trimmed_values(vals.take(k - 1)));
            }
        } else {
            assert(meta_list(m, f) + z + z =~= meta_list(m, f) + z);
        }
    }
}

/// Reading the elements of an optional list of values.
proof fn lemma_read_opt_meta_ops(key: Seq<char>, o: Option<Seq<Seq<char>>>, m: TTMLMetadataV, f: MetaList)
    ensures
        meta_list(read_metas(opt_meta_ops(key, o), m), f) == meta_list(m, f) + if meta_key_fills(key, f) {
            trimmed_values(or_empty(o))
        } else {
            Seq::empty()
        },
{
    match o {
        Some(v) => {
            lemma_read_meta_ops(key, v, v.len() as int, m, f);
            assert(v.take(v.len() as int) =~= v);
        },
        None => {
            assert(trimmed_values(Seq::<Seq<char>>::empty()) =~= Seq::<Seq<char>>::empty());
            assert(meta_list(m, f) + Seq::<Seq<char>>::empty() =~= meta_list(m, f));
        },
    }
}

/// Whether no key of the entries names a list that `<amll:meta>` fills.
pub open spec fn raw_keys_apart(es: Seq<(Seq<char>, Seq<Seq<char>>)>, f: MetaList) -> bool {
    forall|j: int| 0 <= j < es.len() ==> !meta_key_fills((#[trigger] es[j]).0, f)
}

proof fn lemma_read_raw_metas(es: Seq<(Seq<char>, Seq<Seq<char>>)>, k: int, m: TTMLMetadataV, f: MetaList)
    requires
        0 <= k <= es.len(),
        raw_keys_apart(es, f),
    ensures
        meta_list(read_metas(raw_metas_ops(es, k), m), f) == meta_list(m, f),
    decreases k,
{
    if k > 0 {
        let prev = raw_metas_ops(es, k - 1);
        let e = es[k - 1];
        lemma_read_raw_metas(es, k - 1, m, f);
        lemma_read_metas_concat(prev, meta_ops(e.0, e.1, e.1.len() as int), m);
        lemma_read_meta_ops(e.0, e.1, e.1.len() as int, read_metas(prev, m), f);
        assert(meta_list(read_metas(prev, m), f) + Seq::<Seq<char>>::empty() =~= meta_list(read_metas(prev, m), f));
    }
}

proof fn lemma_read_platform_metas(es: Seq<(PlatformId, Seq<Seq<char>>)>, k: int, m: TTMLMetadataV, f: MetaList)
    requires
        0 <= k <= es.len(),
    ensures
        meta_list(read_metas(platform_metas_ops(es, k), m), f) == meta_list(m, f),
    decreases k,
{
    if k > 0 {
        reveal_strlit("ncmMusicId");
        reveal_strlit("qqMusicId");
        reveal_strlit("spotifyId");
        reveal_strlit("appleMusicId");
        reveal_strlit("musicName");
        reveal_strlit("artists");
        reveal_strlit("album");
        reveal_strlit("isrc");
        reveal_strlit("ttmlAuthorGithub");
        reveal_strlit("ttmlAuthorGithubLogin");
        assert("qqMusicId"@[0] != "musicName"@[0]);
        assert("spotifyId"@[0] != "musicName"@[0]);
        assert("ncmMusicId"@.len() == 10 && "appleMusicId"@.len() == 12 && "qqMusicId"@.len() == 9
            && "spotifyId"@.len() == 9);
        assert("musicName"@.len() == 9 && "artists"@.len() == 7 && "album"@.len() == 5 && "isrc"@.len() == 4
            && "ttmlAuthorGithub"@.len() == 16 && "ttmlAuthorGithubLogin"@.len() == 21);
        let prev = platform_metas_ops(es, k - 1);
        let e = es[k - 1];
        let key = platform_key(e.0);
        assert(!meta_key_fills(key, f));
        lemma_read_platform_metas(es, k - 1, m, f);
        lemma_read_metas_concat(prev, meta_ops(key, e.1, e.1.len() as int), m);
        lemma_read_meta_ops(key, e.1, e.1.len() as int, read_metas(prev, m), f);
        assert(meta_list(read_metas(prev, m), f) + Seq::<Seq<char>>::empty() =~= meta_list(read_metas(prev, m), f));
    }
}

/// Reading back the `<amll:meta>` elements that the generator writes for the metadata `m`
/// appends to each list of `m0` the values of that list in `m`, in order, trimmed and
/// without the blank ones (songwriters are written elsewhere and get nothing). This holds
/// when no raw property has the key of a list, which would add its values to that list.
pub proof fn lemma_amll_metas_read_back(m: TTMLMetadataV, m0: TTMLMetadataV, f: MetaList)
    requires
        raw_keys_apart(or_empty(m.raw_properties), f),
    ensures
        meta_list(read_metas(amll_metas_ops(m), m0), f) == meta_list(m0, f) + if f is Songwriters {
            Seq::empty()
        } else {
            trimmed_values(meta_list(m, f))
        },
{
    reveal_strlit("musicName");
    reveal_strlit("artists");
    reveal_strlit("album");
    reveal_strlit("isrc");
    reveal_strlit("ttmlAuthorGithub");
    reveal_strlit("ttmlAuthorGithubLogin");
    let pe = or_empty(m.platform_ids);
    let re = or_empty(m.raw_properties);
    let o1 = opt_meta_ops("musicName"@, m.title);
    let o2 = opt_meta_ops("artists"@, m.artist);
    let o3 = opt_meta_ops("album"@, m.album);
    let o4 = opt_meta_ops("isrc"@, m.isrc);
    let o5 = platform_metas_ops(pe, pe.len() as int);
    let o6 = opt_meta_ops("ttmlAuthorGithub"@, m.author_ids);
    let o7 = opt_meta_ops("ttmlAuthorGithubLogin"@, m.author_names);
    let o8 = raw_metas_ops(re, re.len() as int);
    assert(amll_metas_ops(m) == o1 + o2 + o3 + o4 + o5 + o6 + o7 + o8);
    let r1 = read_metas(o1, m0);
    let r2 = read_metas(o2, r1);
    let r3 = read_metas(o3, r2);
    let r4 = read_metas(o4, r3);
    let r5 = read_metas(o5, r4);
    let r6 = read_metas(o6, r5);
    let r7 = read_metas(o7, r6);
    lemma_read_metas_concat(o1, o2, m0);
    lemma_read_metas_concat(o1 + o2, o3, m0);
    lemma_read_metas_concat(o1 + o2 + o3, o4, m0);
    lemma_read_metas_concat(o1 + o2 + o3 + o4, o5, m0);
    lemma_read_metas_concat(o1 + o2 + o3 + o4 + o5, o6, m0);
    lemma_read_metas_concat(o1 + o2 + o3 + o4 + o5 + o6, o7, m0);
    lemma_read_metas_concat(o1 + o2 + o3 + o4 + o5 + o6 + o7, o8, m0);
    lemma_read_opt_meta_ops("musicName"@, m.title, m0, f);
    lemma_read_opt_meta_ops("artists"@, m.artist, r1, f);
    lemma_read_opt_meta_ops("album"@, m.album, r2, f);
    lemma_read_opt_meta_ops("isrc"@, m.isrc, r3, f);
    lemma_read_platform_metas(pe, pe.len() as int, r4, f);
    lemma_read_opt_meta_ops("ttmlAuthorGithub"@, m.author_ids, r5, f);
    lemma_read_opt_meta_ops("ttmlAuthorGithubLogin"@, m.author_names, r6, f);
    lemma_read_raw_metas(re, re.len() as int, r7, f);
    assert("musicName"@.len() == 9 && "artists"@.len() == 7 && "album"@.len() == 5 && "isrc"@.len() == 4
        && "ttmlAuthorGithub"@.len() == 16 && "ttmlAuthorGithubLogin"@.len() == 21);
    let z = Seq::<Seq<char>>::empty();
    let b = meta_list(m0, f);
    let v = trimmed_values(meta_list(m, f));
    let i1 = if meta_key_fills("musicName"@, f) { trimmed_values(or_empty(m.title)) } else { z };
    let i2 = if meta_key_fills("artists"@, f) { trimmed_values(or_empty(m.artist)) } else { z };
    let i3 = if meta_key_fills("album"@, f) { trimmed_values(or_empty(m.album)) } else { z };
    let i4 = if meta_key_fills("isrc"@, f) { trimmed_values(or_empty(m.isrc)) } else { z };
    let i6 = if meta_key_fills("ttmlAuthorGithub"@, f) { trimmed_values(or_empty(m.author_ids)) } else { z };
    let i7 = if meta_key_fills("ttmlAuthorGithubLogin"@, f) { trimmed_values(or_empty(m.author_names)) } else { z };
    assert(meta_list(r1, f) == b + i1);
    assert(meta_list(r4, f) == b + i1 + i2 + i3 + i4);
    assert(meta_list(r5, f) == b + i1 + i2 + i3 + i4);
    assert(meta_list(r7, f) == b + i1 + i2 + i3 + i4 + i6 + i7);
    assert(trimmed_values(z) =~= z);
    match f {
        MetaList::Title => assert(b + v + z + z + z + z + z =~= b + v),
        MetaList::Artist => assert(b + z + v + z + z + z + z =~= b + v),
        MetaList::Album => assert(b + z + z + v + z + z + z =~= b + v),
        MetaList::Songwriters => assert(b + z + z + z + z + z + z =~= b + z),
        MetaList::Isrc => assert(b + z + z + z + v + z + z =~= b + v),
        MetaList::AuthorIds => assert(b + z + z + z + z + v + z =~= b + v),
        MetaList::AuthorNames => assert(b + z + z + z + z + z + v =~= b + v),
    }
}

} // verus!
