//! From the simpler AMLL structures up to the parsed TTML structures.

use vstd::prelude::*;
use crate::amll::model::{
    AmllLyricLine, AmllLyricLineV, AmllLyricResult, AmllLyricResultV, AmllLyricWordV,
    AmllMetadata, AmllMetadataV, AmllToTtmlOptions, LyricWordBase, LyricWordBaseV,
};
use crate::amll::to_amll::{meta_entry, nonblank, opt_list, platform_key, spec_amll_metadata};
use crate::maps::{entries_insert, entries_push};
use crate::model::{
    empty_metadata, meta_list, opt_pushed, MetaList, opt_v, spaced_words, spec_normalized_bg, spec_normalized_sub, views,
    Agent, AgentV, BackgroundVocal, BackgroundVocalV, LyricLine, LyricLineV, PlatformId, RubyTag,
    RubyTagV, SubLyricContent, SubLyricContentV, Syllable, SyllableV, TTMLMetadata, TTMLMetadataV,
    TTMLResult, TTMLResultV,
};
use crate::parser::head::{or_empty, platform_of_key};
use crate::parser::state::copy_opt_str;
use crate::text::{copy_str, str_eq};
use crate::timestamp::{line_key, line_key_string};
use crate::utils::{
    normalize_words_spaces, spec_full_text, spec_strip_parens_words, strip_outer_parens_from_words,
};

verus! {

/// The metadata with one value of AMLL key `key` added to the field the key names, to the
/// platform ids, or to the raw properties.
pub open spec fn meta_push_one(m: TTMLMetadataV, key: Seq<char>, v: Seq<char>) -> TTMLMetadataV {
    if key == "title"@ || key == "musicName"@ {
        TTMLMetadataV { title: opt_pushed(m.title, v), ..m }
    } else if key == "artists"@ {
        TTMLMetadataV { artist: opt_pushed(m.artist, v), ..m }
    } else if key == "album"@ {
        TTMLMetadataV { album: opt_pushed(m.album, v), ..m }
    } else if key == "songwriters"@ {
        TTMLMetadataV { songwriters: opt_pushed(m.songwriters, v), ..m }
    } else if key == "isrc"@ {
        TTMLMetadataV { isrc: opt_pushed(m.isrc, v), ..m }
    } else if key == "ttmlAuthorGithub"@ {
        TTMLMetadataV { author_ids: opt_pushed(m.author_ids, v), ..m }
    } else if key == "ttmlAuthorGithubLogin"@ {
        TTMLMetadataV { author_names: opt_pushed(m.author_names, v), ..m }
    } else {
        match platform_of_key(key) {
            Some(p) => TTMLMetadataV {
                platform_ids: Some(entries_push(or_empty(m.platform_ids), p, v)),
                ..m
            },
            None => TTMLMetadataV {
                raw_properties: Some(entries_push(or_empty(m.raw_properties), key, v)),
                ..m
            },
        }
    }
}

/// The metadata with all values of AMLL key `key` added, in order.
pub open spec fn meta_push_all(m: TTMLMetadataV, key: Seq<char>, vals: Seq<Seq<char>>) -> TTMLMetadataV
    decreases vals.len(),
{
    if vals.len() == 0 {
        m
    } else {
        meta_push_one(meta_push_all(m, key, vals.drop_last()), key, vals.last())
    }
}

/// The first value, if any.
pub open spec fn first_value(v: Seq<Seq<char>>) -> Option<Seq<char>> {
    if v.len() > 0 {
        Some(v[0])
    } else {
        None
    }
}

/// The metadata with one AMLL entry taken in: the language and timing mode take the first
/// value (none when there is none), other keys add all their values.
pub open spec fn convert_entry(m: TTMLMetadataV, e: AmllMetadataV) -> TTMLMetadataV {
    if e.key == "language"@ {
        TTMLMetadataV { language: first_value(e.value), ..m }
    } else if e.key == "timingMode"@ {
        TTMLMetadataV { timing_mode: first_value(e.value), ..m }
    } else {
        meta_push_all(m, e.key, e.value)
    }
}

/// The metadata of the AMLL entries, taken in order.
pub open spec fn spec_convert_metadata(es: Seq<AmllMetadataV>) -> TTMLMetadataV
    decreases es.len(),
{
    if es.len() == 0 {
        empty_metadata()
    } else {
        convert_entry(spec_convert_metadata(es.drop_last()), es.last())
    }
}

/// Adds one value of AMLL key `key` to the metadata.
fn meta_push_one_exec(m: &mut TTMLMetadata, key: &str, v: String)
    ensures
        final(m)@ == meta_push_one(old(m)@, key@, v@),
{
    if str_eq(key, "title") || str_eq(key, "musicName") {
        m.push_title(v);
    } else if str_eq(key, "artists") {
        m.push_artist(v);
    } else if str_eq(key, "album") {
        m.push_album(v);
    } else if str_eq(key, "songwriters") {
        m.push_songwriter(v);
    } else if str_eq(key, "isrc") {
        m.push_isrc(v);
    } else if str_eq(key, "ttmlAuthorGithub") {
        m.push_author_id(v);
    } else if str_eq(key, "ttmlAuthorGithubLogin") {
        m.push_author_name(v);
    } else if str_eq(key, "ncmMusicId") {
        m.push_platform_id(PlatformId::NcmMusicId, v);
    } else if str_eq(key, "qqMusicId") {
        m.push_platform_id(PlatformId::QqMusicId, v);
    } else if str_eq(key, "spotifyId") {
        m.push_platform_id(PlatformId::SpotifyId, v);
    } else if str_eq(key, "appleMusicId") {
        m.push_platform_id(PlatformId::AppleMusicId, v);
    } else {
        m.push_raw_property(copy_str(key), v);
    }
}

/// The first value, if any.
fn first_value_exec(v: &Vec<String>) -> (r: Option<String>)
    ensures
        opt_v(r) == first_value(views(v@)),
{
    if v.len() > 0 {
        Some(copy_str(v[0].as_str()))
    } else {
        None
    }
}

/// Converts the AMLL metadata entries into the metadata.
pub fn convert_metadata(entries: &Vec<AmllMetadata>) -> (m: TTMLMetadata)
    ensures
        m@ == spec_convert_metadata(views(entries@)),
{
    let ghost es = views(entries@);
    let mut m = TTMLMetadata::new_empty();
    let mut i: usize = 0;
    assert(es.take(0) =~= Seq::<AmllMetadataV>::empty());
    while i < entries.len()
        invariant
            i <= entries.len(),
            es == views(entries@),
            m@ == spec_convert_metadata(es.take(i as int)),
        decreases entries.len() - i,
    {
        let e = &entries[i];
        assert(es.take(i + 1).drop_last() =~= es.take(i as int));
        assert(es.take(i + 1).last() == e@);
        if str_eq(e.key.as_str(), "language") {
            m.language = first_value_exec(&e.value);
        } else if str_eq(e.key.as_str(), "timingMode") {
            m.timing_mode = first_value_exec(&e.value);
        } else {
            let ghost m0 = m@;
            let ghost vs = views(e.value@);
            let mut j: usize = 0;
            assert(vs.take(0) =~= Seq::<Seq<char>>::empty());
            while j < e.value.len()
                invariant
                    j <= e.value.len(),
                    vs == views(e.value@),
                    m@ == meta_push_all(m0, e.key@, vs.take(j as int)),
                decreases e.value.len() - j,
            {
                assert(vs.take(j + 1).drop_last() =~= vs.take(j as int));
                meta_push_one_exec(&mut m, e.key.as_str(), copy_str(e.value[j].as_str()));
                j = j + 1;
            }
            assert(vs.take(j as int) =~= vs);
        }
        i = i + 1;
    }
    assert(es.take(i as int) =~= es);
    m
}

/// An AMLL ruby word as a ruby annotation.
pub open spec fn ruby_of_base(r: LyricWordBaseV) -> RubyTagV {
    RubyTagV { text: r.word, start_time: r.start_time, end_time: r.end_time }
}

/// An AMLL word as a syllable (its spaces still in the text).
pub open spec fn syl_of_word(w: AmllLyricWordV) -> SyllableV {
    SyllableV {
        text: w.word,
        start_time: w.start_time,
        end_time: w.end_time,
        ends_with_space: None,
        ruby: match w.ruby {
            Some(rs) => Some(rs.map_values(|r: LyricWordBaseV| ruby_of_base(r))),
            None => None,
        },
        obscene: w.obscene,
        empty_beat: w.empty_beat,
    }
}

/// The transliteration syllable of an AMLL word, empty when the word has none.
pub open spec fn rom_syl_of_word(w: AmllLyricWordV) -> SyllableV {
    SyllableV {
        text: match w.roman_word {
            Some(r) => r,
            None => Seq::empty(),
        },
        start_time: w.start_time,
        end_time: w.end_time,
        ends_with_space: None,
        ruby: None,
        obscene: None,
        empty_beat: None,
    }
}

/// Whether some word has a transliteration.
pub open spec fn has_rom_words(ws: Seq<AmllLyricWordV>) -> bool {
    exists|i: int| 0 <= i < ws.len() && (#[trigger] ws[i]).roman_word is Some
}

/// The syllables, translations and transliterations of an AMLL line: the syllables with
/// their spaces normalised; the translation (language `tl`) and the line-timed
/// transliteration normalised as line texts; with transliterated words, a word-timed
/// transliteration whose text is the line's transliteration.
pub open spec fn spec_single_line(l: AmllLyricLineV, tl: Seq<char>, rl: Option<Seq<char>>) -> (
    Seq<SyllableV>,
    Seq<SubLyricContentV>,
    Seq<SubLyricContentV>,
) {
    let syls = spaced_words(l.words.map_values(|w: AmllLyricWordV| syl_of_word(w)));
    let trans = if l.translated_lyric.len() > 0 {
        seq![
            spec_normalized_sub(
                SubLyricContentV { language: Some(tl), text: l.translated_lyric, words: None },
                false,
            ),
        ]
    } else {
        Seq::empty()
    };
    let roms = if has_rom_words(l.words) {
        seq![
            SubLyricContentV {
                text: l.roman_lyric,
                ..spec_normalized_sub(
                    SubLyricContentV {
                        language: rl,
                        text: Seq::empty(),
                        words: Some(l.words.map_values(|w: AmllLyricWordV| rom_syl_of_word(w))),
                    },
                    true,
                )
            },
        ]
    } else if l.roman_lyric.len() > 0 {
        seq![
            spec_normalized_sub(
                SubLyricContentV { language: rl, text: l.roman_lyric, words: None },
                false,
            ),
        ]
    } else {
        Seq::empty()
    };
    (syls, trans, roms)
}

/// AMLL ruby words as ruby annotations.
fn rubies_of_bases(rs: &Vec<LyricWordBase>) -> (r: Vec<RubyTag>)
    ensures
        views(r@) == views(rs@).map_values(|x: LyricWordBaseV| ruby_of_base(x)),
{
    let mut out: Vec<RubyTag> = Vec::new();
    let mut i: usize = 0;
    while i < rs.len()
        invariant
            i <= rs.len(),
            views(out@) == views(rs@.take(i as int)).map_values(|x: LyricWordBaseV| ruby_of_base(x)),
        decreases rs.len() - i,
    {
        let ghost prev = views(out@);
        out.push(RubyTag { text: copy_str(rs[i].word.as_str()), start_time: rs[i].start_time, end_time: rs[i].end_time });
        assert(views(out@) =~= prev.push(ruby_of_base(rs@[i as int]@)));
        assert(views(rs@.take(i + 1)).map_values(|x: LyricWordBaseV| ruby_of_base(x)) =~= views(
            rs@.take(i as int),
        ).map_values(|x: LyricWordBaseV| ruby_of_base(x)).push(ruby_of_base(rs@[i as int]@)));
        i = i + 1;
    }
    assert(rs@.take(i as int) =~= rs@);
    out
}

/// Converts the words, translation and transliteration of an AMLL line.
pub fn convert_single_line(l: &AmllLyricLine, tl: &str, rl: &Option<String>) -> (r: (
    Vec<Syllable>,
    Vec<SubLyricContent>,
    Vec<SubLyricContent>,
))
    ensures
        (views(r.0@), views(r.1@), views(r.2@)) == spec_single_line(l@, tl@, opt_v(*rl)),
{
    let ghost wv = views(l.words@);
    let mut has_rom = false;
    let mut i: usize = 0;
    while i < l.words.len()
        invariant
            i <= l.words.len(),
            wv == views(l.words@),
            !has_rom ==> forall|j: int| 0 <= j < i ==> (#[trigger] wv[j]).roman_word is None,
            has_rom ==> has_rom_words(wv),
        decreases l.words.len() - i,
    {
        if l.words[i].roman_word.is_some() {
            assert(wv[i as int].roman_word is Some);
            has_rom = true;
        }
        i = i + 1;
    }
    assert(has_rom == has_rom_words(wv));
    let mut syls: Vec<Syllable> = Vec::new();
    let mut rom_syls: Vec<Syllable> = Vec::new();
    let mut k: usize = 0;
    while k < l.words.len()
        invariant
            k <= l.words.len(),
            wv == views(l.words@),
            views(syls@) == wv.take(k as int).map_values(|w: AmllLyricWordV| syl_of_word(w)),
            views(rom_syls@) == wv.take(k as int).map_values(|w: AmllLyricWordV| rom_syl_of_word(w)),
        decreases l.words.len() - k,
    {
        let w = &l.words[k];
        assert(w@ == wv[k as int]);
        let ruby = match &w.ruby {
            Some(rs) => Some(rubies_of_bases(rs)),
            None => None,
        };
        let s = Syllable {
            text: copy_str(w.word.as_str()),
            start_time: w.start_time,
            end_time: w.end_time,
            ends_with_space: None,
            ruby,
            obscene: w.obscene,
            empty_beat: w.empty_beat,
        };
        let rs = Syllable {
            text: match &w.roman_word {
                Some(r) => copy_str(r.as_str()),
                None => String::new(),
            },
            start_time: w.start_time,
            end_time: w.end_time,
            ends_with_space: None,
            ruby: None,
            obscene: None,
            empty_beat: None,
        };
        let ghost p1 = views(syls@);
        let ghost p2 = views(rom_syls@);
        syls.push(s);
        rom_syls.push(rs);
        assert(views(syls@) =~= p1.push(syl_of_word(wv[k as int])));
        assert(views(rom_syls@) =~= p2.push(rom_syl_of_word(wv[k as int])));
        assert(wv.take(k + 1) =~= wv.take(k as int).push(wv[k as int]));
        k = k + 1;
    }
    assert(wv.take(k as int) =~= wv);
    let ghost sv = views(syls@);
    normalize_words_spaces(&mut syls);
    assert(views(syls@) =~= spaced_words(sv));
    let mut translations: Vec<SubLyricContent> = Vec::new();
    if !l.translated_lyric.as_str().is_empty() {
        let mut t = SubLyricContent {
            language: Some(copy_str(tl)),
            text: copy_str(l.translated_lyric.as_str()),
            words: None,
        };
        t.normalize(false);
        translations.push(t);
    }
    let mut romanizations: Vec<SubLyricContent> = Vec::new();
    if has_rom {
        let mut c = SubLyricContent { language: copy_opt_str(rl), text: String::new(), words: Some(rom_syls) };
        c.normalize(true);
        c.text = copy_str(l.roman_lyric.as_str());
        romanizations.push(c);
    } else if !l.roman_lyric.as_str().is_empty() {
        let mut c = SubLyricContent { language: copy_opt_str(rl), text: copy_str(l.roman_lyric.as_str()), words: None };
        c.normalize(false);
        romanizations.push(c);
    }
    assert(views(translations@) =~= spec_single_line(l@, tl@, opt_v(*rl)).1);
    assert(views(romanizations@) =~= spec_single_line(l@, tl@, opt_v(*rl)).2);
    (syls, translations, romanizations)
}

/// The state while converting AMLL lines: the lines so far, whether some line is a duet
/// line, whether the last AMLL line was a background line, and the duet side of the last main
/// line.
pub struct ToTtmlState {
    pub lines: Seq<LyricLineV>,
    pub has_duet: bool,
    pub last_was_bg: bool,
    pub last_main_duet: bool,
}

/// A list as an optional list, none when empty.
pub open spec fn non_empty<T>(s: Seq<T>) -> Option<Seq<T>> {
    if s.len() > 0 {
        Some(s)
    } else {
        None
    }
}

/// The text of a line rebuilt from its syllables, when it has some.
pub open spec fn rebuilt(l: LyricLineV) -> LyricLineV {
    match l.words {
        Some(ws) => LyricLineV { text: spec_full_text(ws, false), ..l },
        None => l,
    }
}

/// Converts the AMLL lines `ls[k..]`. A main line, or a background line that follows another
/// background line or comes first, becomes a line `L<n>` of singer `v1`, or `v2` on the duet
/// side (a promoted background line keeps the side of the last main line and loses its
/// parentheses); any other background line becomes the background vocal of the last line.
pub open spec fn to_ttml_acc(
    ls: Seq<AmllLyricLineV>,
    k: int,
    tl: Seq<char>,
    rl: Option<Seq<char>>,
    st: ToTtmlState,
) -> ToTtmlState
    decreases ls.len() - k,
{
    if k < 0 || k >= ls.len() {
        st
    } else {
        let l = ls[k];
        let (syls, trans, roms) = spec_single_line(l, tl, rl);
        let is_main = !l.is_bg || st.lines.len() == 0 || st.last_was_bg;
        let st2 = if is_main {
            let words = if l.is_bg && syls.len() > 0 {
                Some(spec_strip_parens_words(syls))
            } else {
                non_empty(syls)
            };
            let duet = if l.is_bg && st.lines.len() > 0 {
                st.last_main_duet
            } else {
                l.is_duet
            };
            let line = rebuilt(
                LyricLineV {
                    text: Seq::empty(),
                    start_time: l.start_time,
                    end_time: l.end_time,
                    words,
                    translations: non_empty(trans),
                    romanizations: non_empty(roms),
                    background_vocal: None,
                    id: Some(line_key(st.lines.len() + 1)),
                    agent_id: Some(
                        if duet {
                            "v2"@
                        } else {
                            "v1"@
                        },
                    ),
                    song_part: None,
                    block_index: None,
                },
            );
            ToTtmlState {
                lines: st.lines.push(line),
                has_duet: st.has_duet || duet,
                last_was_bg: l.is_bg,
                last_main_duet: duet,
            }
        } else {
            let bg = spec_normalized_bg(
                BackgroundVocalV {
                    text: Seq::empty(),
                    start_time: l.start_time,
                    end_time: l.end_time,
                    words: non_empty(syls),
                    translations: non_empty(trans),
                    romanizations: non_empty(roms),
                },
            );
            ToTtmlState {
                lines: st.lines.update(
                    st.lines.len() - 1,
                    LyricLineV { background_vocal: Some(bg), ..st.lines.last() },
                ),
                last_was_bg: l.is_bg,
                ..st
            }
        };
        to_ttml_acc(ls, k + 1, tl, rl, st2)
    }
}

/// The metadata with a singer of type `person` added under `id`.
pub open spec fn with_person(m: TTMLMetadataV, id: Seq<char>) -> TTMLMetadataV {
    TTMLMetadataV {
        agents: Some(
            entries_insert(
                or_empty(m.agents),
                id,
                AgentV { id, name: None, type_: Some("person"@) },
            ),
        ),
        ..m
    }
}

/// The parsed TTML lyric of an AMLL lyric, translations in language `tl` and
/// transliterations in `rl`: the singer `v1`, and `v2` when some line is a duet line, are
/// added to the metadata.
pub open spec fn spec_to_ttml(r: AmllLyricResultV, tl: Seq<char>, rl: Option<Seq<char>>) -> TTMLResultV {
    let st = to_ttml_acc(
        r.lines,
        0,
        tl,
        rl,
        ToTtmlState { lines: Seq::empty(), has_duet: false, last_was_bg: false, last_main_duet: false },
    );
    let m1 = with_person(spec_convert_metadata(r.metadata), "v1"@);
    TTMLResultV {
        metadata: if st.has_duet {
            with_person(m1, "v2"@)
        } else {
            m1
        },
        lines: st.lines,
    }
}

/// The language of translations in the options, `zh-Hans` by default.
pub open spec fn trans_lang_of(o: Option<AmllToTtmlOptions>) -> Seq<char> {
    match o {
        Some(x) => match x.translation_language {
            Some(t) => t@,
            None => "zh-Hans"@,
        },
        None => "zh-Hans"@,
    }
}

/// The language of transliterations in the options, none by default.
pub open spec fn rom_lang_of(o: Option<AmllToTtmlOptions>) -> Option<Seq<char>> {
    match o {
        Some(x) => opt_v(x.romanization_language),
        None => None,
    }
}

/// Adds a singer of type `person` under `id` to the metadata.
fn add_person(m: &mut TTMLMetadata, id: &str)
    ensures
        final(m)@ == with_person(old(m)@, id@),
{
    m.insert_agent(Agent { id: copy_str(id), name: None, type_: Some(copy_str("person")) });
}

/// Converts an AMLL lyric into the parsed TTML structures: texts normalised, spaces moved
/// into the syllable flags, parentheses taken off background vocals, lines numbered `L1`,
/// `L2`, … and sung by `v1`, or `v2` on the duet side.
pub fn to_ttml_result(amll_result: AmllLyricResult, options: Option<&AmllToTtmlOptions>) -> (r: TTMLResult)
    ensures
        r@ == spec_to_ttml(
            amll_result@,
            trans_lang_of(
                match options {
                    Some(o) => Some(*o),
                    None => None,
                },
            ),
            rom_lang_of(
                match options {
                    Some(o) => Some(*o),
                    None => None,
                },
            ),
        ),
{
    let ghost oo = match options {
        Some(o) => Some(*o),
        None => None,
    };
    let tl: String = match options {
        Some(o) => match &o.translation_language {
            Some(t) => copy_str(t.as_str()),
            None => copy_str("zh-Hans"),
        },
        None => copy_str("zh-Hans"),
    };
    let rl: Option<String> = match options {
        Some(o) => copy_opt_str(&o.romanization_language),
        None => None,
    };
    assert(tl@ == trans_lang_of(oo));
    assert(opt_v(rl) == rom_lang_of(oo));
    let mut metadata = convert_metadata(&amll_result.metadata);
    let ghost ls = views(amll_result.lines@);
    let ghost st0 = ToTtmlState { lines: Seq::empty(), has_duet: false, last_was_bg: false, last_main_duet: false };
    let mut lines: Vec<LyricLine> = Vec::new();
    let mut has_duet = false;
    let mut last_was_bg = false;
    let mut last_main_duet = false;
    let mut k: usize = 0;
    assert(views(lines@) =~= Seq::<LyricLineV>::empty());
    while k < amll_result.lines.len()
        invariant
            k <= amll_result.lines.len(),
            ls == views(amll_result.lines@),
            lines.len() <= k,
            to_ttml_acc(
                ls,
                k as int,
                tl@,
                opt_v(rl),
                ToTtmlState { lines: views(lines@), has_duet, last_was_bg, last_main_duet },
            ) == to_ttml_acc(ls, 0, tl@, opt_v(rl), st0),
        decreases amll_result.lines.len() - k,
    {
        let l = &amll_result.lines[k];
        assert(l@ == ls[k as int]);
        let (syls, trans, roms) = convert_single_line(l, tl.as_str(), &rl);
        let is_main = !l.is_bg || lines.len() == 0 || last_was_bg;
        let words = if syls.len() > 0 {
            Some(syls)
        } else {
            None
        };
        let translations = if trans.len() > 0 {
            Some(trans)
        } else {
            None
        };
        let romanizations = if roms.len() > 0 {
            Some(roms)
        } else {
            None
        };
        if is_main {
            let mut words = words;
            if l.is_bg {
                if let Some(ws) = &mut words {
                    strip_outer_parens_from_words(ws);
                }
            }
            let duet = if l.is_bg && lines.len() > 0 {
                last_main_duet
            } else {
                l.is_duet
            };
            if duet {
                has_duet = true;
            }
            let mut line = LyricLine {
                text: String::new(),
                start_time: l.start_time,
                end_time: l.end_time,
                words,
                translations,
                romanizations,
                background_vocal: None,
                id: Some(line_key_string(lines.len() + 1)),
                agent_id: Some(
                    if duet {
                        copy_str("v2")
                    } else {
                        copy_str("v1")
                    },
                ),
                song_part: None,
                block_index: None,
            };
            line.rebuild_text();
            let ghost prev = views(lines@);
            lines.push(line);
            assert(views(lines@) =~= prev.push(line@));
            last_main_duet = duet;
        } else {
            let mut bg = BackgroundVocal {
                text: String::new(),
                start_time: l.start_time,
                end_time: l.end_time,
                words,
                translations,
                romanizations,
            };
            bg.normalize();
            let n = lines.len();
            let ghost prev = views(lines@);
            lines[n - 1].background_vocal = Some(bg);
            assert(views(lines@) =~= prev.update(
                n - 1,
                LyricLineV { background_vocal: Some(bg@), ..prev.last() },
            ));
        }
        last_was_bg = l.is_bg;
        k = k + 1;
    }
    add_person(&mut metadata, "v1");
    if has_duet {
        add_person(&mut metadata, "v2");
    }
    TTMLResult { metadata, lines }
}

/// Whether lines are numbered `L1`, `L2`, … in order and each is sung by `v1` or `v2`.
pub open spec fn lines_numbered(ls: Seq<LyricLineV>) -> bool {
    forall|k: int|
        0 <= k < ls.len() ==> (#[trigger] ls[k]).id == Some(line_key((k + 1) as nat)) && (ls[k].agent_id
            == Some("v1"@) || ls[k].agent_id == Some("v2"@))
}

proof fn lemma_to_ttml_acc_numbered(
    ls: Seq<AmllLyricLineV>,
    k: int,
    tl: Seq<char>,
    rl: Option<Seq<char>>,
    st: ToTtmlState,
)
    requires
        lines_numbered(st.lines),
    ensures
        lines_numbered(to_ttml_acc(ls, k, tl, rl, st).lines),
    decreases ls.len() - k,
{
    if 0 <= k < ls.len() {
        let l = ls[k];
        let (syls, trans, roms) = spec_single_line(l, tl, rl);
        let is_main = !l.is_bg || st.lines.len() == 0 || st.last_was_bg;
        if is_main {
            let words = if l.is_bg && syls.len() > 0 {
                Some(spec_strip_parens_words(syls))
            } else {
                non_empty(syls)
            };
            let duet = if l.is_bg && st.lines.len() > 0 {
                st.last_main_duet
            } else {
                l.is_duet
            };
            let line = rebuilt(
                LyricLineV {
                    text: Seq::empty(),
                    start_time: l.start_time,
                    end_time: l.end_time,
                    words,
                    translations: non_empty(trans),
                    romanizations: non_empty(roms),
                    background_vocal: None,
                    id: Some(line_key(st.lines.len() + 1)),
                    agent_id: Some(
                        if duet {
                            "v2"@
                        } else {
                            "v1"@
                        },
                    ),
                    song_part: None,
                    block_index: None,
                },
            );
            let st2 = ToTtmlState {
                lines: st.lines.push(line),
                has_duet: st.has_duet || duet,
                last_was_bg: l.is_bg,
                last_main_duet: duet,
            };
            assert(lines_numbered(st2.lines)) by {
                assert forall|j: int| 0 <= j < st2.lines.len() implies (#[trigger] st2.lines[j]).id == Some(
                    line_key((j + 1) as nat),
                ) && (st2.lines[j].agent_id == Some("v1"@) || st2.lines[j].agent_id == Some("v2"@)) by {
                    if j < st.lines.len() {
                        assert(st2.lines[j] == st.lines[j]);
                    }
                }
            }
            lemma_to_ttml_acc_numbered(ls, k + 1, tl, rl, st2);
        } else {
            let bg = spec_normalized_bg(
                BackgroundVocalV {
                    text: Seq::empty(),
                    start_time: l.start_time,
                    end_time: l.end_time,
                    words: non_empty(syls),
                    translations: non_empty(trans),
                    romanizations: non_empty(roms),
                },
            );
            let st2 = ToTtmlState {
                lines: st.lines.update(
                    st.lines.len() - 1,
                    LyricLineV { background_vocal: Some(bg), ..st.lines.last() },
                ),
                last_was_bg: l.is_bg,
                ..st
            };
            assert(lines_numbered(st2.lines)) by {
                assert forall|j: int| 0 <= j < st2.lines.len() implies (#[trigger] st2.lines[j]).id == Some(
                    line_key((j + 1) as nat),
                ) && (st2.lines[j].agent_id == Some("v1"@) || st2.lines[j].agent_id == Some("v2"@)) by {
                    assert(st.lines[j].id == Some(line_key((j + 1) as nat)));
                    if j == st.lines.len() - 1 {
                        assert(st2.lines[j].id == st.lines.last().id);
                    }
                }
            }
            lemma_to_ttml_acc_numbered(ls, k + 1, tl, rl, st2);
        }
    }
}

/// The lines made from an AMLL lyric are numbered `L1`, `L2`, … in order, and each is sung
/// by `v1` or, on the duet side, `v2`.
pub proof fn lemma_to_ttml_lines_numbered(r: AmllLyricResultV, tl: Seq<char>, rl: Option<Seq<char>>)
    ensures
        lines_numbered(spec_to_ttml(r, tl, rl).lines),
{
    lemma_to_ttml_acc_numbered(
        r.lines,
        0,
        tl,
        rl,
        ToTtmlState { lines: Seq::empty(), has_duet: false, last_was_bg: false, last_main_duet: false },
    );
}


/// Whether the values of AMLL key `key` go to the list `f` of the metadata.
pub open spec fn amll_key_fills(key: Seq<char>, f: MetaList) -> bool {
    match f {
        MetaList::Title => key == "title"@ || key == "musicName"@,
        MetaList::Artist => key == "artists"@,
        MetaList::Album => key == "album"@,
        MetaList::Songwriters => key == "songwriters"@,
        MetaList::Isrc => key == "isrc"@,
        MetaList::AuthorIds => key == "ttmlAuthorGithub"@,
        MetaList::AuthorNames => key == "ttmlAuthorGithubLogin"@,
    }
}

/// The values of the AMLL entries whose key goes to the list `f`, in order.
pub open spec fn amll_values_for(es: Seq<AmllMetadataV>, f: MetaList) -> Seq<Seq<char>>
    decreases es.len(),
{
    if es.len() == 0 {
        Seq::empty()
    } else {
        amll_values_for(es.drop_last(), f) + if amll_key_fills(es.last().key, f) {
            es.last().value
        } else {
            Seq::empty()
        }
    }
}

/// The AMLL keys that the conversion knows are all different.
proof fn lemma_amll_keys_differ()
    ensures
        "title"@.len() == 5,
        "album"@.len() == 5,
        "title"@ != "album"@,
        "musicName"@.len() == 9,
        "artists"@.len() == 7,
        "songwriters"@.len() == 11,
        "isrc"@.len() == 4,
        "ttmlAuthorGithub"@.len() == 16,
        "ttmlAuthorGithubLogin"@.len() == 21,
        "language"@.len() == 8,
        "timingMode"@.len() == 10,
{
    reveal_strlit("title");
    reveal_strlit("musicName");
    reveal_strlit("artists");
    reveal_strlit("album");
    reveal_strlit("songwriters");
    reveal_strlit("isrc");
    reveal_strlit("ttmlAuthorGithub");
    reveal_strlit("ttmlAuthorGithubLogin");
    reveal_strlit("language");
    reveal_strlit("timingMode");
    assert("title"@[0] != "album"@[0]);
}

proof fn lemma_push_one_lists(m: TTMLMetadataV, key: Seq<char>, v: Seq<char>, f: MetaList)
    ensures
        meta_list(meta_push_one(m, key, v), f) == meta_list(m, f) + if amll_key_fills(key, f) {
            seq![v]
        } else {
            Seq::empty()
        },
{
    lemma_amll_keys_differ();
    let r = meta_push_one(m, key, v);
    if amll_key_fills(key, f) {
        assert(meta_list(r, f) =~= meta_list(m, f).push(v));
    } else {
        assert(meta_list(r, f) =~= meta_list(m, f));
    }
}

proof fn lemma_push_all_lists(m: TTMLMetadataV, key: Seq<char>, vals: Seq<Seq<char>>, f: MetaList)
    ensures
        meta_list(meta_push_all(m, key, vals), f) == meta_list(m, f) + if amll_key_fills(key, f) {
            vals
        } else {
            Seq::empty()
        },
    decreases vals.len(),
{
    if vals.len() == 0 {
        assert(meta_list(m, f) + Seq::<Seq<char>>::empty() =~= meta_list(m, f));
    } else {
        lemma_push_all_lists(m, key, vals.drop_last(), f);
        lemma_push_one_lists(meta_push_all(m, key, vals.drop_last()), key, vals.last(), f);
        if amll_key_fills(key, f) {
            assert(meta_list(m, f) + vals.drop_last() + seq![vals.last()] =~= meta_list(m, f) + vals);
        } else {
            assert(meta_list(m, f) + Seq::<Seq<char>>::empty() + Seq::<Seq<char>>::empty() =~= meta_list(m, f) + Seq::<Seq<char>>::empty());
        }
    }
}

proof fn lemma_convert_metadata_lists(es: Seq<AmllMetadataV>, f: MetaList)
    ensures
        meta_list(spec_convert_metadata(es), f) == amll_values_for(es, f),
    decreases es.len(),
{
    lemma_amll_keys_differ();
    if es.len() == 0 {
        assert(meta_list(empty_metadata(), f) =~= Seq::<Seq<char>>::empty());
    } else {
        let prev = spec_convert_metadata(es.drop_last());
        let e = es.last();
        lemma_convert_metadata_lists(es.drop_last(), f);
        if e.key == "language"@ || e.key == "timingMode"@ {
            assert(!amll_key_fills(e.key, f));
            assert(amll_values_for(es, f) =~= amll_values_for(es.drop_last(), f));
        } else {
            lemma_push_all_lists(prev, e.key, e.value, f);
        }
    }
}

/// Converting AMLL metadata fills each list of the metadata with the values of the keys that
/// name it, in the order of the entries, and with nothing else: `title` and `musicName` give
/// the titles, `artists` the artists, `album` the albums, `songwriters` the songwriters,
/// `isrc` the ISRCs, `ttmlAuthorGithub` and `ttmlAuthorGithubLogin` the author ids and names.
pub proof fn lemma_to_ttml_metadata_lists(r: AmllLyricResultV, tl: Seq<char>, rl: Option<Seq<char>>, f: MetaList)
    ensures
        meta_list(spec_to_ttml(r, tl, rl).metadata, f) == amll_values_for(r.metadata, f),
{
    lemma_convert_metadata_lists(r.metadata, f);
}


proof fn lemma_values_for_concat(a: Seq<AmllMetadataV>, b: Seq<AmllMetadataV>, f: MetaList)
    ensures
        amll_values_for(a + b, f) == amll_values_for(a, f) + amll_values_for(b, f),
    decreases b.len(),
{
    if b.len() == 0 {
        assert(a + b =~= a);
        assert(amll_values_for(a, f) + Seq::<Seq<char>>::empty() =~= amll_values_for(a, f));
    } else {
        assert((a + b).drop_last() =~= a + b.drop_last());
        assert((a + b).last() == b.last());
        lemma_values_for_concat(a, b.drop_last(), f);
        let t = if amll_key_fills(b.last().key, f) {
            b.last().value
        } else {
            Seq::empty()
        };
        assert(amll_values_for(a, f) + amll_values_for(b.drop_last(), f) + t =~= amll_values_for(a, f) + (
        amll_values_for(b.drop_last(), f) + t));
    }
}

/// The values that an entry list of one entry, or none, gives to a list.
proof fn lemma_values_for_entry(key: Seq<char>, vals: Option<Seq<Seq<char>>>, f: MetaList)
    ensures
        amll_values_for(meta_entry(key, vals), f) == if amll_key_fills(key, f) {
            match vals {
                Some(v) => nonblank(v),
                None => Seq::empty(),
            }
        } else {
            Seq::empty()
        },
{
    let es = meta_entry(key, vals);
    let z = Seq::<Seq<char>>::empty();
    if es.len() == 1 {
        assert(es.drop_last() =~= Seq::<AmllMetadataV>::empty());
        assert(amll_values_for(es.drop_last(), f) == z);
        assert(es.last().key == key);
        assert(es.last().value == nonblank(vals->0));
        assert(z + nonblank(vals->0) =~= nonblank(vals->0));
        assert(z + z =~= z);
    } else {
        assert(es.len() == 0);
        if let Some(v) = vals {
            if amll_key_fills(key, f) {
                assert(nonblank(v) =~= Seq::<Seq<char>>::empty());
            }
        }
    }
}

/// Entries none of whose keys names a list give nothing to the lists.
proof fn lemma_values_for_none(es: Seq<AmllMetadataV>, f: MetaList)
    requires
        forall|k: int| 0 <= k < es.len() ==> !amll_key_fills(#[trigger] es[k].key, f),
    ensures
        amll_values_for(es, f) == Seq::<Seq<char>>::empty(),
    decreases es.len(),
{
    if es.len() > 0 {
        assert(es.last() == es[es.len() - 1]);
        assert forall|k: int| 0 <= k < es.drop_last().len() implies !amll_key_fills(#[trigger] es.drop_last()[k].key, f) by {
            assert(es.drop_last()[k] == es[k]);
        }
        lemma_values_for_none(es.drop_last(), f);
        assert(Seq::<Seq<char>>::empty() + Seq::<Seq<char>>::empty() =~= Seq::<Seq<char>>::empty());
    }
}

/// The AMLL key under which a list of the metadata is written.
pub open spec fn amll_list_key(f: MetaList) -> Seq<char> {
    match f {
        MetaList::Title => "title"@,
        MetaList::Artist => "artists"@,
        MetaList::Album => "album"@,
        MetaList::Songwriters => "songwriters"@,
        MetaList::Isrc => "isrc"@,
        MetaList::AuthorIds => "ttmlAuthorGithub"@,
        MetaList::AuthorNames => "ttmlAuthorGithubLogin"@,
    }
}

/// Writing metadata as AMLL entries and reading them back gives each list its values again,
/// in order, without the blank ones; this holds when no raw property has the key of a list,
/// which would add its values to that list on the way back.
pub proof fn lemma_metadata_lists_round_trip(m: TTMLMetadataV, f: MetaList)
    requires
        forall|k: int| 0 <= k < or_empty(m.raw_properties).len() ==> !amll_key_fills(
            (#[trigger] or_empty(m.raw_properties)[k]).0,
            f,
        ),
    ensures
        meta_list(spec_convert_metadata(spec_amll_metadata(m)), f) == nonblank(meta_list(m, f)),
{
    lemma_amll_keys_differ();
    reveal_strlit("ncmMusicId");
    reveal_strlit("qqMusicId");
    reveal_strlit("spotifyId");
    reveal_strlit("appleMusicId");
    reveal_strlit("musicName");
    assert("qqMusicId"@[0] != "musicName"@[0]);
    assert("spotifyId"@[0] != "musicName"@[0]);
    assert("ncmMusicId"@.len() == 10 && "appleMusicId"@.len() == 12);
    let e1 = meta_entry("title"@, m.title);
    let e2 = meta_entry("artists"@, m.artist);
    let e3 = meta_entry("album"@, m.album);
    let e4 = meta_entry("songwriters"@, m.songwriters);
    let e5 = meta_entry("isrc"@, m.isrc);
    let e6 = meta_entry("ttmlAuthorGithub"@, m.author_ids);
    let e7 = meta_entry("ttmlAuthorGithubLogin"@, m.author_names);
    let e8 = meta_entry("language"@, opt_list(m.language));
    let e9 = meta_entry("timingMode"@, opt_list(m.timing_mode));
    let pl = or_empty(m.platform_ids).map_values(
        |e: (PlatformId, Seq<Seq<char>>)| AmllMetadataV { key: platform_key(e.0), value: e.1 },
    );
    let rw = or_empty(m.raw_properties).map_values(
        |e: (Seq<char>, Seq<Seq<char>>)| AmllMetadataV { key: e.0, value: e.1 },
    );
    let all = e1 + e2 + e3 + e4 + e5 + e6 + e7 + e8 + e9 + pl + rw;
    assert(spec_amll_metadata(m) == all);
    lemma_convert_metadata_lists(all, f);
    lemma_values_for_concat(e1, e2, f);
    lemma_values_for_concat(e1 + e2, e3, f);
    lemma_values_for_concat(e1 + e2 + e3, e4, f);
    lemma_values_for_concat(e1 + e2 + e3 + e4, e5, f);
    lemma_values_for_concat(e1 + e2 + e3 + e4 + e5, e6, f);
    lemma_values_for_concat(e1 + e2 + e3 + e4 + e5 + e6, e7, f);
    lemma_values_for_concat(e1 + e2 + e3 + e4 + e5 + e6 + e7, e8, f);
    lemma_values_for_concat(e1 + e2 + e3 + e4 + e5 + e6 + e7 + e8, e9, f);
    lemma_values_for_concat(e1 + e2 + e3 + e4 + e5 + e6 + e7 + e8 + e9, pl, f);
    lemma_values_for_concat(e1 + e2 + e3 + e4 + e5 + e6 + e7 + e8 + e9 + pl, rw, f);
    lemma_values_for_entry("title"@, m.title, f);
    lemma_values_for_entry("artists"@, m.artist, f);
    lemma_values_for_entry("album"@, m.album, f);
    lemma_values_for_entry("songwriters"@, m.songwriters, f);
    lemma_values_for_entry("isrc"@, m.isrc, f);
    lemma_values_for_entry("ttmlAuthorGithub"@, m.author_ids, f);
    lemma_values_for_entry("ttmlAuthorGithubLogin"@, m.author_names, f);
    lemma_values_for_entry("language"@, opt_list(m.language), f);
    lemma_values_for_entry("timingMode"@, opt_list(m.timing_mode), f);
    assert forall|k: int| 0 <= k < pl.len() implies !amll_key_fills(#[trigger] pl[k].key, f) by {
        let p = or_empty(m.platform_ids)[k].0;
        assert(pl[k].key == platform_key(p));
    }
    lemma_values_for_none(pl, f);
    assert forall|k: int| 0 <= k < rw.len() implies !amll_key_fills(#[trigger] rw[k].key, f) by {
        assert(rw[k].key == or_empty(m.raw_properties)[k].0);
    }
    lemma_values_for_none(rw, f);
    assert(nonblank(Seq::<Seq<char>>::empty()) =~= Seq::<Seq<char>>::empty());
    let z = Seq::<Seq<char>>::empty();
    let v = nonblank(meta_list(m, f));
    match f {
        MetaList::Title => assert(z + v + z + z + z + z + z + z + z + z + z =~= v),
        MetaList::Artist => assert(z + z + v + z + z + z + z + z + z + z + z =~= v),
        MetaList::Album => assert(z + z + z + v + z + z + z + z + z + z + z =~= v),
        MetaList::Songwriters => assert(z + z + z + z + v + z + z + z + z + z + z =~= v),
        MetaList::Isrc => assert(z + z + z + z + z + v + z + z + z + z + z =~= v),
        MetaList::AuthorIds => assert(z + z + z + z + z + z + v + z + z + z + z =~= v),
        MetaList::AuthorNames => assert(z + z + z + z + z + z + z + v + z + z + z =~= v),
    }
}


/// Whether AMLL line `k` opens a line of its own: a main line, the first line, or a
/// background line after another background line.
pub open spec fn opens_line(ls: Seq<AmllLyricLineV>, k: int) -> bool {
    !ls[k].is_bg || k == 0 || ls[k - 1].is_bg
}

/// The number of lines that the AMLL lines before `k` open.
pub open spec fn lines_before(ls: Seq<AmllLyricLineV>, k: int) -> int
    decreases k,
{
    if k <= 0 {
        0
    } else {
        lines_before(ls, k - 1) + if opens_line(ls, k - 1) {
            1int
        } else {
            0int
        }
    }
}

/// The singer of a line on the given duet side.
pub open spec fn side_singer(duet: bool) -> Seq<char> {
    if duet {
        "v2"@
    } else {
        "v1"@
    }
}

/// Whether a line has a background vocal with the times of an AMLL line.
pub open spec fn has_bg_of(t: LyricLineV, a: AmllLyricLineV) -> bool {
    t.background_vocal matches Some(b) && b.start_time == a.start_time && b.end_time == a.end_time
}

/// Whether the lines of `st` are those that the AMLL lines `ls[..k]` give: each line that
/// opens one gives its times and id, a main line its side, a promoted background line the
/// side of the line before it; each other background line is the background vocal of the
/// line before it, with its times.
pub open spec fn ttml_lines_follow(ls: Seq<AmllLyricLineV>, k: int, lines: Seq<LyricLineV>) -> bool {
    &&& lines.len() == lines_before(ls, k)
    &&& forall|j: int|
        0 <= j < k && opens_line(ls, j) ==> {
            let t = #[trigger] lines[lines_before(ls, j)];
            &&& t.start_time == ls[j].start_time
            &&& t.end_time == ls[j].end_time
            &&& t.id == Some(line_key((lines_before(ls, j) + 1) as nat))
            &&& !ls[j].is_bg ==> t.agent_id == Some(side_singer(ls[j].is_duet))
            &&& ls[j].is_bg && j > 0 ==> t.agent_id == lines[lines_before(ls, j) - 1].agent_id
        }
    &&& forall|j: int|
        0 <= j < k && !opens_line(ls, j) ==> has_bg_of(#[trigger] lines[lines_before(ls, j) - 1], ls[j])
}

/// The state after the AMLL lines `ls[..k]` is in step with them.
pub open spec fn ttml_state_follows(ls: Seq<AmllLyricLineV>, k: int, st: ToTtmlState) -> bool {
    &&& ttml_lines_follow(ls, k, st.lines)
    &&& k > 0 ==> st.last_was_bg == ls[k - 1].is_bg
    &&& st.lines.len() > 0 ==> st.lines.last().agent_id == Some(side_singer(st.last_main_duet))
}

proof fn lemma_lines_before_grows(ls: Seq<AmllLyricLineV>, j: int, k: int)
    requires
        0 <= j <= k,
    ensures
        lines_before(ls, j) <= lines_before(ls, k),
        k >= 1 ==> lines_before(ls, k) >= 1,
    decreases k,
{
    if k > 0 {
        if j < k {
            lemma_lines_before_grows(ls, j, k - 1);
        }
        if k - 1 >= 1 {
            lemma_lines_before_grows(ls, 0, k - 1);
        }
    }
}

proof fn lemma_push_follows(
    ls: Seq<AmllLyricLineV>,
    k: int,
    st: ToTtmlState,
    line: LyricLineV,
    d: bool,
    has: bool,
)
    requires
        0 <= k < ls.len(),
        ttml_state_follows(ls, k, st),
        opens_line(ls, k),
        line.start_time == ls[k].start_time,
        line.end_time == ls[k].end_time,
        line.id == Some(line_key((st.lines.len() + 1) as nat)),
        line.agent_id == Some(side_singer(d)),
        !ls[k].is_bg ==> d == ls[k].is_duet,
        ls[k].is_bg && k > 0 ==> d == st.last_main_duet,
        k > 0 ==> st.lines.len() > 0,
    ensures
        ttml_state_follows(
            ls,
            k + 1,
            ToTtmlState { lines: st.lines.push(line), has_duet: has, last_was_bg: ls[k].is_bg, last_main_duet: d },
        ),
{
    let l2 = st.lines.push(line);
    assert(lines_before(ls, k + 1) == lines_before(ls, k) + 1);
    assert forall|j: int| 0 <= j < k + 1 && opens_line(ls, j) implies {
        let t = #[trigger] l2[lines_before(ls, j)];
        &&& t.start_time == ls[j].start_time
        &&& t.end_time == ls[j].end_time
        &&& t.id == Some(line_key((lines_before(ls, j) + 1) as nat))
        &&& !ls[j].is_bg ==> t.agent_id == Some(side_singer(ls[j].is_duet))
        &&& ls[j].is_bg && j > 0 ==> t.agent_id == l2[lines_before(ls, j) - 1].agent_id
    } by {
        if j < k {
            lemma_lines_before_grows(ls, j + 1, k);
            assert(lines_before(ls, j + 1) == lines_before(ls, j) + 1);
            lemma_lines_before_grows(ls, 0, j);
            assert(l2[lines_before(ls, j)] == st.lines[lines_before(ls, j)]);
            if j > 0 {
                lemma_lines_before_grows(ls, 1, j);
                assert(l2[lines_before(ls, j) - 1] == st.lines[lines_before(ls, j) - 1]);
            }
        } else {
            if k > 0 {
                lemma_lines_before_grows(ls, 1, k);
                assert(l2[lines_before(ls, k) - 1] == st.lines.last());
            }
        }
    }
    assert forall|j: int| 0 <= j < k + 1 && !opens_line(ls, j) implies has_bg_of(#[trigger] l2[lines_before(ls, j) - 1], ls[j]) by {
        lemma_lines_before_grows(ls, j, k);
        assert(j >= 1);
        lemma_lines_before_grows(ls, 1, j);
        assert(l2[lines_before(ls, j) - 1] == st.lines[lines_before(ls, j) - 1]);
    }
    reveal_strlit("v1");
    reveal_strlit("v2");
    assert("v1"@[1] != "v2"@[1]);
}

proof fn lemma_bg_follows(ls: Seq<AmllLyricLineV>, k: int, st: ToTtmlState, bg: BackgroundVocalV)
    requires
        0 <= k < ls.len(),
        ttml_state_follows(ls, k, st),
        !opens_line(ls, k),
        bg.start_time == ls[k].start_time,
        bg.end_time == ls[k].end_time,
    ensures
        ttml_state_follows(
            ls,
            k + 1,
            ToTtmlState {
                lines: st.lines.update(st.lines.len() - 1, LyricLineV { background_vocal: Some(bg), ..st.lines.last() }),
                last_was_bg: ls[k].is_bg,
                ..st
            },
        ),
{
    lemma_lines_before_grows(ls, 1, k);
    let n = st.lines.len();
    let l2 = st.lines.update(n - 1, LyricLineV { background_vocal: Some(bg), ..st.lines.last() });
    assert(lines_before(ls, k + 1) == lines_before(ls, k));
    assert forall|j: int| 0 <= j < k + 1 && opens_line(ls, j) implies {
        let t = #[trigger] l2[lines_before(ls, j)];
        &&& t.start_time == ls[j].start_time
        &&& t.end_time == ls[j].end_time
        &&& t.id == Some(line_key((lines_before(ls, j) + 1) as nat))
        &&& !ls[j].is_bg ==> t.agent_id == Some(side_singer(ls[j].is_duet))
        &&& ls[j].is_bg && j > 0 ==> t.agent_id == l2[lines_before(ls, j) - 1].agent_id
    } by {
        lemma_lines_before_grows(ls, j + 1, k);
        if j > 0 {
            lemma_lines_before_grows(ls, 1, j);
        }
    }
    assert forall|j: int| 0 <= j < k + 1 && !opens_line(ls, j) implies has_bg_of(#[trigger] l2[lines_before(ls, j) - 1], ls[j]) by {
        if j < k {
            // the AMLL line after `j` opened a line, so `j`'s line is not the last one
            assert(opens_line(ls, j + 1));
            assert(j + 1 < k);
            lemma_lines_before_grows(ls, j + 2, k);
            lemma_lines_before_grows(ls, 1, j);
            assert(lines_before(ls, j + 1) == lines_before(ls, j));
            assert(lines_before(ls, j + 2) == lines_before(ls, j + 1) + 1);
        }
    }
}

proof fn lemma_to_ttml_acc_follows(ls: Seq<AmllLyricLineV>, k: int, tl: Seq<char>, rl: Option<Seq<char>>, st: ToTtmlState)
    requires
        0 <= k <= ls.len(),
        ttml_state_follows(ls, k, st),
    ensures
        ttml_state_follows(ls, ls.len() as int, to_ttml_acc(ls, k, tl, rl, st)),
    decreases ls.len() - k,
{
    if k < ls.len() {
        let l = ls[k];
        let (syls, trans, roms) = spec_single_line(l, tl, rl);
        if k >= 1 {
            lemma_lines_before_grows(ls, 1, k);
        }
        let is_main = !l.is_bg || st.lines.len() == 0 || st.last_was_bg;
        assert(is_main == opens_line(ls, k));
        let st2 = if is_main {
            let words = if l.is_bg && syls.len() > 0 {
                Some(spec_strip_parens_words(syls))
            } else {
                non_empty(syls)
            };
            let duet = if l.is_bg && st.lines.len() > 0 {
                st.last_main_duet
            } else {
                l.is_duet
            };
            let line = rebuilt(
                LyricLineV {
                    text: Seq::empty(),
                    start_time: l.start_time,
                    end_time: l.end_time,
                    words,
                    translations: non_empty(trans),
                    romanizations: non_empty(roms),
                    background_vocal: None,
                    id: Some(line_key(st.lines.len() + 1)),
                    agent_id: Some(
                        if duet {
                            "v2"@
                        } else {
                            "v1"@
                        },
                    ),
                    song_part: None,
                    block_index: None,
                },
            );
            lemma_push_follows(ls, k, st, line, duet, st.has_duet || duet);
            ToTtmlState {
                lines: st.lines.push(line),
                has_duet: st.has_duet || duet,
                last_was_bg: l.is_bg,
                last_main_duet: duet,
            }
        } else {
            let bg = spec_normalized_bg(
                BackgroundVocalV {
                    text: Seq::empty(),
                    start_time: l.start_time,
                    end_time: l.end_time,
                    words: non_empty(syls),
                    translations: non_empty(trans),
                    romanizations: non_empty(roms),
                },
            );
            lemma_bg_follows(ls, k, st, bg);
            ToTtmlState {
                lines: st.lines.update(
                    st.lines.len() - 1,
                    LyricLineV { background_vocal: Some(bg), ..st.lines.last() },
                ),
                last_was_bg: l.is_bg,
                ..st
            }
        };
        lemma_to_ttml_acc_follows(ls, k + 1, tl, rl, st2);
    }
}

/// Converting AMLL lines: every main line, the first line, and every background line that
/// follows another background line opens a line `L<n>` (numbered in order) with its times;
/// a main line is sung by `v2` on the duet side and by `v1` otherwise, and such a background
/// line keeps the singer of the line before it. Every other background line becomes the
/// background vocal, with its times, of the line that the AMLL line before it opened.
pub proof fn lemma_to_ttml_lines(r: AmllLyricResultV, tl: Seq<char>, rl: Option<Seq<char>>)
    ensures
        ttml_lines_follow(r.lines, r.lines.len() as int, spec_to_ttml(r, tl, rl).lines),
{
    lemma_to_ttml_acc_follows(
        r.lines,
        0,
        tl,
        rl,
        ToTtmlState { lines: Seq::empty(), has_duet: false, last_was_bg: false, last_main_duet: false },
    );
}

} // verus!
