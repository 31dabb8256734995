//! From the parsed TTML structures down to the simpler AMLL structures.

use vstd::prelude::*;
use crate::amll::model::{
    AmllLyricLine, AmllLyricLineV, AmllLyricResult, AmllLyricResultV, AmllLyricWord, AmllLyricWordV,
    AmllMetadata, AmllMetadataV, LyricWordBase, LyricWordBaseV, TtmlToAmllOptions,
};
use crate::maps::{agents_get, entries_get, platform_entries, platforms_iter, properties_iter, property_entries, str_views};
use crate::model::{
    opt_v, opt_views, views, AgentV, LyricLineV, PlatformId, RubyTag, RubyTagV,
    SubLyricContent, SubLyricContentV, Syllable, SyllableV, TTMLMetadata, TTMLMetadataV, TTMLResult,
    TTMLResultV,
};
use crate::parser::head::or_empty;
use crate::parser::state::copy_strings;
use crate::text::{copy_str, str_chars, str_eq, trim_s, trim_string};

verus! {

/// Whether two characters are equal once ASCII letters are lowercased.
pub open spec fn ascii_char_eq_ic(x: char, y: char) -> bool {
    ||| x == y
    ||| ('A' <= x <= 'Z' && x as u32 + 32 == y as u32)
    ||| ('A' <= y <= 'Z' && y as u32 + 32 == x as u32)
}

/// `str::eq_ignore_ascii_case`: the texts are equal once ASCII letters are lowercased.
pub open spec fn spec_eq_ignore_ascii_case(a: Seq<char>, b: Seq<char>) -> bool {
    a.len() == b.len() && forall|i: int| 0 <= i < a.len() ==> ascii_char_eq_ic(#[trigger] a[i], b[i])
}

/// Whether two texts are equal once ASCII letters are lowercased.
pub fn eq_ignore_ascii_case(a: &str, b: &str) -> (r: bool)
    ensures
        r == spec_eq_ignore_ascii_case(a@, b@),
{
    let ca = str_chars(a);
    let cb = str_chars(b);
    if ca.len() != cb.len() {
        return false;
    }
    let mut i: usize = 0;
    while i < ca.len()
        invariant
            i <= ca.len() == cb.len(),
            ca@ == a@,
            cb@ == b@,
            forall|j: int| 0 <= j < i ==> ascii_char_eq_ic(#[trigger] a@[j], b@[j]),
        decreases ca.len() - i,
    {
        let x = ca[i];
        let y = cb[i];
        let eq = x == y || ('A' <= x && x <= 'Z' && (x as u32) + 32 == (y as u32)) || ('A' <= y && y
            <= 'Z' && (y as u32) + 32 == (x as u32));
        if !eq {
            assert(!ascii_char_eq_ic(a@[i as int], b@[i as int]));
            return false;
        }
        i = i + 1;
    }
    true
}

/// The type of an agent, `person` when the agent or its type is unknown.
pub open spec fn agent_type_of(agents: Option<Seq<(Seq<char>, AgentV)>>, id: Seq<char>) -> Seq<char> {
    match entries_get(or_empty(agents), id) {
        Some(a) => match a.type_ {
            Some(t) => t,
            None => "person"@,
        },
        None => "person"@,
    }
}

/// The duet state machine: from the singer of a line (`v1` when absent), the agents, and the
/// last non-group singer with its duet flag, whether the line is a duet line and the new
/// state. A group never sings a duet and leaves the state alone; the first singer is on the
/// duet side only when of type `other`; the same singer keeps the side, another singer flips it.
pub open spec fn duet_step(
    agent_id: Option<Seq<char>>,
    agents: Option<Seq<(Seq<char>, AgentV)>>,
    last: Option<Seq<char>>,
    last_was_duet: bool,
) -> (bool, Option<Seq<char>>, bool) {
    let id = match agent_id {
        Some(a) => a,
        None => "v1"@,
    };
    let ty = agent_type_of(agents, id);
    if spec_eq_ignore_ascii_case(ty, "group"@) {
        (false, last, last_was_duet)
    } else {
        let cur = match last {
            None => spec_eq_ignore_ascii_case(ty, "other"@),
            Some(l) => if l == id {
                last_was_duet
            } else {
                !last_was_duet
            },
        };
        (cur, Some(id), cur)
    }
}

/// Whether the line of singer `agent_id` is a duet line, updating the last singer and its
/// duet flag.
pub fn get_line_duet_status(
    agent_id: &Option<String>,
    metadata: &TTMLMetadata,
    last_singer_id: &mut Option<String>,
    last_was_duet: &mut bool,
) -> (r: bool)
    ensures
        (r, opt_v(*final(last_singer_id)), *final(last_was_duet)) == duet_step(
            opt_v(*agent_id),
            metadata@.agents,
            opt_v(*old(last_singer_id)),
            *old(last_was_duet),
        ),
{
    let id: String = match agent_id {
        Some(a) => copy_str(a.as_str()),
        None => copy_str("v1"),
    };
    let ty: String = match &metadata.agents {
        Some(m) => match agents_get(m, id.as_str()) {
            Some(a) => match &a.type_ {
                Some(t) => copy_str(t.as_str()),
                None => copy_str("person"),
            },
            None => copy_str("person"),
        },
        None => copy_str("person"),
    };
    assert(ty@ == agent_type_of(metadata@.agents, id@));
    if eq_ignore_ascii_case(ty.as_str(), "group") {
        return false;
    }
    let cur = match last_singer_id {
        None => eq_ignore_ascii_case(ty.as_str(), "other"),
        Some(l) => if str_eq(l.as_str(), id.as_str()) {
            *last_was_duet
        } else {
            !*last_was_duet
        },
    };
    *last_singer_id = Some(id);
    *last_was_duet = cur;
    cur
}

/// The position of the first content in language `t`, or -1.
pub open spec fn lang_pos(s: Seq<SubLyricContentV>, t: Seq<char>) -> int
    decreases s.len(),
{
    if s.len() == 0 {
        -1
    } else {
        let p = lang_pos(s.drop_last(), t);
        if p >= 0 {
            p
        } else if s.last().language == Some(t) {
            s.len() - 1
        } else {
            -1
        }
    }
}

/// The content taken for a line: the first in the target language when there is one, else
/// the first of all.
pub open spec fn spec_take_sub(subs: Option<Seq<SubLyricContentV>>, target: Option<Seq<char>>) -> Option<
    SubLyricContentV,
> {
    match subs {
        None => None,
        Some(s) => match target {
            Some(t) if lang_pos(s, t) >= 0 => Some(s[lang_pos(s, t)]),
            _ => if s.len() == 0 {
                None
            } else {
                Some(s[0])
            },
        },
    }
}

/// `lang_pos` is the first position holding the language.
proof fn lemma_lang_pos(s: Seq<SubLyricContentV>, t: Seq<char>, i: int)
    requires
        0 <= i <= s.len(),
        forall|j: int| 0 <= j < i ==> (#[trigger] s[j]).language != Some(t),
        i < s.len() ==> s[i].language == Some(t),
    ensures
        lang_pos(s, t) == if i < s.len() {
            i
        } else {
            -1
        },
    decreases s.len(),
{
    if s.len() > 0 {
        if i < s.len() {
            lemma_lang_pos(s.drop_last(), t, i);
        } else {
            lemma_lang_pos(s.drop_last(), t, i - 1);
        }
    }
}

/// The translation or transliteration taken for a line, in the target language when there is
/// one.
pub fn take_sub_lyric<'a>(subs: &'a Option<Vec<SubLyricContent>>, target: &Option<String>) -> (r: Option<
    &'a SubLyricContent,
>)
    ensures
        opt_v(r) == spec_take_sub(opt_views(*subs), opt_v(*target)),
{
    let s = match subs {
        Some(s) => s,
        None => return None,
    };
    let ghost sv = views(s@);
    if let Some(t) = target {
        let mut i: usize = 0;
        while i < s.len()
            invariant
                i <= s.len(),
                sv == views(s@),
                opt_v(*target) == Some(t@),
                opt_views(*subs) == Some(sv),
                forall|j: int| 0 <= j < i ==> (#[trigger] sv[j]).language != Some(t@),
            decreases s.len() - i,
        {
            let hit = match &s[i].language {
                Some(l) => str_eq(l.as_str(), t.as_str()),
                None => false,
            };
            if hit {
                proof {
                    lemma_lang_pos(sv, t@, i as int);
                }
                assert(sv[i as int] == s@[i as int]@);
                return Some(&s[i]);
            }
            i = i + 1;
        }
        proof {
            lemma_lang_pos(sv, t@, i as int);
        }
    }
    if s.len() == 0 {
        None
    } else {
        Some(&s[0])
    }
}

/// The transliteration of a word from the transliteration syllables `rws[p..]`, with the
/// syllables passed over: the first one that starts within 30 ms of `start` is taken
/// (trimmed), one that starts later than that ends the search, an earlier one is skipped.
pub open spec fn match_roman(start: u32, rws: Seq<SyllableV>, p: int) -> (Option<Seq<char>>, int)
    decreases rws.len() - p,
{
    if p < 0 || p >= rws.len() {
        (None, p)
    } else {
        let r = rws[p];
        let diff = if start >= r.start_time {
            start - r.start_time
        } else {
            r.start_time - start
        };
        if diff <= 30 {
            (Some(trim_s(r.text)), p + 1)
        } else if r.start_time > start + 30 {
            (None, p)
        } else {
            match_roman(start, rws, p + 1)
        }
    }
}

/// A ruby annotation as an AMLL base word.
pub open spec fn ruby_base(r: RubyTagV) -> LyricWordBaseV {
    LyricWordBaseV { start_time: r.start_time, end_time: r.end_time, word: r.text }
}

/// A syllable as an AMLL word: its trailing space put back into the text.
pub open spec fn amll_word(w: SyllableV, roman: Option<Seq<char>>) -> AmllLyricWordV {
    AmllLyricWordV {
        start_time: w.start_time,
        end_time: w.end_time,
        word: if w.ends_with_space == Some(true) {
            w.text.push(' ')
        } else {
            w.text
        },
        roman_word: roman,
        obscene: w.obscene,
        empty_beat: w.empty_beat,
        ruby: match w.ruby {
            Some(rs) => Some(rs.map_values(|r: RubyTagV| ruby_base(r))),
            None => None,
        },
    }
}

/// The AMLL words of syllables `ws[k..]`, appended to `acc`, each matched with a
/// transliteration syllable from `rws[p..]` on.
pub open spec fn amll_words_acc(
    ws: Seq<SyllableV>,
    rws: Seq<SyllableV>,
    k: int,
    p: int,
    acc: Seq<AmllLyricWordV>,
) -> Seq<AmllLyricWordV>
    decreases ws.len() - k,
{
    if k < 0 || k >= ws.len() {
        acc
    } else {
        let (roman, p2) = match_roman(ws[k].start_time, rws, p);
        amll_words_acc(ws, rws, k + 1, p2, acc.push(amll_word(ws[k], roman)))
    }
}

/// The transliteration syllables of a content, none when it is absent or line-timed.
pub open spec fn rom_words(r: Option<SubLyricContentV>) -> Seq<SyllableV> {
    match r {
        Some(c) => match c.words {
            Some(ws) => ws,
            None => Seq::empty(),
        },
        None => Seq::empty(),
    }
}

/// Ruby annotations as AMLL base words.
fn ruby_bases(rs: &Vec<RubyTag>) -> (r: Vec<LyricWordBase>)
    ensures
        views(r@) == views(rs@).map_values(|x: RubyTagV| ruby_base(x)),
{
    let mut out: Vec<LyricWordBase> = Vec::new();
    let mut i: usize = 0;
    while i < rs.len()
        invariant
            i <= rs.len(),
            views(out@) == views(rs@.take(i as int)).map_values(|x: RubyTagV| ruby_base(x)),
        decreases rs.len() - i,
    {
        let ghost prev = views(out@);
        out.push(LyricWordBase { start_time: rs[i].start_time, end_time: rs[i].end_time, word: copy_str(rs[i].text.as_str()) });
        assert(views(out@) =~= prev.push(ruby_base(rs@[i as int]@)));
        assert(views(rs@.take(i + 1)).map_values(|x: RubyTagV| ruby_base(x)) =~= views(rs@.take(i as int)).map_values(
            |x: RubyTagV| ruby_base(x),
        ).push(ruby_base(rs@[i as int]@)));
        i = i + 1;
    }
    assert(rs@.take(i as int) =~= rs@);
    out
}

/// The AMLL words of a line's syllables, each with its transliteration from the syllables of
/// `rom` (matched by start time, within 30 ms).
pub fn build_amll_words(words: &Vec<Syllable>, rom: Option<&SubLyricContent>) -> (r: Vec<AmllLyricWord>)
    ensures
        views(r@) == amll_words_acc(views(words@), rom_words(opt_v(rom)), 0, 0, Seq::empty()),
{
    let empty: Vec<Syllable> = Vec::new();
    let rws: &Vec<Syllable> = match rom {
        Some(c) => match &c.words {
            Some(ws) => ws,
            None => &empty,
        },
        None => &empty,
    };
    let ghost wv = views(words@);
    let ghost rv = views(rws@);
    assert(rv =~= rom_words(opt_v(rom)));
    let mut out: Vec<AmllLyricWord> = Vec::new();
    let mut p: usize = 0;
    let mut k: usize = 0;
    assert(views(out@) =~= Seq::<AmllLyricWordV>::empty());
    while k < words.len()
        invariant
            k <= words.len(),
            p <= rws.len(),
            wv == views(words@),
            rv == views(rws@),
            amll_words_acc(wv, rv, k as int, p as int, views(out@)) == amll_words_acc(
                wv,
                rv,
                0,
                0,
                Seq::empty(),
            ),
        decreases words.len() - k,
    {
        let w = &words[k];
        let start = w.start_time;
        let mut roman: Option<String> = None;
        let ghost p0 = p as int;
        loop
            invariant_except_break
                roman is None,
                match_roman(start, rv, p as int) == match_roman(start, rv, p0),
            invariant
                p0 <= p <= rws.len(),
                rv == views(rws@),
            ensures
                p <= rws.len(),
                (opt_v(roman), p as int) == match_roman(start, rv, p0),
            decreases rws.len() - p,
        {
            if p >= rws.len() {
                break;
            }
            assert(rws@[p as int]@ == rv[p as int]);
            let rs = rws[p].start_time;
            let diff = if start >= rs {
                start - rs
            } else {
                rs - start
            };
            if diff <= 30 {
                roman = Some(trim_string(rws[p].text.as_str()));
                p = p + 1;
                break;
            } else if rs as u64 > start as u64 + 30 {
                break;
            }
            p = p + 1;
        }
        assert((opt_v(roman), p as int) == match_roman(start, rv, p0));
        let ruby = match &w.ruby {
            Some(rs) => Some(ruby_bases(rs)),
            None => None,
        };
        let mut text = copy_str(w.text.as_str());
        if w.ends_with_space == Some(true) {
            text.push(' ');
        }
        let aw = AmllLyricWord {
            start_time: w.start_time,
            end_time: w.end_time,
            word: text,
            roman_word: roman,
            obscene: w.obscene,
            empty_beat: w.empty_beat,
            ruby,
        };
        assert(aw@ == amll_word(wv[k as int], opt_v(roman)));
        let ghost prev = views(out@);
        out.push(aw);
        assert(views(out@) =~= prev.push(aw@));
        k = k + 1;
    }
    out
}

/// An AMLL line from the words, contents, text and timing of a main line or background
/// vocal: the translation and transliteration taken by language; the words from the
/// syllables, or one word of the whole text.
pub open spec fn spec_amll_line(
    words: Option<Seq<SyllableV>>,
    translations: Option<Seq<SubLyricContentV>>,
    romanizations: Option<Seq<SubLyricContentV>>,
    text: Seq<char>,
    start: u32,
    end: u32,
    is_bg: bool,
    is_duet: bool,
    tl: Option<Seq<char>>,
    rl: Option<Seq<char>>,
) -> AmllLyricLineV {
    let trans = spec_take_sub(translations, tl);
    let rom = spec_take_sub(romanizations, rl);
    AmllLyricLineV {
        words: match words {
            Some(ws) if ws.len() > 0 => amll_words_acc(ws, rom_words(rom), 0, 0, Seq::empty()),
            _ => seq![
                AmllLyricWordV {
                    start_time: start,
                    end_time: end,
                    word: text,
                    roman_word: match rom {
                        Some(r) => if trim_s(r.text).len() > 0 {
                            Some(trim_s(r.text))
                        } else {
                            None
                        },
                        None => None,
                    },
                    obscene: None,
                    empty_beat: None,
                    ruby: None,
                },
            ],
        },
        translated_lyric: match trans {
            Some(t) => t.text,
            None => Seq::empty(),
        },
        roman_lyric: match rom {
            Some(r) => if r.words is None || r.words->0.len() == 0 {
                r.text
            } else {
                Seq::empty()
            },
            None => Seq::empty(),
        },
        is_bg,
        is_duet,
        start_time: start,
        end_time: end,
    }
}

/// Converts a main line or a background vocal into an AMLL line.
fn convert_to_amll_line(
    words: &Option<Vec<Syllable>>,
    translations: &Option<Vec<SubLyricContent>>,
    romanizations: &Option<Vec<SubLyricContent>>,
    text: &String,
    start: u32,
    end: u32,
    is_bg: bool,
    is_duet: bool,
    tl: &Option<String>,
    rl: &Option<String>,
) -> (r: AmllLyricLine)
    ensures
        r@ == spec_amll_line(
            opt_views(*words),
            opt_views(*translations),
            opt_views(*romanizations),
            text@,
            start,
            end,
            is_bg,
            is_duet,
            opt_v(*tl),
            opt_v(*rl),
        ),
{
    let trans = take_sub_lyric(translations, tl);
    let rom = take_sub_lyric(romanizations, rl);
    let translated_lyric = match trans {
        Some(t) => copy_str(t.text.as_str()),
        None => String::new(),
    };
    let roman_lyric = match rom {
        Some(r) => {
            let line_timed = match &r.words {
                None => true,
                Some(ws) => ws.len() == 0,
            };
            if line_timed {
                copy_str(r.text.as_str())
            } else {
                String::new()
            }
        },
        None => String::new(),
    };
    let has_words = match words {
        Some(ws) => ws.len() > 0,
        None => false,
    };
    let amll_words = if has_words {
        match words {
            Some(ws) => build_amll_words(ws, rom),
            None => Vec::new(),
        }
    } else {
        let roman_word = match rom {
            Some(r) => {
                let t = trim_string(r.text.as_str());
                if t.as_str().is_empty() {
                    None
                } else {
                    Some(t)
                }
            },
            None => None,
        };
        let mut v = Vec::new();
        v.push(
            AmllLyricWord {
                start_time: start,
                end_time: end,
                word: copy_str(text.as_str()),
                roman_word,
                obscene: None,
                empty_beat: None,
                ruby: None,
            },
        );
        v
    };
    let r = AmllLyricLine {
        words: amll_words,
        translated_lyric,
        roman_lyric,
        is_bg,
        is_duet,
        start_time: start,
        end_time: end,
    };
    proof {
        if !has_words {
            assert(views(r.words@) =~= spec_amll_line(
                opt_views(*words),
                opt_views(*translations),
                opt_views(*romanizations),
                text@,
                start,
                end,
                is_bg,
                is_duet,
                opt_v(*tl),
                opt_v(*rl),
            ).words);
        }
    }
    r
}

/// The AMLL lines of lines `ls[k..]`, appended to `acc`: each line gives its main line and,
/// when it has one, its background line, both on the side that the duet state machine gives.
pub open spec fn amll_lines_acc(
    ls: Seq<LyricLineV>,
    k: int,
    agents: Option<Seq<(Seq<char>, AgentV)>>,
    last: Option<Seq<char>>,
    last_was_duet: bool,
    tl: Option<Seq<char>>,
    rl: Option<Seq<char>>,
    acc: Seq<AmllLyricLineV>,
) -> Seq<AmllLyricLineV>
    decreases ls.len() - k,
{
    if k < 0 || k >= ls.len() {
        acc
    } else {
        let l = ls[k];
        let (duet, last2, was2) = duet_step(l.agent_id, agents, last, last_was_duet);
        let main = spec_amll_line(l.words, l.translations, l.romanizations, l.text, l.start_time, l.end_time, false, duet, tl, rl);
        let acc2 = match l.background_vocal {
            Some(b) => acc.push(main).push(
                spec_amll_line(b.words, b.translations, b.romanizations, b.text, b.start_time, b.end_time, true, duet, tl, rl),
            ),
            None => acc.push(main),
        };
        amll_lines_acc(ls, k + 1, agents, last2, was2, tl, rl, acc2)
    }
}

/// The values that are not blank, in order.
pub open spec fn nonblank(v: Seq<Seq<char>>) -> Seq<Seq<char>>
    decreases v.len(),
{
    if v.len() == 0 {
        Seq::empty()
    } else if trim_s(v.last()).len() > 0 {
        nonblank(v.drop_last()).push(v.last())
    } else {
        nonblank(v.drop_last())
    }
}

/// The metadata entry of `key` with the values that are not blank, none when none is left.
pub open spec fn meta_entry(key: Seq<char>, vals: Option<Seq<Seq<char>>>) -> Seq<AmllMetadataV> {
    match vals {
        Some(v) => if nonblank(v).len() > 0 {
            seq![AmllMetadataV { key, value: nonblank(v) }]
        } else {
            Seq::empty()
        },
        None => Seq::empty(),
    }
}

/// The AMLL metadata key of a platform.
pub open spec fn platform_key(p: PlatformId) -> Seq<char> {
    match p {
        PlatformId::NcmMusicId => "ncmMusicId"@,
        PlatformId::QqMusicId => "qqMusicId"@,
        PlatformId::SpotifyId => "spotifyId"@,
        PlatformId::AppleMusicId => "appleMusicId"@,
    }
}

/// An optional value as a list of at most one value.
pub open spec fn opt_list(o: Option<Seq<char>>) -> Option<Seq<Seq<char>>> {
    match o {
        Some(x) => Some(seq![x]),
        None => None,
    }
}

/// The AMLL metadata entries of the metadata: title, artists, album, songwriters, ISRC, author
/// ids and names, language and timing mode (blank values dropped, empty lists omitted), then
/// the platform ids and the raw properties as they are.
pub open spec fn spec_amll_metadata(m: TTMLMetadataV) -> Seq<AmllMetadataV> {
    meta_entry("title"@, m.title) + meta_entry("artists"@, m.artist) + meta_entry("album"@, m.album)
        + meta_entry("songwriters"@, m.songwriters) + meta_entry("isrc"@, m.isrc) + meta_entry(
        "ttmlAuthorGithub"@,
        m.author_ids,
    ) + meta_entry("ttmlAuthorGithubLogin"@, m.author_names) + meta_entry("language"@, opt_list(m.language))
        + meta_entry("timingMode"@, opt_list(m.timing_mode)) + or_empty(m.platform_ids).map_values(
        |e: (PlatformId, Seq<Seq<char>>)| AmllMetadataV { key: platform_key(e.0), value: e.1 },
    ) + or_empty(m.raw_properties).map_values(
        |e: (Seq<char>, Seq<Seq<char>>)| AmllMetadataV { key: e.0, value: e.1 },
    )
}

/// The AMLL lyric of a parsed TTML lyric, with translations and transliterations taken in
/// the languages of the options.
pub open spec fn spec_to_amll(r: TTMLResultV, tl: Option<Seq<char>>, rl: Option<Seq<char>>) -> AmllLyricResultV {
    AmllLyricResultV {
        lines: amll_lines_acc(r.lines, 0, r.metadata.agents, None, false, tl, rl, Seq::empty()),
        metadata: spec_amll_metadata(r.metadata),
    }
}

/// The values that are not blank.
fn nonblank_values(v: &Vec<String>) -> (r: Vec<String>)
    ensures
        views(r@) == nonblank(views(v@)),
{
    let mut out: Vec<String> = Vec::new();
    let mut i: usize = 0;
    assert(views(out@) =~= nonblank(views(v@).take(0)));
    while i < v.len()
        invariant
            i <= v.len(),
            views(out@) == nonblank(views(v@).take(i as int)),
        decreases v.len() - i,
    {
        assert(views(v@).take(i + 1).drop_last() =~= views(v@).take(i as int));
        let t = trim_string(v[i].as_str());
        if !t.as_str().is_empty() {
            let ghost prev = views(out@);
            out.push(copy_str(v[i].as_str()));
            assert(views(out@) =~= prev.push(v@[i as int]@));
        }
        i = i + 1;
    }
    assert(views(v@).take(i as int) =~= views(v@));
    out
}

/// Appends the entry of `key` with the values that are not blank, unless none is left.
fn push_meta(out: &mut Vec<AmllMetadata>, key: &str, vals: &Option<Vec<String>>)
    ensures
        views(final(out)@) == views(old(out)@) + meta_entry(key@, opt_views(*vals)),
{
    match vals {
        Some(v) => {
            let kept = nonblank_values(v);
            if kept.len() > 0 {
                let ghost prev = views(out@);
                out.push(AmllMetadata { key: copy_str(key), value: kept });
                assert(views(out@) =~= prev + meta_entry(key@, opt_views(*vals)));
            } else {
                assert(views(out@) =~= views(old(out)@) + meta_entry(key@, opt_views(*vals)));
            }
        },
        None => {
            assert(views(out@) =~= views(old(out)@) + meta_entry(key@, opt_views(*vals)));
        },
    }
}

/// An optional value as a list of at most one value.
fn opt_to_list(o: &Option<String>) -> (r: Option<Vec<String>>)
    ensures
        opt_views(r) == opt_list(opt_v(*o)),
{
    match o {
        Some(x) => {
            let mut v = Vec::new();
            v.push(copy_str(x.as_str()));
            assert(views(v@) =~= seq![x@]);
            Some(v)
        },
        None => None,
    }
}

/// The AMLL metadata key of a platform.
fn platform_key_str(p: PlatformId) -> (r: String)
    ensures
        r@ == platform_key(p),
{
    match p {
        PlatformId::NcmMusicId => copy_str("ncmMusicId"),
        PlatformId::QqMusicId => copy_str("qqMusicId"),
        PlatformId::SpotifyId => copy_str("spotifyId"),
        PlatformId::AppleMusicId => copy_str("appleMusicId"),
    }
}

/// The AMLL metadata entries of the metadata.
fn convert_amll_metadata(m: &TTMLMetadata) -> (r: Vec<AmllMetadata>)
    ensures
        views(r@) == spec_amll_metadata(m@),
{
    let mut out: Vec<AmllMetadata> = Vec::new();
    assert(views(out@) =~= Seq::<AmllMetadataV>::empty());
    push_meta(&mut out, "title", &m.title);
    push_meta(&mut out, "artists", &m.artist);
    push_meta(&mut out, "album", &m.album);
    push_meta(&mut out, "songwriters", &m.songwriters);
    push_meta(&mut out, "isrc", &m.isrc);
    push_meta(&mut out, "ttmlAuthorGithub", &m.author_ids);
    push_meta(&mut out, "ttmlAuthorGithubLogin", &m.author_names);
    let lang = opt_to_list(&m.language);
    push_meta(&mut out, "language", &lang);
    let timing = opt_to_list(&m.timing_mode);
    push_meta(&mut out, "timingMode", &timing);
    let ghost before = views(out@);
    let ghost pe = or_empty(m@.platform_ids);
    let ghost pm = pe.map_values(
        |e: (PlatformId, Seq<Seq<char>>)| AmllMetadataV { key: platform_key(e.0), value: e.1 },
    );
    if let Some(pids) = &m.platform_ids {
        let items = platforms_iter(pids);
        let mut i: usize = 0;
        while i < items.len()
            invariant
                i <= items.len() == pe.len(),
                pe == platform_entries(*pids),
                pm == pe.map_values(
                    |e: (PlatformId, Seq<Seq<char>>)| AmllMetadataV { key: platform_key(e.0), value: e.1 },
                ),
                forall|j: int|
                    0 <= j < items@.len() ==> *(#[trigger] items@[j]).0 == pe[j].0 && str_views(
                        items@[j].1@,
                    ) == pe[j].1,
                views(out@) == before + pm.take(i as int),
            decreases items.len() - i,
        {
            let (p, ids) = items[i];
            let ghost prev = views(out@);
            let entry = AmllMetadata { key: platform_key_str(*p), value: copy_strings(ids) };
            assert(views(entry.value@) =~= str_views(ids@));
            out.push(entry);
            assert(pm.take(i + 1) =~= pm.take(i as int).push(pm[i as int]));
            assert(views(out@) =~= prev.push(entry@));
            i = i + 1;
        }
        assert(pm.take(i as int) =~= pm);
    } else {
        assert(pm =~= Seq::<AmllMetadataV>::empty());
        assert(views(out@) =~= before + pm);
    }
    let ghost before2 = views(out@);
    let ghost re = or_empty(m@.raw_properties);
    let ghost rm = re.map_values(|e: (Seq<char>, Seq<Seq<char>>)| AmllMetadataV { key: e.0, value: e.1 });
    if let Some(props) = &m.raw_properties {
        let items = properties_iter(props);
        let mut i: usize = 0;
        while i < items.len()
            invariant
                i <= items.len() == re.len(),
                re == property_entries(*props),
                rm == re.map_values(|e: (Seq<char>, Seq<Seq<char>>)| AmllMetadataV { key: e.0, value: e.1 }),
                forall|j: int|
                    0 <= j < items@.len() ==> (#[trigger] items@[j]).0@ == re[j].0 && str_views(
                        items@[j].1@,
                    ) == re[j].1,
                views(out@) == before2 + rm.take(i as int),
            decreases items.len() - i,
        {
            let (k, vals) = items[i];
            let ghost prev = views(out@);
            let entry = AmllMetadata { key: copy_str(k.as_str()), value: copy_strings(vals) };
            assert(views(entry.value@) =~= str_views(vals@));
            out.push(entry);
            assert(rm.take(i + 1) =~= rm.take(i as int).push(rm[i as int]));
            assert(views(out@) =~= prev.push(entry@));
            i = i + 1;
        }
        assert(rm.take(i as int) =~= rm);
    } else {
        assert(rm =~= Seq::<AmllMetadataV>::empty());
        assert(views(out@) =~= before2 + rm);
    }
    assert(views(out@) =~= spec_amll_metadata(m@));
    out
}

/// Brings the parsed TTML lyric down to the simpler AMLL structures: each line gives a main
/// line and, with a background vocal, a background line; translations and transliterations
/// are taken in the languages of the options (else the first); duet sides follow the
/// singers; the metadata becomes key and values entries.
pub fn to_amll_lyrics(result: TTMLResult, options: Option<&TtmlToAmllOptions>) -> (r: AmllLyricResult)
    ensures
        r@ == spec_to_amll(
            result@,
            match options {
                Some(o) => opt_v(o.translation_language),
                None => None,
            },
            match options {
                Some(o) => opt_v(o.romanization_language),
                None => None,
            },
        ),
{
    let tl: Option<String> = match options {
        Some(o) => crate::parser::state::copy_opt_str(&o.translation_language),
        None => None,
    };
    let rl: Option<String> = match options {
        Some(o) => crate::parser::state::copy_opt_str(&o.romanization_language),
        None => None,
    };
    let ghost lv = views(result.lines@);
    let ghost agents = result.metadata@.agents;
    let mut out: Vec<AmllLyricLine> = Vec::new();
    let mut last: Option<String> = None;
    let mut was = false;
    let mut k: usize = 0;
    assert(views(out@) =~= Seq::<AmllLyricLineV>::empty());
    while k < result.lines.len()
        invariant
            k <= result.lines.len(),
            lv == views(result.lines@),
            agents == result.metadata@.agents,
            amll_lines_acc(lv, k as int, agents, opt_v(last), was, opt_v(tl), opt_v(rl), views(out@))
                == amll_lines_acc(lv, 0, agents, None, false, opt_v(tl), opt_v(rl), Seq::empty()),
        decreases result.lines.len() - k,
    {
        let line = &result.lines[k];
        assert(line@ == lv[k as int]);
        let duet = get_line_duet_status(&line.agent_id, &result.metadata, &mut last, &mut was);
        let main = convert_to_amll_line(
            &line.words,
            &line.translations,
            &line.romanizations,
            &line.text,
            line.start_time,
            line.end_time,
            false,
            duet,
            &tl,
            &rl,
        );
        let ghost prev = views(out@);
        out.push(main);
        match &line.background_vocal {
            Some(b) => {
                let bl = convert_to_amll_line(
                    &b.words,
                    &b.translations,
                    &b.romanizations,
                    &b.text,
                    b.start_time,
                    b.end_time,
                    true,
                    duet,
                    &tl,
                    &rl,
                );
                out.push(bl);
                assert(views(out@) =~= prev.push(main@).push(bl@));
            },
            None => {
                assert(views(out@) =~= prev.push(main@));
            },
        }
        k = k + 1;
    }
    let metadata = convert_amll_metadata(&result.metadata);
    AmllLyricResult { lines: out, metadata }
}

/// The number of lines from `k` on that have a background vocal.
pub open spec fn bg_count(ls: Seq<LyricLineV>, k: int) -> int
    decreases ls.len() - k,
{
    if k < 0 || k >= ls.len() {
        0
    } else {
        (if ls[k].background_vocal is Some {
            1int
        } else {
            0int
        }) + bg_count(ls, k + 1)
    }
}

proof fn lemma_amll_lines_len(
    ls: Seq<LyricLineV>,
    k: int,
    agents: Option<Seq<(Seq<char>, AgentV)>>,
    last: Option<Seq<char>>,
    was: bool,
    tl: Option<Seq<char>>,
    rl: Option<Seq<char>>,
    acc: Seq<AmllLyricLineV>,
)
    requires
        0 <= k <= ls.len(),
    ensures
        amll_lines_acc(ls, k, agents, last, was, tl, rl, acc).len() == acc.len() + (ls.len() - k) + bg_count(ls, k),
    decreases ls.len() - k,
{
    if k < ls.len() {
        let l = ls[k];
        let (duet, last2, was2) = duet_step(l.agent_id, agents, last, was);
        let main = spec_amll_line(l.words, l.translations, l.romanizations, l.text, l.start_time, l.end_time, false, duet, tl, rl);
        let acc2 = match l.background_vocal {
            Some(b) => acc.push(main).push(
                spec_amll_line(b.words, b.translations, b.romanizations, b.text, b.start_time, b.end_time, true, duet, tl, rl),
            ),
            None => acc.push(main),
        };
        lemma_amll_lines_len(ls, k + 1, agents, last2, was2, tl, rl, acc2);
    }
}

/// Every line gives one AMLL line, and one more for its background vocal: the AMLL lyric has
/// as many lines as the lyric has lines and background vocals together.
pub proof fn lemma_amll_line_count(r: TTMLResultV, tl: Option<Seq<char>>, rl: Option<Seq<char>>)
    ensures
        spec_to_amll(r, tl, rl).lines.len() == r.lines.len() + bg_count(r.lines, 0),
{
    lemma_amll_lines_len(r.lines, 0, r.metadata.agents, None, false, tl, rl, Seq::empty());
}

/// A line sung by a group is never a duet line and leaves the duet state as it was, so the
/// alternation of the other singers goes on across it.
pub proof fn lemma_group_line_never_duet(
    agent_id: Option<Seq<char>>,
    agents: Option<Seq<(Seq<char>, AgentV)>>,
    last: Option<Seq<char>>,
    last_was_duet: bool,
)
    requires
        spec_eq_ignore_ascii_case(
            agent_type_of(
                agents,
                match agent_id {
                    Some(a) => a,
                    None => "v1"@,
                },
            ),
            "group"@,
        ),
    ensures
        duet_step(agent_id, agents, last, last_was_duet) == (false, last, last_was_duet),
{
}

proof fn lemma_lang_pos_found(s: Seq<SubLyricContentV>, t: Seq<char>, i: int)
    requires
        0 <= i < s.len(),
        s[i].language == Some(t),
    ensures
        0 <= lang_pos(s, t) < s.len(),
        s[lang_pos(s, t)].language == Some(t),
    decreases s.len(),
{
    if i < s.len() - 1 {
        lemma_lang_pos_found(s.drop_last(), t, i);
    } else if lang_pos(s.drop_last(), t) >= 0 {
        lemma_lang_pos_bounds(s.drop_last(), t);
    }
}

proof fn lemma_lang_pos_bounds(s: Seq<SubLyricContentV>, t: Seq<char>)
    ensures
        lang_pos(s, t) >= 0 ==> lang_pos(s, t) < s.len() && s[lang_pos(s, t)].language == Some(t),
    decreases s.len(),
{
    if s.len() > 0 {
        lemma_lang_pos_bounds(s.drop_last(), t);
    }
}

/// When some translation or transliteration is in the preferred language, the one taken for
/// the AMLL line is in that language.
pub proof fn lemma_take_sub_prefers(s: Seq<SubLyricContentV>, t: Seq<char>, i: int)
    requires
        0 <= i < s.len(),
        s[i].language == Some(t),
    ensures
        spec_take_sub(Some(s), Some(t)) matches Some(c) && c.language == Some(t),
{
    lemma_lang_pos_found(s, t, i);
}


/// Whether every background line follows a main line and sits on the same side as it.
pub open spec fn bg_beside_main(s: Seq<AmllLyricLineV>) -> bool {
    forall|k: int|
        0 <= k < s.len() && (#[trigger] s[k]).is_bg ==> k > 0 && !s[k - 1].is_bg && s[k - 1].is_duet
            == s[k].is_duet
}

proof fn lemma_amll_lines_bg_beside_main(
    ls: Seq<LyricLineV>,
    k: int,
    agents: Option<Seq<(Seq<char>, AgentV)>>,
    last: Option<Seq<char>>,
    was: bool,
    tl: Option<Seq<char>>,
    rl: Option<Seq<char>>,
    acc: Seq<AmllLyricLineV>,
)
    requires
        bg_beside_main(acc),
    ensures
        bg_beside_main(amll_lines_acc(ls, k, agents, last, was, tl, rl, acc)),
    decreases ls.len() - k,
{
    if 0 <= k < ls.len() {
        let l = ls[k];
        let (duet, last2, was2) = duet_step(l.agent_id, agents, last, was);
        let main = spec_amll_line(l.words, l.translations, l.romanizations, l.text, l.start_time, l.end_time, false, duet, tl, rl);
        let a1 = acc.push(main);
        assert(bg_beside_main(a1)) by {
            assert forall|m: int| 0 <= m < a1.len() && (#[trigger] a1[m]).is_bg implies m > 0 && !a1[m - 1].is_bg
                && a1[m - 1].is_duet == a1[m].is_duet by {
                assert(m < acc.len());
                assert(acc[m].is_bg);
                assert(a1[m - 1] == acc[m - 1]);
            }
        }
        let acc2 = match l.background_vocal {
            Some(b) => a1.push(
                spec_amll_line(b.words, b.translations, b.romanizations, b.text, b.start_time, b.end_time, true, duet, tl, rl),
            ),
            None => a1,
        };
        assert(bg_beside_main(acc2)) by {
            if let Some(b) = l.background_vocal {
                assert forall|m: int| 0 <= m < acc2.len() && (#[trigger] acc2[m]).is_bg implies m > 0 && !acc2[m - 1].is_bg
                    && acc2[m - 1].is_duet == acc2[m].is_duet by {
                    if m < a1.len() {
                        assert(acc2[m] == a1[m]);
                        assert(a1[m].is_bg);
                        assert(acc2[m - 1] == a1[m - 1]);
                    } else {
                        assert(acc2[m - 1] == main);
                    }
                }
            }
        }
        lemma_amll_lines_bg_beside_main(ls, k + 1, agents, last2, was2, tl, rl, acc2);
    }
}

/// A background vocal is written right after its main line, on the same duet side: every
/// background line of the AMLL lyric follows a main line and has its `is_duet`.
pub proof fn lemma_bg_line_beside_main(r: TTMLResultV, tl: Option<Seq<char>>, rl: Option<Seq<char>>)
    ensures
        bg_beside_main(spec_to_amll(r, tl, rl).lines),
{
    lemma_amll_lines_bg_beside_main(r.lines, 0, r.metadata.agents, None, false, tl, rl, Seq::empty());
}


/// The main lines of an AMLL lyric, in order: the lines that are not background lines.
pub open spec fn main_lines(s: Seq<AmllLyricLineV>) -> Seq<AmllLyricLineV>
    decreases s.len(),
{
    if s.len() == 0 {
        Seq::empty()
    } else if s.last().is_bg {
        main_lines(s.drop_last())
    } else {
        main_lines(s.drop_last()).push(s.last())
    }
}

/// The singer of a line: its agent, `v1` when it has none.
pub open spec fn singer_of(l: LyricLineV) -> Seq<char> {
    match l.agent_id {
        Some(a) => a,
        None => "v1"@,
    }
}

/// Whether a line is sung by a group.
pub open spec fn sung_by_group(l: LyricLineV, agents: Option<Seq<(Seq<char>, AgentV)>>) -> bool {
    spec_eq_ignore_ascii_case(agent_type_of(agents, singer_of(l)), "group"@)
}

/// The last line before line `k` that is not sung by a group, if any.
pub open spec fn last_solo(ls: Seq<LyricLineV>, k: int, agents: Option<Seq<(Seq<char>, AgentV)>>) -> Option<int>
    decreases k,
{
    if k <= 0 {
        None
    } else if !sung_by_group(ls[k - 1], agents) {
        Some(k - 1)
    } else {
        last_solo(ls, k - 1, agents)
    }
}

/// Whether the main lines `ms` are on the duet sides that the lines `ls[..n]` call for: a
/// group line is never a duet line; the first other line is one only when its singer is of
/// type `other`; after that a line keeps the side of the last non-group line when they have
/// the same singer, and takes the other side when not.
pub open spec fn sides_follow_singers(
    ls: Seq<LyricLineV>,
    agents: Option<Seq<(Seq<char>, AgentV)>>,
    ms: Seq<AmllLyricLineV>,
    n: int,
) -> bool {
    forall|k: int|
        0 <= k < n ==> {
            let l = #[trigger] ls[k];
            if sung_by_group(l, agents) {
                !ms[k].is_duet
            } else {
                match last_solo(ls, k, agents) {
                    None => ms[k].is_duet == spec_eq_ignore_ascii_case(agent_type_of(agents, singer_of(l)), "other"@),
                    Some(p) => ms[k].is_duet == if singer_of(ls[p]) == singer_of(l) {
                        ms[p].is_duet
                    } else {
                        !ms[p].is_duet
                    },
                }
            }
        }
}

/// Whether the main lines `ms` come, in order, from the lines `ls[..n]`, with their times.
pub open spec fn mains_match(ls: Seq<LyricLineV>, ms: Seq<AmllLyricLineV>, n: int) -> bool {
    &&& ms.len() == n
    &&& forall|k: int|
        0 <= k < n ==> (#[trigger] ms[k]).start_time == ls[k].start_time && ms[k].end_time == ls[k].end_time
            && !ms[k].is_bg
}

proof fn lemma_main_lines_push(a: Seq<AmllLyricLineV>, x: AmllLyricLineV)
    ensures
        main_lines(a.push(x)) == if x.is_bg {
            main_lines(a)
        } else {
            main_lines(a).push(x)
        },
{
    assert(a.push(x).drop_last() =~= a);
}

/// One more main line, for line `k`, on the side that the duet state machine gives, keeps
/// the main lines in step with the lines and their singers.
proof fn lemma_sides_step(
    ls: Seq<LyricLineV>,
    agents: Option<Seq<(Seq<char>, AgentV)>>,
    ms0: Seq<AmllLyricLineV>,
    x: AmllLyricLineV,
    k: int,
    last: Option<Seq<char>>,
    was: bool,
)
    requires
        0 <= k < ls.len(),
        mains_match(ls, ms0, k),
        sides_follow_singers(ls, agents, ms0, k),
        last == match last_solo(ls, k, agents) {
            Some(p) => Some(singer_of(ls[p])),
            None => None::<Seq<char>>,
        },
        last_solo(ls, k, agents) matches Some(p) ==> was == ms0[p].is_duet,
        x.start_time == ls[k].start_time,
        x.end_time == ls[k].end_time,
        !x.is_bg,
        x.is_duet == duet_step(ls[k].agent_id, agents, last, was).0,
    ensures
        mains_match(ls, ms0.push(x), k + 1),
        sides_follow_singers(ls, agents, ms0.push(x), k + 1),
        duet_step(ls[k].agent_id, agents, last, was).1 == match last_solo(ls, k + 1, agents) {
            Some(p) => Some(singer_of(ls[p])),
            None => None::<Seq<char>>,
        },
        last_solo(ls, k + 1, agents) matches Some(p) ==> duet_step(ls[k].agent_id, agents, last, was).2
            == ms0.push(x)[p].is_duet,
{
    let ms1 = ms0.push(x);
    lemma_last_solo_before(ls, k, agents);
    assert(mains_match(ls, ms1, k + 1)) by {
        assert forall|m: int| 0 <= m < k + 1 implies (#[trigger] ms1[m]).start_time == ls[m].start_time
            && ms1[m].end_time == ls[m].end_time && !ms1[m].is_bg by {
            if m < k {
                assert(ms1[m] == ms0[m]);
            }
        }
    }
    assert forall|m: int| 0 <= m < k + 1 implies {
        let lm = #[trigger] ls[m];
        if sung_by_group(lm, agents) {
            !ms1[m].is_duet
        } else {
            match last_solo(ls, m, agents) {
                None => ms1[m].is_duet == spec_eq_ignore_ascii_case(agent_type_of(agents, singer_of(lm)), "other"@),
                Some(p) => ms1[m].is_duet == if singer_of(ls[p]) == singer_of(lm) {
                    ms1[p].is_duet
                } else {
                    !ms1[p].is_duet
                },
            }
        }
    } by {
        lemma_last_solo_before(ls, m, agents);
        if m < k {
            assert(ms1[m] == ms0[m]);
            if let Some(p) = last_solo(ls, m, agents) {
                assert(ms1[p] == ms0[p]);
            }
        } else {
            if let Some(p) = last_solo(ls, k, agents) {
                assert(ms1[p] == ms0[p]);
            }
        }
    }
    if let Some(p) = last_solo(ls, k + 1, agents) {
        if p < k {
            assert(ms1[p] == ms0[p]);
        }
    }
}

proof fn lemma_amll_lines_sides(
    ls: Seq<LyricLineV>,
    k: int,
    agents: Option<Seq<(Seq<char>, AgentV)>>,
    last: Option<Seq<char>>,
    was: bool,
    tl: Option<Seq<char>>,
    rl: Option<Seq<char>>,
    acc: Seq<AmllLyricLineV>,
)
    requires
        0 <= k <= ls.len(),
        mains_match(ls, main_lines(acc), k),
        sides_follow_singers(ls, agents, main_lines(acc), k),
        last == match last_solo(ls, k, agents) {
            Some(p) => Some(singer_of(ls[p])),
            None => None::<Seq<char>>,
        },
        last_solo(ls, k, agents) matches Some(p) ==> was == main_lines(acc)[p].is_duet,
    ensures
        mains_match(ls, main_lines(amll_lines_acc(ls, k, agents, last, was, tl, rl, acc)), ls.len() as int),
        sides_follow_singers(ls, agents, main_lines(amll_lines_acc(ls, k, agents, last, was, tl, rl, acc)), ls.len() as int),
    decreases ls.len() - k,
{
    if k < ls.len() {
        let l = ls[k];
        let (duet, last2, was2) = duet_step(l.agent_id, agents, last, was);
        let main = spec_amll_line(l.words, l.translations, l.romanizations, l.text, l.start_time, l.end_time, false, duet, tl, rl);
        let a1 = acc.push(main);
        lemma_main_lines_push(acc, main);
        let acc2 = match l.background_vocal {
            Some(b) => a1.push(
                spec_amll_line(b.words, b.translations, b.romanizations, b.text, b.start_time, b.end_time, true, duet, tl, rl),
            ),
            None => a1,
        };
        if let Some(b) = l.background_vocal {
            lemma_main_lines_push(a1, spec_amll_line(b.words, b.translations, b.romanizations, b.text, b.start_time, b.end_time, true, duet, tl, rl));
        }
        lemma_sides_step(ls, agents, main_lines(acc), main, k, last, was);
        lemma_amll_lines_sides(ls, k + 1, agents, last2, was2, tl, rl, acc2);
    }
}

proof fn lemma_last_solo_before(ls: Seq<LyricLineV>, k: int, agents: Option<Seq<(Seq<char>, AgentV)>>)
    ensures
        last_solo(ls, k, agents) matches Some(p) ==> 0 <= p < k && !sung_by_group(ls[p], agents),
    decreases k,
{
    if k > 0 && sung_by_group(ls[k - 1], agents) {
        lemma_last_solo_before(ls, k - 1, agents);
    }
}

/// The main lines of the AMLL lyric are the lines of the lyric, in order and with their
/// times, and their duet sides follow the singers: a group line is never a duet line; the
/// first line of another singer is one only when that singer is of type `other`; after that
/// a line keeps the side of the last non-group line when both have the same singer, and takes
/// the other side when not.
pub proof fn lemma_duet_sides(r: TTMLResultV, tl: Option<Seq<char>>, rl: Option<Seq<char>>)
    ensures
        mains_match(r.lines, main_lines(spec_to_amll(r, tl, rl).lines), r.lines.len() as int),
        sides_follow_singers(r.lines, r.metadata.agents, main_lines(spec_to_amll(r, tl, rl).lines), r.lines.len() as int),
{
    assert(main_lines(Seq::<AmllLyricLineV>::empty()) =~= Seq::<AmllLyricLineV>::empty());
    lemma_amll_lines_sides(r.lines, 0, r.metadata.agents, None, false, tl, rl, Seq::empty());
}

} // verus!
