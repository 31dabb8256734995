//! Translations and transliterations: where they go, and the `<iTunesMetadata>` blocks that
//! hold them.

use vstd::prelude::*;
use crate::generator::GeneratorConfig;
use crate::generator::ops::{
    end_v, no_attrs, push_attr, push_end, push_start, push_text, start_v, text_v,
};
use crate::generator::writer::{attrs_v, XmlOp, XmlOpV};
use crate::model::{opt_v, opt_views, views, BackgroundVocalV, LyricLine, LyricLineV, SubLyricContent, SubLyricContentV, Syllable, SyllableV};
use crate::parser::head::or_empty;
use crate::text::{copy_str, str_chars};
use crate::timestamp::{format_timestamp, spec_format_timestamp};

verus! {

/// Whether a block holds translations or transliterations.
#[derive(Debug, Clone, Copy, PartialEq, Eq, Structural)]
pub enum SubLyricKind {
    /// Translations.
    Translation,
    /// Transliterations.
    Transliteration,
}

/// The tag of the block of a kind.
pub open spec fn spec_group_tag(k: SubLyricKind) -> Seq<char> {
    match k {
        SubLyricKind::Translation => "translations"@,
        SubLyricKind::Transliteration => "transliterations"@,
    }
}

/// The tag of an item of a kind.
pub open spec fn spec_item_tag(k: SubLyricKind) -> Seq<char> {
    match k {
        SubLyricKind::Translation => "translation"@,
        SubLyricKind::Transliteration => "transliteration"@,
    }
}

impl SubLyricKind {
    /// The tag of the block: `translations` or `transliterations`.
    pub fn group_tag(self) -> (r: &'static str)
        ensures
            r@ == spec_group_tag(self),
    {
        match self {
            SubLyricKind::Translation => "translations",
            SubLyricKind::Transliteration => "transliterations",
        }
    }

    /// The tag of an item: `translation` or `transliteration`.
    pub fn item_tag(self) -> (r: &'static str)
        ensures
            r@ == spec_item_tag(self),
    {
        match self {
            SubLyricKind::Translation => "translation",
            SubLyricKind::Transliteration => "transliteration",
        }
    }
}

/// Whether some content is timed word by word.
pub open spec fn any_word_timed(cs: Seq<SubLyricContentV>) -> bool {
    exists|i: int| 0 <= i < cs.len() && (#[trigger] cs[i]).words is Some
}

/// Whether some content is timed word by word.
fn has_word_timed(cs: &Vec<SubLyricContent>) -> (b: bool)
    ensures
        b == any_word_timed(views(cs@)),
{
    let ghost v = views(cs@);
    let mut i: usize = 0;
    while i < cs.len()
        invariant
            i <= cs.len(),
            v == views(cs@),
            forall|j: int| 0 <= j < i ==> (#[trigger] v[j]).words is None,
        decreases cs.len() - i,
    {
        if cs[i].words.is_some() {
            assert(v[i as int].words is Some);
            return true;
        }
        i = i + 1;
    }
    false
}

/// Whether contents go into the head: always when some is word-timed (unless lines are
/// flattened to line timing), else only under Apple Music's rules.
pub open spec fn head_worthy(cs: Seq<SubLyricContentV>, cfg: GeneratorConfig) -> bool {
    cfg.use_apple_format_rules || (!cfg.line_timing && any_word_timed(cs))
}

/// Whether contents go into the head.
fn should_write_to_head(cs: &Vec<SubLyricContent>, cfg: &GeneratorConfig) -> (b: bool)
    ensures
        b == head_worthy(views(cs@), *cfg),
{
    cfg.use_apple_format_rules || (!cfg.line_timing && has_word_timed(cs))
}

/// `should_write_inline`: contents are written inline only outside Apple Music's rules and
/// when none is word-timed.
pub open spec fn spec_should_write_inline(cs: Seq<SubLyricContentV>, apple: bool) -> bool {
    !apple && !any_word_timed(cs)
}

/// Whether translations or transliterations are written inline in the line, as
/// `x-translation` or `x-roman` spans: never under Apple Music's rules, and never when some is
/// word-timed.
pub fn should_write_inline(contents: &Vec<SubLyricContent>, use_apple_format_rules: bool) -> (b: bool)
    ensures
        b == spec_should_write_inline(views(contents@), use_apple_format_rules),
{
    if use_apple_format_rules {
        return false;
    }
    !has_word_timed(contents)
}

/// Whether contents are written inline under the configuration: when lines are flattened to
/// line timing, every content counts as line-timed.
pub open spec fn inline_worthy(cs: Seq<SubLyricContentV>, cfg: GeneratorConfig) -> bool {
    if cfg.line_timing {
        !cfg.use_apple_format_rules
    } else {
        spec_should_write_inline(cs, cfg.use_apple_format_rules)
    }
}

/// Whether contents are written inline under the configuration.
pub fn inline_worthy_exec(cs: &Vec<SubLyricContent>, cfg: &GeneratorConfig) -> (b: bool)
    ensures
        b == inline_worthy(views(cs@), *cfg),
{
    if cfg.line_timing {
        !cfg.use_apple_format_rules
    } else {
        should_write_inline(cs, cfg.use_apple_format_rules)
    }
}

/// Whether optional contents are there and go into the head.
pub open spec fn opt_head_worthy(o: Option<Seq<SubLyricContentV>>, cfg: GeneratorConfig) -> bool {
    match o {
        Some(cs) => head_worthy(cs, cfg),
        None => false,
    }
}

/// Whether optional contents are there and go inline.
pub open spec fn opt_inline_worthy(o: Option<Seq<SubLyricContentV>>, cfg: GeneratorConfig) -> bool {
    match o {
        Some(cs) => inline_worthy(cs, cfg),
        None => false,
    }
}

/// Whether a line has contents for the head; the background vocal counts unless lines are
/// flattened to line timing.
pub open spec fn line_has_head_subs(l: LyricLineV, cfg: GeneratorConfig) -> bool {
    ||| opt_head_worthy(l.translations, cfg)
    ||| opt_head_worthy(l.romanizations, cfg)
    ||| (!cfg.line_timing && l.background_vocal is Some && (opt_head_worthy(
        l.background_vocal->0.translations,
        cfg,
    ) || opt_head_worthy(l.background_vocal->0.romanizations, cfg)))
}

/// Whether some line has translations or transliterations for `<iTunesMetadata>`.
pub open spec fn spec_has_any_itunes_sub_lyrics(ls: Seq<LyricLineV>, cfg: GeneratorConfig) -> bool {
    exists|i: int| 0 <= i < ls.len() && line_has_head_subs(#[trigger] ls[i], cfg)
}

/// Whether optional contents are there and go into the head.
fn opt_head_worthy_exec(o: &Option<Vec<SubLyricContent>>, cfg: &GeneratorConfig) -> (b: bool)
    ensures
        b == opt_head_worthy(opt_views(*o), *cfg),
{
    match o {
        Some(cs) => should_write_to_head(cs, cfg),
        None => false,
    }
}

/// Whether optional contents are there and go inline.
fn opt_inline_worthy_exec(o: &Option<Vec<SubLyricContent>>, cfg: &GeneratorConfig) -> (b: bool)
    ensures
        b == opt_inline_worthy(opt_views(*o), *cfg),
{
    match o {
        Some(cs) => inline_worthy_exec(cs, cfg),
        None => false,
    }
}

/// Whether some line has translations or transliterations that go into `<iTunesMetadata>`.
pub fn has_any_itunes_sub_lyrics(lines: &Vec<LyricLine>, config: &GeneratorConfig) -> (b: bool)
    ensures
        b == spec_has_any_itunes_sub_lyrics(views(lines@), *config),
{
    let ghost lv = views(lines@);
    let mut i: usize = 0;
    while i < lines.len()
        invariant
            i <= lines.len(),
            lv == views(lines@),
            forall|j: int| 0 <= j < i ==> !line_has_head_subs(#[trigger] lv[j], *config),
        decreases lines.len() - i,
    {
        let l = &lines[i];
        assert(l@ == lv[i as int]);
        let mut hit = opt_head_worthy_exec(&l.translations, config) || opt_head_worthy_exec(&l.romanizations, config);
        if !hit && !config.line_timing {
            if let Some(bg) = &l.background_vocal {
                hit = opt_head_worthy_exec(&bg.translations, config) || opt_head_worthy_exec(&bg.romanizations, config);
            }
        }
        if hit {
            assert(line_has_head_subs(lv[i as int], *config));
            return true;
        }
        i = i + 1;
    }
    false
}

/// Whether a line has translations or transliterations written inline.
pub open spec fn spec_has_inline_sub_lyrics(l: LyricLineV, cfg: GeneratorConfig) -> bool {
    !cfg.use_apple_format_rules && (opt_inline_worthy(l.translations, cfg) || opt_inline_worthy(
        l.romanizations,
        cfg,
    ) || (l.background_vocal is Some && (opt_inline_worthy(l.background_vocal->0.translations, cfg)
        || opt_inline_worthy(l.background_vocal->0.romanizations, cfg))))
}

/// Whether the line has translations or transliterations that are written inline.
pub fn has_inline_sub_lyrics(line: &LyricLine, config: &GeneratorConfig) -> (b: bool)
    ensures
        b == spec_has_inline_sub_lyrics(line@, *config),
{
    if config.use_apple_format_rules {
        return false;
    }
    if opt_inline_worthy_exec(&line.translations, config) || opt_inline_worthy_exec(&line.romanizations, config) {
        return true;
    }
    match &line.background_vocal {
        Some(bg) => opt_inline_worthy_exec(&bg.translations, config) || opt_inline_worthy_exec(&bg.romanizations, config),
        None => false,
    }
}

/// The contents of a kind of a line.
pub open spec fn kind_subs(l: LyricLineV, k: SubLyricKind) -> Option<Seq<SubLyricContentV>> {
    match k {
        SubLyricKind::Translation => l.translations,
        SubLyricKind::Transliteration => l.romanizations,
    }
}

/// The contents of a kind of a background vocal.
pub open spec fn bg_kind_subs(b: BackgroundVocalV, k: SubLyricKind) -> Option<Seq<SubLyricContentV>> {
    match k {
        SubLyricKind::Translation => b.translations,
        SubLyricKind::Transliteration => b.romanizations,
    }
}

/// The contents of a line that go into the head: its id, its main contents (possibly none)
/// and its background contents.
pub struct SubEntry {
    pub id: Seq<char>,
    pub main: Seq<SubLyricContentV>,
    pub bg: Option<Seq<SubLyricContentV>>,
}

/// Optional contents kept when they go into the head.
pub open spec fn keep_head(o: Option<Seq<SubLyricContentV>>, cfg: GeneratorConfig) -> Option<Seq<SubLyricContentV>> {
    match o {
        Some(cs) => if head_worthy(cs, cfg) {
            Some(cs)
        } else {
            None
        },
        None => None,
    }
}

/// The entry of a line in the head block of kind `k`: lines without an id, or without
/// contents for the head, have none.
pub open spec fn sub_entry(l: LyricLineV, k: SubLyricKind, cfg: GeneratorConfig) -> Option<SubEntry> {
    match l.id {
        None => None,
        Some(id) => {
            let main = keep_head(kind_subs(l, k), cfg);
            let bg = if cfg.line_timing {
                None
            } else {
                match l.background_vocal {
                    Some(b) => keep_head(bg_kind_subs(b, k), cfg),
                    None => None,
                }
            };
            if main is None && bg is None {
                None
            } else {
                Some(SubEntry { id, main: or_empty(main), bg })
            }
        },
    }
}

/// The entries of the lines in the head block of kind `k`, in order.
pub open spec fn sub_entries(ls: Seq<LyricLineV>, k: SubLyricKind, cfg: GeneratorConfig) -> Seq<SubEntry>
    decreases ls.len(),
{
    if ls.len() == 0 {
        Seq::empty()
    } else {
        match sub_entry(ls.last(), k, cfg) {
            Some(e) => sub_entries(ls.drop_last(), k, cfg).push(e),
            None => sub_entries(ls.drop_last(), k, cfg),
        }
    }
}

/// The lexicographic order of texts from position `i` on.
pub open spec fn text_lt_from(a: Seq<char>, b: Seq<char>, i: int) -> bool
    decreases a.len() - i,
{
    if i < 0 || i >= a.len() {
        i >= 0 && i < b.len()
    } else if i >= b.len() {
        false
    } else if a[i] != b[i] {
        (a[i] as u32) < (b[i] as u32)
    } else {
        text_lt_from(a, b, i + 1)
    }
}

/// The order of languages: no language first, then languages in lexicographic order.
pub open spec fn lang_lt(a: Option<Seq<char>>, b: Option<Seq<char>>) -> bool {
    match (a, b) {
        (None, Some(_)) => true,
        (Some(x), Some(y)) => text_lt_from(x, y, 0),
        _ => false,
    }
}

/// A sorted list of distinct languages with `x` added at its place from position `i` on.
pub open spec fn lang_insert_from(s: Seq<Option<Seq<char>>>, x: Option<Seq<char>>, i: int) -> Seq<
    Option<Seq<char>>,
>
    decreases s.len() - i,
{
    if i < 0 || i >= s.len() {
        s.push(x)
    } else if s[i] == x {
        s
    } else if lang_lt(x, s[i]) {
        s.insert(i, x)
    } else {
        lang_insert_from(s, x, i + 1)
    }
}

/// The languages of contents added one by one to a sorted list of distinct languages.
pub open spec fn langs_of(s: Seq<Option<Seq<char>>>, cs: Seq<SubLyricContentV>) -> Seq<Option<Seq<char>>>
    decreases cs.len(),
{
    if cs.len() == 0 {
        s
    } else {
        lang_insert_from(langs_of(s, cs.drop_last()), cs.last().language, 0)
    }
}

/// The sorted distinct languages of the main and background contents of the entries.
pub open spec fn entries_langs(es: Seq<SubEntry>) -> Seq<Option<Seq<char>>>
    decreases es.len(),
{
    if es.len() == 0 {
        Seq::empty()
    } else {
        let e = es.last();
        langs_of(langs_of(entries_langs(es.drop_last()), e.main), or_empty(e.bg))
    }
}

/// The first content in language `lang` from `cs[i..]` on, if any.
pub open spec fn find_lang_from(cs: Seq<SubLyricContentV>, lang: Option<Seq<char>>, i: int) -> Option<SubLyricContentV>
    decreases cs.len() - i,
{
    if i < 0 || i >= cs.len() {
        None
    } else if cs[i].language == lang {
        Some(cs[i])
    } else {
        find_lang_from(cs, lang, i + 1)
    }
}

/// The first content in language `lang`, if any.
pub open spec fn find_lang(cs: Seq<SubLyricContentV>, lang: Option<Seq<char>>) -> Option<SubLyricContentV> {
    find_lang_from(cs, lang, 0)
}

/// Whether a syllable is followed by a space.
pub open spec fn trailing(s: SyllableV) -> bool {
    s.ends_with_space == Some(true)
}

/// The text of the `i`-th syllable of a word-timed content in the head: a background content
/// opens its parenthesis on its first syllable and closes it on its last; pretty-printed, the
/// trailing space goes into the text.
pub open spec fn head_syl_text(ws: Seq<SyllableV>, i: int, is_bg: bool, format: bool) -> Seq<char> {
    let t = ws[i].text;
    let base = if is_bg {
        if ws.len() == 1 {
            seq!['('] + t + seq![')']
        } else if i == 0 {
            seq!['('] + t
        } else if i == ws.len() - 1 {
            t + seq![')']
        } else {
            t
        }
    } else {
        t
    };
    if format && trailing(ws[i]) {
        base.push(' ')
    } else {
        base
    }
}

/// The timing attributes of a span.
pub open spec fn timing_attrs(start: u32, end: u32) -> Seq<(Seq<char>, Seq<char>)> {
    seq![("begin"@, spec_format_timestamp(start)), ("end"@, spec_format_timestamp(end))]
}

/// The events of the `i`-th syllable of a word-timed content in the head: a timed span with
/// its text, and on one line a space after it when it is followed by one.
pub open spec fn head_syl_ops(ws: Seq<SyllableV>, i: int, is_bg: bool, format: bool) -> Seq<XmlOpV> {
    seq![
        start_v("span"@, timing_attrs(ws[i].start_time, ws[i].end_time)),
        text_v(head_syl_text(ws, i, is_bg, format)),
        end_v("span"@),
    ] + if trailing(ws[i]) && !format {
        seq![text_v(" "@)]
    } else {
        Seq::empty()
    }
}

/// The events of the first `k` syllables of a word-timed content in the head.
pub open spec fn head_syls_ops(ws: Seq<SyllableV>, k: int, is_bg: bool, format: bool) -> Seq<XmlOpV>
    decreases k,
{
    if k <= 0 {
        Seq::empty()
    } else {
        head_syls_ops(ws, k - 1, is_bg, format) + head_syl_ops(ws, k - 1, is_bg, format)
    }
}

/// The events of a content in the head: its syllables when word-timed (and not flattened to
/// line timing), else its text, in parentheses for a background content.
pub open spec fn content_ops(c: SubLyricContentV, is_bg: bool, cfg: GeneratorConfig) -> Seq<XmlOpV> {
    if c.words is Some && !cfg.line_timing {
        head_syls_ops(c.words->0, c.words->0.len() as int, is_bg, cfg.format)
    } else if is_bg {
        seq![text_v("("@), text_v(c.text), text_v(")"@)]
    } else {
        seq![text_v(c.text)]
    }
}

/// The `<text>` of an entry in language `lang`: its main content in that language, then its
/// background content in that language inside an `x-bg` span; nothing when it has neither.
pub open spec fn entry_text_ops(e: SubEntry, lang: Option<Seq<char>>, cfg: GeneratorConfig) -> Seq<XmlOpV> {
    let m = find_lang(e.main, lang);
    let b = match e.bg {
        Some(bs) => find_lang(bs, lang),
        None => None,
    };
    if m is None && b is None {
        Seq::empty()
    } else {
        seq![start_v("text"@, seq![("for"@, e.id)])] + match m {
            Some(c) => content_ops(c, false, cfg),
            None => Seq::empty(),
        } + match b {
            Some(c) => seq![start_v("span"@, seq![("ttm:role"@, "x-bg"@)])] + content_ops(c, true, cfg)
                + seq![end_v("span"@)],
            None => Seq::empty(),
        } + seq![end_v("text"@)]
    }
}

/// The `<text>`s of the first `k` entries in language `lang`.
pub open spec fn entries_text_ops(es: Seq<SubEntry>, k: int, lang: Option<Seq<char>>, cfg: GeneratorConfig) -> Seq<
    XmlOpV,
>
    decreases k,
{
    if k <= 0 {
        Seq::empty()
    } else {
        entries_text_ops(es, k - 1, lang, cfg) + entry_text_ops(es[k - 1], lang, cfg)
    }
}

/// The language attribute of an item.
pub open spec fn lang_attrs(lang: Option<Seq<char>>) -> Seq<(Seq<char>, Seq<char>)> {
    match lang {
        Some(l) => seq![("xml:lang"@, l)],
        None => Seq::empty(),
    }
}

/// The items of the first `k` languages, each with the `<text>`s of the entries.
pub open spec fn items_ops(
    langs: Seq<Option<Seq<char>>>,
    k: int,
    es: Seq<SubEntry>,
    kind: SubLyricKind,
    cfg: GeneratorConfig,
) -> Seq<XmlOpV>
    decreases k,
{
    if k <= 0 {
        Seq::empty()
    } else {
        items_ops(langs, k - 1, es, kind, cfg) + seq![start_v(spec_item_tag(kind), lang_attrs(langs[k - 1]))]
            + entries_text_ops(es, es.len() as int, langs[k - 1], cfg) + seq![end_v(spec_item_tag(kind))]
    }
}

/// The head block of kind `kind`: nothing when no line has contents for it; else one item
/// per language (sorted, no language first), each with a `<text for=..>` per line that has
/// contents in that language.
pub open spec fn spec_sub_lyrics_ops(ls: Seq<LyricLineV>, kind: SubLyricKind, cfg: GeneratorConfig) -> Seq<XmlOpV> {
    let es = sub_entries(ls, kind, cfg);
    if es.len() == 0 {
        Seq::empty()
    } else {
        let langs = entries_langs(es);
        seq![start_v(spec_group_tag(kind), Seq::empty())] + items_ops(langs, langs.len() as int, es, kind, cfg)
            + seq![end_v(spec_group_tag(kind))]
    }
}

/// Whether two optional texts are equal.
fn opt_str_eq(a: &Option<String>, b: &Option<String>) -> (r: bool)
    ensures
        r == (opt_v(*a) == opt_v(*b)),
{
    match (a, b) {
        (None, None) => true,
        (Some(x), Some(y)) => crate::text::str_eq(x.as_str(), y.as_str()),
        _ => false,
    }
}

/// Whether text `a` comes before `b` in lexicographic order.
pub(crate) fn text_lt(a: &str, b: &str) -> (r: bool)
    ensures
        r == text_lt_from(a@, b@, 0),
{
    let ca = str_chars(a);
    let cb = str_chars(b);
    let mut i: usize = 0;
    loop
        invariant
            ca@ == a@,
            cb@ == b@,
            text_lt_from(a@, b@, i as int) == text_lt_from(a@, b@, 0),
        decreases ca.len() - i,
    {
        if i >= ca.len() {
            return i < cb.len();
        }
        if i >= cb.len() {
            return false;
        }
        if ca[i] != cb[i] {
            return (ca[i] as u32) < (cb[i] as u32);
        }
        i = i + 1;
    }
}

/// Whether language `a` comes before `b`.
fn lang_lt_exec(a: &Option<String>, b: &Option<String>) -> (r: bool)
    ensures
        r == lang_lt(opt_v(*a), opt_v(*b)),
{
    match (a, b) {
        (None, Some(_)) => true,
        (Some(x), Some(y)) => text_lt(x.as_str(), y.as_str()),
        _ => false,
    }
}

/// Adds a language at its place in a sorted list of distinct languages.
fn lang_insert(s: &mut Vec<Option<String>>, x: &Option<String>)
    ensures
        views_opt(final(s)@) == lang_insert_from(views_opt(old(s)@), opt_v(*x), 0),
{
    let ghost s0 = views_opt(s@);
    let mut i: usize = 0;
    while i < s.len()
        invariant
            i <= s.len(),
            s0 == views_opt(s@),
            *s == *old(s),
            lang_insert_from(s0, opt_v(*x), i as int) == lang_insert_from(s0, opt_v(*x), 0),
        decreases s.len() - i,
    {
        if opt_str_eq(&s[i], x) {
            return;
        }
        if lang_lt_exec(x, &s[i]) {
            s.insert(i, crate::parser::state::copy_opt_str(x));
            assert(views_opt(s@) =~= s0.insert(i as int, opt_v(*x)));
            return;
        }
        i = i + 1;
    }
    s.push(crate::parser::state::copy_opt_str(x));
    assert(views_opt(s@) =~= s0.push(opt_v(*x)));
}

/// The views of optional texts.
pub open spec fn views_opt(s: Seq<Option<String>>) -> Seq<Option<Seq<char>>> {
    s.map_values(|o: Option<String>| opt_v(o))
}

/// Adds the languages of contents, one by one.
fn add_langs(s: &mut Vec<Option<String>>, cs: &Vec<SubLyricContent>)
    ensures
        views_opt(final(s)@) == langs_of(views_opt(old(s)@), views(cs@)),
{
    let ghost s0 = views_opt(s@);
    let ghost cv = views(cs@);
    let mut i: usize = 0;
    assert(cv.take(0) =~= Seq::<SubLyricContentV>::empty());
    while i < cs.len()
        invariant
            i <= cs.len(),
            cv == views(cs@),
            views_opt(s@) == langs_of(s0, cv.take(i as int)),
        decreases cs.len() - i,
    {
        assert(cv.take(i + 1).drop_last() =~= cv.take(i as int));
        lang_insert(s, &cs[i].language);
        i = i + 1;
    }
    assert(cv.take(i as int) =~= cv);
}

/// The exec form of an entry: the line id, the main contents (none meaning empty) and the
/// background contents.
pub type EntryRef<'a> = (&'a String, Option<&'a Vec<SubLyricContent>>, Option<&'a Vec<SubLyricContent>>);

/// The view of an entry.
pub open spec fn entry_v(e: EntryRef) -> SubEntry {
    SubEntry {
        id: e.0@,
        main: match e.1 {
            Some(v) => views(v@),
            None => Seq::empty(),
        },
        bg: match e.2 {
            Some(v) => Some(views(v@)),
            None => None,
        },
    }
}

/// Optional contents kept when they go into the head.
fn keep_head_exec<'a>(o: &'a Option<Vec<SubLyricContent>>, cfg: &GeneratorConfig) -> (r: Option<&'a Vec<SubLyricContent>>)
    ensures
        match r {
            Some(v) => keep_head(opt_views(*o), *cfg) == Some(views(v@)),
            None => keep_head(opt_views(*o), *cfg) is None,
        },
{
    match o {
        Some(cs) => if should_write_to_head(cs, cfg) {
            Some(cs)
        } else {
            None
        },
        None => None,
    }
}

/// The entry of a line in the head block of kind `kind`.
fn entry_of<'a>(l: &'a LyricLine, kind: SubLyricKind, cfg: &GeneratorConfig) -> (r: Option<EntryRef<'a>>)
    ensures
        match r {
            Some(e) => sub_entry(l@, kind, *cfg) == Some(entry_v(e)),
            None => sub_entry(l@, kind, *cfg) is None,
        },
{
    let id = match &l.id {
        Some(id) => id,
        None => return None,
    };
    let main = match kind {
        SubLyricKind::Translation => keep_head_exec(&l.translations, cfg),
        SubLyricKind::Transliteration => keep_head_exec(&l.romanizations, cfg),
    };
    let bg = if cfg.line_timing {
        None
    } else {
        match &l.background_vocal {
            Some(b) => match kind {
                SubLyricKind::Translation => keep_head_exec(&b.translations, cfg),
                SubLyricKind::Transliteration => keep_head_exec(&b.romanizations, cfg),
            },
            None => None,
        }
    };
    if main.is_none() && bg.is_none() {
        return None;
    }
    let e: EntryRef<'a> = (id, main, bg);
    assert(entry_v(e).main =~= or_empty(keep_head(kind_subs(l@, kind), *cfg)));
    Some(e)
}

/// The first content in language `lang`, if any.
fn find_lang_exec<'a>(cs: &'a Vec<SubLyricContent>, lang: &Option<String>) -> (r: Option<&'a SubLyricContent>)
    ensures
        opt_v(r) == find_lang(views(cs@), opt_v(*lang)),
{
    let ghost cv = views(cs@);
    let mut i: usize = 0;
    while i < cs.len()
        invariant
            i <= cs.len(),
            cv == views(cs@),
            find_lang_from(cv, opt_v(*lang), i as int) == find_lang(cv, opt_v(*lang)),
        decreases cs.len() - i,
    {
        assert(cs@[i as int]@ == cv[i as int]);
        if opt_str_eq(&cs[i].language, lang) {
            return Some(&cs[i]);
        }
        i = i + 1;
    }
    None
}

/// The text of the `i`-th syllable of a word-timed content in the head.
fn head_syl_text_exec(ws: &Vec<Syllable>, i: usize, is_bg: bool, format: bool) -> (r: String)
    requires
        i < ws.len(),
    ensures
        r@ == head_syl_text(views(ws@), i as int, is_bg, format),
{
    let ghost wv = views(ws@);
    let n = ws.len();
    let w = &ws[i];
    assert(w@ == wv[i as int]);
    let mut cs: Vec<char> = Vec::new();
    if is_bg && (n == 1 || i == 0) {
        cs.push('(');
    }
    crate::text::push_str_chars(&mut cs, w.text.as_str());
    if is_bg && (n == 1 || (i == n - 1 && i != 0)) {
        cs.push(')');
    }
    if format && w.ends_with_space == Some(true) {
        cs.push(' ');
    }
    assert(cs@ =~= head_syl_text(wv, i as int, is_bg, format));
    assert(cs@.subrange(0, cs.len() as int) =~= cs@);
    crate::text::string_from_chars(&cs, 0, cs.len())
}

/// Appends the events of the `i`-th syllable of a word-timed content in the head.
fn head_syl_exec(ops: &mut Vec<XmlOp>, ws: &Vec<Syllable>, i: usize, is_bg: bool, format: bool)
    requires
        i < ws.len(),
    ensures
        views(final(ops)@) == views(old(ops)@) + head_syl_ops(views(ws@), i as int, is_bg, format),
{
    let ghost wv = views(ws@);
    let w = &ws[i];
    assert(w@ == wv[i as int]);
    let tr = w.ends_with_space == Some(true);
    let text = head_syl_text_exec(ws, i, is_bg, format);
    let mut a = no_attrs();
    push_attr(&mut a, "begin", format_timestamp(w.start_time));
    push_attr(&mut a, "end", format_timestamp(w.end_time));
    assert(attrs_v(a@) =~= timing_attrs(w.start_time, w.end_time));
    push_start(ops, "span", a);
    push_text(ops, text.as_str());
    push_end(ops, "span");
    if tr && !format {
        push_text(ops, " ");
    }
    assert(views(ops@) =~= views(old(ops)@) + head_syl_ops(wv, i as int, is_bg, format));
}

/// Appends the events of the syllables of a word-timed content in the head.
fn write_sub_lyric_syllables(ops: &mut Vec<XmlOp>, ws: &Vec<Syllable>, is_bg: bool, format: bool)
    ensures
        views(final(ops)@) == views(old(ops)@) + head_syls_ops(views(ws@), ws.len() as int, is_bg, format),
{
    let ghost wv = views(ws@);
    let n = ws.len();
    let mut i: usize = 0;
    assert(views(ops@) =~= views(old(ops)@) + head_syls_ops(wv, 0, is_bg, format));
    while i < n
        invariant
            i <= n == ws.len(),
            wv == views(ws@),
            views(ops@) == views(old(ops)@) + head_syls_ops(wv, i as int, is_bg, format),
        decreases n - i,
    {
        head_syl_exec(ops, ws, i, is_bg, format);
        assert(views(ops@) =~= views(old(ops)@) + head_syls_ops(wv, i + 1, is_bg, format));
        i = i + 1;
    }
}

/// Appends the events of a content in the head.
fn write_sub_lyric_content(ops: &mut Vec<XmlOp>, c: &SubLyricContent, is_bg: bool, cfg: &GeneratorConfig)
    ensures
        views(final(ops)@) == views(old(ops)@) + content_ops(c@, is_bg, *cfg),
{
    match &c.words {
        Some(ws) if !cfg.line_timing => {
            write_sub_lyric_syllables(ops, ws, is_bg, cfg.format);
        },
        _ => {
            if is_bg {
                push_text(ops, "(");
                push_text(ops, c.text.as_str());
                push_text(ops, ")");
            } else {
                push_text(ops, c.text.as_str());
            }
            assert(views(ops@) =~= views(old(ops)@) + content_ops(c@, is_bg, *cfg));
        },
    }
}

/// Appends the `<text>` of an entry in language `lang`.
fn entry_text_exec(ops: &mut Vec<XmlOp>, e: &EntryRef, lang: &Option<String>, cfg: &GeneratorConfig)
    ensures
        views(final(ops)@) == views(old(ops)@) + entry_text_ops(entry_v(*e), opt_v(*lang), *cfg),
{
    let empty: Vec<SubLyricContent> = Vec::new();
    let main_list: &Vec<SubLyricContent> = match e.1 {
        Some(v) => v,
        None => &empty,
    };
    assert(views(main_list@) =~= entry_v(*e).main);
    let m = find_lang_exec(main_list, lang);
    let b = match e.2 {
        Some(bs) => find_lang_exec(bs, lang),
        None => None,
    };
    if m.is_none() && b.is_none() {
        assert(views(ops@) =~= views(old(ops)@) + entry_text_ops(entry_v(*e), opt_v(*lang), *cfg));
        return;
    }
    let mut a = no_attrs();
    push_attr(&mut a, "for", copy_str(e.0.as_str()));
    push_start(ops, "text", a);
    if let Some(c) = m {
        write_sub_lyric_content(ops, c, false, cfg);
    }
    if let Some(c) = b {
        let mut ba = no_attrs();
        push_attr(&mut ba, "ttm:role", copy_str("x-bg"));
        push_start(ops, "span", ba);
        write_sub_lyric_content(ops, c, true, cfg);
        push_end(ops, "span");
    }
    push_end(ops, "text");
    assert(views(ops@) =~= views(old(ops)@) + entry_text_ops(entry_v(*e), opt_v(*lang), *cfg));
}

/// The views of entries.
pub open spec fn entries_v(es: Seq<EntryRef>) -> Seq<SubEntry> {
    es.map_values(|e: EntryRef| entry_v(e))
}

/// Appends the head block of kind `kind` for the lines: one item per language, each with a
/// `<text for=..>` per line that has contents for the head in that language.
pub fn write_sub_lyrics(ops: &mut Vec<XmlOp>, lines: &Vec<LyricLine>, kind: SubLyricKind, config: &GeneratorConfig)
    ensures
        views(final(ops)@) == views(old(ops)@) + spec_sub_lyrics_ops(views(lines@), kind, *config),
{
    let ghost lv = views(lines@);
    let mut entries: Vec<EntryRef> = Vec::new();
    let mut i: usize = 0;
    assert(lv.take(0) =~= Seq::<LyricLineV>::empty());
    assert(entries_v(entries@) =~= Seq::<SubEntry>::empty());
    while i < lines.len()
        invariant
            i <= lines.len(),
            lv == views(lines@),
            entries_v(entries@) == sub_entries(lv.take(i as int), kind, *config),
        decreases lines.len() - i,
    {
        assert(lv.take(i + 1).drop_last() =~= lv.take(i as int));
        assert(lines@[i as int]@ == lv[i as int]);
        match entry_of(&lines[i], kind, config) {
            Some(e) => {
                let ghost prev = entries_v(entries@);
                entries.push(e);
                assert(entries_v(entries@) =~= prev.push(entry_v(e)));
            },
            None => {},
        }
        i = i + 1;
    }
    assert(lv.take(i as int) =~= lv);
    let ghost es = entries_v(entries@);
    if entries.len() == 0 {
        assert(views(ops@) =~= views(old(ops)@) + spec_sub_lyrics_ops(lv, kind, *config));
        return;
    }
    let mut langs: Vec<Option<String>> = Vec::new();
    let mut k: usize = 0;
    assert(es.take(0) =~= Seq::<SubEntry>::empty());
    assert(views_opt(langs@) =~= Seq::<Option<Seq<char>>>::empty());
    while k < entries.len()
        invariant
            k <= entries.len(),
            es == entries_v(entries@),
            views_opt(langs@) == entries_langs(es.take(k as int)),
        decreases entries.len() - k,
    {
        assert(es.take(k + 1).drop_last() =~= es.take(k as int));
        let e = &entries[k];
        let empty: Vec<SubLyricContent> = Vec::new();
        let main_list: &Vec<SubLyricContent> = match e.1 {
            Some(v) => v,
            None => &empty,
        };
        assert(views(main_list@) =~= es[k as int].main);
        add_langs(&mut langs, main_list);
        match e.2 {
            Some(bs) => add_langs(&mut langs, bs),
            None => {
                assert(langs_of(views_opt(langs@), Seq::<SubLyricContentV>::empty()) == views_opt(langs@));
            },
        }
        k = k + 1;
    }
    assert(es.take(k as int) =~= es);
    let ghost lsv = views_opt(langs@);
    push_start(ops, kind.group_tag(), no_attrs());
    let ghost base = views(ops@);
    let mut li: usize = 0;
    while li < langs.len()
        invariant
            li <= langs.len(),
            lsv == views_opt(langs@),
            es == entries_v(entries@),
            views(ops@) == base + items_ops(lsv, li as int, es, kind, *config),
        decreases langs.len() - li,
    {
        let lang = &langs[li];
        assert(opt_v(*lang) == lsv[li as int]);
        let mut a = no_attrs();
        match lang {
            Some(l) => push_attr(&mut a, "xml:lang", copy_str(l.as_str())),
            None => {},
        }
        assert(attrs_v(a@) =~= lang_attrs(lsv[li as int]));
        push_start(ops, kind.item_tag(), a);
        let ghost item_base = views(ops@);
        let mut j: usize = 0;
        while j < entries.len()
            invariant
                j <= entries.len(),
                es == entries_v(entries@),
                opt_v(*lang) == lsv[li as int],
                views(ops@) == item_base + entries_text_ops(es, j as int, lsv[li as int], *config),
            decreases entries.len() - j,
        {
            entry_text_exec(ops, &entries[j], lang, config);
            j = j + 1;
        }
        push_end(ops, kind.item_tag());
        assert(views(ops@) =~= base + items_ops(lsv, li + 1, es, kind, *config));
        li = li + 1;
    }
    push_end(ops, kind.group_tag());
    assert(views(ops@) =~= views(old(ops)@) + spec_sub_lyrics_ops(lv, kind, *config));
}

} // verus!
