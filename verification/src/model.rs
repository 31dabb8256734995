//! Data structures produced by the parser and consumed by the generator.

use vstd::prelude::*;
use indexmap::IndexMap;
use crate::maps::{
    agent_entries, agents_insert, agents_new, entries_insert, entries_push, platform_entries,
    platforms_new, platforms_push, properties_new, properties_push, property_entries,
};
use crate::utils::{
    build_full_text, normalize_line_text, normalize_words_spaces, spaced_word,
    spec_full_text, spec_normalize_line_text, spec_strip_outer_parens, spec_strip_parens_words,
    strip_outer_parens, strip_outer_parens_from_words,
};

verus! {

/// One ruby annotation syllable.
#[derive(Debug, Default)]
pub struct RubyTag {
    /// The annotation text.
    pub text: String,
    /// Start time in milliseconds.
    pub start_time: u32,
    /// End time in milliseconds.
    pub end_time: u32,
}

/// Mathematical model of a [`RubyTag`].
pub struct RubyTagV {
    pub text: Seq<char>,
    pub start_time: u32,
    pub end_time: u32,
}

impl View for RubyTag {
    type V = RubyTagV;

    open spec fn view(&self) -> RubyTagV {
        RubyTagV { text: self.text@, start_time: self.start_time, end_time: self.end_time }
    }
}

/// The views of a sequence of values.
pub open spec fn views<T: View>(s: Seq<T>) -> Seq<T::V> {
    s.map_values(|x: T| x@)
}

/// The view of an optional vector, element by element.
pub open spec fn opt_views<T: View>(o: Option<Vec<T>>) -> Option<Seq<T::V>> {
    match o {
        Some(v) => Some(views(v@)),
        None => None,
    }
}

/// One lyric syllable.
#[derive(Debug, Default)]
pub struct Syllable {
    /// The syllable text (the ruby base text for a ruby container); holds no spaces.
    pub text: String,
    /// Start time in milliseconds.
    pub start_time: u32,
    /// End time in milliseconds.
    pub end_time: u32,
    /// Whether a space follows this syllable.
    pub ends_with_space: Option<bool>,
    /// Ruby annotations; present when the syllable is a ruby container.
    pub ruby: Option<Vec<RubyTag>>,
    /// Whether the word is obscene.
    pub obscene: Option<bool>,
    /// Number of empty beats.
    pub empty_beat: Option<u32>,
}

/// Mathematical model of a [`Syllable`].
pub struct SyllableV {
    pub text: Seq<char>,
    pub start_time: u32,
    pub end_time: u32,
    pub ends_with_space: Option<bool>,
    pub ruby: Option<Seq<RubyTagV>>,
    pub obscene: Option<bool>,
    pub empty_beat: Option<u32>,
}

impl View for Syllable {
    type V = SyllableV;

    open spec fn view(&self) -> SyllableV {
        SyllableV {
            text: self.text@,
            start_time: self.start_time,
            end_time: self.end_time,
            ends_with_space: self.ends_with_space,
            ruby: opt_views(self.ruby),
            obscene: self.obscene,
            empty_beat: self.empty_beat,
        }
    }
}

/// The view of an optional value.
pub open spec fn opt_v<T: View>(o: Option<T>) -> Option<T::V> {
    match o {
        Some(x) => Some(x@),
        None => None,
    }
}

/// The contents of an optional vector after one more element is pushed.
pub open spec fn opt_pushed<T>(o: Option<Seq<T>>, x: T) -> Option<Seq<T>> {
    match o {
        Some(s) => Some(s.push(x)),
        None => Some(seq![x]),
    }
}

/// The lists of values of the metadata.
pub enum MetaList {
    Title,
    Artist,
    Album,
    Songwriters,
    Isrc,
    AuthorIds,
    AuthorNames,
}

/// The values of one list of the metadata, none when it is absent.
pub open spec fn meta_list(m: TTMLMetadataV, f: MetaList) -> Seq<Seq<char>> {
    let o = match f {
        MetaList::Title => m.title,
        MetaList::Artist => m.artist,
        MetaList::Album => m.album,
        MetaList::Songwriters => m.songwriters,
        MetaList::Isrc => m.isrc,
        MetaList::AuthorIds => m.author_ids,
        MetaList::AuthorNames => m.author_names,
    };
    match o {
        Some(s) => s,
        None => Seq::empty(),
    }
}

/// Pushes `x` onto the vector, creating it when it is absent.
pub fn push_opt<T>(o: &mut Option<Vec<T>>, x: T)
    ensures
        (*final(o)) is Some,
        (*final(o))->0@ == match *old(o) {
            Some(v) => v@.push(x),
            None => seq![x],
        },
{
    match o {
        Some(v) => {
            v.push(x);
        },
        None => {
            let mut v = Vec::new();
            v.push(x);
            *o = Some(v);
        },
    }
}

/// The element views of an optional vector after a push.
pub proof fn lemma_push_opt_views<T: View>(old_o: Option<Vec<T>>, new_o: Option<Vec<T>>, x: T)
    requires
        new_o is Some,
        new_o->0@ == match old_o {
            Some(v) => v@.push(x),
            None => seq![x],
        },
    ensures
        opt_views(new_o) == opt_pushed(opt_views(old_o), x@),
{
    match old_o {
        Some(v) => assert(views(new_o->0@) =~= views(v@).push(x@)),
        None => assert(views(new_o->0@) =~= seq![x@]),
    }
}

impl Syllable {
    /// Appends a ruby annotation to the syllable.
    pub fn push_ruby(&mut self, tag: RubyTag)
        ensures
            final(self)@ == (SyllableV {
                ruby: opt_pushed(old(self)@.ruby, tag@),
                ..old(self)@
            }),
    {
        let ghost o = self.ruby;
        push_opt(&mut self.ruby, tag);
        proof {
            lemma_push_opt_views(o, self.ruby, tag);
        }
    }
}

/// A translation or transliteration of a line.
#[derive(Debug, Default)]
pub struct SubLyricContent {
    /// BCP-47 language code.
    pub language: Option<String>,
    /// The full text.
    pub text: String,
    /// The syllables, when the content is timed word by word.
    pub words: Option<Vec<Syllable>>,
}

/// Mathematical model of a [`SubLyricContent`].
pub struct SubLyricContentV {
    pub language: Option<Seq<char>>,
    pub text: Seq<char>,
    pub words: Option<Seq<SyllableV>>,
}

impl View for SubLyricContent {
    type V = SubLyricContentV;

    open spec fn view(&self) -> SubLyricContentV {
        SubLyricContentV {
            language: opt_v(self.language),
            text: self.text@,
            words: opt_views(self.words),
        }
    }
}

/// A background vocal of a line.
#[derive(Debug, Default)]
pub struct BackgroundVocal {
    /// The full text.
    pub text: String,
    /// Start time in milliseconds.
    pub start_time: u32,
    /// End time in milliseconds.
    pub end_time: u32,
    /// The syllables; absent for line-timed lyrics.
    pub words: Option<Vec<Syllable>>,
    /// Translations.
    pub translations: Option<Vec<SubLyricContent>>,
    /// Transliterations.
    pub romanizations: Option<Vec<SubLyricContent>>,
}

/// Mathematical model of a [`BackgroundVocal`].
pub struct BackgroundVocalV {
    pub text: Seq<char>,
    pub start_time: u32,
    pub end_time: u32,
    pub words: Option<Seq<SyllableV>>,
    pub translations: Option<Seq<SubLyricContentV>>,
    pub romanizations: Option<Seq<SubLyricContentV>>,
}

impl View for BackgroundVocal {
    type V = BackgroundVocalV;

    open spec fn view(&self) -> BackgroundVocalV {
        BackgroundVocalV {
            text: self.text@,
            start_time: self.start_time,
            end_time: self.end_time,
            words: opt_views(self.words),
            translations: opt_views(self.translations),
            romanizations: opt_views(self.romanizations),
        }
    }
}

/// The empty background vocal.
pub open spec fn empty_bg() -> BackgroundVocalV {
    BackgroundVocalV {
        text: Seq::empty(),
        start_time: 0,
        end_time: 0,
        words: None,
        translations: None,
        romanizations: None,
    }
}

impl BackgroundVocal {
    /// An empty background vocal.
    pub fn new_empty() -> (b: BackgroundVocal)
        ensures
            b@ == empty_bg(),
    {
        BackgroundVocal {
            text: String::new(),
            start_time: 0,
            end_time: 0,
            words: None,
            translations: None,
            romanizations: None,
        }
    }

    /// Appends a syllable to the background vocal.
    pub fn push_word(&mut self, syllable: Syllable)
        ensures
            final(self)@ == (BackgroundVocalV {
                words: opt_pushed(old(self)@.words, syllable@),
                ..old(self)@
            }),
    {
        let ghost o = self.words;
        push_opt(&mut self.words, syllable);
        proof {
            lemma_push_opt_views(o, self.words, syllable);
        }
    }

    /// Appends a translation to the background vocal.
    pub fn push_translation(&mut self, content: SubLyricContent)
        ensures
            final(self)@ == (BackgroundVocalV {
                translations: opt_pushed(old(self)@.translations, content@),
                ..old(self)@
            }),
    {
        let ghost o = self.translations;
        push_opt(&mut self.translations, content);
        proof {
            lemma_push_opt_views(o, self.translations, content);
        }
    }

    /// Appends a transliteration to the background vocal.
    pub fn push_romanization(&mut self, content: SubLyricContent)
        ensures
            final(self)@ == (BackgroundVocalV {
                romanizations: opt_pushed(old(self)@.romanizations, content@),
                ..old(self)@
            }),
    {
        let ghost o = self.romanizations;
        push_opt(&mut self.romanizations, content);
        proof {
            lemma_push_opt_views(o, self.romanizations, content);
        }
    }
}

/// One main lyric line.
#[derive(Debug, Default)]
pub struct LyricLine {
    /// The full text.
    pub text: String,
    /// Start time in milliseconds.
    pub start_time: u32,
    /// End time in milliseconds.
    pub end_time: u32,
    /// The syllables; absent for line-timed lyrics.
    pub words: Option<Vec<Syllable>>,
    /// Translations.
    pub translations: Option<Vec<SubLyricContent>>,
    /// Transliterations.
    pub romanizations: Option<Vec<SubLyricContent>>,
    /// The background vocal.
    pub background_vocal: Option<BackgroundVocal>,
    /// Line id, such as `L1`.
    pub id: Option<String>,
    /// The singer's agent id.
    pub agent_id: Option<String>,
    /// The song part, such as `Verse`.
    pub song_part: Option<String>,
    /// The index of the `<div>` block the line belongs to.
    pub block_index: Option<u32>,
}

/// Mathematical model of a [`LyricLine`].
pub struct LyricLineV {
    pub text: Seq<char>,
    pub start_time: u32,
    pub end_time: u32,
    pub words: Option<Seq<SyllableV>>,
    pub translations: Option<Seq<SubLyricContentV>>,
    pub romanizations: Option<Seq<SubLyricContentV>>,
    pub background_vocal: Option<BackgroundVocalV>,
    pub id: Option<Seq<char>>,
    pub agent_id: Option<Seq<char>>,
    pub song_part: Option<Seq<char>>,
    pub block_index: Option<u32>,
}

impl View for LyricLine {
    type V = LyricLineV;

    open spec fn view(&self) -> LyricLineV {
        LyricLineV {
            text: self.text@,
            start_time: self.start_time,
            end_time: self.end_time,
            words: opt_views(self.words),
            translations: opt_views(self.translations),
            romanizations: opt_views(self.romanizations),
            background_vocal: opt_v(self.background_vocal),
            id: opt_v(self.id),
            agent_id: opt_v(self.agent_id),
            song_part: opt_v(self.song_part),
            block_index: self.block_index,
        }
    }
}

impl LyricLine {
    /// Appends a syllable to the main lyric.
    pub fn push_word(&mut self, syllable: Syllable)
        ensures
            final(self)@ == (LyricLineV {
                words: opt_pushed(old(self)@.words, syllable@),
                ..old(self)@
            }),
    {
        let ghost o = self.words;
        push_opt(&mut self.words, syllable);
        proof {
            lemma_push_opt_views(o, self.words, syllable);
        }
    }

    /// Appends a translation to the line.
    pub fn push_translation(&mut self, content: SubLyricContent)
        ensures
            final(self)@ == (LyricLineV {
                translations: opt_pushed(old(self)@.translations, content@),
                ..old(self)@
            }),
    {
        let ghost o = self.translations;
        push_opt(&mut self.translations, content);
        proof {
            lemma_push_opt_views(o, self.translations, content);
        }
    }

    /// Appends a transliteration to the line.
    pub fn push_romanization(&mut self, content: SubLyricContent)
        ensures
            final(self)@ == (LyricLineV {
                romanizations: opt_pushed(old(self)@.romanizations, content@),
                ..old(self)@
            }),
    {
        let ghost o = self.romanizations;
        push_opt(&mut self.romanizations, content);
        proof {
            lemma_push_opt_views(o, self.romanizations, content);
        }
    }

    /// The background vocal, created empty when the line has none yet.
    pub fn bg_vocal_mut(&mut self) -> (bg: &mut BackgroundVocal)
        ensures
            (*bg)@ == match old(self)@.background_vocal {
                Some(b) => b,
                None => empty_bg(),
            },
            final(self)@ == (LyricLineV { background_vocal: Some(final(bg)@), ..old(self)@ }),
    {
        if self.background_vocal.is_none() {
            self.background_vocal = Some(BackgroundVocal::new_empty());
        }
        match &mut self.background_vocal {
            Some(b) => b,
            None => {
                assert(false);
                unreached()
            },
        }
    }
}

impl LyricLine {
    /// Rebuilds the text from the syllables, when there are syllables.
    pub fn rebuild_text(&mut self)
        ensures
            final(self)@ == match old(self)@.words {
                Some(ws) => LyricLineV { text: spec_full_text(ws, false), ..old(self)@ },
                None => old(self)@,
            },
    {
        if let Some(words) = &self.words {
            let t = build_full_text(words.as_slice(), false);
            self.text = t;
        }
    }
}

impl BackgroundVocal {
    /// Rebuilds the text from the syllables, when there are syllables.
    pub fn rebuild_text(&mut self)
        ensures
            final(self)@ == match old(self)@.words {
                Some(ws) => BackgroundVocalV { text: spec_full_text(ws, false), ..old(self)@ },
                None => old(self)@,
            },
    {
        if let Some(words) = &self.words {
            let t = build_full_text(words.as_slice(), false);
            self.text = t;
        }
    }

    /// Takes off the parentheses of the background vocal and of its translations and
    /// transliterations, moves the spaces into the syllable flags and rebuilds the texts.
    pub fn normalize(&mut self)
        ensures
            final(self)@ == spec_normalized_bg(old(self)@),
    {
        if let Some(bg_words) = &mut self.words {
            strip_outer_parens_from_words(bg_words);
            normalize_words_spaces(bg_words);
            let t = build_full_text(bg_words.as_slice(), false);
            self.text = t;
            proof {
                assert(views(bg_words@) =~= spaced_words(spec_strip_parens_words(
                    old(self)@.words->0,
                )));
            }
        } else {
            strip_outer_parens(&mut self.text);
            normalize_line_text(&mut self.text);
        }
        if let Some(translations) = &mut self.translations {
            normalize_subs_with_parens(translations, false);
        }
        if let Some(romanizations) = &mut self.romanizations {
            normalize_subs_with_parens(romanizations, true);
        }
    }
}

/// Each syllable with the whitespace moved into the flags.
pub open spec fn spaced_words(ws: Seq<SyllableV>) -> Seq<SyllableV> {
    Seq::new(ws.len(), |i: int| spaced_word(ws, i))
}

/// A text with its outer parentheses taken off, where it has them.
pub open spec fn stripped_or_same(t: Seq<char>) -> Seq<char> {
    match spec_strip_outer_parens(t) {
        Some(s) => s,
        None => t,
    }
}

/// A translation or transliteration with its spaces normalised and its text rebuilt.
pub open spec fn spec_normalized_sub(c: SubLyricContentV, space_joined: bool) -> SubLyricContentV {
    match c.words {
        Some(ws) => SubLyricContentV {
            words: Some(spaced_words(ws)),
            text: spec_full_text(spaced_words(ws), space_joined),
            ..c
        },
        None => SubLyricContentV { text: spec_normalize_line_text(c.text), ..c },
    }
}

/// As [`spec_normalized_sub`], with the outer parentheses taken off first.
pub open spec fn spec_normalized_sub_parens(c: SubLyricContentV, space_joined: bool) -> SubLyricContentV {
    match c.words {
        Some(ws) => SubLyricContentV {
            words: Some(spaced_words(spec_strip_parens_words(ws))),
            text: spec_full_text(spaced_words(spec_strip_parens_words(ws)), space_joined),
            ..c
        },
        None => SubLyricContentV {
            text: spec_normalize_line_text(stripped_or_same(c.text)),
            ..c
        },
    }
}

/// A background vocal after [`BackgroundVocal::normalize`].
pub open spec fn spec_normalized_bg(b: BackgroundVocalV) -> BackgroundVocalV {
    BackgroundVocalV {
        words: match b.words {
            Some(ws) => Some(spaced_words(spec_strip_parens_words(ws))),
            None => None,
        },
        text: match b.words {
            Some(ws) => spec_full_text(spaced_words(spec_strip_parens_words(ws)), false),
            None => spec_normalize_line_text(stripped_or_same(b.text)),
        },
        translations: match b.translations {
            Some(ts) => Some(ts.map_values(|c: SubLyricContentV| spec_normalized_sub_parens(c, false))),
            None => None,
        },
        romanizations: match b.romanizations {
            Some(rs) => Some(rs.map_values(|c: SubLyricContentV| spec_normalized_sub_parens(c, true))),
            None => None,
        },
        ..b
    }
}

/// Normalises every translation or transliteration of the vector, parentheses included.
pub fn normalize_subs_with_parens(subs: &mut Vec<SubLyricContent>, space_joined: bool)
    ensures
        views(final(subs)@) == views(old(subs)@).map_values(
            |c: SubLyricContentV| spec_normalized_sub_parens(c, space_joined),
        ),
{
    let mut i: usize = 0;
    while i < subs.len()
        invariant
            i <= subs.len() == old(subs).len(),
            forall|j: int| 0 <= j < i ==> #[trigger] subs@[j]@ == spec_normalized_sub_parens(old(subs)@[j]@, space_joined),
            forall|j: int| i <= j < subs.len() ==> #[trigger] subs@[j] == old(subs)@[j],
        decreases subs.len() - i,
    {
        subs[i].normalize_with_parens(space_joined);
        i = i + 1;
    }
    assert(views(subs@) =~= views(old(subs)@).map_values(
        |c: SubLyricContentV| spec_normalized_sub_parens(c, space_joined),
    ));
}

/// Normalises every translation or transliteration of the vector.
pub fn normalize_subs(subs: &mut Vec<SubLyricContent>, space_joined: bool)
    ensures
        views(final(subs)@) == views(old(subs)@).map_values(
            |c: SubLyricContentV| spec_normalized_sub(c, space_joined),
        ),
{
    let mut i: usize = 0;
    while i < subs.len()
        invariant
            i <= subs.len() == old(subs).len(),
            forall|j: int| 0 <= j < i ==> #[trigger] subs@[j]@ == spec_normalized_sub(old(subs)@[j]@, space_joined),
            forall|j: int| i <= j < subs.len() ==> #[trigger] subs@[j] == old(subs)@[j],
        decreases subs.len() - i,
    {
        subs[i].normalize(space_joined);
        i = i + 1;
    }
    assert(views(subs@) =~= views(old(subs)@).map_values(
        |c: SubLyricContentV| spec_normalized_sub(c, space_joined),
    ));
}

impl SubLyricContent {
    /// Rebuilds the text from the syllables, when there are syllables.
    pub fn rebuild_text(&mut self)
        ensures
            final(self)@ == match old(self)@.words {
                Some(ws) => SubLyricContentV { text: spec_full_text(ws, false), ..old(self)@ },
                None => old(self)@,
            },
    {
        if let Some(words) = &self.words {
            let t = build_full_text(words.as_slice(), false);
            self.text = t;
        }
    }

    /// Normalises the spaces and rebuilds the text (syllables joined by spaces when
    /// `space_joined`), or normalises the line text when there are no syllables.
    pub fn normalize(&mut self, space_joined: bool)
        ensures
            final(self)@ == spec_normalized_sub(old(self)@, space_joined),
    {
        if let Some(words) = &mut self.words {
            normalize_words_spaces(words);
            let t = build_full_text(words.as_slice(), space_joined);
            self.text = t;
            proof {
                assert(views(words@) =~= spaced_words(old(self)@.words->0));
            }
        } else {
            normalize_line_text(&mut self.text);
        }
    }

    /// As [`SubLyricContent::normalize`], with the outer parentheses taken off first.
    pub fn normalize_with_parens(&mut self, space_joined: bool)
        ensures
            final(self)@ == spec_normalized_sub_parens(old(self)@, space_joined),
    {
        if let Some(words) = &mut self.words {
            strip_outer_parens_from_words(words);
            let ghost mid = views(words@);
            normalize_words_spaces(words);
            let t = build_full_text(words.as_slice(), space_joined);
            self.text = t;
            proof {
                assert(views(words@) =~= spaced_words(mid));
            }
        } else {
            strip_outer_parens(&mut self.text);
            normalize_line_text(&mut self.text);
        }
    }
}

/// A singer.
#[derive(Debug, Default)]
pub struct Agent {
    /// The agent id, such as `v1`.
    pub id: String,
    /// The singer's name.
    pub name: Option<String>,
    /// The agent type, usually `person`, `group` or `other`.
    pub type_: Option<String>,
}

/// Mathematical model of an [`Agent`].
pub struct AgentV {
    pub id: Seq<char>,
    pub name: Option<Seq<char>>,
    pub type_: Option<Seq<char>>,
}

impl View for Agent {
    type V = AgentV;

    open spec fn view(&self) -> AgentV {
        AgentV { id: self.id@, name: opt_v(self.name), type_: opt_v(self.type_) }
    }
}

/// The platforms whose ids the metadata can carry.
#[derive(Debug, Clone, Copy, PartialEq, Eq, Hash, Structural)]
pub enum PlatformId {
    /// NetEase Cloud Music id.
    NcmMusicId,
    /// QQ Music id.
    QqMusicId,
    /// Spotify id.
    SpotifyId,
    /// Apple Music id.
    AppleMusicId,
}

/// The metadata of a TTML lyric.
#[derive(Debug, Default)]
pub struct TTMLMetadata {
    /// Main language (BCP-47).
    pub language: Option<String>,
    /// Timing mode.
    pub timing_mode: Option<String>,
    /// Songwriters.
    pub songwriters: Option<Vec<String>>,
    /// Titles.
    pub title: Option<Vec<String>>,
    /// Artists.
    pub artist: Option<Vec<String>>,
    /// Albums.
    pub album: Option<Vec<String>>,
    /// ISRC codes.
    pub isrc: Option<Vec<String>>,
    /// GitHub ids of the lyric authors.
    pub author_ids: Option<Vec<String>>,
    /// GitHub user names of the lyric authors.
    pub author_names: Option<Vec<String>>,
    /// Singers, by agent id.
    pub agents: Option<IndexMap<String, Agent>>,
    /// Ids on music platforms.
    pub platform_ids: Option<IndexMap<PlatformId, Vec<String>>>,
    /// Other properties.
    pub raw_properties: Option<IndexMap<String, Vec<String>>>,
}

/// Mathematical model of a [`TTMLMetadata`].
pub struct TTMLMetadataV {
    pub language: Option<Seq<char>>,
    pub timing_mode: Option<Seq<char>>,
    pub songwriters: Option<Seq<Seq<char>>>,
    pub title: Option<Seq<Seq<char>>>,
    pub artist: Option<Seq<Seq<char>>>,
    pub album: Option<Seq<Seq<char>>>,
    pub isrc: Option<Seq<Seq<char>>>,
    pub author_ids: Option<Seq<Seq<char>>>,
    pub author_names: Option<Seq<Seq<char>>>,
    pub agents: Option<Seq<(Seq<char>, AgentV)>>,
    pub platform_ids: Option<Seq<(PlatformId, Seq<Seq<char>>)>>,
    pub raw_properties: Option<Seq<(Seq<char>, Seq<Seq<char>>)>>,
}

impl View for TTMLMetadata {
    type V = TTMLMetadataV;

    open spec fn view(&self) -> TTMLMetadataV {
        TTMLMetadataV {
            language: opt_v(self.language),
            timing_mode: opt_v(self.timing_mode),
            songwriters: opt_views(self.songwriters),
            title: opt_views(self.title),
            artist: opt_views(self.artist),
            album: opt_views(self.album),
            isrc: opt_views(self.isrc),
            author_ids: opt_views(self.author_ids),
            author_names: opt_views(self.author_names),
            agents: match self.agents {
                Some(m) => Some(agent_entries(m)),
                None => None,
            },
            platform_ids: match self.platform_ids {
                Some(m) => Some(platform_entries(m)),
                None => None,
            },
            raw_properties: match self.raw_properties {
                Some(m) => Some(property_entries(m)),
                None => None,
            },
        }
    }
}

/// The empty metadata.
pub open spec fn empty_metadata() -> TTMLMetadataV {
    TTMLMetadataV {
        language: None,
        timing_mode: None,
        songwriters: None,
        title: None,
        artist: None,
        album: None,
        isrc: None,
        author_ids: None,
        author_names: None,
        agents: None,
        platform_ids: None,
        raw_properties: None,
    }
}

/// Pushes a string onto an optional list of strings.
fn push_str_opt(o: &mut Option<Vec<String>>, s: String)
    ensures
        opt_views(*final(o)) == opt_pushed(opt_views(*old(o)), s@),
{
    let ghost prev = *o;
    push_opt(o, s);
    proof {
        lemma_push_opt_views(prev, *o, s);
    }
}

impl TTMLMetadata {
    /// Metadata with nothing in it.
    pub fn new_empty() -> (m: TTMLMetadata)
        ensures
            m@ == empty_metadata(),
    {
        TTMLMetadata {
            language: None,
            timing_mode: None,
            songwriters: None,
            title: None,
            artist: None,
            album: None,
            isrc: None,
            author_ids: None,
            author_names: None,
            agents: None,
            platform_ids: None,
            raw_properties: None,
        }
    }

    /// Adds a title.
    pub fn push_title(&mut self, title: String)
        ensures
            final(self)@ == (TTMLMetadataV { title: opt_pushed(old(self)@.title, title@), ..old(self)@ }),
    {
        push_str_opt(&mut self.title, title);
    }

    /// Adds an artist.
    pub fn push_artist(&mut self, artist: String)
        ensures
            final(self)@ == (TTMLMetadataV { artist: opt_pushed(old(self)@.artist, artist@), ..old(self)@ }),
    {
        push_str_opt(&mut self.artist, artist);
    }

    /// Adds an album.
    pub fn push_album(&mut self, album: String)
        ensures
            final(self)@ == (TTMLMetadataV { album: opt_pushed(old(self)@.album, album@), ..old(self)@ }),
    {
        push_str_opt(&mut self.album, album);
    }

    /// Adds a songwriter.
    pub fn push_songwriter(&mut self, songwriter: String)
        ensures
            final(self)@ == (TTMLMetadataV {
                songwriters: opt_pushed(old(self)@.songwriters, songwriter@),
                ..old(self)@
            }),
    {
        push_str_opt(&mut self.songwriters, songwriter);
    }

    /// Adds an ISRC code.
    pub fn push_isrc(&mut self, isrc: String)
        ensures
            final(self)@ == (TTMLMetadataV { isrc: opt_pushed(old(self)@.isrc, isrc@), ..old(self)@ }),
    {
        push_str_opt(&mut self.isrc, isrc);
    }

    /// Adds the GitHub id of a lyric author.
    pub fn push_author_id(&mut self, author_id: String)
        ensures
            final(self)@ == (TTMLMetadataV {
                author_ids: opt_pushed(old(self)@.author_ids, author_id@),
                ..old(self)@
            }),
    {
        push_str_opt(&mut self.author_ids, author_id);
    }

    /// Adds the GitHub user name of a lyric author.
    pub fn push_author_name(&mut self, author_name: String)
        ensures
            final(self)@ == (TTMLMetadataV {
                author_names: opt_pushed(old(self)@.author_names, author_name@),
                ..old(self)@
            }),
    {
        push_str_opt(&mut self.author_names, author_name);
    }

    /// Adds a singer under its id; a singer of the same id is replaced in place.
    pub fn insert_agent(&mut self, agent: Agent)
        ensures
            final(self)@ == (TTMLMetadataV {
                agents: Some(
                    entries_insert(
                        match old(self)@.agents {
                            Some(e) => e,
                            None => Seq::empty(),
                        },
                        agent@.id,
                        agent@,
                    ),
                ),
                ..old(self)@
            }),
    {
        if self.agents.is_none() {
            self.agents = Some(agents_new());
        }
        let id = crate::text::copy_str(agent.id.as_str());
        match &mut self.agents {
            Some(m) => agents_insert(m, id, agent),
            None => {},
        }
    }

    /// Adds an id on a platform.
    pub fn push_platform_id(&mut self, platform: PlatformId, id: String)
        ensures
            final(self)@ == (TTMLMetadataV {
                platform_ids: Some(
                    entries_push(
                        match old(self)@.platform_ids {
                            Some(e) => e,
                            None => Seq::empty(),
                        },
                        platform,
                        id@,
                    ),
                ),
                ..old(self)@
            }),
    {
        if self.platform_ids.is_none() {
            self.platform_ids = Some(platforms_new());
        }
        match &mut self.platform_ids {
            Some(m) => platforms_push(m, platform, id),
            None => {},
        }
    }

    /// Adds a value to a raw property.
    pub fn push_raw_property(&mut self, key: String, value: String)
        ensures
            final(self)@ == (TTMLMetadataV {
                raw_properties: Some(
                    entries_push(
                        match old(self)@.raw_properties {
                            Some(e) => e,
                            None => Seq::empty(),
                        },
                        key@,
                        value@,
                    ),
                ),
                ..old(self)@
            }),
    {
        if self.raw_properties.is_none() {
            self.raw_properties = Some(properties_new());
        }
        match &mut self.raw_properties {
            Some(m) => properties_push(m, key, value),
            None => {},
        }
    }
}

/// What the parser gives back: the metadata and the lines.
#[derive(Debug, Default)]
pub struct TTMLResult {
    /// The metadata.
    pub metadata: TTMLMetadata,
    /// The lyric lines.
    pub lines: Vec<LyricLine>,
}

/// Mathematical model of a [`TTMLResult`].
pub struct TTMLResultV {
    pub metadata: TTMLMetadataV,
    pub lines: Seq<LyricLineV>,
}

impl View for TTMLResult {
    type V = TTMLResultV;

    open spec fn view(&self) -> TTMLResultV {
        TTMLResultV { metadata: self.metadata@, lines: views(self.lines@) }
    }
}

} // verus!
