//! The simpler data structures of AMLL.

use vstd::prelude::*;
use crate::model::{opt_v, opt_views, views};

verus! {

/// A timed word without annotations (a ruby annotation, for instance).
#[derive(Debug, Clone, Default)]
pub struct LyricWordBase {
    /// Start time in milliseconds.
    pub start_time: u32,
    /// End time in milliseconds.
    pub end_time: u32,
    /// The text.
    pub word: String,
}

/// Mathematical model of a [`LyricWordBase`].
pub struct LyricWordBaseV {
    pub start_time: u32,
    pub end_time: u32,
    pub word: Seq<char>,
}

impl View for LyricWordBase {
    type V = LyricWordBaseV;

    open spec fn view(&self) -> LyricWordBaseV {
        LyricWordBaseV { start_time: self.start_time, end_time: self.end_time, word: self.word@ }
    }
}

/// A word of an AMLL line.
#[derive(Debug, Clone, Default)]
pub struct AmllLyricWord {
    /// Start time in milliseconds.
    pub start_time: u32,
    /// End time in milliseconds.
    pub end_time: u32,
    /// The text, with its trailing space.
    pub word: String,
    /// The transliteration of the word.
    pub roman_word: Option<String>,
    /// Whether the word is obscene.
    pub obscene: Option<bool>,
    /// Number of empty beats.
    pub empty_beat: Option<u32>,
    /// Ruby annotations.
    pub ruby: Option<Vec<LyricWordBase>>,
}

/// Mathematical model of an [`AmllLyricWord`].
pub struct AmllLyricWordV {
    pub start_time: u32,
    pub end_time: u32,
    pub word: Seq<char>,
    pub roman_word: Option<Seq<char>>,
    pub obscene: Option<bool>,
    pub empty_beat: Option<u32>,
    pub ruby: Option<Seq<LyricWordBaseV>>,
}

impl View for AmllLyricWord {
    type V = AmllLyricWordV;

    open spec fn view(&self) -> AmllLyricWordV {
        AmllLyricWordV {
            start_time: self.start_time,
            end_time: self.end_time,
            word: self.word@,
            roman_word: opt_v(self.roman_word),
            obscene: self.obscene,
            empty_beat: self.empty_beat,
            ruby: opt_views(self.ruby),
        }
    }
}

/// An AMLL line: a main line or a background line.
#[derive(Debug, Clone, Default)]
pub struct AmllLyricLine {
    /// The words of the line.
    pub words: Vec<AmllLyricWord>,
    /// The translation.
    pub translated_lyric: String,
    /// The transliteration.
    pub roman_lyric: String,
    /// Whether this is a background line.
    pub is_bg: bool,
    /// Whether this is a duet line (aligned to the right).
    pub is_duet: bool,
    /// Start time in milliseconds; not always the first word's.
    pub start_time: u32,
    /// End time in milliseconds; not always the last word's.
    pub end_time: u32,
}

/// Mathematical model of an [`AmllLyricLine`].
pub struct AmllLyricLineV {
    pub words: Seq<AmllLyricWordV>,
    pub translated_lyric: Seq<char>,
    pub roman_lyric: Seq<char>,
    pub is_bg: bool,
    pub is_duet: bool,
    pub start_time: u32,
    pub end_time: u32,
}

impl View for AmllLyricLine {
    type V = AmllLyricLineV;

    open spec fn view(&self) -> AmllLyricLineV {
        AmllLyricLineV {
            words: views(self.words@),
            translated_lyric: self.translated_lyric@,
            roman_lyric: self.roman_lyric@,
            is_bg: self.is_bg,
            is_duet: self.is_duet,
            start_time: self.start_time,
            end_time: self.end_time,
        }
    }
}

/// One metadata entry: a key and its values.
#[derive(Debug, Clone, Default)]
pub struct AmllMetadata {
    /// The key.
    pub key: String,
    /// The values.
    pub value: Vec<String>,
}

/// Mathematical model of an [`AmllMetadata`].
pub struct AmllMetadataV {
    pub key: Seq<char>,
    pub value: Seq<Seq<char>>,
}

impl View for AmllMetadata {
    type V = AmllMetadataV;

    open spec fn view(&self) -> AmllMetadataV {
        AmllMetadataV { key: self.key@, value: views(self.value@) }
    }
}

/// An AMLL lyric: lines and metadata entries.
#[derive(Debug, Clone, Default)]
pub struct AmllLyricResult {
    /// The lines.
    pub lines: Vec<AmllLyricLine>,
    /// The metadata entries.
    pub metadata: Vec<AmllMetadata>,
}

/// Mathematical model of an [`AmllLyricResult`].
pub struct AmllLyricResultV {
    pub lines: Seq<AmllLyricLineV>,
    pub metadata: Seq<AmllMetadataV>,
}

impl View for AmllLyricResult {
    type V = AmllLyricResultV;

    open spec fn view(&self) -> AmllLyricResultV {
        AmllLyricResultV { lines: views(self.lines@), metadata: views(self.metadata@) }
    }
}

/// Options of the conversion of a parsed TTML lyric to AMLL.
#[derive(Debug, Clone, Default)]
pub struct TtmlToAmllOptions {
    /// The preferred language of the translation (such as `zh-Hans`); without it, or when no
    /// translation is in it, the first translation is taken.
    pub translation_language: Option<String>,
    /// The preferred language of the transliteration (such as `ja-Latn`); without it, or
    /// when no transliteration is in it, the first transliteration is taken.
    pub romanization_language: Option<String>,
}

/// Options of the conversion of an AMLL lyric to the parsed TTML structures.
#[derive(Debug, Clone, Default)]
pub struct AmllToTtmlOptions {
    /// The language of the translations; `zh-Hans` when absent.
    pub translation_language: Option<String>,
    /// The language of the transliterations; none when absent.
    pub romanization_language: Option<String>,
}

} // verus!
