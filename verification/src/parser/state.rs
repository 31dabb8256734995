//! The parser's state across tags, and the helpers that read events with it.

use vstd::prelude::*;
use vstd::utf8::{decode_utf8, encode_utf8, valid_utf8};
use crate::error::{ErrorContext, ParseErrorKind, ParseErrorKindV, TTMLProcessorError, TTMLProcessorErrorV};
use crate::maps::{entries_push, key_pos, keys_distinct, lemma_entries_push_distinct, lemma_key_pos_found};
use crate::model::{empty_metadata, opt_v, views, SubLyricContent, SubLyricContentV, TTMLMetadata, TTMLMetadataV};
use crate::text::{copy_str, str_eq};
use crate::xml::{utf8_error_message, utf8_error_text, XmlTokenV, is_final_token};

verus! {

/// Translations or transliterations collected from the head, by line id.
#[derive(Debug, Default)]
pub struct SubLyricMap {
    entries: Vec<(String, Vec<SubLyricContent>)>,
}

/// The view of one entry of a [`SubLyricMap`].
pub open spec fn sub_entry_v(e: (String, Vec<SubLyricContent>)) -> (Seq<char>, Seq<SubLyricContentV>) {
    (e.0@, views(e.1@))
}

impl View for SubLyricMap {
    type V = Seq<(Seq<char>, Seq<SubLyricContentV>)>;

    closed spec fn view(&self) -> Seq<(Seq<char>, Seq<SubLyricContentV>)> {
        self.entries@.map_values(|e: (String, Vec<SubLyricContent>)| sub_entry_v(e))
    }
}

/// The entries once the entry of key `k` is taken out.
pub open spec fn entries_remove<K, V>(e: Seq<(K, V)>, k: K) -> Seq<(K, V)> {
    let p = key_pos(e, k);
    if p >= 0 {
        e.remove(p)
    } else {
        e
    }
}

/// Taking out the entry of a key keeps the keys distinct.
pub proof fn lemma_entries_remove_distinct<K, V>(e: Seq<(K, V)>, k: K)
    requires
        keys_distinct(e),
    ensures
        keys_distinct(entries_remove(e, k)),
{
    let p = key_pos(e, k);
    if p >= 0 {
        lemma_key_pos_found(e, k);
        let r = e.remove(p);
        assert forall|i: int, j: int| 0 <= i < j < r.len() implies (#[trigger] r[i]).0 != (#[trigger] r[j]).0 by {
            let a = if i < p { i } else { i + 1 };
            let b = if j < p { j } else { j + 1 };
            assert(r[i] == e[a] && r[j] == e[b] && a < b);
        }
    }
}

/// `key_pos` is the first position holding the key.
pub proof fn lemma_key_pos<K, V>(e: Seq<(K, V)>, k: K, i: int)
    requires
        0 <= i <= e.len(),
        forall|j: int| 0 <= j < i ==> (#[trigger] e[j]).0 != k,
        i < e.len() ==> e[i].0 == k,
    ensures
        key_pos(e, k) == if i < e.len() {
            i
        } else {
            -1
        },
    decreases e.len(),
{
    if e.len() > 0 {
        if i < e.len() {
            if i < e.len() - 1 {
                lemma_key_pos(e.drop_last(), k, i);
            } else {
                lemma_key_pos(e.drop_last(), k, i);
            }
        } else {
            lemma_key_pos(e.drop_last(), k, i - 1);
        }
    }
}

impl SubLyricMap {
    /// An empty map.
    pub fn new() -> (m: SubLyricMap)
        ensures
            m@ == Seq::<(Seq<char>, Seq<SubLyricContentV>)>::empty(),
            keys_distinct(m@),
    {
        let m = SubLyricMap { entries: Vec::new() };
        assert(m@ =~= Seq::<(Seq<char>, Seq<SubLyricContentV>)>::empty());
        m
    }

    /// The position of the entry of `key`, if any.
    fn find(&self, key: &str) -> (r: Option<usize>)
        ensures
            match r {
                Some(p) => p as int == key_pos(self@, key@) && p < self@.len() && self@[p as int].0 == key@,
                None => key_pos(self@, key@) == -1,
            },
    {
        let mut i: usize = 0;
        while i < self.entries.len()
            invariant
                i <= self.entries.len(),
                forall|j: int| 0 <= j < i ==> (#[trigger] self@[j]).0 != key@,
            decreases self.entries.len() - i,
        {
            if str_eq(self.entries[i].0.as_str(), key) {
                proof {
                    lemma_key_pos(self@, key@, i as int);
                }
                return Some(i);
            }
            i = i + 1;
        }
        proof {
            lemma_key_pos(self@, key@, i as int);
        }
        None
    }

    /// Appends a content under `key` (`entry(key).or_default().push(content)`).
    pub fn push(&mut self, key: String, content: SubLyricContent)
        ensures
            final(self)@ == entries_push(old(self)@, key@, content@),
            keys_distinct(old(self)@) ==> keys_distinct(final(self)@),
    {
        proof {
            if keys_distinct(self@) {
                lemma_entries_push_distinct(self@, key@, content@);
            }
        }
        match self.find(key.as_str()) {
            Some(p) => {
                let ghost c = content@;
                self.entries[p].1.push(content);
                assert(self.entries@[p as int].0 == old(self).entries@[p as int].0);
                assert(views(self.entries@[p as int].1@) =~= views(old(self).entries@[p as int].1@).push(c));
                assert(self@[p as int] == (old(self)@[p as int].0, old(self)@[p as int].1.push(c)));
                assert(forall|j: int| 0 <= j < self@.len() && j != p ==> self.entries@[j] == old(self).entries@[j]);
                assert(self@ =~= entries_push(old(self)@, key@, c));
            },
            None => {
                let mut v = Vec::new();
                v.push(content);
                self.entries.push((key, v));
                assert(views(self.entries@.last().1@) =~= seq![content@]);
                assert(self@ =~= entries_push(old(self)@, key@, content@));
            },
        }
    }

    /// Takes out the contents under `key`.
    pub fn remove(&mut self, key: &str) -> (r: Option<Vec<SubLyricContent>>)
        ensures
            final(self)@ == entries_remove(old(self)@, key@),
            keys_distinct(old(self)@) ==> keys_distinct(final(self)@),
            match r {
                Some(v) => key_pos(old(self)@, key@) >= 0 && views(v@) == old(self)@[key_pos(
                    old(self)@,
                    key@,
                )].1,
                None => key_pos(old(self)@, key@) == -1,
            },
    {
        proof {
            if keys_distinct(self@) {
                lemma_entries_remove_distinct(self@, key@);
            }
        }
        match self.find(key) {
            Some(p) => {
                let (_, v) = self.entries.remove(p);
                assert(self@ =~= entries_remove(old(self)@, key@));
                Some(v)
            },
            None => None,
        }
    }

    /// Whether there is an entry for `key`.
    pub fn contains_key(&self, key: &str) -> (b: bool)
        ensures
            b == (key_pos(self@, key@) >= 0),
    {
        self.find(key).is_some()
    }

    /// The contents under `key`.
    pub fn get(&self, key: &str) -> (r: Option<&Vec<SubLyricContent>>)
        ensures
            match r {
                Some(v) => key_pos(self@, key@) >= 0 && views(v@) == self@[key_pos(self@, key@)].1,
                None => key_pos(self@, key@) == -1,
            },
    {
        match self.find(key) {
            Some(p) => Some(&self.entries[p].1),
            None => None,
        }
    }

    /// Whether the map is empty.
    pub fn is_empty(&self) -> (b: bool)
        ensures
            b == (self@.len() == 0),
    {
        self.entries.len() == 0
    }
}

/// The parser's state, for data that spans tags.
#[derive(Debug, Default)]
pub struct ParserContext {
    /// The metadata read so far.
    pub metadata: TTMLMetadata,
    /// Translations of main lyrics, by line id.
    pub translations_map: SubLyricMap,
    /// Transliterations of main lyrics, by line id.
    pub romanizations_map: SubLyricMap,
    /// Translations of background vocals, by line id.
    pub bg_translations_map: SubLyricMap,
    /// Transliterations of background vocals, by line id.
    pub bg_romanizations_map: SubLyricMap,
    /// The index of the current `<div>` block.
    pub current_block_index: u32,
    /// The song part of the last block.
    pub last_song_part: Option<String>,
    /// The path of open tags.
    pub tag_stack: Vec<String>,
    /// The id of the line being read.
    pub current_line_id: Option<String>,
}

/// Mathematical model of a [`ParserContext`].
pub struct ParserContextV {
    pub metadata: TTMLMetadataV,
    pub translations_map: Seq<(Seq<char>, Seq<SubLyricContentV>)>,
    pub romanizations_map: Seq<(Seq<char>, Seq<SubLyricContentV>)>,
    pub bg_translations_map: Seq<(Seq<char>, Seq<SubLyricContentV>)>,
    pub bg_romanizations_map: Seq<(Seq<char>, Seq<SubLyricContentV>)>,
    pub current_block_index: u32,
    pub last_song_part: Option<Seq<char>>,
    pub tag_stack: Seq<Seq<char>>,
    pub current_line_id: Option<Seq<char>>,
}

impl View for ParserContext {
    type V = ParserContextV;

    open spec fn view(&self) -> ParserContextV {
        ParserContextV {
            metadata: self.metadata@,
            translations_map: self.translations_map@,
            romanizations_map: self.romanizations_map@,
            bg_translations_map: self.bg_translations_map@,
            bg_romanizations_map: self.bg_romanizations_map@,
            current_block_index: self.current_block_index,
            last_song_part: opt_v(self.last_song_part),
            tag_stack: views(self.tag_stack@),
            current_line_id: opt_v(self.current_line_id),
        }
    }
}

/// The state at the start of a document.
pub open spec fn initial_context() -> ParserContextV {
    ParserContextV {
        metadata: empty_metadata(),
        translations_map: Seq::empty(),
        romanizations_map: Seq::empty(),
        bg_translations_map: Seq::empty(),
        bg_romanizations_map: Seq::empty(),
        current_block_index: 0,
        last_song_part: None,
        tag_stack: Seq::empty(),
        current_line_id: None,
    }
}

impl ParserContext {
    /// The state at the start of a document.
    pub fn new() -> (c: ParserContext)
        ensures
            c@ == initial_context(),
    {
        let c = ParserContext {
            metadata: TTMLMetadata::new_empty(),
            translations_map: SubLyricMap::new(),
            romanizations_map: SubLyricMap::new(),
            bg_translations_map: SubLyricMap::new(),
            bg_romanizations_map: SubLyricMap::new(),
            current_block_index: 0,
            last_song_part: None,
            tag_stack: Vec::new(),
            current_line_id: None,
        };
        assert(c@.tag_stack =~= Seq::<Seq<char>>::empty());
        c
    }
}

/// The event at `i`; past the end, the end of the document.
pub open spec fn tok(tv: Seq<XmlTokenV>, i: int) -> XmlTokenV {
    if 0 <= i < tv.len() {
        tv[i]
    } else {
        XmlTokenV::Eof { pos: 0 }
    }
}

/// A stream of events as a reader hands them out: it ends with the end of the document or an
/// error, which come nowhere before.
pub open spec fn tokens_wf(tv: Seq<XmlTokenV>) -> bool {
    &&& tv.len() > 0
    &&& is_final_token(tv.last())
    &&& forall|k: int| 0 <= k < tv.len() - 1 ==> !is_final_token(#[trigger] tv[k])
}

/// The text of bytes that are valid UTF-8.
pub open spec fn utf8_text(b: Seq<u8>) -> Option<Seq<char>> {
    if valid_utf8(b) {
        Some(decode_utf8(b))
    } else {
        None
    }
}

/// Whether a raw tag name is the given name.
pub open spec fn name_is(b: Seq<u8>, s: Seq<char>) -> bool {
    b == encode_utf8(s)
}

/// A parse error raised with the current state.
pub open spec fn ctx_err(
    kind: ParseErrorKindV,
    pos: u64,
    ctx: ParserContextV,
    attr: Option<Seq<char>>,
    offending: Option<Seq<char>>,
) -> TTMLProcessorErrorV {
    TTMLProcessorErrorV::ParseError {
        kind,
        context: crate::error::ErrorContextV {
            byte_offset: pos,
            line_id: ctx.current_line_id,
            tag_stack: ctx.tag_stack,
            current_attribute: attr,
            offending_string: offending,
        },
    }
}

/// The state with one more open tag.
pub open spec fn push_tag(ctx: ParserContextV, name: Seq<char>) -> ParserContextV {
    ParserContextV { tag_stack: ctx.tag_stack.push(name), ..ctx }
}

/// The state with the innermost open tag closed.
pub open spec fn pop_tag(ctx: ParserContextV) -> ParserContextV {
    if ctx.tag_stack.len() > 0 {
        ParserContextV { tag_stack: ctx.tag_stack.drop_last(), ..ctx }
    } else {
        ctx
    }
}

/// A copy of the strings of a vector.
pub fn copy_strings(v: &Vec<String>) -> (r: Vec<String>)
    ensures
        views(r@) == views(v@),
{
    let mut r: Vec<String> = Vec::new();
    let mut i: usize = 0;
    while i < v.len()
        invariant
            i <= v.len(),
            views(r@) == views(v@.take(i as int)),
        decreases v.len() - i,
    {
        let c = copy_str(v[i].as_str());
        let ghost prev = r@;
        r.push(c);
        assert(views(r@) =~= views(prev).push(v@[i as int]@));
        assert(v@.take(i + 1) =~= v@.take(i as int).push(v@[i as int]));
        assert(views(v@.take(i + 1)) =~= views(v@.take(i as int)).push(v@[i as int]@));
        i = i + 1;
    }
    assert(v@.take(i as int) =~= v@);
    r
}

/// A copy of an optional string.
pub fn copy_opt_str(o: &Option<String>) -> (r: Option<String>)
    ensures
        opt_v(r) == opt_v(*o),
{
    match o {
        Some(s) => Some(copy_str(s.as_str())),
        None => None,
    }
}

/// A parse error raised with the current state.
pub fn make_err(
    kind: ParseErrorKind,
    pos: u64,
    ctx: &ParserContext,
    attr: Option<String>,
    offending: Option<String>,
) -> (e: TTMLProcessorError)
    ensures
        e@ == ctx_err(kind@, pos, ctx@, opt_v(attr), opt_v(offending)),
{
    TTMLProcessorError::ParseError {
        kind,
        context: Box::new(
            ErrorContext {
                byte_offset: pos,
                line_id: copy_opt_str(&ctx.current_line_id),
                tag_stack: copy_strings(&ctx.tag_stack),
                current_attribute: attr,
                offending_string: offending,
            },
        ),
    }
}

/// Opens a tag.
pub fn push_tag_exec(ctx: &mut ParserContext, name: &str)
    ensures
        final(ctx)@ == push_tag(old(ctx)@, name@),
{
    ctx.tag_stack.push(copy_str(name));
    assert(final(ctx)@.tag_stack =~= old(ctx)@.tag_stack.push(name@));
}

/// Closes the innermost open tag.
pub fn pop_tag_exec(ctx: &mut ParserContext)
    ensures
        final(ctx)@ == pop_tag(old(ctx)@),
{
    let _ = ctx.tag_stack.pop();
    assert(final(ctx)@.tag_stack =~= pop_tag(old(ctx)@).tag_stack);
}

/// Whether two byte strings are equal.
pub fn bytes_eq(a: &[u8], b: &[u8]) -> (r: bool)
    ensures
        r == (a@ == b@),
{
    if a.len() != b.len() {
        return false;
    }
    let mut i: usize = 0;
    while i < a.len()
        invariant
            i <= a.len() == b.len(),
            forall|j: int| 0 <= j < i ==> a@[j] == b@[j],
        decreases a.len() - i,
    {
        if a[i] != b[i] {
            return false;
        }
        i = i + 1;
    }
    assert(a@ =~= b@);
    true
}

/// Comparison of a raw tag or attribute name with a name.
pub trait QNameExt {
    /// Whether the raw name is `tag`.
    fn is(&self, tag: &str) -> bool;
}

impl QNameExt for Vec<u8> {
    fn is(&self, tag: &str) -> (r: bool)
        ensures
            r == name_is(self@, tag@),
    {
        bytes_eq(self.as_slice(), tag.as_bytes())
    }
}

/// The error of bytes that are not UTF-8, with the message of the decoding error.
pub open spec fn utf8_err(b: Seq<u8>) -> TTMLProcessorErrorV {
    TTMLProcessorErrorV::Utf8Error(utf8_error_text(b))
}

/// The text of a raw tag name or text, or the UTF-8 error.
pub fn utf8_exec(b: &[u8]) -> (r: Result<String, TTMLProcessorError>)
    ensures
        match r {
            Ok(s) => utf8_text(b@) == Some(s@),
            Err(e) => utf8_text(b@) is None && e@ == utf8_err(b@),
        },
{
    match core::str::from_utf8(b) {
        Ok(s) => Ok(copy_str(s)),
        Err(_) => Err(TTMLProcessorError::Utf8Error(utf8_error_message(b))),
    }
}

} // verus!
