//! Text normalisation of lyric lines and syllables.

use vstd::prelude::*;
use crate::model::{Syllable, SyllableV, views};
use crate::text::{str_has_char, lemma_trim_start_len, lemma_trim_end_len, is_ws, is_whitespace, trim_s, trim_start_s, trim_end_s, str_chars, trim_range, string_from_chars, push_str_chars};

verus! {

/// An opening parenthesis, ASCII or full-width.
pub open spec fn is_open_paren(c: char) -> bool {
    c == '(' || c == '（'
}

/// A closing parenthesis, ASCII or full-width.
pub open spec fn is_close_paren(c: char) -> bool {
    c == ')' || c == '）'
}

/// What is left of `s` once one pair of outer parentheses is taken off: `None` unless the
/// trimmed text starts with an opening and ends with a closing parenthesis.
pub open spec fn spec_strip_outer_parens(s: Seq<char>) -> Option<Seq<char>> {
    let t = trim_s(s);
    if t.len() > 0 && is_open_paren(t[0]) && is_close_paren(t.last()) {
        Some(trim_s(t.subrange(1, t.len() - 1)))
    } else {
        None
    }
}

/// Removes one pair of parentheses around the trimmed text, and the whitespace inside them.
pub fn strip_outer_parens_str(text: &str) -> (r: Option<&str>)
    ensures
        match spec_strip_outer_parens(text@) {
            Some(s) => r is Some && r->0@ == s,
            None => r is None,
        },
{
    let cs = str_chars(text);
    let (a, b) = trim_range(&cs, 0, cs.len());
    proof {
        assert(cs@.subrange(0, cs@.len() as int) =~= cs@);
    }
    if b > a && (cs[a] == '(' || cs[a] == '（') && (cs[b - 1] == ')' || cs[b - 1] == '）') {
        let ghost t = cs@.subrange(a as int, b as int);
        assert(t[0] == cs@[a as int]);
        assert(t.last() == cs@[b - 1]);
        let (c, d) = trim_range(&cs, a + 1, b - 1);
        assert(t.subrange(1, t.len() - 1) =~= cs@.subrange(a + 1, b - 1));
        Some(text.substring_char(c, d))
    } else {
        proof {
            let t = cs@.subrange(a as int, b as int);
            if t.len() > 0 {
                assert(t[0] == cs@[a as int]);
                assert(t.last() == cs@[b - 1]);
            }
        }
        None
    }
}

/// Removes one pair of parentheses around the trimmed text, and the whitespace inside them;
/// leaves the text as it is when it is not wrapped in parentheses.
pub fn strip_outer_parens(text: &mut String)
    ensures
        final(text)@ == match spec_strip_outer_parens(old(text)@) {
            Some(s) => s,
            None => old(text)@,
        },
{
    let stripped = match strip_outer_parens_str(text.as_str()) {
        Some(s) => Some(s.to_owned()),
        None => None,
    };
    if let Some(s) = stripped {
        *text = s;
    }
}

/// The text of syllables joined in order, each followed by a space when `always_space` or its
/// `ends_with_space` flag asks for one.
pub open spec fn joined_text(ws: Seq<SyllableV>, always_space: bool) -> Seq<char>
    decreases ws.len(),
{
    if ws.len() == 0 {
        Seq::empty()
    } else {
        joined_text(ws.drop_last(), always_space) + ws.last().text + if always_space
            || ws.last().ends_with_space == Some(true) {
            seq![' ']
        } else {
            Seq::empty()
        }
    }
}

/// `s` without its trailing ASCII spaces.
pub open spec fn strip_trailing_spaces(s: Seq<char>) -> Seq<char>
    decreases s.len(),
{
    if s.len() > 0 && s.last() == ' ' {
        strip_trailing_spaces(s.drop_last())
    } else {
        s
    }
}

/// The plain text of a run of syllables.
pub open spec fn spec_full_text(ws: Seq<SyllableV>, always_space: bool) -> Seq<char> {
    strip_trailing_spaces(joined_text(ws, always_space))
}

/// Builds the plain text of the given syllables: their texts joined, a space after each one
/// whose `ends_with_space` is set (after every one when `always_space`), trailing spaces removed.
pub fn build_full_text(words: &[Syllable], always_space: bool) -> (r: String)
    ensures
        r@ == spec_full_text(views(words@), always_space),
{
    let mut buf: Vec<char> = Vec::new();
    let mut i: usize = 0;
    while i < words.len()
        invariant
            i <= words.len(),
            buf@ == joined_text(views(words@.take(i as int)), always_space),
        decreases words.len() - i,
    {
        push_str_chars(&mut buf, words[i].text.as_str());
        if always_space || words[i].ends_with_space == Some(true) {
            buf.push(' ');
        }
        assert(views(words@.take(i + 1)).drop_last() =~= views(words@.take(i as int)));
        i = i + 1;
    }
    assert(words@.take(i as int) =~= words@);
    let mut end = buf.len();
    assert(buf@.take(end as int) =~= buf@);
    while end > 0 && buf[end - 1] == ' '
        invariant
            end <= buf.len(),
            strip_trailing_spaces(buf@.take(end as int)) == strip_trailing_spaces(buf@),
        decreases end,
    {
        assert(buf@.take(end as int).drop_last() =~= buf@.take(end - 1));
        end = end - 1;
    }
    assert(buf@.take(end as int) =~= buf@.subrange(0, end as int));
    string_from_chars(&buf, 0, end)
}

/// Left-to-right pass of whitespace folding: the characters kept so far, and whether the last
/// character seen was whitespace (true at the start, so leading whitespace is dropped).
pub open spec fn fold_ws(s: Seq<char>) -> (Seq<char>, bool)
    decreases s.len(),
{
    if s.len() == 0 {
        (Seq::empty(), true)
    } else {
        let (acc, last_was_space) = fold_ws(s.drop_last());
        let c = s.last();
        if is_ws(c) {
            if !last_was_space {
                (acc.push(' '), true)
            } else {
                (acc, true)
            }
        } else {
            (acc.push(c), false)
        }
    }
}

/// `s` with each run of whitespace folded into one space and no space at either end.
pub open spec fn spec_normalize_line_text(s: Seq<char>) -> Seq<char> {
    let acc = fold_ws(s).0;
    if acc.len() > 0 && acc.last() == ' ' {
        acc.drop_last()
    } else {
        acc
    }
}

/// Folds each run of whitespace into one space and drops whitespace at both ends.
pub fn normalize_line_text(text: &mut String)
    ensures
        final(text)@ == spec_normalize_line_text(old(text)@),
{
    let cs = str_chars(text.as_str());
    let mut acc: Vec<char> = Vec::new();
    let mut last_was_space = true;
    let mut i: usize = 0;
    while i < cs.len()
        invariant
            i <= cs.len(),
            (acc@, last_was_space) == fold_ws(cs@.take(i as int)),
        decreases cs.len() - i,
    {
        let c = cs[i];
        assert(cs@.take(i + 1).drop_last() =~= cs@.take(i as int));
        if is_whitespace(c) {
            if !last_was_space {
                acc.push(' ');
                last_was_space = true;
            }
        } else {
            acc.push(c);
            last_was_space = false;
        }
        i = i + 1;
    }
    assert(cs@.take(i as int) =~= old(text)@);
    let n = acc.len();
    if n > 0 && acc[n - 1] == ' ' {
        *text = string_from_chars(&acc, 0, n - 1);
        assert(acc@.subrange(0, n - 1) =~= acc@.drop_last());
    } else {
        *text = string_from_chars(&acc, 0, n);
        assert(acc@.subrange(0, n as int) =~= acc@);
    }
}

/// Whether `t` starts with whitespace.
pub open spec fn has_leading_ws(t: Seq<char>) -> bool {
    t.len() > 0 && is_ws(t[0])
}

/// Whether `t` ends with whitespace and holds something else too.
pub open spec fn has_trailing_ws(t: Seq<char>) -> bool {
    t.len() > 0 && is_ws(t.last()) && trim_s(t).len() > 0
}

/// Syllable `i` once whitespace is moved out of the texts into the `ends_with_space` flags:
/// its text trimmed, and flagged when its own text ends with whitespace or the next one
/// starts with whitespace.
pub open spec fn spaced_word(ws: Seq<SyllableV>, i: int) -> SyllableV {
    SyllableV {
        text: trim_s(ws[i].text),
        ends_with_space: if has_trailing_ws(ws[i].text) || (i + 1 < ws.len() && has_leading_ws(
            ws[i + 1].text,
        )) {
            Some(true)
        } else {
            ws[i].ends_with_space
        },
        ..ws[i]
    }
}

/// The state after the first `k` syllables were handled: those before `k - 1` are done,
/// syllable `k - 1` still awaits the look at syllable `k`.
pub open spec fn spaced_prefix(ws: Seq<SyllableV>, k: int, j: int) -> SyllableV {
    if j + 1 < k {
        spaced_word(ws, j)
    } else if j + 1 == k {
        SyllableV {
            text: trim_s(ws[j].text),
            ends_with_space: if has_trailing_ws(ws[j].text) {
                Some(true)
            } else {
                ws[j].ends_with_space
            },
            ..ws[j]
        }
    } else {
        ws[j]
    }
}

/// Moves the whitespace around each syllable's text into `ends_with_space` flags: leading
/// whitespace flags the previous syllable, trailing whitespace flags the syllable itself, and
/// the text is trimmed. Blank syllables are kept, with an empty text.
pub fn normalize_words_spaces(words: &mut Vec<Syllable>)
    ensures
        final(words).len() == old(words).len(),
        forall|i: int|
            0 <= i < old(words).len() ==> #[trigger] final(words)@[i]@ == spaced_word(
                views(old(words)@),
                i,
            ),
{
    let ghost orig = views(words@);
    let n = words.len();
    let mut i: usize = 0;
    while i < n
        invariant
            i <= n == words.len() == orig.len(),
            orig == views(old(words)@),
            forall|j: int| 0 <= j < n ==> #[trigger] words@[j]@ == spaced_prefix(orig, i as int, j),
        decreases n - i,
    {
        let cs = str_chars(words[i].text.as_str());
        let (a, b) = trim_range(&cs, 0, cs.len());
        assert(cs@.subrange(0, cs@.len() as int) =~= cs@);
        assert(words@[i as int]@ == orig[i as int]);
        let ghost t = orig[i as int].text;
        proof {
            lemma_trim_start_len(t);
            lemma_trim_end_len(trim_start_s(t));
            if t.len() == 0 {
                assert(trim_s(t) =~= t);
            }
            if trim_start_s(t).len() > 0 {
                assert(trim_start_s(t).last() == t.last());
            }
        }
        let leading = a > 0;
        let trailing = b < cs.len() && b > a;
        assert(leading == has_leading_ws(t));
        assert(trailing == has_trailing_ws(t));
        if leading && i > 0 {
            set_prev_space(words, i - 1);
        }
        if trailing {
            words[i].ends_with_space = Some(true);
        }
        words[i].text = string_from_chars(&cs, a, b);
        i = i + 1;
    }
    assert forall|j: int| 0 <= j < n implies #[trigger] words@[j]@ == spaced_word(orig, j) by {
        assert(words@[j]@ == spaced_prefix(orig, n as int, j));
    }
}

fn set_prev_space(words: &mut Vec<Syllable>, i: usize)
    requires
        i < old(words).len(),
    ensures
        final(words).len() == old(words).len(),
        forall|j: int|
            0 <= j < old(words).len() && j != i ==> #[trigger] final(words)@[j] == old(words)@[j],
        final(words)@[i as int]@ == (SyllableV {
            ends_with_space: Some(true),
            ..old(words)@[i as int]@
        }),
{
    words[i].ends_with_space = Some(true);
}

/// `s` without its character at `k`.
pub open spec fn remove_at(s: Seq<char>, k: int) -> Seq<char> {
    s.subrange(0, k) + s.subrange(k + 1, s.len() as int)
}

/// A string of `v` without its character at `k`.
fn string_without(v: &Vec<char>, k: usize) -> (s: String)
    requires
        k < v.len(),
    ensures
        s@ == remove_at(v@, k as int),
{
    let mut s = String::new();
    let mut i: usize = 0;
    while i < v.len()
        invariant
            i <= v.len(),
            k < v.len(),
            s@ == (if i <= k {
                v@.subrange(0, i as int)
            } else {
                remove_at(v@.subrange(0, i as int), k as int)
            }),
        decreases v.len() - i,
    {
        if i != k {
            s.push(v[i]);
        }
        i = i + 1;
        assert(i > k ==> remove_at(v@.subrange(0, i as int), k as int) =~= (if i == k + 1 {
            v@.subrange(0, k as int)
        } else {
            remove_at(v@.subrange(0, i - 1), k as int).push(v@[i - 1])
        }));
        assert(i <= k ==> v@.subrange(0, i as int) =~= v@.subrange(0, i - 1).push(v@[i - 1]));
    }
    assert(v@.subrange(0, i as int) =~= v@);
    s
}

/// Whether a syllable's text opens with a parenthesis after its leading whitespace.
pub open spec fn opens_with_paren(t: Seq<char>) -> bool {
    trim_start_s(t).len() > 0 && is_open_paren(trim_start_s(t)[0])
}

/// Whether a syllable's text closes with a parenthesis before its trailing whitespace.
pub open spec fn closes_with_paren(t: Seq<char>) -> bool {
    trim_end_s(t).len() > 0 && is_close_paren(trim_end_s(t).last())
}

/// The syllables once the parentheses around all of them are taken off: a single syllable is
/// stripped as a whole text; of several, the first loses its opening parenthesis and the last
/// its closing one, when both are there.
pub open spec fn spec_strip_parens_words(ws: Seq<SyllableV>) -> Seq<SyllableV> {
    if ws.len() == 0 {
        ws
    } else if ws.len() == 1 {
        match spec_strip_outer_parens(ws[0].text) {
            Some(t) => ws.update(0, SyllableV { text: t, ..ws[0] }),
            None => ws,
        }
    } else if opens_with_paren(ws[0].text) && closes_with_paren(ws.last().text) {
        let first = ws[0].text;
        let last = ws.last().text;
        ws.update(
            0,
            SyllableV { text: remove_at(first, first.len() - trim_start_s(first).len()), ..ws[0] },
        ).update(
            ws.len() - 1,
            SyllableV { text: remove_at(last, trim_end_s(last).len() - 1), ..ws.last() },
        )
    } else {
        ws
    }
}

/// Removes the parentheses that wrap a run of syllables.
pub fn strip_outer_parens_from_words(words: &mut Vec<Syllable>)
    ensures
        views(final(words)@) == spec_strip_parens_words(views(old(words)@)),
{
    let ghost orig = views(words@);
    let n = words.len();
    if n == 0 {
        return;
    }
    if n == 1 {
        strip_outer_parens(&mut words[0].text);
        assert(views(words@) =~= spec_strip_parens_words(orig));
        return;
    }
    let first = str_chars(words[0].text.as_str());
    let last = str_chars(words[n - 1].text.as_str());
    let (fa, _fb) = trim_range(&first, 0, first.len());
    let (_la, lb) = trim_range(&last, 0, last.len());
    let ghost ft = orig[0].text;
    let ghost lt = orig[n - 1].text;
    proof {
        assert(first@.subrange(0, first.len() as int) =~= ft);
        assert(last@.subrange(0, last.len() as int) =~= lt);
        lemma_trim_start_len(ft);
        lemma_trim_end_len(lt);
        lemma_trim_start_len(lt);
        lemma_trim_end_len(trim_start_s(lt));
    }
    let left = fa < first.len() && (first[fa] == '(' || first[fa] == '（');
    assert(trim_start_s(ft) == first@.subrange(fa as int, first.len() as int));
    assert(left == opens_with_paren(ft)) by {
        if fa < first.len() {
            assert(trim_start_s(ft)[0] == first@[fa as int]);
        }
    }
    // the last trimmed character of `last`
    let ghost te = trim_end_s(lt);
    let mut e = last.len();
    while e > 0 && is_whitespace(last[e - 1])
        invariant
            e <= last.len(),
            last@ == lt,
            trim_end_s(last@.subrange(0, e as int)) == te,
        decreases e,
    {
        assert(last@.subrange(0, e as int).drop_last() =~= last@.subrange(0, e - 1));
        e = e - 1;
    }
    assert(last@.subrange(0, last.len() as int) =~= lt);
    assert(te == last@.subrange(0, e as int));
    let right = e > 0 && (last[e - 1] == ')' || last[e - 1] == '）');
    assert(right == closes_with_paren(lt)) by {
        if e > 0 {
            assert(te.last() == last@[e - 1]);
        }
    }
    if left && right {
        proof {
            lemma_trim_start_len(ft);
        }
        words[0].text = string_without(&first, fa);
        words[n - 1].text = string_without(&last, e - 1);
        assert(views(words@) =~= spec_strip_parens_words(orig));
    } else {
        assert(views(words@) =~= spec_strip_parens_words(orig));
    }
}

/// Whether a text between syllables stands for a space: not empty and holding no line break
/// (a line break comes from pretty-printed XML).
pub fn is_spacing_text(text: &str) -> (b: bool)
    ensures
        b == (text@.len() > 0 && !text@.contains('\n')),
{
    let cs = str_chars(text);
    cs.len() > 0 && !str_has_char(text, '\n')
}

/// Flags the last syllable of the run as followed by a space.
pub fn mark_slice_last_space(words: &mut Vec<Syllable>)
    ensures
        final(words).len() == old(words).len(),
        old(words).len() > 0 ==> views(final(words)@) == views(old(words)@).update(
            old(words).len() - 1,
            SyllableV { ends_with_space: Some(true), ..old(words)@.last()@ },
        ),
        old(words).len() == 0 ==> final(words)@ == old(words)@,
{
    let n = words.len();
    if n > 0 {
        let ghost orig = views(words@);
        words[n - 1].ends_with_space = Some(true);
        assert(views(words@) =~= orig.update(
            n - 1,
            SyllableV { ends_with_space: Some(true), ..old(words)@.last()@ },
        ));
    }
}

/// Whether a text is in normalised form: its only whitespace are single spaces, each between
/// two other characters.
pub open spec fn is_normalized_text(s: Seq<char>) -> bool {
    forall|i: int|
        0 <= i < s.len() && is_ws(#[trigger] s[i]) ==> s[i] == ' ' && 0 < i < s.len() - 1 && !is_ws(s[i - 1])
            && !is_ws(s[i + 1])
}

/// Whether every whitespace of a text is a single space after another character (and before
/// one, when not last).
pub open spec fn spaced_shape(s: Seq<char>) -> bool {
    forall|i: int|
        0 <= i < s.len() && is_ws(#[trigger] s[i]) ==> s[i] == ' ' && i > 0 && !is_ws(s[i - 1]) && (i + 1
            < s.len() ==> !is_ws(s[i + 1]))
}

proof fn lemma_fold_ws_shape(s: Seq<char>)
    ensures
        spaced_shape(fold_ws(s).0),
        fold_ws(s).1 == (fold_ws(s).0.len() == 0 || fold_ws(s).0.last() == ' '),
    decreases s.len(),
{
    if s.len() > 0 {
        lemma_fold_ws_shape(s.drop_last());
        let (acc, lws) = fold_ws(s.drop_last());
        let c = s.last();
        let acc2 = fold_ws(s).0;
        assert forall|i: int| 0 <= i < acc2.len() && is_ws(#[trigger] acc2[i]) implies acc2[i] == ' ' && i > 0
            && !is_ws(acc2[i - 1]) && (i + 1 < acc2.len() ==> !is_ws(acc2[i + 1])) by {
            if i < acc.len() {
                assert(acc2[i] == acc[i]);
                if i + 1 < acc.len() {
                    assert(acc2[i + 1] == acc[i + 1]);
                }
                if i > 0 {
                    assert(acc2[i - 1] == acc[i - 1]);
                }
            } else {
                assert(acc.len() > 0);
                assert(acc2[i - 1] == acc.last());
                if is_ws(acc.last()) {
                    assert(acc[acc.len() - 1] == ' ');
                }
            }
        }
    }
}

proof fn lemma_fold_ws_fixed(s: Seq<char>)
    requires
        spaced_shape(s),
    ensures
        fold_ws(s) == (s, s.len() == 0 || s.last() == ' '),
    decreases s.len(),
{
    if s.len() > 0 {
        let p = s.drop_last();
        assert(spaced_shape(p)) by {
            assert forall|i: int| 0 <= i < p.len() && is_ws(#[trigger] p[i]) implies p[i] == ' ' && i > 0
                && !is_ws(p[i - 1]) && (i + 1 < p.len() ==> !is_ws(p[i + 1])) by {
                assert(s[i] == p[i]);
                assert(is_ws(s[i]));
            }
        }
        lemma_fold_ws_fixed(p);
        if is_ws(s.last()) {
            assert(s[s.len() - 1] == ' ');
            assert(!is_ws(s[s.len() - 2]));
            assert(p.last() == s[s.len() - 2]);
        }
        assert(p.push(s.last()) =~= s);
    }
}

/// Normalising a line text gives a normalised text, and normalising it again changes
/// nothing.
pub proof fn lemma_normalize_line_text_idempotent(s: Seq<char>)
    ensures
        is_normalized_text(spec_normalize_line_text(s)),
        spec_normalize_line_text(spec_normalize_line_text(s)) == spec_normalize_line_text(s),
{
    lemma_fold_ws_shape(s);
    let acc = fold_ws(s).0;
    let n = spec_normalize_line_text(s);
    assert(spaced_shape(n)) by {
        assert forall|i: int| 0 <= i < n.len() && is_ws(#[trigger] n[i]) implies n[i] == ' ' && i > 0 && !is_ws(
            n[i - 1],
        ) && (i + 1 < n.len() ==> !is_ws(n[i + 1])) by {
            assert(n[i] == acc[i]);
            assert(n[i - 1] == acc[i - 1]);
            if i + 1 < n.len() {
                assert(n[i + 1] == acc[i + 1]);
            }
        }
    }
    assert(n.len() == 0 || n.last() != ' ') by {
        if n.len() > 0 && acc.len() > 0 && acc.last() == ' ' {
            assert(n.last() == acc[acc.len() - 2]);
            assert(is_ws(acc[acc.len() - 1]));
        }
    }
    assert(is_normalized_text(n)) by {
        assert forall|i: int| 0 <= i < n.len() && is_ws(#[trigger] n[i]) implies n[i] == ' ' && 0 < i < n.len() - 1
            && !is_ws(n[i - 1]) && !is_ws(n[i + 1]) by {
            if i == n.len() - 1 {
                assert(n.last() == ' ');
            }
        }
    }
    lemma_fold_ws_fixed(n);
}

proof fn lemma_trim_start_head(t: Seq<char>)
    ensures
        trim_start_s(t).len() > 0 ==> !is_ws(trim_start_s(t)[0]),
    decreases t.len(),
{
    if t.len() > 0 && is_ws(t[0]) {
        lemma_trim_start_head(t.drop_first());
    }
}

proof fn lemma_trim_end_tail(t: Seq<char>)
    ensures
        trim_end_s(t).len() > 0 ==> !is_ws(trim_end_s(t).last()),
    decreases t.len(),
{
    if t.len() > 0 && is_ws(t.last()) {
        lemma_trim_end_tail(t.drop_last());
    }
}

/// Trimming a trimmed text changes nothing.
pub proof fn lemma_trim_idempotent(t: Seq<char>)
    ensures
        trim_s(trim_s(t)) == trim_s(t),
{
    let u = trim_start_s(t);
    lemma_trim_start_head(t);
    lemma_trim_end_len(u);
    let v = trim_end_s(u);
    lemma_trim_end_tail(u);
    lemma_trim_start_len(v);
    lemma_trim_end_len(v);
    if v.len() > 0 {
        assert(v[0] == u[0]);
        assert(!is_ws(v[0]));
        assert(trim_start_s(v) == v);
    } else {
        assert(trim_start_s(v) == v);
    }
}

/// Once the whitespace is moved into the flags, no syllable text starts or ends with
/// whitespace, and no syllable is lost.
pub proof fn lemma_spaced_words_trimmed(ws: Seq<SyllableV>)
    ensures
        crate::model::spaced_words(ws).len() == ws.len(),
        forall|i: int|
            0 <= i < ws.len() ==> trim_s(#[trigger] crate::model::spaced_words(ws)[i].text)
                == crate::model::spaced_words(ws)[i].text,
{
    assert forall|i: int| 0 <= i < ws.len() implies trim_s(#[trigger] crate::model::spaced_words(ws)[i].text)
        == crate::model::spaced_words(ws)[i].text by {
        lemma_trim_idempotent(ws[i].text);
    }
}

proof fn lemma_strip_trailing_spaces(s: Seq<char>)
    ensures
        strip_trailing_spaces(s).len() == 0 || strip_trailing_spaces(s).last() != ' ',
    decreases s.len(),
{
    if s.len() > 0 && s.last() == ' ' {
        lemma_strip_trailing_spaces(s.drop_last());
    }
}

/// The plain text built from syllables never ends with a space.
pub proof fn lemma_full_text_no_trailing_space(ws: Seq<SyllableV>, always_space: bool)
    ensures
        spec_full_text(ws, always_space).len() == 0 || spec_full_text(ws, always_space).last() != ' ',
{
    lemma_strip_trailing_spaces(joined_text(ws, always_space));
}

} // verus!
