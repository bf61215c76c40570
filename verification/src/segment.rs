//! Line breaking for text layout: where lines may break, the segments between breaks, and
//! the word-level refinements for Chinese text and hyphenation.

use vstd::prelude::*;
use core::ops::Range;
use hypher::Lang;
use vstd::utf8::encode_utf8;
use vstd::slice::{slice_subrange, slice_to_vec};
use crate::text::{
    ascii_lower, byte_offset, first_ink_from, is_white_space, last_ink_end_from, char_byte_offsets, chars_of, index_of_offset, is_char_offset,
    lemma_byte_offset_bounds, lemma_encode_utf8_concat, lemma_offset_index_exact,
    lemma_offset_index_order, lemma_subrange_bytes, offset_index, string_from_chars, to_ascii_lower,
    trim_range, trimmed,
};
use crate::unicode::{
    alphabetic, concat_all, hyphenate, hypher_lang, hypher_lang_from_iso, hypher_syllables, icu_line_break_offsets, icu_line_breaks,
    is_alphabetic, jieba_cut, jieba_words, line_break_class, line_break_class_of, script_code,
    script_code_of,
};

verus! {

broadcast use vstd::string::group_string_axioms;

/// A line break candidate with its byte offset and whether it is mandatory.
#[derive(Debug, Clone, Copy, PartialEq, Eq, Structural)]
pub struct LineBreakOpportunity {
    pub offset: usize,
    pub is_mandatory: bool,
}

/// Synthetic suffix to render only when a line actually breaks here.
#[derive(Debug, Clone, Copy, PartialEq, Eq, Structural)]
pub enum LineBreakSuffix {
    Hyphen,
}

impl LineBreakSuffix {
    /// The text of the suffix.
    pub open spec fn spec_str(self) -> Seq<char> {
        match self {
            LineBreakSuffix::Hyphen => seq!['-'],
        }
    }

    /// The text of the suffix, such as `-`.
    pub fn as_str(self) -> (r: &'static str)
        ensures
            r@ == self.spec_str(),
    {
        match self {
            LineBreakSuffix::Hyphen => {
                proof {
                    reveal_strlit("-");
                }
                "-"
            },
        }
    }
}

/// A trimmed line segment ready for shaping.
#[derive(Debug, PartialEq, Eq)]
pub struct LineSegment {
    /// Range of visible text for this segment, excluding trailing mandatory break chars.
    pub range: Range<usize>,
    /// Byte offset where the next segment begins in the original string.
    pub next_offset: usize,
    /// Whether this segment ends with a mandatory break in the original text.
    pub is_mandatory: bool,
    /// Suffix to draw if this segment is the final segment on a wrapped line.
    pub break_suffix: Option<LineBreakSuffix>,
}

impl Clone for LineSegment {
    fn clone(&self) -> (r: Self)
        ensures
            r == *self,
    {
        LineSegment {
            range: Range { start: self.range.start, end: self.range.end },
            next_offset: self.next_offset,
            is_mandatory: self.is_mandatory,
            break_suffix: self.break_suffix,
        }
    }
}

/// Whether `c` ends a line by itself: line feed, carriage return, next line, line
/// separator or paragraph separator.
pub open spec fn is_mandatory_break_char(c: char) -> bool {
    c == '\n' || c == '\r' || c == '\u{85}' || c == '\u{2028}' || c == '\u{2029}'
}

/// Where trimming mandatory break chars off the chars of `t` before index `e` stops: it
/// goes back while the char before is a mandatory break char and still ends past byte `start`.
pub open spec fn trim_breaks_from(t: Seq<char>, start: int, e: int) -> int
    decreases e,
{
    if 0 < e <= t.len() && byte_offset(t, e) > start && is_mandatory_break_char(t[e - 1]) {
        trim_breaks_from(t, start, e - 1)
    } else {
        e
    }
}

/// The byte offset that ends the segment `start..end` of `t` once the mandatory break chars
/// that end it are trimmed off (`end` itself when the segment is empty).
pub open spec fn trimmed_break_end(t: Seq<char>, start: int, end: int) -> int {
    if end <= start {
        end
    } else {
        byte_offset(t, trim_breaks_from(t, start, offset_index(t, end)))
    }
}

proof fn lemma_trim_breaks_from_bounds(t: Seq<char>, start: int, e: int)
    requires
        0 <= e <= t.len(),
    ensures
        0 <= trim_breaks_from(t, start, e) <= e,
        forall|k: int| trim_breaks_from(t, start, e) <= k < e ==> #[trigger] is_mandatory_break_char(t[k]),
        trim_breaks_from(t, start, e) > 0 && byte_offset(t, trim_breaks_from(t, start, e)) > start
            ==> !is_mandatory_break_char(t[trim_breaks_from(t, start, e) - 1]),
    decreases e,
{
    if 0 < e && byte_offset(t, e) > start && is_mandatory_break_char(t[e - 1]) {
        lemma_trim_breaks_from_bounds(t, start, e - 1);
    }
}

/// Whether `c` is a mandatory break char.
fn is_mandatory_break(c: char) -> (r: bool)
    ensures
        r == is_mandatory_break_char(c),
{
    c == '\n' || c == '\r' || c == '\u{85}' || c == '\u{2028}' || c == '\u{2029}'
}

/// The chars of `t` before index `e`, with the mandatory break chars that end them (and end
/// past byte `start`) trimmed off: the index where they stop.
fn trim_breaks(chars: &Vec<char>, offsets: &Vec<usize>, start: usize, e: usize) -> (r: usize)
    requires
        e <= chars@.len(),
        offsets@.len() == chars@.len() + 1,
        forall|k: int| 0 <= k <= chars@.len() ==> #[trigger] offsets@[k] == byte_offset(chars@, k),
    ensures
        r == trim_breaks_from(chars@, start as int, e as int),
        r <= e,
{
    let mut i = e;
    proof {
        lemma_trim_breaks_from_bounds(chars@, start as int, e as int);
    }
    while i > 0 && offsets[i] > start && is_mandatory_break(chars[i - 1])
        invariant
            i <= e <= chars@.len(),
            offsets@.len() == chars@.len() + 1,
            forall|k: int| 0 <= k <= chars@.len() ==> #[trigger] offsets@[k] == byte_offset(chars@, k),
            trim_breaks_from(chars@, start as int, i as int) == trim_breaks_from(chars@, start as int, e as int),
        decreases i,
    {
        i = i - 1;
    }
    i
}

/// The end of the segment `start..end` of the text whose chars are `chars` once the
/// mandatory break chars that end it are trimmed off.
fn trim_break_end(chars: &Vec<char>, offsets: &Vec<usize>, start: usize, end: usize) -> (r: usize)
    requires
        offsets@.len() == chars@.len() + 1,
        forall|k: int| 0 <= k <= chars@.len() ==> #[trigger] offsets@[k] == byte_offset(chars@, k),
    ensures
        r == trimmed_break_end(chars@, start as int, end as int),
        is_char_offset(chars@, end as int) ==> r <= end,
{
    if end <= start {
        return end;
    }
    let e = index_of_offset(offsets, Ghost(chars@), end);
    let i = trim_breaks(chars, offsets, start, e);
    proof {
        lemma_byte_offset_bounds(chars@, i as int, e as int);
        if is_char_offset(chars@, end as int) {
            let w = choose|w: int| 0 <= w <= chars@.len() && byte_offset(chars@, w) == end;
            lemma_offset_index_exact(chars@, w);
        }
    }
    offsets[i]
}

/// The end of the segment `start..end` of `text` once the mandatory break chars (line feed,
/// carriage return, next line, line and paragraph separators) that end it, down to `start`,
/// are trimmed off. A non-empty segment must end on a char boundary.
pub fn trim_mandatory_break_suffix(text: &str, start: usize, end: usize) -> (r: usize)
    requires
        start < end ==> is_char_offset(text@, end as int),
    ensures
        r == trimmed_break_end(text@, start as int, end as int),
        r <= end,
{
    let chars = chars_of(text);
    let offsets = char_byte_offsets(text);
    trim_break_end(&chars, &offsets, start, end)
}

/// Whether a Line_Break class (by its ICU4C number) forces a break after the char:
/// mandatory break (6), carriage return (10), line feed (17) or next line (29).
pub open spec fn is_mandatory_class(cls: u8) -> bool {
    cls == 6 || cls == 10 || cls == 17 || cls == 29
}

/// Whether the char of `t` that ends at byte offset `off` forces a break after it.
pub open spec fn mandatory_before(t: Seq<char>, off: int) -> bool {
    let i = offset_index(t, off);
    0 < i <= t.len() && is_mandatory_class(line_break_class(t[i - 1]))
}

/// The break opportunities of `t` that ICU4X finds, each marked mandatory when the char
/// before it forces a break.
pub open spec fn icu_opportunities(t: Seq<char>) -> Seq<LineBreakOpportunity> {
    let b = icu_line_breaks(t);
    Seq::new(
        b.len(),
        |k: int| LineBreakOpportunity { offset: b[k], is_mandatory: mandatory_before(t, b[k] as int) },
    )
}

/// Script numbers (ICU4C) of Han (17) and Bopomofo (5).
pub open spec fn is_chinese_script(code: u16) -> bool {
    code == 17 || code == 5
}

/// Script numbers (ICU4C) of Hiragana (20) and Katakana (22).
pub open spec fn is_kana_script(code: u16) -> bool {
    code == 20 || code == 22
}

/// Script number (ICU4C) of Hangul (18).
pub open spec fn is_hangul_script(code: u16) -> bool {
    code == 18
}

/// Whether some char of `t` is Han or Bopomofo.
pub open spec fn has_chinese_char(t: Seq<char>) -> bool {
    exists|i: int| 0 <= i < t.len() && #[trigger] is_chinese_script(script_code(t[i]))
}

/// Whether some char of `t` is Hiragana or Katakana.
pub open spec fn has_kana_char(t: Seq<char>) -> bool {
    exists|i: int| 0 <= i < t.len() && #[trigger] is_kana_script(script_code(t[i]))
}

/// Whether some char of `t` is Hangul.
pub open spec fn has_hangul_char(t: Seq<char>) -> bool {
    exists|i: int| 0 <= i < t.len() && #[trigger] is_hangul_script(script_code(t[i]))
}

/// Whether `t` is Chinese text for word segmentation: it has Han or Bopomofo chars and no
/// kana (which marks Japanese).
pub open spec fn segments_as_chinese(t: Seq<char>) -> bool {
    has_chinese_char(t) && !has_kana_char(t)
}

/// Whether a word of the segmenter is a Chinese word to keep together: more than one char,
/// some Han or Bopomofo, no kana and no Hangul.
pub open spec fn is_chinese_word(w: Seq<char>) -> bool {
    w.len() > 1 && has_chinese_char(w) && !has_kana_char(w) && !has_hangul_char(w)
}

/// `x`, or `usize::MAX` when it is larger.
pub open spec fn capped(x: int) -> int {
    if x > usize::MAX {
        usize::MAX as int
    } else {
        x
    }
}

/// Byte offset at which word `k` of `words` starts when the words are laid end to end.
pub open spec fn word_start(words: Seq<Seq<char>>, k: int) -> int
    decreases k,
{
    if k <= 0 {
        0
    } else {
        capped(word_start(words, k - 1) + encode_utf8(words[k - 1]).len())
    }
}

/// The byte ranges of the Chinese words among the first `n` of `words`, in order.
pub open spec fn chinese_ranges_upto(words: Seq<Seq<char>>, n: int) -> Seq<Range<usize>>
    decreases n,
{
    if n <= 0 {
        Seq::empty()
    } else {
        let prev = chinese_ranges_upto(words, n - 1);
        if is_chinese_word(words[n - 1]) {
            prev.push(
                Range { start: word_start(words, n - 1) as usize, end: word_start(words, n) as usize },
            )
        } else {
            prev
        }
    }
}

/// The byte ranges of the Chinese words of `words`, in order.
pub open spec fn chinese_ranges(words: Seq<Seq<char>>) -> Seq<Range<usize>> {
    chinese_ranges_upto(words, words.len() as int)
}

/// Whether byte offset `off` falls strictly inside one of `ranges`.
pub open spec fn strictly_inside(ranges: Seq<Range<usize>>, off: int) -> bool {
    exists|j: int| 0 <= j < ranges.len() && #[trigger] ranges[j].start < off && off < ranges[j].end
}

/// The first `n` of `opps`, without the discretionary ones that fall inside a word of `ranges`.
pub open spec fn kept_upto(
    opps: Seq<LineBreakOpportunity>,
    ranges: Seq<Range<usize>>,
    n: int,
) -> Seq<LineBreakOpportunity>
    decreases n,
{
    if n <= 0 {
        Seq::empty()
    } else {
        let prev = kept_upto(opps, ranges, n - 1);
        let o = opps[n - 1];
        if o.is_mandatory || !strictly_inside(ranges, o.offset as int) {
            prev.push(o)
        } else {
            prev
        }
    }
}

/// `opps` without the discretionary ones that fall inside a word of `ranges`.
pub open spec fn kept(opps: Seq<LineBreakOpportunity>, ranges: Seq<Range<usize>>) -> Seq<LineBreakOpportunity> {
    kept_upto(opps, ranges, opps.len() as int)
}

proof fn lemma_kept_nothing_protected(opps: Seq<LineBreakOpportunity>, n: int)
    requires
        0 <= n <= opps.len(),
    ensures
        kept_upto(opps, Seq::empty(), n) == opps.take(n),
    decreases n,
{
    if n > 0 {
        lemma_kept_nothing_protected(opps, n - 1);
        assert(opps.take(n) =~= opps.take(n - 1).push(opps[n - 1]));
    } else {
        assert(opps.take(0) =~= Seq::<LineBreakOpportunity>::empty());
    }
}

/// Whether some char of `chars` has a script that `pick` (Chinese, kana or Hangul) selects.
fn has_script(chars: &Vec<char>, pick: u8) -> (r: bool)
    requires
        pick < 3,
    ensures
        pick == 0 ==> r == has_chinese_char(chars@),
        pick == 1 ==> r == has_kana_char(chars@),
        pick == 2 ==> r == has_hangul_char(chars@),
{
    let mut i: usize = 0;
    while i < chars.len()
        invariant
            pick < 3,
            i <= chars@.len(),
            pick == 0 ==> forall|k: int| 0 <= k < i ==> !#[trigger] is_chinese_script(script_code(chars@[k])),
            pick == 1 ==> forall|k: int| 0 <= k < i ==> !#[trigger] is_kana_script(script_code(chars@[k])),
            pick == 2 ==> forall|k: int| 0 <= k < i ==> !#[trigger] is_hangul_script(script_code(chars@[k])),
        decreases chars@.len() - i,
    {
        let code = script_code_of(chars[i]);
        let hit = if pick == 0 {
            code == 17 || code == 5
        } else if pick == 1 {
            code == 20 || code == 22
        } else {
            code == 18
        };
        if hit {
            proof {
                if pick == 0 {
                    assert(is_chinese_script(script_code(chars@[i as int])));
                } else if pick == 1 {
                    assert(is_kana_script(script_code(chars@[i as int])));
                } else {
                    assert(is_hangul_script(script_code(chars@[i as int])));
                }
            }
            return true;
        }
        i = i + 1;
    }
    false
}

/// Whether `text` is Chinese text for word segmentation: it has Han or Bopomofo chars and
/// no kana.
pub fn should_segment_as_chinese(text: &str) -> (r: bool)
    ensures
        r == segments_as_chinese(text@),
{
    let chars = chars_of(text);
    has_script(&chars, 0) && !has_script(&chars, 1)
}

/// Whether `word` is a Chinese word to keep together: more than one char, some Han or
/// Bopomofo, no kana and no Hangul.
pub fn is_chinese_word_token(word: &str) -> (r: bool)
    ensures
        r == is_chinese_word(word@),
{
    let chars = chars_of(word);
    chars.len() > 1 && has_script(&chars, 0) && !has_script(&chars, 1) && !has_script(&chars, 2)
}

/// The byte ranges of the Chinese words among `words`, laid end to end from offset 0 (an
/// offset past `usize::MAX` is held at `usize::MAX`).
pub fn word_ranges(words: &[String]) -> (r: Vec<Range<usize>>)
    ensures
        r@ == chinese_ranges(words@.map_values(|w: String| w@)),
{
    let ghost views = words@.map_values(|w: String| w@);
    let mut out: Vec<Range<usize>> = Vec::new();
    let mut offset: usize = 0;
    let mut i: usize = 0;
    while i < words.len()
        invariant
            views == words@.map_values(|w: String| w@),
            i <= words@.len(),
            offset == word_start(views, i as int),
            out@ == chinese_ranges_upto(views, i as int),
        decreases words@.len() - i,
    {
        let word = words[i].as_str();
        let len = word.as_bytes().len();
        let end = offset.saturating_add(len);
        if is_chinese_word_token(word) {
            out.push(Range { start: offset, end });
        }
        offset = end;
        i = i + 1;
    }
    out
}

/// The words' offsets never pass the bytes of the words before them, and never pass
/// `usize::MAX`.
proof fn lemma_word_start_bytes(words: Seq<Seq<char>>, k: int)
    requires
        0 <= k <= words.len(),
    ensures
        0 <= word_start(words, k) <= usize::MAX,
        word_start(words, k) <= encode_utf8(concat_all(words.take(k))).len(),
    decreases k,
{
    if k == 0 {
        assert(words.take(0) =~= Seq::<Seq<char>>::empty());
    } else {
        lemma_word_start_bytes(words, k - 1);
        assert(words.take(k).drop_last() =~= words.take(k - 1));
        assert(words.take(k).last() == words[k - 1]);
        lemma_encode_utf8_concat(concat_all(words.take(k - 1)), words[k - 1]);
    }
}

proof fn lemma_word_start_monotone(words: Seq<Seq<char>>, a: int, b: int)
    requires
        0 <= a <= b <= words.len(),
    ensures
        word_start(words, a) <= word_start(words, b),
    decreases b - a,
{
    if a < b {
        lemma_word_start_monotone(words, a, b - 1);
        lemma_word_start_bytes(words, b - 1);
    }
}

proof fn lemma_ranges_upto_within(words: Seq<Seq<char>>, n: int)
    requires
        0 <= n <= words.len(),
    ensures
        forall|j: int|
            0 <= j < chinese_ranges_upto(words, n).len() ==> #[trigger] chinese_ranges_upto(words, n)[j].end
                <= word_start(words, n),
    decreases n,
{
    if n > 0 {
        lemma_ranges_upto_within(words, n - 1);
        lemma_word_start_monotone(words, n - 1, n);
        lemma_word_start_bytes(words, n);
        let prev = chinese_ranges_upto(words, n - 1);
        let cur = chinese_ranges_upto(words, n);
        assert forall|j: int| 0 <= j < cur.len() implies #[trigger] cur[j].end <= word_start(words, n) by {
            if j < prev.len() {
                assert(cur[j] == prev[j]);
            }
        }
    }
}

/// Every Chinese word range ends within the bytes of the words laid end to end.
proof fn lemma_chinese_ranges_within(words: Seq<Seq<char>>)
    ensures
        forall|j: int|
            0 <= j < chinese_ranges(words).len() ==> #[trigger] chinese_ranges(words)[j].end <= encode_utf8(
                concat_all(words),
            ).len(),
{
    lemma_ranges_upto_within(words, words.len() as int);
    lemma_word_start_bytes(words, words.len() as int);
    assert(words.take(words.len() as int) =~= words);
}

/// The byte ranges of the Chinese words that jieba finds in `text`; none ends past the end
/// of `text`.
pub fn chinese_word_ranges(text: &str) -> (r: Vec<Range<usize>>)
    ensures
        r@ == chinese_ranges(jieba_words(text@)),
        forall|j: int| 0 <= j < r@.len() ==> #[trigger] r@[j].end <= encode_utf8(text@).len(),
{
    let words = jieba_cut(text);
    proof {
        let views = words@.map_values(|w: String| w@);
        assert(views =~= jieba_words(text@));
        lemma_chinese_ranges_within(views);
    }
    word_ranges(words.as_slice())
}

/// `opportunities` without the discretionary ones that fall strictly inside one of
/// `protected_ranges`; mandatory ones always stay.
pub fn filter_protected(
    opportunities: Vec<LineBreakOpportunity>,
    protected_ranges: &[Range<usize>],
) -> (r: Vec<LineBreakOpportunity>)
    ensures
        r@ == kept(opportunities@, protected_ranges@),
{
    let mut out: Vec<LineBreakOpportunity> = Vec::new();
    let mut i: usize = 0;
    while i < opportunities.len()
        invariant
            i <= opportunities@.len(),
            out@ == kept_upto(opportunities@, protected_ranges@, i as int),
        decreases opportunities@.len() - i,
    {
        let o = opportunities[i];
        let mut inside = false;
        let mut j: usize = 0;
        while j < protected_ranges.len()
            invariant
                j <= protected_ranges@.len(),
                inside == exists|m: int| 0 <= m < j && #[trigger] protected_ranges@[m].start < o.offset
                    && o.offset < protected_ranges@[m].end,
            decreases protected_ranges@.len() - j,
        {
            if protected_ranges[j].start < o.offset && o.offset < protected_ranges[j].end {
                inside = true;
            }
            j = j + 1;
        }
        if o.is_mandatory || !inside {
            out.push(o);
        }
        i = i + 1;
    }
    out
}

/// Whether the offsets of `opps` strictly increase.
pub open spec fn offsets_increasing(opps: Seq<LineBreakOpportunity>) -> bool {
    forall|i: int, j: int| 0 <= i < j < opps.len() ==> opps[i].offset < opps[j].offset
}

/// Dropping opportunities keeps the order of those that stay.
proof fn lemma_kept_order(opps: Seq<LineBreakOpportunity>, ranges: Seq<Range<usize>>, n: int)
    requires
        0 <= n <= opps.len(),
        offsets_increasing(opps),
    ensures
        offsets_increasing(kept_upto(opps, ranges, n)),
    decreases n,
{
    if n > 0 {
        lemma_kept_order(opps, ranges, n - 1);
        lemma_kept_upto(opps, ranges, n - 1);
        let prev = kept_upto(opps, ranges, n - 1);
        let cur = kept_upto(opps, ranges, n);
        assert forall|i: int, j: int| 0 <= i < j < cur.len() implies cur[i].offset < cur[j].offset by {
            assert(cur[i] == prev[i]);
            if j < prev.len() {
                assert(cur[j] == prev[j]);
            } else {
                assert(cur[j] == opps[n - 1]);
                assert(opps.take(n - 1).contains(prev[i]));
                let m = choose|m: int| 0 <= m < n - 1 && #[trigger] opps.take(n - 1)[m] == prev[i];
                assert(opps[m] == prev[i]);
            }
        }
    }
}

/// An opportunity that stays and comes first stays first.
proof fn lemma_kept_first(opps: Seq<LineBreakOpportunity>, ranges: Seq<Range<usize>>, n: int)
    requires
        1 <= n <= opps.len(),
        opps[0].is_mandatory || !strictly_inside(ranges, opps[0].offset as int),
    ensures
        kept_upto(opps, ranges, n).len() >= 1,
        kept_upto(opps, ranges, n)[0] == opps[0],
    decreases n,
{
    if n > 1 {
        lemma_kept_first(opps, ranges, n - 1);
    } else {
        assert(kept_upto(opps, ranges, 0) == Seq::<LineBreakOpportunity>::empty());
    }
}

/// `opportunities` of `text` without the discretionary ones that fall inside a Chinese word
/// that jieba finds (unchanged when it finds none). As no word reaches before the start or
/// past the end of `text`, a break at either stays, and those that stay keep their order.
pub fn apply_chinese_word_segmentation(text: &str, opportunities: Vec<LineBreakOpportunity>) -> (r: Vec<LineBreakOpportunity>)
    ensures
        r@ == kept(opportunities@, chinese_ranges(jieba_words(text@))),
        opportunities@.len() > 0 && opportunities@[0].offset == 0 ==> r@.len() > 0 && r@[0]
            == opportunities@[0],
        opportunities@.len() > 0 && opportunities@.last().offset == encode_utf8(text@).len() ==> r@.len()
            > 0 && r@.last() == opportunities@.last(),
        offsets_increasing(opportunities@) ==> offsets_increasing(r@),
{
    let protected_ranges = chinese_word_ranges(text);
    if protected_ranges.len() == 0 {
        proof {
            lemma_kept_nothing_protected(opportunities@, opportunities@.len() as int);
            assert(protected_ranges@ =~= Seq::<Range<usize>>::empty());
            assert(opportunities@.take(opportunities@.len() as int) =~= opportunities@);
        }
        return opportunities;
    }
    let ghost opps = opportunities@;
    let ghost ranges = protected_ranges@;
    let r = filter_protected(opportunities, protected_ranges.as_slice());
    proof {
        let n = opps.len() as int;
        if n > 0 && opps[0].offset == 0 {
            lemma_kept_first(opps, ranges, n);
        }
        if n > 0 && opps.last().offset == encode_utf8(text@).len() {
            assert(!strictly_inside(ranges, opps[n - 1].offset as int)) by {
                if strictly_inside(ranges, opps[n - 1].offset as int) {
                    let j = choose|j: int| 0 <= j < ranges.len() && #[trigger] ranges[j].start < opps[n - 1].offset
                        && opps[n - 1].offset < ranges[j].end;
                    assert(ranges[j].end <= encode_utf8(text@).len());
                }
            }
        }
        if offsets_increasing(opps) {
            lemma_kept_order(opps, ranges, n);
        }
    }
    r
}

/// The break opportunities that ICU4X finds in `text`, each marked mandatory when the char
/// before it forces a break: at char boundaries, in increasing order, from 0 to the byte
/// length of `text`.
pub fn icu_line_break_opportunities(text: &str) -> (r: Vec<LineBreakOpportunity>)
    ensures
        r@ == icu_opportunities(text@),
        forall|k: int| 0 <= k < r@.len() ==> #[trigger] is_char_offset(text@, r@[k].offset as int),
        offsets_increasing(r@),
        r@.len() >= 1 && r@[0].offset == 0,
        text@.len() > 0 ==> r@.len() >= 2 && r@.last().offset == encode_utf8(text@).len(),
{
    let breaks = icu_line_break_offsets(text);
    let chars = chars_of(text);
    let offsets = char_byte_offsets(text);
    let mut out: Vec<LineBreakOpportunity> = Vec::new();
    let mut k: usize = 0;
    while k < breaks.len()
        invariant
            breaks@ == icu_line_breaks(text@),
            forall|m: int| 0 <= m < breaks@.len() ==> #[trigger] is_char_offset(text@, breaks@[m] as int),
            forall|m: int| 0 <= m < out@.len() ==> #[trigger] is_char_offset(text@, out@[m].offset as int),
            chars@ == text@,
            offsets@.len() == text@.len() + 1,
            forall|m: int| 0 <= m <= text@.len() ==> #[trigger] offsets@[m] == byte_offset(text@, m),
            k <= breaks@.len(),
            out@ == icu_opportunities(text@).take(k as int),
        decreases breaks@.len() - k,
    {
        let off = breaks[k];
        let i = index_of_offset(&offsets, Ghost(text@), off);
        let mandatory = i > 0 && {
            let cls = line_break_class_of(chars[i - 1]);
            cls == 6 || cls == 10 || cls == 17 || cls == 29
        };
        out.push(LineBreakOpportunity { offset: off, is_mandatory: mandatory });
        proof {
            assert(out@ =~= icu_opportunities(text@).take(k + 1));
        }
        k = k + 1;
    }
    proof {
        assert(out@ =~= icu_opportunities(text@));
        assert forall|k: int| 0 <= k < out@.len() implies #[trigger] out@[k].offset == breaks@[k] by {}
    }
    out
}

/// Index of the first alphabetic char of `t` at or after `i` (the length of `t` when none).
pub open spec fn first_alpha_from(t: Seq<char>, i: int) -> int
    decreases t.len() - i,
{
    if 0 <= i < t.len() && !alphabetic(t[i]) {
        first_alpha_from(t, i + 1)
    } else {
        i
    }
}

/// One past the index of the last alphabetic char of `t` before `j` (0 when none).
pub open spec fn last_alpha_end_from(t: Seq<char>, j: int) -> int
    decreases j,
{
    if 0 < j <= t.len() && !alphabetic(t[j - 1]) {
        last_alpha_end_from(t, j - 1)
    } else {
        j
    }
}

/// The char range of the word in `t` that hyphenation may split: from the first to the last
/// alphabetic char, when every char between them is alphabetic too.
pub open spec fn word_core(t: Seq<char>) -> Option<(int, int)> {
    let a = first_alpha_from(t, 0);
    let b = last_alpha_end_from(t, t.len() as int);
    if a < b && (forall|i: int| a <= i < b ==> #[trigger] alphabetic(t[i])) {
        Some((a, b))
    } else {
        None
    }
}

/// The byte range of the word in `t` that hyphenation may split.
pub open spec fn hyphenatable_bounds(t: Seq<char>) -> Option<(int, int)> {
    match word_core(t) {
        Some((a, b)) => Some((byte_offset(t, a), byte_offset(t, b))),
        None => None,
    }
}

proof fn lemma_first_alpha_from(t: Seq<char>, i: int)
    requires
        0 <= i <= t.len(),
    ensures
        i <= first_alpha_from(t, i) <= t.len(),
    decreases t.len() - i,
{
    if i < t.len() && !alphabetic(t[i]) {
        lemma_first_alpha_from(t, i + 1);
    }
}

proof fn lemma_last_alpha_end_from(t: Seq<char>, j: int)
    requires
        0 <= j <= t.len(),
    ensures
        0 <= last_alpha_end_from(t, j) <= j,
    decreases j,
{
    if 0 < j && !alphabetic(t[j - 1]) {
        lemma_last_alpha_end_from(t, j - 1);
    }
}

/// The char range of the word in `chars` that hyphenation may split.
fn word_core_of(chars: &Vec<char>) -> (r: Option<(usize, usize)>)
    ensures
        match r {
            Some((a, b)) => word_core(chars@) == Some((a as int, b as int)) && a < b <= chars@.len(),
            None => word_core(chars@) is None,
        },
{
    let mut a: usize = 0;
    while a < chars.len() && !is_alphabetic(chars[a])
        invariant
            a <= chars@.len(),
            first_alpha_from(chars@, a as int) == first_alpha_from(chars@, 0),
        decreases chars@.len() - a,
    {
        a = a + 1;
    }
    let mut b: usize = chars.len();
    while b > 0 && !is_alphabetic(chars[b - 1])
        invariant
            b <= chars@.len(),
            last_alpha_end_from(chars@, b as int) == last_alpha_end_from(chars@, chars@.len() as int),
        decreases b,
    {
        b = b - 1;
    }
    proof {
        assert(first_alpha_from(chars@, a as int) == a);
        assert(last_alpha_end_from(chars@, b as int) == b);
    }
    if a >= b {
        return None;
    }
    let mut i = a;
    while i < b
        invariant
            a <= i <= b <= chars@.len(),
            a == first_alpha_from(chars@, 0),
            b == last_alpha_end_from(chars@, chars@.len() as int),
            forall|k: int| a <= k < i ==> #[trigger] alphabetic(chars@[k]),
        decreases b - i,
    {
        if !is_alphabetic(chars[i]) {
            proof {
                assert(!alphabetic(chars@[i as int]));
            }
            return None;
        }
        i = i + 1;
    }
    Some((a, b))
}

/// The byte range of the word in `text` that hyphenation may split: from the first to the
/// last alphabetic char, when every char between them is alphabetic too.
pub fn hyphenatable_word_bounds(text: &str) -> (r: Option<(usize, usize)>)
    ensures
        match r {
            Some((a, b)) => hyphenatable_bounds(text@) == Some((a as int, b as int)),
            None => hyphenatable_bounds(text@) is None,
        },
{
    let chars = chars_of(text);
    let offsets = char_byte_offsets(text);
    match word_core_of(&chars) {
        Some((a, b)) => Some((offsets[a], offsets[b])),
        None => None,
    }
}

/// Hyphenation settings of a line breaker.
#[derive(Clone, Copy, Debug)]
pub struct HyphenationConfig {
    /// The language whose patterns split words.
    pub lang: Lang,
    /// Words of fewer chars are left whole.
    pub min_word_len: usize,
}

/// Total of the first `k` lengths.
pub open spec fn len_prefix(lens: Seq<usize>, k: int) -> int
    decreases k,
{
    if k <= 0 {
        0
    } else {
        len_prefix(lens, k - 1) + lens[k - 1]
    }
}

proof fn lemma_len_prefix_monotone(lens: Seq<usize>, a: int, b: int)
    requires
        0 <= a <= b <= lens.len(),
    ensures
        0 <= len_prefix(lens, a) <= len_prefix(lens, b),
    decreases b,
{
    if b > 0 {
        if a < b {
            lemma_len_prefix_monotone(lens, a, b - 1);
        } else {
            lemma_len_prefix_monotone(lens, a - 1, b - 1);
        }
    }
}

/// The piece of `seg` that holds syllable `k` when the word starts `core_start` bytes into
/// it and its syllables take `lens` bytes: the first piece starts where `seg` does, the last
/// ends where `seg` does and breaks where `seg` breaks; every other piece ends on a
/// discretionary break drawn with a hyphen.
pub open spec fn syllable_segment(seg: LineSegment, core_start: int, lens: Seq<usize>, k: int) -> LineSegment {
    let last = k == lens.len() - 1;
    let start = if k == 0 {
        seg.range.start as int
    } else {
        seg.range.start + core_start + len_prefix(lens, k)
    };
    let end = if last {
        seg.range.end as int
    } else {
        seg.range.start + core_start + len_prefix(lens, k + 1)
    };
    LineSegment {
        range: Range { start: start as usize, end: end as usize },
        next_offset: if last {
            seg.next_offset
        } else {
            end as usize
        },
        is_mandatory: false,
        break_suffix: if last {
            None
        } else {
            Some(LineBreakSuffix::Hyphen)
        },
    }
}

/// The pieces of `seg`, one per syllable.
pub open spec fn syllable_pieces(seg: LineSegment, core_start: int, lens: Seq<usize>) -> Seq<LineSegment> {
    Seq::new(lens.len(), |k: int| syllable_segment(seg, core_start, lens, k))
}

/// Splits `segment` into one piece per syllable of its word, which starts `core_start`
/// bytes into the segment and whose syllables take `syllable_lens` bytes.
pub fn syllable_segments(segment: &LineSegment, core_start: usize, syllable_lens: &[usize]) -> (r: Vec<LineSegment>)
    requires
        segment.range.start + core_start + len_prefix(syllable_lens@, syllable_lens@.len() as int) <= usize::MAX,
    ensures
        r@ == syllable_pieces(*segment, core_start as int, syllable_lens@),
{
    let n = syllable_lens.len();
    let mut out: Vec<LineSegment> = Vec::new();
    let mut word_offset: usize = 0;
    let mut idx: usize = 0;
    while idx < n
        invariant
            n == syllable_lens@.len(),
            segment.range.start + core_start + len_prefix(syllable_lens@, n as int) <= usize::MAX,
            idx <= n,
            word_offset == len_prefix(syllable_lens@, idx as int),
            out@ == syllable_pieces(*segment, core_start as int, syllable_lens@).take(idx as int),
        decreases n - idx,
    {
        proof {
            lemma_len_prefix_monotone(syllable_lens@, idx as int + 1, n as int);
        }
        let is_last = idx + 1 == n;
        let start = if idx == 0 {
            segment.range.start
        } else {
            segment.range.start + core_start + word_offset
        };
        word_offset = word_offset + syllable_lens[idx];
        let end = if is_last {
            segment.range.end
        } else {
            segment.range.start + core_start + word_offset
        };
        out.push(
            LineSegment {
                range: Range { start, end },
                next_offset: if is_last {
                    segment.next_offset
                } else {
                    end
                },
                is_mandatory: false,
                break_suffix: if is_last {
                    None
                } else {
                    Some(LineBreakSuffix::Hyphen)
                },
            },
        );
        proof {
            assert(out@ =~= syllable_pieces(*segment, core_start as int, syllable_lens@).take(idx + 1));
        }
        idx = idx + 1;
    }
    proof {
        assert(out@ =~= syllable_pieces(*segment, core_start as int, syllable_lens@));
    }
    out
}

/// The byte lengths of `parts`.
pub open spec fn byte_lens(parts: Seq<Seq<char>>) -> Seq<usize> {
    parts.map_values(|p: Seq<char>| encode_utf8(p).len() as usize)
}

/// The pieces that `seg` of `t` is split into for hyphenation: only a discretionary,
/// non-empty segment whose word has at least `min_word_len` chars and more than one syllable
/// is split, one piece per syllable; any other segment stays whole.
pub open spec fn hyphenated(cfg: Option<HyphenationConfig>, t: Seq<char>, seg: LineSegment) -> Seq<LineSegment> {
    if cfg is None || seg.is_mandatory || seg.range.start >= seg.range.end {
        seq![seg]
    } else {
        let st = t.subrange(offset_index(t, seg.range.start as int), offset_index(t, seg.range.end as int));
        match word_core(st) {
            None => seq![seg],
            Some((a, b)) => {
                let core = st.subrange(a, b);
                if core.len() < cfg->0.min_word_len {
                    seq![seg]
                } else {
                    let syllables = hypher_syllables(core, cfg->0.lang);
                    if syllables.len() <= 1 {
                        seq![seg]
                    } else {
                        syllable_pieces(seg, byte_offset(st, a), byte_lens(syllables))
                    }
                }
            },
        }
    }
}

proof fn lemma_concat_bytes(parts: Seq<Seq<char>>, n: int)
    requires
        0 <= n <= parts.len(),
        forall|k: int| 0 <= k < parts.len() ==> encode_utf8(#[trigger] parts[k]).len() <= usize::MAX,
    ensures
        len_prefix(byte_lens(parts), n) == encode_utf8(concat_all(parts.take(n))).len(),
    decreases n,
{
    if n == 0 {
        assert(parts.take(0) =~= Seq::<Seq<char>>::empty());
    } else {
        lemma_concat_bytes(parts, n - 1);
        assert(parts.take(n).drop_last() =~= parts.take(n - 1));
        lemma_encode_utf8_concat(concat_all(parts.take(n - 1)), parts[n - 1]);
    }
}

/// `segment` of the text whose chars are `chars`, split for hyphenation by `cfg`.
fn hyphenated_segments(
    cfg: Option<HyphenationConfig>,
    chars: &Vec<char>,
    offsets: &Vec<usize>,
    segment: LineSegment,
) -> (r: Vec<LineSegment>)
    requires
        offsets@.len() == chars@.len() + 1,
        forall|k: int| 0 <= k <= chars@.len() ==> #[trigger] offsets@[k] == byte_offset(chars@, k),
        segment.range.start <= encode_utf8(chars@).len(),
        segment.range.end <= encode_utf8(chars@).len(),
    ensures
        r@ == hyphenated(cfg, chars@, segment),
{
    let config = match cfg {
        None => {
            return vec![segment];
        },
        Some(c) => c,
    };
    if segment.is_mandatory || segment.range.start >= segment.range.end {
        return vec![segment];
    }
    let ghost t = chars@;
    let i = index_of_offset(offsets, Ghost(t), segment.range.start);
    let j = index_of_offset(offsets, Ghost(t), segment.range.end);
    proof {
        lemma_offset_index_order(t, segment.range.start as int, segment.range.end as int);
    }
    let st = slice_to_vec(slice_subrange(chars.as_slice(), i, j));
    let (a, b) = match word_core_of(&st) {
        None => {
            return vec![segment];
        },
        Some(p) => p,
    };
    if b - a < config.min_word_len {
        return vec![segment];
    }
    let core = string_from_chars(slice_subrange(st.as_slice(), a, b));
    let syllables = hyphenate(core.as_str(), config.lang);
    if syllables.len() <= 1 {
        return vec![segment];
    }
    let ghost views = syllables@.map_values(|s: String| s@);
    let mut lens: Vec<usize> = Vec::new();
    let mut k: usize = 0;
    while k < syllables.len()
        invariant
            views == syllables@.map_values(|s: String| s@),
            k <= syllables@.len(),
            lens@ == byte_lens(views).take(k as int),
            forall|m: int| 0 <= m < k ==> encode_utf8(#[trigger] views[m]).len() <= usize::MAX,
        decreases syllables@.len() - k,
    {
        let len = syllables[k].as_str().as_bytes().len();
        proof {
            assert(views[k as int] == syllables@[k as int]@);
        }
        lens.push(len);
        proof {
            assert(lens@ =~= byte_lens(views).take(k + 1));
        }
        k = k + 1;
    }
    proof {
        assert(st@ =~= t.subrange(i as int, j as int));
        lemma_byte_offset_bounds(t, i as int, i + a);
    }
    let core_start = offsets[i + a] - offsets[i];
    proof {
        assert(lens@ =~= byte_lens(views));
        assert(views =~= hypher_syllables(core@, config.lang));
        assert(core@ =~= t.subrange(i + a, i + b));
        lemma_subrange_bytes(t, i as int, i + a);
        lemma_subrange_bytes(t, i + a, i + b);
        lemma_byte_offset_bounds(t, i + b, t.len() as int);
        lemma_byte_offset_bounds(t, i + a, i + b);
        lemma_byte_offset_bounds(t, i as int, i + a);
        lemma_concat_bytes(views, views.len() as int);
        assert(views.take(views.len() as int) =~= views);
        assert(st@.subrange(a as int, b as int) =~= t.subrange(i + a, i + b));
        assert(st@.take(a as int) =~= t.subrange(i as int, i + a));
        assert(offsets@[t.len() as int] == byte_offset(t, t.len() as int));
        assert(encode_utf8(concat_all(views)) == encode_utf8(core@));
    }
    syllable_segments(&segment, core_start, lens.as_slice())
}


/// `kept_upto` keeps only items of `opps`, so a property of every opportunity carries over.
proof fn lemma_kept_char_offsets(t: Seq<char>, opps: Seq<LineBreakOpportunity>, ranges: Seq<Range<usize>>, n: int)
    requires
        0 <= n <= opps.len(),
        forall|k: int| 0 <= k < opps.len() ==> #[trigger] is_char_offset(t, opps[k].offset as int),
    ensures
        forall|j: int|
            0 <= j < kept_upto(opps, ranges, n).len() ==> #[trigger] is_char_offset(
                t,
                kept_upto(opps, ranges, n)[j].offset as int,
            ),
    decreases n,
{
    if n > 0 {
        lemma_kept_char_offsets(t, opps, ranges, n - 1);
        let prev = kept_upto(opps, ranges, n - 1);
        let cur = kept_upto(opps, ranges, n);
        assert forall|j: int| 0 <= j < cur.len() implies #[trigger] is_char_offset(t, cur[j].offset as int) by {
            if j < prev.len() {
                assert(cur[j] == prev[j]);
            } else {
                assert(cur[j] == opps[n - 1]);
            }
        }
    }
}

/// Where lines of `t` may break: ICU4X's opportunities, without the discretionary ones that
/// fall inside a Chinese word when `chinese` is set and `t` is Chinese text.
pub open spec fn opportunities_of(chinese: bool, t: Seq<char>) -> Seq<LineBreakOpportunity> {
    if chinese && segments_as_chinese(t) {
        kept(icu_opportunities(t), chinese_ranges(jieba_words(t)))
    } else {
        icu_opportunities(t)
    }
}

/// The segment of `t` between opportunities `k` and `k + 1`: it ends where the next one is,
/// less the mandatory break chars when that one is mandatory.
pub open spec fn base_segment(t: Seq<char>, opps: Seq<LineBreakOpportunity>, k: int) -> LineSegment {
    let start = opps[k].offset;
    let end = opps[k + 1].offset;
    let mandatory = opps[k + 1].is_mandatory;
    LineSegment {
        range: Range {
            start,
            end: if mandatory {
                trimmed_break_end(t, start as int, end as int) as usize
            } else {
                end
            },
        },
        next_offset: end,
        is_mandatory: mandatory,
        break_suffix: None,
    }
}

/// The segments of `t` between the first `n + 1` of `opps`, each split for hyphenation by
/// `cfg`, in order.
pub open spec fn segments_upto(
    cfg: Option<HyphenationConfig>,
    t: Seq<char>,
    opps: Seq<LineBreakOpportunity>,
    n: int,
) -> Seq<LineSegment>
    decreases n,
{
    if n <= 0 {
        Seq::empty()
    } else {
        segments_upto(cfg, t, opps, n - 1) + hyphenated(cfg, t, base_segment(t, opps, n - 1))
    }
}

/// The line segments of `t`: one between each two consecutive break opportunities, split
/// for hyphenation by `cfg`.
pub open spec fn segments_of(cfg: Option<HyphenationConfig>, chinese: bool, t: Seq<char>) -> Seq<LineSegment> {
    let opps = opportunities_of(chinese, t);
    segments_upto(cfg, t, opps, opps.len() - 1)
}

/// Line breaker using ICU4X, optionally keeping Chinese words together and hyphenating long
/// words.
pub struct LineBreaker {
    hyphenation: Option<HyphenationConfig>,
    chinese_word_segmentation: bool,
}

impl LineBreaker {
    /// The hyphenation settings, when hyphenation is on.
    pub closed spec fn hyphenation_config(self) -> Option<HyphenationConfig> {
        self.hyphenation
    }

    /// Whether discretionary breaks inside Chinese words are dropped.
    pub closed spec fn keeps_chinese_words(self) -> bool {
        self.chinese_word_segmentation
    }

    /// A line breaker with ICU4X's default rules only.
    pub fn new() -> (r: Self)
        ensures
            r.hyphenation_config() is None,
            !r.keeps_chinese_words(),
    {
        LineBreaker { hyphenation: None, chinese_word_segmentation: false }
    }

    /// Keep Chinese words together when selecting discretionary line breaks: ICU4X still
    /// supplies the break rules; only the discretionary opportunities that fall inside a
    /// Chinese word that jieba finds are dropped.
    pub fn with_chinese_word_segmentation(self) -> (r: Self)
        ensures
            r.hyphenation_config() == self.hyphenation_config(),
            r.keeps_chinese_words(),
    {
        LineBreaker { hyphenation: self.hyphenation, chinese_word_segmentation: true }
    }

    /// Enable discretionary hyphenation of words of at least `min_word_len` chars.
    pub fn with_hyphenation(self, lang: Lang, min_word_len: usize) -> (r: Self)
        ensures
            r.hyphenation_config() == Some(HyphenationConfig { lang, min_word_len }),
            r.keeps_chinese_words() == self.keeps_chinese_words(),
    {
        LineBreaker {
            hyphenation: Some(HyphenationConfig { lang, min_word_len }),
            chinese_word_segmentation: self.chinese_word_segmentation,
        }
    }

    /// Enable discretionary hyphenation from a language tag that `hypher` supports; a tag
    /// it does not support turns hyphenation off.
    pub fn with_hyphenation_tag(self, tag: &str, min_word_len: usize) -> (r: Self)
        ensures
            r.hyphenation_config() == (match lang_of_tag(tag@) {
                Some(lang) => Some(HyphenationConfig { lang, min_word_len }),
                None => None,
            }),
            r.keeps_chinese_words() == self.keeps_chinese_words(),
    {
        let hyphenation = match hyphenation_lang_from_tag(tag) {
            Some(lang) => Some(HyphenationConfig { lang, min_word_len }),
            None => None,
        };
        LineBreaker { hyphenation, chinese_word_segmentation: self.chinese_word_segmentation }
    }

    /// The line break opportunities of `text`: at char boundaries, in increasing order, from 0
    /// to the byte length of `text`, each mandatory exactly when the char before it forces a
    /// break.
    pub fn line_break_opportunities(&self, text: &str) -> (r: Vec<LineBreakOpportunity>)
        ensures
            r@ == opportunities_of(self.keeps_chinese_words(), text@),
            forall|k: int| 0 <= k < r@.len() ==> #[trigger] is_char_offset(text@, r@[k].offset as int),
            offsets_increasing(r@),
            r@.len() >= 1 && r@[0].offset == 0,
            text@.len() > 0 ==> r@.len() >= 2 && r@.last().offset == encode_utf8(text@).len(),
            forall|k: int|
                0 <= k < r@.len() ==> #[trigger] r@[k].is_mandatory == mandatory_before(
                    text@,
                    r@[k].offset as int,
                ),
    {
        let opportunities = icu_line_break_opportunities(text);
        if self.chinese_word_segmentation && should_segment_as_chinese(text) {
            let ghost opps = opportunities@;
            let r = apply_chinese_word_segmentation(text, opportunities);
            proof {
                let ranges = chinese_ranges(jieba_words(text@));
                lemma_kept_char_offsets(text@, opps, ranges, opps.len() as int);
                lemma_kept_upto(opps, ranges, opps.len() as int);
                assert(opps.take(opps.len() as int) =~= opps);
                assert forall|k: int| 0 <= k < r@.len() implies #[trigger] r@[k].is_mandatory
                    == mandatory_before(text@, r@[k].offset as int) by {
                    assert(opps.contains(r@[k]));
                    let m = choose|m: int| 0 <= m < opps.len() && #[trigger] opps[m] == r@[k];
                    assert(opps[m] == icu_opportunities(text@)[m]);
                }
                if text@.len() > 0 {
                    assert(r@[0].offset < r@.last().offset);
                }
            }
            r
        } else {
            opportunities
        }
    }

    /// The segments of `text` to shape, one between each two consecutive break
    /// opportunities (split further where hyphenation is on): mandatory break chars are left
    /// out of a segment's range but kept in its `next_offset`.
    pub fn line_segments(&self, text: &str) -> (r: Vec<LineSegment>)
        ensures
            r@ == segments_of(self.hyphenation_config(), self.keeps_chinese_words(), text@),
    {
        let opps = self.line_break_opportunities(text);
        let chars = chars_of(text);
        let offsets = char_byte_offsets(text);
        let ghost t = text@;
        let mut out: Vec<LineSegment> = Vec::new();
        if opps.len() < 2 {
            return out;
        }
        let mut k: usize = 0;
        while k + 1 < opps.len()
            invariant
                chars@ == t,
                offsets@.len() == t.len() + 1,
                forall|m: int| 0 <= m <= t.len() ==> #[trigger] offsets@[m] == byte_offset(t, m),
                forall|m: int| 0 <= m < opps@.len() ==> #[trigger] is_char_offset(t, opps@[m].offset as int),
                opps@ == opportunities_of(self.keeps_chinese_words(), t),
                k + 1 <= opps@.len(),
                out@ == segments_upto(self.hyphenation_config(), t, opps@, k as int),
            decreases opps@.len() - k,
        {
            let start = opps[k].offset;
            let end = opps[k + 1].offset;
            let is_mandatory = opps[k + 1].is_mandatory;
            let segment_end = if is_mandatory {
                trim_break_end(&chars, &offsets, start, end)
            } else {
                end
            };
            proof {
                assert(is_char_offset(t, opps@[k as int].offset as int));
                assert(is_char_offset(t, opps@[k + 1].offset as int));
                let ws = choose|w: int| 0 <= w <= t.len() && byte_offset(t, w) == start;
                let we = choose|w: int| 0 <= w <= t.len() && byte_offset(t, w) == end;
                lemma_byte_offset_bounds(t, ws, t.len() as int);
                lemma_byte_offset_bounds(t, we, t.len() as int);
            }
            let segment = LineSegment {
                range: Range { start, end: segment_end },
                next_offset: end,
                is_mandatory,
                break_suffix: None,
            };
            let mut pieces = hyphenated_segments(self.hyphenation, &chars, &offsets, segment);
            out.append(&mut pieces);
            k = k + 1;
        }
        out
    }
}

impl Default for LineBreaker {
    fn default() -> (r: Self)
        ensures
            r.hyphenation_config() is None,
            !r.keeps_chinese_words(),
    {
        LineBreaker::new()
    }
}

/// Index of the first `-` or `_` of `t` at or after `i` (the length of `t` when none).
pub open spec fn first_separator_from(t: Seq<char>, i: int) -> int
    decreases t.len() - i,
{
    if 0 <= i < t.len() && t[i] != '-' && t[i] != '_' {
        first_separator_from(t, i + 1)
    } else {
        i
    }
}

/// The hyphenation language of a language tag: its primary subtag (the trimmed tag up to
/// the first `-` or `_`) in ASCII lower case, when that takes two bytes and `hypher` has a
/// language for those two bytes.
pub open spec fn lang_of_tag(tag: Seq<char>) -> Option<Lang> {
    let t = trimmed(tag);
    let primary = t.take(first_separator_from(t, 0)).map_values(|c: char| ascii_lower(c));
    if encode_utf8(primary).len() == 2 {
        hypher_lang(encode_utf8(primary))
    } else {
        None
    }
}

/// The `hypher` language for a BCP-47-like tag such as `en-US` or `pt_BR`: the primary
/// subtag, trimmed and lower-cased, must be a two-letter code that `hypher` knows.
pub fn hyphenation_lang_from_tag(value: &str) -> (r: Option<Lang>)
    ensures
        r == lang_of_tag(value@),
{
    let chars = chars_of(value);
    let (a, b) = trim_range(&chars);
    let ghost t = trimmed(value@);
    let mut primary: Vec<char> = Vec::new();
    let mut i: usize = a;
    while i < b && chars[i] != '-' && chars[i] != '_'
        invariant
            a <= i <= b <= chars@.len(),
            chars@.subrange(a as int, b as int) == t,
            first_separator_from(t, i - a) == first_separator_from(t, 0),
            primary@ == t.take(i - a).map_values(|c: char| ascii_lower(c)),
        decreases b - i,
    {
        primary.push(to_ascii_lower(chars[i]));
        proof {
            assert(t[i - a] == chars@[i as int]);
            assert(primary@ =~= t.take(i - a + 1).map_values(|c: char| ascii_lower(c)));
        }
        i = i + 1;
    }
    proof {
        assert(first_separator_from(t, i - a) == i - a);
    }
    let code = string_from_chars(primary.as_slice());
    let bytes = code.as_str().as_bytes();
    if bytes.len() != 2 {
        return None;
    }
    let iso: [u8; 2] = [bytes[0], bytes[1]];
    proof {
        assert(iso@ =~= encode_utf8(primary@));
    }
    hypher_lang_from_iso(iso)
}


/// Whether `p` is a run of pieces that, in order, cover `seg`: the first starts where `seg`
/// starts, each piece ends where the next begins and is a discretionary break drawn with a
/// hyphen whose next segment begins where it ends, and the last ends where `seg` ends, with
/// `seg`'s next offset and mandatory flag.
pub open spec fn covers_segment(p: Seq<LineSegment>, seg: LineSegment) -> bool {
    &&& p.len() >= 1
    &&& p[0].range.start == seg.range.start
    &&& p.last().range.end == seg.range.end
    &&& p.last().next_offset == seg.next_offset
    &&& p.last().is_mandatory == seg.is_mandatory
    &&& forall|k: int|
        0 <= k < p.len() - 1 ==> {
            &&& #[trigger] p[k].range.end == p[k + 1].range.start
            &&& p[k].next_offset == p[k].range.end
            &&& p[k].break_suffix == Some(LineBreakSuffix::Hyphen)
            &&& !p[k].is_mandatory
        }
}

/// Hyphenation never loses or reorders text: the pieces that a segment is split into cover
/// it exactly, in order, and only the last piece keeps the segment's own break.
pub proof fn law_hyphenation_pieces_cover_segment(cfg: Option<HyphenationConfig>, t: Seq<char>, seg: LineSegment)
    ensures
        covers_segment(hyphenated(cfg, t, seg), seg),
{
    let p = hyphenated(cfg, t, seg);
    if p.len() > 1 {
        let st = t.subrange(offset_index(t, seg.range.start as int), offset_index(t, seg.range.end as int));
        let (a, b) = word_core(st)->0;
        let core = st.subrange(a, b);
        let lens = byte_lens(hypher_syllables(core, cfg->0.lang));
        let cs = byte_offset(st, a);
        assert(p == syllable_pieces(seg, cs, lens));
        assert forall|k: int| 0 <= k < p.len() - 1 implies {
            &&& #[trigger] p[k].range.end == p[k + 1].range.start
            &&& p[k].next_offset == p[k].range.end
            &&& p[k].break_suffix == Some(LineBreakSuffix::Hyphen)
            &&& !p[k].is_mandatory
        } by {
            assert(p[k] == syllable_segment(seg, cs, lens, k));
            assert(p[k + 1] == syllable_segment(seg, cs, lens, k + 1));
        }
        assert(p.last() == syllable_segment(seg, cs, lens, lens.len() - 1));
        assert(p[0] == syllable_segment(seg, cs, lens, 0));
    }
}

/// Whether each segment of `segs` ends its line where the next segment begins.
pub open spec fn tiles(segs: Seq<LineSegment>) -> bool {
    forall|k: int| 0 <= k < segs.len() - 1 ==> #[trigger] segs[k].next_offset == segs[k + 1].range.start
}

proof fn lemma_segments_upto_tile(
    cfg: Option<HyphenationConfig>,
    t: Seq<char>,
    opps: Seq<LineBreakOpportunity>,
    n: int,
)
    requires
        0 <= n < opps.len(),
    ensures
        tiles(segments_upto(cfg, t, opps, n)),
        n > 0 ==> segments_upto(cfg, t, opps, n).len() >= 1 && segments_upto(cfg, t, opps, n)[0].range.start
            == opps[0].offset && segments_upto(cfg, t, opps, n).last().next_offset == opps[n].offset,
    decreases n,
{
    if n > 0 {
        lemma_segments_upto_tile(cfg, t, opps, n - 1);
        let prev = segments_upto(cfg, t, opps, n - 1);
        let seg = base_segment(t, opps, n - 1);
        let p = hyphenated(cfg, t, seg);
        law_hyphenation_pieces_cover_segment(cfg, t, seg);
        let all = segments_upto(cfg, t, opps, n);
        assert(all == prev + p);
        assert forall|k: int| 0 <= k < all.len() - 1 implies #[trigger] all[k].next_offset == all[k + 1].range.start by {
            if k < prev.len() - 1 {
                assert(all[k] == prev[k]);
                assert(all[k + 1] == prev[k + 1]);
            } else if k == prev.len() - 1 {
                assert(all[k] == prev.last());
                assert(all[k + 1] == p[0]);
            } else {
                assert(all[k] == p[k - prev.len()]);
                assert(all[k + 1] == p[k - prev.len() + 1]);
            }
        }
        if n == 1 {
            assert(prev.len() == 0);
            assert(all[0] == p[0]);
        } else {
            assert(all[0] == prev[0]);
        }
        assert(all.last() == p.last());
    }
}

/// The line segments tile the text: each one's `next_offset` is where the next segment
/// begins, whether the break between them is mandatory, discretionary or a hyphenation
/// point.
pub proof fn law_line_segments_tile(cfg: Option<HyphenationConfig>, chinese: bool, t: Seq<char>)
    ensures
        tiles(segments_of(cfg, chinese, t)),
{
    let opps = opportunities_of(chinese, t);
    if opps.len() >= 1 {
        lemma_segments_upto_tile(cfg, t, opps, opps.len() - 1);
    }
}

proof fn lemma_kept_upto(opps: Seq<LineBreakOpportunity>, ranges: Seq<Range<usize>>, n: int)
    requires
        0 <= n <= opps.len(),
    ensures
        forall|k: int|
            0 <= k < n && (opps[k].is_mandatory || !strictly_inside(ranges, opps[k].offset as int))
                ==> #[trigger] kept_upto(opps, ranges, n).contains(opps[k]),
        forall|j: int|
            0 <= j < kept_upto(opps, ranges, n).len() ==> opps.take(n).contains(
                #[trigger] kept_upto(opps, ranges, n)[j],
            ) && (kept_upto(opps, ranges, n)[j].is_mandatory || !strictly_inside(
                ranges,
                kept_upto(opps, ranges, n)[j].offset as int,
            )),
    decreases n,
{
    if n > 0 {
        lemma_kept_upto(opps, ranges, n - 1);
        let prev = kept_upto(opps, ranges, n - 1);
        let cur = kept_upto(opps, ranges, n);
        let o = opps[n - 1];
        assert forall|k: int|
            0 <= k < n && (opps[k].is_mandatory || !strictly_inside(ranges, opps[k].offset as int))
                implies #[trigger] cur.contains(opps[k]) by {
            if k < n - 1 {
                assert(prev.contains(opps[k]));
                let j = choose|j: int| 0 <= j < prev.len() && #[trigger] prev[j] == opps[k];
                assert(cur[j] == prev[j]);
            } else {
                assert(cur[prev.len() as int] == o);
            }
        }
        assert forall|j: int| 0 <= j < cur.len() implies opps.take(n).contains(#[trigger] cur[j]) && (
        cur[j].is_mandatory || !strictly_inside(ranges, cur[j].offset as int)) by {
            if j < prev.len() {
                assert(cur[j] == prev[j]);
                assert(opps.take(n - 1).contains(prev[j]));
                let i = choose|i: int| 0 <= i < n - 1 && #[trigger] opps.take(n - 1)[i] == prev[j];
                assert(opps.take(n)[i] == prev[j]);
            } else {
                assert(cur[j] == o);
                assert(opps.take(n)[n - 1] == o);
            }
        }
    }
}

/// Keeping Chinese words together only removes discretionary breaks: every mandatory
/// break, and every break outside the protected words, stays; every break that stays was
/// there before and is mandatory or outside every protected word.
pub proof fn law_word_protection_keeps_mandatory_breaks(opps: Seq<LineBreakOpportunity>, ranges: Seq<Range<usize>>)
    ensures
        forall|k: int|
            0 <= k < opps.len() && (opps[k].is_mandatory || !strictly_inside(ranges, opps[k].offset as int))
                ==> #[trigger] kept(opps, ranges).contains(opps[k]),
        forall|j: int|
            0 <= j < kept(opps, ranges).len() ==> opps.contains(#[trigger] kept(opps, ranges)[j]) && (kept(
                opps,
                ranges,
            )[j].is_mandatory || !strictly_inside(ranges, kept(opps, ranges)[j].offset as int)),
{
    lemma_kept_upto(opps, ranges, opps.len() as int);
    assert(opps.take(opps.len() as int) =~= opps);
}


proof fn lemma_ascii_lower_char(c: char)
    ensures
        is_white_space(ascii_lower(c)) == is_white_space(c),
        (ascii_lower(c) == '-') == (c == '-'),
        (ascii_lower(c) == '_') == (c == '_'),
        ascii_lower(ascii_lower(c)) == ascii_lower(c),
{
    if 'A' <= c <= 'Z' {
        let v = (c as u32) + 32;
        assert(97 <= v <= 122);
        assert((v as char) as u32 == v);
    }
}

proof fn lemma_first_ink_lowered(t: Seq<char>, i: int)
    requires
        0 <= i <= t.len(),
    ensures
        first_ink_from(t.map_values(|c: char| ascii_lower(c)), i) == first_ink_from(t, i),
    decreases t.len() - i,
{
    let u = t.map_values(|c: char| ascii_lower(c));
    if i < t.len() {
        lemma_ascii_lower_char(t[i]);
        assert(u[i] == ascii_lower(t[i]));
        lemma_first_ink_lowered(t, i + 1);
    }
}

proof fn lemma_last_ink_lowered(t: Seq<char>, j: int)
    requires
        0 <= j <= t.len(),
    ensures
        last_ink_end_from(t.map_values(|c: char| ascii_lower(c)), j) == last_ink_end_from(t, j),
    decreases j,
{
    let u = t.map_values(|c: char| ascii_lower(c));
    if j > 0 {
        lemma_ascii_lower_char(t[j - 1]);
        assert(u[j - 1] == ascii_lower(t[j - 1]));
        lemma_last_ink_lowered(t, j - 1);
    }
}

proof fn lemma_first_separator_bounds(t: Seq<char>, i: int)
    requires
        0 <= i <= t.len(),
    ensures
        i <= first_separator_from(t, i) <= t.len(),
    decreases t.len() - i,
{
    if i < t.len() && t[i] != '-' && t[i] != '_' {
        lemma_first_separator_bounds(t, i + 1);
    }
}

proof fn lemma_first_separator_lowered(t: Seq<char>, i: int)
    requires
        0 <= i <= t.len(),
    ensures
        first_separator_from(t.map_values(|c: char| ascii_lower(c)), i) == first_separator_from(t, i),
    decreases t.len() - i,
{
    let u = t.map_values(|c: char| ascii_lower(c));
    if i < t.len() {
        lemma_ascii_lower_char(t[i]);
        assert(u[i] == ascii_lower(t[i]));
        lemma_first_separator_lowered(t, i + 1);
    }
}

/// Language tags are read without regard to ASCII case: a tag and its lower-case form
/// name the same hyphenation language.
pub proof fn law_tag_case_does_not_matter(tag: Seq<char>)
    ensures
        lang_of_tag(tag.map_values(|c: char| ascii_lower(c))) == lang_of_tag(tag),
{
    let low = tag.map_values(|c: char| ascii_lower(c));
    crate::text::lemma_first_ink_from_bounds(tag, 0);
    crate::text::lemma_last_ink_end_from_bounds(tag, tag.len() as int);
    lemma_first_ink_lowered(tag, 0);
    lemma_last_ink_lowered(tag, tag.len() as int);
    let t = trimmed(tag);
    let tl = trimmed(low);
    assert(tl =~= t.map_values(|c: char| ascii_lower(c)));
    lemma_first_separator_lowered(t, 0);
    let k = first_separator_from(t, 0);
    lemma_first_separator_bounds(t, 0);
    let p = t.take(k).map_values(|c: char| ascii_lower(c));
    let pl = tl.take(k).map_values(|c: char| ascii_lower(c));
    assert forall|m: int| 0 <= m < k implies #[trigger] pl[m] == p[m] by {
        lemma_ascii_lower_char(t[m]);
    }
    assert(pl =~= p);
}


/// Trimming a segment's end removes exactly the mandatory break chars that end it: for a
/// segment that ends on a char boundary, the trimmed end is a char boundary no later than
/// the end, every char between the two is a mandatory break char, and the char before the
/// trimmed end, if it still lies past the start, is not one.
pub proof fn law_trim_removes_only_trailing_breaks(t: Seq<char>, start: int, e: int)
    requires
        0 <= e <= t.len(),
        start < byte_offset(t, e),
    ensures
        ({
            let r = trim_breaks_from(t, start, e);
            &&& trimmed_break_end(t, start, byte_offset(t, e)) == byte_offset(t, r)
            &&& r <= e
            &&& forall|k: int| r <= k < e ==> #[trigger] is_mandatory_break_char(t[k])
            &&& r > 0 && byte_offset(t, r) > start ==> !is_mandatory_break_char(t[r - 1])
        }),
{
    lemma_offset_index_exact(t, e);
    lemma_trim_breaks_from_bounds(t, start, e);
}


/// Whether an opportunity survives Chinese word protection against the word `ranges`: it is
/// mandatory, or it does not fall strictly inside a word.
pub open spec fn outside_words(ranges: Seq<Range<usize>>) -> spec_fn(LineBreakOpportunity) -> bool {
    |o: LineBreakOpportunity| o.is_mandatory || !strictly_inside(ranges, o.offset as int)
}

proof fn lemma_kept_upto_filter(opps: Seq<LineBreakOpportunity>, ranges: Seq<Range<usize>>, n: int)
    requires
        0 <= n <= opps.len(),
    ensures
        kept_upto(opps, ranges, n) == opps.take(n).filter(outside_words(ranges)),
    decreases n,
{
    reveal(Seq::filter);
    if n > 0 {
        lemma_kept_upto_filter(opps, ranges, n - 1);
        assert(opps.take(n).drop_last() =~= opps.take(n - 1));
        assert(opps.take(n).last() == opps[n - 1]);
    } else {
        assert(opps.take(0) =~= Seq::<LineBreakOpportunity>::empty());
    }
}

/// Keeping Chinese words together is a filter on ICU4X's opportunities: for Chinese text
/// (Han or Bopomofo and no kana) with word protection on, the opportunities are, in order,
/// exactly those of ICU4X that are mandatory or fall strictly inside no Chinese word that
/// jieba finds; otherwise they are ICU4X's, unchanged.
pub proof fn law_word_protection_is_a_filter(chinese: bool, t: Seq<char>)
    ensures
        opportunities_of(chinese, t) == (if chinese && segments_as_chinese(t) {
            icu_opportunities(t).filter(outside_words(chinese_ranges(jieba_words(t))))
        } else {
            icu_opportunities(t)
        }),
{
    let opps = icu_opportunities(t);
    lemma_kept_upto_filter(opps, chinese_ranges(jieba_words(t)), opps.len() as int);
    assert(opps.take(opps.len() as int) =~= opps);
}

/// Hyphenation measures a word in chars (Unicode scalar values), never in bytes: a segment
/// whose alphabetic core has fewer chars than `min_word_len` stays whole, however many bytes
/// its chars take.
pub proof fn law_short_words_stay_whole(cfg: HyphenationConfig, t: Seq<char>, seg: LineSegment, a: int, b: int)
    requires
        word_core(
            t.subrange(offset_index(t, seg.range.start as int), offset_index(t, seg.range.end as int)),
        ) == Some((a, b)),
        b - a < cfg.min_word_len,
    ensures
        hyphenated(Some(cfg), t, seg) == seq![seg],
{
    lemma_word_core_bounds(
        t.subrange(offset_index(t, seg.range.start as int), offset_index(t, seg.range.end as int)),
    );
}

/// A discretionary segment whose alphabetic core has at least `min_word_len` chars and more
/// than one syllable is split into one piece per syllable.
pub proof fn law_long_words_split_by_syllable(cfg: HyphenationConfig, t: Seq<char>, seg: LineSegment, a: int, b: int)
    requires
        !seg.is_mandatory,
        seg.range.start < seg.range.end,
        word_core(
            t.subrange(offset_index(t, seg.range.start as int), offset_index(t, seg.range.end as int)),
        ) == Some((a, b)),
        b - a >= cfg.min_word_len,
        hypher_syllables(
            t.subrange(offset_index(t, seg.range.start as int), offset_index(t, seg.range.end as int)).subrange(a, b),
            cfg.lang,
        ).len() > 1,
    ensures
        hyphenated(Some(cfg), t, seg).len() == hypher_syllables(
            t.subrange(offset_index(t, seg.range.start as int), offset_index(t, seg.range.end as int)).subrange(a, b),
            cfg.lang,
        ).len(),
{
    lemma_word_core_bounds(
        t.subrange(offset_index(t, seg.range.start as int), offset_index(t, seg.range.end as int)),
    );
}

proof fn lemma_word_core_bounds(st: Seq<char>)
    ensures
        word_core(st) matches Some((a, b)) ==> 0 <= a < b <= st.len(),
{
    lemma_first_alpha_from(st, 0);
    lemma_last_alpha_end_from(st, st.len() as int);
}

} // verus!
