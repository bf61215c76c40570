//! Unicode data and text services of outside crates that the text layout logic consults.

use vstd::prelude::*;
use hypher::Lang;
use icu_properties::props::{LineBreak, Script};
use icu_properties::CodePointMapData;
use icu_segmenter::options::LineBreakOptions;
use icu_segmenter::LineSegmenter;
use vstd::utf8::encode_utf8;
use crate::text::is_char_offset;

verus! {

/// A language whose hyphenation patterns `hypher` carries.
#[verifier::external_type_specification]
#[verifier::external_body]
pub struct ExLang(Lang);

/// The byte offsets of the line break opportunities that ICU4X's line segmenter (automatic
/// model selection, default options) finds in `text`.
pub uninterp spec fn icu_line_breaks(text: Seq<char>) -> Seq<usize>;

/// The Unicode Line_Break class of `c` in ICU4X's compiled data, by its ICU4C number.
pub uninterp spec fn line_break_class(c: char) -> u8;

/// The Unicode Script of `c` in ICU4X's compiled data, by its ICU4C number.
pub uninterp spec fn script_code(c: char) -> u16;

/// Whether `c` has the Unicode Alphabetic property, as `char::is_alphabetic` reports.
pub uninterp spec fn alphabetic(c: char) -> bool;

/// The words that jieba, with its default dictionary and HMM for unknown words, cuts `text`
/// into, in order.
pub uninterp spec fn jieba_words(text: Seq<char>) -> Seq<Seq<char>>;

/// The language `hypher` has for a two-byte ISO 639-1 code.
pub uninterp spec fn hypher_lang(code: Seq<u8>) -> Option<Lang>;

/// The syllables that `hypher` splits `word` into for `lang`, with the language's default
/// bounds.
pub uninterp spec fn hypher_syllables(word: Seq<char>, lang: Lang) -> Seq<Seq<char>>;

/// The pieces of `parts`, one after another.
pub open spec fn concat_all(parts: Seq<Seq<char>>) -> Seq<char>
    decreases parts.len(),
{
    if parts.len() == 0 {
        Seq::empty()
    } else {
        concat_all(parts.drop_last()) + parts.last()
    }
}

/// `LineSegmenter::new_auto(LineBreakOptions::default())` segmenting `text`, collected.
/// ICU4X documents that the breakpoints, byte offsets into the string, always include 0 and
/// the length of the string (only 0 for an empty string); its iterator walks the string's
/// `char_indices` forward and yields the position of the char after each break, so each
/// breakpoint is a char boundary and each comes after the one before. That is all that is
/// stated of them: which offsets in between are breakpoints is left to the name
/// `icu_line_breaks`.
#[verifier::external_body]
pub(crate) fn icu_line_break_offsets(text: &str) -> (r: Vec<usize>)
    ensures
        r@ == icu_line_breaks(text@),
        r@.len() >= 1,
        r@[0] == 0,
        forall|k: int| 0 <= k < r@.len() ==> #[trigger] is_char_offset(text@, r@[k] as int),
        forall|i: int, j: int| 0 <= i < j < r@.len() ==> r@[i] < r@[j],
        text@.len() > 0 ==> r@.len() >= 2 && r@.last() == encode_utf8(text@).len(),
{
    LineSegmenter::new_auto(LineBreakOptions::default()).segment_str(text).collect()
}

/// `CodePointMapData::<LineBreak>::new().get(c)`, as its ICU4C number: claimed to be the
/// value that the name `line_break_class` gives `c`, and nothing more.
#[verifier::external_body]
#[allow(deprecated)]
pub(crate) fn line_break_class_of(c: char) -> (r: u8)
    ensures
        r == line_break_class(c),
{
    CodePointMapData::<LineBreak>::new().get(c).to_icu4c_value()
}

/// `CodePointMapData::<Script>::new().get(c)`, as its ICU4C number: claimed to be the value
/// that the name `script_code` gives `c`, and nothing more.
#[verifier::external_body]
#[allow(deprecated)]
pub(crate) fn script_code_of(c: char) -> (r: u16)
    ensures
        r == script_code(c),
{
    CodePointMapData::<Script>::new().get(c).to_icu4c_value()
}

/// `char::is_alphabetic`: claimed to be the value that the name `alphabetic` gives `c`.
#[verifier::external_body]
pub(crate) fn is_alphabetic(c: char) -> (r: bool)
    ensures
        r == alphabetic(c),
{
    c.is_alphabetic()
}

/// `jieba_rs::Jieba::new().cut(text, true)`, each token's word as a `String`. Claimed: the
/// words are those that the name `jieba_words` gives `text`, and, as its source slices each
/// word out of `text` right after the one before (dictionary spans, HMM spans and single
/// chars alike), the words laid end to end spell `text`.
#[verifier::external_body]
pub(crate) fn jieba_cut(text: &str) -> (r: Vec<String>)
    ensures
        r@.len() == jieba_words(text@).len(),
        forall|i: int| 0 <= i < r@.len() ==> #[trigger] r@[i]@ == jieba_words(text@)[i],
        concat_all(r@.map_values(|s: String| s@)) == text@,
{
    jieba_rs::Jieba::new().cut(text, true).into_iter().map(|token| token.word.to_string()).collect()
}

/// `hypher::Lang::from_iso(code)`: claimed to be the language that the name `hypher_lang`
/// gives the two bytes.
#[verifier::external_body]
pub(crate) fn hypher_lang_from_iso(code: [u8; 2]) -> (r: Option<Lang>)
    ensures
        r == hypher_lang(code@),
{
    Lang::from_iso(code)
}

/// `hypher::hyphenate(word, lang)` (which hyphenates with the language's own bounds), each
/// syllable as a `String`. Claimed: the syllables are those that the name
/// `hypher_syllables` gives, and, as its source slices them out of `word` one after
/// another, each is non-empty and together they spell `word`.
#[verifier::external_body]
pub(crate) fn hyphenate(word: &str, lang: Lang) -> (r: Vec<String>)
    ensures
        r@.len() == hypher_syllables(word@, lang).len(),
        forall|i: int| 0 <= i < r@.len() ==> #[trigger] r@[i]@ == hypher_syllables(word@, lang)[i],
        concat_all(r@.map_values(|s: String| s@)) == word@,
        forall|i: int| 0 <= i < r@.len() ==> #[trigger] r@[i]@.len() > 0,
{
    hypher::hyphenate(word, lang).map(|s| s.to_string()).collect()
}

} // verus!
