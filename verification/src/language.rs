//! Languages the translator can target, with their BCP-47 tags, English names and aliases.

use vstd::prelude::*;
use crate::text::{
    all_white_space, chars_of, chars_range_eq, first_ink_from, is_white_space, last_ink_end_from,
    lemma_trimmed_idempotent, lemma_trimmed_padded, trim_range, trimmed,
};

verus! {

broadcast use vstd::string::group_string_axioms;

/// A language that text can be translated to.
#[derive(Debug, Clone, Copy, PartialEq, Eq, Hash, Structural)]
pub enum Language {
    ChineseSimplified,
    English,
    French,
    Portuguese,
    BrazilianPortuguese,
    Spanish,
    Japanese,
    Turkish,
    Russian,
    Arabic,
    Korean,
    Thai,
    Italian,
    German,
    Vietnamese,
    Malay,
    Indonesian,
    Filipino,
    Hindi,
    ChineseTraditional,
    Polish,
    Czech,
    Dutch,
    Khmer,
    Burmese,
    Persian,
    Gujarati,
    Urdu,
    Telugu,
    Marathi,
    Hebrew,
    Bengali,
    Bulgarian,
    Tamil,
    Ukrainian,
    Tibetan,
    Kazakh,
    Mongolian,
    Uyghur,
    Cantonese,
    Belarusian,
    Hungarian,
}

/// Every language, in declaration order.
pub open spec fn all_languages() -> Seq<Language> {
    seq![
        Language::ChineseSimplified,
        Language::English,
        Language::French,
        Language::Portuguese,
        Language::BrazilianPortuguese,
        Language::Spanish,
        Language::Japanese,
        Language::Turkish,
        Language::Russian,
        Language::Arabic,
        Language::Korean,
        Language::Thai,
        Language::Italian,
        Language::German,
        Language::Vietnamese,
        Language::Malay,
        Language::Indonesian,
        Language::Filipino,
        Language::Hindi,
        Language::ChineseTraditional,
        Language::Polish,
        Language::Czech,
        Language::Dutch,
        Language::Khmer,
        Language::Burmese,
        Language::Persian,
        Language::Gujarati,
        Language::Urdu,
        Language::Telugu,
        Language::Marathi,
        Language::Hebrew,
        Language::Bengali,
        Language::Bulgarian,
        Language::Tamil,
        Language::Ukrainian,
        Language::Tibetan,
        Language::Kazakh,
        Language::Mongolian,
        Language::Uyghur,
        Language::Cantonese,
        Language::Belarusian,
        Language::Hungarian,
    ]
}

/// Every language, in declaration order.
pub fn all_language_values() -> (r: Vec<Language>)
    ensures
        r@ == all_languages(),
{
    vec![
        Language::ChineseSimplified,
        Language::English,
        Language::French,
        Language::Portuguese,
        Language::BrazilianPortuguese,
        Language::Spanish,
        Language::Japanese,
        Language::Turkish,
        Language::Russian,
        Language::Arabic,
        Language::Korean,
        Language::Thai,
        Language::Italian,
        Language::German,
        Language::Vietnamese,
        Language::Malay,
        Language::Indonesian,
        Language::Filipino,
        Language::Hindi,
        Language::ChineseTraditional,
        Language::Polish,
        Language::Czech,
        Language::Dutch,
        Language::Khmer,
        Language::Burmese,
        Language::Persian,
        Language::Gujarati,
        Language::Urdu,
        Language::Telugu,
        Language::Marathi,
        Language::Hebrew,
        Language::Bengali,
        Language::Bulgarian,
        Language::Tamil,
        Language::Ukrainian,
        Language::Tibetan,
        Language::Kazakh,
        Language::Mongolian,
        Language::Uyghur,
        Language::Cantonese,
        Language::Belarusian,
        Language::Hungarian,
    ]
}

impl Language {
    /// The canonical BCP-47 tag of the language, such as `zh-CN`.
    pub open spec fn spec_tag(self) -> Seq<char> {
        match self {
            Language::ChineseSimplified => seq!['z', 'h', '-', 'C', 'N'],
            Language::English => seq!['e', 'n', '-', 'U', 'S'],
            Language::French => seq!['f', 'r', '-', 'F', 'R'],
            Language::Portuguese => seq!['p', 't', '-', 'P', 'T'],
            Language::BrazilianPortuguese => seq!['p', 't', '-', 'B', 'R'],
            Language::Spanish => seq!['e', 's', '-', 'E', 'S'],
            Language::Japanese => seq!['j', 'a', '-', 'J', 'P'],
            Language::Turkish => seq!['t', 'r', '-', 'T', 'R'],
            Language::Russian => seq!['r', 'u', '-', 'R', 'U'],
            Language::Arabic => seq!['a', 'r', '-', 'S', 'A'],
            Language::Korean => seq!['k', 'o', '-', 'K', 'R'],
            Language::Thai => seq!['t', 'h', '-', 'T', 'H'],
            Language::Italian => seq!['i', 't', '-', 'I', 'T'],
            Language::German => seq!['d', 'e', '-', 'D', 'E'],
            Language::Vietnamese => seq!['v', 'i', '-', 'V', 'N'],
            Language::Malay => seq!['m', 's', '-', 'M', 'Y'],
            Language::Indonesian => seq!['i', 'd', '-', 'I', 'D'],
            Language::Filipino => seq!['f', 'i', 'l', '-', 'P', 'H'],
            Language::Hindi => seq!['h', 'i', '-', 'I', 'N'],
            Language::ChineseTraditional => seq!['z', 'h', '-', 'T', 'W'],
            Language::Polish => seq!['p', 'l', '-', 'P', 'L'],
            Language::Czech => seq!['c', 's', '-', 'C', 'Z'],
            Language::Dutch => seq!['n', 'l', '-', 'N', 'L'],
            Language::Khmer => seq!['k', 'm', '-', 'K', 'H'],
            Language::Burmese => seq!['m', 'y', '-', 'M', 'M'],
            Language::Persian => seq!['f', 'a', '-', 'I', 'R'],
            Language::Gujarati => seq!['g', 'u', '-', 'I', 'N'],
            Language::Urdu => seq!['u', 'r', '-', 'P', 'K'],
            Language::Telugu => seq!['t', 'e', '-', 'I', 'N'],
            Language::Marathi => seq!['m', 'r', '-', 'I', 'N'],
            Language::Hebrew => seq!['h', 'e', '-', 'I', 'L'],
            Language::Bengali => seq!['b', 'n', '-', 'B', 'D'],
            Language::Bulgarian => seq!['b', 'g', '-', 'B', 'G'],
            Language::Tamil => seq!['t', 'a', '-', 'I', 'N'],
            Language::Ukrainian => seq!['u', 'k', '-', 'U', 'A'],
            Language::Tibetan => seq!['b', 'o', '-', 'C', 'N'],
            Language::Kazakh => seq!['k', 'k', '-', 'K', 'Z'],
            Language::Mongolian => seq!['m', 'n', '-', 'M', 'N'],
            Language::Uyghur => seq!['u', 'g', '-', 'C', 'N'],
            Language::Cantonese => seq!['y', 'u', 'e', '-', 'H', 'K'],
            Language::Belarusian => seq!['b', 'e', '-', 'B', 'Y'],
            Language::Hungarian => seq!['h', 'u', '-', 'H', 'U'],
        }
    }

    /// The English name of the language, such as `Simplified Chinese`.
    pub open spec fn spec_name(self) -> Seq<char> {
        match self {
            Language::ChineseSimplified => seq!['S', 'i', 'm', 'p', 'l', 'i', 'f', 'i', 'e', 'd', ' ', 'C', 'h', 'i', 'n', 'e', 's', 'e'],
            Language::English => seq!['E', 'n', 'g', 'l', 'i', 's', 'h'],
            Language::French => seq!['F', 'r', 'e', 'n', 'c', 'h'],
            Language::Portuguese => seq!['P', 'o', 'r', 't', 'u', 'g', 'u', 'e', 's', 'e'],
            Language::BrazilianPortuguese => seq!['B', 'r', 'a', 'z', 'i', 'l', 'i', 'a', 'n', ' ', 'P', 'o', 'r', 't', 'u', 'g', 'u', 'e', 's', 'e'],
            Language::Spanish => seq!['S', 'p', 'a', 'n', 'i', 's', 'h'],
            Language::Japanese => seq!['J', 'a', 'p', 'a', 'n', 'e', 's', 'e'],
            Language::Turkish => seq!['T', 'u', 'r', 'k', 'i', 's', 'h'],
            Language::Russian => seq!['R', 'u', 's', 's', 'i', 'a', 'n'],
            Language::Arabic => seq!['A', 'r', 'a', 'b', 'i', 'c'],
            Language::Korean => seq!['K', 'o', 'r', 'e', 'a', 'n'],
            Language::Thai => seq!['T', 'h', 'a', 'i'],
            Language::Italian => seq!['I', 't', 'a', 'l', 'i', 'a', 'n'],
            Language::German => seq!['G', 'e', 'r', 'm', 'a', 'n'],
            Language::Vietnamese => seq!['V', 'i', 'e', 't', 'n', 'a', 'm', 'e', 's', 'e'],
            Language::Malay => seq!['M', 'a', 'l', 'a', 'y'],
            Language::Indonesian => seq!['I', 'n', 'd', 'o', 'n', 'e', 's', 'i', 'a', 'n'],
            Language::Filipino => seq!['F', 'i', 'l', 'i', 'p', 'i', 'n', 'o'],
            Language::Hindi => seq!['H', 'i', 'n', 'd', 'i'],
            Language::ChineseTraditional => seq!['T', 'r', 'a', 'd', 'i', 't', 'i', 'o', 'n', 'a', 'l', ' ', 'C', 'h', 'i', 'n', 'e', 's', 'e'],
            Language::Polish => seq!['P', 'o', 'l', 'i', 's', 'h'],
            Language::Czech => seq!['C', 'z', 'e', 'c', 'h'],
            Language::Dutch => seq!['D', 'u', 't', 'c', 'h'],
            Language::Khmer => seq!['K', 'h', 'm', 'e', 'r'],
            Language::Burmese => seq!['B', 'u', 'r', 'm', 'e', 's', 'e'],
            Language::Persian => seq!['P', 'e', 'r', 's', 'i', 'a', 'n'],
            Language::Gujarati => seq!['G', 'u', 'j', 'a', 'r', 'a', 't', 'i'],
            Language::Urdu => seq!['U', 'r', 'd', 'u'],
            Language::Telugu => seq!['T', 'e', 'l', 'u', 'g', 'u'],
            Language::Marathi => seq!['M', 'a', 'r', 'a', 't', 'h', 'i'],
            Language::Hebrew => seq!['H', 'e', 'b', 'r', 'e', 'w'],
            Language::Bengali => seq!['B', 'e', 'n', 'g', 'a', 'l', 'i'],
            Language::Bulgarian => seq!['B', 'u', 'l', 'g', 'a', 'r', 'i', 'a', 'n'],
            Language::Tamil => seq!['T', 'a', 'm', 'i', 'l'],
            Language::Ukrainian => seq!['U', 'k', 'r', 'a', 'i', 'n', 'i', 'a', 'n'],
            Language::Tibetan => seq!['T', 'i', 'b', 'e', 't', 'a', 'n'],
            Language::Kazakh => seq!['K', 'a', 'z', 'a', 'k', 'h'],
            Language::Mongolian => seq!['M', 'o', 'n', 'g', 'o', 'l', 'i', 'a', 'n'],
            Language::Uyghur => seq!['U', 'y', 'g', 'h', 'u', 'r'],
            Language::Cantonese => seq!['C', 'a', 'n', 't', 'o', 'n', 'e', 's', 'e'],
            Language::Belarusian => seq!['B', 'e', 'l', 'a', 'r', 'u', 's', 'i', 'a', 'n'],
            Language::Hungarian => seq!['H', 'u', 'n', 'g', 'a', 'r', 'i', 'a', 'n'],
        }
    }

    /// Every spelling that names the language: its English name, its tag, then its
    /// aliases.
    pub open spec fn spellings(self) -> Seq<Seq<char>> {
        match self {
            Language::ChineseSimplified => seq![seq!['S', 'i', 'm', 'p', 'l', 'i', 'f', 'i', 'e', 'd', ' ', 'C', 'h', 'i', 'n', 'e', 's', 'e'], seq!['z', 'h', '-', 'C', 'N'], seq!['z', 'h'], seq!['z', 'h', '-', 'H', 'a', 'n', 's']],
            Language::English => seq![seq!['E', 'n', 'g', 'l', 'i', 's', 'h'], seq!['e', 'n', '-', 'U', 'S'], seq!['e', 'n']],
            Language::French => seq![seq!['F', 'r', 'e', 'n', 'c', 'h'], seq!['f', 'r', '-', 'F', 'R'], seq!['f', 'r']],
            Language::Portuguese => seq![seq!['P', 'o', 'r', 't', 'u', 'g', 'u', 'e', 's', 'e'], seq!['p', 't', '-', 'P', 'T'], seq!['p', 't']],
            Language::BrazilianPortuguese => seq![seq!['B', 'r', 'a', 'z', 'i', 'l', 'i', 'a', 'n', ' ', 'P', 'o', 'r', 't', 'u', 'g', 'u', 'e', 's', 'e'], seq!['p', 't', '-', 'B', 'R']],
            Language::Spanish => seq![seq!['S', 'p', 'a', 'n', 'i', 's', 'h'], seq!['e', 's', '-', 'E', 'S'], seq!['e', 's']],
            Language::Japanese => seq![seq!['J', 'a', 'p', 'a', 'n', 'e', 's', 'e'], seq!['j', 'a', '-', 'J', 'P'], seq!['j', 'a']],
            Language::Turkish => seq![seq!['T', 'u', 'r', 'k', 'i', 's', 'h'], seq!['t', 'r', '-', 'T', 'R'], seq!['t', 'r']],
            Language::Russian => seq![seq!['R', 'u', 's', 's', 'i', 'a', 'n'], seq!['r', 'u', '-', 'R', 'U'], seq!['r', 'u']],
            Language::Arabic => seq![seq!['A', 'r', 'a', 'b', 'i', 'c'], seq!['a', 'r', '-', 'S', 'A'], seq!['a', 'r']],
            Language::Korean => seq![seq!['K', 'o', 'r', 'e', 'a', 'n'], seq!['k', 'o', '-', 'K', 'R'], seq!['k', 'o']],
            Language::Thai => seq![seq!['T', 'h', 'a', 'i'], seq!['t', 'h', '-', 'T', 'H'], seq!['t', 'h']],
            Language::Italian => seq![seq!['I', 't', 'a', 'l', 'i', 'a', 'n'], seq!['i', 't', '-', 'I', 'T'], seq!['i', 't']],
            Language::German => seq![seq!['G', 'e', 'r', 'm', 'a', 'n'], seq!['d', 'e', '-', 'D', 'E'], seq!['d', 'e']],
            Language::Vietnamese => seq![seq!['V', 'i', 'e', 't', 'n', 'a', 'm', 'e', 's', 'e'], seq!['v', 'i', '-', 'V', 'N'], seq!['v', 'i']],
            Language::Malay => seq![seq!['M', 'a', 'l', 'a', 'y'], seq!['m', 's', '-', 'M', 'Y'], seq!['m', 's']],
            Language::Indonesian => seq![seq!['I', 'n', 'd', 'o', 'n', 'e', 's', 'i', 'a', 'n'], seq!['i', 'd', '-', 'I', 'D'], seq!['i', 'd']],
            Language::Filipino => seq![seq!['F', 'i', 'l', 'i', 'p', 'i', 'n', 'o'], seq!['f', 'i', 'l', '-', 'P', 'H'], seq!['f', 'i', 'l'], seq!['t', 'l']],
            Language::Hindi => seq![seq!['H', 'i', 'n', 'd', 'i'], seq!['h', 'i', '-', 'I', 'N'], seq!['h', 'i']],
            Language::ChineseTraditional => seq![seq!['T', 'r', 'a', 'd', 'i', 't', 'i', 'o', 'n', 'a', 'l', ' ', 'C', 'h', 'i', 'n', 'e', 's', 'e'], seq!['z', 'h', '-', 'T', 'W'], seq!['z', 'h', '-', 'H', 'a', 'n', 't']],
            Language::Polish => seq![seq!['P', 'o', 'l', 'i', 's', 'h'], seq!['p', 'l', '-', 'P', 'L'], seq!['p', 'l']],
            Language::Czech => seq![seq!['C', 'z', 'e', 'c', 'h'], seq!['c', 's', '-', 'C', 'Z'], seq!['c', 's']],
            Language::Dutch => seq![seq!['D', 'u', 't', 'c', 'h'], seq!['n', 'l', '-', 'N', 'L'], seq!['n', 'l']],
            Language::Khmer => seq![seq!['K', 'h', 'm', 'e', 'r'], seq!['k', 'm', '-', 'K', 'H'], seq!['k', 'm']],
            Language::Burmese => seq![seq!['B', 'u', 'r', 'm', 'e', 's', 'e'], seq!['m', 'y', '-', 'M', 'M'], seq!['m', 'y']],
            Language::Persian => seq![seq!['P', 'e', 'r', 's', 'i', 'a', 'n'], seq!['f', 'a', '-', 'I', 'R'], seq!['f', 'a']],
            Language::Gujarati => seq![seq!['G', 'u', 'j', 'a', 'r', 'a', 't', 'i'], seq!['g', 'u', '-', 'I', 'N'], seq!['g', 'u']],
            Language::Urdu => seq![seq!['U', 'r', 'd', 'u'], seq!['u', 'r', '-', 'P', 'K'], seq!['u', 'r']],
            Language::Telugu => seq![seq!['T', 'e', 'l', 'u', 'g', 'u'], seq!['t', 'e', '-', 'I', 'N'], seq!['t', 'e']],
            Language::Marathi => seq![seq!['M', 'a', 'r', 'a', 't', 'h', 'i'], seq!['m', 'r', '-', 'I', 'N'], seq!['m', 'r']],
            Language::Hebrew => seq![seq!['H', 'e', 'b', 'r', 'e', 'w'], seq!['h', 'e', '-', 'I', 'L'], seq!['h', 'e']],
            Language::Bengali => seq![seq!['B', 'e', 'n', 'g', 'a', 'l', 'i'], seq!['b', 'n', '-', 'B', 'D'], seq!['b', 'n']],
            Language::Bulgarian => seq![seq!['B', 'u', 'l', 'g', 'a', 'r', 'i', 'a', 'n'], seq!['b', 'g', '-', 'B', 'G'], seq!['b', 'g']],
            Language::Tamil => seq![seq!['T', 'a', 'm', 'i', 'l'], seq!['t', 'a', '-', 'I', 'N'], seq!['t', 'a']],
            Language::Ukrainian => seq![seq!['U', 'k', 'r', 'a', 'i', 'n', 'i', 'a', 'n'], seq!['u', 'k', '-', 'U', 'A'], seq!['u', 'k']],
            Language::Tibetan => seq![seq!['T', 'i', 'b', 'e', 't', 'a', 'n'], seq!['b', 'o', '-', 'C', 'N'], seq!['b', 'o']],
            Language::Kazakh => seq![seq!['K', 'a', 'z', 'a', 'k', 'h'], seq!['k', 'k', '-', 'K', 'Z'], seq!['k', 'k']],
            Language::Mongolian => seq![seq!['M', 'o', 'n', 'g', 'o', 'l', 'i', 'a', 'n'], seq!['m', 'n', '-', 'M', 'N'], seq!['m', 'n']],
            Language::Uyghur => seq![seq!['U', 'y', 'g', 'h', 'u', 'r'], seq!['u', 'g', '-', 'C', 'N'], seq!['u', 'g']],
            Language::Cantonese => seq![seq!['C', 'a', 'n', 't', 'o', 'n', 'e', 's', 'e'], seq!['y', 'u', 'e', '-', 'H', 'K'], seq!['y', 'u', 'e']],
            Language::Belarusian => seq![seq!['B', 'e', 'l', 'a', 'r', 'u', 's', 'i', 'a', 'n'], seq!['b', 'e', '-', 'B', 'Y'], seq!['b', 'e']],
            Language::Hungarian => seq![seq!['H', 'u', 'n', 'g', 'a', 'r', 'i', 'a', 'n'], seq!['h', 'u', '-', 'H', 'U'], seq!['h', 'u']],
        }
    }

    /// The canonical BCP-47 tag of the language, such as `zh-CN`.
    pub fn tag(self) -> (r: &'static str)
        ensures
            r@ == self.spec_tag(),
    {
        match self {
            Language::ChineseSimplified => {
                proof {
                    reveal_strlit("zh-CN");
                }
                "zh-CN"
            },
            Language::English => {
                proof {
                    reveal_strlit("en-US");
                }
                "en-US"
            },
            Language::French => {
                proof {
                    reveal_strlit("fr-FR");
                }
                "fr-FR"
            },
            Language::Portuguese => {
                proof {
                    reveal_strlit("pt-PT");
                }
                "pt-PT"
            },
            Language::BrazilianPortuguese => {
                proof {
                    reveal_strlit("pt-BR");
                }
                "pt-BR"
            },
            Language::Spanish => {
                proof {
                    reveal_strlit("es-ES");
                }
                "es-ES"
            },
            Language::Japanese => {
                proof {
                    reveal_strlit("ja-JP");
                }
                "ja-JP"
            },
            Language::Turkish => {
                proof {
                    reveal_strlit("tr-TR");
                }
                "tr-TR"
            },
            Language::Russian => {
                proof {
                    reveal_strlit("ru-RU");
                }
                "ru-RU"
            },
            Language::Arabic => {
                proof {
                    reveal_strlit("ar-SA");
                }
                "ar-SA"
            },
            Language::Korean => {
                proof {
                    reveal_strlit("ko-KR");
                }
                "ko-KR"
            },
            Language::Thai => {
                proof {
                    reveal_strlit("th-TH");
                }
                "th-TH"
            },
            Language::Italian => {
                proof {
                    reveal_strlit("it-IT");
                }
                "it-IT"
            },
            Language::German => {
                proof {
                    reveal_strlit("de-DE");
                }
                "de-DE"
            },
            Language::Vietnamese => {
                proof {
                    reveal_strlit("vi-VN");
                }
                "vi-VN"
            },
            Language::Malay => {
                proof {
                    reveal_strlit("ms-MY");
                }
                "ms-MY"
            },
            Language::Indonesian => {
                proof {
                    reveal_strlit("id-ID");
                }
                "id-ID"
            },
            Language::Filipino => {
                proof {
                    reveal_strlit("fil-PH");
                }
                "fil-PH"
            },
            Language::Hindi => {
                proof {
                    reveal_strlit("hi-IN");
                }
                "hi-IN"
            },
            Language::ChineseTraditional => {
                proof {
                    reveal_strlit("zh-TW");
                }
                "zh-TW"
            },
            Language::Polish => {
                proof {
                    reveal_strlit("pl-PL");
                }
                "pl-PL"
            },
            Language::Czech => {
                proof {
                    reveal_strlit("cs-CZ");
                }
                "cs-CZ"
            },
            Language::Dutch => {
                proof {
                    reveal_strlit("nl-NL");
                }
                "nl-NL"
            },
            Language::Khmer => {
                proof {
                    reveal_strlit("km-KH");
                }
                "km-KH"
            },
            Language::Burmese => {
                proof {
                    reveal_strlit("my-MM");
                }
                "my-MM"
            },
            Language::Persian => {
                proof {
                    reveal_strlit("fa-IR");
                }
                "fa-IR"
            },
            Language::Gujarati => {
                proof {
                    reveal_strlit("gu-IN");
                }
                "gu-IN"
            },
            Language::Urdu => {
                proof {
                    reveal_strlit("ur-PK");
                }
                "ur-PK"
            },
            Language::Telugu => {
                proof {
                    reveal_strlit("te-IN");
                }
                "te-IN"
            },
            Language::Marathi => {
                proof {
                    reveal_strlit("mr-IN");
                }
                "mr-IN"
            },
            Language::Hebrew => {
                proof {
                    reveal_strlit("he-IL");
                }
                "he-IL"
            },
            Language::Bengali => {
                proof {
                    reveal_strlit("bn-BD");
                }
                "bn-BD"
            },
            Language::Bulgarian => {
                proof {
                    reveal_strlit("bg-BG");
                }
                "bg-BG"
            },
            Language::Tamil => {
                proof {
                    reveal_strlit("ta-IN");
                }
                "ta-IN"
            },
            Language::Ukrainian => {
                proof {
                    reveal_strlit("uk-UA");
                }
                "uk-UA"
            },
            Language::Tibetan => {
                proof {
                    reveal_strlit("bo-CN");
                }
                "bo-CN"
            },
            Language::Kazakh => {
                proof {
                    reveal_strlit("kk-KZ");
                }
                "kk-KZ"
            },
            Language::Mongolian => {
                proof {
                    reveal_strlit("mn-MN");
                }
                "mn-MN"
            },
            Language::Uyghur => {
                proof {
                    reveal_strlit("ug-CN");
                }
                "ug-CN"
            },
            Language::Cantonese => {
                proof {
                    reveal_strlit("yue-HK");
                }
                "yue-HK"
            },
            Language::Belarusian => {
                proof {
                    reveal_strlit("be-BY");
                }
                "be-BY"
            },
            Language::Hungarian => {
                proof {
                    reveal_strlit("hu-HU");
                }
                "hu-HU"
            },
        }
    }

    /// The English name of the language, such as `Simplified Chinese`.
    pub fn name(self) -> (r: &'static str)
        ensures
            r@ == self.spec_name(),
    {
        match self {
            Language::ChineseSimplified => {
                proof {
                    reveal_strlit("Simplified Chinese");
                }
                "Simplified Chinese"
            },
            Language::English => {
                proof {
                    reveal_strlit("English");
                }
                "English"
            },
            Language::French => {
                proof {
                    reveal_strlit("French");
                }
                "French"
            },
            Language::Portuguese => {
                proof {
                    reveal_strlit("Portuguese");
                }
                "Portuguese"
            },
            Language::BrazilianPortuguese => {
                proof {
                    reveal_strlit("Brazilian Portuguese");
                }
                "Brazilian Portuguese"
            },
            Language::Spanish => {
                proof {
                    reveal_strlit("Spanish");
                }
                "Spanish"
            },
            Language::Japanese => {
                proof {
                    reveal_strlit("Japanese");
                }
                "Japanese"
            },
            Language::Turkish => {
                proof {
                    reveal_strlit("Turkish");
                }
                "Turkish"
            },
            Language::Russian => {
                proof {
                    reveal_strlit("Russian");
                }
                "Russian"
            },
            Language::Arabic => {
                proof {
                    reveal_strlit("Arabic");
                }
                "Arabic"
            },
            Language::Korean => {
                proof {
                    reveal_strlit("Korean");
                }
                "Korean"
            },
            Language::Thai => {
                proof {
                    reveal_strlit("Thai");
                }
                "Thai"
            },
            Language::Italian => {
                proof {
                    reveal_strlit("Italian");
                }
                "Italian"
            },
            Language::German => {
                proof {
                    reveal_strlit("German");
                }
                "German"
            },
            Language::Vietnamese => {
                proof {
                    reveal_strlit("Vietnamese");
                }
                "Vietnamese"
            },
            Language::Malay => {
                proof {
                    reveal_strlit("Malay");
                }
                "Malay"
            },
            Language::Indonesian => {
                proof {
                    reveal_strlit("Indonesian");
                }
                "Indonesian"
            },
            Language::Filipino => {
                proof {
                    reveal_strlit("Filipino");
                }
                "Filipino"
            },
            Language::Hindi => {
                proof {
                    reveal_strlit("Hindi");
                }
                "Hindi"
            },
            Language::ChineseTraditional => {
                proof {
                    reveal_strlit("Traditional Chinese");
                }
                "Traditional Chinese"
            },
            Language::Polish => {
                proof {
                    reveal_strlit("Polish");
                }
                "Polish"
            },
            Language::Czech => {
                proof {
                    reveal_strlit("Czech");
                }
                "Czech"
            },
            Language::Dutch => {
                proof {
                    reveal_strlit("Dutch");
                }
                "Dutch"
            },
            Language::Khmer => {
                proof {
                    reveal_strlit("Khmer");
                }
                "Khmer"
            },
            Language::Burmese => {
                proof {
                    reveal_strlit("Burmese");
                }
                "Burmese"
            },
            Language::Persian => {
                proof {
                    reveal_strlit("Persian");
                }
                "Persian"
            },
            Language::Gujarati => {
                proof {
                    reveal_strlit("Gujarati");
                }
                "Gujarati"
            },
            Language::Urdu => {
                proof {
                    reveal_strlit("Urdu");
                }
                "Urdu"
            },
            Language::Telugu => {
                proof {
                    reveal_strlit("Telugu");
                }
                "Telugu"
            },
            Language::Marathi => {
                proof {
                    reveal_strlit("Marathi");
                }
                "Marathi"
            },
            Language::Hebrew => {
                proof {
                    reveal_strlit("Hebrew");
                }
                "Hebrew"
            },
            Language::Bengali => {
                proof {
                    reveal_strlit("Bengali");
                }
                "Bengali"
            },
            Language::Bulgarian => {
                proof {
                    reveal_strlit("Bulgarian");
                }
                "Bulgarian"
            },
            Language::Tamil => {
                proof {
                    reveal_strlit("Tamil");
                }
                "Tamil"
            },
            Language::Ukrainian => {
                proof {
                    reveal_strlit("Ukrainian");
                }
                "Ukrainian"
            },
            Language::Tibetan => {
                proof {
                    reveal_strlit("Tibetan");
                }
                "Tibetan"
            },
            Language::Kazakh => {
                proof {
                    reveal_strlit("Kazakh");
                }
                "Kazakh"
            },
            Language::Mongolian => {
                proof {
                    reveal_strlit("Mongolian");
                }
                "Mongolian"
            },
            Language::Uyghur => {
                proof {
                    reveal_strlit("Uyghur");
                }
                "Uyghur"
            },
            Language::Cantonese => {
                proof {
                    reveal_strlit("Cantonese");
                }
                "Cantonese"
            },
            Language::Belarusian => {
                proof {
                    reveal_strlit("Belarusian");
                }
                "Belarusian"
            },
            Language::Hungarian => {
                proof {
                    reveal_strlit("Hungarian");
                }
                "Hungarian"
            },
        }
    }

    /// Every spelling that names the language, in the order of `spellings`.
    fn spelling_list(self) -> (r: Vec<&'static str>)
        ensures
            r@.len() == self.spellings().len(),
            forall|i: int| 0 <= i < r@.len() ==> #[trigger] r@[i]@ == self.spellings()[i],
    {
        match self {
            Language::ChineseSimplified => {
                proof {
                    reveal_strlit("Simplified Chinese");
                    reveal_strlit("zh-CN");
                    reveal_strlit("zh");
                    reveal_strlit("zh-Hans");
                }
                vec!["Simplified Chinese", "zh-CN", "zh", "zh-Hans"]
            },
            Language::English => {
                proof {
                    reveal_strlit("English");
                    reveal_strlit("en-US");
                    reveal_strlit("en");
                }
                vec!["English", "en-US", "en"]
            },
            Language::French => {
                proof {
                    reveal_strlit("French");
                    reveal_strlit("fr-FR");
                    reveal_strlit("fr");
                }
                vec!["French", "fr-FR", "fr"]
            },
            Language::Portuguese => {
                proof {
                    reveal_strlit("Portuguese");
                    reveal_strlit("pt-PT");
                    reveal_strlit("pt");
                }
                vec!["Portuguese", "pt-PT", "pt"]
            },
            Language::BrazilianPortuguese => {
                proof {
                    reveal_strlit("Brazilian Portuguese");
                    reveal_strlit("pt-BR");
                }
                vec!["Brazilian Portuguese", "pt-BR"]
            },
            Language::Spanish => {
                proof {
                    reveal_strlit("Spanish");
                    reveal_strlit("es-ES");
                    reveal_strlit("es");
                }
                vec!["Spanish", "es-ES", "es"]
            },
            Language::Japanese => {
                proof {
                    reveal_strlit("Japanese");
                    reveal_strlit("ja-JP");
                    reveal_strlit("ja");
                }
                vec!["Japanese", "ja-JP", "ja"]
            },
            Language::Turkish => {
                proof {
                    reveal_strlit("Turkish");
                    reveal_strlit("tr-TR");
                    reveal_strlit("tr");
                }
                vec!["Turkish", "tr-TR", "tr"]
            },
            Language::Russian => {
                proof {
                    reveal_strlit("Russian");
                    reveal_strlit("ru-RU");
                    reveal_strlit("ru");
                }
                vec!["Russian", "ru-RU", "ru"]
            },
            Language::Arabic => {
                proof {
                    reveal_strlit("Arabic");
                    reveal_strlit("ar-SA");
                    reveal_strlit("ar");
                }
                vec!["Arabic", "ar-SA", "ar"]
            },
            Language::Korean => {
                proof {
                    reveal_strlit("Korean");
                    reveal_strlit("ko-KR");
                    reveal_strlit("ko");
                }
                vec!["Korean", "ko-KR", "ko"]
            },
            Language::Thai => {
                proof {
                    reveal_strlit("Thai");
                    reveal_strlit("th-TH");
                    reveal_strlit("th");
                }
                vec!["Thai", "th-TH", "th"]
            },
            Language::Italian => {
                proof {
                    reveal_strlit("Italian");
                    reveal_strlit("it-IT");
                    reveal_strlit("it");
                }
                vec!["Italian", "it-IT", "it"]
            },
            Language::German => {
                proof {
                    reveal_strlit("German");
                    reveal_strlit("de-DE");
                    reveal_strlit("de");
                }
                vec!["German", "de-DE", "de"]
            },
            Language::Vietnamese => {
                proof {
                    reveal_strlit("Vietnamese");
                    reveal_strlit("vi-VN");
                    reveal_strlit("vi");
                }
                vec!["Vietnamese", "vi-VN", "vi"]
            },
            Language::Malay => {
                proof {
                    reveal_strlit("Malay");
                    reveal_strlit("ms-MY");
                    reveal_strlit("ms");
                }
                vec!["Malay", "ms-MY", "ms"]
            },
            Language::Indonesian => {
                proof {
                    reveal_strlit("Indonesian");
                    reveal_strlit("id-ID");
                    reveal_strlit("id");
                }
                vec!["Indonesian", "id-ID", "id"]
            },
            Language::Filipino => {
                proof {
                    reveal_strlit("Filipino");
                    reveal_strlit("fil-PH");
                    reveal_strlit("fil");
                    reveal_strlit("tl");
                }
                vec!["Filipino", "fil-PH", "fil", "tl"]
            },
            Language::Hindi => {
                proof {
                    reveal_strlit("Hindi");
                    reveal_strlit("hi-IN");
                    reveal_strlit("hi");
                }
                vec!["Hindi", "hi-IN", "hi"]
            },
            Language::ChineseTraditional => {
                proof {
                    reveal_strlit("Traditional Chinese");
                    reveal_strlit("zh-TW");
                    reveal_strlit("zh-Hant");
                }
                vec!["Traditional Chinese", "zh-TW", "zh-Hant"]
            },
            Language::Polish => {
                proof {
                    reveal_strlit("Polish");
                    reveal_strlit("pl-PL");
                    reveal_strlit("pl");
                }
                vec!["Polish", "pl-PL", "pl"]
            },
            Language::Czech => {
                proof {
                    reveal_strlit("Czech");
                    reveal_strlit("cs-CZ");
                    reveal_strlit("cs");
                }
                vec!["Czech", "cs-CZ", "cs"]
            },
            Language::Dutch => {
                proof {
                    reveal_strlit("Dutch");
                    reveal_strlit("nl-NL");
                    reveal_strlit("nl");
                }
                vec!["Dutch", "nl-NL", "nl"]
            },
            Language::Khmer => {
                proof {
                    reveal_strlit("Khmer");
                    reveal_strlit("km-KH");
                    reveal_strlit("km");
                }
                vec!["Khmer", "km-KH", "km"]
            },
            Language::Burmese => {
                proof {
                    reveal_strlit("Burmese");
                    reveal_strlit("my-MM");
                    reveal_strlit("my");
                }
                vec!["Burmese", "my-MM", "my"]
            },
            Language::Persian => {
                proof {
                    reveal_strlit("Persian");
                    reveal_strlit("fa-IR");
                    reveal_strlit("fa");
                }
                vec!["Persian", "fa-IR", "fa"]
            },
            Language::Gujarati => {
                proof {
                    reveal_strlit("Gujarati");
                    reveal_strlit("gu-IN");
                    reveal_strlit("gu");
                }
                vec!["Gujarati", "gu-IN", "gu"]
            },
            Language::Urdu => {
                proof {
                    reveal_strlit("Urdu");
                    reveal_strlit("ur-PK");
                    reveal_strlit("ur");
                }
                vec!["Urdu", "ur-PK", "ur"]
            },
            Language::Telugu => {
                proof {
                    reveal_strlit("Telugu");
                    reveal_strlit("te-IN");
                    reveal_strlit("te");
                }
                vec!["Telugu", "te-IN", "te"]
            },
            Language::Marathi => {
                proof {
                    reveal_strlit("Marathi");
                    reveal_strlit("mr-IN");
                    reveal_strlit("mr");
                }
                vec!["Marathi", "mr-IN", "mr"]
            },
            Language::Hebrew => {
                proof {
                    reveal_strlit("Hebrew");
                    reveal_strlit("he-IL");
                    reveal_strlit("he");
                }
                vec!["Hebrew", "he-IL", "he"]
            },
            Language::Bengali => {
                proof {
                    reveal_strlit("Bengali");
                    reveal_strlit("bn-BD");
                    reveal_strlit("bn");
                }
                vec!["Bengali", "bn-BD", "bn"]
            },
            Language::Bulgarian => {
                proof {
                    reveal_strlit("Bulgarian");
                    reveal_strlit("bg-BG");
                    reveal_strlit("bg");
                }
                vec!["Bulgarian", "bg-BG", "bg"]
            },
            Language::Tamil => {
                proof {
                    reveal_strlit("Tamil");
                    reveal_strlit("ta-IN");
                    reveal_strlit("ta");
                }
                vec!["Tamil", "ta-IN", "ta"]
            },
            Language::Ukrainian => {
                proof {
                    reveal_strlit("Ukrainian");
                    reveal_strlit("uk-UA");
                    reveal_strlit("uk");
                }
                vec!["Ukrainian", "uk-UA", "uk"]
            },
            Language::Tibetan => {
                proof {
                    reveal_strlit("Tibetan");
                    reveal_strlit("bo-CN");
                    reveal_strlit("bo");
                }
                vec!["Tibetan", "bo-CN", "bo"]
            },
            Language::Kazakh => {
                proof {
                    reveal_strlit("Kazakh");
                    reveal_strlit("kk-KZ");
                    reveal_strlit("kk");
                }
                vec!["Kazakh", "kk-KZ", "kk"]
            },
            Language::Mongolian => {
                proof {
                    reveal_strlit("Mongolian");
                    reveal_strlit("mn-MN");
                    reveal_strlit("mn");
                }
                vec!["Mongolian", "mn-MN", "mn"]
            },
            Language::Uyghur => {
                proof {
                    reveal_strlit("Uyghur");
                    reveal_strlit("ug-CN");
                    reveal_strlit("ug");
                }
                vec!["Uyghur", "ug-CN", "ug"]
            },
            Language::Cantonese => {
                proof {
                    reveal_strlit("Cantonese");
                    reveal_strlit("yue-HK");
                    reveal_strlit("yue");
                }
                vec!["Cantonese", "yue-HK", "yue"]
            },
            Language::Belarusian => {
                proof {
                    reveal_strlit("Belarusian");
                    reveal_strlit("be-BY");
                    reveal_strlit("be");
                }
                vec!["Belarusian", "be-BY", "be"]
            },
            Language::Hungarian => {
                proof {
                    reveal_strlit("Hungarian");
                    reveal_strlit("hu-HU");
                    reveal_strlit("hu");
                }
                vec!["Hungarian", "hu-HU", "hu"]
            },
        }
    }

    /// The language that `value` names, ignoring surrounding white space; `None` when the
    /// trimmed value is empty or names no language.
    pub fn parse(value: &str) -> (r: Option<Language>)
        ensures
            r == parse_language(value@),
    {
        let chars = chars_of(value);
        let (lo, hi) = trim_range(&chars);
        let ghost t = trimmed(value@);
        if lo == hi {
            return None;
        }
        let all = all_language_values();
        let mut i: usize = 0;
        while i < all.len()
            invariant
                chars@ == value@,
                lo < hi <= chars@.len(),
                t == trimmed(value@),
                chars@.subrange(lo as int, hi as int) == t,
                all@ == all_languages(),
                i <= all@.len(),
                lookup_language_from(t, i as int) == lookup_language_from(t, 0),
            decreases all@.len() - i,
        {
            let names = all[i].spelling_list();
            let mut j: usize = 0;
            while j < names.len()
                invariant
                    chars@ == value@,
                    lo < hi <= chars@.len(),
                    t == trimmed(value@),
                    lookup_language_from(t, i as int) == lookup_language_from(t, 0),
                    chars@.subrange(lo as int, hi as int) == t,
                    all@ == all_languages(),
                    i < all@.len(),
                    names@.len() == all@[i as int].spellings().len(),
                    forall|k: int| 0 <= k < names@.len() ==> #[trigger] names@[k]@ == all@[i as int].spellings()[k],
                    j <= names@.len(),
                    forall|k: int| 0 <= k < j ==> all@[i as int].spellings()[k] != t,
                decreases names@.len() - j,
            {
                let candidate = chars_of(names[j]);
                if chars_range_eq(&chars, lo, hi, &candidate) {
                    proof {
                        assert(all@[i as int].spellings()[j as int] == t);
                        assert(all@[i as int].spellings().contains(t));
                        assert(lookup_language_from(t, i as int) == Some(all@[i as int]));
                    }
                    return Some(all[i]);
                }
                j = j + 1;
            }
            proof {
                assert(!all@[i as int].spellings().contains(t));
            }
            i = i + 1;
        }
        None
    }
}

/// The first language, in declaration order from index `i`, that `s` spells.
pub open spec fn lookup_language_from(s: Seq<char>, i: int) -> Option<Language>
    decreases all_languages().len() - i,
{
    if 0 <= i < all_languages().len() {
        if all_languages()[i].spellings().contains(s) {
            Some(all_languages()[i])
        } else {
            lookup_language_from(s, i + 1)
        }
    } else {
        None
    }
}

/// The language that `value` names once its surrounding white space is removed.
pub open spec fn parse_language(value: Seq<char>) -> Option<Language> {
    let t = trimmed(value);
    if t.len() == 0 {
        None
    } else {
        lookup_language_from(t, 0)
    }
}

/// The canonical tags of all languages, in declaration order.
pub fn supported_locales() -> (r: Vec<String>)
    ensures
        r@.len() == all_languages().len(),
        forall|i: int| 0 <= i < r@.len() ==> #[trigger] r@[i]@ == all_languages()[i].spec_tag(),
{
    let all = all_language_values();
    tags(all.as_slice())
}

/// The English name of the language that `value` names, or of English when it names none.
pub fn language_from_tag(value: &str) -> (r: String)
    ensures
        r@ == (match parse_language(value@) {
            Some(l) => l,
            None => Language::English,
        }).spec_name(),
{
    let language = match Language::parse(value) {
        Some(l) => l,
        None => Language::English,
    };
    language.name().to_owned()
}

/// The canonical tags of `languages`, in order.
pub fn tags(languages: &[Language]) -> (r: Vec<String>)
    ensures
        r@.len() == languages@.len(),
        forall|i: int| 0 <= i < r@.len() ==> #[trigger] r@[i]@ == languages@[i].spec_tag(),
{
    let mut out: Vec<String> = Vec::new();
    let mut i: usize = 0;
    while i < languages.len()
        invariant
            i <= languages@.len(),
            out@.len() == i,
            forall|k: int| 0 <= k < i ==> #[trigger] out@[k]@ == languages@[k].spec_tag(),
        decreases languages@.len() - i,
    {
        out.push(languages[i].tag().to_owned());
        i = i + 1;
    }
    out
}


/// Parsing ignores surrounding white space: a value parses as its trimmed self does.
pub proof fn law_parse_ignores_surrounding_white_space(value: Seq<char>)
    ensures
        parse_language(value) == parse_language(trimmed(value)),
{
    lemma_trimmed_idempotent(value);
}


/// The language at index `i` of `all_languages` (the last one past the end).
pub open spec fn language_at(i: int) -> Language {
    if i == 0 {
        Language::ChineseSimplified
    } else     if i == 1 {
        Language::English
    } else     if i == 2 {
        Language::French
    } else     if i == 3 {
        Language::Portuguese
    } else     if i == 4 {
        Language::BrazilianPortuguese
    } else     if i == 5 {
        Language::Spanish
    } else     if i == 6 {
        Language::Japanese
    } else     if i == 7 {
        Language::Turkish
    } else     if i == 8 {
        Language::Russian
    } else     if i == 9 {
        Language::Arabic
    } else     if i == 10 {
        Language::Korean
    } else     if i == 11 {
        Language::Thai
    } else     if i == 12 {
        Language::Italian
    } else     if i == 13 {
        Language::German
    } else     if i == 14 {
        Language::Vietnamese
    } else     if i == 15 {
        Language::Malay
    } else     if i == 16 {
        Language::Indonesian
    } else     if i == 17 {
        Language::Filipino
    } else     if i == 18 {
        Language::Hindi
    } else     if i == 19 {
        Language::ChineseTraditional
    } else     if i == 20 {
        Language::Polish
    } else     if i == 21 {
        Language::Czech
    } else     if i == 22 {
        Language::Dutch
    } else     if i == 23 {
        Language::Khmer
    } else     if i == 24 {
        Language::Burmese
    } else     if i == 25 {
        Language::Persian
    } else     if i == 26 {
        Language::Gujarati
    } else     if i == 27 {
        Language::Urdu
    } else     if i == 28 {
        Language::Telugu
    } else     if i == 29 {
        Language::Marathi
    } else     if i == 30 {
        Language::Hebrew
    } else     if i == 31 {
        Language::Bengali
    } else     if i == 32 {
        Language::Bulgarian
    } else     if i == 33 {
        Language::Tamil
    } else     if i == 34 {
        Language::Ukrainian
    } else     if i == 35 {
        Language::Tibetan
    } else     if i == 36 {
        Language::Kazakh
    } else     if i == 37 {
        Language::Mongolian
    } else     if i == 38 {
        Language::Uyghur
    } else     if i == 39 {
        Language::Cantonese
    } else     if i == 40 {
        Language::Belarusian
    } else {
        Language::Hungarian
    }
}

pub(crate) proof fn lemma_language_at()
    ensures
        forall|i: int| 0 <= i < all_languages().len() ==> #[trigger] all_languages()[i] == language_at(i),
{
}

proof fn lemma_lookup_reaches(s: Seq<char>, i: int, n: int)
    requires
        0 <= i <= n < all_languages().len(),
        language_at(n).spellings().contains(s),
        forall|j: int| i <= j < n ==> !#[trigger] language_at(j).spellings().contains(s),
    ensures
        lookup_language_from(s, i) == Some(language_at(n)),
    decreases n - i,
{
    lemma_language_at();
    assert(all_languages()[i] == language_at(i));
    if i < n {
        lemma_lookup_reaches(s, i + 1, n);
    }
}

/// Every language spells its own tag and English name.
proof fn lemma_spells_own_tag_and_name(l: Language)
    ensures
        l.spellings().contains(l.spec_tag()),
        l.spellings().contains(l.spec_name()),
{
    match l {
        Language::ChineseSimplified => assert(l.spellings()[1] == l.spec_tag() && l.spellings()[0] == l.spec_name()),
        Language::English => assert(l.spellings()[1] == l.spec_tag() && l.spellings()[0] == l.spec_name()),
        Language::French => assert(l.spellings()[1] == l.spec_tag() && l.spellings()[0] == l.spec_name()),
        Language::Portuguese => assert(l.spellings()[1] == l.spec_tag() && l.spellings()[0] == l.spec_name()),
        Language::BrazilianPortuguese => assert(l.spellings()[1] == l.spec_tag() && l.spellings()[0] == l.spec_name()),
        Language::Spanish => assert(l.spellings()[1] == l.spec_tag() && l.spellings()[0] == l.spec_name()),
        Language::Japanese => assert(l.spellings()[1] == l.spec_tag() && l.spellings()[0] == l.spec_name()),
        Language::Turkish => assert(l.spellings()[1] == l.spec_tag() && l.spellings()[0] == l.spec_name()),
        Language::Russian => assert(l.spellings()[1] == l.spec_tag() && l.spellings()[0] == l.spec_name()),
        Language::Arabic => assert(l.spellings()[1] == l.spec_tag() && l.spellings()[0] == l.spec_name()),
        Language::Korean => assert(l.spellings()[1] == l.spec_tag() && l.spellings()[0] == l.spec_name()),
        Language::Thai => assert(l.spellings()[1] == l.spec_tag() && l.spellings()[0] == l.spec_name()),
        Language::Italian => assert(l.spellings()[1] == l.spec_tag() && l.spellings()[0] == l.spec_name()),
        Language::German => assert(l.spellings()[1] == l.spec_tag() && l.spellings()[0] == l.spec_name()),
        Language::Vietnamese => assert(l.spellings()[1] == l.spec_tag() && l.spellings()[0] == l.spec_name()),
        Language::Malay => assert(l.spellings()[1] == l.spec_tag() && l.spellings()[0] == l.spec_name()),
        Language::Indonesian => assert(l.spellings()[1] == l.spec_tag() && l.spellings()[0] == l.spec_name()),
        Language::Filipino => assert(l.spellings()[1] == l.spec_tag() && l.spellings()[0] == l.spec_name()),
        Language::Hindi => assert(l.spellings()[1] == l.spec_tag() && l.spellings()[0] == l.spec_name()),
        Language::ChineseTraditional => assert(l.spellings()[1] == l.spec_tag() && l.spellings()[0] == l.spec_name()),
        Language::Polish => assert(l.spellings()[1] == l.spec_tag() && l.spellings()[0] == l.spec_name()),
        Language::Czech => assert(l.spellings()[1] == l.spec_tag() && l.spellings()[0] == l.spec_name()),
        Language::Dutch => assert(l.spellings()[1] == l.spec_tag() && l.spellings()[0] == l.spec_name()),
        Language::Khmer => assert(l.spellings()[1] == l.spec_tag() && l.spellings()[0] == l.spec_name()),
        Language::Burmese => assert(l.spellings()[1] == l.spec_tag() && l.spellings()[0] == l.spec_name()),
        Language::Persian => assert(l.spellings()[1] == l.spec_tag() && l.spellings()[0] == l.spec_name()),
        Language::Gujarati => assert(l.spellings()[1] == l.spec_tag() && l.spellings()[0] == l.spec_name()),
        Language::Urdu => assert(l.spellings()[1] == l.spec_tag() && l.spellings()[0] == l.spec_name()),
        Language::Telugu => assert(l.spellings()[1] == l.spec_tag() && l.spellings()[0] == l.spec_name()),
        Language::Marathi => assert(l.spellings()[1] == l.spec_tag() && l.spellings()[0] == l.spec_name()),
        Language::Hebrew => assert(l.spellings()[1] == l.spec_tag() && l.spellings()[0] == l.spec_name()),
        Language::Bengali => assert(l.spellings()[1] == l.spec_tag() && l.spellings()[0] == l.spec_name()),
        Language::Bulgarian => assert(l.spellings()[1] == l.spec_tag() && l.spellings()[0] == l.spec_name()),
        Language::Tamil => assert(l.spellings()[1] == l.spec_tag() && l.spellings()[0] == l.spec_name()),
        Language::Ukrainian => assert(l.spellings()[1] == l.spec_tag() && l.spellings()[0] == l.spec_name()),
        Language::Tibetan => assert(l.spellings()[1] == l.spec_tag() && l.spellings()[0] == l.spec_name()),
        Language::Kazakh => assert(l.spellings()[1] == l.spec_tag() && l.spellings()[0] == l.spec_name()),
        Language::Mongolian => assert(l.spellings()[1] == l.spec_tag() && l.spellings()[0] == l.spec_name()),
        Language::Uyghur => assert(l.spellings()[1] == l.spec_tag() && l.spellings()[0] == l.spec_name()),
        Language::Cantonese => assert(l.spellings()[1] == l.spec_tag() && l.spellings()[0] == l.spec_name()),
        Language::Belarusian => assert(l.spellings()[1] == l.spec_tag() && l.spellings()[0] == l.spec_name()),
        Language::Hungarian => assert(l.spellings()[1] == l.spec_tag() && l.spellings()[0] == l.spec_name()),
    }
}

/// A value with no white space at either end is its own trimmed form.
proof fn lemma_trimmed_unchanged(s: Seq<char>)
    requires
        s.len() > 0,
        !is_white_space(s[0]),
        !is_white_space(s[s.len() - 1]),
    ensures
        trimmed(s) == s,
{
    assert(first_ink_from(s, 0) == 0);
    assert(last_ink_end_from(s, s.len() as int) == s.len());
    assert(s.subrange(0, s.len() as int) =~= s);
}

proof fn lemma_reads_back(l: Language, n: int)
    requires
        0 <= n < all_languages().len(),
        language_at(n) == l,
        forall|j: int| 0 <= j < n ==> !#[trigger] language_at(j).spellings().contains(l.spec_tag()),
        forall|j: int| 0 <= j < n ==> !#[trigger] language_at(j).spellings().contains(l.spec_name()),
        l.spec_tag().len() > 0 && !is_white_space(l.spec_tag()[0]) && !is_white_space(
            l.spec_tag()[l.spec_tag().len() - 1],
        ),
        l.spec_name().len() > 0 && !is_white_space(l.spec_name()[0]) && !is_white_space(
            l.spec_name()[l.spec_name().len() - 1],
        ),
    ensures
        parse_language(l.spec_tag()) == Some(l),
        parse_language(l.spec_name()) == Some(l),
{
    lemma_spells_own_tag_and_name(l);
    lemma_trimmed_unchanged(l.spec_tag());
    lemma_trimmed_unchanged(l.spec_name());
    lemma_lookup_reaches(l.spec_tag(), 0, n);
    lemma_lookup_reaches(l.spec_name(), 0, n);
}

#[verifier::spinoff_prover]
#[verifier::rlimit(40)]
proof fn lemma_reads_back_0(l: Language)
    requires
        l is ChineseSimplified || l is English || l is French || l is Portuguese || l is BrazilianPortuguese || l is Spanish || l is Japanese,
    ensures
        parse_language(l.spec_tag()) == Some(l),
        parse_language(l.spec_name()) == Some(l),
{
    match l {
        Language::ChineseSimplified => lemma_reads_back(l, 0),
        Language::English => lemma_reads_back(l, 1),
        Language::French => lemma_reads_back(l, 2),
        Language::Portuguese => lemma_reads_back(l, 3),
        Language::BrazilianPortuguese => lemma_reads_back(l, 4),
        Language::Spanish => lemma_reads_back(l, 5),
        Language::Japanese => lemma_reads_back(l, 6),
        _ => {},
    }
}

#[verifier::spinoff_prover]
#[verifier::rlimit(40)]
proof fn lemma_reads_back_1(l: Language)
    requires
        l is Turkish || l is Russian || l is Arabic || l is Korean || l is Thai || l is Italian || l is German,
    ensures
        parse_language(l.spec_tag()) == Some(l),
        parse_language(l.spec_name()) == Some(l),
{
    match l {
        Language::Turkish => lemma_reads_back(l, 7),
        Language::Russian => lemma_reads_back(l, 8),
        Language::Arabic => lemma_reads_back(l, 9),
        Language::Korean => lemma_reads_back(l, 10),
        Language::Thai => lemma_reads_back(l, 11),
        Language::Italian => lemma_reads_back(l, 12),
        Language::German => lemma_reads_back(l, 13),
        _ => {},
    }
}

#[verifier::spinoff_prover]
#[verifier::rlimit(40)]
proof fn lemma_reads_back_2(l: Language)
    requires
        l is Vietnamese || l is Malay || l is Indonesian || l is Filipino || l is Hindi || l is ChineseTraditional || l is Polish,
    ensures
        parse_language(l.spec_tag()) == Some(l),
        parse_language(l.spec_name()) == Some(l),
{
    match l {
        Language::Vietnamese => lemma_reads_back(l, 14),
        Language::Malay => lemma_reads_back(l, 15),
        Language::Indonesian => lemma_reads_back(l, 16),
        Language::Filipino => lemma_reads_back(l, 17),
        Language::Hindi => lemma_reads_back(l, 18),
        Language::ChineseTraditional => lemma_reads_back(l, 19),
        Language::Polish => lemma_reads_back(l, 20),
        _ => {},
    }
}

#[verifier::spinoff_prover]
#[verifier::rlimit(40)]
proof fn lemma_reads_back_3(l: Language)
    requires
        l is Czech || l is Dutch || l is Khmer || l is Burmese || l is Persian || l is Gujarati || l is Urdu,
    ensures
        parse_language(l.spec_tag()) == Some(l),
        parse_language(l.spec_name()) == Some(l),
{
    match l {
        Language::Czech => lemma_reads_back(l, 21),
        Language::Dutch => lemma_reads_back(l, 22),
        Language::Khmer => lemma_reads_back(l, 23),
        Language::Burmese => lemma_reads_back(l, 24),
        Language::Persian => lemma_reads_back(l, 25),
        Language::Gujarati => lemma_reads_back(l, 26),
        Language::Urdu => lemma_reads_back(l, 27),
        _ => {},
    }
}

#[verifier::spinoff_prover]
#[verifier::rlimit(40)]
proof fn lemma_reads_back_4(l: Language)
    requires
        l is Telugu || l is Marathi || l is Hebrew || l is Bengali || l is Bulgarian || l is Tamil || l is Ukrainian,
    ensures
        parse_language(l.spec_tag()) == Some(l),
        parse_language(l.spec_name()) == Some(l),
{
    match l {
        Language::Telugu => lemma_reads_back(l, 28),
        Language::Marathi => lemma_reads_back(l, 29),
        Language::Hebrew => lemma_reads_back(l, 30),
        Language::Bengali => lemma_reads_back(l, 31),
        Language::Bulgarian => lemma_reads_back(l, 32),
        Language::Tamil => lemma_reads_back(l, 33),
        Language::Ukrainian => lemma_reads_back(l, 34),
        _ => {},
    }
}

#[verifier::spinoff_prover]
#[verifier::rlimit(40)]
proof fn lemma_reads_back_5(l: Language)
    requires
        l is Tibetan || l is Kazakh || l is Mongolian || l is Uyghur || l is Cantonese || l is Belarusian || l is Hungarian,
    ensures
        parse_language(l.spec_tag()) == Some(l),
        parse_language(l.spec_name()) == Some(l),
{
    match l {
        Language::Tibetan => lemma_reads_back(l, 35),
        Language::Kazakh => lemma_reads_back(l, 36),
        Language::Mongolian => lemma_reads_back(l, 37),
        Language::Uyghur => lemma_reads_back(l, 38),
        Language::Cantonese => lemma_reads_back(l, 39),
        Language::Belarusian => lemma_reads_back(l, 40),
        Language::Hungarian => lemma_reads_back(l, 41),
        _ => {},
    }
}

/// Parsing reads back every language's canonical tag and English name: each spells its
/// language, no earlier language spells it, and it has no surrounding white space.
pub proof fn law_parse_reads_back_tags_and_names(l: Language)
    ensures
        parse_language(l.spec_tag()) == Some(l),
        parse_language(l.spec_name()) == Some(l),
{
    match l {
        Language::ChineseSimplified => lemma_reads_back_0(l),
        Language::English => lemma_reads_back_0(l),
        Language::French => lemma_reads_back_0(l),
        Language::Portuguese => lemma_reads_back_0(l),
        Language::BrazilianPortuguese => lemma_reads_back_0(l),
        Language::Spanish => lemma_reads_back_0(l),
        Language::Japanese => lemma_reads_back_0(l),
        Language::Turkish => lemma_reads_back_1(l),
        Language::Russian => lemma_reads_back_1(l),
        Language::Arabic => lemma_reads_back_1(l),
        Language::Korean => lemma_reads_back_1(l),
        Language::Thai => lemma_reads_back_1(l),
        Language::Italian => lemma_reads_back_1(l),
        Language::German => lemma_reads_back_1(l),
        Language::Vietnamese => lemma_reads_back_2(l),
        Language::Malay => lemma_reads_back_2(l),
        Language::Indonesian => lemma_reads_back_2(l),
        Language::Filipino => lemma_reads_back_2(l),
        Language::Hindi => lemma_reads_back_2(l),
        Language::ChineseTraditional => lemma_reads_back_2(l),
        Language::Polish => lemma_reads_back_2(l),
        Language::Czech => lemma_reads_back_3(l),
        Language::Dutch => lemma_reads_back_3(l),
        Language::Khmer => lemma_reads_back_3(l),
        Language::Burmese => lemma_reads_back_3(l),
        Language::Persian => lemma_reads_back_3(l),
        Language::Gujarati => lemma_reads_back_3(l),
        Language::Urdu => lemma_reads_back_3(l),
        Language::Telugu => lemma_reads_back_4(l),
        Language::Marathi => lemma_reads_back_4(l),
        Language::Hebrew => lemma_reads_back_4(l),
        Language::Bengali => lemma_reads_back_4(l),
        Language::Bulgarian => lemma_reads_back_4(l),
        Language::Tamil => lemma_reads_back_4(l),
        Language::Ukrainian => lemma_reads_back_4(l),
        Language::Tibetan => lemma_reads_back_5(l),
        Language::Kazakh => lemma_reads_back_5(l),
        Language::Mongolian => lemma_reads_back_5(l),
        Language::Uyghur => lemma_reads_back_5(l),
        Language::Cantonese => lemma_reads_back_5(l),
        Language::Belarusian => lemma_reads_back_5(l),
        Language::Hungarian => lemma_reads_back_5(l),
    }
}


/// The position of `l` in `all_languages`.
pub open spec fn language_index(l: Language) -> int {
    match l {
        Language::ChineseSimplified => 0,
        Language::English => 1,
        Language::French => 2,
        Language::Portuguese => 3,
        Language::BrazilianPortuguese => 4,
        Language::Spanish => 5,
        Language::Japanese => 6,
        Language::Turkish => 7,
        Language::Russian => 8,
        Language::Arabic => 9,
        Language::Korean => 10,
        Language::Thai => 11,
        Language::Italian => 12,
        Language::German => 13,
        Language::Vietnamese => 14,
        Language::Malay => 15,
        Language::Indonesian => 16,
        Language::Filipino => 17,
        Language::Hindi => 18,
        Language::ChineseTraditional => 19,
        Language::Polish => 20,
        Language::Czech => 21,
        Language::Dutch => 22,
        Language::Khmer => 23,
        Language::Burmese => 24,
        Language::Persian => 25,
        Language::Gujarati => 26,
        Language::Urdu => 27,
        Language::Telugu => 28,
        Language::Marathi => 29,
        Language::Hebrew => 30,
        Language::Bengali => 31,
        Language::Bulgarian => 32,
        Language::Tamil => 33,
        Language::Ukrainian => 34,
        Language::Tibetan => 35,
        Language::Kazakh => 36,
        Language::Mongolian => 37,
        Language::Uyghur => 38,
        Language::Cantonese => 39,
        Language::Belarusian => 40,
        Language::Hungarian => 41,
    }
}

proof fn lemma_language_index()
    ensures
        forall|i: int| 0 <= i < all_languages().len() ==> #[trigger] language_index(language_at(i)) == i,
{
}

/// A language's canonical tag and English name parse back to it through any white space
/// around them, and white space alone names no language.
pub proof fn law_white_space_around_tags_and_names(l: Language, before: Seq<char>, after: Seq<char>)
    requires
        all_white_space(before),
        all_white_space(after),
    ensures
        parse_language(before + l.spec_tag() + after) == Some(l),
        parse_language(before + l.spec_name() + after) == Some(l),
        parse_language(before) is None,
{
    law_parse_reads_back_tags_and_names(l);
    lemma_trimmed_padded(before, l.spec_tag(), after);
    lemma_trimmed_padded(before, l.spec_name(), after);
    lemma_trimmed_padded(before, Seq::empty(), Seq::empty());
    assert(before + Seq::<char>::empty() + Seq::<char>::empty() =~= before);
    assert(trimmed(Seq::<char>::empty()) =~= Seq::<char>::empty());
}

/// The supported locales are the canonical tags of all languages, in declaration order, no
/// two alike, and each parses back to its language.
pub proof fn law_supported_locales_are_distinct_canonical_tags()
    ensures
        all_languages().len() == 42,
        forall|i: int, j: int|
            0 <= i < j < all_languages().len() ==> #[trigger] all_languages()[i].spec_tag()
                != #[trigger] all_languages()[j].spec_tag(),
        forall|i: int|
            0 <= i < all_languages().len() ==> parse_language(#[trigger] all_languages()[i].spec_tag())
                == Some(all_languages()[i]),
{
    lemma_language_at();
    lemma_language_index();
    assert forall|i: int, j: int|
        0 <= i < j < all_languages().len() implies #[trigger] all_languages()[i].spec_tag()
            != #[trigger] all_languages()[j].spec_tag() by {
        law_parse_reads_back_tags_and_names(all_languages()[i]);
        law_parse_reads_back_tags_and_names(all_languages()[j]);
        assert(language_index(language_at(i)) == i);
        assert(language_index(language_at(j)) == j);
    }
    assert forall|i: int| 0 <= i < all_languages().len() implies parse_language(
        #[trigger] all_languages()[i].spec_tag(),
    ) == Some(all_languages()[i]) by {
        law_parse_reads_back_tags_and_names(all_languages()[i]);
    }
}

/// Different languages have different canonical tags.
pub proof fn law_tags_are_distinct(l1: Language, l2: Language)
    ensures
        l1 != l2 ==> l1.spec_tag() != l2.spec_tag(),
{
    law_parse_reads_back_tags_and_names(l1);
    law_parse_reads_back_tags_and_names(l2);
}

/// Index of the first `-` of `tag` at or after `i` (the length of `tag` when none).
pub open spec fn subtag_end(tag: Seq<char>, i: int) -> int
    decreases tag.len() - i,
{
    if i < 0 || i >= tag.len() || tag[i] == '-' {
        i
    } else {
        subtag_end(tag, i + 1)
    }
}

/// The primary language subtag of a BCP-47 tag: what comes before its first `-`.
pub open spec fn primary_subtag(tag: Seq<char>) -> Seq<char> {
    tag.take(subtag_end(tag, 0))
}

/// The language that the primary subtag of `l`'s tag names on its own: `l` itself, but for
/// the regional variants Brazilian Portuguese (`pt`) and Traditional Chinese (`zh`), whose
/// primary subtag names Portuguese and Simplified Chinese.
pub open spec fn primary_language(l: Language) -> Language {
    match l {
        Language::BrazilianPortuguese => Language::Portuguese,
        Language::ChineseTraditional => Language::ChineseSimplified,
        _ => l,
    }
}

pub(crate) proof fn lemma_subtag_end(tag: Seq<char>, i: int)
    requires
        0 <= i <= tag.len(),
    ensures
        i <= subtag_end(tag, i) <= tag.len(),
        subtag_end(tag, i) < tag.len() ==> tag[subtag_end(tag, i)] == '-',
        forall|j: int| i <= j < subtag_end(tag, i) ==> tag[j] != '-',
    decreases tag.len() - i,
{
    if i < tag.len() && tag[i] != '-' {
        lemma_subtag_end(tag, i + 1);
    }
}

proof fn lemma_reads_back_spelling(s: Seq<char>, n: int)
    requires
        0 <= n < all_languages().len(),
        language_at(n).spellings().contains(s),
        forall|j: int| 0 <= j < n ==> !#[trigger] language_at(j).spellings().contains(s),
        s.len() > 0 && !is_white_space(s[0]) && !is_white_space(s[s.len() - 1]),
    ensures
        parse_language(s) == Some(language_at(n)),
{
    lemma_trimmed_unchanged(s);
    lemma_lookup_reaches(s, 0, n);
}

#[verifier::spinoff_prover]
#[verifier::rlimit(60)]
proof fn lemma_primary_subtag_0(l: Language)
    requires
        l is ChineseSimplified || l is English || l is French || l is Portuguese || l is BrazilianPortuguese || l is Spanish || l is Japanese,
    ensures
        parse_language(primary_subtag(l.spec_tag())) == Some(primary_language(l)),
{
    lemma_subtag_end(l.spec_tag(), 0);
    let s = primary_subtag(l.spec_tag());
    match l {
        Language::ChineseSimplified => {
            assert(s =~= seq!['z', 'h']);
            assert(language_at(0).spellings()[2] == s);
            lemma_reads_back_spelling(s, 0);
        },
        Language::English => {
            assert(s =~= seq!['e', 'n']);
            assert(language_at(1).spellings()[2] == s);
            lemma_reads_back_spelling(s, 1);
        },
        Language::French => {
            assert(s =~= seq!['f', 'r']);
            assert(language_at(2).spellings()[2] == s);
            lemma_reads_back_spelling(s, 2);
        },
        Language::Portuguese => {
            assert(s =~= seq!['p', 't']);
            assert(language_at(3).spellings()[2] == s);
            lemma_reads_back_spelling(s, 3);
        },
        Language::BrazilianPortuguese => {
            assert(s =~= seq!['p', 't']);
            assert(language_at(3).spellings()[2] == s);
            lemma_reads_back_spelling(s, 3);
        },
        Language::Spanish => {
            assert(s =~= seq!['e', 's']);
            assert(language_at(5).spellings()[2] == s);
            lemma_reads_back_spelling(s, 5);
        },
        Language::Japanese => {
            assert(s =~= seq!['j', 'a']);
            assert(language_at(6).spellings()[2] == s);
            lemma_reads_back_spelling(s, 6);
        },
        _ => {},
    }
}

#[verifier::spinoff_prover]
#[verifier::rlimit(60)]
proof fn lemma_primary_subtag_1(l: Language)
    requires
        l is Turkish || l is Russian || l is Arabic || l is Korean || l is Thai || l is Italian || l is German,
    ensures
        parse_language(primary_subtag(l.spec_tag())) == Some(primary_language(l)),
{
    lemma_subtag_end(l.spec_tag(), 0);
    let s = primary_subtag(l.spec_tag());
    match l {
        Language::Turkish => {
            assert(s =~= seq!['t', 'r']);
            assert(language_at(7).spellings()[2] == s);
            lemma_reads_back_spelling(s, 7);
        },
        Language::Russian => {
            assert(s =~= seq!['r', 'u']);
            assert(language_at(8).spellings()[2] == s);
            lemma_reads_back_spelling(s, 8);
        },
        Language::Arabic => {
            assert(s =~= seq!['a', 'r']);
            assert(language_at(9).spellings()[2] == s);
            lemma_reads_back_spelling(s, 9);
        },
        Language::Korean => {
            assert(s =~= seq!['k', 'o']);
            assert(language_at(10).spellings()[2] == s);
            lemma_reads_back_spelling(s, 10);
        },
        Language::Thai => {
            assert(s =~= seq!['t', 'h']);
            assert(language_at(11).spellings()[2] == s);
            lemma_reads_back_spelling(s, 11);
        },
        Language::Italian => {
            assert(s =~= seq!['i', 't']);
            assert(language_at(12).spellings()[2] == s);
            lemma_reads_back_spelling(s, 12);
        },
        Language::German => {
            assert(s =~= seq!['d', 'e']);
            assert(language_at(13).spellings()[2] == s);
            lemma_reads_back_spelling(s, 13);
        },
        _ => {},
    }
}

#[verifier::spinoff_prover]
#[verifier::rlimit(60)]
proof fn lemma_primary_subtag_2(l: Language)
    requires
        l is Vietnamese || l is Malay || l is Indonesian || l is Filipino || l is Hindi || l is ChineseTraditional || l is Polish,
    ensures
        parse_language(primary_subtag(l.spec_tag())) == Some(primary_language(l)),
{
    lemma_subtag_end(l.spec_tag(), 0);
    let s = primary_subtag(l.spec_tag());
    match l {
        Language::Vietnamese => {
            assert(s =~= seq!['v', 'i']);
            assert(language_at(14).spellings()[2] == s);
            lemma_reads_back_spelling(s, 14);
        },
        Language::Malay => {
            assert(s =~= seq!['m', 's']);
            assert(language_at(15).spellings()[2] == s);
            lemma_reads_back_spelling(s, 15);
        },
        Language::Indonesian => {
            assert(s =~= seq!['i', 'd']);
            assert(language_at(16).spellings()[2] == s);
            lemma_reads_back_spelling(s, 16);
        },
        Language::Filipino => {
            assert(s =~= seq!['f', 'i', 'l']);
            assert(language_at(17).spellings()[2] == s);
            lemma_reads_back_spelling(s, 17);
        },
        Language::Hindi => {
            assert(s =~= seq!['h', 'i']);
            assert(language_at(18).spellings()[2] == s);
            lemma_reads_back_spelling(s, 18);
        },
        Language::ChineseTraditional => {
            assert(s =~= seq!['z', 'h']);
            assert(language_at(0).spellings()[2] == s);
            lemma_reads_back_spelling(s, 0);
        },
        Language::Polish => {
            assert(s =~= seq!['p', 'l']);
            assert(language_at(20).spellings()[2] == s);
            lemma_reads_back_spelling(s, 20);
        },
        _ => {},
    }
}

#[verifier::spinoff_prover]
#[verifier::rlimit(60)]
proof fn lemma_primary_subtag_3(l: Language)
    requires
        l is Czech || l is Dutch || l is Khmer || l is Burmese || l is Persian || l is Gujarati || l is Urdu,
    ensures
        parse_language(primary_subtag(l.spec_tag())) == Some(primary_language(l)),
{
    lemma_subtag_end(l.spec_tag(), 0);
    let s = primary_subtag(l.spec_tag());
    match l {
        Language::Czech => {
            assert(s =~= seq!['c', 's']);
            assert(language_at(21).spellings()[2] == s);
            lemma_reads_back_spelling(s, 21);
        },
        Language::Dutch => {
            assert(s =~= seq!['n', 'l']);
            assert(language_at(22).spellings()[2] == s);
            lemma_reads_back_spelling(s, 22);
        },
        Language::Khmer => {
            assert(s =~= seq!['k', 'm']);
            assert(language_at(23).spellings()[2] == s);
            lemma_reads_back_spelling(s, 23);
        },
        Language::Burmese => {
            assert(s =~= seq!['m', 'y']);
            assert(language_at(24).spellings()[2] == s);
            lemma_reads_back_spelling(s, 24);
        },
        Language::Persian => {
            assert(s =~= seq!['f', 'a']);
            assert(language_at(25).spellings()[2] == s);
            lemma_reads_back_spelling(s, 25);
        },
        Language::Gujarati => {
            assert(s =~= seq!['g', 'u']);
            assert(language_at(26).spellings()[2] == s);
            lemma_reads_back_spelling(s, 26);
        },
        Language::Urdu => {
            assert(s =~= seq!['u', 'r']);
            assert(language_at(27).spellings()[2] == s);
            lemma_reads_back_spelling(s, 27);
        },
        _ => {},
    }
}

#[verifier::spinoff_prover]
#[verifier::rlimit(60)]
proof fn lemma_primary_subtag_4(l: Language)
    requires
        l is Telugu || l is Marathi || l is Hebrew || l is Bengali || l is Bulgarian || l is Tamil || l is Ukrainian,
    ensures
        parse_language(primary_subtag(l.spec_tag())) == Some(primary_language(l)),
{
    lemma_subtag_end(l.spec_tag(), 0);
    let s = primary_subtag(l.spec_tag());
    match l {
        Language::Telugu => {
            assert(s =~= seq!['t', 'e']);
            assert(language_at(28).spellings()[2] == s);
            lemma_reads_back_spelling(s, 28);
        },
        Language::Marathi => {
            assert(s =~= seq!['m', 'r']);
            assert(language_at(29).spellings()[2] == s);
            lemma_reads_back_spelling(s, 29);
        },
        Language::Hebrew => {
            assert(s =~= seq!['h', 'e']);
            assert(language_at(30).spellings()[2] == s);
            lemma_reads_back_spelling(s, 30);
        },
        Language::Bengali => {
            assert(s =~= seq!['b', 'n']);
            assert(language_at(31).spellings()[2] == s);
            lemma_reads_back_spelling(s, 31);
        },
        Language::Bulgarian => {
            assert(s =~= seq!['b', 'g']);
            assert(language_at(32).spellings()[2] == s);
            lemma_reads_back_spelling(s, 32);
        },
        Language::Tamil => {
            assert(s =~= seq!['t', 'a']);
            assert(language_at(33).spellings()[2] == s);
            lemma_reads_back_spelling(s, 33);
        },
        Language::Ukrainian => {
            assert(s =~= seq!['u', 'k']);
            assert(language_at(34).spellings()[2] == s);
            lemma_reads_back_spelling(s, 34);
        },
        _ => {},
    }
}

#[verifier::spinoff_prover]
#[verifier::rlimit(60)]
proof fn lemma_primary_subtag_5(l: Language)
    requires
        l is Tibetan || l is Kazakh || l is Mongolian || l is Uyghur || l is Cantonese || l is Belarusian || l is Hungarian,
    ensures
        parse_language(primary_subtag(l.spec_tag())) == Some(primary_language(l)),
{
    lemma_subtag_end(l.spec_tag(), 0);
    let s = primary_subtag(l.spec_tag());
    match l {
        Language::Tibetan => {
            assert(s =~= seq!['b', 'o']);
            assert(language_at(35).spellings()[2] == s);
            lemma_reads_back_spelling(s, 35);
        },
        Language::Kazakh => {
            assert(s =~= seq!['k', 'k']);
            assert(language_at(36).spellings()[2] == s);
            lemma_reads_back_spelling(s, 36);
        },
        Language::Mongolian => {
            assert(s =~= seq!['m', 'n']);
            assert(language_at(37).spellings()[2] == s);
            lemma_reads_back_spelling(s, 37);
        },
        Language::Uyghur => {
            assert(s =~= seq!['u', 'g']);
            assert(language_at(38).spellings()[2] == s);
            lemma_reads_back_spelling(s, 38);
        },
        Language::Cantonese => {
            assert(s =~= seq!['y', 'u', 'e']);
            assert(language_at(39).spellings()[2] == s);
            lemma_reads_back_spelling(s, 39);
        },
        Language::Belarusian => {
            assert(s =~= seq!['b', 'e']);
            assert(language_at(40).spellings()[2] == s);
            lemma_reads_back_spelling(s, 40);
        },
        Language::Hungarian => {
            assert(s =~= seq!['h', 'u']);
            assert(language_at(41).spellings()[2] == s);
            lemma_reads_back_spelling(s, 41);
        },
        _ => {},
    }
}

/// The primary subtag of each language's canonical tag (`de` for `de-DE`) is one of its
/// aliases: it parses to that language, or, for a regional variant such as `pt-BR` or
/// `zh-TW`, to the language its primary subtag names alone.
pub proof fn law_parse_reads_primary_subtags(l: Language)
    ensures
        parse_language(primary_subtag(l.spec_tag())) == Some(primary_language(l)),
        primary_language(l) == l || l is BrazilianPortuguese || l is ChineseTraditional,
{
    match l {
        Language::ChineseSimplified => lemma_primary_subtag_0(l),
        Language::English => lemma_primary_subtag_0(l),
        Language::French => lemma_primary_subtag_0(l),
        Language::Portuguese => lemma_primary_subtag_0(l),
        Language::BrazilianPortuguese => lemma_primary_subtag_0(l),
        Language::Spanish => lemma_primary_subtag_0(l),
        Language::Japanese => lemma_primary_subtag_0(l),
        Language::Turkish => lemma_primary_subtag_1(l),
        Language::Russian => lemma_primary_subtag_1(l),
        Language::Arabic => lemma_primary_subtag_1(l),
        Language::Korean => lemma_primary_subtag_1(l),
        Language::Thai => lemma_primary_subtag_1(l),
        Language::Italian => lemma_primary_subtag_1(l),
        Language::German => lemma_primary_subtag_1(l),
        Language::Vietnamese => lemma_primary_subtag_2(l),
        Language::Malay => lemma_primary_subtag_2(l),
        Language::Indonesian => lemma_primary_subtag_2(l),
        Language::Filipino => lemma_primary_subtag_2(l),
        Language::Hindi => lemma_primary_subtag_2(l),
        Language::ChineseTraditional => lemma_primary_subtag_2(l),
        Language::Polish => lemma_primary_subtag_2(l),
        Language::Czech => lemma_primary_subtag_3(l),
        Language::Dutch => lemma_primary_subtag_3(l),
        Language::Khmer => lemma_primary_subtag_3(l),
        Language::Burmese => lemma_primary_subtag_3(l),
        Language::Persian => lemma_primary_subtag_3(l),
        Language::Gujarati => lemma_primary_subtag_3(l),
        Language::Urdu => lemma_primary_subtag_3(l),
        Language::Telugu => lemma_primary_subtag_4(l),
        Language::Marathi => lemma_primary_subtag_4(l),
        Language::Hebrew => lemma_primary_subtag_4(l),
        Language::Bengali => lemma_primary_subtag_4(l),
        Language::Bulgarian => lemma_primary_subtag_4(l),
        Language::Tamil => lemma_primary_subtag_4(l),
        Language::Ukrainian => lemma_primary_subtag_4(l),
        Language::Tibetan => lemma_primary_subtag_5(l),
        Language::Kazakh => lemma_primary_subtag_5(l),
        Language::Mongolian => lemma_primary_subtag_5(l),
        Language::Uyghur => lemma_primary_subtag_5(l),
        Language::Cantonese => lemma_primary_subtag_5(l),
        Language::Belarusian => lemma_primary_subtag_5(l),
        Language::Hungarian => lemma_primary_subtag_5(l),
    }
}

/// The other aliases parse too: the script-tagged forms of Chinese (`zh-Hans`, `zh-Hant`)
/// name Simplified and Traditional Chinese, and Tagalog's code `tl` names Filipino.
#[verifier::spinoff_prover]
#[verifier::rlimit(60)]
pub proof fn law_parse_reads_script_and_legacy_aliases()
    ensures
        parse_language(primary_subtag(Language::ChineseSimplified.spec_tag()) + seq!['-', 'H', 'a', 'n', 's'])
            == Some(Language::ChineseSimplified),
        parse_language(primary_subtag(Language::ChineseTraditional.spec_tag()) + seq!['-', 'H', 'a', 'n', 't'])
            == Some(Language::ChineseTraditional),
        parse_language(seq!['t', 'l']) == Some(Language::Filipino),
{
    lemma_subtag_end(Language::ChineseSimplified.spec_tag(), 0);
    lemma_subtag_end(Language::ChineseTraditional.spec_tag(), 0);
    let hans = primary_subtag(Language::ChineseSimplified.spec_tag()) + seq!['-', 'H', 'a', 'n', 's'];
    let hant = primary_subtag(Language::ChineseTraditional.spec_tag()) + seq!['-', 'H', 'a', 'n', 't'];
    assert(hans =~= seq!['z', 'h', '-', 'H', 'a', 'n', 's']);
    assert(hant =~= seq!['z', 'h', '-', 'H', 'a', 'n', 't']);
    assert(language_at(0).spellings()[3] == hans);
    lemma_reads_back_spelling(hans, 0);
    assert(language_at(19).spellings()[2] == hant);
    lemma_reads_back_spelling(hant, 19);
    assert(language_at(17).spellings()[3] == seq!['t', 'l']);
    lemma_reads_back_spelling(seq!['t', 'l'], 17);
}

} // verus!
