//! Requests to the DeepL machine translation REST API (`/v2/translate`).

use vstd::prelude::*;
use vstd::slice::slice_subrange;
use vstd::string::StringExecFns;
use vstd::utf8::encode_utf8;
use crate::language::{all_languages, language_at, lemma_language_at, lemma_subtag_end, primary_subtag, Language};
use crate::text::{
    chars_of, is_whitespace, is_white_space, last_ink_end_from, string_from_chars, trim_range,
    trimmed,
};

verus! {

broadcast use vstd::string::group_string_axioms;

/// Base URL of the paid DeepL API.
pub open spec fn paid_base_url() -> Seq<char> {
    seq!['h', 't', 't', 'p', 's', ':', '/', '/', 'a', 'p', 'i', '.', 'd', 'e', 'e', 'p', 'l', '.', 'c', 'o', 'm']
}

/// Base URL of the free DeepL API.
pub open spec fn free_base_url() -> Seq<char> {
    seq!['h', 't', 't', 'p', 's', ':', '/', '/', 'a', 'p', 'i', '-', 'f', 'r', 'e', 'e', '.', 'd', 'e', 'e', 'p', 'l', '.', 'c', 'o', 'm']
}

/// `s` without its trailing white space, as `str::trim_end` gives it.
pub open spec fn trimmed_end(s: Seq<char>) -> Seq<char> {
    s.subrange(0, last_ink_end_from(s, s.len() as int))
}

/// Whether `key` is a key of the free API: once trailing white space is removed, it ends
/// with `:fx`.
pub open spec fn is_free_key(key: Seq<char>) -> bool {
    let t = trimmed_end(key);
    t.len() >= 3 && t.subrange(t.len() - 3, t.len() as int) == seq![':', 'f', 'x']
}

/// `s` without the `/` chars that end it, as `str::trim_end_matches('/')` gives it.
pub open spec fn strip_trailing_slashes(s: Seq<char>) -> Seq<char>
    decreases s.len(),
{
    if s.len() > 0 && s.last() == '/' {
        strip_trailing_slashes(s.drop_last())
    } else {
        s
    }
}

/// The API root that requests go to: the given base URL, trimmed and without trailing
/// slashes, when it is not blank; else the free or the paid API, as the key says.
pub open spec fn api_root(base: Option<Seq<char>>, key: Seq<char>) -> Seq<char> {
    if base is Some && trimmed(base->0).len() > 0 {
        strip_trailing_slashes(trimmed(base->0))
    } else if is_free_key(key) {
        free_base_url()
    } else {
        paid_base_url()
    }
}

/// The code that DeepL uses for a target language; languages that DeepL does not offer go
/// to a related one, or to American English.
pub open spec fn deepl_code(language: Language) -> Seq<char> {
    match language {
        Language::ChineseSimplified => seq!['Z', 'H', '-', 'H', 'A', 'N', 'S'],
        Language::English => seq!['E', 'N', '-', 'U', 'S'],
        Language::French => seq!['F', 'R'],
        Language::Portuguese => seq!['P', 'T', '-', 'P', 'T'],
        Language::BrazilianPortuguese => seq!['P', 'T', '-', 'B', 'R'],
        Language::Spanish => seq!['E', 'S'],
        Language::Japanese => seq!['J', 'A'],
        Language::Turkish => seq!['T', 'R'],
        Language::Russian => seq!['R', 'U'],
        Language::Arabic => seq!['A', 'R'],
        Language::Korean => seq!['K', 'O'],
        Language::Thai => seq!['T', 'H'],
        Language::Italian => seq!['I', 'T'],
        Language::German => seq!['D', 'E'],
        Language::Vietnamese => seq!['V', 'I'],
        Language::Malay => seq!['M', 'S'],
        Language::Indonesian => seq!['I', 'D'],
        Language::Filipino => seq!['E', 'N', '-', 'U', 'S'],
        Language::Hindi => seq!['H', 'I'],
        Language::ChineseTraditional => seq!['Z', 'H', '-', 'H', 'A', 'N', 'T'],
        Language::Polish => seq!['P', 'L'],
        Language::Czech => seq!['C', 'S'],
        Language::Dutch => seq!['N', 'L'],
        Language::Khmer => seq!['E', 'N', '-', 'U', 'S'],
        Language::Burmese => seq!['E', 'N', '-', 'U', 'S'],
        Language::Persian => seq!['E', 'N', '-', 'U', 'S'],
        Language::Gujarati => seq!['G', 'U'],
        Language::Urdu => seq!['U', 'R'],
        Language::Telugu => seq!['T', 'E'],
        Language::Marathi => seq!['M', 'R'],
        Language::Hebrew => seq!['H', 'E'],
        Language::Bengali => seq!['B', 'N'],
        Language::Bulgarian => seq!['B', 'G'],
        Language::Tamil => seq!['T', 'A'],
        Language::Ukrainian => seq!['U', 'K'],
        Language::Tibetan => seq!['Z', 'H'],
        Language::Kazakh => seq!['K', 'K'],
        Language::Mongolian => seq!['E', 'N', '-', 'U', 'S'],
        Language::Uyghur => seq!['Z', 'H'],
        Language::Cantonese => seq!['Z', 'H'],
        Language::Belarusian => seq!['B', 'E'],
        Language::Hungarian => seq!['H', 'U'],
    }
}

/// The `application/x-www-form-urlencoded` form of one byte: ASCII letters, digits and
/// `*-._` (bytes 42, 45, 46, 95) stay, a space becomes `+`, every other byte becomes `%` and two upper-case hex digits.
pub open spec fn form_encoded_byte(b: u8) -> Seq<char> {
    if (48 <= b <= 57) || (65 <= b <= 90) || (97 <= b <= 122) || b == 42 || b == 45 || b == 46
        || b == 95 {
        seq![(b as u32) as char]
    } else if b == 32 {
        seq!['+']
    } else {
        seq!['%', hex_digit(b / 16), hex_digit(b % 16)]
    }
}

/// The upper-case hex digit of `n`, for `n < 16`.
pub open spec fn hex_digit(n: u8) -> char {
    if n < 10 {
        ((48 + n) as u32) as char
    } else {
        ((55 + n) as u32) as char
    }
}

/// The `application/x-www-form-urlencoded` form of `bytes`.
pub open spec fn form_encoded(bytes: Seq<u8>) -> Seq<char>
    decreases bytes.len(),
{
    if bytes.len() == 0 {
        Seq::empty()
    } else {
        form_encoded_byte(bytes[0]) + form_encoded(bytes.drop_first())
    }
}

/// `url::form_urlencoded::byte_serialize` on the UTF-8 bytes of `s`, collected: the form
/// encoding of each byte, in order, as that crate's source writes it.
#[verifier::external_body]
fn form_urlencode(s: &str) -> (r: String)
    ensures
        r@ == form_encoded(encode_utf8(s@)),
{
    url::form_urlencoded::byte_serialize(s.as_bytes()).collect()
}

/// Whether `api_key` is a key of the free API (it ends with `:fx`, trailing white space
/// aside).
pub fn is_free_api_key(api_key: &str) -> (r: bool)
    ensures
        r == is_free_key(api_key@),
{
    let chars = chars_of(api_key);
    let mut end: usize = chars.len();
    while end > 0 && is_whitespace(chars[end - 1])
        invariant
            chars@ == api_key@,
            end <= chars@.len(),
            last_ink_end_from(chars@, end as int) == last_ink_end_from(chars@, chars@.len() as int),
        decreases end,
    {
        end = end - 1;
    }
    proof {
        assert(last_ink_end_from(chars@, end as int) == end);
        assert(trimmed_end(api_key@) =~= chars@.subrange(0, end as int));
    }
    if end < 3 {
        return false;
    }
    let r = chars[end - 3] == ':' && chars[end - 2] == 'f' && chars[end - 1] == 'x';
    proof {
        let t = trimmed_end(api_key@);
        if r {
            assert(t.subrange(t.len() - 3, t.len() as int) =~= seq![':', 'f', 'x']);
        } else {
            if t.subrange(t.len() - 3, t.len() as int) == seq![':', 'f', 'x'] {
                assert(t.subrange(t.len() - 3, t.len() as int)[0] == ':');
                assert(t.subrange(t.len() - 3, t.len() as int)[1] == 'f');
                assert(t.subrange(t.len() - 3, t.len() as int)[2] == 'x');
            }
        }
    }
    r
}

/// The API root that requests go to: `base` trimmed and without trailing slashes when it is
/// given and not blank, else the free or the paid API as `api_key` says.
pub fn normalize_base_url(base: Option<&str>, api_key: &str) -> (r: String)
    ensures
        r@ == api_root(
            match base {
                Some(b) => Some(b@),
                None => None,
            },
            api_key@,
        ),
{
    if let Some(b) = base {
        let chars = chars_of(b);
        let (lo, hi) = trim_range(&chars);
        if lo < hi {
            let mut end = hi;
            proof {
                assert(chars@.subrange(lo as int, hi as int).len() > 0);
            }
            while end > lo && chars[end - 1] == '/'
                invariant
                    chars@ == b@,
                    lo <= end <= hi <= chars@.len(),
                    strip_trailing_slashes(chars@.subrange(lo as int, end as int))
                        == strip_trailing_slashes(chars@.subrange(lo as int, hi as int)),
                decreases end,
            {
                proof {
                    assert(chars@.subrange(lo as int, end - 1) =~= chars@.subrange(
                        lo as int,
                        end as int,
                    ).drop_last());
                }
                end = end - 1;
            }
            proof {
                let s = chars@.subrange(lo as int, end as int);
                if end > lo {
                    assert(s.last() == chars@[end - 1]);
                }
                assert(strip_trailing_slashes(s) == s);
            }
            return string_from_chars(slice_subrange(chars.as_slice(), lo, end));
        }
    }
    if is_free_api_key(api_key) {
        proof {
            reveal_strlit("https://api-free.deepl.com");
        }
        "https://api-free.deepl.com".to_owned()
    } else {
        proof {
            reveal_strlit("https://api.deepl.com");
        }
        "https://api.deepl.com".to_owned()
    }
}

/// The code that DeepL uses for `language`.
pub fn deepl_target_lang(language: Language) -> (r: &'static str)
    ensures
        r@ == deepl_code(language),
{
    match language {
        Language::ChineseSimplified => {
            proof {
                reveal_strlit("ZH-HANS");
            }
            "ZH-HANS"
        },
        Language::English => {
            proof {
                reveal_strlit("EN-US");
            }
            "EN-US"
        },
        Language::French => {
            proof {
                reveal_strlit("FR");
            }
            "FR"
        },
        Language::Portuguese => {
            proof {
                reveal_strlit("PT-PT");
            }
            "PT-PT"
        },
        Language::BrazilianPortuguese => {
            proof {
                reveal_strlit("PT-BR");
            }
            "PT-BR"
        },
        Language::Spanish => {
            proof {
                reveal_strlit("ES");
            }
            "ES"
        },
        Language::Japanese => {
            proof {
                reveal_strlit("JA");
            }
            "JA"
        },
        Language::Turkish => {
            proof {
                reveal_strlit("TR");
            }
            "TR"
        },
        Language::Russian => {
            proof {
                reveal_strlit("RU");
            }
            "RU"
        },
        Language::Arabic => {
            proof {
                reveal_strlit("AR");
            }
            "AR"
        },
        Language::Korean => {
            proof {
                reveal_strlit("KO");
            }
            "KO"
        },
        Language::Thai => {
            proof {
                reveal_strlit("TH");
            }
            "TH"
        },
        Language::Italian => {
            proof {
                reveal_strlit("IT");
            }
            "IT"
        },
        Language::German => {
            proof {
                reveal_strlit("DE");
            }
            "DE"
        },
        Language::Vietnamese => {
            proof {
                reveal_strlit("VI");
            }
            "VI"
        },
        Language::Malay => {
            proof {
                reveal_strlit("MS");
            }
            "MS"
        },
        Language::Indonesian => {
            proof {
                reveal_strlit("ID");
            }
            "ID"
        },
        Language::Filipino => {
            proof {
                reveal_strlit("EN-US");
            }
            "EN-US"
        },
        Language::Hindi => {
            proof {
                reveal_strlit("HI");
            }
            "HI"
        },
        Language::ChineseTraditional => {
            proof {
                reveal_strlit("ZH-HANT");
            }
            "ZH-HANT"
        },
        Language::Polish => {
            proof {
                reveal_strlit("PL");
            }
            "PL"
        },
        Language::Czech => {
            proof {
                reveal_strlit("CS");
            }
            "CS"
        },
        Language::Dutch => {
            proof {
                reveal_strlit("NL");
            }
            "NL"
        },
        Language::Khmer => {
            proof {
                reveal_strlit("EN-US");
            }
            "EN-US"
        },
        Language::Burmese => {
            proof {
                reveal_strlit("EN-US");
            }
            "EN-US"
        },
        Language::Persian => {
            proof {
                reveal_strlit("EN-US");
            }
            "EN-US"
        },
        Language::Gujarati => {
            proof {
                reveal_strlit("GU");
            }
            "GU"
        },
        Language::Urdu => {
            proof {
                reveal_strlit("UR");
            }
            "UR"
        },
        Language::Telugu => {
            proof {
                reveal_strlit("TE");
            }
            "TE"
        },
        Language::Marathi => {
            proof {
                reveal_strlit("MR");
            }
            "MR"
        },
        Language::Hebrew => {
            proof {
                reveal_strlit("HE");
            }
            "HE"
        },
        Language::Bengali => {
            proof {
                reveal_strlit("BN");
            }
            "BN"
        },
        Language::Bulgarian => {
            proof {
                reveal_strlit("BG");
            }
            "BG"
        },
        Language::Tamil => {
            proof {
                reveal_strlit("TA");
            }
            "TA"
        },
        Language::Ukrainian => {
            proof {
                reveal_strlit("UK");
            }
            "UK"
        },
        Language::Tibetan => {
            proof {
                reveal_strlit("ZH");
            }
            "ZH"
        },
        Language::Kazakh => {
            proof {
                reveal_strlit("KK");
            }
            "KK"
        },
        Language::Mongolian => {
            proof {
                reveal_strlit("EN-US");
            }
            "EN-US"
        },
        Language::Uyghur => {
            proof {
                reveal_strlit("ZH");
            }
            "ZH"
        },
        Language::Cantonese => {
            proof {
                reveal_strlit("ZH");
            }
            "ZH"
        },
        Language::Belarusian => {
            proof {
                reveal_strlit("BE");
            }
            "BE"
        },
        Language::Hungarian => {
            proof {
                reveal_strlit("HU");
            }
            "HU"
        },
    }
}

/// The translation that a DeepL reply carries: the first of its `translations`, `None`
/// when it carries none.
pub fn first_translation(translations: Vec<String>) -> (r: Option<String>)
    ensures
        translations@.len() == 0 ==> r is None,
        translations@.len() > 0 ==> (r matches Some(t) && t@ == translations@[0]@),
{
    let mut translations = translations;
    if translations.len() == 0 {
        None
    } else {
        Some(translations.remove(0))
    }
}

/// The parts of a DeepL translation request.
pub struct DeeplRequest {
    /// Where the request is posted.
    pub url: String,
    /// The value of the `Authorization` header.
    pub authorization: String,
    /// The form-encoded body.
    pub body: String,
}

/// The request that translates `source` into `target_language`: posted to
/// `{root}/v2/translate`, authorized by `DeepL-Auth-Key {api_key}`, with the form body
/// `text={source}&target_lang={code}`.
pub fn deepl_request(base_url: Option<&str>, api_key: &str, source: &str, target_language: Language) -> (r: DeeplRequest)
    ensures
        r.url@ == api_root(
            match base_url {
                Some(b) => Some(b@),
                None => None,
            },
            api_key@,
        ) + seq!['/', 'v', '2', '/', 't', 'r', 'a', 'n', 's', 'l', 'a', 't', 'e'],
        r.authorization@ == seq!['D', 'e', 'e', 'p', 'L', '-', 'A', 'u', 't', 'h', '-', 'K', 'e', 'y', ' '] + api_key@,
        r.body@ == seq!['t', 'e', 'x', 't', '='] + form_encoded(encode_utf8(source@)) + seq!['&', 't', 'a', 'r', 'g', 'e', 't', '_', 'l', 'a', 'n', 'g', '='] + form_encoded(
            encode_utf8(deepl_code(target_language)),
        ),
{
    let mut url = normalize_base_url(base_url, api_key);
    proof {
        reveal_strlit("/v2/translate");
        reveal_strlit("DeepL-Auth-Key ");
        reveal_strlit("text=");
        reveal_strlit("&target_lang=");
    }
    url.append("/v2/translate");
    let mut authorization = "DeepL-Auth-Key ".to_owned();
    authorization.append(api_key);
    let mut body = "text=".to_owned();
    let text = form_urlencode(source);
    body.append(text.as_str());
    body.append("&target_lang=");
    let lang = form_urlencode(deepl_target_lang(target_language));
    body.append(lang.as_str());
    DeeplRequest { url, authorization, body }
}


proof fn lemma_strip_trailing_slashes(s: Seq<char>)
    ensures
        strip_trailing_slashes(s).len() > 0 ==> strip_trailing_slashes(s).last() != '/',
        strip_trailing_slashes(s).len() <= s.len(),
        strip_trailing_slashes(s) == s.take(strip_trailing_slashes(s).len() as int),
    decreases s.len(),
{
    if s.len() > 0 && s.last() == '/' {
        lemma_strip_trailing_slashes(s.drop_last());
        let r = strip_trailing_slashes(s.drop_last());
        assert(s.drop_last().take(r.len() as int) =~= s.take(r.len() as int));
    } else {
        assert(s.take(s.len() as int) =~= s);
    }
}

/// The API root never ends with `/`, so a request path such as `/v2/translate` joins it
/// with a single slash; a given base URL only loses white space and trailing slashes; and
/// without a usable base URL the key alone picks the free or the paid API.
pub proof fn law_api_root_shape(base: Option<Seq<char>>, key: Seq<char>)
    ensures
        api_root(base, key).len() > 0 ==> api_root(base, key).last() != '/',
        base is Some && trimmed(base->0).len() > 0 ==> api_root(base, key) == trimmed(base->0).take(
            api_root(base, key).len() as int,
        ),
        !(base is Some && trimmed(base->0).len() > 0) ==> api_root(base, key) == (if is_free_key(key) {
            free_base_url()
        } else {
            paid_base_url()
        }),
{
    if base is Some && trimmed(base->0).len() > 0 {
        lemma_strip_trailing_slashes(trimmed(base->0));
    }
}

/// Whether DeepL translates into `l`; the others fall back to US English, or to Chinese for
/// the languages of China that DeepL lacks.
pub open spec fn deepl_supported(l: Language) -> bool {
    !(l is Filipino || l is Khmer || l is Burmese || l is Persian || l is Mongolian || l is Tibetan
        || l is Uyghur || l is Cantonese)
}

/// Whether DeepL tells regional variants of `l`'s language apart, so that `l` goes by its
/// whole tag (English and Portuguese).
pub open spec fn deepl_regional(l: Language) -> bool {
    l is English || l is Portuguese || l is BrazilianPortuguese
}

/// `c` with an ASCII lower-case letter turned to upper case.
pub open spec fn ascii_upper(c: char) -> char {
    if 'a' <= c <= 'z' {
        ((c as u32) - 32) as char
    } else {
        c
    }
}

/// `s` with its ASCII lower-case letters turned to upper case.
pub open spec fn upper_cased(s: Seq<char>) -> Seq<char> {
    s.map_values(|c: char| ascii_upper(c))
}

/// The first language from index `i` of `all_languages` that DeepL supports under `code`.
pub open spec fn deepl_language_from(code: Seq<char>, i: int) -> Option<Language>
    decreases all_languages().len() - i,
{
    if 0 <= i < all_languages().len() {
        if deepl_supported(all_languages()[i]) && deepl_code(all_languages()[i]) == code {
            Some(all_languages()[i])
        } else {
            deepl_language_from(code, i + 1)
        }
    } else {
        None
    }
}

proof fn lemma_deepl_lookup_reaches(code: Seq<char>, i: int, n: int)
    requires
        0 <= i <= n < all_languages().len(),
        deepl_supported(language_at(n)) && deepl_code(language_at(n)) == code,
        forall|j: int| i <= j < n ==> !(deepl_supported(#[trigger] language_at(j)) && deepl_code(language_at(j)) == code),
    ensures
        deepl_language_from(code, i) == Some(language_at(n)),
    decreases n - i,
{
    lemma_language_at();
    assert(all_languages()[i] == language_at(i));
    if i < n {
        lemma_deepl_lookup_reaches(code, i + 1, n);
    }
}

#[verifier::spinoff_prover]
#[verifier::rlimit(60)]
proof fn lemma_deepl_code_0(l: Language)
    requires
        deepl_supported(l),
        l is ChineseSimplified || l is English || l is French || l is Portuguese || l is BrazilianPortuguese || l is Spanish || l is Japanese,
    ensures
        primary_subtag(deepl_code(l)) == upper_cased(primary_subtag(l.spec_tag())),
        deepl_language_from(deepl_code(l), 0) == Some(l),
        deepl_regional(l) ==> deepl_code(l) == upper_cased(l.spec_tag()),
        !deepl_regional(l) && !(l is ChineseSimplified || l is ChineseTraditional) ==> deepl_code(l)
            == upper_cased(primary_subtag(l.spec_tag())),
{
    lemma_subtag_end(l.spec_tag(), 0);
    lemma_subtag_end(deepl_code(l), 0);
    match l {
        Language::ChineseSimplified => {
            assert(primary_subtag(l.spec_tag()) =~= seq!['z', 'h']);
            assert(primary_subtag(deepl_code(l)) =~= seq!['Z', 'H']);
            assert(upper_cased(seq!['z', 'h']) =~= seq!['Z', 'H']);
            lemma_deepl_lookup_reaches(deepl_code(l), 0, 0);
        },
        Language::English => {
            assert(primary_subtag(l.spec_tag()) =~= seq!['e', 'n']);
            assert(primary_subtag(deepl_code(l)) =~= seq!['E', 'N']);
            assert(upper_cased(seq!['e', 'n']) =~= seq!['E', 'N']);
            assert(upper_cased(l.spec_tag()) =~= deepl_code(l));
            lemma_deepl_lookup_reaches(deepl_code(l), 0, 1);
        },
        Language::French => {
            assert(primary_subtag(l.spec_tag()) =~= seq!['f', 'r']);
            assert(primary_subtag(deepl_code(l)) =~= seq!['F', 'R']);
            assert(upper_cased(seq!['f', 'r']) =~= seq!['F', 'R']);
            assert(deepl_code(l) =~= primary_subtag(deepl_code(l)));
            lemma_deepl_lookup_reaches(deepl_code(l), 0, 2);
        },
        Language::Portuguese => {
            assert(primary_subtag(l.spec_tag()) =~= seq!['p', 't']);
            assert(primary_subtag(deepl_code(l)) =~= seq!['P', 'T']);
            assert(upper_cased(seq!['p', 't']) =~= seq!['P', 'T']);
            assert(upper_cased(l.spec_tag()) =~= deepl_code(l));
            lemma_deepl_lookup_reaches(deepl_code(l), 0, 3);
        },
        Language::BrazilianPortuguese => {
            assert(primary_subtag(l.spec_tag()) =~= seq!['p', 't']);
            assert(primary_subtag(deepl_code(l)) =~= seq!['P', 'T']);
            assert(upper_cased(seq!['p', 't']) =~= seq!['P', 'T']);
            assert(upper_cased(l.spec_tag()) =~= deepl_code(l));
            lemma_deepl_lookup_reaches(deepl_code(l), 0, 4);
        },
        Language::Spanish => {
            assert(primary_subtag(l.spec_tag()) =~= seq!['e', 's']);
            assert(primary_subtag(deepl_code(l)) =~= seq!['E', 'S']);
            assert(upper_cased(seq!['e', 's']) =~= seq!['E', 'S']);
            assert(deepl_code(l) =~= primary_subtag(deepl_code(l)));
            lemma_deepl_lookup_reaches(deepl_code(l), 0, 5);
        },
        Language::Japanese => {
            assert(primary_subtag(l.spec_tag()) =~= seq!['j', 'a']);
            assert(primary_subtag(deepl_code(l)) =~= seq!['J', 'A']);
            assert(upper_cased(seq!['j', 'a']) =~= seq!['J', 'A']);
            assert(deepl_code(l) =~= primary_subtag(deepl_code(l)));
            lemma_deepl_lookup_reaches(deepl_code(l), 0, 6);
        },
        _ => {},
    }
}

#[verifier::spinoff_prover]
#[verifier::rlimit(60)]
proof fn lemma_deepl_code_1(l: Language)
    requires
        deepl_supported(l),
        l is Turkish || l is Russian || l is Arabic || l is Korean || l is Thai || l is Italian || l is German,
    ensures
        primary_subtag(deepl_code(l)) == upper_cased(primary_subtag(l.spec_tag())),
        deepl_language_from(deepl_code(l), 0) == Some(l),
        deepl_regional(l) ==> deepl_code(l) == upper_cased(l.spec_tag()),
        !deepl_regional(l) && !(l is ChineseSimplified || l is ChineseTraditional) ==> deepl_code(l)
            == upper_cased(primary_subtag(l.spec_tag())),
{
    lemma_subtag_end(l.spec_tag(), 0);
    lemma_subtag_end(deepl_code(l), 0);
    match l {
        Language::Turkish => {
            assert(primary_subtag(l.spec_tag()) =~= seq!['t', 'r']);
            assert(primary_subtag(deepl_code(l)) =~= seq!['T', 'R']);
            assert(upper_cased(seq!['t', 'r']) =~= seq!['T', 'R']);
            assert(deepl_code(l) =~= primary_subtag(deepl_code(l)));
            lemma_deepl_lookup_reaches(deepl_code(l), 0, 7);
        },
        Language::Russian => {
            assert(primary_subtag(l.spec_tag()) =~= seq!['r', 'u']);
            assert(primary_subtag(deepl_code(l)) =~= seq!['R', 'U']);
            assert(upper_cased(seq!['r', 'u']) =~= seq!['R', 'U']);
            assert(deepl_code(l) =~= primary_subtag(deepl_code(l)));
            lemma_deepl_lookup_reaches(deepl_code(l), 0, 8);
        },
        Language::Arabic => {
            assert(primary_subtag(l.spec_tag()) =~= seq!['a', 'r']);
            assert(primary_subtag(deepl_code(l)) =~= seq!['A', 'R']);
            assert(upper_cased(seq!['a', 'r']) =~= seq!['A', 'R']);
            assert(deepl_code(l) =~= primary_subtag(deepl_code(l)));
            lemma_deepl_lookup_reaches(deepl_code(l), 0, 9);
        },
        Language::Korean => {
            assert(primary_subtag(l.spec_tag()) =~= seq!['k', 'o']);
            assert(primary_subtag(deepl_code(l)) =~= seq!['K', 'O']);
            assert(upper_cased(seq!['k', 'o']) =~= seq!['K', 'O']);
            assert(deepl_code(l) =~= primary_subtag(deepl_code(l)));
            lemma_deepl_lookup_reaches(deepl_code(l), 0, 10);
        },
        Language::Thai => {
            assert(primary_subtag(l.spec_tag()) =~= seq!['t', 'h']);
            assert(primary_subtag(deepl_code(l)) =~= seq!['T', 'H']);
            assert(upper_cased(seq!['t', 'h']) =~= seq!['T', 'H']);
            assert(deepl_code(l) =~= primary_subtag(deepl_code(l)));
            lemma_deepl_lookup_reaches(deepl_code(l), 0, 11);
        },
        Language::Italian => {
            assert(primary_subtag(l.spec_tag()) =~= seq!['i', 't']);
            assert(primary_subtag(deepl_code(l)) =~= seq!['I', 'T']);
            assert(upper_cased(seq!['i', 't']) =~= seq!['I', 'T']);
            assert(deepl_code(l) =~= primary_subtag(deepl_code(l)));
            lemma_deepl_lookup_reaches(deepl_code(l), 0, 12);
        },
        Language::German => {
            assert(primary_subtag(l.spec_tag()) =~= seq!['d', 'e']);
            assert(primary_subtag(deepl_code(l)) =~= seq!['D', 'E']);
            assert(upper_cased(seq!['d', 'e']) =~= seq!['D', 'E']);
            assert(deepl_code(l) =~= primary_subtag(deepl_code(l)));
            lemma_deepl_lookup_reaches(deepl_code(l), 0, 13);
        },
        _ => {},
    }
}

#[verifier::spinoff_prover]
#[verifier::rlimit(60)]
proof fn lemma_deepl_code_2(l: Language)
    requires
        deepl_supported(l),
        l is Vietnamese || l is Malay || l is Indonesian || l is Filipino || l is Hindi || l is ChineseTraditional || l is Polish,
    ensures
        primary_subtag(deepl_code(l)) == upper_cased(primary_subtag(l.spec_tag())),
        deepl_language_from(deepl_code(l), 0) == Some(l),
        deepl_regional(l) ==> deepl_code(l) == upper_cased(l.spec_tag()),
        !deepl_regional(l) && !(l is ChineseSimplified || l is ChineseTraditional) ==> deepl_code(l)
            == upper_cased(primary_subtag(l.spec_tag())),
{
    lemma_subtag_end(l.spec_tag(), 0);
    lemma_subtag_end(deepl_code(l), 0);
    match l {
        Language::Vietnamese => {
            assert(primary_subtag(l.spec_tag()) =~= seq!['v', 'i']);
            assert(primary_subtag(deepl_code(l)) =~= seq!['V', 'I']);
            assert(upper_cased(seq!['v', 'i']) =~= seq!['V', 'I']);
            assert(deepl_code(l) =~= primary_subtag(deepl_code(l)));
            lemma_deepl_lookup_reaches(deepl_code(l), 0, 14);
        },
        Language::Malay => {
            assert(primary_subtag(l.spec_tag()) =~= seq!['m', 's']);
            assert(primary_subtag(deepl_code(l)) =~= seq!['M', 'S']);
            assert(upper_cased(seq!['m', 's']) =~= seq!['M', 'S']);
            assert(deepl_code(l) =~= primary_subtag(deepl_code(l)));
            lemma_deepl_lookup_reaches(deepl_code(l), 0, 15);
        },
        Language::Indonesian => {
            assert(primary_subtag(l.spec_tag()) =~= seq!['i', 'd']);
            assert(primary_subtag(deepl_code(l)) =~= seq!['I', 'D']);
            assert(upper_cased(seq!['i', 'd']) =~= seq!['I', 'D']);
            assert(deepl_code(l) =~= primary_subtag(deepl_code(l)));
            lemma_deepl_lookup_reaches(deepl_code(l), 0, 16);
        },
        Language::Hindi => {
            assert(primary_subtag(l.spec_tag()) =~= seq!['h', 'i']);
            assert(primary_subtag(deepl_code(l)) =~= seq!['H', 'I']);
            assert(upper_cased(seq!['h', 'i']) =~= seq!['H', 'I']);
            assert(deepl_code(l) =~= primary_subtag(deepl_code(l)));
            lemma_deepl_lookup_reaches(deepl_code(l), 0, 18);
        },
        Language::ChineseTraditional => {
            assert(primary_subtag(l.spec_tag()) =~= seq!['z', 'h']);
            assert(primary_subtag(deepl_code(l)) =~= seq!['Z', 'H']);
            assert(upper_cased(seq!['z', 'h']) =~= seq!['Z', 'H']);
            lemma_deepl_lookup_reaches(deepl_code(l), 0, 19);
        },
        Language::Polish => {
            assert(primary_subtag(l.spec_tag()) =~= seq!['p', 'l']);
            assert(primary_subtag(deepl_code(l)) =~= seq!['P', 'L']);
            assert(upper_cased(seq!['p', 'l']) =~= seq!['P', 'L']);
            assert(deepl_code(l) =~= primary_subtag(deepl_code(l)));
            lemma_deepl_lookup_reaches(deepl_code(l), 0, 20);
        },
        _ => {},
    }
}

#[verifier::spinoff_prover]
#[verifier::rlimit(60)]
proof fn lemma_deepl_code_3(l: Language)
    requires
        deepl_supported(l),
        l is Czech || l is Dutch || l is Khmer || l is Burmese || l is Persian || l is Gujarati || l is Urdu,
    ensures
        primary_subtag(deepl_code(l)) == upper_cased(primary_subtag(l.spec_tag())),
        deepl_language_from(deepl_code(l), 0) == Some(l),
        deepl_regional(l) ==> deepl_code(l) == upper_cased(l.spec_tag()),
        !deepl_regional(l) && !(l is ChineseSimplified || l is ChineseTraditional) ==> deepl_code(l)
            == upper_cased(primary_subtag(l.spec_tag())),
{
    lemma_subtag_end(l.spec_tag(), 0);
    lemma_subtag_end(deepl_code(l), 0);
    match l {
        Language::Czech => {
            assert(primary_subtag(l.spec_tag()) =~= seq!['c', 's']);
            assert(primary_subtag(deepl_code(l)) =~= seq!['C', 'S']);
            assert(upper_cased(seq!['c', 's']) =~= seq!['C', 'S']);
            assert(deepl_code(l) =~= primary_subtag(deepl_code(l)));
            lemma_deepl_lookup_reaches(deepl_code(l), 0, 21);
        },
        Language::Dutch => {
            assert(primary_subtag(l.spec_tag()) =~= seq!['n', 'l']);
            assert(primary_subtag(deepl_code(l)) =~= seq!['N', 'L']);
            assert(upper_cased(seq!['n', 'l']) =~= seq!['N', 'L']);
            assert(deepl_code(l) =~= primary_subtag(deepl_code(l)));
            lemma_deepl_lookup_reaches(deepl_code(l), 0, 22);
        },
        Language::Gujarati => {
            assert(primary_subtag(l.spec_tag()) =~= seq!['g', 'u']);
            assert(primary_subtag(deepl_code(l)) =~= seq!['G', 'U']);
            assert(upper_cased(seq!['g', 'u']) =~= seq!['G', 'U']);
            assert(deepl_code(l) =~= primary_subtag(deepl_code(l)));
            lemma_deepl_lookup_reaches(deepl_code(l), 0, 26);
        },
        Language::Urdu => {
            assert(primary_subtag(l.spec_tag()) =~= seq!['u', 'r']);
            assert(primary_subtag(deepl_code(l)) =~= seq!['U', 'R']);
            assert(upper_cased(seq!['u', 'r']) =~= seq!['U', 'R']);
            assert(deepl_code(l) =~= primary_subtag(deepl_code(l)));
            lemma_deepl_lookup_reaches(deepl_code(l), 0, 27);
        },
        _ => {},
    }
}

#[verifier::spinoff_prover]
#[verifier::rlimit(60)]
proof fn lemma_deepl_code_4(l: Language)
    requires
        deepl_supported(l),
        l is Telugu || l is Marathi || l is Hebrew || l is Bengali || l is Bulgarian || l is Tamil || l is Ukrainian,
    ensures
        primary_subtag(deepl_code(l)) == upper_cased(primary_subtag(l.spec_tag())),
        deepl_language_from(deepl_code(l), 0) == Some(l),
        deepl_regional(l) ==> deepl_code(l) == upper_cased(l.spec_tag()),
        !deepl_regional(l) && !(l is ChineseSimplified || l is ChineseTraditional) ==> deepl_code(l)
            == upper_cased(primary_subtag(l.spec_tag())),
{
    lemma_subtag_end(l.spec_tag(), 0);
    lemma_subtag_end(deepl_code(l), 0);
    match l {
        Language::Telugu => {
            assert(primary_subtag(l.spec_tag()) =~= seq!['t', 'e']);
            assert(primary_subtag(deepl_code(l)) =~= seq!['T', 'E']);
            assert(upper_cased(seq!['t', 'e']) =~= seq!['T', 'E']);
            assert(deepl_code(l) =~= primary_subtag(deepl_code(l)));
            lemma_deepl_lookup_reaches(deepl_code(l), 0, 28);
        },
        Language::Marathi => {
            assert(primary_subtag(l.spec_tag()) =~= seq!['m', 'r']);
            assert(primary_subtag(deepl_code(l)) =~= seq!['M', 'R']);
            assert(upper_cased(seq!['m', 'r']) =~= seq!['M', 'R']);
            assert(deepl_code(l) =~= primary_subtag(deepl_code(l)));
            lemma_deepl_lookup_reaches(deepl_code(l), 0, 29);
        },
        Language::Hebrew => {
            assert(primary_subtag(l.spec_tag()) =~= seq!['h', 'e']);
            assert(primary_subtag(deepl_code(l)) =~= seq!['H', 'E']);
            assert(upper_cased(seq!['h', 'e']) =~= seq!['H', 'E']);
            assert(deepl_code(l) =~= primary_subtag(deepl_code(l)));
            lemma_deepl_lookup_reaches(deepl_code(l), 0, 30);
        },
        Language::Bengali => {
            assert(primary_subtag(l.spec_tag()) =~= seq!['b', 'n']);
            assert(primary_subtag(deepl_code(l)) =~= seq!['B', 'N']);
            assert(upper_cased(seq!['b', 'n']) =~= seq!['B', 'N']);
            assert(deepl_code(l) =~= primary_subtag(deepl_code(l)));
            lemma_deepl_lookup_reaches(deepl_code(l), 0, 31);
        },
        Language::Bulgarian => {
            assert(primary_subtag(l.spec_tag()) =~= seq!['b', 'g']);
            assert(primary_subtag(deepl_code(l)) =~= seq!['B', 'G']);
            assert(upper_cased(seq!['b', 'g']) =~= seq!['B', 'G']);
            assert(deepl_code(l) =~= primary_subtag(deepl_code(l)));
            lemma_deepl_lookup_reaches(deepl_code(l), 0, 32);
        },
        Language::Tamil => {
            assert(primary_subtag(l.spec_tag()) =~= seq!['t', 'a']);
            assert(primary_subtag(deepl_code(l)) =~= seq!['T', 'A']);
            assert(upper_cased(seq!['t', 'a']) =~= seq!['T', 'A']);
            assert(deepl_code(l) =~= primary_subtag(deepl_code(l)));
            lemma_deepl_lookup_reaches(deepl_code(l), 0, 33);
        },
        Language::Ukrainian => {
            assert(primary_subtag(l.spec_tag()) =~= seq!['u', 'k']);
            assert(primary_subtag(deepl_code(l)) =~= seq!['U', 'K']);
            assert(upper_cased(seq!['u', 'k']) =~= seq!['U', 'K']);
            assert(deepl_code(l) =~= primary_subtag(deepl_code(l)));
            lemma_deepl_lookup_reaches(deepl_code(l), 0, 34);
        },
        _ => {},
    }
}

#[verifier::spinoff_prover]
#[verifier::rlimit(60)]
proof fn lemma_deepl_code_5(l: Language)
    requires
        deepl_supported(l),
        l is Tibetan || l is Kazakh || l is Mongolian || l is Uyghur || l is Cantonese || l is Belarusian || l is Hungarian,
    ensures
        primary_subtag(deepl_code(l)) == upper_cased(primary_subtag(l.spec_tag())),
        deepl_language_from(deepl_code(l), 0) == Some(l),
        deepl_regional(l) ==> deepl_code(l) == upper_cased(l.spec_tag()),
        !deepl_regional(l) && !(l is ChineseSimplified || l is ChineseTraditional) ==> deepl_code(l)
            == upper_cased(primary_subtag(l.spec_tag())),
{
    lemma_subtag_end(l.spec_tag(), 0);
    lemma_subtag_end(deepl_code(l), 0);
    match l {
        Language::Kazakh => {
            assert(primary_subtag(l.spec_tag()) =~= seq!['k', 'k']);
            assert(primary_subtag(deepl_code(l)) =~= seq!['K', 'K']);
            assert(upper_cased(seq!['k', 'k']) =~= seq!['K', 'K']);
            assert(deepl_code(l) =~= primary_subtag(deepl_code(l)));
            lemma_deepl_lookup_reaches(deepl_code(l), 0, 36);
        },
        Language::Belarusian => {
            assert(primary_subtag(l.spec_tag()) =~= seq!['b', 'e']);
            assert(primary_subtag(deepl_code(l)) =~= seq!['B', 'E']);
            assert(upper_cased(seq!['b', 'e']) =~= seq!['B', 'E']);
            assert(deepl_code(l) =~= primary_subtag(deepl_code(l)));
            lemma_deepl_lookup_reaches(deepl_code(l), 0, 40);
        },
        Language::Hungarian => {
            assert(primary_subtag(l.spec_tag()) =~= seq!['h', 'u']);
            assert(primary_subtag(deepl_code(l)) =~= seq!['H', 'U']);
            assert(upper_cased(seq!['h', 'u']) =~= seq!['H', 'U']);
            assert(deepl_code(l) =~= primary_subtag(deepl_code(l)));
            lemma_deepl_lookup_reaches(deepl_code(l), 0, 41);
        },
        _ => {},
    }
}

proof fn lemma_deepl_code(l: Language)
    requires
        deepl_supported(l),
    ensures
        primary_subtag(deepl_code(l)) == upper_cased(primary_subtag(l.spec_tag())),
        deepl_language_from(deepl_code(l), 0) == Some(l),
        deepl_regional(l) ==> deepl_code(l) == upper_cased(l.spec_tag()),
        !deepl_regional(l) && !(l is ChineseSimplified || l is ChineseTraditional) ==> deepl_code(l)
            == upper_cased(primary_subtag(l.spec_tag())),
{
    match l {
        Language::ChineseSimplified => lemma_deepl_code_0(l),
        Language::English => lemma_deepl_code_0(l),
        Language::French => lemma_deepl_code_0(l),
        Language::Portuguese => lemma_deepl_code_0(l),
        Language::BrazilianPortuguese => lemma_deepl_code_0(l),
        Language::Spanish => lemma_deepl_code_0(l),
        Language::Japanese => lemma_deepl_code_0(l),
        Language::Turkish => lemma_deepl_code_1(l),
        Language::Russian => lemma_deepl_code_1(l),
        Language::Arabic => lemma_deepl_code_1(l),
        Language::Korean => lemma_deepl_code_1(l),
        Language::Thai => lemma_deepl_code_1(l),
        Language::Italian => lemma_deepl_code_1(l),
        Language::German => lemma_deepl_code_1(l),
        Language::Vietnamese => lemma_deepl_code_2(l),
        Language::Malay => lemma_deepl_code_2(l),
        Language::Indonesian => lemma_deepl_code_2(l),
        Language::Hindi => lemma_deepl_code_2(l),
        Language::ChineseTraditional => lemma_deepl_code_2(l),
        Language::Polish => lemma_deepl_code_2(l),
        Language::Czech => lemma_deepl_code_3(l),
        Language::Dutch => lemma_deepl_code_3(l),
        Language::Gujarati => lemma_deepl_code_3(l),
        Language::Urdu => lemma_deepl_code_3(l),
        Language::Telugu => lemma_deepl_code_4(l),
        Language::Marathi => lemma_deepl_code_4(l),
        Language::Hebrew => lemma_deepl_code_4(l),
        Language::Bengali => lemma_deepl_code_4(l),
        Language::Bulgarian => lemma_deepl_code_4(l),
        Language::Tamil => lemma_deepl_code_4(l),
        Language::Ukrainian => lemma_deepl_code_4(l),
        Language::Kazakh => lemma_deepl_code_5(l),
        Language::Belarusian => lemma_deepl_code_5(l),
        Language::Hungarian => lemma_deepl_code_5(l),
        _ => {},
    }
}

/// DeepL's code for a language it supports names that language: its primary part (before
/// any `-`) is the upper-cased primary subtag of the language's tag (`DE` for `de-DE`); it
/// is that alone, but for English and Portuguese, which go by their whole tag upper-cased
/// (`EN-US`, `PT-BR`), and Chinese, which adds its script (`ZH-HANS`, `ZH-HANT`).
pub proof fn law_deepl_codes_follow_tags(l: Language)
    requires
        deepl_supported(l),
    ensures
        primary_subtag(deepl_code(l)) == upper_cased(primary_subtag(l.spec_tag())),
        deepl_regional(l) ==> deepl_code(l) == upper_cased(l.spec_tag()),
        !deepl_regional(l) && !(l is ChineseSimplified || l is ChineseTraditional) ==> deepl_code(l)
            == upper_cased(primary_subtag(l.spec_tag())),
        l is ChineseSimplified ==> deepl_code(l) == upper_cased(primary_subtag(l.spec_tag())) + seq![
            '-',
            'H',
            'A',
            'N',
            'S',
        ],
        l is ChineseTraditional ==> deepl_code(l) == upper_cased(primary_subtag(l.spec_tag())) + seq![
            '-',
            'H',
            'A',
            'N',
            'T',
        ],
{
    lemma_deepl_code(l);
    if l is ChineseSimplified || l is ChineseTraditional {
        lemma_subtag_end(l.spec_tag(), 0);
        assert(upper_cased(primary_subtag(l.spec_tag())) =~= seq!['Z', 'H']);
    }
}

/// Different languages that DeepL supports are sent under different codes, so no text is
/// translated into another supported language than the one asked for.
pub proof fn law_deepl_codes_distinct(l1: Language, l2: Language)
    requires
        deepl_supported(l1),
        deepl_supported(l2),
        l1 != l2,
    ensures
        deepl_code(l1) != deepl_code(l2),
{
    lemma_deepl_code(l1);
    lemma_deepl_code(l2);
}

/// A language that DeepL lacks is sent as US English, or, for a language of China, as
/// Chinese.
pub proof fn law_deepl_fallbacks(l: Language)
    requires
        !deepl_supported(l),
    ensures
        deepl_code(l) == deepl_code(Language::English) || deepl_code(l) == primary_subtag(
            deepl_code(Language::ChineseSimplified),
        ),
{
    lemma_subtag_end(deepl_code(Language::ChineseSimplified), 0);
    assert(primary_subtag(deepl_code(Language::ChineseSimplified)) =~= seq!['Z', 'H']);
}

} // verus!
