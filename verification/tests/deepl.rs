use koharu::deepl::{
    deepl_request, deepl_target_lang, first_translation, is_free_api_key, normalize_base_url,
};
use koharu::language::Language;

#[test]
fn free_api_keys_end_with_fx() {
    assert!(is_free_api_key("abc:fx"));
    assert!(is_free_api_key("abc:fx  \n"));
    assert!(!is_free_api_key("abc:FX"));
    assert!(!is_free_api_key("abc"));
    assert!(!is_free_api_key(":f"));
}

#[test]
fn base_url_is_trimmed_or_chosen_by_key() {
    assert_eq!(normalize_base_url(Some(" https://proxy.example/api/// "), "k"), "https://proxy.example/api");
    assert_eq!(normalize_base_url(Some("   "), "k:fx"), "https://api-free.deepl.com");
    assert_eq!(normalize_base_url(None, "k"), "https://api.deepl.com");
    assert_eq!(normalize_base_url(Some("///"), "k"), "");
}

#[test]
fn deepl_language_codes() {
    assert_eq!(deepl_target_lang(Language::ChineseSimplified), "ZH-HANS");
    assert_eq!(deepl_target_lang(Language::ChineseTraditional), "ZH-HANT");
    assert_eq!(deepl_target_lang(Language::English), "EN-US");
    assert_eq!(deepl_target_lang(Language::BrazilianPortuguese), "PT-BR");
    assert_eq!(deepl_target_lang(Language::Khmer), "EN-US");
    assert_eq!(deepl_target_lang(Language::Cantonese), "ZH");
}

#[test]
fn deepl_request_is_form_encoded() {
    let request = deepl_request(None, "key:fx", "Hello world & 50%!", Language::Japanese);
    assert_eq!(request.url, "https://api-free.deepl.com/v2/translate");
    assert_eq!(request.authorization, "DeepL-Auth-Key key:fx");
    assert_eq!(request.body, "text=Hello+world+%26+50%25%21&target_lang=JA");
    let request = deepl_request(Some("http://localhost:8080/"), "k", "é", Language::ChineseSimplified);
    assert_eq!(request.url, "http://localhost:8080/v2/translate");
    assert_eq!(request.body, "text=%C3%A9&target_lang=ZH-HANS");
}

#[test]
fn reply_gives_its_first_translation() {
    assert_eq!(
        first_translation(vec!["Hallo".to_string(), "Welt".to_string()]),
        Some("Hallo".to_string())
    );
    assert_eq!(first_translation(Vec::new()), None);
}
