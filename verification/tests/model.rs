use koharu::language::Language;
use koharu::model::{all_model_values, ModelId};

#[test]
fn model_ids_and_files() {
    assert_eq!(ModelId::HunyuanMT7B.id(), "hunyuan-mt-7b");
    assert_eq!(ModelId::HunyuanMT7B.repo(), "Mungert/Hunyuan-MT-7B-GGUF");
    assert_eq!(ModelId::HunyuanMT7B.filename(), "Hunyuan-MT-7B-q4_k_m.gguf");
    assert_eq!(ModelId::VntlLlama3_8Bv2.property("repo"), "lmg-anon/vntl-llama3-8b-v2-gguf");
    assert_eq!(
        ModelId::VntlLlama3_8Bv2.property("filename"),
        "vntl-llama3-8b-v2-hf-q5_k_m.gguf"
    );
    assert_eq!(ModelId::VntlLlama3_8Bv2.property("languages"), "en-US");
    assert_eq!(ModelId::Gemma4E2bIt.property("languages"), "*");
}

#[test]
fn model_languages_parse_listed_tags() {
    assert_eq!(ModelId::VntlLlama3_8Bv2.languages(), vec![Language::English]);
    let hunyuan = ModelId::HunyuanMT7B.languages();
    assert_eq!(hunyuan.len(), 39);
    assert_eq!(hunyuan[0], Language::ChineseSimplified);
    assert_eq!(hunyuan[38], Language::Cantonese);
    assert_eq!(ModelId::Gemma4E2bIt.languages().len(), 42);
    for model in all_model_values() {
        assert!(!model.languages().is_empty());
    }
}

#[test]
fn model_sampling_defaults() {
    let lfm = ModelId::Lfm2_5_1_2bInstruct.default_generate_options();
    assert_eq!(lfm.temperature_milli, Some(100));
    assert_eq!(lfm.top_k, Some(50));
    assert_eq!(lfm.repeat_penalty_milli, Some(1050));
    assert_eq!(lfm.top_p_milli, None);
    let sugoi = ModelId::Sugoi32bUltra.default_generate_options();
    assert_eq!(sugoi.min_p_milli, Some(50));
    assert_eq!(sugoi.top_p_milli, Some(950));
    let qwen = ModelId::Qwen3_6_27b.default_generate_options();
    assert_eq!(qwen.temperature_milli, Some(700));
    assert_eq!(qwen.presence_penalty_milli, Some(1500));
    let plain = ModelId::VntlLlama3_8Bv2.default_generate_options();
    assert_eq!(plain.temperature_milli, None);
    assert_eq!(plain.repeat_penalty_milli, None);
    assert_eq!(all_model_values().len(), 29);
}
