use koharu::paddleocr::{
    build_user_message_content, choose_model_files, context_params, decoder_start_token,
    image_chunk_tokens, max_chunk_tokens, model_params, repeated_ocr_suffix_start, token_text,
    ChunkInfo, ContextSizingError, GenerationError, GenerationStep, ModelDirEntry,
    ModelFilesChoice, ModelFilesError, OcrGeneration, PaddleOcrVl, PaddleOcrVlTask,
    PromptContent, DEFAULT_GPU_LAYERS, MAX_UBATCH, PADDLEOCR_IMAGE_MARKER,
};
use koharu::paddleocr::render_chat_prompt;

#[test]
fn user_message_places_image_before_task() {
    assert_eq!(
        build_user_message_content(PaddleOcrVlTask::Ocr),
        vec![
            PromptContent::Image,
            PromptContent::Text {
                text: "OCR:".to_string(),
            },
        ]
    );
}

#[test]
fn user_message_contents_match_paddleocr_tasks() {
    assert_eq!(
        build_user_message_content(PaddleOcrVlTask::Table),
        vec![
            PromptContent::Image,
            PromptContent::Text {
                text: "Table Recognition:".to_string(),
            },
        ]
    );
    assert_eq!(
        build_user_message_content(PaddleOcrVlTask::Formula),
        vec![
            PromptContent::Image,
            PromptContent::Text {
                text: "Formula Recognition:".to_string(),
            },
        ]
    );
    assert_eq!(
        build_user_message_content(PaddleOcrVlTask::Chart),
        vec![
            PromptContent::Image,
            PromptContent::Text {
                text: "Chart Recognition:".to_string(),
            },
        ]
    );
    assert_eq!(
        build_user_message_content(PaddleOcrVlTask::Spotting),
        vec![
            PromptContent::Image,
            PromptContent::Text {
                text: "Spotting:".to_string(),
            },
        ]
    );
    assert_eq!(
        build_user_message_content(PaddleOcrVlTask::Seal),
        vec![
            PromptContent::Image,
            PromptContent::Text {
                text: "Seal Recognition:".to_string(),
            },
        ]
    );
}

#[test]
fn repeat_guard_trims_single_glyph_loop() {
    let text = "\u{25CF}".repeat(12);
    assert_eq!(repeated_ocr_suffix_start(&text), Some(0));
}

#[test]
fn repeat_guard_trims_after_text_prefix() {
    let text = format!("OCR{}", "\u{25CF}".repeat(12));
    assert_eq!(repeated_ocr_suffix_start(&text), Some(3));
}

#[test]
fn repeat_guard_trims_short_cycle() {
    assert_eq!(repeated_ocr_suffix_start("-_".repeat(6).as_str()), Some(0));
}

#[test]
fn repeat_guard_keeps_short_emphasis_punctuation() {
    assert_eq!(repeated_ocr_suffix_start("!!!"), None);
    assert_eq!(repeated_ocr_suffix_start("......"), None);
}

#[test]
fn repeat_guard_trims_repeated_text_loop() {
    assert_eq!(
        repeated_ocr_suffix_start(
            "\u{3042}\u{3042}\u{3042}\u{3042}\u{3042}\u{3042}\u{3042}\u{3042}\u{3042}\u{3042}\u{3042}\u{3042}"
        ),
        Some(0)
    );
}

#[test]
fn repeat_guard_trims_repeated_word_loop() {
    assert_eq!(
        repeated_ocr_suffix_start("test".repeat(4).as_str()),
        Some(0)
    );
}

#[test]
fn repeat_guard_ignores_white_space_between_copies() {
    // Twelve copies of one glyph with spaces between them still count as a loop, and the
    // cut starts at the first copy, after the prefix.
    let text = format!("ab {}", "x ".repeat(12));
    assert_eq!(repeated_ocr_suffix_start(&text), Some(3));
}

#[test]
fn repeat_guard_needs_four_copies() {
    // Twelve chars are only searched for units of up to three chars; seventeen allow four.
    assert_eq!(repeated_ocr_suffix_start("abcdabcdabcd"), None);
    assert_eq!(repeated_ocr_suffix_start("zabcdabcdabcdabcd"), Some(1));
}

#[test]
fn repeat_guard_short_text_is_never_cut() {
    assert_eq!(repeated_ocr_suffix_start("aaaaaaaaaaa"), None);
    assert_eq!(repeated_ocr_suffix_start(""), None);
}

#[test]
fn model_params_keep_cpu_runs_off_the_gpu() {
    assert_eq!(model_params(false, true).n_gpu_layers, DEFAULT_GPU_LAYERS);
    assert_eq!(model_params(true, true).n_gpu_layers, 0);
    assert_eq!(model_params(false, false).n_gpu_layers, 0);
}

#[test]
fn context_params_size_for_prompt_and_generation() {
    let c = context_params(700, 650, 600, 256, false).unwrap();
    assert_eq!(c.n_ctx, 957);
    assert_eq!(c.n_batch, 600);
    assert_eq!(c.n_ubatch, MAX_UBATCH);
    assert!(!c.non_causal);
    let c = context_params(10, 10, 2000, 5, true).unwrap();
    assert_eq!(c.n_ctx, 2001);
    assert_eq!(c.n_batch, 2000);
    assert_eq!(c.n_ubatch, 2000);
    assert!(c.non_causal);
    let c = context_params(0, 0, 0, 0, false).unwrap();
    assert_eq!(c.n_batch, 1);
    assert_eq!(c.n_ubatch, 1);
}

#[test]
fn context_params_reject_oversized_context() {
    let big = (u32::MAX as usize) + 10;
    assert_eq!(
        context_params(big, 1, 1, 1, false),
        Err(ContextSizingError::ContextTooLarge)
    );
}

#[test]
fn chunk_token_counts() {
    let chunks = [
        ChunkInfo { n_tokens: 12, is_image: false },
        ChunkInfo { n_tokens: 300, is_image: true },
        ChunkInfo { n_tokens: 5, is_image: false },
        ChunkInfo { n_tokens: 20, is_image: true },
    ];
    assert_eq!(max_chunk_tokens(&chunks), 300);
    assert_eq!(image_chunk_tokens(&chunks), 320);
    assert_eq!(max_chunk_tokens(&[]), 0);
    assert_eq!(image_chunk_tokens(&[]), 0);
}

#[test]
fn decoder_start_token_prefers_model_start() {
    assert_eq!(decoder_start_token(false, 5, 1), None);
    assert_eq!(decoder_start_token(true, 5, 1), Some(5));
    assert_eq!(decoder_start_token(true, -1, 1), Some(1));
}

#[test]
fn should_stop_on_eos_or_end_of_generation() {
    let session = PaddleOcrVl {
        eos_token: 2,
        chat_template: String::new(),
        bos_token: "<s>".to_string(),
        eos_token_text: "</s>".to_string(),
    };
    assert!(session.should_stop(2, false));
    assert!(session.should_stop(7, true));
    assert!(!session.should_stop(7, false));
}

#[test]
fn token_text_falls_back_to_the_token_number() {
    assert_eq!(token_text(Some("<s>".to_string()), 1), "<s>");
    assert_eq!(token_text(Some(String::new()), 42), "42");
    assert_eq!(token_text(None, -3), "-3");
}

#[test]
fn generation_accepts_tokens_until_budget() {
    let mut generation = OcrGeneration::new(2);
    assert!(generation.wants_token());
    assert_eq!(generation.accept(10, "Hel"), Ok(GenerationStep::Continue));
    assert_eq!(generation.accept(11, "lo"), Ok(GenerationStep::Finished));
    assert!(!generation.wants_token());
    assert_eq!(generation.text_byte_len(), 5);
    let out = generation.into_output(PaddleOcrVlTask::Ocr, 40, 30, 99);
    assert_eq!(out.text, "Hello");
    assert_eq!(out.token_ids, vec![10, 11]);
    assert_eq!(out.processed_width, 40);
    assert_eq!(out.grid_thw, [0, 0, 0]);
    assert_eq!(out.num_image_tokens, 99);
}

#[test]
fn generation_refuses_negative_token() {
    let mut generation = OcrGeneration::new(4);
    assert_eq!(generation.accept(-1, "x"), Err(GenerationError::NegativeTokenId));
    assert_eq!(generation.text_byte_len(), 0);
    assert!(generation.wants_token());
}

#[test]
fn generation_cuts_runaway_repetition_with_its_tokens() {
    let mut generation = OcrGeneration::new(100);
    assert_eq!(generation.accept(1, "OCR"), Ok(GenerationStep::Continue));
    let mut step = Ok(GenerationStep::Continue);
    let mut count = 0;
    while step == Ok(GenerationStep::Continue) {
        step = generation.accept(2, "\u{25CF}");
        count += 1;
    }
    assert_eq!(step, Ok(GenerationStep::Finished));
    assert_eq!(count, 12);
    assert!(generation.stopped_on_repeat());
    assert_eq!(generation.text_byte_len(), 3);
    let out = generation.into_output(PaddleOcrVlTask::Ocr, 1, 1, 0);
    assert_eq!(out.text, "OCR");
    assert_eq!(out.token_ids, vec![1]);
}

#[test]
fn generation_output_trims_white_space() {
    let mut generation = OcrGeneration::new(3);
    assert_eq!(generation.accept(5, "  hi "), Ok(GenerationStep::Continue));
    let out = generation.into_output(PaddleOcrVlTask::Table, 2, 3, 4);
    assert_eq!(out.text, "hi");
    assert_eq!(out.task, PaddleOcrVlTask::Table);
}

#[test]
fn model_files_prefer_published_names() {
    assert_eq!(choose_model_files(true, &[]), Ok(ModelFilesChoice::Preferred));
}

#[test]
fn model_files_found_by_extension() {
    let entries = vec![
        ModelDirEntry {
            file_name: Some("README.md".to_string()),
            extension: Some("md".to_string()),
        },
        ModelDirEntry {
            file_name: Some("vision-mmproj-f16.gguf".to_string()),
            extension: Some("gguf".to_string()),
        },
        ModelDirEntry {
            file_name: Some("model-q8.GGUF".to_string()),
            extension: Some("GGUF".to_string()),
        },
    ];
    assert_eq!(
        choose_model_files(false, &entries),
        Ok(ModelFilesChoice::Found { model: 2, mmproj: 1 })
    );
}

#[test]
fn model_files_report_what_is_missing() {
    let only_projector = vec![ModelDirEntry {
        file_name: Some("x-mmproj.gguf".to_string()),
        extension: Some("gguf".to_string()),
    }];
    assert_eq!(
        choose_model_files(false, &only_projector),
        Err(ModelFilesError::MissingModel)
    );
    let only_model = vec![ModelDirEntry {
        file_name: Some("model.gguf".to_string()),
        extension: Some("gguf".to_string()),
    }];
    assert_eq!(
        choose_model_files(false, &only_model),
        Err(ModelFilesError::MissingMmproj)
    );
}

#[test]
fn embedded_template_render_keeps_media_marker_in_user_turn() {
    let rendered = render_chat_prompt(
        "{{ bos_token }}{% for message in messages %}User: {% for content in message['content'] %}{% if content['type'] == 'image' %}<|IMAGE_START|><|IMAGE_PLACEHOLDER|><|IMAGE_END|>{% endif %}{% endfor %}{% for content in message['content'] %}{% if content['type'] == 'text' %}{{ content['text'] }}{% endif %}{% endfor %}\n{% endfor %}{% if add_generation_prompt %}Assistant:\n{% endif %}",
        "<|begin_of_sentence|>",
        "</s>",
        PaddleOcrVlTask::Formula,
    )
    .unwrap();
    assert_eq!(
        rendered,
        format!(
            "<|begin_of_sentence|>User: {PADDLEOCR_IMAGE_MARKER}Formula Recognition:\nAssistant:\n"
        )
    );
}

#[test]
fn render_prompt_uses_the_model_template_without_special_tokens() {
    let session = PaddleOcrVl {
        eos_token: 2,
        chat_template: "{{ bos_token }}{{ messages[0]['role'] }}:{{ messages[0]['content'][1]['text'] }}{{ eos_token }}".to_string(),
        bos_token: "<s>".to_string(),
        eos_token_text: "</s>".to_string(),
    };
    let prompt = session.render_prompt(PaddleOcrVlTask::Seal).unwrap();
    assert_eq!(prompt.text, "<s>user:Seal Recognition:</s>");
    assert!(!prompt.add_special);
}

#[test]
fn broken_template_is_an_error() {
    assert!(render_chat_prompt("{% for x in %}", "", "", PaddleOcrVlTask::Ocr).is_err());
    let session = PaddleOcrVl {
        eos_token: 2,
        chat_template: "{{ ".to_string(),
        bos_token: String::new(),
        eos_token_text: String::new(),
    };
    assert!(session.render_prompt(PaddleOcrVlTask::Ocr).is_err());
}
