use hypher::Lang;
use koharu::segment::{
    apply_chinese_word_segmentation, chinese_word_ranges, hyphenatable_word_bounds,
    hyphenation_lang_from_tag, is_chinese_word_token, should_segment_as_chinese,
    trim_mandatory_break_suffix, LineBreakOpportunity, LineBreakSuffix, LineBreaker,
};

#[test]
fn break_on_whitespace() {
    let text = "The quick brown fox jumps over the lazy dog.";
    let linebreaker = LineBreaker::new();
    let breaks = linebreaker.line_break_opportunities(text);
    let segments: Vec<&str> = breaks
        .windows(2)
        .map(|w| &text[w[0].offset..w[1].offset])
        .collect();
    let expected = vec![
        "The ", "quick ", "brown ", "fox ", "jumps ", "over ", "the ", "lazy ", "dog.",
    ];
    assert_eq!(segments, expected);
}

#[test]
fn break_on_newline() {
    let text = "Hello, \nWorld!";
    let linebreaker = LineBreaker::new();
    let breaks = linebreaker.line_break_opportunities(text);
    let expected = vec![
        LineBreakOpportunity {
            offset: 0,
            is_mandatory: false,
        },
        LineBreakOpportunity {
            offset: 8,
            is_mandatory: true,
        },
        LineBreakOpportunity {
            offset: 14,
            is_mandatory: false,
        },
    ];
    assert_eq!(breaks, expected);
}

#[test]
fn line_segments_trim_newline_suffixes() {
    let text = "Hello, \nWorld!";
    let linebreaker = LineBreaker::new();
    let segments = linebreaker.line_segments(text);

    assert_eq!(segments.len(), 2);
    assert_eq!(&text[segments[0].range.clone()], "Hello, ");
    assert_eq!(segments[0].next_offset, 8);
    assert!(segments[0].is_mandatory);
    assert_eq!(segments[0].break_suffix, None);
    assert_eq!(&text[segments[1].range.clone()], "World!");
    assert_eq!(segments[1].next_offset, text.len());
    assert!(!segments[1].is_mandatory);
    assert_eq!(segments[1].break_suffix, None);
}

#[test]
fn chinese_word_segmentation_keeps_jieba_words_together() {
    let text = "\u{5357}\u{4eac}\u{5e02}\u{957f}\u{6c5f}\u{5927}\u{6865}";
    let linebreaker = LineBreaker::new().with_chinese_word_segmentation();
    let segments: Vec<&str> = linebreaker
        .line_segments(text)
        .iter()
        .map(|segment| &text[segment.range.clone()])
        .collect();

    assert_eq!(
        segments,
        vec![
            "\u{5357}\u{4eac}\u{5e02}",
            "\u{957f}\u{6c5f}\u{5927}\u{6865}",
        ]
    );
}

#[test]
fn chinese_word_segmentation_preserves_icu_punctuation_rules() {
    let text = "\u{5c0f}\u{8bf4}\u{ff0c}\u{4f60}\u{597d}";
    let linebreaker = LineBreaker::new().with_chinese_word_segmentation();
    let segments: Vec<&str> = linebreaker
        .line_segments(text)
        .iter()
        .map(|segment| &text[segment.range.clone()])
        .collect();

    assert_eq!(
        segments,
        vec!["\u{5c0f}\u{8bf4}\u{ff0c}", "\u{4f60}\u{597d}",]
    );
}

#[test]
fn chinese_word_segmentation_does_not_resegment_kana_text() {
    let text = "\u{543e}\u{8f29}\u{306f}\u{732b}";
    let linebreaker = LineBreaker::new().with_chinese_word_segmentation();
    let segments: Vec<&str> = linebreaker
        .line_segments(text)
        .iter()
        .map(|segment| &text[segment.range.clone()])
        .collect();

    assert_eq!(
        segments,
        vec!["\u{543e}", "\u{8f29}", "\u{306f}", "\u{732b}",]
    );
}

#[test]
fn hyphenation_adds_discretionary_segments_to_long_latin_words() {
    let text = "antidisestablishmentarianism";
    let linebreaker = LineBreaker::new().with_hyphenation(Lang::English, 8);
    let segments = linebreaker.line_segments(text);

    assert!(
        segments.len() > 1,
        "expected long word to be split into hyphenation segments, got {segments:?}"
    );
    for segment in segments.iter().take(segments.len() - 1) {
        assert_eq!(segment.break_suffix, Some(LineBreakSuffix::Hyphen));
        assert!(!segment.is_mandatory);
    }
    assert_eq!(segments.last().unwrap().break_suffix, None);

    let rebuilt = segments
        .iter()
        .map(|segment| &text[segment.range.clone()])
        .collect::<String>();
    assert_eq!(rebuilt, text);
}

#[test]
fn hyphenation_language_tags_cover_hypher_languages() {
    let cases = [
        ("af", Lang::Afrikaans),
        ("sq", Lang::Albanian),
        ("as", Lang::Assamese),
        ("be", Lang::Belarusian),
        ("bn", Lang::Bengali),
        ("bg", Lang::Bulgarian),
        ("ca", Lang::Catalan),
        ("hr", Lang::Croatian),
        ("cs", Lang::Czech),
        ("da", Lang::Danish),
        ("nl", Lang::Dutch),
        ("en-US", Lang::English),
        ("et", Lang::Estonian),
        ("fi", Lang::Finnish),
        ("fr-FR", Lang::French),
        ("gl", Lang::Galician),
        ("ka", Lang::Georgian),
        ("de-DE", Lang::German),
        ("el", Lang::Greek),
        ("gu", Lang::Gujarati),
        ("hi", Lang::Hindi),
        ("hu", Lang::Hungarian),
        ("is", Lang::Icelandic),
        ("it-IT", Lang::Italian),
        ("kn", Lang::Kannada),
        ("ku", Lang::Kurmanji),
        ("la", Lang::Latin),
        ("lt", Lang::Lithuanian),
        ("ml", Lang::Malayalam),
        ("mr", Lang::Marathi),
        ("mn", Lang::Mongolian),
        ("no", Lang::Norwegian),
        ("nb", Lang::Norwegian),
        ("nn", Lang::Norwegian),
        ("or", Lang::Oriya),
        ("pa", Lang::Panjabi),
        ("pl", Lang::Polish),
        ("pt-BR", Lang::Portuguese),
        ("ru", Lang::Russian),
        ("sa", Lang::Sanskrit),
        ("sr", Lang::Serbian),
        ("sk", Lang::Slovak),
        ("sl", Lang::Slovenian),
        ("es-ES", Lang::Spanish),
        ("sv", Lang::Swedish),
        ("ta", Lang::Tamil),
        ("te", Lang::Telugu),
        ("tr", Lang::Turkish),
        ("tk", Lang::Turkmen),
        ("uk", Lang::Ukrainian),
    ];

    for (tag, lang) in cases {
        assert_eq!(hyphenation_lang_from_tag(tag), Some(lang), "tag={tag}");
    }

    assert_eq!(hyphenation_lang_from_tag("German"), None);
    assert_eq!(hyphenation_lang_from_tag("ja-JP"), None);
}

#[test]
fn hyphenation_supports_unicode_words() {
    let text = "электрификация";
    let linebreaker = LineBreaker::new().with_hyphenation(Lang::Russian, 8);
    let segments = linebreaker.line_segments(text);

    assert!(
        segments.len() > 1,
        "expected unicode word to be split into hyphenation segments, got {segments:?}"
    );
    let rebuilt = segments
        .iter()
        .map(|segment| &text[segment.range.clone()])
        .collect::<String>();
    assert_eq!(rebuilt, text);
}

#[test]
fn japanese_break_on_characters() {
    let text = "吾輩は猫である。名前はまだない。";
    let linebreaker = LineBreaker::new();
    let breaks = linebreaker.line_break_opportunities(text);
    let segments: Vec<&str> = breaks
        .windows(2)
        .map(|w| &text[w[0].offset..w[1].offset])
        .collect();
    let expected = vec![
        "吾", "輩", "は", "猫", "で", "あ", "る。", "名", "前", "は", "ま", "だ", "な", "い。",
    ];
    assert_eq!(segments, expected);
}

#[test]
fn mixed_language_breaks_01() {
    let text = "『シャイニング』（The Shining）は、スタンリー・キューブリックが製作・監督し、小説家のダイアン・ジョンソンと共同脚本を務めた、1980年公開のサイコロジカルホラー映画。";
    let linebreaker = LineBreaker::new();
    let breaks = linebreaker.line_break_opportunities(text);
    let segments: Vec<&str> = breaks
        .windows(2)
        .map(|w| &text[w[0].offset..w[1].offset])
        .collect();
    let expected = vec![
        "『シャ", "イ", "ニ", "ン", "グ』", "（The ", "Shining）", "は、", "ス", "タ", "ン", "リー・", "キュー", "ブ", "リッ", "ク", "が", "製", "作・", "監", "督", "し、", "小", "説", "家", "の", "ダ", "イ", "ア", "ン・", "ジョ", "ン", "ソ", "ン", "と", "共", "同", "脚", "本", "を", "務", "め", "た、", "1980", "年", "公", "開", "の", "サ", "イ", "コ", "ロ", "ジ", "カ", "ル", "ホ", "ラー", "映", "画。"
    ];
    assert_eq!(segments, expected);
}

#[test]
fn mixed_language_breaks_02() {
    let text = "《我是猫》是日本作家夏目漱石创作的长篇小说，也是其代表作，它确立了夏目漱石在文学史上的地位。作品淋漓尽致地反映了二十世纪初，日本中小资产阶级的思想和生活，尖锐地揭露和批判了明治“文明开化”的资本主义社会。小说采用幽默、讽刺、滑稽的手法，借助一只猫的视觉、听觉、感觉，嘲笑了明治时代知识分子空虚的精神生活，小说构思奇巧，描写夸张，结构灵活，具有鲜明的艺术特色。";
    let linebreaker = LineBreaker::new();
    let breaks = linebreaker.line_break_opportunities(text);
    let segments: Vec<&str> = breaks
        .windows(2)
        .map(|w| &text[w[0].offset..w[1].offset])
        .collect();
    let expected = vec![
        "《我", "是", "猫》", "是", "日", "本", "作", "家", "夏", "目", "漱", "石", "创", "作", "的", "长", "篇", "小", "说，", "也", "是", "其", "代", "表", "作，", "它", "确", "立", "了", "夏", "目", "漱", "石", "在", "文", "学", "史", "上", "的", "地", "位。", "作", "品", "淋", "漓", "尽", "致", "地", "反", "映", "了", "二", "十", "世", "纪", "初，", "日", "本", "中", "小", "资", "产", "阶", "级", "的", "思", "想", "和", "生", "活，", "尖", "锐", "地", "揭", "露", "和", "批", "判", "了", "明", "治“文", "明", "开", "化”的", "资", "本", "主", "义", "社", "会。", "小", "说", "采", "用", "幽", "默、", "讽", "刺、", "滑", "稽", "的", "手", "法，", "借", "助", "一", "只", "猫", "的", "视", "觉、", "听", "觉、", "感", "觉，", "嘲", "笑", "了", "明", "治", "时", "代", "知", "识", "分", "子", "空", "虚", "的", "精", "神", "生", "活，", "小", "说", "构", "思", "奇", "巧，", "描", "写", "夸", "张，", "结", "构", "灵", "活，", "具", "有", "鲜", "明", "的", "艺", "术", "特", "色。"
    ];
    assert_eq!(segments, expected);
}

#[test]
fn trim_mandatory_break_suffix_strips_break_chars_down_to_start() {
    let text = "ab\r\n\u{2028}";
    assert_eq!(trim_mandatory_break_suffix(text, 0, text.len()), 2);
    assert_eq!(trim_mandatory_break_suffix(text, 3, text.len()), 3);
    assert_eq!(trim_mandatory_break_suffix("a \n", 0, 3), 2);
    assert_eq!(trim_mandatory_break_suffix("\n\n", 0, 2), 0);
    assert_eq!(trim_mandatory_break_suffix("abc", 2, 1), 1);
}

#[test]
fn segments_tile_the_text() {
    let text = "One two\nthree four.\n\nFive";
    let segments = LineBreaker::new().line_segments(text);
    for pair in segments.windows(2) {
        assert_eq!(pair[0].next_offset, pair[1].range.start);
        assert!(pair[0].range.end <= pair[0].next_offset);
    }
    assert_eq!(segments[0].range.start, 0);
    assert_eq!(segments.last().unwrap().next_offset, text.len());
}

#[test]
fn hyphenation_splits_only_the_alphabetic_core() {
    let text = "(extraordinarily),";
    let segments = LineBreaker::new()
        .with_hyphenation(Lang::English, 8)
        .line_segments(text);
    assert!(segments.len() > 1);
    assert_eq!(segments[0].range.start, 0);
    assert_eq!(segments.last().unwrap().range.end, text.len());
    for pair in segments.windows(2) {
        assert_eq!(pair[0].range.end, pair[1].range.start);
        assert_eq!(pair[0].next_offset, pair[0].range.end);
    }
    let rebuilt = segments
        .iter()
        .map(|segment| &text[segment.range.clone()])
        .collect::<String>();
    assert_eq!(rebuilt, text);
}

#[test]
fn hyphenation_leaves_short_and_mixed_words_whole() {
    let breaker = LineBreaker::new().with_hyphenation(Lang::English, 8);
    assert_eq!(breaker.line_segments("hello").len(), 1);
    assert_eq!(breaker.line_segments("extra0rdinarily").len(), 1);
    let plain = LineBreaker::new().line_segments("antidisestablishmentarianism");
    assert_eq!(plain.len(), 1);
}

#[test]
fn hyphenation_tag_turns_hyphenation_on_or_off() {
    let text = "antidisestablishmentarianism";
    let on = LineBreaker::new().with_hyphenation_tag(" EN_gb ", 8);
    assert!(on.line_segments(text).len() > 1);
    let off = LineBreaker::new().with_hyphenation_tag("xx", 8);
    assert_eq!(off.line_segments(text).len(), 1);
    let default_breaker = LineBreaker::default();
    assert_eq!(default_breaker.line_segments(text).len(), 1);
}

#[test]
fn hyphenation_lang_from_tag_edge_cases() {
    assert_eq!(hyphenation_lang_from_tag("  RU  "), Some(Lang::Russian));
    assert_eq!(hyphenation_lang_from_tag("pt_BR"), Some(Lang::Portuguese));
    assert_eq!(hyphenation_lang_from_tag(""), None);
    assert_eq!(hyphenation_lang_from_tag("-en"), None);
    assert_eq!(hyphenation_lang_from_tag("eng"), None);
}

#[test]
fn hyphenatable_word_bounds_finds_the_letters() {
    assert_eq!(hyphenatable_word_bounds("\"word\","), Some((1, 5)));
    assert_eq!(hyphenatable_word_bounds("élan"), Some((0, 5)));
    assert_eq!(hyphenatable_word_bounds("a-b"), None);
    assert_eq!(hyphenatable_word_bounds("123"), None);
    assert_eq!(hyphenatable_word_bounds(""), None);
}

#[test]
fn chinese_text_detection() {
    assert!(should_segment_as_chinese("南京市"));
    assert!(!should_segment_as_chinese("吾輩は猫"));
    assert!(!should_segment_as_chinese("hello"));
    assert!(is_chinese_word_token("南京"));
    assert!(!is_chinese_word_token("南"));
    assert!(!is_chinese_word_token("한국"));
    assert!(!is_chinese_word_token("ab"));
}

#[test]
fn chinese_word_ranges_are_byte_ranges_of_words() {
    let ranges = chinese_word_ranges("\u{5357}\u{4eac}\u{5e02}\u{957f}\u{6c5f}\u{5927}\u{6865}");
    assert_eq!(ranges, vec![0..9, 9..21]);
}

#[test]
fn word_protection_keeps_mandatory_breaks() {
    let text = "\u{5357}\u{4eac}\u{5e02}";
    let opportunities = vec![
        LineBreakOpportunity { offset: 0, is_mandatory: false },
        LineBreakOpportunity { offset: 3, is_mandatory: true },
        LineBreakOpportunity { offset: 6, is_mandatory: false },
        LineBreakOpportunity { offset: 9, is_mandatory: false },
    ];
    let kept = apply_chinese_word_segmentation(text, opportunities);
    assert_eq!(
        kept,
        vec![
            LineBreakOpportunity { offset: 0, is_mandatory: false },
            LineBreakOpportunity { offset: 3, is_mandatory: true },
            LineBreakOpportunity { offset: 9, is_mandatory: false },
        ]
    );
}

#[test]
fn break_suffix_text() {
    assert_eq!(LineBreakSuffix::Hyphen.as_str(), "-");
}

#[test]
fn word_protection_leaves_non_chinese_text_alone() {
    for text in ["The quick brown fox.", "吾輩は猫である。", "Hello, \nWorld!"] {
        let plain = LineBreaker::new().line_break_opportunities(text);
        let protected = LineBreaker::new()
            .with_chinese_word_segmentation()
            .line_break_opportunities(text);
        assert_eq!(plain, protected);
    }
}

#[test]
fn word_protection_keeps_a_subsequence() {
    let text = "\u{5357}\u{4eac}\u{5e02}\u{957f}\u{6c5f}\u{5927}\u{6865}";
    let plain = LineBreaker::new().line_break_opportunities(text);
    let protected = LineBreaker::new()
        .with_chinese_word_segmentation()
        .line_break_opportunities(text);
    let offsets: Vec<usize> = protected.iter().map(|o| o.offset).collect();
    assert_eq!(offsets, vec![0, 9, 21]);
    assert!(protected.iter().all(|o| plain.contains(o)));
}

#[test]
fn opportunities_run_from_start_to_end_in_order() {
    let texts = [
        "\u{5357}\u{4eac}\u{5e02}\u{957f}\u{6c5f}\u{5927}\u{6865}",
        "\u{6211}\u{4eec}\u{53bb}\u{5317}\u{4eac}\u{3002}\n\u{4f60}\u{597d}",
        "hello world\r\nnext line",
        "a",
    ];
    for text in texts {
        for breaker in [LineBreaker::new(), LineBreaker::new().with_chinese_word_segmentation()] {
            let opps = breaker.line_break_opportunities(text);
            assert_eq!(opps.first().map(|o| o.offset), Some(0));
            assert_eq!(opps.last().map(|o| o.offset), Some(text.len()));
            assert!(opps.windows(2).all(|w| w[0].offset < w[1].offset));
            for o in &opps {
                assert!(text.is_char_boundary(o.offset));
                let before = text[..o.offset].chars().next_back();
                let forced = matches!(before, Some('\n' | '\r' | '\u{85}' | '\u{2028}' | '\u{2029}'));
                assert_eq!(o.is_mandatory, forced);
            }
        }
    }
    let empty = LineBreaker::new().with_chinese_word_segmentation().line_break_opportunities("");
    assert_eq!(empty.len(), 1);
    assert_eq!(empty[0].offset, 0);
}

#[test]
fn chinese_word_ranges_end_within_the_text() {
    let text = "\u{6211}\u{4eec}\u{53bb}\u{5317}\u{4eac}\u{3002}";
    let ranges = chinese_word_ranges(text);
    assert!(!ranges.is_empty());
    assert!(ranges.iter().all(|r| r.start < r.end && r.end <= text.len()));
}
