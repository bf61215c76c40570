use koharu::shape::{
    absolute_clusters, iso15924_script_tag, script_font_runs, script_runs, FontRun, TextShaper,
};

fn coverage(text: &str, fonts: &[&dyn Fn(char) -> bool]) -> Vec<Vec<bool>> {
    text.chars()
        .map(|c| fonts.iter().map(|has| has(c)).collect())
        .collect()
}

#[test]
fn fallback_font_takes_only_the_missing_glyph() {
    let text = "A\u{2605}!";
    let primary = |c: char| c != '\u{2605}';
    let symbols = |_: char| true;
    let cov = coverage(text, &[&primary, &symbols]);
    let runs = script_font_runs(text, &cov, 2);
    assert_eq!(runs.len(), 3);
    assert_eq!((runs[0].start, runs[0].end, runs[0].font), (0, 1, 0));
    assert_eq!((runs[1].start, runs[1].end, runs[1].font), (1, 4, 1));
    assert_eq!((runs[2].start, runs[2].end, runs[2].font), (4, 5, 0));
    assert!(runs.iter().all(|r| r.script == runs[0].script));
}

#[test]
fn scripts_split_runs_in_logical_order() {
    let text = "\u{0645}\u{0631}\u{062d}\u{0628}\u{0627} \u{05e9}\u{05dc}\u{05d5}\u{05dd}";
    let any = |_: char| true;
    let cov = coverage(text, &[&any]);
    let runs = script_font_runs(text, &cov, 1);
    assert_eq!(
        runs,
        vec![
            FontRun { start: 0, end: 11, font: 0, script: 2 },
            FontRun { start: 11, end: 19, font: 0, script: 19 },
        ]
    );
    assert_eq!(iso15924_script_tag(runs[0].script), Some("Arab"));
    assert_eq!(iso15924_script_tag(runs[1].script), Some("Hebr"));
}

#[test]
fn recently_used_fallback_is_preferred() {
    // The primary has no glyphs; the second font covers x only; the third covers all.
    let text = "xyx";
    let none = |_: char| false;
    let only_x = |c: char| c == 'x';
    let all = |_: char| true;
    let cov = coverage(text, &[&none, &only_x, &all]);
    let runs = script_font_runs(text, &cov, 3);
    let fonts: Vec<usize> = runs.iter().map(|r| r.font).collect();
    assert_eq!(fonts, vec![1, 2]);
    assert_eq!(runs[1].start, 1);
    assert_eq!(runs[1].end, 3);
}

#[test]
fn uncovered_glyph_falls_back_to_primary() {
    let text = "ab";
    let none = |_: char| false;
    let cov = coverage(text, &[&none, &none]);
    let runs = script_font_runs(text, &cov, 2);
    assert_eq!(runs.len(), 1);
    assert_eq!(runs[0].font, 0);
}

#[test]
fn no_text_or_no_fonts_gives_no_runs() {
    assert!(script_font_runs("", &Vec::new(), 2).is_empty());
    let cov: Vec<Vec<bool>> = vec![Vec::new(), Vec::new()];
    assert!(script_font_runs("ab", &cov, 0).is_empty());
}

#[test]
fn neutral_chars_join_the_next_script() {
    // Common, Latin, Common, Arabic: the leading Common takes Latin.
    let runs = script_runs(&vec![0, 25, 0, 2, 1]);
    assert_eq!(runs.len(), 2);
    assert_eq!((runs[0].start, runs[0].end, runs[0].script), (0, 3, 25));
    assert_eq!((runs[1].start, runs[1].end, runs[1].script), (3, 5, 2));
    let all_neutral = script_runs(&vec![0, 1, 0]);
    assert_eq!(all_neutral.len(), 1);
    assert_eq!(all_neutral[0].script, 0);
}

#[test]
fn script_tags_for_shaping() {
    assert_eq!(iso15924_script_tag(17), Some("Hani"));
    assert_eq!(iso15924_script_tag(20), Some("Hani"));
    assert_eq!(iso15924_script_tag(22), Some("Hani"));
    assert_eq!(iso15924_script_tag(38), Some("Thai"));
    assert_eq!(iso15924_script_tag(34), Some("Syrc"));
    assert_eq!(iso15924_script_tag(37), Some("Thaa"));
    assert_eq!(iso15924_script_tag(87), Some("Nkoo"));
    assert_eq!(iso15924_script_tag(167), Some("Adlm"));
    assert_eq!(iso15924_script_tag(25), None);
    assert_eq!(iso15924_script_tag(0), None);
}

#[test]
fn shaper_is_stateless() {
    let _shaper = TextShaper::new();
    let _default = TextShaper::default();
}

#[test]
fn clusters_shift_to_text_offsets() {
    let mut clusters = vec![0, 0, 3, 7];
    absolute_clusters(&mut clusters, 11);
    assert_eq!(clusters, vec![11, 11, 14, 18]);
    let mut none: Vec<u32> = Vec::new();
    absolute_clusters(&mut none, 5);
    assert!(none.is_empty());
}
