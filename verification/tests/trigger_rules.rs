use vtt_keyboard_lib::settings::TriggerCard;
use vtt_keyboard_lib::triggers::{
    find_keyword_sentence, match_card, match_variable_in_sentence, merge_instructions,
    normalize_for_value, remove_trigger_phrase, split_keyword, split_sentences,
};

fn build_card(keyword: &str, variables: &[&str]) -> TriggerCard {
    TriggerCard {
        id: "test".to_string(),
        title: "Test".to_string(),
        enabled: true,
        auto_apply: false,
        locked: false,
        keyword: keyword.to_string(),
        prompt_template: "template {value}".to_string(),
        variables: variables.iter().map(|value| value.to_string()).collect(),
    }
}

#[test]
fn split_sentences_supports_full_and_half_width_punctuation() {
    let sentences = split_sentences("请润色：这句话；翻译，英文。谢谢!");
    let expected: Vec<String> =
        vec!["请润色", "这句话", "翻译", "英文", "谢谢"].iter().map(|s| s.to_string()).collect();
    assert_eq!(sentences, expected);
}

#[test]
fn plain_keyword_matches_by_contains() {
    let card = build_card("润色", &["口语"]);
    let sentences = split_sentences("请帮我润色这句话");
    let matched = find_keyword_sentence(&card, &sentences);
    assert_eq!(matched, Some("请帮我润色这句话".to_string()));
}

#[test]
fn variable_match_prefers_earliest_position() {
    let sentence = "请润色为书面，再补充口语版本";
    let matched = match_variable_in_sentence(
        sentence,
        &vec!["口语".to_string(), "书面".to_string(), "书面版".to_string()],
    );
    assert_eq!(matched.as_deref(), Some("书面"));
}

#[test]
fn match_card_falls_back_to_first_variable_when_missing() {
    let card = build_card("润色", &["口语", "书面"]);
    let sentences = split_sentences("请帮我润色一下");
    let matched = match_card(&card, &sentences);
    assert_eq!(matched, Some(("口语".to_string(), true)));
}

#[test]
fn placeholder_keyword_is_still_supported() {
    let card = build_card("翻译为{value}", &["英文", "日文"]);
    let sentences = split_sentences("帮我翻译为日文");
    let matched = match_card(&card, &sentences);
    assert_eq!(matched, Some(("日文".to_string(), true)));
}

#[test]
fn split_keyword_needs_exactly_one_placeholder() {
    assert_eq!(
        split_keyword("翻译为{value}"),
        Some(("翻译为".to_string(), "".to_string()))
    );
    assert_eq!(
        split_keyword("改成{value}的样子"),
        Some(("改成".to_string(), "的样子".to_string()))
    );
    assert_eq!(split_keyword("润色"), None);
    assert_eq!(split_keyword("{value}和{value}"), None);
}

#[test]
fn normalize_for_value_strips_edge_punctuation() {
    assert_eq!(normalize_for_value("  -日文-, "), "日文");
    assert_eq!(normalize_for_value("english"), "english");
}

#[test]
fn remove_trigger_phrase_cuts_the_keyword() {
    let cleaned = remove_trigger_phrase("请帮我润色这句话", "润色");
    assert_eq!(cleaned, "请帮我这句话");
    let untouched = remove_trigger_phrase("  请帮我改写  ", "");
    assert_eq!(untouched, "请帮我改写");
}

#[test]
fn merge_instructions_joins_trimmed_sides() {
    assert_eq!(merge_instructions("  ", "extra"), "extra");
    assert_eq!(merge_instructions("base", "  "), "base");
    assert_eq!(merge_instructions(" base ", " extra "), "base\nextra");
}
