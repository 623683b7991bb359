use podcast_summarize::text::{count_text_length, is_cjk, is_white};

#[test]
fn count_text_length_english() {
    assert_eq!(count_text_length("hello world foo bar"), 4);
}

#[test]
fn count_text_length_cjk() {
    let text = "今天天氣很好我們去散步";
    let result = count_text_length(text);
    assert_eq!(result, 11);
}

#[test]
fn count_text_length_mixed_below_threshold() {
    let text = "This is a long English sentence with one 字";
    let result = count_text_length(text);
    assert_eq!(result, text.split_whitespace().count());
}

#[test]
fn count_text_length_empty() {
    assert_eq!(count_text_length(""), 0);
}

#[test]
fn count_text_length_whitespace_only() {
    assert_eq!(count_text_length("   \n\t  "), 0);
}

#[test]
fn is_cjk_chinese_char() {
    assert!(is_cjk('中'));
    assert!(is_cjk('國'));
}

#[test]
fn cjk_threshold_counts_characters() {
    // 4 of 10 visible characters are CJK: more than 30%, so characters count.
    assert_eq!(count_text_length("abc def 中文字詞"), 10);
    // 3 of 10: exactly 30%, so words count.
    assert_eq!(count_text_length("abcd efg 中文字"), 3);
}

#[test]
fn whitespace_matches_std() {
    for c in ['\u{0}', ' ', '\t', '\n', '\r', '\u{b}', '\u{c}', '\u{85}', '\u{a0}', '\u{1680}',
        '\u{2000}', '\u{200a}', '\u{200b}', '\u{2028}', '\u{2029}', '\u{202f}', '\u{205f}',
        '\u{3000}', 'a', '中', '\u{feff}'] {
        assert_eq!(is_white(c), c.is_whitespace(), "{:?}", c);
    }
}

#[test]
fn is_cjk_block_edges() {
    assert!(is_cjk('\u{4E00}'));
    assert!(is_cjk('\u{9FFF}'));
    assert!(is_cjk('\u{3000}'));
    assert!(is_cjk('\u{FF01}'));
    assert!(!is_cjk('\u{4DC0}'));
    assert!(!is_cjk('a'));
}
