use fastsp::text::preview_text;

#[test]
fn preview_is_hard_capped_and_single_line() {
    assert_eq!(preview_text("ab", 0), "");
    assert_eq!(preview_text("a\nb\tc", 3), "a b");
    assert_eq!(preview_text("语音输入", 2), "语音");
    assert_eq!(preview_text("short", 80), "short");
    assert_eq!(preview_text("", 5), "");
}
