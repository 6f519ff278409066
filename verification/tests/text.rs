use rwconfig::text::same_text;

#[test]
fn same_text_compares_whole_strings() {
    assert!(same_text("", ""));
    assert!(same_text("json", "json"));
    assert!(!same_text("json", "json5"));
    assert!(!same_text("json5", "json"));
    assert!(!same_text("json", "jsoN"));
    assert!(!same_text("", "a"));
    assert!(same_text("gr\u{fc}n", "gr\u{fc}n"));
    assert!(!same_text("gr\u{fc}n", "grun"));
}
