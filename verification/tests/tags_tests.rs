use apm_memory::tags::extract_tags_from_content;

#[test]
fn test_extract_tags_from_content() {
    let tags1 = extract_tags_from_content("**Clean Code Principles:** Always keep functions small.");
    assert!(tags1.contains(&"clean_code_principles".to_string()) || tags1.contains(&"clean_code".to_string()));

    let tags2 = extract_tags_from_content("Use TypeScript and React for UI development");
    assert!(tags2.contains(&"typescript".to_string()));
    assert!(tags2.contains(&"react".to_string()));
}
