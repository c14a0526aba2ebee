use apm_memory::decimal::{push_decimal, push_decimal_i64};
use apm_memory::similarity::{has_negation, is_similar_or_replacement, tokenize_text};
use apm_memory::tags::{build_fts5_query, extract_tags_from_content};
use apm_memory::text::is_whitespace_char;

fn sorted(mut v: Vec<String>) -> Vec<String> {
    v.sort();
    v
}

fn strs(v: &[&str]) -> Vec<String> {
    v.iter().map(|s| s.to_string()).collect()
}

#[test]
fn keywords_fold_synonyms_and_drop_fillers() {
    assert_eq!(
        sorted(tokenize_text("Use TS with Postgres DB")),
        strs(&["database", "postgresql", "typescript"])
    );
    assert_eq!(sorted(tokenize_text("Mã nguồn sạch")), strs(&["code", "sạch"]));
    assert_eq!(sorted(tokenize_text("config, configs & CONFIGURATION")), strs(&["config"]));
}

#[test]
fn keywords_keep_fillers_when_nothing_else_is_left() {
    assert_eq!(sorted(tokenize_text("the a")), strs(&["the"]));
    assert!(tokenize_text("").is_empty());
    assert!(tokenize_text("a - b").is_empty());
}

#[test]
fn similarity_is_reflexive_symmetric_and_case_blind() {
    let a = "Dùng port 8080 cho server API";
    let b = "Dùng port 3000 cho server API";
    assert!(is_similar_or_replacement(a, a));
    assert_eq!(is_similar_or_replacement(a, b), is_similar_or_replacement(b, a));
    assert!(is_similar_or_replacement("USE TABS", "use tabs"));
    assert!(is_similar_or_replacement("x", "X"));
}

#[test]
fn negation_guard_blocks_opposites() {
    assert!(has_negation("Do not use tabs"));
    assert!(!has_negation("Use tabs for indentation"));
    assert!(!is_similar_or_replacement("Do not use tabs", "Use tabs for indentation"));
}

#[test]
fn contained_keywords_mean_similar() {
    // The shorter text occurs whole in the longer one.
    assert!(is_similar_or_replacement("rust backend", "rust backend services everywhere"));
}

#[test]
fn search_queries_for_full_text_index() {
    assert_eq!(build_fts5_query("cargo test"), "\"cargo\"* AND \"test\"*");
    assert_eq!(build_fts5_query("it's a db_name!"), "\"it\"* AND \"db_name\"*");
    assert_eq!(build_fts5_query("a"), "\"a\"*");
    assert_eq!(build_fts5_query("  \"x\"  "), "\"x\"*");
    assert_eq!(build_fts5_query(""), "\"\"*");
}

#[test]
fn tags_heading_then_keywords() {
    assert_eq!(
        extract_tags_from_content("**Git Flow** for rust and css"),
        strs(&["git_flow", "rust", "css", "git"])
    );
    assert_eq!(extract_tags_from_content("hello world"), strs(&["rule"]));
    assert_eq!(extract_tags_from_content("**!!** nothing"), strs(&["rule"]));
    // Spaces are kept by the trim and become underscores.
    assert_eq!(extract_tags_from_content("** ** x"), strs(&["_"]));
    assert_eq!(extract_tags_from_content("Use SCSS"), strs(&["scss", "css"]));
}

#[test]
fn decimal_text() {
    let mut v: Vec<char> = vec!['x'];
    push_decimal(&mut v, 0);
    push_decimal(&mut v, 907);
    push_decimal_i64(&mut v, -42);
    push_decimal_i64(&mut v, i64::MIN);
    let s: String = v.into_iter().collect();
    assert_eq!(s, "x0907-42-9223372036854775808");
}

#[test]
fn white_space_is_the_unicode_property() {
    for u in 0u32..=0x10FFFF {
        if let Some(c) = char::from_u32(u) {
            assert_eq!(is_whitespace_char(c), c.is_whitespace(), "U+{u:04X}");
        }
    }
}
