use zeroclaw_agents::paths::{components_of, is_absolute, join, normalize_lexical, path_starts_with};
use zeroclaw_agents::table::AliasTable;
use zeroclaw_agents::text::{
    contains_text, join as join_texts, no_later, same_text, sorted, split_once, to_decimal,
    to_lower, trim,
};

#[test]
fn trimming_agrees_with_std() {
    for s in ["", "  ", "a", " a b ", "\t\u{a0}x\u{3000}\n", "\u{200b}x", "é \u{2028}"] {
        assert_eq!(trim(s), s.trim());
    }
}

#[test]
fn whitespace_is_that_of_unicode() {
    for u in 0u32..=0x10ffff {
        if let Some(c) = char::from_u32(u) {
            assert_eq!(zeroclaw_agents::text::blank(c), c.is_whitespace(), "{u:x}");
        }
    }
}

#[test]
fn lower_case_is_that_of_ascii() {
    assert_eq!(to_lower("AbZ-É1"), "AbZ-É1".to_ascii_lowercase());
}

#[test]
fn splitting_takes_the_first_separator() {
    assert_eq!(split_once("a.b.c", '.'), Some(("a", "b.c")));
    assert_eq!(split_once("abc", '.'), None);
    assert_eq!(split_once(".x", '.'), Some(("", "x")));
    assert_eq!(split_once("é.ü", '.'), Some(("é", "ü")));
}

#[test]
fn containment_and_equality() {
    assert!(contains_text("was Cancelled by", "Cancelled"));
    assert!(!contains_text("cancelled", "Cancelled"));
    assert!(contains_text("x", ""));
    assert!(!contains_text("", "x"));
    assert!(same_text("ab", "ab"));
    assert!(!same_text("ab", "abc"));
}

#[test]
fn decimal_notation() {
    for n in [0u64, 7, 10, 20_000, 18_446_744_073_709_551_615] {
        assert_eq!(to_decimal(n), n.to_string());
    }
}

#[test]
fn joining_texts() {
    let list: Vec<String> = vec!["a".into(), "".into(), "b".into()];
    assert_eq!(join_texts(&list, ", "), "a, , b");
    assert_eq!(join_texts(&vec![], ", "), "");
}

#[test]
fn sorting_agrees_with_std() {
    let names: Vec<String> = ["b", "a", "", "ab", "é", "B", "a"]
        .iter()
        .map(|s| s.to_string())
        .collect();
    let mut expected = names.clone();
    expected.sort_unstable();
    assert_eq!(sorted(names), expected);
    assert!(no_later("a", "ab"));
    assert!(!no_later("b", "ab"));
}

#[test]
fn joining_paths_agrees_with_std() {
    for (base, rel) in [
        ("/a", "b"),
        ("/a/", "b"),
        ("/a", "/b"),
        ("", "b"),
        ("/a", ""),
        ("a", "b/c"),
        ("/", "x"),
    ] {
        let expected = std::path::Path::new(base).join(rel);
        assert_eq!(join(base, rel), expected.display().to_string(), "{base} {rel}");
    }
}

#[test]
fn components_agree_with_std() {
    for p in ["/a/b", "a//b/", "./a/./b", "/", "", ".", "/../a", "a/..", "..", "/./x"] {
        let expected: Vec<String> = std::path::Path::new(p)
            .components()
            .map(|c| c.as_os_str().to_str().unwrap().to_string())
            .collect();
        assert_eq!(components_of(p), expected, "{p}");
        assert_eq!(is_absolute(p), std::path::Path::new(p).is_absolute());
    }
}

#[test]
fn prefixes_of_paths_agree_with_std() {
    for (p, q) in [
        ("/a/b", "/a"),
        ("/a", "/a/b"),
        ("/ab", "/a"),
        ("/a/b/", "/a//b"),
        ("/a", ""),
        ("/a", "/"),
        ("a", "./a"),
    ] {
        assert_eq!(
            path_starts_with(p, q),
            std::path::Path::new(p).starts_with(q),
            "{p} {q}"
        );
    }
}

#[test]
fn normalising_paths() {
    assert_eq!(normalize_lexical("/a/./b//c/../d/"), "/a/b/d");
    assert_eq!(normalize_lexical("/.."), "/");
    assert_eq!(normalize_lexical("a/../.."), "..");
    assert_eq!(normalize_lexical("./a"), "a");
    assert_eq!(normalize_lexical(""), "");
}

#[test]
fn tables_keep_each_name_once_and_in_order() {
    let mut table: AliasTable<u32> = AliasTable::new();
    assert!(table.is_empty());
    table.insert("b".to_string(), 1);
    table.insert("a".to_string(), 2);
    table.insert("b".to_string(), 3);
    assert_eq!(table.len(), 2);
    assert_eq!(table.names(), vec!["b", "a"]);
    assert_eq!(table.get("b"), Some(&3));
    assert_eq!(table.get("c"), None);
    assert!(table.contains_key("a"));
}
