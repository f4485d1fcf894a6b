use callgraph::text::{
    chars_of, glue, contains_char, dot_join, ends_with, find_char, int_text, join_first,
    join_from, nat_text, replace, slice, split_on, starts_with, str_eq, trim_matches,
    without_suffix,
};

fn owned_parts(parts: &[&str]) -> Vec<String> {
    parts.iter().map(|s| s.to_string()).collect()
}

#[test]
fn split_keeps_empty_pieces() {
    assert_eq!(split_on("a.b.c", '.'), owned_parts(&["a", "b", "c"]));
    assert_eq!(split_on("", '.'), owned_parts(&[""]));
    assert_eq!(split_on("a.", '.'), owned_parts(&["a", ""]));
    assert_eq!(split_on(".a", '.'), owned_parts(&["", "a"]));
    assert_eq!(split_on("..", '.'), owned_parts(&["", "", ""]));
    assert_eq!(split_on("plain", '.'), owned_parts(&["plain"]));
}

#[test]
fn split_counts_characters_not_bytes() {
    assert_eq!(split_on("é.ü", '.'), owned_parts(&["é", "ü"]));
    assert_eq!(chars_of("aé"), vec!['a', 'é']);
    assert_eq!(slice("héllo", 1, 3), "él");
}

#[test]
fn join_undoes_split() {
    for text in ["a.b.c", "", ".", "a..b", "trailing."] {
        let parts = split_on(text, '.');
        assert_eq!(join_first(&parts, parts.len(), "."), text);
        assert_eq!(join_from(&parts, 0, "."), text);
    }
}

#[test]
fn join_of_a_prefix_and_of_a_suffix() {
    let parts = owned_parts(&["pkg", "sub", "mod"]);
    assert_eq!(join_first(&parts, 2, "."), "pkg.sub");
    assert_eq!(join_first(&parts, 0, "."), "");
    assert_eq!(join_from(&parts, 1, "."), "sub.mod");
    assert_eq!(join_from(&parts, 3, "."), "");
}

#[test]
fn prefix_and_suffix_tests() {
    assert!(starts_with("gdsfactory.routing", "gdsfactory"));
    assert!(starts_with("abc", ""));
    assert!(!starts_with("ab", "abc"));
    assert!(!starts_with("xbc", "abc"));
    assert!(ends_with("pkg.mod.*", ".*"));
    assert!(ends_with("abc", ""));
    assert!(!ends_with("bc", "abc"));
    assert!(!ends_with("a.py.txt", ".py"));
}

#[test]
fn finding_characters() {
    assert_eq!(find_char("cells.mzi", '.'), Some(5));
    assert_eq!(find_char("a.b.c", '.'), Some(1));
    assert_eq!(find_char("plain", '.'), None);
    assert!(contains_char("a.b", '.'));
    assert!(!contains_char("ab", '.'));
}

#[test]
fn comparing_strings() {
    assert!(str_eq("mzi", "mzi"));
    assert!(str_eq("", ""));
    assert!(!str_eq("mzi", "mzj"));
    assert!(!str_eq("mzi", "mzi2"));
    assert!(str_eq("é", "é"));
}

#[test]
fn gluing_strings() {
    assert_eq!(glue("ab", "cd"), "abcd");
    assert_eq!(dot_join("pkg", "mod"), "pkg.mod");
    assert_eq!(dot_join("", "x"), ".x");
}

#[test]
fn stripping_a_suffix() {
    assert_eq!(without_suffix("a.py", ".py"), Some("a".to_string()));
    assert_eq!(without_suffix("a.pyc", ".py"), None);
    assert_eq!(without_suffix(".py", ".py"), Some(String::new()));
}

#[test]
fn replacing_every_occurrence() {
    assert_eq!(replace("mzi.pic.yml", ".pic.yml", "_picyml"), "mzi_picyml");
    assert_eq!(replace("a.pic.yml.b.pic.yml", ".pic.yml", "_p"), "a_p.b_p");
    assert_eq!(replace("aaa", "aa", "b"), "ba");
    assert_eq!(replace("abc", "", "x"), "abc");
    assert_eq!(replace("ab", "abc", "x"), "ab");
    assert_eq!(replace("xyz", "q", "r"), "xyz");
}

#[test]
fn trimming_quotes() {
    assert_eq!(trim_matches("\"mzi\"", '"'), "mzi");
    assert_eq!(trim_matches("\"\"mzi\"", '"'), "mzi");
    assert_eq!(trim_matches("m\"zi", '"'), "m\"zi");
    assert_eq!(trim_matches("\"\"", '"'), "");
    assert_eq!(trim_matches("mzi", '"'), "mzi");
}

#[test]
fn decimal_texts() {
    assert_eq!(int_text(0), "0");
    assert_eq!(int_text(7), "7");
    assert_eq!(int_text(128), "128");
    assert_eq!(int_text(-45), "-45");
    assert_eq!(int_text(i64::MAX), "9223372036854775807");
    assert_eq!(int_text(i64::MIN), "-9223372036854775808");
    assert_eq!(nat_text(1000), "1000");
    assert_eq!(nat_text(u128::MAX), "340282366920938463463374607431768211455");
}

#[test]
fn text_functions_agree_with_the_standard_library() {
    let samples = ["", ".", "a.b", "..a..", "pkg.sub.mod", "é.ü.", "\"q\"", "\"\"x", "aXbXXc"];
    for s in samples {
        let expected: Vec<String> = s.split('.').map(|p| p.to_string()).collect();
        assert_eq!(split_on(s, '.'), expected, "split of {s:?}");
        assert_eq!(trim_matches(s, '"'), s.trim_matches('"'), "trim of {s:?}");
        assert_eq!(replace(s, "X", "yy"), s.replace("X", "yy"), "replace in {s:?}");
        assert_eq!(replace(s, "..", "-"), s.replace("..", "-"), "replace in {s:?}");
        assert_eq!(find_char(s, '.'), s.chars().position(|c| c == '.'), "find in {s:?}");
        for p in samples {
            assert_eq!(starts_with(s, p), s.starts_with(p), "{s:?} starts with {p:?}");
            assert_eq!(ends_with(s, p), s.ends_with(p), "{s:?} ends with {p:?}");
            assert_eq!(str_eq(s, p), s == p);
        }
    }
    for i in [0i64, 1, -1, 9, 10, 99, 100, -100, 123456789, i64::MAX, i64::MIN] {
        assert_eq!(int_text(i), i.to_string());
    }
}
