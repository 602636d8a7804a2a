use textedit::features::find::FindReplace;

#[test]
fn test_find_simple() {
    let mut fr = FindReplace::default();
    fr.search_text = "hello".to_string();

    let text = "hello world hello";
    let matches = fr.find_all(text);
    assert_eq!(matches.len(), 2);
    assert_eq!(matches[0], (0, 5));
    assert_eq!(matches[1], (12, 17));
}

#[test]
fn test_find_case_insensitive() {
    let mut fr = FindReplace::default();
    fr.search_text = "hello".to_string();
    fr.case_sensitive = false;

    let text = "Hello HELLO hello";
    let matches = fr.find_all(text);
    assert_eq!(matches.len(), 3);
}

#[test]
fn test_find_whole_word() {
    let mut fr = FindReplace::default();
    fr.search_text = "hello".to_string();
    fr.whole_word = true;

    let text = "hello world hellos";
    let matches = fr.find_all(text);
    assert_eq!(matches.len(), 1);
}

#[test]
fn test_replace_simple() {
    let mut fr = FindReplace::default();
    fr.search_text = "hello".to_string();
    fr.replace_text = "hi".to_string();

    let result = fr.replace("hello world");
    assert_eq!(result, "hi world");
}

#[test]
fn test_replace_all() {
    let mut fr = FindReplace::default();
    fr.search_text = "o".to_string();
    fr.replace_text = "x".to_string();

    let result = fr.replace("hello world");
    assert_eq!(result, "hellx wxrld");
}

#[test]
fn test_regex_find() {
    let mut fr = FindReplace::default();
    fr.search_text = r"\d+".to_string();
    fr.regex = true;

    let text = "abc 123 def 456";
    let matches = fr.find_all(text);
    assert_eq!(matches.len(), 2);
}

#[test]
fn test_regex_replace() {
    let mut fr = FindReplace::default();
    fr.search_text = "hello".to_string();
    fr.replace_text = "hi".to_string();

    let result = fr.replace("hello world");
    assert_eq!(result, "hi world");
}

#[test]
fn test_wrap_around() {
    let mut fr = FindReplace::default();
    fr.search_text = "hello".to_string();
    fr.wrap_around = true;

    let text = "hello world";
    let result = fr.find_next(text, 6);
    assert!(result.is_some());
}

#[test]
fn find_next_from_an_offset() {
    let mut fr = FindReplace::default();
    fr.search_text = "ab".to_string();
    fr.case_sensitive = true;
    assert_eq!(fr.find_next("ab xab", 1), Some((4, 6)));
    assert_eq!(fr.find_next("ab xab", 0), Some((0, 2)));
    fr.wrap_around = false;
    assert_eq!(fr.find_next("ab x", 1), None);
    fr.wrap_around = true;
    assert_eq!(fr.find_next("ab x", 1), Some((0, 2)));
    assert_eq!(fr.find_next("x", 0), None);
}

#[test]
fn find_in_text_with_wide_chars() {
    let mut fr = FindReplace::default();
    fr.search_text = "ö".to_string();
    assert_eq!(fr.find_all("wörld Öl"), vec![(1, 3), (7, 9)]);
    assert_eq!(fr.count_matches("wörld Öl"), 2);
    assert_eq!(fr.find_next("wörld Öl", 3), Some((7, 9)));
}

#[test]
fn plain_search_escapes_meta_chars() {
    let mut fr = FindReplace::default();
    fr.search_text = "a.b".to_string();
    assert_eq!(fr.find_all("axb a.b"), vec![(4, 7)]);
    fr.regex = true;
    assert_eq!(fr.find_all("axb a.b"), vec![(0, 3), (4, 7)]);
}

#[test]
fn invalid_regex_finds_nothing() {
    let mut fr = FindReplace::default();
    fr.search_text = "(".to_string();
    fr.regex = true;
    assert_eq!(fr.build_pattern(), None);
    assert_eq!(fr.find_all("(("), vec![]);
    assert_eq!(fr.find_next("((", 0), None);
    fr.regex = false;
    assert_eq!(fr.build_pattern(), Some("(?i)\\(".to_string()));
    assert_eq!(fr.count_matches("(("), 2);
}

#[test]
fn empty_search_changes_nothing() {
    let mut fr = FindReplace::default();
    assert_eq!(fr.build_pattern(), None);
    assert_eq!(fr.find_all("abc"), vec![]);
    assert_eq!(fr.replace("abc"), "abc");
    assert_eq!(fr.find_next("abc", 0), None);
}

#[test]
fn regex_replace_expands_groups() {
    let mut fr = FindReplace::default();
    fr.search_text = r"(\w+)@(\w+)".to_string();
    fr.regex = true;
    fr.replace_text = "$2 at $1".to_string();
    fr.build_pattern();
    assert_eq!(fr.replace("me@home"), "home at me");
}

#[test]
fn replace_match_swaps_one_range() {
    let mut fr = FindReplace::default();
    fr.replace_text = "Ü".to_string();
    assert_eq!(fr.replace_match("aöb", (1, 3)), "aÜb");
    assert_eq!(fr.replace_match("abc", (0, 0)), "Üabc");
}

#[test]
fn clear_resets_texts() {
    let mut fr = FindReplace::default();
    fr.search_text = "x".to_string();
    fr.replace_text = "y".to_string();
    fr.whole_word = true;
    fr.clear();
    assert_eq!(fr.search_text, "");
    assert_eq!(fr.replace_text, "");
    assert!(fr.whole_word);
    assert_eq!(fr.find_all("x"), vec![]);
}

#[test]
fn whole_word_case_sensitive_pattern() {
    let mut fr = FindReplace::default();
    fr.search_text = "ab".to_string();
    fr.whole_word = true;
    fr.case_sensitive = true;
    assert_eq!(fr.build_pattern(), Some("\\bab\\b".to_string()));
    assert_eq!(fr.find_all("ab Ab abc"), vec![(0, 2)]);
}

#[test]
fn plain_replace_follows_find_case_setting() {
    let mut fr = FindReplace::default();
    fr.search_text = "hello".to_string();
    fr.replace_text = "hi".to_string();
    assert_eq!(fr.find_all("Hello hello").len(), 2);
    assert_eq!(fr.replace("hello world"), "hi world");
    assert_eq!(fr.replace("Hello hello"), "hi hi");
    fr.set_case_sensitive(true);
    assert_eq!(fr.replace("Hello hello"), "Hello hi");
}

#[test]
fn plain_replace_keeps_dollar_signs() {
    let mut fr = FindReplace::new("a".to_string(), "$1$$".to_string());
    assert_eq!(fr.replace("cat"), "c$1$$t");
    fr.set_whole_word(true);
    assert_eq!(fr.replace("a cat a"), "$1$$ cat $1$$");
}

#[test]
fn replace_with_a_broken_regex_changes_nothing() {
    let mut fr = FindReplace::new("(".to_string(), "x".to_string());
    fr.set_regex(true);
    assert_eq!(fr.replace("a(b"), "a(b");
    fr.set_regex(false);
    assert_eq!(fr.replace("a(b"), "axb");
}

#[test]
fn setters_change_the_settings() {
    let mut fr = FindReplace::new("x".to_string(), "y".to_string());
    assert_eq!(fr.search_text, "x");
    assert_eq!(fr.replace_text, "y");
    assert!(fr.wrap_around);
    fr.set_search_text("ab".to_string());
    fr.set_replace_text("cd".to_string());
    fr.set_wrap_around(false);
    assert_eq!(fr.search_text, "ab");
    assert_eq!(fr.replace_text, "cd");
    assert!(!fr.wrap_around);
    assert_eq!(fr.find_next("xab", 2), None);
    assert_eq!(fr.find_next("xab", 0), Some((1, 3)));
}

#[test]
fn replace_swaps_exactly_the_ranges_find_all_reports() {
    let mut fr = FindReplace::new(r"\d+".to_string(), "#".to_string());
    fr.set_regex(true);
    assert_eq!(fr.find_all("a1b22"), vec![(1, 2), (3, 5)]);
    assert_eq!(fr.replace("a1b22"), "a#b#");
    let mut wide = FindReplace::new("\u{e9}".to_string(), "e".to_string());
    assert_eq!(wide.find_all("\u{e9}a\u{c9}"), vec![(0, 2), (3, 5)]);
    assert_eq!(wide.replace("\u{e9}a\u{c9}"), "eae");
}
