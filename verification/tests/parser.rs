use zero_shell::parser::parse_input;

fn words(line: &str) -> Option<(String, Vec<String>)> {
    parse_input(line).map(|c| (c.name, c.args))
}

fn owned(v: &[&str]) -> Vec<String> {
    v.iter().map(|s| s.to_string()).collect()
}

#[test]
fn splits_on_white_space() {
    assert_eq!(words("ls  -l\t/tmp"), Some(("ls".to_string(), owned(&["-l", "/tmp"]))));
}

#[test]
fn no_words_gives_none() {
    assert!(words("").is_none());
    assert!(words("   \t  ").is_none());
    assert!(words("\\").is_none());
}

#[test]
fn double_quotes_group_words() {
    assert_eq!(
        words("echo \"Hello from our modular shell!\""),
        Some(("echo".to_string(), owned(&["Hello from our modular shell!"])))
    );
}

#[test]
fn single_quotes_group_words_and_keep_backslashes() {
    assert_eq!(words("echo 'a \\ b' c"), Some(("echo".to_string(), owned(&["a \\ b", "c"]))));
}

#[test]
fn quotes_of_the_other_kind_are_literal() {
    assert_eq!(words("echo \"it's\" 'say \"hi\"'"), Some(("echo".to_string(), owned(&["it's", "say \"hi\""]))));
}

#[test]
fn empty_quotes_make_an_empty_word() {
    assert_eq!(words("echo '' \"\""), Some(("echo".to_string(), owned(&["", ""]))));
}

#[test]
fn adjacent_quoted_parts_join() {
    assert_eq!(words("echo ab'c d'\"e\"f"), Some(("echo".to_string(), owned(&["abc def"]))));
}

#[test]
fn backslash_escapes_space_and_quotes() {
    assert_eq!(words("echo a\\ b \\\"x\\'"), Some(("echo".to_string(), owned(&["a b", "\"x'"]))));
}

#[test]
fn backslash_works_inside_double_quotes() {
    assert_eq!(words("echo \"a\\\"b\""), Some(("echo".to_string(), owned(&["a\"b"]))));
}

#[test]
fn unclosed_quote_runs_to_the_end() {
    assert_eq!(words("echo 'a b"), Some(("echo".to_string(), owned(&["a b"]))));
}

#[test]
fn quoted_words_round_trip() {
    let ws = ["cp", "my file", "", "x\"y"];
    let line: Vec<String> = ws.iter().map(|w| format!("'{}'", w)).collect();
    let parsed = words(&line.join(" ")).unwrap();
    assert_eq!(parsed.0, "cp");
    assert_eq!(parsed.1, owned(&ws[1..]));
}

#[test]
fn escaped_text_is_one_word() {
    let text = "a 'b' \"c\" \\d";
    let escaped: String = text.chars().flat_map(|c| ['\\', c]).collect();
    assert_eq!(words(&escaped), Some((text.to_string(), vec![])));
}

#[test]
fn unicode_white_space_separates() {
    assert_eq!(words("a\u{3000}b\u{a0}c"), Some(("a".to_string(), owned(&["b", "c"]))));
}
