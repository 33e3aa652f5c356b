use minigrep::{contains_text, search, search_case_insensitive, Config, ConfigError};

#[test]
fn case_sensitive() {
    let query = "duct";
    let content = "\
Rust:
Fast, safe, productive
Embrace today
Duct tape";
    assert_eq!(vec!["Fast, safe, productive"], search(query, content));
}

#[test]
fn case_insensitive() {
    let query = "rusT";
    let content = "\
Rust:
Fast, safe, productive
Embrace today
Trust me";

    assert_eq!(vec!["Rust:", "Trust me"], search_case_insensitive(query, content));
}

#[test]
fn every_result_holds_the_query_and_none_is_missed() {
    let content = "one apple\nno fruit\napple pie\napple\n";
    assert_eq!(vec!["one apple", "apple pie", "apple"], search("apple", content));
}

#[test]
fn duplicate_lines_are_kept() {
    assert_eq!(vec!["ab", "ab"], search("a", "ab\ncd\nab"));
}

#[test]
fn no_match_gives_empty() {
    assert!(search("zzz", "abc\ndef").is_empty());
    assert!(search_case_insensitive("zzz", "abc\ndef").is_empty());
}

#[test]
fn empty_query_returns_every_line() {
    let content = "first\n\nthird";
    assert_eq!(vec!["first", "", "third"], search("", content));
    assert_eq!(vec!["first", "", "third"], search_case_insensitive("", content));
}

#[test]
fn trailing_newline_adds_no_line() {
    assert_eq!(vec!["a", "b"], search("", "a\nb"));
    assert_eq!(vec!["a", "b"], search("", "a\nb\n"));
    assert_eq!(vec!["a", ""], search("", "a\n\n"));
    assert!(search("", "").is_empty());
}

#[test]
fn carriage_return_before_newline_is_dropped() {
    assert_eq!(vec!["a", "b"], search("", "a\r\nb\r\n"));
    assert_eq!(vec!["a", "b\r"], search("", "a\r\nb\r"));
}

#[test]
fn insensitive_finds_at_least_what_literal_finds_on_lowercase_text() {
    let content = "rust is here\nnothing\ntrusty";
    let literal = search("rust", content);
    let folded = search_case_insensitive("rust", content);
    assert_eq!(literal, folded);
    assert_eq!(vec!["rust is here", "trusty"], folded);
}

#[test]
fn insensitive_ignores_the_case_of_the_query() {
    let content = "Rust:\nTrust me\nnothing";
    assert_eq!(
        search_case_insensitive("rust", content),
        search_case_insensitive("RUST", content)
    );
    assert_eq!(vec!["Rust:", "Trust me"], search_case_insensitive("RUST", content));
}

#[test]
fn insensitive_returns_lines_unfolded() {
    assert_eq!(vec!["ÉCOLE Ouverte"], search_case_insensitive("école", "ÉCOLE Ouverte\nautre"));
}

#[test]
fn searches_are_repeatable() {
    let content = "Rust:\nFast, safe, productive\nTrust me";
    assert_eq!(search("ust", content), search("ust", content));
    assert_eq!(
        search_case_insensitive("RUST", content),
        search_case_insensitive("RUST", content)
    );
}

#[test]
fn uppercase_query_on_lowercase_text_without_ignore_case() {
    let config = Config::build(
        vec!["minigrep".to_string(), "RUST".to_string(), "poem.txt".to_string()],
        false,
    )
    .unwrap();
    assert!(config.select_lines("rust\nrusty rust").is_empty());
}

#[test]
fn select_lines_follows_ignore_case() {
    let args = vec!["minigrep".to_string(), "RUST".to_string(), "poem.txt".to_string()];
    let config = Config::build(args, true).unwrap();
    assert_eq!(vec!["rust", "rusty rust"], config.select_lines("rust\nrusty rust\nno"));
}

#[test]
fn build_reads_pattern_and_path_and_ignores_extras() {
    let args = vec![
        "minigrep".to_string(),
        "needle".to_string(),
        "hay.txt".to_string(),
        "extra".to_string(),
    ];
    let config = Config::build(args, true).unwrap();
    assert_eq!("needle", config.pattern);
    assert_eq!("hay.txt", config.filepath);
    assert!(config.ignore_case);
}

#[test]
fn build_with_exactly_two_tokens() {
    let args = vec!["minigrep".to_string(), "a".to_string(), "b".to_string()];
    let config = Config::build(args, false).unwrap();
    assert_eq!("a", config.pattern);
    assert_eq!("b", config.filepath);
    assert!(!config.ignore_case);
}

#[test]
fn build_without_pattern_fails() {
    assert_eq!(
        Some(ConfigError::MissingPattern),
        Config::build(vec!["minigrep".to_string()], false).err()
    );
    assert_eq!(Some(ConfigError::MissingPattern), Config::build(vec![], false).err());
}

#[test]
fn build_without_filepath_fails() {
    let args = vec!["minigrep".to_string(), "needle".to_string()];
    assert_eq!(Some(ConfigError::MissingFilepath), Config::build(args, false).err());
}

#[test]
fn error_messages() {
    assert_eq!("Didn't get a pattern", ConfigError::MissingPattern.message());
    assert_eq!("Didn't get a filepath", ConfigError::MissingFilepath.message());
}

#[test]
fn contains_text_exact() {
    assert!(contains_text("productive", "duct"));
    assert!(!contains_text("Duct tape", "duct"));
    assert!(contains_text("abc", ""));
    assert!(contains_text("", ""));
    assert!(!contains_text("ab", "abc"));
    assert!(contains_text("aab", "ab"));
    assert!(contains_text("héllo", "éll"));
}
