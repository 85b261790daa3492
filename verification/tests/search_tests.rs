use minigrep::{contains_str, matching_lines, search, search_case_insensitive, split_lines, Config};

#[test]
fn case_sensitive() {
    let query = "duct";
    let contents = "\
Rust:
safe, fast, productive.
Pick three.";
    assert_eq!(vec!["safe, fast, productive."], search(query, contents))
}

#[test]
fn case_insensitive() {
    let query = "rUsT";
    let contents = "\
Rust:
safe, fast, productive.
Pick three.
Trust me.";
    assert_eq!(
        vec!["Rust:", "Trust me."],
        search_case_insensitive(query, contents)
    )
}

#[test]
fn empty_query_matches_every_line() {
    let contents = "one\ntwo\nthree";
    assert_eq!(vec!["one", "two", "three"], search("", contents));
}

#[test]
fn no_match_returns_nothing() {
    let contents = "one\ntwo\nthree";
    let results = search("four", contents);
    assert!(results.is_empty());
}

#[test]
fn search_of_empty_contents_returns_nothing() {
    let results = search("x", "");
    assert!(results.is_empty());
}

#[test]
fn split_lines_handles_carriage_returns() {
    assert_eq!(vec!["a", "b", "c"], split_lines("a\r\nb\nc"));
}

#[test]
fn split_lines_drops_trailing_newline() {
    assert_eq!(vec!["x"], split_lines("x\n"));
    assert_eq!(vec!["x", ""], split_lines("x\n\n"));
}

#[test]
fn split_lines_keeps_lone_carriage_return() {
    assert_eq!(vec!["a\rb"], split_lines("a\rb"));
}

#[test]
fn contains_str_finds_substrings() {
    assert!(contains_str("hello", "ell"));
    assert!(contains_str("hello", ""));
    assert!(contains_str("", ""));
    assert!(!contains_str("hello", "z"));
    assert!(!contains_str("", "a"));
    assert!(!contains_str("ab", "abc"));
}

#[test]
fn uppercase_query_matches_lowercase_line() {
    let contents = "safe, fast, productive.";
    assert_eq!(
        vec!["safe, fast, productive."],
        search_case_insensitive("PRODUCTIVE", contents)
    );
}

#[test]
fn matching_lines_follows_the_case_flag() {
    let contents = "Rust:\nsafe, fast, productive.\nTrust me.";
    let sensitive = Config::new(
        Some(String::from("rust")),
        Some(String::from("poem.txt")),
        false,
    )
    .unwrap();
    let insensitive = Config::new(
        Some(String::from("rust")),
        Some(String::from("poem.txt")),
        true,
    )
    .unwrap();
    assert_eq!(vec!["Trust me."], matching_lines(&sensitive, contents));
    assert_eq!(
        vec!["Rust:", "Trust me."],
        matching_lines(&insensitive, contents)
    );
}
