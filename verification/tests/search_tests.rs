use minigrep::search;
use minigrep::search_case_insenstive;
use minigrep::split_lines;

#[test]
fn case_senstive() {
    let query = "duct";
    let contents = "\
Rust:
safe, fast, productive.
Pick three.
Duct tape.";
    assert_eq!(vec!["safe, fast, productive."], search(query, contents));
}

#[test]
fn case_insenstive() {
    let query = "rUsT";
    let contents = "\
Rust:
safe, fast, productive.
Pick three.
Trust me.";

    assert_eq!(vec!["Rust:", "Trust me."], search_case_insenstive(query, contents));
}

#[test]
fn empty_query_returns_every_line() {
    let contents = "one\ntwo\nthree";
    assert_eq!(vec!["one", "two", "three"], search("", contents));
    assert_eq!(vec!["one", "two", "three"], search_case_insenstive("", contents));
}

#[test]
fn empty_contents_returns_nothing() {
    assert_eq!(Vec::<String>::new(), search("x", ""));
    assert_eq!(Vec::<String>::new(), search_case_insenstive("x", ""));
    assert_eq!(Vec::<String>::new(), search("", ""));
}

#[test]
fn absent_query_returns_nothing() {
    let contents = "alpha\nbeta\ngamma";
    assert_eq!(Vec::<String>::new(), search("delta", contents));
}

#[test]
fn results_keep_original_spelling() {
    let results = search_case_insenstive("HELLO", "Hello, World!\ngoodbye");
    assert_eq!(vec!["Hello, World!"], results);
}

#[test]
fn trailing_newline_opens_no_extra_line() {
    assert_eq!(vec!["a", "b"], search("", "a\nb\n"));
    assert_eq!(vec!["a", "b", ""], search("", "a\nb\n\n"));
}

#[test]
fn carriage_return_belongs_to_the_break() {
    assert_eq!(vec!["a", "b"], split_lines("a\r\nb\r\n"));
    assert_eq!(vec!["a", "b"], split_lines("a\r\nb"));
    assert_eq!(vec!["ab"], search("ab", "ab\r\ncd"));
}

#[test]
fn split_lines_splits_at_line_feeds() {
    assert_eq!(Vec::<String>::new(), split_lines(""));
    assert_eq!(vec!["only"], split_lines("only"));
    assert_eq!(vec!["", "mid", ""], split_lines("\nmid\n\n"));
}

#[test]
fn search_twice_returns_identical_results() {
    let query = "pro";
    let contents = "profile\nnothing\nreproduce\npro";
    let first = search(query, contents);
    let second = search(query, contents);
    assert_eq!(first, second);
    let first_ci = search_case_insenstive("PRO", contents);
    let second_ci = search_case_insenstive("PRO", contents);
    assert_eq!(first_ci, second_ci);
}

#[test]
fn order_of_matches_follows_the_text() {
    let results = search("a", "banana\nkiwi\napple\npear\ndate");
    assert_eq!(vec!["banana", "apple", "pear", "date"], results);
}

#[test]
fn insensitive_search_lowers_both_sides() {
    let results = search_case_insenstive("AbC", "xxABCxx\nabc\nAbc\nab");
    assert_eq!(vec!["xxABCxx", "abc", "Abc"], results);
}
