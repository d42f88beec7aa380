use minigrep::Config;
use minigrep::ConfigError;
use minigrep::run_on_contents;

fn tokens(list: &[&str]) -> Vec<String> {
    list.iter().map(|t| String::from(*t)).collect()
}

#[test]
fn case_new() {
    let args = tokens(&["minigrep", "query", "poem.txt"]);
    let config = Config::new(&args, false).unwrap();
    assert_eq!(config.query, "query");
    assert_eq!(config.filename, "poem.txt");
    assert_eq!(config.case_sensitive, true);
}

#[test]
fn case_new_sensitive_from_args() {
    let args = tokens(&["minigrep", "query", "poem.txt", "true"]);
    let config = Config::new(&args, false).unwrap();
    assert_eq!(config.query, "query");
    assert_eq!(config.filename, "poem.txt");
    assert_eq!(config.case_sensitive, true);
}

#[test]
fn case_new_with_no_args() {
    let args = tokens(&["minigrep"]);
    let config = Config::new(&args, false);
    assert!(config.is_err());
}

#[test]
fn case_new_with_case_no_env() {
    let args = tokens(&["minigrep", "query", "poem.txt"]);
    let config = Config::new(&args, false).unwrap();
    assert_eq!(config.case_sensitive, true);
}

#[test]
fn case_new_with_case_env() {
    let args = tokens(&["minigrep", "query", "poem.txt"]);
    let config = Config::new(&args, true).unwrap();
    assert_eq!(config.case_sensitive, false);
}

#[test]
fn missing_query_with_empty_token_list() {
    let args = tokens(&[]);
    assert!(matches!(Config::new(&args, false), Err(ConfigError::MissingQuery)));
    assert!(matches!(Config::new(&args, true), Err(ConfigError::MissingQuery)));
}

#[test]
fn missing_filename_with_one_token() {
    let args = tokens(&["minigrep", "query"]);
    assert!(matches!(Config::new(&args, false), Err(ConfigError::MissingFilename)));
    assert!(matches!(Config::new(&args, true), Err(ConfigError::MissingFilename)));
}

#[test]
fn fourth_token_wins_over_environment() {
    let with_true = tokens(&["minigrep", "q", "f.txt", "TRUE"]);
    assert_eq!(Config::new(&with_true, true).unwrap().case_sensitive, true);
    let with_mixed_true = tokens(&["minigrep", "q", "f.txt", "tRuE"]);
    assert_eq!(Config::new(&with_mixed_true, true).unwrap().case_sensitive, true);
    let with_false = tokens(&["minigrep", "q", "f.txt", "False"]);
    assert_eq!(Config::new(&with_false, false).unwrap().case_sensitive, false);
}

#[test]
fn unrecognised_fourth_token_keeps_the_default() {
    let args = tokens(&["minigrep", "q", "f.txt", "maybe"]);
    assert_eq!(Config::new(&args, false).unwrap().case_sensitive, true);
    assert_eq!(Config::new(&args, true).unwrap().case_sensitive, false);
}

#[test]
fn fifth_token_is_ignored(){
    let args = tokens(&["minigrep", "q", "f.txt", "false", "true"]);
    let config = Config::new(&args, false).unwrap();
    assert_eq!(config.case_sensitive, false);
}

#[test]
fn error_messages_name_the_missing_field() {
    assert_eq!(ConfigError::MissingQuery.message(), "Didn't get a query string");
    assert_eq!(ConfigError::MissingFilename.message(), "Didn't get a file name");
}

#[test]
fn run_on_contents_follows_the_policy() {
    let args = tokens(&["minigrep", "rUsT", "poem.txt"]);
    let sensitive = Config::new(&args, false).unwrap();
    let contents = "Rust:\nsafe, fast, productive.\nTrust me.";
    assert_eq!(Vec::<String>::new(), run_on_contents(&sensitive, contents));
    let insensitive = Config::new(&args, true).unwrap();
    assert_eq!(vec!["Rust:", "Trust me."], run_on_contents(&insensitive, contents));
}
