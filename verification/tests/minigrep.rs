use minigrep::search;
use minigrep::search_case_insensitive;
use minigrep::search_with_config;
use minigrep::Config;
use minigrep::ConfigError;

#[test]
fn valid_config() {
    let args = vec!["cmd".to_string(), "needle".to_string(), "haystack".to_string()];
    let config = Config::new(&args, false).unwrap();

    assert_eq!("needle", config.query);
    assert_eq!("haystack", config.filename);
    assert_eq!(true, config.case_sensitive);
}

#[test]
fn case_sensitive() {
    let query = "duct";
    let contents = "\
Rust:
safe, fast, productive.
Pick three.
Duct tape";

    assert_eq!(vec!["safe, fast, productive."], search(query, contents));
}

#[test]
fn case_insensitive() {
    let query = "duct";
    let contents = "\
Rust:
safe, fast, productive.
Pick three.
Duct tape";

    assert_eq!(
        vec!["safe, fast, productive.", "Duct tape"],
        search_case_insensitive(query, contents)
    );
}

#[test]
fn resolve_two_positionals_defaults_to_case_sensitive() {
    let args = vec!["needle".to_string(), "haystack".to_string()];
    let config = Config::resolve(&args, false).unwrap();

    assert_eq!("needle", config.query);
    assert_eq!("haystack", config.filename);
    assert_eq!(true, config.case_sensitive);
}

#[test]
fn resolve_missing_query() {
    let args: Vec<String> = vec![];
    assert_eq!(Err(ConfigError::MissingQuery), Config::resolve(&args, false).map(|_| ()));
}

#[test]
fn resolve_missing_source() {
    let args = vec!["needle".to_string()];
    assert_eq!(Err(ConfigError::MissingSource), Config::resolve(&args, false).map(|_| ()));
}

#[test]
fn env_override_forces_case_insensitive() {
    let args = vec!["needle".to_string(), "haystack".to_string()];
    let config = Config::resolve(&args, true).unwrap();
    assert_eq!(false, config.case_sensitive);
}

#[test]
fn flag_beats_env_override() {
    let args = vec![
        "needle".to_string(),
        "haystack".to_string(),
        "-c".to_string(),
    ];
    let config = Config::resolve(&args, true).unwrap();
    assert_eq!(true, config.case_sensitive);
}

#[test]
fn search_empty_body_finds_nothing() {
    let found: Vec<&str> = search("anything", "");
    assert!(found.is_empty());
    let found_ci: Vec<&str> = search_case_insensitive("anything", "");
    assert!(found_ci.is_empty());
}

#[test]
fn empty_query_matches_every_line() {
    let contents = "one\ntwo\nthree";
    assert_eq!(vec!["one", "two", "three"], search("", contents));
    assert_eq!(vec!["one", "two", "three"], search_case_insensitive("", contents));
}

#[test]
fn search_twice_gives_identical_results() {
    let query = "saFe";
    let contents = "Rust:\nsafe, fast, productive.\nPick three.\nDuct tape";
    assert_eq!(search(query, contents), search(query, contents));
    assert_eq!(
        search_case_insensitive(query, contents),
        search_case_insensitive(query, contents)
    );
}

#[test]
fn insensitive_matches_at_least_as_many_lines() {
    let query = "duct";
    let contents = "Rust:\nsafe, fast, productive.\nPick three.\nDuct tape";
    assert!(search(query, contents).len() <= search_case_insensitive(query, contents).len());
}

#[test]
fn search_respects_config_policy() {
    let contents = "Rust:\nsafe, fast, productive.\nPick three.\nDuct tape";
    let sensitive = Config {
        query: "duct".to_string(),
        filename: "ignored".to_string(),
        case_sensitive: true,
    };
    let insensitive = Config {
        query: "duct".to_string(),
        filename: "ignored".to_string(),
        case_sensitive: false,
    };

    assert_eq!(vec!["safe, fast, productive."], search_with_config(&sensitive, contents));
    assert_eq!(
        vec!["safe, fast, productive.", "Duct tape"],
        search_with_config(&insensitive, contents)
    );
}

#[test]
fn trailing_newline_does_not_add_a_line() {
    assert_eq!(vec!["tail"], search("tail", "tail\n"));
    assert_eq!(vec!["tail"], search("tail", "tail"));
}

#[test]
fn unicode_query_matches_whole_scalars() {
    let contents = "caf\u{e9} au lait\nplain cafe";
    assert_eq!(vec!["caf\u{e9} au lait"], search("caf\u{e9}", contents));
    assert_eq!(vec!["caf\u{e9} au lait"], search_case_insensitive("CAF\u{c9}", contents));
}
