use grepzilla::search::{line_selected, matching_lines};
use grepzilla::text::{contains_text, lines, same_text};
use grepzilla::{search, search_case_insensitive, Config};

const POEM: &str = "\
Rust:
safe, fast, productive.
Pick three.
Duct tape.";

#[test]
fn invert_match() {
    let query = "duct";
    let contents = "\
Rust:
safe, fast, productive.
Pick three.
Duct tape.";

    assert_eq!(
        vec!["Rust:", "Pick three.", "Duct tape."],
        search(query, contents, &true)
    );

    assert_eq!(
        vec!["Rust:", "Pick three."],
        search_case_insensitive(query, contents, &true)
    );
}

#[test]
fn case_sensitive() {
    let query = "duct";
    let contents = "\
Rust:
safe, fast, productive.
Pick three.
Duct tape.";

    assert_eq!(
        vec!["safe, fast, productive."],
        search(query, contents, &false)
    );
}

#[test]
fn case_insensitive() {
    let query = "rUsT";
    let contents = "\
Rust:
safe, fast, productive.
Pick three.
Trust me.";

    assert_eq!(
        vec!["Rust:", "Trust me."],
        search_case_insensitive(query, contents, &false)
    );
}

#[test]
fn one_result() {
    let query = "duct";
    let contents = "\
Rust:
safe, fast, productive.
Pick three.";

    assert_eq!(
        vec!["safe, fast, productive."],
        search(query, contents, &false)
    );
}

#[test]
fn ignore_case_on_poem_finds_rust_only() {
    assert_eq!(vec!["Rust:"], search_case_insensitive("rUsT", POEM, &false));
}

#[test]
fn empty_query_keeps_every_line() {
    assert_eq!(
        vec!["Rust:", "safe, fast, productive.", "Pick three.", "Duct tape."],
        search("", POEM, &false)
    );
    assert_eq!(Vec::<String>::new(), search("", POEM, &true));
}

#[test]
fn empty_contents_give_no_lines() {
    assert_eq!(Vec::<String>::new(), search("a", "", &false));
    assert_eq!(Vec::<String>::new(), search("a", "", &true));
    assert_eq!(Vec::<String>::new(), search_case_insensitive("a", "", &true));
}

#[test]
fn inverted_is_the_rest_of_the_lines() {
    let kept = search("t", POEM, &false);
    let rest = search("t", POEM, &true);
    let all = lines(POEM);
    let expected: Vec<String> = all.into_iter().filter(|l| !kept.contains(l)).collect();
    assert_eq!(expected, rest);
    assert_eq!(vec!["Rust:", "safe, fast, productive.", "Pick three.", "Duct tape."], kept);
    assert_eq!(Vec::<String>::new(), rest);
}

#[test]
fn repeated_search_gives_same_lines() {
    assert_eq!(search("a", POEM, &false), search("a", POEM, &false));
    assert_eq!(
        search_case_insensitive("P", POEM, &true),
        search_case_insensitive("P", POEM, &true)
    );
}

#[test]
fn output_keeps_original_case() {
    assert_eq!(
        vec!["Pick three."],
        search_case_insensitive("PICK", POEM, &false)
    );
}

#[test]
fn lines_drop_line_endings() {
    assert_eq!(vec!["a", "b", "c"], lines("a\nb\r\nc\n"));
    assert_eq!(vec!["", "x", ""], lines("\nx\n\n"));
    assert_eq!(vec!["a\r"], lines("a\r"));
    assert_eq!(Vec::<String>::new(), lines(""));
}

#[test]
fn search_over_crlf_text() {
    assert_eq!(vec!["two"], search("tw", "one\r\ntwo\r\n", &false));
}

#[test]
fn substring_tests() {
    assert!(contains_text("productive", "duct"));
    assert!(!contains_text("Duct", "duct"));
    assert!(contains_text("abc", ""));
    assert!(!contains_text("", "a"));
    assert!(contains_text("aab", "ab"));
}

#[test]
fn text_equality() {
    assert!(same_text("--help", "--help"));
    assert!(!same_text("--help", "--hel"));
    assert!(!same_text("ab", "ba"));
}

#[test]
fn selection_with_xor() {
    assert!(line_selected("safe", "af", false));
    assert!(!line_selected("safe", "af", true));
    assert!(line_selected("safe", "x", true));
    assert!(!line_selected("safe", "x", false));
}

fn args(items: &[&str]) -> Vec<String> {
    items.iter().map(|s| s.to_string()).collect()
}

#[test]
fn help_alone_is_accepted() {
    let c = Config::build(&args(&["--help"])).unwrap();
    assert!(c.help);
    assert_eq!("", c.query);
    assert_eq!("", c.file_path);
    assert!(!c.ignore_case);
    assert!(!c.invert_match);
}

#[test]
fn help_wins_over_everything() {
    let c = Config::build(&args(&["q", "f", "--ignore_case", "--help"])).unwrap();
    assert!(c.help);
    assert!(!c.ignore_case);
}

#[test]
fn one_positional_is_a_usage_error() {
    assert_eq!(Err("Expected more arguments!"), Config::build(&args(&["q"])).map(|_| ()));
    assert_eq!(Err("Expected more arguments!"), Config::build(&args(&[])).map(|_| ()));
}

#[test]
fn positionals_and_flags() {
    let c = Config::build(&args(&["needle", "hay.txt", "--invert_match"])).unwrap();
    assert!(!c.help);
    assert_eq!("needle", c.query);
    assert_eq!("hay.txt", c.file_path);
    assert!(!c.ignore_case);
    assert!(c.invert_match);

    let c = Config::build(&args(&["needle", "hay.txt", "--ignore_case"])).unwrap();
    assert!(c.ignore_case);
    assert!(!c.invert_match);
}

#[test]
fn flag_in_positional_slot_is_taken_as_query() {
    let c = Config::build(&args(&["--ignore_case", "hay.txt"])).unwrap();
    assert_eq!("--ignore_case", c.query);
    assert_eq!("hay.txt", c.file_path);
    assert!(c.ignore_case);
}

#[test]
fn config_picks_the_matcher() {
    let c = Config::build(&args(&["rUsT", "f", "--ignore_case"])).unwrap();
    assert_eq!(vec!["Rust:"], matching_lines(&c, POEM));
    let c = Config::build(&args(&["duct", "f", "--invert_match"])).unwrap();
    assert_eq!(vec!["Rust:", "Pick three.", "Duct tape."], matching_lines(&c, POEM));
    let c = Config::build(&args(&["Duct", "f"])).unwrap();
    assert_eq!(vec!["Duct tape."], matching_lines(&c, POEM));
}
