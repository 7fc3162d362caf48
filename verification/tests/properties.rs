use minigrep::config::{Config, ConfigError};
use minigrep::file::{add_file_matches, text_of, FileError, FileMatch};
use minigrep::report::{count_file_matches, render_files};
use minigrep::search::{
    search, search_regex, search_with_context_lines,
};
use minigrep::{
    check_query, format_nothing_to_search, format_searching_files, report, Findings, GrepError,
};

const POEM: &str = "Rust:\nsafe, fast, productive.\nPick three.\nDuct tape.";

#[test]
fn radius_zero_shows_the_matching_lines_only() {
    let contents = "one\ntwo\nthree\nfour two\nfive";
    let plain = search("two", contents);
    let tagged: Vec<(usize, &str, bool)> = plain.iter().map(|&(n, t)| (n, t, true)).collect();
    assert_eq!(search_with_context_lines("two", contents, 0), tagged);
    assert_eq!(tagged, vec![(2, "two", true), (4, "four two", true)]);
}

#[test]
fn larger_radius_keeps_every_line_of_a_smaller_one() {
    let contents = "a\nb\nx\nc\nd\ne\nf\nx\ng\nh\ni\nj";
    for small in 0..6 {
        let fewer = search_with_context_lines("x", contents, small);
        for large in small..8 {
            let more = search_with_context_lines("x", contents, large);
            for record in &fewer {
                assert!(more.contains(record));
            }
        }
    }
    assert_eq!(search_with_context_lines("x", contents, 50).len(), 12);
}

#[test]
fn overlapping_and_touching_windows_merge() {
    let contents = "0\n1\nx\n3\n4\n5\n6\nx\n8\n9";
    let touching = search_with_context_lines("x", contents, 2);
    let numbers: Vec<usize> = touching.iter().map(|r| r.0).collect();
    assert_eq!(numbers, vec![1, 2, 3, 4, 5, 6, 7, 8, 9, 10]);

    let overlapping = search_with_context_lines("x", contents, 3);
    let numbers: Vec<usize> = overlapping.iter().map(|r| r.0).collect();
    assert_eq!(numbers, vec![1, 2, 3, 4, 5, 6, 7, 8, 9, 10]);

    let apart = search_with_context_lines("x", contents, 1);
    let numbers: Vec<usize> = apart.iter().map(|r| r.0).collect();
    assert_eq!(numbers, vec![2, 3, 4, 7, 8, 9]);
}

#[test]
fn line_numbers_ascend_strictly() {
    let contents = "x\nx\na\nx\nb\nc\nd\nx";
    for radius in 0..5 {
        let found = search_with_context_lines("x", contents, radius);
        for pair in found.windows(2) {
            assert!(pair[0].0 < pair[1].0);
        }
        for record in &found {
            assert_eq!(record.2, record.1 == "x");
        }
    }
}

#[test]
fn scenario_duct() {
    assert_eq!(search("duct", POEM), vec![(2, "safe, fast, productive.")]);
    assert_eq!(
        search_with_context_lines("duct", POEM, 1),
        vec![(1, "Rust:", false), (2, "safe, fast, productive.", true), (3, "Pick three.", false)]
    );
}

#[test]
fn empty_query_matches_every_line() {
    assert_eq!(
        search("", POEM),
        vec![(1, "Rust:"), (2, "safe, fast, productive."), (3, "Pick three."), (4, "Duct tape.")]
    );
    assert_eq!(search("", "\n\n"), vec![(1, ""), (2, "")]);
}

#[test]
fn invalid_pattern_gives_no_result() {
    let result = search_regex("[", POEM);
    assert!(result.is_err());
    let error = GrepError::from(result.unwrap_err());
    assert!(matches!(error, GrepError::Search(_)));
    let text = error.to_string();
    assert!(text.starts_with("Search error: "));
    assert!(text.len() > "Search error: ".len());
}

#[test]
fn errors_in_words() {
    assert_eq!(ConfigError::MissingQuery.to_string(), "Missing query string");
    assert_eq!(ConfigError::MissingFilename.to_string(), "Missing filename");
    assert_eq!(
        ConfigError::InvalidContextValue("x1".to_string()).to_string(),
        "Invalid context value: x1"
    );
    assert_eq!(ConfigError::InvalidOption("-z".to_string()).to_string(), "Invalid option: -z");
    assert_eq!(FileError::NotFound("a.txt".to_string()).to_string(), "File not found: a.txt");
    assert_eq!(FileError::IoError("denied".to_string()).to_string(), "IO error: denied");
    assert_eq!(FileError::ReadError("bad".to_string()).to_string(), "Failed to read file: bad");
    assert_eq!(
        GrepError::from(ConfigError::MissingQuery).to_string(),
        "Configuration error: Missing query string"
    );
    assert_eq!(
        GrepError::from(FileError::IoError("denied".to_string())).to_string(),
        "File error: IO error: denied"
    );
    assert_eq!(GrepError::Search("oops".to_string()).to_string(), "Search error: oops");
    assert_eq!(GrepError::Io("oops".to_string()).to_string(), "IO error: oops");
}

#[test]
fn faulty_arguments() {
    let parse = |list: &[&str]| Config::new(list.iter().map(|s| s.to_string()).collect(), false);
    assert!(matches!(parse(&[]), Err(ConfigError::MissingQuery)));
    assert!(matches!(parse(&["p", "-i", "-x"]), Err(ConfigError::MissingQuery)));
    assert!(matches!(parse(&["p", "-z", "q", "f"]), Err(ConfigError::InvalidOption(o)) if o == "-z"));
    assert!(matches!(parse(&["p", "--", "q", "f"]), Err(ConfigError::InvalidOption(o)) if o == "--"));
    assert!(matches!(parse(&["p", "-cx", "q", "f"]), Err(ConfigError::InvalidOption(o)) if o == "-cx"));
    assert!(matches!(parse(&["p", "-help"]), Err(ConfigError::InvalidOption(o)) if o == "-help"));
    assert!(
        matches!(parse(&["p", "-c=x", "q", "f"]), Err(ConfigError::InvalidContextValue(v)) if v == "x")
    );
    assert!(matches!(parse(&["p", "-c=", "q", "f"]), Err(ConfigError::InvalidContextValue(v)) if v.is_empty()));
    assert!(
        matches!(parse(&["p", "--context=-1"]), Err(ConfigError::InvalidContextValue(v)) if v == "-1")
    );
    assert!(
        matches!(parse(&["p", "-c=é1", "-z"]), Err(ConfigError::InvalidContextValue(v)) if v == "é1")
    );
    assert!(matches!(parse(&["p", "-z", "-c=x"]), Err(ConfigError::InvalidOption(o)) if o == "-z"));
}

#[test]
fn help_is_an_outcome_of_its_own() {
    let parse = |list: &[&str]| Config::new(list.iter().map(|s| s.to_string()).collect(), false);
    assert!(matches!(parse(&["program", "-h", "query", "filename"]), Err(ConfigError::HelpRequested)));
    assert!(matches!(
        parse(&["program", "--help", "query", "filename"]),
        Err(ConfigError::HelpRequested)
    ));
    assert!(matches!(parse(&["p", "-h"]), Err(ConfigError::HelpRequested)));
    assert!(matches!(parse(&["p", "q", "f", "-i", "--help", "-z"]), Err(ConfigError::HelpRequested)));
    assert!(matches!(parse(&["p", "-z", "-h"]), Err(ConfigError::InvalidOption(o)) if o == "-z"));
    assert!(matches!(parse(&["-h", "q", "f"]), Ok(_)));
    assert_eq!(ConfigError::HelpRequested.to_string(), "Help requested");
}

#[test]
fn options_in_detail() {
    let parse =
        |list: &[&str]| Config::new(list.iter().map(|s| s.to_string()).collect(), false).unwrap();
    let config = parse(&["p", "-", "f"]);
    assert_eq!(config.query, "-");
    let config = parse(&["p", "-c=1", "-c", "--context=+7", "q", "f"]);
    assert_eq!(config.context_lines, 7);
    let config = parse(&["p", "-c=7", "q", "-c", "f"]);
    assert_eq!(config.context_lines, 2);
    let config = parse(&["p", "-e", "q", "f"]);
    assert!(config.use_regex && config.case_sensitive && !config.recursive);
    let config = parse(&["p", "--regexp", "q", "f", "-r"]);
    assert!(config.use_regex && config.recursive);
    let config = Config::default();
    assert_eq!(config.query, "");
    assert_eq!(config.filename, "");
    assert!(!config.case_sensitive && !config.use_regex && !config.recursive);
    assert_eq!(config.context_lines, 0);
}

#[test]
fn findings_keep_what_other_files_gave() {
    let mut config = Config::default();
    config.query = "(x".to_string();
    config.case_sensitive = true;
    config.context_lines = 1;
    let mut findings = Findings::new();
    findings.add_file("a", Ok("1\n(x\n3\n4".to_string()), &config);
    findings.add_file("b", Err(FileError::ReadError("not text".to_string())), &config);
    findings.add_file("c", Ok("(x".to_string()), &config);
    assert_eq!(findings.failures.len(), 1);
    assert_eq!(findings.failures[0].0, "b");
    assert_eq!(findings.failures[0].1.to_string(), "File error: Failed to read file: not text");
    assert_eq!(count_file_matches(&findings.matches), 2);
    assert_eq!(
        render_files(&config.query, 3, &findings.matches),
        vec![
            "Found 2 match(es) in 3 file(s):",
            "\nFile: a",
            "1~1",
            "2:(x",
            "3~3",
            "--",
            "\nFile: c",
            "1:(x",
        ]
    );

    config.use_regex = true;
    let before = findings.matches.len();
    findings.add_file("d", Ok("(x".to_string()), &config);
    assert_eq!(findings.matches.len(), before);
    assert_eq!(findings.failures.len(), 2);
    assert_eq!(findings.failures[1].0, "d");
    assert!(matches!(findings.failures[1].1, GrepError::Search(_)));
    assert!(report(&config, "(x").is_err());
}

#[test]
fn report_of_files_parts_runs_and_files() {
    let mut found: Vec<FileMatch> = Vec::new();
    add_file_matches(&mut found, "a", &vec![(1, "x", true), (2, "y", false), (5, "x", true)]);
    add_file_matches(&mut found, "b", &vec![]);
    add_file_matches(&mut found, "c", &vec![(6, "x", true)]);
    assert_eq!(found.len(), 4);
    assert_eq!(
        found[2],
        FileMatch { path: "a".to_string(), line_num: 5, line: "x".to_string(), is_match: true }
    );
    assert_eq!(
        render_files("x", 3, &found),
        vec![
            "Found 3 match(es) in 3 file(s):",
            "\nFile: a",
            "1:x",
            "2~y",
            "--",
            "5:x",
            "--",
            "\nFile: c",
            "6:x",
        ]
    );
    assert_eq!(render_files("x", 3, &Vec::new()), vec!["No matches found for 'x'"]);
}

#[test]
fn lines_about_the_files() {
    let mut config = Config::default();
    config.filename = "dir".to_string();
    assert_eq!(format_nothing_to_search(&config), "No text files found in 'dir'");
    assert_eq!(format_searching_files(3), "Searching in 3 file(s)...");
}

#[test]
fn query_is_checked_before_anything_is_read() {
    let mut config = Config::default();
    config.query = "[".to_string();
    assert!(check_query(&config).is_ok());
    config.use_regex = true;
    for case_sensitive in [true, false] {
        config.case_sensitive = case_sensitive;
        let checked = check_query(&config).unwrap_err();
        assert!(matches!(checked, GrepError::Search(_)));
        for context_lines in [0, 1, 5] {
            config.context_lines = context_lines;
            let reported = report(&config, "a [ b\n[").unwrap_err();
            assert_eq!(reported.to_string(), checked.to_string());
        }
    }
    config.query = "a|b".to_string();
    assert!(check_query(&config).is_ok());
}

#[test]
fn test_read_file_success() {
    let content = "Test content";
    let result = text_of(content.as_bytes());
    assert!(result.is_ok());
    assert_eq!(result.unwrap(), content);
}

#[test]
fn test_read_file_empty() {
    let result = text_of(b"");
    assert!(result.is_ok());
    assert_eq!(result.unwrap(), "");
}

#[test]
fn test_read_file_with_multiple_lines() {
    let content = "Line 1\nLine 2\nLine 3";
    let result = text_of(content.as_bytes());
    assert!(result.is_ok());
    assert_eq!(result.unwrap(), content);
}

#[test]
fn test_read_file_with_unicode() {
    let content = "こんにちは世界\n你好，世界\nHello, World!";
    let result = text_of(content.as_bytes());
    assert!(result.is_ok());
    assert_eq!(result.unwrap(), content);
}

#[test]
fn content_that_is_no_text_is_a_read_error() {
    let result = text_of(&[b'a', 0xff, b'b']);
    match result {
        Err(FileError::ReadError(message)) => {
            assert_eq!(message, "stream did not contain valid UTF-8")
        }
        _ => panic!("content that is no UTF-8 must be a read error"),
    }
    let mut long = vec![b'a'; 2000];
    long.push(0xc3);
    assert!(text_of(&long).is_err());
}
