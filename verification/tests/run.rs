use minigrep::config::Config;
use minigrep::file::FileError;
use minigrep::report::render_files;
use minigrep::walk::{PathKind, Walker};
use minigrep::{announce, report, Findings, GrepError};

fn config(query: &str, filename: &str) -> Config {
    Config {
        query: query.to_string(),
        filename: filename.to_string(),
        case_sensitive: true,
        use_regex: false,
        context_lines: 0,
        recursive: false,
    }
}

#[test]
fn test_run_with_matches() {
    let contents = "Line with test\nAnother line\nTest again";
    let config = config("test", "test_run_with_matches.txt");

    let result = report(&config, contents);

    assert!(result.is_ok());
    assert_eq!(result.unwrap(), vec!["Found 1 match(es):", "1:Line with test"]);
}

#[test]
fn test_run_with_case_insensitive_matches() {
    let contents = "Line with TEST\nAnother line\nTest again";
    let mut config = config("test", "test_run_with_case_insensitive.txt");
    config.case_sensitive = false;

    let result = report(&config, contents);

    assert!(result.is_ok());
    assert_eq!(
        result.unwrap(),
        vec!["Found 2 match(es):", "1:Line with TEST", "3:Test again"]
    );
}

#[test]
fn test_run_with_no_matches() {
    let contents = "Line one\nLine two\nLine three";
    let config = config("nonexistent", "test_run_with_no_matches.txt");

    let result = report(&config, contents);

    assert!(result.is_ok());
    assert_eq!(result.unwrap(), vec!["No matches found for 'nonexistent'"]);
}

#[test]
fn test_run_with_empty_file() {
    let config = config("test", "test_run_with_empty_file.txt");

    let result = report(&config, "");

    assert!(result.is_ok());
    assert_eq!(result.unwrap(), vec!["No matches found for 'test'"]);
}

#[test]
fn test_run_with_empty_query() {
    let contents = "Line one\nLine two\nLine three";
    let config = config("", "test_run_with_empty_query.txt");

    let result = report(&config, contents);

    assert!(result.is_ok());
    assert_eq!(
        result.unwrap(),
        vec!["Found 3 match(es):", "1:Line one", "2:Line two", "3:Line three"]
    );
}

#[test]
fn test_run_file_not_found() {
    let config = config("test", "nonexistent_file.txt");
    let mut findings = Findings::new();

    findings.add_file(
        "nonexistent_file.txt",
        Err(FileError::NotFound("nonexistent_file.txt".to_string())),
        &config,
    );

    assert!(findings.matches.is_empty());
    assert_eq!(findings.failures.len(), 1);
    assert_eq!(findings.failures[0].0, "nonexistent_file.txt");
    let err = findings.failures[0].1.to_string();
    assert!(err.contains("File not found"));
    assert_eq!(err, "File error: File not found: nonexistent_file.txt");
}

#[test]
fn test_run_with_unicode_query() {
    let contents = "こんにちは世界\n你好，世界\nHello, World!";
    let config = config("世界", "test_run_with_unicode.txt");

    let result = report(&config, contents);

    assert!(result.is_ok());
    assert_eq!(
        result.unwrap(),
        vec!["Found 2 match(es):", "1:こんにちは世界", "2:你好，世界"]
    );
}

#[test]
fn test_run_with_regex() {
    let contents = "Line one\nLine two\nLine three\nAnother line";
    let mut config = config(r"\bline\b", "test_run_with_regex.txt");
    config.use_regex = true;

    let result = report(&config, contents);

    assert!(result.is_ok());
    assert_eq!(result.unwrap(), vec!["Found 1 match(es):", "4:Another line"]);
}

#[test]
fn test_run_with_regex_case_insensitive() {
    let contents = "Line one\nLine two\nLINE three\nAnother line";
    let mut config = config(r"line", "test_run_with_regex_case_insensitive.txt");
    config.use_regex = true;
    config.case_sensitive = false;

    let result = report(&config, contents);

    assert!(result.is_ok());
    assert_eq!(result.unwrap().len(), 5);
}

#[test]
fn test_run_with_invalid_regex() {
    let contents = "Line one\nLine two\nLine three";
    let mut config = config(r"[", "test_run_with_invalid_regex.txt");
    config.use_regex = true;

    let result = report(&config, contents);

    assert!(result.is_err());
    assert!(matches!(result.unwrap_err(), GrepError::Search(_)));
}

#[test]
fn test_run_with_context_lines() {
    let contents = "Line one\nLine two\nLine with test\nAnother line\nTest again\nFinal line";
    let mut config = config("test", "test_run_with_context.txt");
    config.context_lines = 1;

    let result = report(&config, contents);

    assert!(result.is_ok());
    assert_eq!(
        result.unwrap(),
        vec!["Found 1 match(es):", "2~Line two", "3:Line with test", "4~Another line"]
    );
}

#[test]
fn test_run_with_recursive_search() {
    let dir_name = "test_recursive_search_dir";
    let subdir_name = format!("{}/subdir", dir_name);
    let file1 = format!("{}/file1.txt", dir_name);
    let file2 = format!("{}/file2.txt", subdir_name);
    let mut config = config("test", dir_name);
    config.recursive = true;

    assert_eq!(
        announce(&config),
        "Searching recursively for 'test' in 'test_recursive_search_dir'"
    );

    let mut walker = Walker::new(dir_name, PathKind::Directory).unwrap();
    assert_eq!(walker.next_directory(), Some(dir_name.to_string()));
    assert!(walker.enter(format!("/tmp/{}", dir_name)));
    assert!(walker.entry(file1.clone(), "file1.txt", PathKind::File));
    walker.sampled(file1.clone(), Some(b"File one content\nwith test pattern"));
    assert!(!walker.entry(subdir_name.clone(), "subdir", PathKind::Directory));
    assert_eq!(walker.next_directory(), Some(subdir_name.clone()));
    assert!(walker.enter(format!("/tmp/{}", subdir_name)));
    assert!(walker.entry(file2.clone(), "file2.txt", PathKind::File));
    walker.sampled(file2.clone(), Some(b"File two content\nwith test in subdir"));
    assert_eq!(walker.next_directory(), None);
    let files = walker.into_files();
    assert_eq!(files, vec![file1.clone(), file2.clone()]);

    let mut findings = Findings::new();
    findings.add_file(&file1, Ok("File one content\nwith test pattern".to_string()), &config);
    findings.add_file(&file2, Ok("File two content\nwith test in subdir".to_string()), &config);
    assert!(findings.failures.is_empty());

    let lines = render_files(&config.query, files.len(), &findings.matches);
    assert_eq!(
        lines,
        vec![
            "Found 2 match(es) in 2 file(s):",
            "\nFile: test_recursive_search_dir/file1.txt",
            "2:with test pattern",
            "--",
            "\nFile: test_recursive_search_dir/subdir/file2.txt",
            "2:with test in subdir",
        ]
    );
}
