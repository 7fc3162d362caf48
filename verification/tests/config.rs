use minigrep::config::{Config, ConfigError};

#[test]
fn test_config_new_valid_args() {
    let args = vec!["program", "query", "filename"].into_iter().map(String::from);
    let config = Config::new(args.collect(), false).unwrap();

    assert_eq!(config.query, "query");
    assert_eq!(config.filename, "filename");
    assert!(!config.use_regex);
    assert_eq!(config.context_lines, 0);
}

#[test]
fn test_config_new_missing_query() {
    let args = vec!["program"].into_iter().map(String::from);
    let result = Config::new(args.collect(), false);

    assert!(result.is_err());
    assert!(matches!(result.unwrap_err(), ConfigError::MissingQuery));
}

#[test]
fn test_config_new_missing_filename() {
    let args = vec!["program", "query"].into_iter().map(String::from);
    let result = Config::new(args.collect(), false);

    assert!(result.is_err());
    assert!(matches!(result.unwrap_err(), ConfigError::MissingFilename));
}

#[test]
fn test_config_new_with_extra_args() {
    // Extra arguments should be ignored
    let args = vec!["program", "query", "filename", "extra"].into_iter().map(String::from);
    let config = Config::new(args.collect(), false).unwrap();

    assert_eq!(config.query, "query");
    assert_eq!(config.filename, "filename");
}

#[test]
fn test_config_case_sensitive_default() {
    // By default, case_sensitive should be true if the environment does not ask otherwise
    let args = vec!["program", "query", "filename"].into_iter().map(String::from);

    let config = Config::new(args.collect(), false).unwrap();

    assert!(config.case_sensitive);
    assert!(!config.use_regex);
}

#[test]
fn test_config_case_sensitive_with_env_var() {
    // When the environment asks for it, case_sensitive should be false
    let args = vec!["program", "query", "filename"].into_iter().map(String::from);

    let config = Config::new(args.collect(), true).unwrap();

    assert!(!config.case_sensitive);
    assert!(!config.use_regex);
}

#[test]
fn test_config_with_empty_query() {
    // Empty query should be valid
    let args = vec!["program", "", "filename"].into_iter().map(String::from);
    let config = Config::new(args.collect(), false).unwrap();

    assert_eq!(config.query, "");
    assert_eq!(config.filename, "filename");
}

#[test]
fn test_config_with_special_characters() {
    // Query with special characters should be valid
    let args = vec!["program", ".*+?^${}()|[]\\", "filename"].into_iter().map(String::from);
    let config = Config::new(args.collect(), false).unwrap();

    assert_eq!(config.query, ".*+?^${}()|[]\\");
    assert_eq!(config.filename, "filename");
}

#[test]
fn test_config_with_unicode_characters() {
    // Query with Unicode characters should be valid
    let args = vec!["program", "こんにちは世界", "filename"].into_iter().map(String::from);
    let config = Config::new(args.collect(), false).unwrap();

    assert_eq!(config.query, "こんにちは世界");
    assert_eq!(config.filename, "filename");
}

#[test]
fn test_config_with_ignore_case_short_flag() {
    // Test with -i flag
    let args = vec!["program", "-i", "query", "filename"].into_iter().map(String::from);
    let config = Config::new(args.collect(), false).unwrap();

    assert_eq!(config.query, "query");
    assert_eq!(config.filename, "filename");
    assert!(!config.case_sensitive);
}

#[test]
fn test_config_with_ignore_case_long_flag() {
    // Test with --ignore-case flag
    let args = vec!["program", "--ignore-case", "query", "filename"].into_iter().map(String::from);
    let config = Config::new(args.collect(), false).unwrap();

    assert_eq!(config.query, "query");
    assert_eq!(config.filename, "filename");
    assert!(!config.case_sensitive);
}

#[test]
fn test_config_with_flag_in_different_position() {
    // Test with flag in a different position
    let args = vec!["program", "query", "-i", "filename"].into_iter().map(String::from);
    let config = Config::new(args.collect(), false).unwrap();

    assert_eq!(config.query, "query");
    assert_eq!(config.filename, "filename");
    assert!(!config.case_sensitive);
}

#[test]
fn test_config_with_multiple_flags() {
    // Test with both short and long flags (should still work)
    let args = vec!["program", "-i", "--ignore-case", "query", "filename"].into_iter().map(String::from);
    let config = Config::new(args.collect(), false).unwrap();

    assert_eq!(config.query, "query");
    assert_eq!(config.filename, "filename");
    assert!(!config.case_sensitive);
}

#[test]
fn test_config_with_regex_short_flag() {
    // Test with -x flag
    let args = vec!["program", "-x", "pattern", "filename"].into_iter().map(String::from);
    let config = Config::new(args.collect(), false).unwrap();

    assert_eq!(config.query, "pattern");
    assert_eq!(config.filename, "filename");
    assert!(config.use_regex);
}

#[test]
fn test_config_with_regex_long_flag() {
    // Test with --regex flag
    let args = vec!["program", "--regex", "pattern", "filename"].into_iter().map(String::from);
    let config = Config::new(args.collect(), false).unwrap();

    assert_eq!(config.query, "pattern");
    assert_eq!(config.filename, "filename");
    assert!(config.use_regex);
}

#[test]
fn test_config_with_regex_and_ignore_case_flags() {
    // Test with both regex and ignore case flags
    let args = vec!["program", "-x", "-i", "pattern", "filename"].into_iter().map(String::from);
    let config = Config::new(args.collect(), false).unwrap();

    assert_eq!(config.query, "pattern");
    assert_eq!(config.filename, "filename");
    assert!(config.use_regex);
    assert!(!config.case_sensitive);
}

#[test]
fn test_config_with_context_short_flag() {
    // Test with -c flag
    let args = vec!["program", "-c", "query", "filename"].into_iter().map(String::from);
    let config = Config::new(args.collect(), false).unwrap();

    assert_eq!(config.query, "query");
    assert_eq!(config.filename, "filename");
    assert_eq!(config.context_lines, 2);
}

#[test]
fn test_config_with_context_long_flag() {
    // Test with --context flag
    let args = vec!["program", "--context", "query", "filename"].into_iter().map(String::from);
    let config = Config::new(args.collect(), false).unwrap();

    assert_eq!(config.query, "query");
    assert_eq!(config.filename, "filename");
    assert_eq!(config.context_lines, 2);
}

#[test]
fn test_config_with_context_value_short_flag() {
    // Test with -c=3 flag
    let args = vec!["program", "-c=3", "query", "filename"].into_iter().map(String::from);
    let config = Config::new(args.collect(), false).unwrap();

    assert_eq!(config.query, "query");
    assert_eq!(config.filename, "filename");
    assert_eq!(config.context_lines, 3);
}

#[test]
fn test_config_with_context_value_long_flag() {
    // Test with --context=5 flag
    let args = vec!["program", "--context=5", "query", "filename"].into_iter().map(String::from);
    let config = Config::new(args.collect(), false).unwrap();

    assert_eq!(config.query, "query");
    assert_eq!(config.filename, "filename");
    assert_eq!(config.context_lines, 5);
}

#[test]
fn test_config_with_multiple_flags_including_context() {
    // Test with -i, -x, and -c flags together
    let args = vec!["program", "-i", "-x", "-c", "query", "filename"].into_iter().map(String::from);
    let config = Config::new(args.collect(), false).unwrap();

    assert_eq!(config.query, "query");
    assert_eq!(config.filename, "filename");
    assert!(!config.case_sensitive);
    assert!(config.use_regex);
    assert_eq!(config.context_lines, 2);
}

#[test]
fn test_config_with_recursive_short_flag() {
    // Test with -r flag
    let args = vec!["program", "-r", "query", "filename"].into_iter().map(String::from);
    let config = Config::new(args.collect(), false).unwrap();

    assert_eq!(config.query, "query");
    assert_eq!(config.filename, "filename");
    assert!(config.recursive);
}

#[test]
fn test_config_with_recursive_long_flag() {
    // Test with --recursive flag
    let args = vec!["program", "--recursive", "query", "filename"].into_iter().map(String::from);
    let config = Config::new(args.collect(), false).unwrap();

    assert_eq!(config.query, "query");
    assert_eq!(config.filename, "filename");
    assert!(config.recursive);
}

#[test]
fn test_config_with_all_flags() {
    // Test with all flags together
    let args = vec!["program", "-i", "-x", "-r", "-c=3", "query", "filename"].into_iter().map(String::from);
    let config = Config::new(args.collect(), false).unwrap();

    assert_eq!(config.query, "query");
    assert_eq!(config.filename, "filename");
    assert!(!config.case_sensitive);
    assert!(config.use_regex);
    assert!(config.recursive);
    assert_eq!(config.context_lines, 3);
}
