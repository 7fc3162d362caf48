use minigrep::file::{is_ignored, is_text, FileError, SAMPLE_SIZE};
use minigrep::walk::{PathKind, Walker};

#[test]
fn empty_content_is_text() {
    assert!(is_text(b""));
}

#[test]
fn content_starting_with_invalid_utf8_is_not_text() {
    assert!(!is_text(&[0xff, 0xfe, 0x00, 0x41]));
    assert!(!is_text(&[0xc3, 0x28]));
}

#[test]
fn plain_and_multibyte_content_is_text() {
    assert!(is_text(b"hello\nworld\n"));
    assert!(is_text("こんにちは世界".as_bytes()));
}

#[test]
fn only_the_sample_is_judged() {
    let mut content = vec![b'a'; SAMPLE_SIZE];
    content.push(0xff);
    assert!(is_text(&content));

    let mut content = vec![b'a'; SAMPLE_SIZE - 1];
    content.push(0xff);
    assert!(!is_text(&content));
}

#[test]
fn sample_that_ends_within_a_character_is_not_text() {
    let mut content = vec![b'a'; SAMPLE_SIZE - 1];
    content.extend_from_slice("é".as_bytes());
    assert!(!is_text(&content));
    assert!(is_text(&content[1..]));
}

#[test]
fn ignored_directory_names() {
    assert!(is_ignored(".git"));
    assert!(is_ignored(".svn"));
    assert!(is_ignored(".hg"));
    assert!(is_ignored("target"));
    assert!(is_ignored("node_modules"));
    assert!(!is_ignored("src"));
    assert!(!is_ignored("Target"));
    assert!(!is_ignored(".gitignore"));
    assert!(!is_ignored(""));
}

#[test]
fn missing_root_is_not_found() {
    let result = Walker::new("nowhere", PathKind::Missing);
    match result {
        Err(FileError::NotFound(path)) => assert_eq!(path, "nowhere"),
        _ => panic!("a missing root must be reported"),
    }
}

#[test]
fn file_root_is_the_whole_result() {
    let mut walker = Walker::new("image.bin", PathKind::File).unwrap();
    assert_eq!(walker.next_directory(), None);
    assert_eq!(walker.into_files(), vec!["image.bin".to_string()]);
}

#[test]
fn other_root_gives_nothing() {
    let mut walker = Walker::new("socket", PathKind::Other).unwrap();
    assert_eq!(walker.next_directory(), None);
    assert!(walker.into_files().is_empty());
}

#[test]
fn walk_skips_ignored_directories() {
    let mut walker = Walker::new("proj", PathKind::Directory).unwrap();
    assert_eq!(walker.next_directory(), Some("proj".to_string()));
    assert!(walker.enter("/proj".to_string()));
    assert!(!walker.entry("proj/.git".to_string(), ".git", PathKind::Directory));
    assert!(!walker.entry("proj/target".to_string(), "target", PathKind::Directory));
    assert!(walker.entry("proj/a.txt".to_string(), "a.txt", PathKind::File));
    walker.sampled("proj/a.txt".to_string(), Some(b"alpha"));
    assert!(walker.entry("proj/b.txt".to_string(), "b.txt", PathKind::File));
    walker.sampled("proj/b.txt".to_string(), Some(b"beta"));
    assert!(!walker.entry("proj/docs".to_string(), "docs", PathKind::Directory));

    assert_eq!(walker.next_directory(), Some("proj/docs".to_string()));
    assert!(walker.enter("/proj/docs".to_string()));
    assert!(walker.entry("proj/docs/c.txt".to_string(), "c.txt", PathKind::File));
    walker.sampled("proj/docs/c.txt".to_string(), Some(b"gamma"));

    assert_eq!(walker.next_directory(), None);
    let mut files = walker.into_files();
    files.sort();
    assert_eq!(files, vec!["proj/a.txt", "proj/b.txt", "proj/docs/c.txt"]);
}

#[test]
fn walk_leaves_binary_and_unreadable_files_out() {
    let mut walker = Walker::new("d", PathKind::Directory).unwrap();
    assert_eq!(walker.next_directory(), Some("d".to_string()));
    assert!(walker.enter("/d".to_string()));
    assert!(walker.entry("d/pic.png".to_string(), "pic.png", PathKind::File));
    walker.sampled("d/pic.png".to_string(), Some(&[0x89, 0x50, 0x4e, 0x47]));
    assert!(walker.entry("d/locked".to_string(), "locked", PathKind::File));
    walker.sampled("d/locked".to_string(), None);
    assert!(walker.entry("d/empty".to_string(), "empty", PathKind::File));
    walker.sampled("d/empty".to_string(), Some(b""));
    assert_eq!(walker.into_files(), vec!["d/empty".to_string()]);
}

#[test]
fn walk_never_follows_symlinks() {
    let mut walker = Walker::new("d", PathKind::Directory).unwrap();
    assert_eq!(walker.next_directory(), Some("d".to_string()));
    assert!(walker.enter("/d".to_string()));
    assert!(!walker.entry("d/up".to_string(), "up", PathKind::Symlink));
    assert!(!walker.entry("d/link.txt".to_string(), "link.txt", PathKind::Symlink));
    assert!(!walker.entry("d/pipe".to_string(), "pipe", PathKind::Other));
    assert!(!walker.entry("d/gone".to_string(), "gone", PathKind::Missing));
    assert_eq!(walker.next_directory(), None);
    assert!(walker.into_files().is_empty());
}

#[test]
fn walk_enters_no_directory_twice() {
    let mut walker = Walker::new("d", PathKind::Directory).unwrap();
    assert_eq!(walker.next_directory(), Some("d".to_string()));
    assert!(walker.enter("/real/d".to_string()));
    assert!(!walker.entry("d/mount".to_string(), "mount", PathKind::Directory));
    assert!(!walker.entry("d/sub".to_string(), "sub", PathKind::Directory));

    assert_eq!(walker.next_directory(), Some("d/sub".to_string()));
    assert!(walker.enter("/real/d/sub".to_string()));
    assert_eq!(walker.next_directory(), Some("d/mount".to_string()));
    assert!(!walker.enter("/real/d".to_string()));
    assert!(!walker.enter("/real/d/sub".to_string()));
    assert_eq!(walker.next_directory(), None);
}

#[test]
fn walk_gives_the_same_files_when_run_again() {
    let run = || {
        let mut walker = Walker::new("d", PathKind::Directory).unwrap();
        walker.next_directory();
        walker.enter("/d".to_string());
        walker.entry("d/x".to_string(), "x", PathKind::File);
        walker.sampled("d/x".to_string(), Some(b"x"));
        walker.entry("d/y".to_string(), "y", PathKind::File);
        walker.sampled("d/y".to_string(), Some(&[0xff]));
        walker.into_files()
    };
    assert_eq!(run(), run());
    assert_eq!(run(), vec!["d/x".to_string()]);
}
