//! Files: the errors of reading them, telling text from binary content, and
//! the walk over a directory tree that collects the text files below it.
//!
//! The library touches no file. A caller reads what the walk asks for and
//! hands it in: the kind of the root, the canonical path of each directory, the
//! entries of a directory, the first bytes of a file.

use vstd::prelude::*;
use vstd::utf8::{encode_utf8, valid_utf8};
use crate::search::record_views;

verus! {

/// Why a file could not be read or a directory not be walked.
#[derive(Debug)]
pub enum FileError {
    /// Nothing stands at the path.
    NotFound(String),
    /// The system refused an operation; the string is its message.
    IoError(String),
    /// The file was opened, but its contents could not be read as text.
    ReadError(String),
}

/// A `FileError` with the text of its string.
pub enum FileErrorView {
    NotFound(Seq<char>),
    IoError(Seq<char>),
    ReadError(Seq<char>),
}

impl View for FileError {
    type V = FileErrorView;

    open spec fn view(&self) -> FileErrorView {
        match self {
            FileError::NotFound(path) => FileErrorView::NotFound(path@),
            FileError::IoError(message) => FileErrorView::IoError(message@),
            FileError::ReadError(message) => FileErrorView::ReadError(message@),
        }
    }
}

impl FileErrorView {
    /// The error in words.
    pub open spec fn message(self) -> Seq<char> {
        match self {
            FileErrorView::NotFound(path) => "File not found: "@ + path,
            FileErrorView::IoError(message) => "IO error: "@ + message,
            FileErrorView::ReadError(message) => "Failed to read file: "@ + message,
        }
    }
}

impl FileError {
    /// The error in words.
    pub fn to_string(&self) -> (text: String)
        ensures
            text@ == self@.message(),
    {
        match self {
            FileError::NotFound(path) => String::from_str("File not found: ").concat(path.as_str()),
            FileError::IoError(message) => String::from_str("IO error: ").concat(message.as_str()),
            FileError::ReadError(message) => String::from_str("Failed to read file: ").concat(
                message.as_str(),
            ),
        }
    }
}

/// `core::str::Utf8Error`, the error of `core::str::from_utf8`; nothing is
/// seen inside it.
#[verifier::external_type_specification]
#[verifier::external_body]
pub struct ExUtf8Error(core::str::Utf8Error);

/// `core::str::from_utf8` accepts the byte sequences that are well-formed
/// UTF-8, and no others; the string slice it gives is encoded by these bytes.
pub assume_specification[ core::str::from_utf8 ](v: &[u8]) -> (res: Result<
    &str,
    core::str::Utf8Error,
>)
    ensures
        res is Ok <==> valid_utf8(v@),
        res matches Ok(s) ==> encode_utf8(s@) == v@,
;

/// The number of bytes at the start of a file by which it is judged.
pub const SAMPLE_SIZE: usize = 1024;

/// The bytes by which content is judged: its first `SAMPLE_SIZE` bytes, or
/// all of it where it is shorter.
pub open spec fn sample_of(content: Seq<u8>) -> Seq<u8> {
    if content.len() <= SAMPLE_SIZE {
        content
    } else {
        content.take(SAMPLE_SIZE as int)
    }
}

/// Content counts as text when its sample is well-formed UTF-8. Empty content
/// is text. What follows the sample is not looked at, and a sample that ends
/// within a character of several bytes is not text.
pub open spec fn text_content(content: Seq<u8>) -> bool {
    valid_utf8(sample_of(content))
}

/// Whether content counts as text, judged by its first `SAMPLE_SIZE` bytes.
pub fn is_text(content: &[u8]) -> (text: bool)
    ensures
        text == text_content(content@),
{
    let sample = if content.len() <= SAMPLE_SIZE {
        content
    } else {
        vstd::slice::slice_subrange(content, 0, SAMPLE_SIZE)
    };
    assert(sample@ =~= sample_of(content@));
    core::str::from_utf8(sample).is_ok()
}

/// What is told of content that is no text.
pub open spec fn not_text() -> Seq<char> {
    "stream did not contain valid UTF-8"@
}

/// The text that the bytes of a file encode. Fails with a read error where
/// they are not well-formed UTF-8, whatever else could be read.
pub fn text_of(content: &[u8]) -> (res: Result<String, FileError>)
    ensures
        match res {
            Ok(text) => valid_utf8(content@) && encode_utf8(text@) == content@,
            Err(e) => !valid_utf8(content@) && e@ == FileErrorView::ReadError(not_text()),
        },
{
    match core::str::from_utf8(content) {
        Ok(text) => Ok(text.to_owned()),
        Err(_) => Err(FileError::ReadError(String::from_str("stream did not contain valid UTF-8"))),
    }
}

/// The names of the directories that a walk passes over: those of version
/// control and of build output and dependencies.
pub open spec fn ignored_names() -> Seq<Seq<char>> {
    seq![".git"@, ".svn"@, ".hg"@, "target"@, "node_modules"@]
}

/// Whether a walk passes over a directory of this name.
pub fn is_ignored(name: &str) -> (ignored: bool)
    ensures
        ignored == ignored_names().contains(name@),
{
    let name = String::from_str(name);
    let ignored = name == String::from_str(".git") || name == String::from_str(".svn") || name
        == String::from_str(".hg") || name == String::from_str("target") || name
        == String::from_str("node_modules");
    proof {
        let names = ignored_names();
        if ignored {
            let k = if name@ == ".git"@ {
                0int
            } else if name@ == ".svn"@ {
                1
            } else if name@ == ".hg"@ {
                2
            } else if name@ == "target"@ {
                3
            } else {
                4
            };
            assert(names[k] == name@);
        } else if names.contains(name@) {
            let k = choose|k: int| 0 <= k < names.len() && names[k] == name@;
            assert(false);
        }
    }
    ignored
}

/// One shown line of one file.
#[derive(Debug, PartialEq, Eq)]
pub struct FileMatch {
    /// The path of the file.
    pub path: String,
    /// The number of the line in the file, counted from 1.
    pub line_num: usize,
    /// The text of the line.
    pub line: String,
    /// Whether the line matches, or is shown for context only.
    pub is_match: bool,
}

/// A `FileMatch` with the text of its strings.
pub struct FileMatchView {
    pub path: Seq<char>,
    pub record: (nat, Seq<char>, bool),
}

impl View for FileMatch {
    type V = FileMatchView;

    open spec fn view(&self) -> FileMatchView {
        FileMatchView { path: self.path@, record: (self.line_num as nat, self.line@, self.is_match) }
    }
}

/// The views of the shown lines of files.
pub open spec fn match_views(found: Seq<FileMatch>) -> Seq<FileMatchView> {
    Seq::new(found.len(), |k: int| found[k]@)
}

/// The shown lines of one file, each with the path of the file.
pub open spec fn in_file(path: Seq<char>, records: Seq<(nat, Seq<char>, bool)>) -> Seq<FileMatchView> {
    Seq::new(records.len(), |k: int| FileMatchView { path, record: records[k] })
}

/// Puts the path of their file to the shown lines of a search, and appends
/// them to the lines found in other files.
pub fn add_file_matches(found: &mut Vec<FileMatch>, path: &str, records: &Vec<(usize, &str, bool)>)
    ensures
        match_views(final(found)@) == match_views(old(found)@) + in_file(path@, record_views(records@)),
{
    let ghost start = match_views(found@);
    let ghost added = in_file(path@, record_views(records@));
    let mut k: usize = 0;
    assert(match_views(found@) =~= start + added.take(0));
    while k < records.len()
        invariant
            k <= records.len(),
            added == in_file(path@, record_views(records@)),
            match_views(found@) == start + added.take(k as int),
        decreases records.len() - k,
    {
        let ghost before = match_views(found@);
        let item = FileMatch {
            path: String::from_str(path),
            line_num: records[k].0,
            line: String::from_str(records[k].1),
            is_match: records[k].2,
        };
        found.push(item);
        assert(match_views(found@) =~= before.push(added[k as int]));
        assert(match_views(found@) =~= start + added.take(k + 1));
        k = k + 1;
    }
    assert(added.take(k as int) =~= added);
}

} // verus!
