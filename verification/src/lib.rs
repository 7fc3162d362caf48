//! A line-oriented text search engine.
//!
//! The library finds the lines of a document that match a query, by substring
//! or by regular expression, assembles the lines shown around each match,
//! decides which files of a directory tree are searched, and writes the
//! report. It reads no file and prints nothing: its callers do.

pub mod config;
pub mod file;
pub mod report;
pub mod search;
pub mod text;
pub mod walk;

use vstd::prelude::*;
use vstd::std_specs::convert::FromSpecImpl;
use crate::config::{Config, ConfigError, ConfigErrorView, ConfigView};
use crate::file::{add_file_matches, in_file, match_views, FileError, FileErrorView, FileMatch};
use crate::report::{context_report, plain_report, render_context, render_matches};
use crate::search::pattern::{compile, compiled, describe, diagnostic};
use crate::search::text::text_lines;
use crate::search::{
    context_records, matching_lines, query_flags, search_by, search_by_with_context_lines,
};
use crate::text::{decimal, push_decimal, texts};

verus! {

/// Why a run of the search failed.
#[derive(Debug)]
pub enum GrepError {
    /// The arguments give no configuration.
    Config(ConfigError),
    /// A file could not be read or a directory not be walked.
    File(FileError),
    /// The query is no regular expression; the string is the engine's message.
    Search(String),
    /// The system refused an operation; the string is its message.
    Io(String),
}

/// A `GrepError` with the text of its strings.
pub enum GrepErrorView {
    Config(ConfigErrorView),
    File(FileErrorView),
    Search(Seq<char>),
    Io(Seq<char>),
}

impl View for GrepError {
    type V = GrepErrorView;

    open spec fn view(&self) -> GrepErrorView {
        match self {
            GrepError::Config(e) => GrepErrorView::Config(e@),
            GrepError::File(e) => GrepErrorView::File(e@),
            GrepError::Search(message) => GrepErrorView::Search(message@),
            GrepError::Io(message) => GrepErrorView::Io(message@),
        }
    }
}

impl GrepErrorView {
    /// The error in words.
    pub open spec fn message(self) -> Seq<char> {
        match self {
            GrepErrorView::Config(e) => "Configuration error: "@ + e.message(),
            GrepErrorView::File(e) => "File error: "@ + e.message(),
            GrepErrorView::Search(message) => "Search error: "@ + message,
            GrepErrorView::Io(message) => "IO error: "@ + message,
        }
    }
}

impl GrepError {
    /// The error in words.
    pub fn to_string(&self) -> (text: String)
        ensures
            text@ == self@.message(),
    {
        match self {
            GrepError::Config(e) => String::from_str("Configuration error: ").concat(
                e.to_string().as_str(),
            ),
            GrepError::File(e) => String::from_str("File error: ").concat(e.to_string().as_str()),
            GrepError::Search(message) => String::from_str("Search error: ").concat(message.as_str()),
            GrepError::Io(message) => String::from_str("IO error: ").concat(message.as_str()),
        }
    }
}

impl From<ConfigError> for GrepError {
    fn from(e: ConfigError) -> (error: GrepError) {
        GrepError::Config(e)
    }
}

impl FromSpecImpl<ConfigError> for GrepError {
    open spec fn obeys_from_spec() -> bool {
        true
    }

    open spec fn from_spec(e: ConfigError) -> GrepError {
        GrepError::Config(e)
    }
}

impl From<FileError> for GrepError {
    fn from(e: FileError) -> (error: GrepError) {
        GrepError::File(e)
    }
}

impl FromSpecImpl<FileError> for GrepError {
    open spec fn obeys_from_spec() -> bool {
        true
    }

    open spec fn from_spec(e: FileError) -> GrepError {
        GrepError::File(e)
    }
}

impl From<regex::Error> for GrepError {
    /// The search error that carries the message of the engine.
    fn from(e: regex::Error) -> (error: GrepError)
        ensures
            error@ == GrepErrorView::Search(diagnostic(e)),
    {
        GrepError::Search(describe(&e))
    }
}

/// Which string carries the message of the engine is not fixed, only its
/// text: `from` states its result by its view.
impl FromSpecImpl<regex::Error> for GrepError {
    open spec fn obeys_from_spec() -> bool {
        false
    }

    open spec fn from_spec(e: regex::Error) -> GrepError {
        arbitrary()
    }
}

/// The line that tells what is searched for and where.
pub open spec fn announcement(config: ConfigView) -> Seq<char> {
    (if config.recursive {
        "Searching recursively for '"@
    } else {
        "Searching for '"@
    }) + config.query + "' in '"@ + config.filename + "'"@
}

/// Writes the line that tells what is searched for and where.
pub fn announce(config: &Config) -> (line: String)
    ensures
        line@ == announcement(config@),
{
    let mut line = if config.recursive {
        String::from_str("Searching recursively for '")
    } else {
        String::from_str("Searching for '")
    };
    line.append(config.query.as_str());
    line.append("' in '");
    line.append(config.filename.as_str());
    line.append("'");
    line
}

/// What is wrong with the query before anything is searched: the message of
/// the engine where the query is a regular expression that it rejects.
pub open spec fn query_fault(config: ConfigView) -> Option<Seq<char>> {
    if config.use_regex {
        match compiled(config.query, !config.case_sensitive) {
            Ok(_) => None,
            Err(message) => Some(message),
        }
    } else {
        None
    }
}

/// Checks the query once, before any file is looked for or read. Fails
/// where the query is a regular expression that the engine rejects, with the
/// engine's message.
pub fn check_query(config: &Config) -> (res: Result<(), GrepError>)
    ensures
        match query_fault(config@) {
            Some(message) => res is Err && res->Err_0@ == GrepErrorView::Search(message),
            None => res is Ok,
        },
{
    if config.use_regex {
        match compile(config.query.as_str(), !config.case_sensitive) {
            Ok(_) => Ok(()),
            Err(e) => Err(GrepError::from(e)),
        }
    } else {
        Ok(())
    }
}

/// The report of a search in one file with these contents: that of a search
/// with context where context lines are asked for, else that of a search
/// without; or the message of the engine where the query is a regular
/// expression that it rejects.
pub open spec fn report_of(config: ConfigView, contents: Seq<char>) -> Result<
    Seq<Seq<char>>,
    Seq<char>,
> {
    let doc = text_lines(contents);
    match query_flags(doc, config.query, config.case_sensitive, config.use_regex) {
        Ok(flags) => Ok(
            if config.context_lines > 0 {
                context_report(config.query, context_records(doc, flags, config.context_lines as nat))
            } else {
                plain_report(config.query, matching_lines(doc, flags))
            },
        ),
        Err(message) => Err(message),
    }
}

/// Searches the contents of one file as `config` says and writes the report.
/// Fails where the query is a regular expression that the engine rejects,
/// with the engine's message.
pub fn report(config: &Config, contents: &str) -> (res: Result<Vec<String>, GrepError>)
    ensures
        match report_of(config@, contents@) {
            Ok(lines) => res is Ok && texts(res->Ok_0@) == lines,
            Err(message) => res is Err && res->Err_0@ == GrepErrorView::Search(message),
        },
{
    let query = config.query.as_str();
    if config.context_lines > 0 {
        match search_by_with_context_lines(
            query,
            contents,
            config.case_sensitive,
            config.use_regex,
            config.context_lines,
        ) {
            Ok(found) => Ok(render_context(query, &found)),
            Err(e) => Err(GrepError::from(e)),
        }
    } else {
        match search_by(query, contents, config.case_sensitive, config.use_regex) {
            Ok(found) => Ok(render_matches(query, &found)),
            Err(e) => Err(GrepError::from(e)),
        }
    }
}

/// The line that tells that a directory holds no text file.
pub open spec fn nothing_to_search(config: ConfigView) -> Seq<char> {
    "No text files found in '"@ + config.filename + "'"@
}

/// Writes the line that tells that a directory holds no text file.
pub fn format_nothing_to_search(config: &Config) -> (line: String)
    ensures
        line@ == nothing_to_search(config@),
{
    let mut line = String::from_str("No text files found in '");
    line.append(config.filename.as_str());
    line.append("'");
    line
}

/// The line that tells how many files are searched.
pub open spec fn searching_files(files: nat) -> Seq<char> {
    "Searching in "@ + decimal(files) + " file(s)..."@
}

/// Writes the line that tells how many files are searched.
pub fn format_searching_files(files: usize) -> (line: String)
    ensures
        line@ == searching_files(files as nat),
{
    let mut line = String::from_str("Searching in ");
    push_decimal(&mut line, files);
    line.append(" file(s)...");
    line
}

/// What a search in several files has brought so far: the shown lines of the
/// files that were searched, and the files that were passed over, each with
/// the error that made it so.
pub struct Findings {
    /// The shown lines, file by file.
    pub matches: Vec<FileMatch>,
    /// The paths of the files passed over, each with its error.
    pub failures: Vec<(String, GrepError)>,
}

/// The paths and errors of the files passed over.
pub open spec fn failure_views(failures: Seq<(String, GrepError)>) -> Seq<(Seq<char>, GrepErrorView)> {
    Seq::new(failures.len(), |k: int| (failures[k].0@, failures[k].1@))
}

/// The shown lines of a file with these contents, searched as `config` says;
/// or the message of the engine where the query is a regular expression that
/// it rejects.
pub open spec fn shown_in(config: ConfigView, contents: Seq<char>) -> Result<
    Seq<(nat, Seq<char>, bool)>,
    Seq<char>,
> {
    let doc = text_lines(contents);
    match query_flags(doc, config.query, config.case_sensitive, config.use_regex) {
        Ok(flags) => Ok(context_records(doc, flags, config.context_lines as nat)),
        Err(message) => Err(message),
    }
}

impl Findings {
    /// Nothing found, nothing passed over.
    pub fn new() -> (findings: Findings)
        ensures
            findings.matches@.len() == 0,
            findings.failures@.len() == 0,
    {
        Findings { matches: Vec::new(), failures: Vec::new() }
    }

    /// Takes in one file: what reading it gave. Contents are searched as
    /// `config` says and their shown lines appended. A file that could not
    /// be read, or searched, is passed over: it is noted with its error, and
    /// what was found in other files stays.
    pub fn add_file(&mut self, path: &str, read: Result<String, FileError>, config: &Config)
        ensures
            match read {
                Ok(contents) => match shown_in(config@, contents@) {
                    Ok(records) => {
                        &&& match_views(final(self).matches@) == match_views(old(self).matches@)
                            + in_file(path@, records)
                        &&& final(self).failures@ == old(self).failures@
                    },
                    Err(message) => {
                        &&& final(self).matches@ == old(self).matches@
                        &&& failure_views(final(self).failures@) == failure_views(
                            old(self).failures@,
                        ).push((path@, GrepErrorView::Search(message)))
                    },
                },
                Err(e) => {
                    &&& final(self).matches@ == old(self).matches@
                    &&& failure_views(final(self).failures@) == failure_views(old(self).failures@).push(
                        (path@, GrepErrorView::File(e@)),
                    )
                },
            },
    {
        match read {
            Ok(contents) => {
                match search_by_with_context_lines(
                    config.query.as_str(),
                    contents.as_str(),
                    config.case_sensitive,
                    config.use_regex,
                    config.context_lines,
                ) {
                    Ok(records) => {
                        add_file_matches(&mut self.matches, path, &records);
                    },
                    Err(e) => {
                        let ghost before = failure_views(self.failures@);
                        self.failures.push((String::from_str(path), GrepError::from(e)));
                        assert(failure_views(self.failures@) =~= before.push(
                            (path@, GrepErrorView::Search(diagnostic(e))),
                        ));
                    },
                }
            },
            Err(e) => {
                let ghost before = failure_views(self.failures@);
                self.failures.push((String::from_str(path), GrepError::File(e)));
                assert(failure_views(self.failures@) =~= before.push(
                    (path@, GrepErrorView::File(e@)),
                ));
            },
        }
    }
}

/// A query is sound or faulty whatever is searched: where the check of the
/// query passes, every search of contents gives a report and shown lines;
/// where it fails, every search fails with the same message, and nothing is
/// reported or shown, whatever the contents and the context radius.
pub proof fn lemma_query_checked_once(config: ConfigView, contents: Seq<char>)
    ensures
        match query_fault(config) {
            Some(message) => {
                &&& report_of(config, contents) == Err::<Seq<Seq<char>>, Seq<char>>(message)
                &&& shown_in(config, contents) == Err::<Seq<(nat, Seq<char>, bool)>, Seq<char>>(
                    message,
                )
            },
            None => report_of(config, contents) is Ok && shown_in(config, contents) is Ok,
        },
{
}

} // verus!
