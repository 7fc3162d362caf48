//! Searching the lines of a document.

pub mod context;
pub mod laws;
pub mod lines;
pub mod pattern;
pub mod text;

use vstd::prelude::*;
use crate::search::context::{context_marks, mark_context};
use crate::search::laws::{lemma_all_marked, lemma_empty_query};
use crate::search::pattern::{compile, compiled, diagnostic, is_match, language};
use crate::search::lines::split_lines;
use crate::search::text::{
    contains_chars, contains_text, lowercase, text_lines, to_lowercase, views,
};
use crate::text::chars_of;

verus! {

/// The numbered lines of `doc` whose mark is set, among its first `k` lines, in
/// ascending order. Lines are numbered from 1.
pub open spec fn marked_below(doc: Seq<Seq<char>>, marks: Seq<bool>, k: nat) -> Seq<(nat, Seq<char>)>
    decreases k,
{
    if k == 0 {
        Seq::empty()
    } else if marks[k - 1] {
        marked_below(doc, marks, (k - 1) as nat).push((k, doc[k - 1]))
    } else {
        marked_below(doc, marks, (k - 1) as nat)
    }
}

/// The matching lines of a document, each with its number.
pub open spec fn matching_lines(doc: Seq<Seq<char>>, flags: Seq<bool>) -> Seq<(nat, Seq<char>)> {
    marked_below(doc, flags, doc.len())
}

/// All the lines of a document, each with its number.
pub open spec fn all_lines(doc: Seq<Seq<char>>) -> Seq<(nat, Seq<char>)> {
    Seq::new(doc.len(), |i: int| ((i + 1) as nat, doc[i]))
}

/// What a search hands out for one line: its number, counted from 1, and its text.
pub open spec fn numbered_views(found: Seq<(usize, &str)>) -> Seq<(nat, Seq<char>)> {
    Seq::new(found.len(), |k: int| (found[k].0 as nat, found[k].1@))
}

/// `flags` is what `predicate` answered on the lines of `text`, one after the other.
pub open spec fn judged<F: Fn(&str) -> bool>(
    predicate: F,
    text: Seq<char>,
    lines: Seq<&str>,
    flags: Seq<bool>,
) -> bool {
    &&& views(lines) == text_lines(text)
    &&& flags.len() == lines.len()
    &&& forall|i: int| 0 <= i < lines.len() ==> call_ensures(predicate, (#[trigger] lines[i],), flags[i])
}

/// Asks `predicate` about every line, in order.
pub fn scan<F: Fn(&str) -> bool>(lines: &Vec<&str>, predicate: &F) -> (flags: Vec<bool>)
    requires
        forall|i: int| 0 <= i < lines.len() ==> call_requires(*predicate, (#[trigger] lines[i],)),
    ensures
        flags.len() == lines.len(),
        forall|i: int| 0 <= i < lines.len() ==> call_ensures(*predicate, (#[trigger] lines[i],), flags[i]),
{
    let mut flags: Vec<bool> = Vec::new();
    let mut i: usize = 0;
    while i < lines.len()
        invariant
            i <= lines.len(),
            flags.len() == i,
            forall|k: int| 0 <= k < lines.len() ==> call_requires(*predicate, (#[trigger] lines[k],)),
            forall|k: int| 0 <= k < i ==> call_ensures(*predicate, (#[trigger] lines[k],), flags[k]),
        decreases lines.len() - i,
    {
        let answer = predicate(lines[i]);
        flags.push(answer);
        i = i + 1;
    }
    flags
}

/// The lines whose flag is set, each with its number.
pub fn select_matches<'a>(lines: &Vec<&'a str>, flags: &Vec<bool>) -> (found: Vec<(usize, &'a str)>)
    requires
        lines.len() == flags.len(),
    ensures
        numbered_views(found@) == matching_lines(views(lines@), flags@),
{
    let mut found: Vec<(usize, &'a str)> = Vec::new();
    let mut i: usize = 0;
    while i < lines.len()
        invariant
            i <= lines.len(),
            lines.len() == flags.len(),
            numbered_views(found@) == marked_below(views(lines@), flags@, i as nat),
        decreases lines.len() - i,
    {
        if flags[i] {
            let ghost before = found@;
            found.push((i + 1, lines[i]));
            assert(numbered_views(found@) =~= numbered_views(before).push(
                ((i + 1) as nat, lines[i as int]@),
            ));
        }
        i = i + 1;
    }
    found
}

/// Searches for the lines of `contents` that `predicate` accepts.
pub fn search_with<'a, F>(contents: &'a str, predicate: F) -> (found: Vec<(usize, &'a str)>) where
    F: Fn(&str) -> bool,

    requires
        forall|line: &str| call_requires(predicate, (line,)),
    ensures
        exists|lines: Seq<&str>, flags: Seq<bool>|
            judged(predicate, contents@, lines, flags) && numbered_views(found@) == matching_lines(
                text_lines(contents@),
                flags,
            ),
{
    let lines = split_lines(contents);
    let flags = scan(&lines, &predicate);
    let found = select_matches(&lines, &flags);
    assert(judged(predicate, contents@, lines@, flags@));
    found
}

/// One flag per line: whether `query` stands in the line.
pub open spec fn literal_flags(doc: Seq<Seq<char>>, query: Seq<char>) -> Seq<bool> {
    Seq::new(doc.len(), |i: int| contains_text(doc[i], query))
}

/// One flag per line: whether the lowercase form of `query` stands in the
/// lowercase form of the line.
pub open spec fn folded_flags(doc: Seq<Seq<char>>, query: Seq<char>) -> Seq<bool> {
    Seq::new(doc.len(), |i: int| contains_text(lowercase(doc[i]), lowercase(query)))
}

/// One flag per line: whether the line is one of `texts`.
pub open spec fn language_flags(doc: Seq<Seq<char>>, texts: Set<Seq<char>>) -> Seq<bool> {
    Seq::new(doc.len(), |i: int| texts.contains(doc[i]))
}

/// The shown lines of `doc` among its first `k` lines, in ascending order:
/// each with its number, counted from 1, its text, and whether it matches.
pub open spec fn shown_below(doc: Seq<Seq<char>>, flags: Seq<bool>, marks: Seq<bool>, k: nat) -> Seq<
    (nat, Seq<char>, bool),
>
    decreases k,
{
    if k == 0 {
        Seq::empty()
    } else if marks[k - 1] {
        shown_below(doc, flags, marks, (k - 1) as nat).push((k, doc[k - 1], flags[k - 1]))
    } else {
        shown_below(doc, flags, marks, (k - 1) as nat)
    }
}

/// The lines shown for a document whose matching lines are flagged: every
/// line within `radius` lines of a matching line, once, in ascending order.
pub open spec fn context_records(doc: Seq<Seq<char>>, flags: Seq<bool>, radius: nat) -> Seq<
    (nat, Seq<char>, bool),
> {
    shown_below(doc, flags, context_marks(flags, radius), doc.len())
}

/// What a search with context hands out for one line: its number, its text,
/// and whether it matches.
pub open spec fn record_views(found: Seq<(usize, &str, bool)>) -> Seq<(nat, Seq<char>, bool)> {
    Seq::new(found.len(), |k: int| (found[k].0 as nat, found[k].1@, found[k].2))
}

/// The lines shown for a context radius, given one flag per line.
pub fn assemble<'a>(lines: &Vec<&'a str>, flags: &Vec<bool>, radius: usize) -> (found: Vec<
    (usize, &'a str, bool),
>)
    requires
        lines.len() == flags.len(),
    ensures
        record_views(found@) == context_records(views(lines@), flags@, radius as nat),
{
    let marks = mark_context(flags, radius);
    let mut found: Vec<(usize, &'a str, bool)> = Vec::new();
    let mut i: usize = 0;
    while i < lines.len()
        invariant
            i <= lines.len(),
            lines.len() == flags.len(),
            marks@ == context_marks(flags@, radius as nat),
            record_views(found@) == shown_below(views(lines@), flags@, marks@, i as nat),
        decreases lines.len() - i,
    {
        if marks[i] {
            let ghost before = found@;
            found.push((i + 1, lines[i], flags[i]));
            assert(record_views(found@) =~= record_views(before).push(
                ((i + 1) as nat, lines[i as int]@, flags[i as int]),
            ));
        }
        i = i + 1;
    }
    found
}

/// Searches for the lines of `contents` that `predicate` accepts, and shows
/// `context_lines` lines before and after each of them.
pub fn search_with_context<'a, F>(contents: &'a str, context_lines: usize, predicate: F) -> (found:
    Vec<(usize, &'a str, bool)>) where F: Fn(&str) -> bool
    requires
        forall|line: &str| call_requires(predicate, (line,)),
    ensures
        exists|lines: Seq<&str>, flags: Seq<bool>|
            judged(predicate, contents@, lines, flags) && record_views(found@) == context_records(
                text_lines(contents@),
                flags,
                context_lines as nat,
            ),
{
    let lines = split_lines(contents);
    let flags = scan(&lines, &predicate);
    let found = assemble(&lines, &flags, context_lines);
    assert(judged(predicate, contents@, lines@, flags@));
    found
}

/// Flags the lines in which `query` stands, character for character.
fn literal_scan(lines: &Vec<&str>, query: &str) -> (flags: Vec<bool>)
    ensures
        flags@ == literal_flags(views(lines@), query@),
{
    let needle = chars_of(query);
    let predicate = |line: &str| -> (b: bool)
        ensures
            b == contains_text(line@, query@),
        {
            let text = chars_of(line);
            contains_chars(&text, &needle)
        };
    let flags = scan(lines, &predicate);
    assert(flags@ =~= literal_flags(views(lines@), query@));
    flags
}

/// Flags the lines whose lowercase form holds the lowercase form of `query`.
/// The empty query flags every line.
fn folded_scan(lines: &Vec<&str>, query: &str) -> (flags: Vec<bool>)
    ensures
        flags@ == folded_flags(views(lines@), query@),
        query@.len() == 0 ==> forall|i: int| 0 <= i < flags.len() ==> flags[i],
{
    let lower_query = to_lowercase(query);
    let needle = chars_of(lower_query.as_str());
    proof {
        if query@.len() == 0 {
            lemma_empty_query(views(lines@));
            assert(lowercase(query@) =~= Seq::<char>::empty());
        }
    }
    let predicate = |line: &str| -> (b: bool)
        ensures
            b == contains_text(lowercase(line@), lowercase(query@)),
        {
            let lower_line = to_lowercase(line);
            let text = chars_of(lower_line.as_str());
            contains_chars(&text, &needle)
        };
    let flags = scan(lines, &predicate);
    assert(flags@ =~= folded_flags(views(lines@), query@));
    flags
}

/// Flags the lines in which a compiled expression finds a match.
fn regex_scan(lines: &Vec<&str>, re: &regex::Regex) -> (flags: Vec<bool>)
    ensures
        flags@ == language_flags(views(lines@), language(*re)),
{
    let predicate = |line: &str| -> (b: bool)
        ensures
            b == language(*re).contains(line@),
        { is_match(re, line) };
    let flags = scan(lines, &predicate);
    assert(flags@ =~= language_flags(views(lines@), language(*re)));
    flags
}

/// Searches for the lines of `contents` in which `query` stands, character
/// for character.
pub fn search<'a>(query: &str, contents: &'a str) -> (found: Vec<(usize, &'a str)>)
    ensures
        numbered_views(found@) == matching_lines(
            text_lines(contents@),
            literal_flags(text_lines(contents@), query@),
        ),
{
    let lines = split_lines(contents);
    let flags = literal_scan(&lines, query);
    select_matches(&lines, &flags)
}

/// Searches for the lines of `contents` in which `query` stands when both are
/// put in lowercase. The empty query finds every line.
pub fn search_case_insensitive<'a>(query: &str, contents: &'a str) -> (found: Vec<(usize, &'a str)>)
    ensures
        numbered_views(found@) == matching_lines(
            text_lines(contents@),
            folded_flags(text_lines(contents@), query@),
        ),
        query@.len() == 0 ==> numbered_views(found@) == all_lines(text_lines(contents@)),
{
    let lines = split_lines(contents);
    let flags = folded_scan(&lines, query);
    proof {
        if query@.len() == 0 {
            lemma_all_marked(views(lines@), flags@, lines@.len());
            assert(all_lines(views(lines@)).take(lines@.len() as int) =~= all_lines(views(lines@)));
        }
    }
    select_matches(&lines, &flags)
}

/// Searches with a compiled expression, or hands on the error of compiling it.
fn search_compiled<'a>(compiling: Result<regex::Regex, regex::Error>, contents: &'a str) -> (res:
    Result<Vec<(usize, &'a str)>, regex::Error>)
    ensures
        match compiling {
            Ok(re) => res is Ok && numbered_views(res->Ok_0@) == matching_lines(
                text_lines(contents@),
                language_flags(text_lines(contents@), language(re)),
            ),
            Err(e) => res == Err::<Vec<(usize, &'a str)>, regex::Error>(e),
        },
{
    match compiling {
        Ok(re) => {
            let lines = split_lines(contents);
            let flags = regex_scan(&lines, &re);
            Ok(select_matches(&lines, &flags))
        },
        Err(e) => Err(e),
    }
}

/// Searches for the lines of `contents` in which the regular expression
/// `pattern` finds a match. Fails where the engine rejects the pattern, with
/// the engine's error.
pub fn search_regex<'a>(pattern: &str, contents: &'a str) -> (res: Result<
    Vec<(usize, &'a str)>,
    regex::Error,
>)
    ensures
        match compiled(pattern@, false) {
            Ok(texts) => res is Ok && numbered_views(res->Ok_0@) == matching_lines(
                text_lines(contents@),
                language_flags(text_lines(contents@), texts),
            ),
            Err(message) => res is Err && diagnostic(res->Err_0) == message,
        },
{
    search_compiled(compile(pattern, false), contents)
}

/// Searches for the lines of `contents` in which the regular expression
/// `pattern` finds a match when case is ignored. Fails where the engine
/// rejects the pattern, with the engine's error.
pub fn search_regex_case_insensitive<'a>(pattern: &str, contents: &'a str) -> (res: Result<
    Vec<(usize, &'a str)>,
    regex::Error,
>)
    ensures
        match compiled(pattern@, true) {
            Ok(texts) => res is Ok && numbered_views(res->Ok_0@) == matching_lines(
                text_lines(contents@),
                language_flags(text_lines(contents@), texts),
            ),
            Err(message) => res is Err && diagnostic(res->Err_0) == message,
        },
{
    search_compiled(compile(pattern, true), contents)
}

/// Searches for the lines of `contents` in which `query` stands, character
/// for character, and shows `context_lines` lines before and after each.
pub fn search_with_context_lines<'a>(query: &str, contents: &'a str, context_lines: usize) -> (found:
    Vec<(usize, &'a str, bool)>)
    ensures
        record_views(found@) == context_records(
            text_lines(contents@),
            literal_flags(text_lines(contents@), query@),
            context_lines as nat,
        ),
{
    let lines = split_lines(contents);
    let flags = literal_scan(&lines, query);
    assemble(&lines, &flags, context_lines)
}

/// Searches for the lines of `contents` in which `query` stands when both are
/// put in lowercase, and shows `context_lines` lines before and after each.
pub fn search_case_insensitive_with_context_lines<'a>(
    query: &str,
    contents: &'a str,
    context_lines: usize,
) -> (found: Vec<(usize, &'a str, bool)>)
    ensures
        record_views(found@) == context_records(
            text_lines(contents@),
            folded_flags(text_lines(contents@), query@),
            context_lines as nat,
        ),
{
    let lines = split_lines(contents);
    let flags = folded_scan(&lines, query);
    assemble(&lines, &flags, context_lines)
}

/// Searches with context with a compiled expression, or hands on the error of
/// compiling it.
fn search_compiled_with_context<'a>(
    compiling: Result<regex::Regex, regex::Error>,
    contents: &'a str,
    context_lines: usize,
) -> (res: Result<Vec<(usize, &'a str, bool)>, regex::Error>)
    ensures
        match compiling {
            Ok(re) => res is Ok && record_views(res->Ok_0@) == context_records(
                text_lines(contents@),
                language_flags(text_lines(contents@), language(re)),
                context_lines as nat,
            ),
            Err(e) => res == Err::<Vec<(usize, &'a str, bool)>, regex::Error>(e),
        },
{
    match compiling {
        Ok(re) => {
            let lines = split_lines(contents);
            let flags = regex_scan(&lines, &re);
            Ok(assemble(&lines, &flags, context_lines))
        },
        Err(e) => Err(e),
    }
}

/// Searches for the lines of `contents` in which the regular expression
/// `pattern` finds a match, and shows `context_lines` lines before and after
/// each. Fails where the engine rejects the pattern, with the engine's error.
pub fn search_regex_with_context_lines<'a>(
    pattern: &str,
    contents: &'a str,
    context_lines: usize,
) -> (res: Result<Vec<(usize, &'a str, bool)>, regex::Error>)
    ensures
        match compiled(pattern@, false) {
            Ok(texts) => res is Ok && record_views(res->Ok_0@) == context_records(
                text_lines(contents@),
                language_flags(text_lines(contents@), texts),
                context_lines as nat,
            ),
            Err(message) => res is Err && diagnostic(res->Err_0) == message,
        },
{
    search_compiled_with_context(compile(pattern, false), contents, context_lines)
}

/// Searches for the lines of `contents` in which the regular expression
/// `pattern` finds a match when case is ignored, and shows `context_lines`
/// lines before and after each. Fails where the engine rejects the pattern,
/// with the engine's error.
pub fn search_regex_case_insensitive_with_context_lines<'a>(
    pattern: &str,
    contents: &'a str,
    context_lines: usize,
) -> (res: Result<Vec<(usize, &'a str, bool)>, regex::Error>)
    ensures
        match compiled(pattern@, true) {
            Ok(texts) => res is Ok && record_views(res->Ok_0@) == context_records(
                text_lines(contents@),
                language_flags(text_lines(contents@), texts),
                context_lines as nat,
            ),
            Err(message) => res is Err && diagnostic(res->Err_0) == message,
        },
{
    search_compiled_with_context(compile(pattern, true), contents, context_lines)
}

/// One flag per line for a query read as the options say: as a regular
/// expression or as plain text, with or without regard to case; or the
/// message of the engine where the query is a regular expression that it
/// rejects.
pub open spec fn query_flags(
    doc: Seq<Seq<char>>,
    query: Seq<char>,
    case_sensitive: bool,
    use_regex: bool,
) -> Result<Seq<bool>, Seq<char>> {
    if use_regex {
        match compiled(query, !case_sensitive) {
            Ok(texts) => Ok(language_flags(doc, texts)),
            Err(message) => Err(message),
        }
    } else if case_sensitive {
        Ok(literal_flags(doc, query))
    } else {
        Ok(folded_flags(doc, query))
    }
}

/// Searches for the lines of `contents` that match `query`, read as the
/// options say. Fails where the query is a regular expression that the
/// engine rejects, with the engine's error.
pub fn search_by<'a>(query: &str, contents: &'a str, case_sensitive: bool, use_regex: bool) -> (res:
    Result<Vec<(usize, &'a str)>, regex::Error>)
    ensures
        match query_flags(text_lines(contents@), query@, case_sensitive, use_regex) {
            Ok(flags) => res is Ok && numbered_views(res->Ok_0@) == matching_lines(
                text_lines(contents@),
                flags,
            ),
            Err(message) => res is Err && diagnostic(res->Err_0) == message,
        },
{
    if use_regex {
        if case_sensitive {
            search_regex(query, contents)
        } else {
            search_regex_case_insensitive(query, contents)
        }
    } else if case_sensitive {
        Ok(search(query, contents))
    } else {
        Ok(search_case_insensitive(query, contents))
    }
}

/// Searches for the lines of `contents` that match `query`, read as the
/// options say, and shows `context_lines` lines before and after each. Fails
/// where the query is a regular expression that the engine rejects, with the
/// engine's error.
pub fn search_by_with_context_lines<'a>(
    query: &str,
    contents: &'a str,
    case_sensitive: bool,
    use_regex: bool,
    context_lines: usize,
) -> (res: Result<Vec<(usize, &'a str, bool)>, regex::Error>)
    ensures
        match query_flags(text_lines(contents@), query@, case_sensitive, use_regex) {
            Ok(flags) => res is Ok && record_views(res->Ok_0@) == context_records(
                text_lines(contents@),
                flags,
                context_lines as nat,
            ),
            Err(message) => res is Err && diagnostic(res->Err_0) == message,
        },
{
    if use_regex {
        if case_sensitive {
            search_regex_with_context_lines(query, contents, context_lines)
        } else {
            search_regex_case_insensitive_with_context_lines(query, contents, context_lines)
        }
    } else if case_sensitive {
        Ok(search_with_context_lines(query, contents, context_lines))
    } else {
        Ok(search_case_insensitive_with_context_lines(query, contents, context_lines))
    }
}

} // verus!
