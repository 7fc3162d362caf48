//! The report of a search: the lines that are printed, in order.
//!
//! A matching line is written as its number, a colon and its text; a line
//! shown for context has a tilde in place of the colon. Runs of lines that do
//! not follow each other in the document are parted by a line of two dashes.

use vstd::prelude::*;
use crate::file::{match_views, FileMatch, FileMatchView};
use crate::search::{numbered_views, record_views};
use crate::text::{decimal, push_decimal, texts};

verus! {

/// The sign between the number and the text of a line.
pub open spec fn sign(is_match: bool) -> char {
    if is_match {
        ':'
    } else {
        '~'
    }
}

/// One shown line as it is printed.
pub open spec fn record_line(record: (nat, Seq<char>, bool)) -> Seq<char> {
    decimal(record.0) + seq![sign(record.2)] + record.1
}

/// Writes one shown line as it is printed.
pub fn format_record(number: usize, text: &str, is_match: bool) -> (line: String)
    ensures
        line@ == record_line((number as nat, text@, is_match)),
{
    let mut line = String::new();
    push_decimal(&mut line, number);
    proof {
        reveal_strlit(":");
        reveal_strlit("~");
    }
    line.append(
        if is_match {
            ":"
        } else {
            "~"
        },
    );
    line.append(text);
    assert(line@ =~= record_line((number as nat, text@, is_match)));
    line
}

/// The line that parts two runs of shown lines.
pub open spec fn separator() -> Seq<char> {
    "--"@
}

/// The first `k` records as they are printed: each on a line of its own,
/// with a separator before every record that does not follow the one before
/// it in the document.
pub open spec fn grouped_below(records: Seq<(nat, Seq<char>, bool)>, k: nat) -> Seq<Seq<char>>
    decreases k,
{
    if k == 0 {
        Seq::empty()
    } else {
        let before = grouped_below(records, (k - 1) as nat);
        let parted = if k >= 2 && records[k - 1].0 > records[k - 2].0 + 1 {
            before.push(separator())
        } else {
            before
        };
        parted.push(record_line(records[k - 1]))
    }
}

/// The number of matching lines among the first `k` records.
pub open spec fn matches_below(records: Seq<(nat, Seq<char>, bool)>, k: nat) -> nat
    decreases k,
{
    if k == 0 {
        0
    } else if records[k - 1].2 {
        matches_below(records, (k - 1) as nat) + 1
    } else {
        matches_below(records, (k - 1) as nat)
    }
}

/// The line that tells that nothing matched `query`.
pub open spec fn no_matches(query: Seq<char>) -> Seq<char> {
    "No matches found for '"@ + query + "'"@
}

/// The line that tells how many lines matched.
pub open spec fn found_matches(count: nat) -> Seq<char> {
    "Found "@ + decimal(count) + " match(es):"@
}

/// Writes the line that tells that nothing matched `query`.
pub fn format_no_matches(query: &str) -> (line: String)
    ensures
        line@ == no_matches(query@),
{
    let mut line = String::from_str("No matches found for '");
    line.append(query);
    line.append("'");
    line
}

/// Writes the line that tells how many lines matched.
pub fn format_found(count: usize) -> (line: String)
    ensures
        line@ == found_matches(count as nat),
{
    let mut line = String::from_str("Found ");
    push_decimal(&mut line, count);
    line.append(" match(es):");
    line
}

/// The matching lines as they are printed, one line each.
pub open spec fn plain_lines(found: Seq<(nat, Seq<char>)>) -> Seq<Seq<char>> {
    Seq::new(found.len(), |k: int| record_line((found[k].0, found[k].1, true)))
}

/// The report of a search without context: how many lines matched, then the
/// matching lines; or that nothing matched.
pub open spec fn plain_report(query: Seq<char>, found: Seq<(nat, Seq<char>)>) -> Seq<Seq<char>> {
    if found.len() == 0 {
        seq![no_matches(query)]
    } else {
        seq![found_matches(found.len())] + plain_lines(found)
    }
}

/// Writes the report of a search without context.
pub fn render_matches(query: &str, found: &Vec<(usize, &str)>) -> (lines: Vec<String>)
    ensures
        texts(lines@) == plain_report(query@, numbered_views(found@)),
{
    let mut lines: Vec<String> = Vec::new();
    if found.len() == 0 {
        lines.push(format_no_matches(query));
        assert(texts(lines@) =~= plain_report(query@, numbered_views(found@)));
        return lines;
    }
    lines.push(format_found(found.len()));
    let ghost head = seq![found_matches(found.len() as nat)];
    assert(texts(lines@) =~= head + plain_lines(numbered_views(found@)).take(0));
    let mut k: usize = 0;
    while k < found.len()
        invariant
            k <= found.len(),
            head == seq![found_matches(found.len() as nat)],
            texts(lines@) == head + plain_lines(numbered_views(found@)).take(k as int),
        decreases found.len() - k,
    {
        let ghost before = texts(lines@);
        lines.push(format_record(found[k].0, found[k].1, true));
        assert(texts(lines@) =~= before.push(
            record_line((found[k as int].0 as nat, found[k as int].1@, true)),
        ));
        assert(texts(lines@) =~= head + plain_lines(numbered_views(found@)).take(k + 1));
        k = k + 1;
    }
    assert(plain_lines(numbered_views(found@)).take(k as int) =~= plain_lines(
        numbered_views(found@),
    ));
    lines
}

/// The report of a search with context: how many lines matched, then the
/// shown lines in their runs; or that nothing matched.
pub open spec fn context_report(query: Seq<char>, records: Seq<(nat, Seq<char>, bool)>) -> Seq<
    Seq<char>,
> {
    if records.len() == 0 {
        seq![no_matches(query)]
    } else {
        seq![found_matches(matches_below(records, records.len()))] + grouped_below(
            records,
            records.len(),
        )
    }
}

/// Counts the matching lines among the shown lines.
pub fn count_matches(found: &Vec<(usize, &str, bool)>) -> (count: usize)
    ensures
        count == matches_below(record_views(found@), found.len() as nat),
{
    let mut count: usize = 0;
    let mut k: usize = 0;
    while k < found.len()
        invariant
            k <= found.len(),
            count <= k,
            count == matches_below(record_views(found@), k as nat),
        decreases found.len() - k,
    {
        if found[k].2 {
            count = count + 1;
        }
        k = k + 1;
    }
    count
}

/// Writes the report of a search with context.
pub fn render_context(query: &str, found: &Vec<(usize, &str, bool)>) -> (lines: Vec<String>)
    ensures
        texts(lines@) == context_report(query@, record_views(found@)),
{
    let ghost records = record_views(found@);
    let mut lines: Vec<String> = Vec::new();
    if found.len() == 0 {
        lines.push(format_no_matches(query));
        assert(texts(lines@) =~= context_report(query@, records));
        return lines;
    }
    lines.push(format_found(count_matches(found)));
    let ghost head = seq![found_matches(matches_below(records, records.len()))];
    assert(texts(lines@) =~= head + grouped_below(records, 0));
    let mut k: usize = 0;
    while k < found.len()
        invariant
            k <= found.len(),
            records == record_views(found@),
            texts(lines@) == head + grouped_below(records, k as nat),
        decreases found.len() - k,
    {
        let ghost before = texts(lines@);
        let parted = k >= 1 && found[k].0 > found[k - 1].0 && found[k].0 - found[k - 1].0 > 1;
        if parted {
            lines.push(String::from_str("--"));
        }
        let ghost middle = texts(lines@);
        assert(middle =~= if parted {
            before.push(separator())
        } else {
            before
        });
        lines.push(format_record(found[k].0, found[k].1, found[k].2));
        assert(texts(lines@) =~= middle.push(record_line(records[k as int])));
        assert(texts(lines@) =~= head + grouped_below(records, (k + 1) as nat));
        k = k + 1;
    }
    lines
}

/// The line that heads the shown lines of a file; an empty line stands
/// before it.
pub open spec fn file_heading(path: Seq<char>) -> Seq<char> {
    "\nFile: "@ + path
}

/// The first `k` shown lines of files as they are printed: a heading before
/// the first line of each file, a separator after the last line of each file
/// but the last one, and a separator between the runs of one file.
pub open spec fn files_below(found: Seq<FileMatchView>, k: nat) -> Seq<Seq<char>>
    decreases k,
{
    if k == 0 {
        Seq::empty()
    } else {
        let before = files_below(found, (k - 1) as nat);
        let this = found[k - 1];
        let led = if k == 1 {
            before.push(file_heading(this.path))
        } else if found[k - 2].path != this.path {
            before.push(separator()).push(file_heading(this.path))
        } else if this.record.0 > found[k - 2].record.0 + 1 {
            before.push(separator())
        } else {
            before
        };
        led.push(record_line(this.record))
    }
}

/// The number of matching lines among the first `k` shown lines of files.
pub open spec fn file_matches_below(found: Seq<FileMatchView>, k: nat) -> nat
    decreases k,
{
    if k == 0 {
        0
    } else if found[k - 1].record.2 {
        file_matches_below(found, (k - 1) as nat) + 1
    } else {
        file_matches_below(found, (k - 1) as nat)
    }
}

/// The line that tells how many lines matched in how many files.
pub open spec fn found_in_files(count: nat, files: nat) -> Seq<char> {
    "Found "@ + decimal(count) + " match(es) in "@ + decimal(files) + " file(s):"@
}

/// The report of a search in several files: how many lines matched in how
/// many files, then the shown lines file by file; or that nothing matched.
pub open spec fn files_report(query: Seq<char>, files: nat, found: Seq<FileMatchView>) -> Seq<Seq<char>> {
    if found.len() == 0 {
        seq![no_matches(query)]
    } else {
        seq![found_in_files(file_matches_below(found, found.len()), files)] + files_below(
            found,
            found.len(),
        )
    }
}

/// Counts the matching lines among the shown lines of files.
pub fn count_file_matches(found: &Vec<FileMatch>) -> (count: usize)
    ensures
        count == file_matches_below(match_views(found@), found.len() as nat),
{
    let mut count: usize = 0;
    let mut k: usize = 0;
    while k < found.len()
        invariant
            k <= found.len(),
            count <= k,
            count == file_matches_below(match_views(found@), k as nat),
        decreases found.len() - k,
    {
        if found[k].is_match {
            count = count + 1;
        }
        k = k + 1;
    }
    count
}

/// Writes the report of a search in `files` files.
pub fn render_files(query: &str, files: usize, found: &Vec<FileMatch>) -> (lines: Vec<String>)
    ensures
        texts(lines@) == files_report(query@, files as nat, match_views(found@)),
{
    let ghost views = match_views(found@);
    let mut lines: Vec<String> = Vec::new();
    if found.len() == 0 {
        lines.push(format_no_matches(query));
        assert(texts(lines@) =~= files_report(query@, files as nat, views));
        return lines;
    }
    let mut first = String::from_str("Found ");
    push_decimal(&mut first, count_file_matches(found));
    first.append(" match(es) in ");
    push_decimal(&mut first, files);
    first.append(" file(s):");
    lines.push(first);
    let ghost head = seq![found_in_files(file_matches_below(views, views.len()), files as nat)];
    assert(texts(lines@) =~= head + files_below(views, 0));
    let mut k: usize = 0;
    while k < found.len()
        invariant
            k <= found.len(),
            views == match_views(found@),
            texts(lines@) == head + files_below(views, k as nat),
        decreases found.len() - k,
    {
        let ghost before = texts(lines@);
        let this = &found[k];
        let new_file = k == 0 || found[k - 1].path != this.path;
        if new_file {
            if k > 0 {
                lines.push(String::from_str("--"));
            }
            let mut heading = String::from_str("\nFile: ");
            heading.append(this.path.as_str());
            lines.push(heading);
        } else if this.line_num > found[k - 1].line_num && this.line_num - found[k - 1].line_num > 1 {
            lines.push(String::from_str("--"));
        }
        let ghost led = texts(lines@);
        assert(led =~= if k == 0 {
            before.push(file_heading(views[k as int].path))
        } else if views[k - 1].path != views[k as int].path {
            before.push(separator()).push(file_heading(views[k as int].path))
        } else if views[k as int].record.0 > views[k - 1].record.0 + 1 {
            before.push(separator())
        } else {
            before
        });
        lines.push(format_record(this.line_num, this.line.as_str(), this.is_match));
        assert(texts(lines@) =~= led.push(record_line(views[k as int].record)));
        assert(texts(lines@) =~= head + files_below(views, (k + 1) as nat));
        k = k + 1;
    }
    lines
}

} // verus!
