//! What holds of every search result.

use vstd::prelude::*;
use crate::search::context::{context_marks, covered, in_window};
use crate::search::text::{contains_text, occurs_at};
use crate::search::{
    all_lines, context_records, literal_flags, marked_below, matching_lines, shown_below,
};

verus! {

/// The record of line `i` of a document, lines counted from 0.
pub open spec fn record_of(doc: Seq<Seq<char>>, flags: Seq<bool>, i: int) -> (nat, Seq<char>, bool) {
    ((i + 1) as nat, doc[i], flags[i])
}

/// The shown lines among the first `j` lines stand first among those of the
/// first `k` lines, for `j <= k`.
pub proof fn lemma_shown_prefix(doc: Seq<Seq<char>>, flags: Seq<bool>, marks: Seq<bool>, j: nat, k: nat)
    requires
        j <= k,
    ensures
        shown_below(doc, flags, marks, j).is_prefix_of(shown_below(doc, flags, marks, k)),
    decreases k,
{
    if j < k {
        lemma_shown_prefix(doc, flags, marks, j, (k - 1) as nat);
    }
}

/// The records of a result are those of the marked lines, in ascending order
/// of their numbers, each once.
pub proof fn lemma_shown_below(doc: Seq<Seq<char>>, flags: Seq<bool>, marks: Seq<bool>, k: nat)
    ensures
        shown_below(doc, flags, marks, k).len() <= k,
        forall|p: int|
            0 <= p < shown_below(doc, flags, marks, k).len() ==> {
                let rec = #[trigger] shown_below(doc, flags, marks, k)[p];
                &&& 1 <= rec.0 <= k
                &&& marks[rec.0 - 1]
                &&& rec == record_of(doc, flags, rec.0 - 1)
            },
        forall|p: int, q: int|
            0 <= p < q < shown_below(doc, flags, marks, k).len() ==> (#[trigger] shown_below(
                doc,
                flags,
                marks,
                k,
            )[p]).0 < (#[trigger] shown_below(doc, flags, marks, k)[q]).0,
        forall|i: int|
            0 <= i < k && marks[i] ==> shown_below(doc, flags, marks, k).contains(
                #[trigger] record_of(doc, flags, i),
            ),
    decreases k,
{
    if k > 0 {
        let before = shown_below(doc, flags, marks, (k - 1) as nat);
        let out = shown_below(doc, flags, marks, k);
        lemma_shown_below(doc, flags, marks, (k - 1) as nat);
        assert forall|i: int| 0 <= i < k && marks[i] implies out.contains(
            #[trigger] record_of(doc, flags, i),
        ) by {
            if i == k - 1 {
                assert(out[out.len() - 1] == record_of(doc, flags, i));
            } else {
                assert(before.contains(record_of(doc, flags, i)));
                let p = choose|p: int| 0 <= p < before.len() && before[p] == record_of(doc, flags, i);
                assert(out[p] == record_of(doc, flags, i));
            }
        }
    }
}

/// The position in a result of the record of a marked line: the number of
/// marked lines before it.
pub proof fn lemma_shown_position(doc: Seq<Seq<char>>, flags: Seq<bool>, marks: Seq<bool>, k: nat, i: int)
    requires
        0 <= i < k,
        marks[i],
    ensures
        shown_below(doc, flags, marks, i as nat).len() < shown_below(doc, flags, marks, k).len(),
        shown_below(doc, flags, marks, k)[shown_below(doc, flags, marks, i as nat).len() as int]
            == record_of(doc, flags, i),
{
    let upto = shown_below(doc, flags, marks, (i + 1) as nat);
    assert(upto == shown_below(doc, flags, marks, i as nat).push(record_of(doc, flags, i)));
    lemma_shown_prefix(doc, flags, marks, (i + 1) as nat, k);
    assert(upto[upto.len() - 1] == shown_below(doc, flags, marks, k).subrange(
        0,
        upto.len() as int,
    )[upto.len() - 1]);
}

/// With a context radius of 0 the lines shown are the matching lines.
pub proof fn lemma_zero_radius_marks(flags: Seq<bool>)
    ensures
        context_marks(flags, 0) == flags,
{
    assert forall|i: int| 0 <= i < flags.len() implies covered(flags, 0, i) == flags[i] by {
        if flags[i] {
            assert(in_window(i, 0, i));
        }
    }
    assert(context_marks(flags, 0) =~= flags);
}

/// A matching line with its number, tagged as a match.
pub open spec fn tagged(found: Seq<(nat, Seq<char>)>) -> Seq<(nat, Seq<char>, bool)> {
    Seq::new(found.len(), |k: int| (found[k].0, found[k].1, true))
}

/// Showing the flagged lines is tagging the matching lines as matches.
proof fn lemma_marks_tagged(doc: Seq<Seq<char>>, flags: Seq<bool>, k: nat)
    ensures
        shown_below(doc, flags, flags, k) == tagged(marked_below(doc, flags, k)),
    decreases k,
{
    if k > 0 {
        lemma_marks_tagged(doc, flags, (k - 1) as nat);
    }
    assert(shown_below(doc, flags, flags, k) =~= tagged(marked_below(doc, flags, k)));
}

/// With a context radius of 0 a search shows the matching lines, each tagged
/// as a match, in ascending order, and no other line.
pub proof fn lemma_no_context(doc: Seq<Seq<char>>, flags: Seq<bool>)
    requires
        doc.len() == flags.len(),
    ensures
        context_records(doc, flags, 0) == tagged(matching_lines(doc, flags)),
{
    lemma_zero_radius_marks(flags);
    lemma_marks_tagged(doc, flags, doc.len());
}

/// Where no line is marked, no record is shown.
proof fn lemma_none_marked(doc: Seq<Seq<char>>, flags: Seq<bool>, marks: Seq<bool>, k: nat)
    requires
        forall|i: int| 0 <= i < k ==> !marks[i],
    ensures
        shown_below(doc, flags, marks, k).len() == 0,
    decreases k,
{
    if k > 0 {
        lemma_none_marked(doc, flags, marks, (k - 1) as nat);
    }
}

/// Where no line matches, nothing is shown, whatever the context radius.
pub proof fn lemma_no_match_no_context(doc: Seq<Seq<char>>, flags: Seq<bool>, radius: nat)
    requires
        doc.len() == flags.len(),
        forall|i: int| 0 <= i < flags.len() ==> !flags[i],
    ensures
        context_records(doc, flags, radius).len() == 0,
{
    lemma_none_marked(doc, flags, context_marks(flags, radius), doc.len());
}

/// A larger context radius never removes a line: every record shown with the
/// smaller radius is shown with the larger one.
pub proof fn lemma_radius_monotone(doc: Seq<Seq<char>>, flags: Seq<bool>, small: nat, large: nat)
    requires
        doc.len() == flags.len(),
        small <= large,
    ensures
        forall|p: int|
            0 <= p < context_records(doc, flags, small).len() ==> context_records(
                doc,
                flags,
                large,
            ).contains(#[trigger] context_records(doc, flags, small)[p]),
{
    let n = doc.len();
    let few = context_marks(flags, small);
    let many = context_marks(flags, large);
    lemma_shown_below(doc, flags, few, n);
    lemma_shown_below(doc, flags, many, n);
    assert forall|p: int| 0 <= p < context_records(doc, flags, small).len() implies context_records(
        doc,
        flags,
        large,
    ).contains(#[trigger] context_records(doc, flags, small)[p]) by {
        let rec = context_records(doc, flags, small)[p];
        let i = rec.0 - 1;
        assert(few[i]);
        assert(covered(flags, small, i));
        let m = choose|m: int| 0 <= m < flags.len() && #[trigger] flags[m] && in_window(m, small, i);
        assert(in_window(m, large, i));
        assert(many[i]);
        assert(rec == record_of(doc, flags, i));
    }
}

/// The numbers of the lines of a result ascend strictly, so no line is shown
/// twice; each record holds the text of its line and whether the line matches.
pub proof fn lemma_records_ascending(doc: Seq<Seq<char>>, flags: Seq<bool>, radius: nat)
    requires
        doc.len() == flags.len(),
    ensures
        forall|p: int, q: int|
            0 <= p < q < context_records(doc, flags, radius).len() ==> (#[trigger] context_records(
                doc,
                flags,
                radius,
            )[p]).0 < (#[trigger] context_records(doc, flags, radius)[q]).0,
        forall|p: int|
            0 <= p < context_records(doc, flags, radius).len() ==> {
                let rec = #[trigger] context_records(doc, flags, radius)[p];
                &&& 1 <= rec.0 <= doc.len()
                &&& covered(flags, radius, rec.0 - 1)
                &&& rec.1 == doc[rec.0 - 1]
                &&& rec.2 == flags[rec.0 - 1]
            },
        forall|i: int|
            covered(flags, radius, i) ==> context_records(doc, flags, radius).contains(
                #[trigger] record_of(doc, flags, i),
            ),
{
    let marks = context_marks(flags, radius);
    lemma_shown_below(doc, flags, marks, doc.len());
    assert forall|i: int| covered(flags, radius, i) implies context_records(
        doc,
        flags,
        radius,
    ).contains(#[trigger] record_of(doc, flags, i)) by {
        assert(marks[i]);
    }
}

/// The number of records that a result holds before the record of line `i`.
pub open spec fn shown_before(doc: Seq<Seq<char>>, flags: Seq<bool>, radius: nat, i: int) -> int {
    shown_below(doc, flags, context_marks(flags, radius), i as nat).len() as int
}

/// The record of line `i` stands in the result `i - first` places after the
/// record of line `first`: the lines from `first` to `i` are shown as one run.
pub open spec fn in_run(doc: Seq<Seq<char>>, flags: Seq<bool>, radius: nat, first: int, i: int) -> bool {
    let at = shown_before(doc, flags, radius, first) + (i - first);
    &&& at < context_records(doc, flags, radius).len()
    &&& context_records(doc, flags, radius)[at] == record_of(doc, flags, i)
}

/// Two matching lines whose windows overlap or touch are shown with all the
/// lines between them, as one run: from the record of the first on, each
/// record is that of the next line of the document.
pub proof fn lemma_windows_merge(
    doc: Seq<Seq<char>>,
    flags: Seq<bool>,
    radius: nat,
    first: int,
    second: int,
)
    requires
        doc.len() == flags.len(),
        0 <= first <= second < flags.len(),
        flags[first],
        flags[second],
        second - radius <= first + radius + 1,
    ensures
        forall|i: int| first <= i <= second ==> covered(flags, radius, i),
        forall|i: int| first <= i <= second ==> #[trigger] in_run(doc, flags, radius, first, i),
{
    let n = doc.len();
    let marks = context_marks(flags, radius);
    let out = context_records(doc, flags, radius);
    assert forall|i: int| first <= i <= second implies covered(flags, radius, i) by {
        if i <= first + radius {
            assert(in_window(first, radius, i));
        } else {
            assert(in_window(second, radius, i));
        }
    }
    let start = shown_before(doc, flags, radius, first);
    assert forall|i: int| first <= i <= second implies #[trigger] in_run(
        doc,
        flags,
        radius,
        first,
        i,
    ) by {
        assert forall|j: int| first <= j < i implies marks[j] by {
            assert(covered(flags, radius, j));
        }
        lemma_run_length(doc, flags, marks, first, i - first);
        assert(marks[i]);
        lemma_shown_position(doc, flags, marks, n, i);
    }
}

/// Over a run of marked lines a result grows by one record for each line.
proof fn lemma_run_length(doc: Seq<Seq<char>>, flags: Seq<bool>, marks: Seq<bool>, first: int, d: int)
    requires
        0 <= first,
        0 <= d,
        forall|i: int| first <= i < first + d ==> marks[i],
    ensures
        shown_below(doc, flags, marks, (first + d) as nat).len() == shown_below(
            doc,
            flags,
            marks,
            first as nat,
        ).len() + d,
    decreases d,
{
    if d > 0 {
        lemma_run_length(doc, flags, marks, first, d - 1);
        assert(marks[first + d - 1]);
    }
}

/// Where every line is flagged, every line is found.
pub proof fn lemma_all_marked(doc: Seq<Seq<char>>, flags: Seq<bool>, k: nat)
    requires
        k <= doc.len(),
        forall|i: int| 0 <= i < k ==> flags[i],
    ensures
        marked_below(doc, flags, k) == all_lines(doc).take(k as int),
    decreases k,
{
    if k > 0 {
        lemma_all_marked(doc, flags, (k - 1) as nat);
    }
    assert(marked_below(doc, flags, k) =~= all_lines(doc).take(k as int));
}

/// The empty query stands in every text, so a search for it finds every line
/// of the document.
pub proof fn lemma_empty_query(doc: Seq<Seq<char>>)
    ensures
        forall|text: Seq<char>| contains_text(text, Seq::<char>::empty()),
        matching_lines(doc, literal_flags(doc, Seq::<char>::empty())) == all_lines(doc),
{
    let empty = Seq::<char>::empty();
    assert forall|text: Seq<char>| contains_text(text, empty) by {
        assert(text.subrange(0, 0) =~= empty);
        assert(occurs_at(text, empty, 0));
    }
    lemma_all_marked(doc, literal_flags(doc, empty), doc.len());
    assert(all_lines(doc).take(doc.len() as int) =~= all_lines(doc));
}

} // verus!
