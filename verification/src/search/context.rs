//! Which lines are shown around the matching lines of a document.
//!
//! A document of `n` lines is searched once, giving one flag per line: whether
//! the line matches. A context radius `r` then shows, around every matching
//! line `m`, the lines `m - r ..= m + r` as far as the document reaches.

use vstd::prelude::*;

verus! {

/// Line `i` lies within `radius` lines of line `m`.
pub open spec fn in_window(m: int, radius: nat, i: int) -> bool {
    m - radius <= i <= m + radius
}

/// Line `i` of the document is shown: some matching line has it in its window.
pub open spec fn covered(flags: Seq<bool>, radius: nat, i: int) -> bool {
    &&& 0 <= i < flags.len()
    &&& exists|m: int| 0 <= m < flags.len() && #[trigger] flags[m] && in_window(m, radius, i)
}

/// One mark per line of the document: whether the line is shown.
pub open spec fn context_marks(flags: Seq<bool>, radius: nat) -> Seq<bool> {
    Seq::new(flags.len(), |i: int| covered(flags, radius, i))
}

/// The matching line nearest before position `i`, if there is one.
spec fn match_before(flags: Seq<bool>, i: int, last: Option<usize>) -> bool {
    match last {
        Some(m) => m < i && m < flags.len() && flags[m as int] && forall|k: int|
            m < k < i && k < flags.len() ==> !#[trigger] flags[k],
        None => forall|k: int| 0 <= k < i && k < flags.len() ==> !#[trigger] flags[k],
    }
}

/// Marks the lines that are shown for a context radius, in one pass over the
/// flags: a line is shown when the nearest match before it or the nearest
/// match from it onwards is within the radius.
pub fn mark_context(flags: &Vec<bool>, radius: usize) -> (marks: Vec<bool>)
    ensures
        marks@ == context_marks(flags@, radius as nat),
{
    let n = flags.len();
    let mut marks: Vec<bool> = Vec::new();
    let mut last: Option<usize> = None;
    let mut next: usize = 0;
    let mut i: usize = 0;
    while i < n
        invariant
            n == flags.len(),
            i <= n,
            i <= next <= n,
            marks.len() == i,
            match_before(flags@, i as int, last),
            forall|k: int| i <= k < next ==> !#[trigger] flags[k],
            forall|k: int| 0 <= k < i ==> #[trigger] marks[k] == covered(flags@, radius as nat, k),
        decreases n - i,
    {
        while next < n && !flags[next]
            invariant
                n == flags.len(),
                i <= next <= n,
                forall|k: int| i <= k < next ==> !#[trigger] flags[k],
            decreases n - next,
        {
            next = next + 1;
        }
        let near_before = match last {
            Some(m) => i - m <= radius,
            None => false,
        };
        let near_after = next < n && next - i <= radius;
        let shown = near_before || near_after;
        proof {
            let r = radius as nat;
            if shown {
                if near_after {
                    assert(flags@[next as int] && in_window(next as int, r, i as int));
                } else {
                    let m = last->0;
                    assert(flags@[m as int] && in_window(m as int, r, i as int));
                }
            } else if covered(flags@, r, i as int) {
                let m = choose|m: int|
                    0 <= m < flags@.len() && #[trigger] flags@[m] && in_window(m, r, i as int);
                if m < i {
                    assert(last is Some);
                } else {
                    assert(next <= m);
                }
            }
        }
        marks.push(shown);
        if flags[i] {
            last = Some(i);
        }
        i = i + 1;
        if next < i {
            next = i;
        }
    }
    assert(marks@ =~= context_marks(flags@, radius as nat));
    marks
}

} // verus!
