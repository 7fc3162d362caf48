//! The walk over a directory tree that collects the text files below a root.
//!
//! The walk decides; its caller reads. The caller asks for the next directory,
//! resolves its canonical path and offers it with `enter`; where the walk has
//! not been there, the caller lists the directory and hands in each entry
//! with `entry`; where the walk asks for it, the caller reads the first bytes
//! of the file and hands them in with `sampled`, or tells that it could not.
//! Symbolic links are never followed, and no directory is entered twice.

use vstd::prelude::*;
use vstd::set_lib::lemma_len_subset;
use crate::file::{ignored_names, is_ignored, is_text, text_content, FileError, FileErrorView};
use crate::text::texts;

verus! {

/// What stands at a path.
#[derive(Debug, Clone, Copy, PartialEq, Eq)]
pub enum PathKind {
    /// Nothing.
    Missing,
    /// A regular file.
    File,
    /// A directory.
    Directory,
    /// A symbolic link, whatever it points to.
    Symlink,
    /// Anything else.
    Other,
}

/// A walk in progress.
pub struct Walker {
    pending: Vec<String>,
    visited: Vec<String>,
    files: Vec<String>,
}

/// The state of a walk.
pub struct WalkerView {
    /// The directories still to be visited, the next one last.
    pub pending: Seq<Seq<char>>,
    /// The canonical paths of the directories entered so far.
    pub visited: Seq<Seq<char>>,
    /// The text files found so far.
    pub files: Seq<Seq<char>>,
}

/// The state in which a walk from `root` starts, where something stands there:
/// a file is the whole result, a directory is to be visited, anything else
/// gives nothing.
pub open spec fn start_of(root: Seq<char>, kind: PathKind) -> WalkerView {
    WalkerView {
        pending: if kind == PathKind::Directory {
            seq![root]
        } else {
            Seq::empty()
        },
        visited: Seq::empty(),
        files: if kind == PathKind::File {
            seq![root]
        } else {
            Seq::empty()
        },
    }
}

/// The directories entered once the one with this canonical path was offered.
pub open spec fn entered(visited: Seq<Seq<char>>, canonical: Seq<char>) -> Seq<Seq<char>> {
    if visited.contains(canonical) {
        visited
    } else {
        visited.push(canonical)
    }
}

/// The directories to be visited once an entry of a directory was seen: a
/// directory is added unless its name is one that the walk passes over;
/// nothing else is, symbolic links least of all.
pub open spec fn queued(pending: Seq<Seq<char>>, path: Seq<char>, name: Seq<char>, kind: PathKind) -> Seq<
    Seq<char>,
> {
    if kind == PathKind::Directory && !ignored_names().contains(name) {
        pending.push(path)
    } else {
        pending
    }
}

/// The files found once one more file was looked at: the file is added where
/// its first bytes could be read and are text.
pub open spec fn collected(files: Seq<Seq<char>>, path: Seq<char>, sample: Option<Seq<u8>>) -> Seq<
    Seq<char>,
> {
    match sample {
        Some(content) if text_content(content) => files.push(path),
        _ => files,
    }
}

/// The bytes of a sample, where there is one.
pub open spec fn sample_view(sample: Option<&[u8]>) -> Option<Seq<u8>> {
    match sample {
        Some(content) => Some(content@),
        None => None,
    }
}

/// One step of a walk: what its caller does to it.
pub enum Event {
    /// The next directory to visit is taken.
    Next,
    /// The directory with this canonical path is offered.
    Enter(Seq<char>),
    /// An entry of a directory is handed in: its path, its name, what it is.
    Entry(Seq<char>, Seq<char>, PathKind),
    /// The first bytes of the file at this path are handed in, or that they
    /// could not be read.
    Sampled(Seq<char>, Option<Seq<u8>>),
}

/// The state of a walk after one step.
pub open spec fn after(state: WalkerView, event: Event) -> WalkerView {
    match event {
        Event::Next => WalkerView {
            pending: if state.pending.len() > 0 {
                state.pending.drop_last()
            } else {
                state.pending
            },
            ..state
        },
        Event::Enter(canonical) => WalkerView { visited: entered(state.visited, canonical), ..state },
        Event::Entry(path, name, kind) => WalkerView {
            pending: queued(state.pending, path, name, kind),
            ..state
        },
        Event::Sampled(path, sample) => WalkerView {
            files: collected(state.files, path, sample),
            ..state
        },
    }
}

/// The state of a walk after the steps of `events`, first to last. It
/// depends on the start and the steps alone: two walks that start alike and
/// are told the same of the tree end alike, with the same files.
pub open spec fn after_all(state: WalkerView, events: Seq<Event>) -> WalkerView
    decreases events.len(),
{
    if events.len() == 0 {
        state
    } else {
        after(after_all(state, events.drop_last()), events.last())
    }
}

impl View for Walker {
    type V = WalkerView;

    closed spec fn view(&self) -> WalkerView {
        WalkerView {
            pending: texts(self.pending@),
            visited: texts(self.visited@),
            files: texts(self.files@),
        }
    }
}

impl Walker {
    /// No directory stands twice among those entered.
    #[verifier::type_invariant]
    spec fn entered_once(self) -> bool {
        texts(self.visited@).no_duplicates()
    }

    /// Starts a walk from `root`. Fails where nothing stands there.
    pub fn new(root: &str, kind: PathKind) -> (res: Result<Walker, FileError>)
        ensures
            match res {
                Ok(walker) => kind != PathKind::Missing && walker@ == start_of(root@, kind)
                    && walker@.visited.no_duplicates(),
                Err(e) => kind == PathKind::Missing && e@ == FileErrorView::NotFound(root@),
            },
    {
        let mut pending: Vec<String> = Vec::new();
        let mut files: Vec<String> = Vec::new();
        let visited: Vec<String> = Vec::new();
        match kind {
            PathKind::Missing => {
                return Err(FileError::NotFound(String::from_str(root)));
            },
            PathKind::File => {
                files.push(String::from_str(root));
            },
            PathKind::Directory => {
                pending.push(String::from_str(root));
            },
            _ => {},
        }
        assert(texts(visited@) =~= Seq::<Seq<char>>::empty());
        let walker = Walker { pending, visited, files };
        assert(walker@.pending =~= start_of(root@, kind).pending);
        assert(walker@.files =~= start_of(root@, kind).files);
        assert(walker@.visited =~= start_of(root@, kind).visited);
        Ok(walker)
    }

    /// Takes the next directory to visit, or tells that the walk is over.
    pub fn next_directory(&mut self) -> (next: Option<String>)
        ensures
            final(self)@ == after(old(self)@, Event::Next),
            match next {
                Some(path) => old(self)@.pending.len() > 0 && path@ == old(self)@.pending.last(),
                None => old(self)@.pending.len() == 0,
            },
    {
        proof {
            use_type_invariant(&*self);
        }
        // A list is taken out of the walk while it changes and put back after.
        let mut pending: Vec<String> = Vec::new();
        core::mem::swap(&mut self.pending, &mut pending);
        let next = pending.pop();
        core::mem::swap(&mut self.pending, &mut pending);
        assert(texts(self.pending@) =~= if next is Some {
            texts(old(self).pending@).drop_last()
        } else {
            texts(old(self).pending@)
        });
        next
    }

    /// Offers the directory with this canonical path. Answers whether the
    /// walk enters it: whether it was not entered before.
    pub fn enter(&mut self, canonical: String) -> (fresh: bool)
        ensures
            fresh == !old(self)@.visited.contains(canonical@),
            final(self)@ == after(old(self)@, Event::Enter(canonical@)),
            final(self)@.visited.no_duplicates(),
    {
        proof {
            use_type_invariant(&*self);
        }
        let ghost seen = texts(self.visited@);
        let mut k: usize = 0;
        while k < self.visited.len()
            invariant
                k <= self.visited.len(),
                seen == texts(self.visited@),
                seen.no_duplicates(),
                forall|j: int| 0 <= j < k ==> seen[j] != canonical@,
            decreases self.visited.len() - k,
        {
            if self.visited[k] == canonical {
                assert(seen[k as int] == canonical@);
                return false;
            }
            k = k + 1;
        }
        let mut visited: Vec<String> = Vec::new();
        core::mem::swap(&mut self.visited, &mut visited);
        assert(texts(self.visited@) =~= Seq::<Seq<char>>::empty());
        visited.push(canonical);
        assert(texts(visited@) =~= seen.push(canonical@));
        core::mem::swap(&mut self.visited, &mut visited);
        true
    }

    /// Hands in one entry of the directory that was entered last: its path,
    /// its name and what it is. Answers whether the walk asks for the first
    /// bytes of the entry: it does so for a regular file, and for nothing else.
    pub fn entry(&mut self, path: String, name: &str, kind: PathKind) -> (wanted: bool)
        ensures
            wanted == (kind == PathKind::File),
            final(self)@ == after(old(self)@, Event::Entry(path@, name@, kind)),
    {
        proof {
            use_type_invariant(&*self);
        }
        match kind {
            PathKind::File => true,
            PathKind::Directory => {
                if !is_ignored(name) {
                    let ghost before = texts(self.pending@);
                    let mut pending: Vec<String> = Vec::new();
                    core::mem::swap(&mut self.pending, &mut pending);
                    pending.push(path);
                    core::mem::swap(&mut self.pending, &mut pending);
                    assert(texts(self.pending@) =~= before.push(path@));
                }
                false
            },
            _ => false,
        }
    }

    /// Hands in the first bytes of a file that the walk asked for, or `None`
    /// where they could not be read. The file is collected where they are
    /// text.
    pub fn sampled(&mut self, path: String, sample: Option<&[u8]>)
        ensures
            final(self)@ == after(old(self)@, Event::Sampled(path@, sample_view(sample))),
    {
        proof {
            use_type_invariant(&*self);
        }
        match sample {
            Some(content) => {
                if is_text(content) {
                    let ghost before = texts(self.files@);
                    let mut files: Vec<String> = Vec::new();
                    core::mem::swap(&mut self.files, &mut files);
                    files.push(path);
                    core::mem::swap(&mut self.files, &mut files);
                    assert(texts(self.files@) =~= before.push(path@));
                }
            },
            None => {},
        }
    }

    /// Ends the walk and gives the files found, in the order in which they
    /// were collected.
    pub fn into_files(self) -> (files: Vec<String>)
        ensures
            texts(files@) == self@.files,
    {
        self.files
    }
}

/// A directory that was offered is among those entered from then on, and
/// is not entered again; the directories entered before stay entered, each
/// once.
pub proof fn lemma_entered_once(visited: Seq<Seq<char>>, canonical: Seq<char>)
    ensures
        entered(visited, canonical).contains(canonical),
        entered(entered(visited, canonical), canonical) == entered(visited, canonical),
        forall|other: Seq<char>|
            visited.contains(other) ==> #[trigger] entered(visited, canonical).contains(other),
        visited.no_duplicates() ==> entered(visited, canonical).no_duplicates(),
{
    let after = entered(visited, canonical);
    if !visited.contains(canonical) {
        assert(after[visited.len() as int] == canonical);
        assert forall|other: Seq<char>| visited.contains(other) implies after.contains(other) by {
            let k = choose|k: int| 0 <= k < visited.len() && visited[k] == other;
            assert(after[k] == other);
        }
    }
}

/// However the directories of a tree are linked or mounted, a walk that has
/// entered no directory twice has entered no more directories than the tree
/// holds.
pub proof fn lemma_entered_bounded(visited: Seq<Seq<char>>, directories: Set<Seq<char>>)
    requires
        visited.no_duplicates(),
        directories.finite(),
        forall|k: int| 0 <= k < visited.len() ==> directories.contains(#[trigger] visited[k]),
    ensures
        visited.len() <= directories.len(),
{
    visited.unique_seq_to_set();
    assert(visited.to_set().subset_of(directories)) by {
        assert forall|path: Seq<char>| visited.to_set().contains(path) implies directories.contains(
            path,
        ) by {
            let k = choose|k: int| 0 <= k < visited.len() && visited[k] == path;
        }
    }
    lemma_len_subset(visited.to_set(), directories);
}

/// A symbolic link adds nothing to the directories to be visited, whatever
/// it is named and wherever it points.
pub proof fn lemma_links_not_followed(pending: Seq<Seq<char>>, path: Seq<char>, name: Seq<char>)
    ensures
        queued(pending, path, name, PathKind::Symlink) == pending,
{
}

/// The step offers the directory with this canonical path.
pub open spec fn offers(event: Event, canonical: Seq<char>) -> bool {
    event == Event::Enter(canonical)
}

/// The step hands in a directory at this path that is no symbolic link and
/// has no name that the walk passes over.
pub open spec fn hands_in_directory(event: Event, path: Seq<char>) -> bool {
    event matches Event::Entry(p, name, kind) && p == path && kind == PathKind::Directory
        && !ignored_names().contains(name)
}

/// The step hands in first bytes of the file at this path that are text.
pub open spec fn hands_in_text(event: Event, path: Seq<char>) -> bool {
    event matches Event::Sampled(p, Some(content)) && p == path && text_content(content)
}

/// What holds at every point of every walk, whatever the tree and however
/// its directories are linked or mounted. No directory is entered twice, and
/// each one entered was offered. Each directory to be visited is the root or
/// was handed in as a directory, never as a symbolic link, and under no name
/// that the walk passes over. Each file found is the root, where the root is
/// a file, or had first bytes handed in that are text.
pub proof fn lemma_walk(root: Seq<char>, kind: PathKind, events: Seq<Event>)
    ensures
        after_all(start_of(root, kind), events).visited.no_duplicates(),
        forall|i: int|
            0 <= i < after_all(start_of(root, kind), events).visited.len() ==> exists|k: int|
                0 <= k < events.len() && offers(
                    #[trigger] events[k],
                    (#[trigger] after_all(start_of(root, kind), events).visited[i]),
                ),
        forall|i: int|
            0 <= i < after_all(start_of(root, kind), events).pending.len() ==> {
                let path = #[trigger] after_all(start_of(root, kind), events).pending[i];
                ||| kind == PathKind::Directory && path == root
                ||| exists|k: int| 0 <= k < events.len() && hands_in_directory(#[trigger] events[k], path)
            },
        forall|i: int|
            0 <= i < after_all(start_of(root, kind), events).files.len() ==> {
                let path = #[trigger] after_all(start_of(root, kind), events).files[i];
                ||| kind == PathKind::File && path == root
                ||| exists|k: int| 0 <= k < events.len() && hands_in_text(#[trigger] events[k], path)
            },
    decreases events.len(),
{
    let start = start_of(root, kind);
    let end = after_all(start, events);
    if events.len() > 0 {
        let earlier = events.drop_last();
        let before = after_all(start, earlier);
        let last = events.last();
        lemma_walk(root, kind, earlier);
        assert(end == after(before, last));
        lemma_kept_events(events);
        match last {
            Event::Enter(canonical) => {
                lemma_entered_once(before.visited, canonical);
                assert(offers(events[events.len() - 1], canonical));
            },
            Event::Entry(path, name, entry_kind) => {
                if entry_kind == PathKind::Directory && !ignored_names().contains(name) {
                    assert(hands_in_directory(events[events.len() - 1], path));
                }
            },
            Event::Sampled(path, sample) => {
                if sample matches Some(content) && text_content(content) {
                    assert(hands_in_text(events[events.len() - 1], path));
                }
            },
            Event::Next => {},
        }
        assert forall|i: int| 0 <= i < end.visited.len() implies exists|k: int|
            0 <= k < events.len() && offers(#[trigger] events[k], (#[trigger] end.visited[i])) by {
            if i < before.visited.len() {
                assert(end.visited[i] == before.visited[i]);
                let k = choose|k: int|
                    0 <= k < earlier.len() && offers(#[trigger] earlier[k], before.visited[i]);
                assert(offers(events[k], end.visited[i]));
            } else {
                assert(offers(events[events.len() - 1], end.visited[i]));
            }
        }
        assert forall|i: int| 0 <= i < end.pending.len() implies {
            let path = #[trigger] end.pending[i];
            ||| kind == PathKind::Directory && path == root
            ||| exists|k: int| 0 <= k < events.len() && hands_in_directory(#[trigger] events[k], path)
        } by {
            let path = end.pending[i];
            if i < before.pending.len() {
                assert(path == before.pending[i]);
                if !(kind == PathKind::Directory && path == root) {
                    let k = choose|k: int|
                        0 <= k < earlier.len() && hands_in_directory(#[trigger] earlier[k], path);
                    assert(hands_in_directory(events[k], path));
                }
            } else {
                assert(hands_in_directory(events[events.len() - 1], path));
            }
        }
        assert forall|i: int| 0 <= i < end.files.len() implies {
            let path = #[trigger] end.files[i];
            ||| kind == PathKind::File && path == root
            ||| exists|k: int| 0 <= k < events.len() && hands_in_text(#[trigger] events[k], path)
        } by {
            let path = end.files[i];
            if i < before.files.len() {
                assert(path == before.files[i]);
                if !(kind == PathKind::File && path == root) {
                    let k = choose|k: int|
                        0 <= k < earlier.len() && hands_in_text(#[trigger] earlier[k], path);
                    assert(hands_in_text(events[k], path));
                }
            } else {
                assert(hands_in_text(events[events.len() - 1], path));
            }
        }
    }
}

/// The number of directories that a walk has taken to visit them.
pub open spec fn taken(start: WalkerView, events: Seq<Event>) -> nat
    decreases events.len(),
{
    if events.len() == 0 {
        0
    } else if events.last() == Event::Next && after_all(start, events.drop_last()).pending.len() > 0 {
        taken(start, events.drop_last()) + 1
    } else {
        taken(start, events.drop_last())
    }
}

/// The number of steps that hand in a directory for the walk to visit.
pub open spec fn handed_in(events: Seq<Event>) -> nat
    decreases events.len(),
{
    if events.len() == 0 {
        0
    } else if events.last() matches Event::Entry(_, name, kind) && kind == PathKind::Directory
        && !ignored_names().contains(name) {
        handed_in(events.drop_last()) + 1
    } else {
        handed_in(events.drop_last())
    }
}

/// A walk visits what it was given and nothing else: the directories taken
/// and those still to be visited are, in number, the root, where it is a
/// directory, and the directories handed in. So a walk that is handed in
/// finitely many directories takes finitely many, and then is over.
pub proof fn lemma_walk_ends(root: Seq<char>, kind: PathKind, events: Seq<Event>)
    ensures
        taken(start_of(root, kind), events) + after_all(start_of(root, kind), events).pending.len()
            == start_of(root, kind).pending.len() + handed_in(events),
        start_of(root, kind).pending.len() <= 1,
    decreases events.len(),
{
    if events.len() > 0 {
        lemma_walk_ends(root, kind, events.drop_last());
    }
}

/// The steps before the last are steps of the whole.
proof fn lemma_kept_events(events: Seq<Event>)
    requires
        events.len() > 0,
    ensures
        forall|k: int| 0 <= k < events.len() - 1 ==> #[trigger] events.drop_last()[k] == events[k],
{
}

} // verus!
