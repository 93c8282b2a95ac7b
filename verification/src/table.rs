//! Figures and orderings for showing a listing.

use vstd::prelude::*;
use crate::text::{contains, contains_text, lowercase, to_lowercase, chars_of, text_of_range};
use crate::models::{EntryView, FileDescriptor, entry_views};

verus! {

/// The column by which a listing is sorted.
#[derive(Debug, Clone, Copy, PartialEq, Eq, Structural)]
pub enum SortColumn {
    Name,
    Path,
    Target,
    Confidence,
    Source,
}

/// What is counted in a listing.
#[derive(Debug, Clone, Copy, PartialEq, Eq, Structural)]
pub enum Counted {
    Selected,
    WithSuggestion,
    Atomic,
}

/// Whether an entry is counted.
pub open spec fn counts(e: EntryView, what: Counted) -> bool {
    match what {
        Counted::Selected => e.selected,
        Counted::WithSuggestion => e.suggested_action is Some,
        Counted::Atomic => e.atomic,
    }
}

/// How many of the entries are counted.
pub open spec fn count_of(es: Seq<EntryView>, what: Counted) -> nat
    decreases es.len(),
{
    if es.len() == 0 {
        0
    } else if counts(es.last(), what) {
        count_of(es.drop_last(), what) + 1
    } else {
        count_of(es.drop_last(), what)
    }
}

/// No more entries are counted than there are.
pub proof fn lemma_count_bound(es: Seq<EntryView>, what: Counted)
    ensures
        count_of(es, what) <= es.len(),
    decreases es.len(),
{
    if es.len() > 0 {
        lemma_count_bound(es.drop_last(), what);
    }
}

/// The figures of a listing.
#[derive(Debug, Clone, Copy, PartialEq, Eq, Structural)]
pub struct TableStats {
    pub total_files: usize,
    pub selected_files: usize,
    pub with_suggestion: usize,
    pub atomic_files: usize,
}

fn count(files: &[FileDescriptor], what: Counted) -> (r: usize)
    ensures
        r == count_of(entry_views(files@), what),
{
    let ghost es = entry_views(files@);
    let mut n: usize = 0;
    let mut i: usize = 0;
    assert(es.take(0) =~= Seq::empty());
    while i < files.len()
        invariant
            i <= files@.len(),
            es == entry_views(files@),
            n == count_of(es.take(i as int), what),
            n <= i,
        decreases files@.len() - i,
    {
        assert(es[i as int] == files@[i as int]@);
        proof {
            assert(es.take(i + 1).drop_last() =~= es.take(i as int));
            assert(es.take(i + 1).last() == es[i as int]);
        }
        let hit = match what {
            Counted::Selected => files[i].selected,
            Counted::WithSuggestion => files[i].suggested_action.is_some(),
            Counted::Atomic => files[i].atomic,
        };
        if hit {
            n += 1;
        }
        i += 1;
    }
    assert(es.take(es.len() as int) =~= es);
    n
}

impl TableStats {
    /// The figures of a listing: how many entries it holds, and how many
    /// of them are selected, have a proposal, are atomic.
    pub fn from_files(files: &[FileDescriptor]) -> (r: TableStats)
        ensures
            r.total_files == files@.len(),
            r.selected_files == count_of(entry_views(files@), Counted::Selected),
            r.with_suggestion == count_of(entry_views(files@), Counted::WithSuggestion),
            r.atomic_files == count_of(entry_views(files@), Counted::Atomic),
    {
        TableStats {
            total_files: files.len(),
            selected_files: count(files, Counted::Selected),
            with_suggestion: count(files, Counted::WithSuggestion),
            atomic_files: count(files, Counted::Atomic),
        }
    }
}

/// Whether the user may select an entry: an atomic file may not be moved
/// by itself, an atomic directory may be moved whole.
pub open spec fn selectable(e: EntryView) -> bool {
    !e.atomic || e.is_directory
}

/// What a bulk selection does.
#[derive(Debug, Clone, Copy, PartialEq, Eq, Structural)]
pub enum Selection {
    /// Select every entry that may be selected.
    All,
    /// Select nothing.
    Nothing,
    /// Turn the selection of every entry that may be selected around.
    Inverted,
}

/// An entry after a bulk selection.
pub open spec fn reselected(e: EntryView, how: Selection) -> EntryView {
    match how {
        Selection::All => if selectable(e) {
            EntryView { selected: true, ..e }
        } else {
            e
        },
        Selection::Nothing => EntryView { selected: false, ..e },
        Selection::Inverted => if selectable(e) {
            EntryView { selected: !e.selected, ..e }
        } else {
            e
        },
    }
}

/// Applies a bulk selection to a listing.
pub fn select(files: &mut Vec<FileDescriptor>, how: Selection)
    ensures
        final(files)@.len() == old(files)@.len(),
        forall|i: int|
            0 <= i < old(files)@.len() ==> (#[trigger] final(files)@[i])@ == reselected(
                old(files)@[i]@,
                how,
            ),
{
    let n = files.len();
    let mut i: usize = 0;
    while i < n
        invariant
            i <= n,
            n == files@.len(),
            n == old(files)@.len(),
            forall|j: int| 0 <= j < i ==> (#[trigger] files@[j])@ == reselected(old(files)@[j]@, how),
            forall|j: int| i <= j < n ==> files@[j] == old(files)@[j],
        decreases n - i,
    {
        let may = !files[i].atomic || files[i].is_directory;
        match how {
            Selection::All => {
                if may {
                    files[i].selected = true;
                }
            },
            Selection::Nothing => {
                files[i].selected = false;
            },
            Selection::Inverted => {
                if may {
                    let now = !files[i].selected;
                    files[i].selected = now;
                }
            },
        }
        i += 1;
    }
}

/// Which entries of a listing are shown.
#[derive(Debug)]
pub struct RowFilter {
    /// Shown are the entries whose name or path holds this text, case
    /// ignored; with an empty text, all.
    pub filter_text: String,
    /// Only entries with a proposal are shown.
    pub show_only_with_suggestion: bool,
    /// Atomic files are not shown.
    pub hide_atomic_children: bool,
}

/// Whether a name or a path holds the text that is looked for, all three
/// taken as they are written.
pub open spec fn holds_text(name: Seq<char>, path: Seq<char>, wanted: Seq<char>) -> bool {
    contains(name, wanted) || contains(path, wanted)
}

/// Whether an entry passes the two switches of a filter.
pub open spec fn passes(e: EntryView, only_with_suggestion: bool, hide_atomic_children: bool) -> bool {
    !(only_with_suggestion && e.suggested_action is None) && !(hide_atomic_children && e.atomic
        && !e.is_directory)
}

/// Whether an entry is shown under a filter: its name or its path holds
/// the filter text, case ignored, unless that is empty, and it passes the
/// two switches.
pub open spec fn shown(
    e: EntryView,
    filter_text: Seq<char>,
    only_with_suggestion: bool,
    hide_atomic_children: bool,
) -> bool {
    (filter_text.len() == 0 || holds_text(
        lowercase(e.name),
        lowercase(e.full_path),
        lowercase(filter_text),
    )) && passes(e, only_with_suggestion, hide_atomic_children)
}

/// Whether a name or a path holds the text that is looked for.
pub fn holds_wanted(name: &str, path: &str, wanted: &str) -> (r: bool)
    ensures
        r == holds_text(name@, path@, wanted@),
{
    contains_text(name, wanted) || contains_text(path, wanted)
}

impl RowFilter {
    /// Whether `file` passes the two switches of this filter.
    pub fn lets_pass(&self, file: &FileDescriptor) -> (r: bool)
        ensures
            r == passes(file@, self.show_only_with_suggestion, self.hide_atomic_children),
    {
        if self.show_only_with_suggestion && file.suggested_action.is_none() {
            return false;
        }
        if self.hide_atomic_children && file.atomic && !file.is_directory {
            return false;
        }
        true
    }

    /// Whether `file` is shown under this filter.
    pub fn should_show_file(&self, file: &FileDescriptor) -> (r: bool)
        ensures
            r == shown(
                file@,
                self.filter_text@,
                self.show_only_with_suggestion,
                self.hide_atomic_children,
            ),
    {
        if chars_of(self.filter_text.as_str()).len() > 0 {
            let filter = to_lowercase(self.filter_text.as_str());
            let name = to_lowercase(file.name.as_str());
            let path = to_lowercase(file.full_path.as_str());
            if !holds_wanted(name.as_str(), path.as_str(), filter.as_str()) {
                return false;
            }
        }
        self.lets_pass(file)
    }
}

/// A path cut down to `max_len` characters: three dots, then its end.
/// A path that fits, and any path where not even the dots fit, is given
/// whole.
pub open spec fn truncated(path: Seq<char>, max_len: nat) -> Seq<char> {
    if path.len() <= max_len || max_len < 3 {
        path
    } else {
        "..."@ + path.subrange(path.len() - max_len + 3, path.len() as int)
    }
}

/// A path cut down to `max_len` characters for showing.
pub fn truncate_path(path: &str, max_len: usize) -> (r: String)
    ensures
        r@ == truncated(path@, max_len as nat),
{
    let v = chars_of(path);
    if v.len() <= max_len || max_len < 3 {
        return String::from_str(path);
    }
    let mut out = String::from_str("...");
    let tail = text_of_range(&v, v.len() - max_len + 3, v.len());
    out.append(tail.as_str());
    out
}

} // verus!
