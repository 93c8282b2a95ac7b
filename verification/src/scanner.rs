//! What a scan takes in: which entries of a walk are kept, and what is
//! recorded for each. The walk itself is the caller's.

use vstd::prelude::*;
use crate::text::{views, eq_ignore_ascii_case, same_text, same_text_ignore_ascii_case, chars_of, text_of_range, push_char};
use crate::paths::{dotted_extension, dotted_extension_of};
use crate::models::{EntryView, FileDescriptor, new_entry};

verus! {

/// The settings of a scan, as a value.
pub struct ScannerView {
    pub root_path: Seq<char>,
    pub include_hidden: bool,
    /// How deep the walk goes; zero for no limit.
    pub max_depth: usize,
    pub exclude_dirs: Seq<Seq<char>>,
}

/// The settings of a scan: where it starts, whether hidden entries are
/// taken, how deep it goes, and which directories it stays out of.
#[derive(Debug)]
pub struct FileScanner {
    root_path: String,
    include_hidden: bool,
    max_depth: usize,
    exclude_dirs: Vec<String>,
}

impl View for FileScanner {
    type V = ScannerView;

    closed spec fn view(&self) -> ScannerView {
        ScannerView {
            root_path: self.root_path@,
            include_hidden: self.include_hidden,
            max_depth: self.max_depth,
            exclude_dirs: views(self.exclude_dirs@),
        }
    }
}

/// The directories that every scan stays out of.
pub open spec fn default_excludes() -> Seq<Seq<char>> {
    seq!["$RECYCLE.BIN"@, "System Volume Information"@]
}

/// `name` is, up to the case of ASCII letters, one of `list`.
pub open spec fn excluded_name(list: Seq<Seq<char>>, name: Seq<char>) -> bool {
    exists|i: int| 0 <= i < list.len() && eq_ignore_ascii_case(name, #[trigger] list[i])
}

/// A name that begins with a dot is hidden.
pub open spec fn hidden_name(name: Seq<char>) -> bool {
    name.len() > 0 && name[0] == '.'
}

/// Whether a scan takes an entry of the walk, and walks into it where it
/// is a directory. The root is always taken; a hidden entry only where
/// hidden entries are asked for; an excluded directory never.
pub open spec fn included(s: ScannerView, path: Seq<char>, name: Seq<char>, is_directory: bool) -> bool {
    path == s.root_path || (!(!s.include_hidden && hidden_name(name)) && !(is_directory
        && excluded_name(s.exclude_dirs, name)))
}

/// What a scan records for an entry of the walk: nothing for the root; else
/// the entry under its path, with its dotted extension and its size, both
/// left empty for a directory.
pub open spec fn recorded(
    s: ScannerView,
    path: Seq<char>,
    name: Seq<char>,
    is_directory: bool,
    len: u64,
    modified_at: i64,
) -> Option<EntryView> {
    if path == s.root_path {
        None
    } else if is_directory {
        Some(new_entry(path, name, Seq::empty(), 0, modified_at, true))
    } else {
        Some(new_entry(path, name, dotted_extension(path), len, modified_at, false))
    }
}

/// The excerpt of a text, given line by line, that holds at most `max`
/// characters: whole lines, each followed by a line break, so long as they
/// fit, and the beginning of the first line that does not.
pub open spec fn excerpt(lines: Seq<Seq<char>>, max: nat) -> Seq<char>
    decreases lines.len(),
{
    if lines.len() == 0 || max == 0 {
        Seq::empty()
    } else if lines[0].len() <= max {
        let used = lines[0].len() + 1;
        lines[0].push('\n') + excerpt(
            lines.drop_first(),
            if used >= max {
                0
            } else {
                (max - used) as nat
            },
        )
    } else {
        lines[0].subrange(0, max as int)
    }
}

impl FileScanner {
    /// A scan of `root_path` without hidden entries and without a depth
    /// limit.
    pub fn new(root_path: String) -> (r: FileScanner)
        ensures
            r@ == (ScannerView {
                root_path: root_path@,
                include_hidden: false,
                max_depth: 0,
                exclude_dirs: default_excludes(),
            }),
    {
        let mut exclude_dirs: Vec<String> = Vec::new();
        exclude_dirs.push(String::from_str("$RECYCLE.BIN"));
        exclude_dirs.push(String::from_str("System Volume Information"));
        assert(views(exclude_dirs@) =~= default_excludes());
        FileScanner { root_path, include_hidden: false, max_depth: 0, exclude_dirs }
    }

    /// The same scan with or without hidden entries.
    pub fn include_hidden(self, hidden: bool) -> (r: FileScanner)
        ensures
            r@ == (ScannerView { include_hidden: hidden, ..self@ }),
    {
        let mut s = self;
        s.include_hidden = hidden;
        s
    }

    /// The same scan with a depth limit; zero for none.
    pub fn max_depth(self, depth: usize) -> (r: FileScanner)
        ensures
            r@ == (ScannerView { max_depth: depth, ..self@ }),
    {
        let mut s = self;
        s.max_depth = depth;
        s
    }

    /// The same scan, staying out of one more directory name.
    pub fn exclude_dir(self, dir: String) -> (r: FileScanner)
        ensures
            r@ == (ScannerView { exclude_dirs: self@.exclude_dirs.push(dir@), ..self@ }),
    {
        let mut s = self;
        let ghost before = views(s.exclude_dirs@);
        s.exclude_dirs.push(dir);
        assert(views(s.exclude_dirs@) =~= before.push(dir@));
        s
    }

    /// Where the scan starts.
    pub fn root_path(&self) -> (r: &String)
        ensures
            r@ == self@.root_path,
    {
        &self.root_path
    }

    /// How deep the walk goes; zero for no limit.
    pub fn depth_limit(&self) -> (r: usize)
        ensures
            r == self@.max_depth,
    {
        self.max_depth
    }

    /// Whether the scan takes an entry of the walk.
    pub fn should_include(&self, path: &str, name: &str, is_directory: bool) -> (r: bool)
        ensures
            r == included(self@, path@, name@, is_directory),
    {
        if same_text(path, self.root_path.as_str()) {
            return true;
        }
        if !self.include_hidden {
            let v = chars_of(name);
            if v.len() > 0 && v[0] == '.' {
                return false;
            }
        }
        if is_directory {
            let mut i: usize = 0;
            while i < self.exclude_dirs.len()
                invariant
                    i <= self.exclude_dirs@.len(),
                    is_directory,
                    path@ != self@.root_path,
                    !(!self@.include_hidden && hidden_name(name@)),
                    forall|j: int|
                        0 <= j < i ==> !eq_ignore_ascii_case(
                            name@,
                            #[trigger] views(self.exclude_dirs@)[j],
                        ),
                decreases self.exclude_dirs@.len() - i,
            {
                if same_text_ignore_ascii_case(name, self.exclude_dirs[i].as_str()) {
                    assert(eq_ignore_ascii_case(name@, views(self.exclude_dirs@)[i as int]));
                    return false;
                }
                i += 1;
            }
        }
        true
    }

    /// What the scan records for an entry of the walk.
    pub fn create_descriptor(
        &self,
        path: String,
        name: String,
        is_directory: bool,
        len: u64,
        modified_at: i64,
    ) -> (r: Option<FileDescriptor>)
        ensures
            match r {
                Some(f) => recorded(self@, path@, name@, is_directory, len, modified_at) == Some(f@),
                None => recorded(self@, path@, name@, is_directory, len, modified_at) is None,
            },
    {
        if same_text(path.as_str(), self.root_path.as_str()) {
            return None;
        }
        let extension = if is_directory {
            String::new()
        } else {
            dotted_extension_of(path.as_str())
        };
        let size = if is_directory {
            0
        } else {
            len
        };
        Some(FileDescriptor::new(path, name, extension, size, modified_at, is_directory))
    }
}

/// The excerpt of a text, given line by line, of at most `max_chars`
/// characters.
pub fn get_content_summary(lines: &[String], max_chars: usize) -> (r: String)
    ensures
        r@ == excerpt(views(lines@), max_chars as nat),
{
    let ghost all = views(lines@);
    let mut out = String::new();
    let mut left: usize = max_chars;
    let mut i: usize = 0;
    assert(all.subrange(0, all.len() as int) =~= all);
    assert(Seq::<char>::empty() + excerpt(all, max_chars as nat) =~= excerpt(all, max_chars as nat));
    while i < lines.len() && left > 0
        invariant
            i <= lines@.len(),
            all == views(lines@),
            out@ + excerpt(all.subrange(i as int, all.len() as int), left as nat) == excerpt(
                all,
                max_chars as nat,
            ),
        decreases lines@.len() - i,
    {
        let ghost rest = all.subrange(i as int, all.len() as int);
        let ghost before = out@;
        let line = chars_of(lines[i].as_str());
        assert(rest[0] == line@);
        assert(rest.drop_first() =~= all.subrange(i + 1, all.len() as int));
        if line.len() <= left {
            out.append(lines[i].as_str());
            push_char(&mut out, '\n');
            left = if left - line.len() <= 1 {
                0
            } else {
                left - line.len() - 1
            };
            assert(out@ =~= before + line@.push('\n'));
            assert(before + (line@.push('\n') + excerpt(rest.drop_first(), left as nat)) =~= out@
                + excerpt(rest.drop_first(), left as nat));
            i += 1;
        } else {
            let head = text_of_range(&line, 0, left);
            out.append(head.as_str());
            assert(out@ =~= before + line@.subrange(0, left as int));
            return out;
        }
    }
    proof {
        let rest = all.subrange(i as int, all.len() as int);
        assert(excerpt(rest, left as nat) =~= Seq::<char>::empty());
        assert(out@ + Seq::<char>::empty() =~= out@);
    }
    out
}

} // verus!
