//! Finding the directories that must stay whole. A directory that holds a
//! program, a dependency cache or part of the operating system is atomic:
//! nothing below it is moved by itself. The decision looks at a directory's
//! path, its name and its direct children, never deeper.

use vstd::prelude::*;
use crate::text::{
    views, has_member, lowercase, lowered, starts_with, ends_with, list_has, lower_all,
    to_lowercase, same_text, starts_with_text, ends_with_text,
};
use crate::paths::{
    file_name, file_name_of, is_descendant, is_descendant_path, lemma_descendant_transitive,
};
use crate::models::{DirectoryType, EntryView, FileDescriptor, entry_views};

verus! {

/// The extensions of program files.
pub open spec fn program_extensions() -> Seq<Seq<char>> {
    seq![
        ".exe"@,
        ".dll"@,
        ".so"@,
        ".dylib"@,
        ".sys"@,
        ".ocx"@,
        ".msi"@,
        ".app"@,
        ".deb"@,
        ".rpm"@,
        ".dmg"@,
    ]
}

/// The names that installers and application bundles leave behind.
pub open spec fn program_markers() -> Seq<Seq<char>> {
    seq!["unins000.exe"@, "uninstall.exe"@, "setup.exe"@, "Contents"@, "MacOS"@, "Info.plist"@]
}

/// The manifests and lock files that mark a development project.
pub open spec fn project_markers() -> Seq<Seq<char>> {
    seq![
        "package.json"@,
        "package-lock.json"@,
        "yarn.lock"@,
        "pnpm-lock.yaml"@,
        "requirements.txt"@,
        "setup.py"@,
        "pyproject.toml"@,
        "Pipfile"@,
        "Cargo.toml"@,
        "Cargo.lock"@,
        "CMakeLists.txt"@,
        "Makefile"@,
        "configure"@,
        ".csproj"@,
        ".fsproj"@,
        ".sln"@,
        "pom.xml"@,
        "build.gradle"@,
        "settings.gradle"@,
        "go.mod"@,
        "go.sum"@,
        "Gemfile"@,
        "Gemfile.lock"@,
    ]
}

/// The names of virtual environments, dependency caches and build outputs.
pub open spec fn environment_names() -> Seq<Seq<char>> {
    seq![
        "venv"@,
        ".venv"@,
        "env"@,
        ".env"@,
        "virtualenv"@,
        "__pycache__"@,
        ".pyc"@,
        "site-packages"@,
        "node_modules"@,
        "target"@,
        "vendor"@,
        "bin"@,
        "obj"@,
        "packages"@,
    ]
}

/// The prefixes of system paths, in the Windows and in the Unix style.
pub open spec fn system_prefixes() -> Seq<Seq<char>> {
    seq![
        "C:\\Windows"@,
        "C:\\Program Files"@,
        "C:\\Program Files (x86)"@,
        "C:\\ProgramData"@,
        "/usr"@,
        "/opt"@,
        "/bin"@,
        "/sbin"@,
        "/lib"@,
        "/etc"@,
        "/var"@,
        "/Applications"@,
    ]
}

/// `path` begins with a member of `prefixes`.
pub open spec fn starts_with_one_of(prefixes: Seq<Seq<char>>, path: Seq<char>) -> bool {
    exists|i: int| 0 <= i < prefixes.len() && starts_with(path, #[trigger] prefixes[i])
}

/// `path` begins, case ignored, with a system prefix.
pub open spec fn system_path(path: Seq<char>) -> bool {
    starts_with_one_of(lowered(system_prefixes()), lowercase(path))
}

/// `name` ends with a member of `list`.
pub open spec fn ends_with_one_of(list: Seq<Seq<char>>, name: Seq<char>) -> bool {
    exists|i: int| 0 <= i < list.len() && ends_with(name, #[trigger] list[i])
}

/// What a direct child can tell about the directory that holds it.
#[derive(Debug, Clone, Copy, PartialEq, Eq, Structural)]
pub enum Signal {
    /// A program file, or a name that an installer leaves behind.
    ProgramMarker,
    /// A file with the extension `.exe`.
    Executable,
    /// A file with the extension `.dll`.
    SharedLibrary,
    /// A manifest or lock file of a development project.
    ProjectMarker,
    /// A directory named like a virtual environment or dependency cache.
    EnvironmentDirectory,
    /// A directory named `bin`.
    BinDirectory,
    /// A directory named `lib`.
    LibDirectory,
}

/// What is read of a child, as a value: its name as it is written and in
/// lower case, its extension in lower case, and whether it is a directory.
pub struct ChildView {
    pub name: Seq<char>,
    pub lower_name: Seq<char>,
    pub lower_extension: Seq<char>,
    pub is_directory: bool,
}

/// What is read of a child.
#[derive(Debug)]
pub struct Child {
    pub name: String,
    pub lower_name: String,
    pub lower_extension: String,
    pub is_directory: bool,
}

impl View for Child {
    type V = ChildView;

    open spec fn view(&self) -> ChildView {
        ChildView {
            name: self.name@,
            lower_name: self.lower_name@,
            lower_extension: self.lower_extension@,
            is_directory: self.is_directory,
        }
    }
}

/// What is read of an entry.
pub open spec fn child_of(e: EntryView) -> ChildView {
    ChildView {
        name: e.name,
        lower_name: lowercase(e.name),
        lower_extension: lowercase(e.extension),
        is_directory: e.is_directory,
    }
}

/// Whether a child tells the signal `s`. The lower-case name and extension
/// are held against the tables as they are written, so a table entry with
/// a capital letter is only ever met as the ending of a name.
pub open spec fn tells(c: ChildView, s: Signal) -> bool {
    match s {
        Signal::ProgramMarker => has_member(program_extensions(), c.lower_extension)
            || has_member(program_markers(), c.lower_name),
        Signal::Executable => c.lower_extension == ".exe"@,
        Signal::SharedLibrary => c.lower_extension == ".dll"@,
        Signal::ProjectMarker => has_member(project_markers(), c.lower_name) || ends_with_one_of(
            project_markers(),
            c.name,
        ),
        Signal::EnvironmentDirectory => c.is_directory && has_member(
            environment_names(),
            c.lower_name,
        ),
        Signal::BinDirectory => c.is_directory && c.lower_name == "bin"@,
        Signal::LibDirectory => c.is_directory && c.lower_name == "lib"@,
    }
}

/// Whether the entry `e` shows the signal `s`.
pub open spec fn shows(e: EntryView, s: Signal) -> bool {
    tells(child_of(e), s)
}

/// One of the first `n` entries is a direct child of `dir` and shows `s`.
pub open spec fn child_shows(es: Seq<EntryView>, dir: Seq<char>, s: Signal, n: int) -> bool {
    exists|i: int|
        0 <= i < n && i < es.len() && (#[trigger] es[i]).parent_dir == dir && shows(es[i], s)
}

/// Some direct child of `dir` shows `s`.
pub open spec fn has_child(es: Seq<EntryView>, dir: Seq<char>, s: Signal) -> bool {
    child_shows(es, dir, s, es.len() as int)
}

/// What speaks for and against taking a directory apart.
#[derive(Debug, Clone, Copy, PartialEq, Eq, Structural)]
pub struct Signs {
    /// Its path is a system path.
    pub system_path: bool,
    /// Its name is that of a virtual environment or dependency cache.
    pub environment_name: bool,
    /// Which signals its direct children show.
    pub executable: bool,
    pub shared_library: bool,
    pub project_marker: bool,
    pub environment_directory: bool,
    pub program_marker: bool,
    pub bin_directory: bool,
    pub lib_directory: bool,
}

/// The classification that the signs of a directory add up to. The first
/// case that applies decides: a system path; a name of a virtual
/// environment; an executable beside a shared library; a project marker
/// beside an environment directory or a program marker; a `bin` beside a
/// `lib`; else the directory is normal. A project marker alone, or a
/// program marker alone, decides nothing.
pub open spec fn verdict(s: Signs) -> DirectoryType {
    if s.system_path {
        DirectoryType::System
    } else if s.environment_name {
        DirectoryType::VirtualEnv
    } else if s.executable && s.shared_library {
        DirectoryType::ProgramRoot
    } else if s.project_marker && (s.environment_directory || s.program_marker) {
        DirectoryType::ProgramRoot
    } else if s.bin_directory && s.lib_directory {
        DirectoryType::ProgramRoot
    } else {
        DirectoryType::Normal
    }
}

/// The signs of the directory at `path`, from its path, its name and its
/// direct children among `es`.
pub open spec fn signs_of(path: Seq<char>, es: Seq<EntryView>) -> Signs {
    Signs {
        system_path: system_path(path),
        environment_name: has_member(environment_names(), lowercase(file_name(path))),
        executable: has_child(es, path, Signal::Executable),
        shared_library: has_child(es, path, Signal::SharedLibrary),
        project_marker: has_child(es, path, Signal::ProjectMarker),
        environment_directory: has_child(es, path, Signal::EnvironmentDirectory),
        program_marker: has_child(es, path, Signal::ProgramMarker),
        bin_directory: has_child(es, path, Signal::BinDirectory),
        lib_directory: has_child(es, path, Signal::LibDirectory),
    }
}

/// The classification of the directory at `path`.
pub open spec fn classify(path: Seq<char>, es: Seq<EntryView>) -> DirectoryType {
    verdict(signs_of(path, es))
}

/// The classification that the signs of a directory add up to.
pub fn verdict_of(signs: Signs) -> (r: DirectoryType)
    ensures
        r == verdict(signs),
{
    if signs.system_path {
        DirectoryType::System
    } else if signs.environment_name {
        DirectoryType::VirtualEnv
    } else if signs.executable && signs.shared_library {
        DirectoryType::ProgramRoot
    } else if signs.project_marker && (signs.environment_directory || signs.program_marker) {
        DirectoryType::ProgramRoot
    } else if signs.bin_directory && signs.lib_directory {
        DirectoryType::ProgramRoot
    } else {
        DirectoryType::Normal
    }
}

/// The classification given for entry `j`; normal where none is given.
pub open spec fn kind_at(kinds: Seq<DirectoryType>, j: int) -> DirectoryType {
    if 0 <= j < kinds.len() {
        kinds[j]
    } else {
        DirectoryType::Normal
    }
}

/// `path` lies strictly below a directory of the listing whose given
/// classification is atomic.
pub open spec fn below_atomic(es: Seq<EntryView>, kinds: Seq<DirectoryType>, path: Seq<char>) -> bool {
    exists|j: int|
        0 <= j < es.len() && (#[trigger] es[j]).is_directory && kind_at(kinds, j).atomic()
            && is_descendant(path, es[j].full_path)
}

/// Entry `i` once atomicity has spread from the directories that are
/// atomic by the given classifications. An entry below such a directory is
/// atomic and typed as a program root, whatever it is by itself; any other
/// directory gets the classification given for it; any other file is left
/// as it was.
pub open spec fn spread_entry(es: Seq<EntryView>, kinds: Seq<DirectoryType>, i: int) -> EntryView {
    let e = es[i];
    if below_atomic(es, kinds, e.full_path) {
        EntryView { directory_type: DirectoryType::ProgramRoot, atomic: true, ..e }
    } else if e.is_directory {
        EntryView { directory_type: kind_at(kinds, i), atomic: kind_at(kinds, i).atomic(), ..e }
    } else {
        e
    }
}

/// The listing once atomicity has spread.
pub open spec fn spread(es: Seq<EntryView>, kinds: Seq<DirectoryType>) -> Seq<EntryView> {
    Seq::new(es.len(), |i: int| spread_entry(es, kinds, i))
}

/// The classification of each directory of the listing by itself: from its
/// own path, name and children. For a file it is normal.
pub open spec fn own_kinds(es: Seq<EntryView>) -> Seq<DirectoryType> {
    Seq::new(
        es.len(),
        |j: int|
            if es[j].is_directory {
                classify(es[j].full_path, es)
            } else {
                DirectoryType::Normal
            },
    )
}

/// `path` lies strictly below a directory that is atomic by itself.
pub open spec fn under_atomic_directory(es: Seq<EntryView>, path: Seq<char>) -> bool {
    below_atomic(es, own_kinds(es), path)
}

/// Entry `i` after the analysis.
pub open spec fn analyzed_entry(es: Seq<EntryView>, i: int) -> EntryView {
    spread_entry(es, own_kinds(es), i)
}

/// The listing after the analysis: every directory is classified by
/// itself, and atomicity spreads from there.
pub open spec fn analyzed(es: Seq<EntryView>) -> Seq<EntryView> {
    spread(es, own_kinds(es))
}

/// Entry `j` is a directory at the path `dir`.
pub open spec fn directory_at(es: Seq<EntryView>, dir: Seq<char>, j: int) -> bool {
    0 <= j < es.len() && es[j].is_directory && es[j].full_path == dir
}

/// None of the first `n` entries is a directory at the path `dir`.
pub open spec fn no_directory_before(es: Seq<EntryView>, dir: Seq<char>, n: int) -> bool {
    forall|k: int| 0 <= k < n ==> !#[trigger] directory_at(es, dir, k)
}

/// The first directory entry at `dir`, if there is one, is marked atomic.
pub open spec fn first_at_is_atomic(es: Seq<EntryView>, dir: Seq<char>) -> bool {
    exists|j: int| #[trigger]
        directory_at(es, dir, j) && no_directory_before(es, dir, j) && es[j].atomic
}

/// `dir`, or a directory above it, is listed first as an atomic directory.
/// The topmost directory, which has no parent, is not looked at.
pub open spec fn inside_marked_directory(es: Seq<EntryView>, dir: Seq<char>) -> bool
    decreases dir.len(),
{
    match crate::paths::parent(dir) {
        None => false,
        Some(up) => {
            proof {
                crate::paths::lemma_last_separator(dir);
            }
            first_at_is_atomic(es, dir) || inside_marked_directory(es, up)
        },
    }
}

/// Some name ends with `suffix`.
pub open spec fn name_ends(names: Seq<Seq<char>>, suffix: Seq<char>) -> bool {
    exists|i: int| 0 <= i < names.len() && ends_with(#[trigger] names[i], suffix)
}

/// Whether a bare listing of names, all in lower case, marks a directory as
/// atomic: an executable beside a shared library, a `node_modules`, a
/// Python environment, or a `cargo.toml` beside an existing `target`.
pub open spec fn quick_verdict(names: Seq<Seq<char>>, has_target: bool) -> bool {
    ||| (name_ends(names, ".exe"@) && name_ends(names, ".dll"@))
    ||| has_member(names, "node_modules"@)
    ||| has_member(names, "venv"@)
    ||| has_member(names, ".venv"@)
    ||| has_member(names, "__pycache__"@)
    ||| (has_member(names, "cargo.toml"@) && has_target)
}

/// Whether a bare listing of names marks a directory as atomic, case
/// ignored.
pub open spec fn quick_atomic(names: Seq<Seq<char>>, has_target: bool) -> bool {
    quick_verdict(lowered(names), has_target)
}

/// The tables of an analyzer, as values.
pub struct TablesView {
    pub program_extensions: Seq<Seq<char>>,
    pub program_markers: Seq<Seq<char>>,
    pub dev_project_markers: Seq<Seq<char>>,
    pub venv_dir_names: Seq<Seq<char>>,
    pub system_path_prefixes_windows: Seq<Seq<char>>,
    pub system_path_prefixes_unix: Seq<Seq<char>>,
}

/// The tables that every analyzer holds.
pub open spec fn built_in_tables() -> TablesView {
    TablesView {
        program_extensions: program_extensions(),
        program_markers: program_markers(),
        dev_project_markers: project_markers(),
        venv_dir_names: environment_names(),
        system_path_prefixes_windows: system_prefixes().subrange(0, 4),
        system_path_prefixes_unix: system_prefixes().subrange(4, 12),
    }
}

/// The tables by which directories are classified.
pub struct BoundaryAnalyzer {
    program_extensions: Vec<String>,
    program_markers: Vec<String>,
    dev_project_markers: Vec<String>,
    venv_dir_names: Vec<String>,
    system_path_prefixes_windows: Vec<String>,
    system_path_prefixes_unix: Vec<String>,
}

fn push_text(list: &mut Vec<String>, s: &str)
    ensures
        views(final(list)@) == views(old(list)@).push(s@),
{
    list.push(String::from_str(s));
    assert(views(list@) =~= views(old(list)@).push(s@));
}

fn program_extension_table() -> (r: Vec<String>)
    ensures
        views(r@) == program_extensions(),
{
    let mut t: Vec<String> = Vec::new();
    assert(views(t@) =~= Seq::empty());
    push_text(&mut t, ".exe");
    push_text(&mut t, ".dll");
    push_text(&mut t, ".so");
    push_text(&mut t, ".dylib");
    push_text(&mut t, ".sys");
    push_text(&mut t, ".ocx");
    push_text(&mut t, ".msi");
    push_text(&mut t, ".app");
    push_text(&mut t, ".deb");
    push_text(&mut t, ".rpm");
    push_text(&mut t, ".dmg");
    assert(views(t@) =~= program_extensions());
    t
}

fn program_marker_table() -> (r: Vec<String>)
    ensures
        views(r@) == program_markers(),
{
    let mut t: Vec<String> = Vec::new();
    assert(views(t@) =~= Seq::empty());
    push_text(&mut t, "unins000.exe");
    push_text(&mut t, "uninstall.exe");
    push_text(&mut t, "setup.exe");
    push_text(&mut t, "Contents");
    push_text(&mut t, "MacOS");
    push_text(&mut t, "Info.plist");
    assert(views(t@) =~= program_markers());
    t
}

fn project_marker_table() -> (r: Vec<String>)
    ensures
        views(r@) == project_markers(),
{
    let mut t: Vec<String> = Vec::new();
    assert(views(t@) =~= Seq::empty());
    push_text(&mut t, "package.json");
    push_text(&mut t, "package-lock.json");
    push_text(&mut t, "yarn.lock");
    push_text(&mut t, "pnpm-lock.yaml");
    push_text(&mut t, "requirements.txt");
    push_text(&mut t, "setup.py");
    push_text(&mut t, "pyproject.toml");
    push_text(&mut t, "Pipfile");
    push_text(&mut t, "Cargo.toml");
    push_text(&mut t, "Cargo.lock");
    push_text(&mut t, "CMakeLists.txt");
    push_text(&mut t, "Makefile");
    push_text(&mut t, "configure");
    push_text(&mut t, ".csproj");
    push_text(&mut t, ".fsproj");
    push_text(&mut t, ".sln");
    push_text(&mut t, "pom.xml");
    push_text(&mut t, "build.gradle");
    push_text(&mut t, "settings.gradle");
    push_text(&mut t, "go.mod");
    push_text(&mut t, "go.sum");
    push_text(&mut t, "Gemfile");
    push_text(&mut t, "Gemfile.lock");
    assert(views(t@) =~= project_markers());
    t
}

fn environment_name_table() -> (r: Vec<String>)
    ensures
        views(r@) == environment_names(),
{
    let mut t: Vec<String> = Vec::new();
    assert(views(t@) =~= Seq::empty());
    push_text(&mut t, "venv");
    push_text(&mut t, ".venv");
    push_text(&mut t, "env");
    push_text(&mut t, ".env");
    push_text(&mut t, "virtualenv");
    push_text(&mut t, "__pycache__");
    push_text(&mut t, ".pyc");
    push_text(&mut t, "site-packages");
    push_text(&mut t, "node_modules");
    push_text(&mut t, "target");
    push_text(&mut t, "vendor");
    push_text(&mut t, "bin");
    push_text(&mut t, "obj");
    push_text(&mut t, "packages");
    assert(views(t@) =~= environment_names());
    t
}

fn windows_prefix_table() -> (r: Vec<String>)
    ensures
        views(r@) == system_prefixes().subrange(0, 4),
{
    let mut t: Vec<String> = Vec::new();
    assert(views(t@) =~= Seq::empty());
    push_text(&mut t, "C:\\Windows");
    push_text(&mut t, "C:\\Program Files");
    push_text(&mut t, "C:\\Program Files (x86)");
    push_text(&mut t, "C:\\ProgramData");
    assert(views(t@) =~= system_prefixes().subrange(0, 4));
    t
}

fn unix_prefix_table() -> (r: Vec<String>)
    ensures
        views(r@) == system_prefixes().subrange(4, 12),
{
    let mut t: Vec<String> = Vec::new();
    assert(views(t@) =~= Seq::empty());
    push_text(&mut t, "/usr");
    push_text(&mut t, "/opt");
    push_text(&mut t, "/bin");
    push_text(&mut t, "/sbin");
    push_text(&mut t, "/lib");
    push_text(&mut t, "/etc");
    push_text(&mut t, "/var");
    push_text(&mut t, "/Applications");
    assert(views(t@) =~= system_prefixes().subrange(4, 12));
    t
}

/// Whether `path` begins with a member of `list`.
pub fn starts_with_listed(list: &[String], path: &str) -> (r: bool)
    ensures
        r == starts_with_one_of(views(list@), path@),
{
    let mut i: usize = 0;
    while i < list.len()
        invariant
            i <= list@.len(),
            forall|j: int| 0 <= j < i ==> !starts_with(path@, #[trigger] views(list@)[j]),
        decreases list@.len() - i,
    {
        if starts_with_text(path, list[i].as_str()) {
            assert(starts_with(path@, views(list@)[i as int]));
            return true;
        }
        i += 1;
    }
    false
}

/// Whether `name` ends with a member of `list`.
pub fn ends_with_listed(list: &[String], name: &str) -> (r: bool)
    ensures
        r == ends_with_one_of(views(list@), name@),
{
    let mut i: usize = 0;
    while i < list.len()
        invariant
            i <= list@.len(),
            forall|j: int| 0 <= j < i ==> !ends_with(name@, #[trigger] views(list@)[j]),
        decreases list@.len() - i,
    {
        if ends_with_text(name, list[i].as_str()) {
            assert(ends_with(name@, views(list@)[i as int]));
            return true;
        }
        i += 1;
    }
    false
}

impl Child {
    /// What is read of `file`.
    pub fn of(file: &FileDescriptor) -> (r: Child)
        ensures
            r@ == child_of(file@),
    {
        Child {
            name: file.name.clone(),
            lower_name: to_lowercase(file.name.as_str()),
            lower_extension: to_lowercase(file.extension.as_str()),
            is_directory: file.is_directory,
        }
    }
}

impl View for BoundaryAnalyzer {
    type V = TablesView;

    closed spec fn view(&self) -> TablesView {
        TablesView {
            program_extensions: views(self.program_extensions@),
            program_markers: views(self.program_markers@),
            dev_project_markers: views(self.dev_project_markers@),
            venv_dir_names: views(self.venv_dir_names@),
            system_path_prefixes_windows: views(self.system_path_prefixes_windows@),
            system_path_prefixes_unix: views(self.system_path_prefixes_unix@),
        }
    }
}

impl BoundaryAnalyzer {
    #[verifier::type_invariant]
    spec fn tables_are_set(self) -> bool {
        self@ == built_in_tables()
    }

    /// An analyzer with the built-in tables.
    pub fn new() -> (r: BoundaryAnalyzer)
        ensures
            r@ == built_in_tables(),
    {
        BoundaryAnalyzer {
            program_extensions: program_extension_table(),
            program_markers: program_marker_table(),
            dev_project_markers: project_marker_table(),
            venv_dir_names: environment_name_table(),
            system_path_prefixes_windows: windows_prefix_table(),
            system_path_prefixes_unix: unix_prefix_table(),
        }
    }

    /// Whether `path` begins, case ignored, with a system prefix.
    pub fn is_system_path(&self, path: &str) -> (r: bool)
        ensures
            r == system_path(path@),
    {
        let windows = lower_all(self.system_path_prefixes_windows.as_slice());
        let unix = lower_all(self.system_path_prefixes_unix.as_slice());
        let lower = to_lowercase(path);
        proof {
            use_type_invariant(self);
            let all = lowered(system_prefixes());
            let win = views(windows@);
            let rest = views(unix@);
            assert(win =~= all.subrange(0, 4));
            assert(rest =~= all.subrange(4, 12));
            if starts_with_one_of(all, lower@) {
                let i = choose|i: int|
                    0 <= i < all.len() && starts_with(lower@, #[trigger] all[i]);
                if i < 4 {
                    assert(win[i] == all[i]);
                } else {
                    assert(rest[i - 4] == all[i]);
                }
            }
            if starts_with_one_of(win, lower@) {
                let i = choose|i: int|
                    0 <= i < win.len() && starts_with(lower@, #[trigger] win[i]);
                assert(all[i] == win[i]);
            }
            if starts_with_one_of(rest, lower@) {
                let i = choose|i: int|
                    0 <= i < rest.len() && starts_with(lower@, #[trigger] rest[i]);
                assert(all[i + 4] == rest[i]);
            }
        }
        if starts_with_listed(windows.as_slice(), lower.as_str()) {
            return true;
        }
        starts_with_listed(unix.as_slice(), lower.as_str())
    }

    /// Whether a child tells the signal `s`.
    pub fn child_tells(&self, child: &Child, s: Signal) -> (r: bool)
        ensures
            r == tells(child@, s),
    {
        proof {
            use_type_invariant(self);
        }
        match s {
            Signal::ProgramMarker => {
                if list_has(self.program_extensions.as_slice(), child.lower_extension.as_str()) {
                    return true;
                }
                list_has(self.program_markers.as_slice(), child.lower_name.as_str())
            },
            Signal::Executable => same_text(child.lower_extension.as_str(), ".exe"),
            Signal::SharedLibrary => same_text(child.lower_extension.as_str(), ".dll"),
            Signal::ProjectMarker => {
                if list_has(self.dev_project_markers.as_slice(), child.lower_name.as_str()) {
                    return true;
                }
                ends_with_listed(self.dev_project_markers.as_slice(), child.name.as_str())
            },
            Signal::EnvironmentDirectory => {
                if !child.is_directory {
                    return false;
                }
                list_has(self.venv_dir_names.as_slice(), child.lower_name.as_str())
            },
            Signal::BinDirectory => child.is_directory && same_text(
                child.lower_name.as_str(),
                "bin",
            ),
            Signal::LibDirectory => child.is_directory && same_text(
                child.lower_name.as_str(),
                "lib",
            ),
        }
    }

    /// Whether `file` shows the signal `s`.
    pub fn entry_shows(&self, file: &FileDescriptor, s: Signal) -> (r: bool)
        ensures
            r == shows(file@, s),
    {
        let child = Child::of(file);
        self.child_tells(&child, s)
    }

    /// Whether some direct child of `dir` among `files` shows the signal `s`.
    pub fn has_child_showing(&self, files: &[FileDescriptor], dir: &str, s: Signal) -> (r: bool)
        ensures
            r == has_child(entry_views(files@), dir@, s),
    {
        let ghost es = entry_views(files@);
        let mut i: usize = 0;
        while i < files.len()
            invariant
                i <= files@.len(),
                es == entry_views(files@),
                !child_shows(es, dir@, s, i as int),
            decreases files@.len() - i,
        {
            if same_text(files[i].parent_dir.as_str(), dir) {
                if self.entry_shows(&files[i], s) {
                    assert(es[i as int] == files@[i as int]@);
                    return true;
                }
            }
            assert(es[i as int] == files@[i as int]@);
            i += 1;
        }
        false
    }

    /// The signs of the directory at `path`, from its path, its name and
    /// its direct children among `all_files`.
    pub fn signs(&self, path: &str, all_files: &[FileDescriptor]) -> (r: Signs)
        ensures
            r == signs_of(path@, entry_views(all_files@)),
    {
        proof {
            use_type_invariant(self);
        }
        let name = file_name_of(path);
        let lower = to_lowercase(name.as_str());
        Signs {
            system_path: self.is_system_path(path),
            environment_name: list_has(self.venv_dir_names.as_slice(), lower.as_str()),
            executable: self.has_child_showing(all_files, path, Signal::Executable),
            shared_library: self.has_child_showing(all_files, path, Signal::SharedLibrary),
            project_marker: self.has_child_showing(all_files, path, Signal::ProjectMarker),
            environment_directory: self.has_child_showing(
                all_files,
                path,
                Signal::EnvironmentDirectory,
            ),
            program_marker: self.has_child_showing(all_files, path, Signal::ProgramMarker),
            bin_directory: self.has_child_showing(all_files, path, Signal::BinDirectory),
            lib_directory: self.has_child_showing(all_files, path, Signal::LibDirectory),
        }
    }

    /// Classifies the directory at `path` from its path, its name and its
    /// direct children among `all_files`, and says whether it is atomic.
    pub fn analyze_directory(&self, path: &str, all_files: &[FileDescriptor]) -> (r: (
        DirectoryType,
        bool,
    ))
        ensures
            r.0 == classify(path@, entry_views(all_files@)),
            r.1 == r.0.atomic(),
    {
        let kind = verdict_of(self.signs(path, all_files));
        (kind, kind.is_atomic())
    }

    /// The classification of each directory of the listing by itself.
    pub fn classify_all(&self, files: &[FileDescriptor]) -> (r: Vec<DirectoryType>)
        ensures
            r@ == own_kinds(entry_views(files@)),
    {
        let ghost es = entry_views(files@);
        let mut own: Vec<DirectoryType> = Vec::new();
        let mut i: usize = 0;
        while i < files.len()
            invariant
                i <= files@.len(),
                es == entry_views(files@),
                own@.len() == i,
                forall|j: int| 0 <= j < i ==> #[trigger] own@[j] == own_kinds(es)[j],
            decreases files@.len() - i,
        {
            assert(es[i as int] == files@[i as int]@);
            if files[i].is_directory {
                let (kind, _atomic) = self.analyze_directory(files[i].full_path.as_str(), files);
                own.push(kind);
            } else {
                own.push(DirectoryType::Normal);
            }
            i += 1;
        }
        assert(own@ =~= own_kinds(es));
        own
    }

    /// Classifies every directory of the listing and spreads atomicity to
    /// everything that lies below an atomic directory.
    pub fn analyze(&self, files: &mut Vec<FileDescriptor>)
        ensures
            entry_views(final(files)@) == analyzed(entry_views(old(files)@)),
    {
        let own = self.classify_all(files.as_slice());
        spread_atomicity(files, own.as_slice());
    }

    /// Whether the directory of `file`, or a directory above it, is listed
    /// as an atomic directory. Of several entries at one path the first
    /// counts.
    pub fn is_in_program_directory(&self, file: &FileDescriptor, all_files: &[FileDescriptor]) -> (r:
        bool)
        ensures
            r == inside_marked_directory(entry_views(all_files@), file@.parent_dir),
    {
        let ghost es = entry_views(all_files@);
        let mut current = file.parent_dir.clone();
        loop
            invariant
                es == entry_views(all_files@),
                inside_marked_directory(es, current@) == inside_marked_directory(
                    es,
                    file@.parent_dir,
                ),
            decreases current@.len(),
        {
            let up = match crate::paths::parent_of(current.as_str()) {
                Some(up) => up,
                None => {
                    return false;
                },
            };
            proof {
                crate::paths::lemma_last_separator(current@);
            }
            if first_directory_is_atomic(all_files, current.as_str()) {
                return true;
            }
            current = up;
        }
    }
}

/// The classification given for entry `j`; normal where none is given.
pub fn kind_of(kinds: &[DirectoryType], j: usize) -> (r: DirectoryType)
    ensures
        r == kind_at(kinds@, j as int),
{
    if j < kinds.len() {
        kinds[j]
    } else {
        DirectoryType::Normal
    }
}

/// Whether `path` lies strictly below a directory of the listing whose
/// given classification is atomic.
pub fn is_below_atomic(files: &[FileDescriptor], kinds: &[DirectoryType], path: &str) -> (r: bool)
    ensures
        r == below_atomic(entry_views(files@), kinds@, path@),
{
    let ghost es = entry_views(files@);
    let mut j: usize = 0;
    while j < files.len()
        invariant
            j <= files@.len(),
            es == entry_views(files@),
            forall|k: int|
                0 <= k < j ==> !((#[trigger] es[k]).is_directory && kind_at(kinds@, k).atomic()
                    && is_descendant(path@, es[k].full_path)),
        decreases files@.len() - j,
    {
        assert(es[j as int] == files@[j as int]@);
        if files[j].is_directory && kind_of(kinds, j).is_atomic() {
            if is_descendant_path(path, files[j].full_path.as_str()) {
                return true;
            }
        }
        j += 1;
    }
    false
}

/// Spreads atomicity through a listing, from the directories that are
/// atomic by the given classifications, one for each entry.
pub fn spread_atomicity(files: &mut Vec<FileDescriptor>, kinds: &[DirectoryType])
    ensures
        entry_views(final(files)@) == spread(entry_views(old(files)@), kinds@),
{
    let ghost es = entry_views(files@);
    let n = files.len();
    // What each entry becomes is settled before anything is written.
    let mut verdicts: Vec<Option<DirectoryType>> = Vec::new();
    let mut i: usize = 0;
    while i < n
        invariant
            i <= n,
            n == files@.len(),
            es == entry_views(files@),
            verdicts@.len() == i,
            forall|j: int|
                0 <= j < i ==> #[trigger] verdicts@[j] == (if below_atomic(
                    es,
                    kinds@,
                    es[j].full_path,
                ) {
                    Some(DirectoryType::ProgramRoot)
                } else if es[j].is_directory {
                    Some(kind_at(kinds@, j))
                } else {
                    None
                }),
        decreases n - i,
    {
        assert(es[i as int] == files@[i as int]@);
        if is_below_atomic(files.as_slice(), kinds, files[i].full_path.as_str()) {
            verdicts.push(Some(DirectoryType::ProgramRoot));
        } else if files[i].is_directory {
            verdicts.push(Some(kind_of(kinds, i)));
        } else {
            verdicts.push(None);
        }
        i += 1;
    }
    let mut i: usize = 0;
    while i < n
        invariant
            i <= n,
            n == files@.len(),
            n == es.len(),
            verdicts@.len() == n,
            forall|j: int|
                0 <= j < n ==> #[trigger] verdicts@[j] == (if below_atomic(
                    es,
                    kinds@,
                    es[j].full_path,
                ) {
                    Some(DirectoryType::ProgramRoot)
                } else if es[j].is_directory {
                    Some(kind_at(kinds@, j))
                } else {
                    None
                }),
            forall|j: int| 0 <= j < i ==> (#[trigger] files@[j])@ == spread_entry(es, kinds@, j),
            forall|j: int| i <= j < n ==> (#[trigger] files@[j])@ == es[j],
        decreases n - i,
    {
        let ghost before = files@[i as int]@;
        assert(before == es[i as int]);
        match verdicts[i] {
            Some(kind) => {
                files[i].directory_type = kind;
                files[i].atomic = kind.is_atomic();
            },
            None => {},
        }
        assert(files@[i as int]@ == spread_entry(es, kinds@, i as int));
        i += 1;
    }
    assert(entry_views(files@) =~= spread(es, kinds@));
}

/// The index of the first directory entry at `path`.
fn first_directory_at(files: &[FileDescriptor], path: &str) -> (r: Option<usize>)
    ensures
        match r {
            Some(j) => directory_at(entry_views(files@), path@, j as int) && no_directory_before(
                entry_views(files@),
                path@,
                j as int,
            ),
            None => no_directory_before(entry_views(files@), path@, files@.len() as int),
        },
{
    let ghost es = entry_views(files@);
    let mut j: usize = 0;
    while j < files.len()
        invariant
            j <= files@.len(),
            es == entry_views(files@),
            no_directory_before(es, path@, j as int),
        decreases files@.len() - j,
    {
        assert(es[j as int] == files@[j as int]@);
        if files[j].is_directory && same_text(files[j].full_path.as_str(), path) {
            return Some(j);
        }
        j += 1;
    }
    None
}

/// Whether the first directory entry at `path` is marked atomic.
fn first_directory_is_atomic(files: &[FileDescriptor], path: &str) -> (r: bool)
    ensures
        r == first_at_is_atomic(entry_views(files@), path@),
{
    let ghost es = entry_views(files@);
    match first_directory_at(files, path) {
        Some(j) => {
            assert(es[j as int] == files@[j as int]@);
            proof {
                if first_at_is_atomic(es, path@) {
                    let w = choose|w: int| #[trigger]
                        directory_at(es, path@, w) && no_directory_before(es, path@, w)
                            && es[w].atomic;
                    if w < j {
                        assert(!directory_at(es, path@, w));
                    }
                    if j < w {
                        assert(!directory_at(es, path@, j as int));
                    }
                }
            }
            files[j].atomic
        },
        None => {
            proof {
                if first_at_is_atomic(es, path@) {
                    let w = choose|w: int| #[trigger]
                        directory_at(es, path@, w) && no_directory_before(es, path@, w)
                            && es[w].atomic;
                    assert(!directory_at(es, path@, w));
                }
            }
            false
        },
    }
}

impl Default for BoundaryAnalyzer {
    fn default() -> (r: BoundaryAnalyzer)
        ensures
            r@ == built_in_tables(),
    {
        BoundaryAnalyzer::new()
    }
}

/// Whether some name of `names` ends with `suffix`.
fn some_name_ends(names: &[String], suffix: &str) -> (r: bool)
    ensures
        r == name_ends(views(names@), suffix@),
{
    let mut i: usize = 0;
    while i < names.len()
        invariant
            i <= names@.len(),
            forall|j: int| 0 <= j < i ==> !ends_with(#[trigger] views(names@)[j], suffix@),
        decreases names@.len() - i,
    {
        if ends_with_text(names[i].as_str(), suffix) {
            assert(ends_with(views(names@)[i as int], suffix@));
            return true;
        }
        i += 1;
    }
    false
}

/// A quick look at one directory, from the names of its direct children,
/// all in lower case, and from whether it holds an existing `target`.
pub fn quick_verdict_of(lower_names: &[String], has_target: bool) -> (r: bool)
    ensures
        r == quick_verdict(views(lower_names@), has_target),
{
    if some_name_ends(lower_names, ".exe") && some_name_ends(lower_names, ".dll") {
        return true;
    }
    if list_has(lower_names, "node_modules") {
        return true;
    }
    if list_has(lower_names, "venv") || list_has(lower_names, ".venv") || list_has(
        lower_names,
        "__pycache__",
    ) {
        return true;
    }
    list_has(lower_names, "cargo.toml") && has_target
}

/// A quick look at one directory, from the names of its direct children and
/// from whether it holds an existing `target`: whether it is likely to be
/// atomic. This needs no full scan and sees fewer signals than `analyze`.
pub fn quick_check_atomic(names: &[String], has_target: bool) -> (r: bool)
    ensures
        r == quick_atomic(views(names@), has_target),
{
    let lower = lower_all(names);
    quick_verdict_of(lower.as_slice(), has_target)
}

/// A directory that holds an executable beside a shared library is atomic
/// after the analysis, and it is typed as a program root unless its path
/// is a system path or its name that of a virtual environment while nothing
/// above it is atomic.
pub proof fn lemma_program_pair_is_atomic(es: Seq<EntryView>, i: int)
    requires
        0 <= i < es.len(),
        es[i].is_directory,
        has_child(es, es[i].full_path, Signal::Executable),
        has_child(es, es[i].full_path, Signal::SharedLibrary),
    ensures
        analyzed(es)[i].atomic,
        analyzed(es)[i].directory_type.atomic(),
        under_atomic_directory(es, es[i].full_path) || !(system_path(es[i].full_path)
            || has_member(environment_names(), lowercase(file_name(es[i].full_path))))
            ==> analyzed(es)[i].directory_type == DirectoryType::ProgramRoot,
{
}

/// After the analysis, whatever lies strictly below an atomic directory is
/// atomic, whatever it would be by itself.
pub proof fn lemma_descendants_are_atomic(es: Seq<EntryView>, i: int, d: int)
    requires
        0 <= i < es.len(),
        0 <= d < es.len(),
        analyzed(es)[d].is_directory,
        analyzed(es)[d].atomic,
        is_descendant(analyzed(es)[i].full_path, analyzed(es)[d].full_path),
    ensures
        analyzed(es)[i].atomic,
        analyzed(es)[i].directory_type == DirectoryType::ProgramRoot,
{
    let kinds = own_kinds(es);
    let p = es[i].full_path;
    let mid = es[d].full_path;
    if below_atomic(es, kinds, mid) {
        let j = choose|j: int|
            0 <= j < es.len() && (#[trigger] es[j]).is_directory && kind_at(kinds, j).atomic()
                && is_descendant(mid, es[j].full_path);
        lemma_descendant_transitive(p, mid, es[j].full_path);
        assert(below_atomic(es, kinds, p));
    } else {
        assert(es[d].is_directory && kind_at(kinds, d).atomic());
        assert(below_atomic(es, kinds, p));
    }
}

/// After the analysis a directory is atomic exactly if its classification
/// is, and the analysis changes nothing of an entry but its classification
/// and its atomic flag.
pub proof fn lemma_analysis_is_consistent(es: Seq<EntryView>, i: int)
    requires
        0 <= i < es.len(),
    ensures
        analyzed(es)[i].is_directory ==> analyzed(es)[i].atomic == analyzed(
            es,
        )[i].directory_type.atomic(),
        analyzed(es)[i] == (EntryView {
            directory_type: analyzed(es)[i].directory_type,
            atomic: analyzed(es)[i].atomic,
            ..es[i]
        }),
{
}

} // verus!
