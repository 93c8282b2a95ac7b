use orderly::boundary::{quick_check_atomic, BoundaryAnalyzer, Signal};
use orderly::models::{DirectoryType, FileDescriptor};

fn dir(path: &str, name: &str) -> FileDescriptor {
    FileDescriptor::new(path.to_string(), name.to_string(), String::new(), 0, 0, true)
}

fn file(path: &str, name: &str, extension: &str) -> FileDescriptor {
    FileDescriptor::new(path.to_string(), name.to_string(), extension.to_string(), 10, 0, false)
}

#[test]
fn test_system_path_detection() {
    let analyzer = BoundaryAnalyzer::new();

    assert!(analyzer.is_system_path("C:\\Windows\\System32"));
    assert!(analyzer.is_system_path("C:\\Program Files\\SomeApp"));
    assert!(!analyzer.is_system_path("D:\\MyDocuments"));
}

#[test]
fn system_path_ignores_case_and_knows_unix_prefixes() {
    let analyzer = BoundaryAnalyzer::new();
    assert!(analyzer.is_system_path("c:\\WINDOWS\\system32"));
    assert!(analyzer.is_system_path("/usr/local/bin"));
    assert!(analyzer.is_system_path("/Applications/Safari.app"));
    assert!(analyzer.is_system_path("/ETC/hosts"));
    assert!(!analyzer.is_system_path("/home/user/usr"));
    assert!(!analyzer.is_system_path(""));
}

#[test]
fn directory_type_atomicity() {
    assert!(!DirectoryType::Normal.is_atomic());
    assert!(DirectoryType::ProgramRoot.is_atomic());
    assert!(DirectoryType::VirtualEnv.is_atomic());
    assert!(DirectoryType::PackageRepo.is_atomic());
    assert!(DirectoryType::System.is_atomic());
    assert_eq!(DirectoryType::default(), DirectoryType::Normal);
}

#[test]
fn executable_beside_library_makes_a_program_root() {
    let analyzer = BoundaryAnalyzer::new();
    let mut files = vec![
        dir("/home/u/App", "App"),
        file("/home/u/App/run.EXE", "run.EXE", ".EXE"),
        file("/home/u/App/core.dll", "core.dll", ".dll"),
        file("/home/u/readme.txt", "readme.txt", ".txt"),
    ];
    analyzer.analyze(&mut files);
    assert_eq!(files[0].directory_type, DirectoryType::ProgramRoot);
    assert!(files[0].atomic);
    assert!(files[1].atomic);
    assert_eq!(files[1].directory_type, DirectoryType::ProgramRoot);
    assert!(files[2].atomic);
    assert!(!files[3].atomic);
    assert_eq!(files[3].directory_type, DirectoryType::Normal);
}

#[test]
fn descendants_of_an_atomic_directory_are_atomic() {
    let analyzer = BoundaryAnalyzer::new();
    let mut files = vec![
        dir("/w/proj/node_modules", "node_modules"),
        dir("/w/proj/node_modules/left", "left"),
        file("/w/proj/node_modules/left/index.js", "index.js", ".js"),
        file("/w/proj/node_modules_notes.txt", "node_modules_notes.txt", ".txt"),
        dir("/w/proj", "proj"),
    ];
    analyzer.analyze(&mut files);
    assert_eq!(files[0].directory_type, DirectoryType::VirtualEnv);
    assert!(files[0].atomic);
    assert!(files[1].atomic);
    assert_eq!(files[1].directory_type, DirectoryType::ProgramRoot);
    assert!(files[2].atomic);
    assert_eq!(files[2].directory_type, DirectoryType::ProgramRoot);
    // A sibling whose path merely begins with the same letters is not below it.
    assert!(!files[3].atomic);
    assert!(!files[4].atomic);
    assert_eq!(files[4].directory_type, DirectoryType::Normal);
}

#[test]
fn project_marker_alone_is_not_atomic() {
    let analyzer = BoundaryAnalyzer::new();
    let mut files = vec![
        dir("/w/app", "app"),
        file("/w/app/package.json", "package.json", ".json"),
        file("/w/app/index.js", "index.js", ".js"),
    ];
    analyzer.analyze(&mut files);
    assert_eq!(files[0].directory_type, DirectoryType::Normal);
    assert!(!files[0].atomic);
    assert!(!files[1].atomic);
}

#[test]
fn project_marker_with_environment_child_is_atomic() {
    let analyzer = BoundaryAnalyzer::new();
    let mut files = vec![
        dir("/w/app", "app"),
        file("/w/app/package.json", "package.json", ".json"),
        dir("/w/app/node_modules", "node_modules"),
        file("/w/app/index.js", "index.js", ".js"),
    ];
    analyzer.analyze(&mut files);
    assert_eq!(files[0].directory_type, DirectoryType::ProgramRoot);
    assert!(files[0].atomic);
    assert!(files[3].atomic);
}

#[test]
fn project_marker_with_program_file_is_atomic() {
    let analyzer = BoundaryAnalyzer::new();
    let mut files = vec![
        dir("/w/tool", "tool"),
        file("/w/tool/Cargo.toml", "Cargo.toml", ".toml"),
        file("/w/tool/helper.so", "helper.so", ".so"),
    ];
    let (kind, atomic) = analyzer.analyze_directory("/w/tool", &files);
    assert_eq!(kind, DirectoryType::ProgramRoot);
    assert!(atomic);
    analyzer.analyze(&mut files);
    assert!(files[0].atomic);
}

#[test]
fn bin_beside_lib_makes_a_program_root() {
    let analyzer = BoundaryAnalyzer::new();
    let mut files = vec![
        dir("/w/sdk", "sdk"),
        dir("/w/sdk/Bin", "Bin"),
        dir("/w/sdk/LIB", "LIB"),
        dir("/w/other", "other"),
        dir("/w/other/lib", "lib"),
    ];
    analyzer.analyze(&mut files);
    assert_eq!(files[0].directory_type, DirectoryType::ProgramRoot);
    // `bin` is itself the name of a build output.
    assert_eq!(files[1].directory_type, DirectoryType::ProgramRoot);
    assert!(files[1].atomic);
    assert_eq!(files[3].directory_type, DirectoryType::Normal);
    assert_eq!(files[4].directory_type, DirectoryType::Normal);
}

#[test]
fn system_path_wins_over_other_signals() {
    let analyzer = BoundaryAnalyzer::new();
    let files = vec![
        dir("/usr/share/app", "app"),
        file("/usr/share/app/a.exe", "a.exe", ".exe"),
        file("/usr/share/app/a.dll", "a.dll", ".dll"),
    ];
    let (kind, atomic) = analyzer.analyze_directory("/usr/share/app", &files);
    assert_eq!(kind, DirectoryType::System);
    assert!(atomic);
}

#[test]
fn entry_signals() {
    let analyzer = BoundaryAnalyzer::new();
    let exe = file("/a/x.exe", "x.exe", ".exe");
    assert!(analyzer.entry_shows(&exe, Signal::Executable));
    assert!(analyzer.entry_shows(&exe, Signal::ProgramMarker));
    assert!(!analyzer.entry_shows(&exe, Signal::SharedLibrary));
    let make = file("/a/Makefile", "Makefile", "");
    assert!(analyzer.entry_shows(&make, Signal::ProjectMarker));
    let solution = file("/a/big.sln", "big.sln", ".sln");
    assert!(analyzer.entry_shows(&solution, Signal::ProjectMarker));
    let venv = dir("/a/.venv", ".venv");
    assert!(analyzer.entry_shows(&venv, Signal::EnvironmentDirectory));
    let venv_file = file("/a/venv", "venv", "");
    assert!(!analyzer.entry_shows(&venv_file, Signal::EnvironmentDirectory));
    assert!(analyzer.has_child_showing(&vec![exe], "/a", Signal::Executable));
    assert!(!analyzer.has_child_showing(&vec![make], "/b", Signal::ProjectMarker));
}

#[test]
fn is_in_program_directory_walks_upwards() {
    let analyzer = BoundaryAnalyzer::new();
    let mut files = vec![
        dir("/w/App", "App"),
        file("/w/App/run.exe", "run.exe", ".exe"),
        file("/w/App/core.dll", "core.dll", ".dll"),
        dir("/w/App/data", "data"),
        file("/w/App/data/deep/x.bin", "x.bin", ".bin"),
        file("/w/free.txt", "free.txt", ".txt"),
    ];
    analyzer.analyze(&mut files);
    assert!(analyzer.is_in_program_directory(&files[1], &files));
    assert!(analyzer.is_in_program_directory(&files[4], &files));
    assert!(!analyzer.is_in_program_directory(&files[5], &files));
}

#[test]
fn quick_check_signals() {
    let names = |list: &[&str]| list.iter().map(|s| s.to_string()).collect::<Vec<String>>();
    assert!(quick_check_atomic(&names(&["a.EXE", "b.dll"]), false));
    assert!(!quick_check_atomic(&names(&["a.exe", "b.txt"]), false));
    assert!(quick_check_atomic(&names(&["node_modules"]), false));
    assert!(quick_check_atomic(&names(&["__pycache__"]), false));
    assert!(quick_check_atomic(&names(&[".venv"]), false));
    assert!(quick_check_atomic(&names(&["Cargo.toml", "src"]), true));
    assert!(!quick_check_atomic(&names(&["Cargo.toml", "src"]), false));
    assert!(!quick_check_atomic(&names(&["package.json"]), true));
    assert!(!quick_check_atomic(&names(&[]), true));
}
