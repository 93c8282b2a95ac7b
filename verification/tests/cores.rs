use orderly::boundary::{
    is_below_atomic, quick_verdict_of, spread_atomicity, starts_with_listed, verdict_of,
    BoundaryAnalyzer, Child, Signal, Signs,
};
use orderly::digest::digest_text_of;
use orderly::edit::{comma_pieces, drop_empty, trim_all};
use orderly::endpoint::{
    complete_endpoint, join_address, split_cleaned, AiApiKind, ApiInterfaceKind, UrlSuffixMode,
};
use orderly::models::{
    fill_placeholders, DirectoryType, FileDescriptor, RuleCondition, Subject,
};
use orderly::rule_engine::{first_open_gate, Gate, RuleEngine};
use orderly::semantic::{is_text_extension, tags_of};
use orderly::table::holds_wanted;
use orderly::text::{list_has, list_has_part, lists_share, lower_all};

fn texts(list: &[&str]) -> Vec<String> {
    list.iter().map(|s| s.to_string()).collect()
}

fn no_signs() -> Signs {
    Signs {
        system_path: false,
        environment_name: false,
        executable: false,
        shared_library: false,
        project_marker: false,
        environment_directory: false,
        program_marker: false,
        bin_directory: false,
        lib_directory: false,
    }
}

#[test]
fn the_first_sign_that_applies_decides() {
    assert_eq!(verdict_of(no_signs()), DirectoryType::Normal);
    let all = Signs {
        system_path: true,
        environment_name: true,
        executable: true,
        shared_library: true,
        project_marker: true,
        environment_directory: true,
        program_marker: true,
        bin_directory: true,
        lib_directory: true,
    };
    assert_eq!(verdict_of(all), DirectoryType::System);
    assert_eq!(verdict_of(Signs { system_path: false, ..all }), DirectoryType::VirtualEnv);
    assert_eq!(
        verdict_of(Signs { system_path: false, environment_name: false, ..all }),
        DirectoryType::ProgramRoot
    );
    assert_eq!(
        verdict_of(Signs { executable: true, shared_library: true, ..no_signs() }),
        DirectoryType::ProgramRoot
    );
    assert_eq!(verdict_of(Signs { executable: true, ..no_signs() }), DirectoryType::Normal);
    assert_eq!(verdict_of(Signs { shared_library: true, ..no_signs() }), DirectoryType::Normal);
    assert_eq!(verdict_of(Signs { project_marker: true, ..no_signs() }), DirectoryType::Normal);
    assert_eq!(verdict_of(Signs { program_marker: true, ..no_signs() }), DirectoryType::Normal);
    assert_eq!(
        verdict_of(Signs { project_marker: true, program_marker: true, ..no_signs() }),
        DirectoryType::ProgramRoot
    );
    assert_eq!(
        verdict_of(Signs { project_marker: true, environment_directory: true, ..no_signs() }),
        DirectoryType::ProgramRoot
    );
    assert_eq!(
        verdict_of(Signs { environment_directory: true, ..no_signs() }),
        DirectoryType::Normal
    );
    assert_eq!(
        verdict_of(Signs { bin_directory: true, lib_directory: true, ..no_signs() }),
        DirectoryType::ProgramRoot
    );
    assert_eq!(verdict_of(Signs { bin_directory: true, ..no_signs() }), DirectoryType::Normal);
}

#[test]
fn a_child_tells_by_its_lower_case_name_and_extension() {
    let analyzer = BoundaryAnalyzer::new();
    let child = |name: &str, lower_name: &str, lower_extension: &str, is_directory: bool| Child {
        name: name.to_string(),
        lower_name: lower_name.to_string(),
        lower_extension: lower_extension.to_string(),
        is_directory,
    };
    let exe = child("Run.EXE", "run.exe", ".exe", false);
    assert!(analyzer.child_tells(&exe, Signal::Executable));
    assert!(analyzer.child_tells(&exe, Signal::ProgramMarker));
    assert!(!analyzer.child_tells(&exe, Signal::SharedLibrary));
    // Held against the tables as written: a capital in the table is never met in lower case.
    let plist = child("Info.plist", "info.plist", ".plist", false);
    assert!(!analyzer.child_tells(&plist, Signal::ProgramMarker));
    let cargo = child("Cargo.toml", "cargo.toml", ".toml", false);
    assert!(analyzer.child_tells(&cargo, Signal::ProjectMarker));
    let cargo_lower = child("cargo.toml", "cargo.toml", ".toml", false);
    assert!(!analyzer.child_tells(&cargo_lower, Signal::ProjectMarker));
    let setup = child("SETUP.PY", "setup.py", ".py", false);
    assert!(analyzer.child_tells(&setup, Signal::ProjectMarker));
    let lib_dir = child("Lib", "lib", "", true);
    assert!(analyzer.child_tells(&lib_dir, Signal::LibDirectory));
    assert!(!analyzer.child_tells(&lib_dir, Signal::BinDirectory));
    let lib_file = child("lib", "lib", "", false);
    assert!(!analyzer.child_tells(&lib_file, Signal::LibDirectory));
    let modules = child("node_modules", "node_modules", "", true);
    assert!(analyzer.child_tells(&modules, Signal::EnvironmentDirectory));
    let bin = child("bin", "bin", "", true);
    assert!(analyzer.child_tells(&bin, Signal::EnvironmentDirectory));
    assert!(analyzer.child_tells(&bin, Signal::BinDirectory));
}

#[test]
fn atomicity_spreads_from_the_given_classifications() {
    let entry = |path: &str, is_directory: bool| {
        FileDescriptor::new(path.to_string(), String::new(), String::new(), 0, 0, is_directory)
    };
    let mut files = vec![
        entry("/a", true),
        entry("/a/b", true),
        entry("/a/b/c.txt", false),
        entry("/ab", true),
        entry("/d", true),
        entry("/d/e.txt", false),
        entry("/f.txt", false),
    ];
    files[6].atomic = true;
    let kinds = vec![
        DirectoryType::System,
        DirectoryType::Normal,
        DirectoryType::System,
        DirectoryType::VirtualEnv,
        DirectoryType::Normal,
    ];
    assert!(is_below_atomic(&files, &kinds, "/a/x"));
    assert!(!is_below_atomic(&files, &kinds, "/a"));
    assert!(!is_below_atomic(&files, &kinds, "/d/x"));
    assert!(is_below_atomic(&files, &kinds, "/ab/x"));
    assert!(!is_below_atomic(&files, &kinds, "/abc"));
    assert!(!is_below_atomic(&files, &kinds, "/f.txt/x"));
    spread_atomicity(&mut files, &kinds);
    let seen: Vec<(DirectoryType, bool)> =
        files.iter().map(|f| (f.directory_type, f.atomic)).collect();
    assert_eq!(
        seen,
        vec![
            (DirectoryType::System, true),
            (DirectoryType::ProgramRoot, true),
            (DirectoryType::ProgramRoot, true),
            (DirectoryType::VirtualEnv, true),
            (DirectoryType::Normal, false),
            (DirectoryType::Normal, false),
            (DirectoryType::Normal, true),
        ]
    );
}

#[test]
fn lists_are_searched_as_written() {
    let list = texts(&["/usr", "c:\\windows"]);
    assert!(starts_with_listed(&list, "/usr/bin"));
    assert!(starts_with_listed(&list, "c:\\windows\\system32"));
    assert!(!starts_with_listed(&list, "C:\\Windows"));
    assert!(!starts_with_listed(&[], "/usr"));
    assert!(list_has(&list, "/usr"));
    assert!(!list_has(&list, "/USR"));
    assert!(list_has_part(&texts(&["sr", "zz"]), "/usr"));
    assert!(!list_has_part(&texts(&["SR"]), "/usr"));
    assert!(lists_share(&texts(&["a", "b"]), &texts(&["c", "b"])));
    assert!(!lists_share(&texts(&["a"]), &texts(&["A"])));
    assert_eq!(lower_all(&texts(&["ABC", "déjà", "ÀÉ"])), vec!["abc", "déjà", "àé"]);
    assert!(holds_wanted("report.pdf", "/home/docs", "docs"));
    assert!(!holds_wanted("report.pdf", "/home/docs", "DOCS"));
}

#[test]
fn a_quick_look_reads_lower_case_names() {
    assert!(quick_verdict_of(&texts(&["a.exe", "b.dll"]), false));
    assert!(!quick_verdict_of(&texts(&["a.EXE", "b.dll"]), false));
    assert!(quick_verdict_of(&texts(&["node_modules"]), false));
    assert!(!quick_verdict_of(&texts(&["cargo.toml"]), false));
    assert!(quick_verdict_of(&texts(&["cargo.toml"]), true));
    assert!(!quick_verdict_of(&texts(&["Cargo.toml"]), true));
}

#[test]
fn a_subject_meets_a_condition_as_written() {
    let subject = |extension: &str, name: &str, path: &str, tags: Option<&[&str]>, size: u64| {
        Subject {
            extension: extension.to_string(),
            name: name.to_string(),
            full_path: path.to_string(),
            tags: tags.map(texts),
            size,
        }
    };
    let mut condition = RuleCondition::default();
    assert!(condition.is_met_by(&subject(".x", "n", "/p", None, 0)));
    condition.file_extensions = texts(&[".pdf", ".jpg"]);
    assert!(condition.is_met_by(&subject(".jpg", "n", "/p", None, 0)));
    assert!(!condition.is_met_by(&subject(".JPG", "n", "/p", None, 0)));
    condition.filename_keywords = texts(&["invoice"]);
    assert!(condition.is_met_by(&subject(".jpg", "my invoice 7", "/p", None, 0)));
    assert!(!condition.is_met_by(&subject(".jpg", "my bill", "/p", None, 0)));
    condition.semantic_tags = texts(&["work"]);
    assert!(!condition.is_met_by(&subject(".jpg", "invoice", "/p", None, 0)));
    assert!(!condition.is_met_by(&subject(".jpg", "invoice", "/p", Some(&["home"]), 0)));
    assert!(condition.is_met_by(&subject(".jpg", "invoice", "/p", Some(&["home", "work"]), 0)));
    condition.directory_excludes = texts(&["/tmp/"]);
    assert!(!condition.is_met_by(&subject(".jpg", "invoice", "/tmp/p", Some(&["work"]), 0)));
    condition.min_size = Some(10);
    condition.max_size = Some(20);
    assert!(!condition.is_met_by(&subject(".jpg", "invoice", "/p", Some(&["work"]), 9)));
    assert!(condition.is_met_by(&subject(".jpg", "invoice", "/p", Some(&["work"]), 10)));
    assert!(condition.is_met_by(&subject(".jpg", "invoice", "/p", Some(&["work"]), 20)));
    assert!(!condition.is_met_by(&subject(".jpg", "invoice", "/p", Some(&["work"]), 21)));
    let lowered = RuleCondition {
        semantic_tags: texts(&["Work"]),
        file_extensions: texts(&[".PDF"]),
        filename_keywords: texts(&["INVOICE"]),
        directory_excludes: texts(&["/TMP/"]),
        min_size: Some(1),
        max_size: None,
    }
    .lowered();
    assert_eq!(lowered.semantic_tags, vec!["work"]);
    assert_eq!(lowered.file_extensions, vec![".pdf"]);
    assert_eq!(lowered.filename_keywords, vec!["invoice"]);
    assert_eq!(lowered.directory_excludes, vec!["/tmp/"]);
    assert_eq!(lowered.min_size, Some(1));
    assert_eq!(lowered.max_size, None);
}

#[test]
fn placeholders_are_filled_from_what_is_given() {
    let year = Some("2024".to_string());
    let month = Some("06".to_string());
    assert_eq!(
        fill_placeholders("Pictures/{year}/{month}", None, &year, ".jpg", &month),
        "Pictures/2024/06"
    );
    assert_eq!(
        fill_placeholders("Pictures/{year}/{month}", Some(1999), &year, ".jpg", &month),
        "Pictures/1999/06"
    );
    assert_eq!(fill_placeholders("{extension}/{year}", Some(-5), &None, "..tar", &None), "tar/-5");
    assert_eq!(fill_placeholders("{year}/{month}", None, &None, "", &None), "{year}/{month}");
    assert_eq!(fill_placeholders("{year}{year}", None, &year, "", &month), "20242024");
    assert_eq!(fill_placeholders("{extension}", None, &year, "{month}", &month), "06");
    assert_eq!(fill_placeholders("plain", Some(1), &year, ".x", &month), "plain");
}

#[test]
fn a_digest_is_written_as_sixteen_bytes_in_hexadecimal() {
    let digest: Vec<u8> = (0u8..32).map(|b| b.wrapping_mul(17)).collect();
    assert_eq!(digest_text_of(digest), "00112233445566778899aabbccddeeff");
    assert_eq!(digest_text_of(vec![0x0f, 0xa0, 0xff]), "0fa0ff");
    assert_eq!(digest_text_of(Vec::new()), "");
}

#[test]
fn tags_come_from_lower_case_names() {
    assert_eq!(tags_of("invoice report.pdf", ".pdf"), vec!["document", "invoice", "report"]);
    assert_eq!(tags_of("Invoice", ".PDF"), Vec::<String>::new());
    assert_eq!(tags_of("发票和合同", ".jpeg"), vec!["image", "invoice", "contract"]);
    assert_eq!(tags_of("x", ".docx"), vec!["word"]);
    assert_eq!(tags_of("x", ".xls"), vec!["excel"]);
    assert_eq!(tags_of("x", ".wav"), vec!["audio"]);
    assert_eq!(tags_of("x", ".avi"), vec!["video"]);
    assert!(is_text_extension(".toml"));
    assert!(!is_text_extension(".TOML"));
}

#[test]
fn cleaned_addresses_are_completed_and_cut() {
    assert_eq!(
        complete_endpoint("http://localhost:11434"),
        (AiApiKind::OllamaGenerate, "http://localhost:11434/api/generate".to_string())
    );
    assert_eq!(
        complete_endpoint("http://my-ollama/api/generate"),
        (AiApiKind::OllamaGenerate, "http://my-ollama/api/generate".to_string())
    );
    assert_eq!(
        complete_endpoint("https://h/v1"),
        (AiApiKind::OpenAIChatCompletions, "https://h/v1/chat/completions".to_string())
    );
    assert_eq!(
        complete_endpoint(""),
        (AiApiKind::OpenAIChatCompletions, String::new())
    );
    let parts = split_cleaned("https://h/v1/responses");
    assert_eq!(parts.kind, ApiInterfaceKind::OpenAIResponses);
    assert_eq!(parts.base, "https://h");
    assert_eq!(parts.mode, UrlSuffixMode::Standard);
    assert_eq!(parts.suffix, "/v1/responses");
    let parts = split_cleaned("http://ollama.local");
    assert_eq!(parts.kind, ApiInterfaceKind::Ollama);
    assert_eq!(parts.base, "http://ollama.local");
    assert_eq!(parts.suffix, "/api/generate");
    assert_eq!(join_address(ApiInterfaceKind::Ollama, "http://h", "/api/generate"), "http://h/api/generate");
    assert_eq!(join_address(ApiInterfaceKind::Ollama, "http://h", "api"), "http://h/api");
    assert_eq!(join_address(ApiInterfaceKind::Ollama, "http://h", ""), "http://h");
    assert_eq!(join_address(ApiInterfaceKind::Custom, "http://h", "/x"), "http://h");
    assert_eq!(join_address(ApiInterfaceKind::Ollama, "", "/x"), "");
}

#[test]
fn a_list_is_cut_at_commas_trimmed_and_cleared_of_empty_items() {
    assert_eq!(comma_pieces("a, b,,c "), vec!["a", " b", "", "c "]);
    assert_eq!(comma_pieces(""), vec![""]);
    assert_eq!(comma_pieces(","), vec!["", ""]);
    assert_eq!(comma_pieces("no comma"), vec!["no comma"]);
    assert_eq!(trim_all(&texts(&[" a ", "\tb\n", "  ", ""])), vec!["a", "b", "", ""]);
    assert_eq!(drop_empty(&texts(&["a", "", "b", ""])), vec!["a", "b"]);
    assert_eq!(drop_empty(&texts(&["", ""])), Vec::<String>::new());
    assert_eq!(drop_empty(&texts(&[" "])), vec![" "]);
}

#[test]
fn the_first_open_gate_that_is_met_is_taken() {
    let gate = |enabled: bool, extension: &str| {
        let mut condition = RuleCondition::default();
        condition.file_extensions = texts(&[extension]);
        Gate { enabled, condition }
    };
    let subject = Subject {
        extension: ".pdf".to_string(),
        name: "n".to_string(),
        full_path: "/p".to_string(),
        tags: None,
        size: 0,
    };
    let gates = vec![gate(true, ".jpg"), gate(false, ".pdf"), gate(true, ".pdf"), gate(true, ".pdf")];
    assert_eq!(first_open_gate(&gates, &subject), Some(2));
    assert_eq!(first_open_gate(&gates[..2], &subject), None);
    assert_eq!(first_open_gate(&[], &subject), None);
    let upper = vec![gate(true, ".PDF")];
    assert_eq!(first_open_gate(&upper, &subject), None);

    let engine = RuleEngine::new("/out".to_string());
    let gates = engine.gates();
    assert_eq!(gates.len(), 6);
    assert!(gates.iter().all(|g| g.enabled));
    assert_eq!(gates[0].condition.filename_keywords[0], "发票");
    assert_eq!(first_open_gate(&gates, &subject), Some(4));
    let invoice = Subject { name: "an invoice".to_string(), ..subject };
    assert_eq!(first_open_gate(&gates, &invoice), Some(0));
}
