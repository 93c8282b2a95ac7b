use orderly::endpoint::{
    effective_endpoint, normalize_ai_endpoint, split_endpoint, AiApiKind, ApiInterfaceKind,
    EndpointError, EndpointParts, UrlSuffixMode,
};
use orderly::models::FileDescriptor;
use orderly::scanner::{get_content_summary, FileScanner};
use orderly::semantic::{
    extract_json, extract_year_from_filename, is_analyzable, is_text_file,
    mock_semantic_analysis,
};

#[test]
fn test_extract_year() {
    assert_eq!(extract_year_from_filename("report_2023.pdf"), Some(2023));
    assert_eq!(extract_year_from_filename("2024_invoice.pdf"), Some(2024));
    assert_eq!(extract_year_from_filename("no_year.pdf"), None);
}

#[test]
fn extract_year_wants_four_digits_by_themselves() {
    assert_eq!(extract_year_from_filename("20231"), None);
    assert_eq!(extract_year_from_filename("12023"), None);
    assert_eq!(extract_year_from_filename("1999_2001"), Some(2001));
    assert_eq!(extract_year_from_filename("2100-2099-2000"), Some(2099));
    assert_eq!(extract_year_from_filename("x2000"), Some(2000));
    assert_eq!(extract_year_from_filename("2000"), Some(2000));
    assert_eq!(extract_year_from_filename("20a23"), None);
    assert_eq!(extract_year_from_filename("年2024月"), Some(2024));
    assert_eq!(extract_year_from_filename("２０２４"), None);
    assert_eq!(extract_year_from_filename(""), None);
    assert_eq!(extract_year_from_filename("202"), None);
}

#[test]
fn local_analysis_tags_by_extension_and_name() {
    let file = FileDescriptor::new(
        "/in/Invoice_Report_2021.PDF".to_string(),
        "Invoice_Report_2021.PDF".to_string(),
        ".PDF".to_string(),
        1,
        0,
        false,
    );
    let result = mock_semantic_analysis(&file);
    assert_eq!(result.tags, vec!["document", "invoice", "report"]);
    assert!(result.entities.is_empty());
    assert_eq!(result.year, Some(2021));
    assert_eq!(result.confidence.millionths(), 600_000);
    assert_eq!(result.explanation, "基于文件名和扩展名的本地分析");

    let plain = FileDescriptor::new(
        "/in/合同.bin".to_string(),
        "合同.bin".to_string(),
        ".bin".to_string(),
        1,
        0,
        false,
    );
    let result = mock_semantic_analysis(&plain);
    assert_eq!(result.tags, vec!["contract"]);
    assert_eq!(result.year, None);
    assert!(is_analyzable(&plain));
    let mut atomic = plain.clone();
    atomic.atomic = true;
    assert!(!is_analyzable(&atomic));
}

#[test]
fn text_files_are_known_by_extension() {
    assert!(is_text_file(".txt"));
    assert!(is_text_file(".RS"));
    assert!(is_text_file(".csv"));
    assert!(!is_text_file(".pdf"));
    assert!(!is_text_file("txt"));
    assert!(!is_text_file(""));
}

#[test]
fn extract_json_takes_the_first_balanced_span() {
    assert_eq!(extract_json("{\"a\": 1}"), "{\"a\": 1}");
    assert_eq!(extract_json("Sure! {\"a\": {\"b\": 2}} Hope it helps {x}"), "{\"a\": {\"b\": 2}}");
    assert_eq!(extract_json("no braces"), "no braces");
    assert_eq!(extract_json("never {closed {x}"), "never {closed {x}");
    assert_eq!(extract_json("} stray {ok}"), "{ok}");
    assert_eq!(extract_json("文{值}后"), "{值}");
    assert_eq!(extract_json(""), "");
}

#[test]
fn scanner_settings_and_filter() {
    let scanner = FileScanner::new("/root".to_string());
    assert_eq!(scanner.root_path(), "/root");
    assert_eq!(scanner.depth_limit(), 0);
    assert!(scanner.should_include("/root", "root", true));
    assert!(scanner.should_include("/root/a.txt", "a.txt", false));
    assert!(!scanner.should_include("/root/.git", ".git", true));
    assert!(!scanner.should_include("/root/.hidden", ".hidden", false));
    assert!(!scanner.should_include("/root/$recycle.bin", "$recycle.bin", true));
    assert!(scanner.should_include("/root/$recycle.bin", "$recycle.bin", false));
    assert!(!scanner.should_include("/root/System Volume Information", "SYSTEM VOLUME INFORMATION", true));

    let scanner = FileScanner::new(".hidden_root".to_string())
        .include_hidden(true)
        .max_depth(3)
        .exclude_dir("Target".to_string());
    assert_eq!(scanner.depth_limit(), 3);
    assert!(scanner.should_include(".hidden_root", ".hidden_root", true));
    assert!(scanner.should_include("/x/.git", ".git", true));
    assert!(!scanner.should_include("/x/target", "target", true));
    assert!(scanner.should_include("/x/target", "target", false));
}

#[test]
fn scanner_records_extension_and_size() {
    let scanner = FileScanner::new("/root".to_string());
    assert!(scanner.create_descriptor("/root".to_string(), "root".to_string(), true, 0, 0).is_none());
    let file = scanner
        .create_descriptor("/root/a/test.txt".to_string(), "test.txt".to_string(), false, 5, 9)
        .unwrap();
    assert_eq!(file.name, "test.txt");
    assert_eq!(file.extension, ".txt");
    assert_eq!(file.size, 5);
    assert_eq!(file.modified_at, 9);
    assert_eq!(file.parent_dir, "/root/a");
    let dir = scanner
        .create_descriptor("/root/a.d".to_string(), "a.d".to_string(), true, 4096, 0)
        .unwrap();
    assert_eq!(dir.extension, "");
    assert_eq!(dir.size, 0);
    assert!(dir.is_directory);
    let archive = scanner
        .create_descriptor("/root/x.tar.gz".to_string(), "x.tar.gz".to_string(), false, 1, 0)
        .unwrap();
    assert_eq!(archive.extension, ".gz");
    let dotfile = scanner
        .create_descriptor("/root/.bashrc".to_string(), ".bashrc".to_string(), false, 1, 0)
        .unwrap();
    assert_eq!(dotfile.extension, "");
    let bare = scanner
        .create_descriptor("/root.d/Makefile".to_string(), "Makefile".to_string(), false, 1, 0)
        .unwrap();
    assert_eq!(bare.extension, "");
}

#[test]
fn content_summary_stops_at_the_limit() {
    let lines = vec!["hello".to_string(), "world".to_string(), "third".to_string()];
    assert_eq!(get_content_summary(&lines, 500), "hello\nworld\nthird\n");
    assert_eq!(get_content_summary(&lines, 8), "hello\nwo");
    assert_eq!(get_content_summary(&lines, 5), "hello\n");
    assert_eq!(get_content_summary(&lines, 6), "hello\n");
    assert_eq!(get_content_summary(&lines, 7), "hello\nw");
    assert_eq!(get_content_summary(&lines, 3), "hel");
    assert_eq!(get_content_summary(&lines, 0), "");
    assert_eq!(get_content_summary(&[], 10), "");
    assert_eq!(get_content_summary(&["发票内容".to_string()], 2), "发票");
}

#[test]
fn endpoints_are_completed_by_kind() {
    let ok = |raw: &str| normalize_ai_endpoint(raw).unwrap();
    assert_eq!(
        ok("  http://localhost:11434/  "),
        (AiApiKind::OllamaGenerate, "http://localhost:11434/api/generate".to_string())
    );
    assert_eq!(
        ok("http://localhost:11434/api/generate"),
        (AiApiKind::OllamaGenerate, "http://localhost:11434/api/generate".to_string())
    );
    assert_eq!(
        ok("https://api.openai.com/v1/responses"),
        (AiApiKind::OpenAIResponses, "https://api.openai.com/v1/responses".to_string())
    );
    assert_eq!(
        ok("https://x.example/v1/chat/completions/"),
        (AiApiKind::OpenAIChatCompletions, "https://x.example/v1/chat/completions".to_string())
    );
    assert_eq!(
        ok("https://x.example/compatible-mode/v1"),
        (
            AiApiKind::OpenAIChatCompletions,
            "https://x.example/compatible-mode/v1/chat/completions".to_string()
        )
    );
    assert_eq!(
        ok("https://api.openai.com"),
        (AiApiKind::OpenAIChatCompletions, "https://api.openai.com/v1/chat/completions".to_string())
    );
    assert_eq!(
        ok("https://x.example/custom"),
        (AiApiKind::OpenAIChatCompletions, "https://x.example/custom".to_string())
    );
    let error = normalize_ai_endpoint(" \t ").unwrap_err();
    assert_eq!(error, EndpointError::Empty);
    assert_eq!(error.message(), "AI API端点为空");
}

#[test]
fn endpoints_are_taken_apart_and_put_together() {
    let parts = split_endpoint("");
    assert_eq!(parts.kind, ApiInterfaceKind::Ollama);
    assert_eq!(parts.base, "http://localhost:11434");
    assert_eq!(parts.mode, UrlSuffixMode::Standard);
    assert_eq!(parts.suffix, "/api/generate");
    assert_eq!(effective_endpoint(&parts), "http://localhost:11434/api/generate");

    let parts = split_endpoint(" http://host:11434/api/chat/ ");
    assert_eq!(parts.kind, ApiInterfaceKind::Ollama);
    assert_eq!(parts.base, "http://host:11434");
    assert_eq!(parts.mode, UrlSuffixMode::Custom);
    assert_eq!(parts.suffix, "/api/chat");
    assert_eq!(effective_endpoint(&parts), "http://host:11434/api/chat");

    let parts = split_endpoint("https://api.openai.com/v1/chat/completions");
    assert_eq!(parts.kind, ApiInterfaceKind::OpenAIChatCompletions);
    assert_eq!(parts.base, "https://api.openai.com");
    assert_eq!(parts.mode, UrlSuffixMode::Standard);

    let parts = split_endpoint("https://api.openai.com/v1/responses?x=1");
    assert_eq!(parts.kind, ApiInterfaceKind::OpenAIResponses);
    assert_eq!(parts.mode, UrlSuffixMode::Custom);
    assert_eq!(parts.suffix, "/v1/responses?x=1");

    let parts = split_endpoint("https://h.example/v1/embeddings");
    assert_eq!(parts.kind, ApiInterfaceKind::OpenAIChatCompletions);
    assert_eq!(parts.mode, UrlSuffixMode::Custom);

    let parts = split_endpoint("https://h.example/api/chat/completions");
    assert_eq!(parts.kind, ApiInterfaceKind::OpenAIChatCompletions);
    assert_eq!(parts.base, "https://h.example/api");
    assert_eq!(parts.suffix, "/chat/completions");

    let parts = split_endpoint("https://h.example/run");
    assert_eq!(parts.kind, ApiInterfaceKind::Custom);
    assert_eq!(parts.base, "https://h.example/run");
    assert_eq!(parts.suffix, "");
    assert_eq!(effective_endpoint(&parts), "https://h.example/run");

    let custom = EndpointParts {
        kind: ApiInterfaceKind::OpenAIResponses,
        base: " https://h.example// ".to_string(),
        mode: UrlSuffixMode::Custom,
        suffix: " mine ".to_string(),
    };
    assert_eq!(effective_endpoint(&custom), "https://h.example/mine");
    let empty = EndpointParts {
        kind: ApiInterfaceKind::Ollama,
        base: " / ".to_string(),
        mode: UrlSuffixMode::Standard,
        suffix: String::new(),
    };
    assert_eq!(effective_endpoint(&empty), "");
    assert_eq!(ApiInterfaceKind::Ollama.standard_suffix(), Some("/api/generate"));
    assert_eq!(ApiInterfaceKind::Custom.standard_suffix(), None);
    assert_eq!(ApiInterfaceKind::Custom.label(), "自定义（完整URL）");
}

#[test]
fn scanner_skips_hidden_and_excluded_entries_of_a_walk() {
    let scanner = FileScanner::new("/r".to_string()).exclude_dir("skipme".to_string());
    let walk = [
        ("/r", "r", true),
        ("/r/a.txt", "a.txt", false),
        ("/r/.cache", ".cache", true),
        ("/r/SkipMe", "SkipMe", true),
        ("/r/sub", "sub", true),
        ("/r/sub/b.md", "b.md", false),
    ];
    let kept: Vec<&str> = walk
        .iter()
        .filter(|(p, n, d)| scanner.should_include(p, n, *d))
        .filter_map(|(p, n, d)| scanner.create_descriptor(p.to_string(), n.to_string(), *d, 1, 0))
        .map(|f| if f.is_directory { "dir" } else { "file" })
        .collect();
    assert_eq!(kept, vec!["file", "dir", "file"]);
}
