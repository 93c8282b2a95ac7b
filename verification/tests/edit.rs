use orderly::edit::{join_list, split_list, EditedRuleData};
use orderly::models::{Confidence, FileDescriptor, MoveSuggestion, RuleAction, RuleCondition, RuleDefinition, SuggestionSource};
use orderly::paths::{
    dotted_extension_of, file_name_of, is_descendant_path, is_within_path, join_paths, parent_of,
    with_file_name_of,
};
use orderly::rule_engine::RuleEngine;
use orderly::table::{select, truncate_path, RowFilter, Selection};
use orderly::text::{
    contains_text, decimal_text, ends_with_text, replace_text, same_text_ignore_ascii_case,
    signed_decimal_text, starts_with_text, trim_leading_text, trim_trailing_text,
};

fn entry(path: &str, name: &str) -> FileDescriptor {
    FileDescriptor::new(path.to_string(), name.to_string(), String::new(), 1, 0, false)
}

#[test]
fn lists_are_written_with_commas() {
    assert_eq!(split_list(".pdf, .jpg ,,  , .png"), vec![".pdf", ".jpg", ".png"]);
    assert_eq!(split_list(""), Vec::<String>::new());
    assert_eq!(split_list(" , "), Vec::<String>::new());
    assert_eq!(split_list("one"), vec!["one"]);
    assert_eq!(split_list("a b,c"), vec!["a b", "c"]);
    assert_eq!(split_list("发票，账单,收据"), vec!["发票，账单", "收据"]);
    assert_eq!(join_list(&[".pdf".to_string(), ".jpg".to_string()]), ".pdf, .jpg");
    assert_eq!(join_list(&["x".to_string()]), "x");
    assert_eq!(join_list(&[]), "");
}

#[test]
fn an_edit_sets_fields_and_moves_the_rule_to_its_new_priority() {
    let mut engine = RuleEngine::new("/out".to_string());
    let mut rule = RuleDefinition::new(
        "mine".to_string(),
        RuleCondition::default(),
        RuleAction { move_to: "Old".to_string() },
    );
    rule.id = "mine".to_string();
    rule.priority = 10;
    rule.condition.min_size = Some(5);
    engine.add_rule(rule);
    assert_eq!(engine.get_rules()[6].id, "mine");

    let edit = EditedRuleData::from_fields("renamed", "New/{year}", ".a, .b", "k", "", 90);
    assert_eq!(edit.extensions, vec![".a", ".b"]);
    assert_eq!(edit.keywords, vec!["k"]);
    assert!(edit.tags.is_empty());
    assert!(engine.update_rule("mine", edit));
    let edited = &engine.get_rules()[0];
    assert_eq!(edited.id, "mine");
    assert_eq!(edited.name, "renamed");
    assert_eq!(edited.priority, 90);
    assert_eq!(edited.action.move_to, "New/{year}");
    assert_eq!(edited.condition.file_extensions, vec![".a", ".b"]);
    assert_eq!(edited.condition.min_size, Some(5));
    assert_eq!(engine.get_rules().len(), 7);

    let edit = EditedRuleData::from_fields("x", "y", "", "", "", 1);
    assert!(!engine.update_rule("absent", edit));
    assert_eq!(engine.get_rules().len(), 7);
}

#[test]
fn bulk_selection_respects_atomic_files() {
    let mut atomic_file = entry("/a/x", "x");
    atomic_file.atomic = true;
    atomic_file.selected = false;
    let mut atomic_dir = entry("/a", "a");
    atomic_dir.atomic = true;
    atomic_dir.is_directory = true;
    atomic_dir.selected = false;
    let mut plain = entry("/b", "b");
    plain.selected = true;
    let mut files = vec![atomic_file, atomic_dir, plain];
    let picked = |files: &Vec<FileDescriptor>| files.iter().map(|f| f.selected).collect::<Vec<_>>();

    select(&mut files, Selection::Inverted);
    assert_eq!(picked(&files), vec![false, true, false]);
    select(&mut files, Selection::All);
    assert_eq!(picked(&files), vec![false, true, true]);
    files[0].selected = true;
    select(&mut files, Selection::Inverted);
    assert_eq!(picked(&files), vec![true, false, false]);
    select(&mut files, Selection::Nothing);
    assert_eq!(picked(&files), vec![false, false, false]);
}

#[test]
fn rows_are_filtered_by_text_proposal_and_atomicity() {
    let mut filter = RowFilter {
        filter_text: String::new(),
        show_only_with_suggestion: false,
        hide_atomic_children: true,
    };
    let mut file = entry("/Home/Docs/Report.PDF", "Report.PDF");
    assert!(filter.should_show_file(&file));
    filter.filter_text = "report".to_string();
    assert!(filter.should_show_file(&file));
    filter.filter_text = "DOCS".to_string();
    assert!(filter.should_show_file(&file));
    filter.filter_text = "invoice".to_string();
    assert!(!filter.should_show_file(&file));
    filter.filter_text = String::new();
    filter.show_only_with_suggestion = true;
    assert!(!filter.should_show_file(&file));
    file.suggested_action = Some(MoveSuggestion {
        target_path: "/out".to_string(),
        reason: String::new(),
        source: SuggestionSource::Rule,
        confidence: Confidence::from_millionths(1),
    });
    assert!(filter.should_show_file(&file));
    file.atomic = true;
    assert!(!filter.should_show_file(&file));
    file.is_directory = true;
    assert!(filter.should_show_file(&file));
    file.is_directory = false;
    filter.hide_atomic_children = false;
    assert!(filter.should_show_file(&file));
}

#[test]
fn long_paths_are_cut_from_the_front() {
    assert_eq!(truncate_path("/short", 40), "/short");
    assert_eq!(truncate_path("/0123456789", 8), "...56789");
    assert_eq!(truncate_path("abcdefghij", 10), "abcdefghij");
    assert_eq!(truncate_path("abcdefghijk", 10), "...efghijk");
    assert_eq!(truncate_path("目录目录目录目录", 5), "...目录");
    assert_eq!(truncate_path("abcdef", 2), "abcdef");
    assert_eq!(truncate_path("abcdef", 3), "...");
}

#[test]
fn paths_are_text_with_slashes() {
    assert_eq!(file_name_of("/a/b/c.txt"), "c.txt");
    assert_eq!(file_name_of("c.txt"), "c.txt");
    assert_eq!(file_name_of("/a/b/"), "");
    assert_eq!(file_name_of(""), "");
    assert_eq!(parent_of("/a/b/c.txt"), Some("/a/b".to_string()));
    assert_eq!(parent_of("/a"), Some("/".to_string()));
    assert_eq!(parent_of("a"), Some(String::new()));
    assert_eq!(parent_of("/"), None);
    assert_eq!(parent_of(""), None);
    assert_eq!(join_paths("/a", "b/c"), "/a/b/c");
    assert_eq!(join_paths("/a/", "b"), "/a/b");
    assert_eq!(join_paths("", "b"), "b");
    assert_eq!(join_paths("/a", "/b"), "/b");
    assert_eq!(join_paths("/a", ""), "/a/");
    assert_eq!(with_file_name_of("/a/b.txt", "c.md"), "/a/c.md");
    assert_eq!(with_file_name_of("b.txt", "c.md"), "c.md");
    assert!(is_within_path("/a/b", "/a"));
    assert!(is_within_path("/a", "/a"));
    assert!(is_within_path("/a/b", "/a/"));
    assert!(!is_within_path("/ab", "/a"));
    assert!(!is_within_path("/a", "/a/b"));
    assert!(is_descendant_path("/a/b", "/a"));
    assert!(!is_descendant_path("/a", "/a"));
    assert_eq!(dotted_extension_of("/a.d/b.tar.gz"), ".gz");
    assert_eq!(dotted_extension_of("/a.d/b"), "");
    assert_eq!(dotted_extension_of("/a/.profile"), "");
    assert_eq!(dotted_extension_of("/a/b."), ".");
}

#[test]
fn text_helpers() {
    assert!(contains_text("hello world", "lo w"));
    assert!(contains_text("hello", ""));
    assert!(!contains_text("hello", "world"));
    assert!(!contains_text("", "a"));
    assert!(starts_with_text("发票_2023", "发票"));
    assert!(!starts_with_text("a", "ab"));
    assert!(ends_with_text("a.csproj", ".csproj"));
    assert!(!ends_with_text("proj", ".csproj"));
    assert_eq!(replace_text("a{x}b{x}{x}", "{x}", "1"), "a1b11");
    assert_eq!(replace_text("aaa", "aa", "b"), "ba");
    assert_eq!(replace_text("abc", "", "z"), "abc");
    assert_eq!(replace_text("abc", "abcd", "z"), "abc");
    assert_eq!(replace_text("{year}", "{year}", "{year}{year}"), "{year}{year}");
    assert_eq!(trim_leading_text("...a.b", '.'), "a.b");
    assert_eq!(trim_leading_text("...", '.'), "");
    assert_eq!(trim_trailing_text("http://x///", '/'), "http://x");
    assert_eq!(decimal_text(0), "0");
    assert_eq!(decimal_text(7), "7");
    assert_eq!(decimal_text(1905), "1905");
    assert_eq!(decimal_text(u64::MAX), "18446744073709551615");
    assert_eq!(signed_decimal_text(-42), "-42");
    assert_eq!(signed_decimal_text(i64::MIN), "-9223372036854775808");
    assert_eq!(signed_decimal_text(2024), "2024");
    assert!(same_text_ignore_ascii_case("$RECYCLE.BIN", "$recycle.bin"));
    assert!(!same_text_ignore_ascii_case("É", "é"));
    assert!(!same_text_ignore_ascii_case("ab", "abc"));
}

#[test]
fn paths_in_the_windows_style_are_understood() {
    assert_eq!(file_name_of("C:\\Users\\me\\photo.jpg"), "photo.jpg");
    assert_eq!(parent_of("C:\\Users\\me\\photo.jpg"), Some("C:\\Users\\me".to_string()));
    assert_eq!(parent_of("\\share"), Some("\\".to_string()));
    assert_eq!(join_paths("C:\\out", "Pictures/2024"), "C:\\out/Pictures/2024");
    assert_eq!(join_paths("C:\\out\\", "Pictures"), "C:\\out\\Pictures");
    assert_eq!(join_paths("C:\\out", "\\abs"), "\\abs");
    assert_eq!(with_file_name_of("C:\\out\\renamed.pdf", "keep.pdf"), "C:\\out\\keep.pdf");
    assert!(is_descendant_path("C:\\App\\bin\\x.dll", "C:\\App"));
    assert!(!is_descendant_path("C:\\Apple", "C:\\App"));
    assert_eq!(dotted_extension_of("C:\\a.b\\c"), "");
    let file = FileDescriptor::new(
        "C:\\Users\\me\\photo.jpg".to_string(),
        "photo.jpg".to_string(),
        ".jpg".to_string(),
        1,
        0,
        false,
    );
    assert_eq!(file.parent_dir, "C:\\Users\\me");
}
