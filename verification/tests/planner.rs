use orderly::models::{Confidence, FileDescriptor, MovePlan, MoveSuggestion, SuggestionSource};
use orderly::planner::{destination_of, PlanStats, Planner, ValidationErrorType};
use orderly::rule_engine::RuleEngine;
use orderly::table::TableStats;

fn suggestion(target: &str, reason: &str, source: SuggestionSource, millionths: u32) -> MoveSuggestion {
    MoveSuggestion {
        target_path: target.to_string(),
        reason: reason.to_string(),
        source,
        confidence: Confidence::from_millionths(millionths),
    }
}

fn entry(path: &str, name: &str, target: Option<(&str, u32)>) -> FileDescriptor {
    let mut f = FileDescriptor::new(path.to_string(), name.to_string(), String::new(), 1, 0, false);
    f.suggested_action = target.map(|(t, c)| suggestion(t, "why", SuggestionSource::Rule, c));
    f
}

fn planner() -> Planner {
    Planner::new("/output".to_string(), Confidence::from_millionths(500_000))
}

#[test]
fn test_fuse_suggestions() {
    let planner = Planner::new("/output".to_string(), Confidence::from_millionths(500_000));

    let rule = MoveSuggestion {
        target_path: "/output/Documents".to_string(),
        reason: "规则匹配".to_string(),
        source: SuggestionSource::Rule,
        confidence: Confidence::from_millionths(900_000),
    };

    let ai = MoveSuggestion {
        target_path: "/output/Documents".to_string(),
        reason: "AI建议".to_string(),
        source: SuggestionSource::AI,
        confidence: Confidence::from_millionths(800_000),
    };

    let fused = planner.fuse_suggestions(Some(&rule), Some(&ai));
    assert!(fused.is_some());

    let fused = fused.unwrap();
    assert!(fused.confidence.millionths() > 900_000);
}

#[test]
fn fusion_in_agreement_boosts_the_blend() {
    let rule = suggestion("/o/D", "r", SuggestionSource::Rule, 900_000);
    let ai = suggestion("/o/D", "a", SuggestionSource::AI, 800_000);
    let fused = planner().fuse_suggestions(Some(&rule), Some(&ai)).unwrap();
    assert_eq!(fused.confidence.millionths(), 946_000);
    assert_eq!(fused.target_path, "/o/D");
    assert_eq!(fused.source, SuggestionSource::Rule);
    assert_eq!(fused.reason, "规则+AI一致: r | a");
    let sure = suggestion("/o/D", "r", SuggestionSource::Rule, 1_000_000);
    let fused = planner().fuse_suggestions(Some(&sure), Some(&sure)).unwrap();
    assert_eq!(fused.confidence.millionths(), 1_000_000);
    let none = suggestion("/o/D", "r", SuggestionSource::Rule, 0);
    let fused = planner().fuse_suggestions(Some(&none), Some(&none)).unwrap();
    assert_eq!(fused.confidence.millionths(), 0);
}

#[test]
fn fusion_in_disagreement_takes_the_higher_weighted_score() {
    let rule = suggestion("/o/R", "r", SuggestionSource::Rule, 900_000);
    let ai = suggestion("/o/A", "a", SuggestionSource::AI, 800_000);
    let fused = planner().fuse_suggestions(Some(&rule), Some(&ai)).unwrap();
    assert_eq!(fused.target_path, "/o/R");
    assert_eq!(fused.source, SuggestionSource::Rule);
    assert_eq!(fused.confidence.millionths(), 860_000);
    assert_eq!(fused.reason, "规则优先: r");

    let weak = suggestion("/o/R", "r", SuggestionSource::Rule, 300_000);
    let strong = suggestion("/o/A", "a", SuggestionSource::AI, 900_000);
    let fused = planner().fuse_suggestions(Some(&weak), Some(&strong)).unwrap();
    assert_eq!(fused.target_path, "/o/A");
    assert_eq!(fused.source, SuggestionSource::AI);
    assert_eq!(fused.confidence.millionths(), 540_000);
    assert_eq!(fused.reason, "AI建议: a");

    // 0.6 x 0.4 against 0.4 x 0.6: a tie goes to the rule.
    let four = suggestion("/o/R", "r", SuggestionSource::Rule, 400_000);
    let six = suggestion("/o/A", "a", SuggestionSource::AI, 600_000);
    let fused = planner().fuse_suggestions(Some(&four), Some(&six)).unwrap();
    assert_eq!(fused.target_path, "/o/R");
    assert_eq!(fused.confidence.millionths(), 480_000);
}

#[test]
fn fusion_passes_a_single_suggestion_through() {
    let rule = suggestion("/o/R", "r", SuggestionSource::Memory, 123_456);
    let fused = planner().fuse_suggestions(Some(&rule), None).unwrap();
    assert_eq!(fused.target_path, "/o/R");
    assert_eq!(fused.reason, "r");
    assert_eq!(fused.source, SuggestionSource::Memory);
    assert_eq!(fused.confidence.millionths(), 123_456);
    let fused = planner().fuse_suggestions(None, Some(&rule)).unwrap();
    assert_eq!(fused.target_path, "/o/R");
    assert_eq!(fused.confidence.millionths(), 123_456);
    assert!(planner().fuse_suggestions(None, None).is_none());
}

#[test]
fn destination_keeps_the_name_of_the_file() {
    assert_eq!(destination_of("OUT/Documents/2024", "note.txt"), "OUT/Documents/2024/note.txt");
    assert_eq!(
        destination_of("OUT/Documents/2024/renamed.pdf", "keepname.pdf"),
        "OUT/Documents/2024/keepname.pdf"
    );
    assert_eq!(
        destination_of("OUT/Documents/2024/keepname", "keepname"),
        "OUT/Documents/2024/keepname"
    );
    assert_eq!(destination_of("OUT/v1.2", "a.txt"), "OUT/a.txt");
    assert_eq!(destination_of("OUT/dir/", "a.txt"), "OUT/dir/a.txt");
    assert_eq!(destination_of("", "a.txt"), "a.txt");
    assert_eq!(destination_of("renamed.pdf", "a.txt"), "a.txt");
}

#[test]
fn plan_skips_what_is_not_accepted() {
    let mut unselected = entry("/in/a", "a", Some(("/out/A", 900_000)));
    unselected.selected = false;
    let no_suggestion = entry("/in/b", "b", None);
    let mut atomic_file = entry("/in/c", "c", Some(("/out/C", 900_000)));
    atomic_file.atomic = true;
    let mut atomic_dir = entry("/in/d", "d", Some(("/out/D", 900_000)));
    atomic_dir.atomic = true;
    atomic_dir.is_directory = true;
    let low = entry("/in/e", "e", Some(("/out/E", 499_999)));
    let edge = entry("/in/f", "f", Some(("/out/F", 500_000)));
    let files = vec![unselected, no_suggestion, atomic_file, atomic_dir, low, edge];
    let plan = planner().generate_plan(&files);
    assert_eq!(plan.operations.len(), 2);
    assert_eq!(plan.operations[0].from, "/in/d");
    assert_eq!(plan.operations[0].to, "/out/D/d");
    assert_eq!(plan.operations[0].file_id, files[3].id);
    assert_eq!(plan.operations[1].from, "/in/f");
    assert_eq!(plan.operations[1].to, "/out/F/f");
    assert_eq!(plan.batch_id.chars().count(), 36);
}

#[test]
fn validate_reports_each_side_of_a_conflict_once() {
    let mut plan = MovePlan::new();
    plan.add_operation("/in/a/x.txt".to_string(), "/out/x.txt".to_string(), "1".to_string());
    plan.add_operation("/in/b/x.txt".to_string(), "/out/x.txt".to_string(), "2".to_string());
    plan.add_operation("/in/c/y.txt".to_string(), "/out/y.txt".to_string(), "3".to_string());
    let errors = planner().validate_plan(&plan, &[true, true, true]);
    assert_eq!(errors.len(), 2);
    assert_eq!(errors[0].operation_index, 0);
    assert_eq!(errors[0].error_type, ValidationErrorType::TargetConflict);
    assert_eq!(errors[0].message, "目标冲突: /in/a/x.txt 和 /in/b/x.txt 都要移动到 /out/x.txt");
    assert_eq!(errors[1].operation_index, 1);
    assert_eq!(errors[1].error_type, ValidationErrorType::TargetConflict);
    assert_eq!(errors[1].message, "目标冲突: /in/b/x.txt 和 /in/a/x.txt 都要移动到 /out/x.txt");
    assert_eq!(plan.operations.len(), 3);
}

#[test]
fn validate_reports_missing_sources_and_cycles() {
    let mut plan = MovePlan::new();
    plan.add_operation("/in/dir".to_string(), "/in/dir/sub/dir".to_string(), "1".to_string());
    plan.add_operation("/in/dirx".to_string(), "/in/dirxy".to_string(), "2".to_string());
    plan.add_operation("/in/same".to_string(), "/in/same".to_string(), "3".to_string());
    let errors = planner().validate_plan(&plan, &[true, false]);
    let kinds: Vec<(usize, ValidationErrorType)> =
        errors.iter().map(|e| (e.operation_index, e.error_type)).collect();
    assert_eq!(
        kinds,
        vec![
            (0, ValidationErrorType::CircularPath),
            (1, ValidationErrorType::SourceNotFound),
            (2, ValidationErrorType::SourceNotFound),
            (2, ValidationErrorType::CircularPath),
        ]
    );
    assert_eq!(errors[0].message, "目标路径在源路径内: /in/dir -> /in/dir/sub/dir");
    assert_eq!(errors[1].message, "源文件不存在: /in/dirx");
    assert!(planner().validate_plan(&MovePlan::new(), &[]).is_empty());
}

#[test]
fn plan_stats_count_sizes_and_distinct_directories() {
    let mut plan = MovePlan::new();
    plan.add_operation("/in/a".to_string(), "/out/x/a".to_string(), "1".to_string());
    plan.add_operation("/in/b".to_string(), "/out/y/b".to_string(), "2".to_string());
    plan.add_operation("/in/c".to_string(), "/out/x/c".to_string(), "3".to_string());
    plan.add_operation("/in/d".to_string(), "".to_string(), "4".to_string());
    let stats = planner().get_plan_stats(&plan, &[Some(10), None, Some(5)]);
    assert_eq!(stats.total_operations, 4);
    assert_eq!(stats.total_size, 15);
    assert_eq!(stats.target_directories, 2);
    let stats = planner().get_plan_stats(&plan, &[Some(u64::MAX), Some(1)]);
    assert_eq!(stats.total_size, u64::MAX);
    let empty = planner().get_plan_stats(&MovePlan::new(), &[]);
    assert_eq!(empty, PlanStats { total_operations: 0, total_size: 0, target_directories: 0 });
}

fn stats_of(size: u64) -> String {
    PlanStats { total_operations: 0, total_size: size, target_directories: 0 }.format_size()
}

fn float_text(size: u64) -> String {
    let s = size as f64;
    if s < 1024.0 {
        format!("{} B", size)
    } else if s < 1024.0 * 1024.0 {
        format!("{:.2} KB", s / 1024.0)
    } else if s < 1024.0 * 1024.0 * 1024.0 {
        format!("{:.2} MB", s / (1024.0 * 1024.0))
    } else {
        format!("{:.2} GB", s / (1024.0 * 1024.0 * 1024.0))
    }
}

#[test]
fn format_size_exact_values() {
    assert_eq!(stats_of(0), "0 B");
    assert_eq!(stats_of(1023), "1023 B");
    assert_eq!(stats_of(1024), "1.00 KB");
    assert_eq!(stats_of(1536), "1.50 KB");
    assert_eq!(stats_of(1024 * 1024 - 1), "1024.00 KB");
    assert_eq!(stats_of(1024 * 1024), "1.00 MB");
    assert_eq!(stats_of(5 * 1024 * 1024 + 512 * 1024), "5.50 MB");
    assert_eq!(stats_of(1024 * 1024 * 1024), "1.00 GB");
    assert_eq!(stats_of(3 * 1024 * 1024 * 1024 + 256 * 1024 * 1024), "3.25 GB");
}

#[test]
fn format_size_agrees_with_floating_point() {
    let mut samples: Vec<u64> = vec![
        1152, 1408, 1280, 1029, 1034, 2047, 2048, 10_000, 123_456, 999_999,
        1_048_575, 1_048_576, 1_053_819, 1_179_648, 1_441_792, 7_654_321, 1_073_741_823,
        1_073_741_824, 1_079_110_533, 1_207_959_552, 1_476_395_008, 98_765_432_109,
        9_007_199_254_740_991, 9_007_199_254_740_992, 9_007_199_254_740_993,
        9_007_199_254_740_995, 18_014_398_509_481_985, 18_014_398_509_481_986,
        u64::MAX - 1024, u64::MAX - 1023, u64::MAX - 1, u64::MAX,
    ];
    let mut x: u64 = 1;
    for _ in 0..2000 {
        x = x.wrapping_mul(6364136223846793005).wrapping_add(1442695040888963407);
        samples.push(x);
        samples.push(x >> 20);
        samples.push(x >> 35);
        samples.push(x >> 45);
        samples.push((x >> 54) * 128 + 1024);
    }
    for k in 0..64u32 {
        let p = 1u64 << k;
        samples.push(p);
        samples.push(p - 1);
        samples.push(p + 1);
        samples.push(p + (p >> 1));
    }
    for size in samples {
        assert_eq!(stats_of(size), float_text(size), "size {}", size);
    }
}

#[test]
fn table_stats_count_entries() {
    let mut a = entry("/in/a", "a", Some(("/out", 1)));
    a.atomic = true;
    let mut b = entry("/in/b", "b", None);
    b.selected = false;
    let c = entry("/in/c", "c", Some(("/out", 1)));
    let stats = TableStats::from_files(&[a, b, c]);
    assert_eq!(stats.total_files, 3);
    assert_eq!(stats.selected_files, 2);
    assert_eq!(stats.with_suggestion, 2);
    assert_eq!(stats.atomic_files, 1);
    let none = TableStats::from_files(&[]);
    assert_eq!(none.total_files, 0);
}

fn planned(name: &str, extension: &str, year: Option<i32>) -> String {
    // 2024-06-15 12:00:00 UTC
    let mut file = FileDescriptor::new(
        format!("IN/{}", name),
        name.to_string(),
        extension.to_string(),
        9,
        1718452800,
        false,
    );
    if let Some(y) = year {
        let mut semantic = orderly::models::SemanticResult::default();
        semantic.year = Some(y);
        file.semantic = Some(semantic);
    }
    let mut engine = RuleEngine::new("OUT".to_string());
    file.suggested_action = engine.match_file(&file);
    let planner = Planner::new("OUT".to_string(), Confidence::from_millionths(700_000));
    let plan = planner.generate_plan(&[file]);
    assert_eq!(plan.operations.len(), 1);
    assert_eq!(plan.operations[0].from, format!("IN/{}", name));
    plan.operations[0].to.clone()
}

#[test]
fn a_picture_is_planned_under_its_year_and_month() {
    assert_eq!(planned("photo.jpg", ".jpg", Some(2024)), "OUT/Pictures/2024/06/photo.jpg");
    assert_eq!(planned("photo.jpg", ".jpg", None), "OUT/Pictures/2024/06/photo.jpg");
    assert_eq!(planned("photo.JPG", ".JPG", Some(1999)), "OUT/Pictures/1999/06/photo.JPG");
}

#[test]
fn a_document_is_planned_under_its_year() {
    assert_eq!(planned("note.txt", ".txt", Some(2024)), "OUT/Documents/2024/note.txt");
    assert_eq!(planned("clip.mkv", ".mkv", None), "OUT/Videos/2024/clip.mkv");
    assert_eq!(planned("song.flac", ".flac", None), "OUT/Music/2024/song.flac");
    assert_eq!(planned("all.7z", ".7z", None), "OUT/Archives/2024/all.7z");
}

#[test]
fn an_invoice_goes_by_the_keyword_rule() {
    assert_eq!(planned("发票_2023.pdf", ".pdf", None), "OUT/Finance/Invoice/2024/发票_2023.pdf");
    assert_eq!(planned("Receipt 7.png", ".png", Some(2023)), "OUT/Finance/Invoice/2023/Receipt 7.png");
    assert_eq!(planned("invoice.txt", ".txt", None), "OUT/Documents/2024/invoice.txt");
}

#[test]
fn a_suggested_file_name_is_replaced_by_the_name_of_the_file() {
    let mut file = entry("IN/keepname.pdf", "keepname.pdf", Some(("OUT/Documents/2024/renamed.pdf", 1_000_000)));
    file.selected = true;
    let plan = planner().generate_plan(&[file]);
    assert_eq!(plan.operations.len(), 1);
    assert_eq!(plan.operations[0].to, "OUT/Documents/2024/keepname.pdf");
}
