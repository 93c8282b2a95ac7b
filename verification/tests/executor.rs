use orderly::executor::{
    DryRunResult, ExecutionResult, ExecutionRun, Executor, FsReply, FsRequest, PathFacts,
    RollbackResult, RollbackRun,
};
use orderly::models::{
    Confidence, FileDescriptor, HistoryEntry, MoveOperation, MovePlan, MoveSuggestion,
    OperationStatus, SuggestionSource,
};
use orderly::planner::Planner;
use orderly::rule_engine::RuleEngine;
use orderly::scanner::FileScanner;
use std::collections::BTreeSet;
use std::path::Path;

const FIXED_TIME: i64 = 1718452800;

fn text(path: &Path) -> String {
    path.to_string_lossy().to_string()
}

/// A walk over a directory that holds the given files, given relative to
/// it: the directory itself first, then every directory and file below it.
fn walk(root: &Path, files: &[(&str, &str)]) -> Vec<(String, String, bool, u64)> {
    let name_of = |p: &Path| p.file_name().unwrap().to_string_lossy().to_string();
    let mut seen: BTreeSet<String> = BTreeSet::new();
    let mut entries = vec![(text(root), name_of(root), true, 0)];
    for (relative, content) in files {
        let full = root.join(relative);
        let mut dirs: Vec<&Path> = full.ancestors().skip(1).take_while(|d| *d != root).collect();
        dirs.reverse();
        for d in dirs {
            if seen.insert(text(d)) {
                entries.push((text(d), name_of(d), true, 0));
            }
        }
        entries.push((text(&full), name_of(&full), false, content.len() as u64));
    }
    entries
}

/// Records what the scanner takes of a walk.
fn scan(root: &Path, files: &[(&str, &str)]) -> Vec<FileDescriptor> {
    let scanner = FileScanner::new(text(root));
    let mut skipped: Vec<String> = Vec::new();
    let mut out = Vec::new();
    for (path, name, is_dir, len) in walk(root, files) {
        if skipped.iter().any(|d| Path::new(&path).starts_with(d)) {
            continue;
        }
        if !scanner.should_include(&path, &name, is_dir) {
            skipped.push(path);
            continue;
        }
        if let Some(f) = scanner.create_descriptor(path, name, is_dir, len, FIXED_TIME) {
            out.push(f);
        }
    }
    out
}

fn run_execution(disk: &mut Disk, executor: Executor, plan: MovePlan) -> (Executor, MovePlan, ExecutionResult) {
    let mut run: ExecutionRun = executor.execute(plan);
    while !run.is_finished() {
        let reply = disk.perform(&run.request());
        run.advance(reply);
    }
    run.finish()
}

fn run_rollback(disk: &mut Disk, executor: Executor, batch_id: &str) -> (Executor, RollbackResult) {
    let mut run: RollbackRun = executor.rollback(batch_id);
    while !run.is_finished() {
        let reply = disk.perform(&run.request());
        run.advance(reply);
    }
    run.finish()
}

/// A file system that is a set of paths.
struct Disk {
    files: BTreeSet<String>,
    log: Vec<String>,
}

impl Disk {
    fn with(files: &[&str]) -> Disk {
        Disk { files: files.iter().map(|s| s.to_string()).collect(), log: Vec::new() }
    }

    fn holds(&self, path: &Path) -> bool {
        self.files.contains(&text(path))
    }

    fn perform(&mut self, request: &FsRequest) -> FsReply {
        match request {
            FsRequest::CreateDirAll(p) => {
                self.log.push(format!("mkdir {}", p));
                if p.starts_with("/readonly") {
                    FsReply::Failed("permission denied".to_string())
                } else {
                    FsReply::Done
                }
            }
            FsRequest::Exists(p) => FsReply::Found(self.files.contains(p)),
            FsRequest::Rename(a, b) => {
                self.log.push(format!("mv {} {}", a, b));
                if self.files.remove(a) {
                    self.files.insert(b.clone());
                    FsReply::Done
                } else {
                    FsReply::Failed("no such file".to_string())
                }
            }
            FsRequest::RemoveDir(p) => {
                self.log.push(format!("rmdir {}", p));
                FsReply::Done
            }
            FsRequest::SaveHistory => {
                self.log.push("save".to_string());
                FsReply::Failed("disk full".to_string())
            }
            FsRequest::Finished => FsReply::Done,
        }
    }

    fn execute(&mut self, executor: Executor, plan: MovePlan) -> (Executor, MovePlan, ExecutionResult) {
        let mut run = executor.execute_at(plan, 42);
        while !run.is_finished() {
            let reply = self.perform(&run.request());
            run.advance_at(reply, 42);
        }
        run.finish()
    }

    fn rollback(&mut self, executor: Executor, batch_id: &str) -> (Executor, RollbackResult) {
        let mut run = executor.rollback(batch_id);
        while !run.is_finished() {
            let reply = self.perform(&run.request());
            run.advance(reply);
        }
        run.finish()
    }
}

fn plan_of(moves: &[(&str, &str)]) -> MovePlan {
    let mut plan = MovePlan::with_id("batch-1".to_string(), 1);
    for (i, (from, to)) in moves.iter().enumerate() {
        plan.add_operation(from.to_string(), to.to_string(), format!("id{}", i));
    }
    plan
}

#[test]
fn sim_rule_to_plan_keeps_filename_and_is_deterministic() {
    let dir = Path::new("/tmp/sorting");
    let input = dir.join("input");
    let output = dir.join("output");

    let mut files = scan(&input, &[("photo.jpg", "jpg-bytes"), ("note.txt", "hello")]);

    for f in files.iter_mut() {
        if !f.is_directory {
            f.modified_at = FIXED_TIME;
        }
    }

    let mut engine = RuleEngine::new(text(&output));
    for f in files.iter_mut() {
        if let Some(s) = engine.match_file(f) {
            f.suggested_action = Some(s);
        }
        f.selected = true;
    }

    let planner = Planner::new(text(&output), Confidence::from_millionths(0));
    let plan = planner.generate_plan(&files);

    let expected_dir = output.join("Pictures").join("2024").join("06");
    let op = plan.operations.iter().find(|op| op.from.ends_with("photo.jpg")).unwrap();

    assert_eq!(op.to, text(&expected_dir.join("photo.jpg")));

    let expected_dir2 = output.join("Documents").join("2024");
    let op2 = plan.operations.iter().find(|op| op.from.ends_with("note.txt")).unwrap();

    assert_eq!(op2.to, text(&expected_dir2.join("note.txt")));
}

#[test]
fn sim_planner_ignores_suggestion_filename_part() {
    let dir = Path::new("/tmp/sorting");
    let input = dir.join("input");
    let output = dir.join("output");

    let mut files = scan(&input, &[("keepname.pdf", "pdf-bytes")]);

    let mut f = files
        .iter()
        .find(|f| !f.is_directory && f.name == "keepname.pdf")
        .cloned()
        .unwrap_or_else(|| panic!("expected file not found: keepname.pdf"));
    f.modified_at = FIXED_TIME;
    f.selected = true;

    let wrong_target = output.join("Documents").join("2024").join("renamed.pdf");

    f.suggested_action = Some(MoveSuggestion {
        target_path: text(&wrong_target),
        reason: "simulated".to_string(),
        source: SuggestionSource::AI,
        confidence: Confidence::from_millionths(1_000_000),
    });

    files.clear();
    files.push(f);

    let planner = Planner::new(text(&output), Confidence::from_millionths(0));
    let plan = planner.generate_plan(&files);

    assert_eq!(plan.operations.len(), 1);
    assert!(Path::new(&plan.operations[0].to).ends_with("keepname.pdf"));
    assert_eq!(
        plan.operations[0].to,
        text(&output.join("Documents").join("2024").join("keepname.pdf"))
    );
}

#[test]
fn sim_execute_and_rollback_roundtrip() {
    let dir = Path::new("/tmp/sorting");
    let input = dir.join("input");
    let output = dir.join("output");
    let data = dir.join("data");

    let mut disk = Disk::with(&[&text(&input.join("a.jpg")), &text(&input.join("b.txt"))]);
    let mut files = scan(&input, &[("a.jpg", "a"), ("b.txt", "b")]);

    for f in files.iter_mut() {
        if !f.is_directory {
            f.modified_at = FIXED_TIME;
        }
        f.selected = true;
    }

    let mut engine = RuleEngine::new(text(&output));
    for f in files.iter_mut() {
        if let Some(s) = engine.match_file(f) {
            f.suggested_action = Some(s);
        }
    }

    let planner = Planner::new(text(&output), Confidence::from_millionths(0));
    let plan = planner.generate_plan(&files);

    let exec = Executor::new(text(&data), Vec::new());
    let (exec, plan, result) = run_execution(&mut disk, exec, plan);
    assert!(result.is_all_successful());

    let a_target = output.join("Pictures").join("2024").join("06").join("a.jpg");
    let b_target = output.join("Documents").join("2024").join("b.txt");

    assert!(!disk.holds(&input.join("a.jpg")));
    assert!(!disk.holds(&input.join("b.txt")));
    assert!(disk.holds(&a_target));
    assert!(disk.holds(&b_target));

    let batch_id = plan.batch_id.clone();
    let (exec, rb) = run_rollback(&mut disk, exec, &batch_id);
    assert_eq!(rb.failed, 0);

    assert!(disk.holds(&input.join("a.jpg")));
    assert!(disk.holds(&input.join("b.txt")));
    assert!(!disk.holds(&a_target));
    assert!(!disk.holds(&b_target));

    // A second rollback of the same batch is rejected and changes nothing.
    let (exec, again) = run_rollback(&mut disk, exec, &batch_id);
    assert_eq!(again.successful, 0);
    assert_eq!(again.errors, vec!["该批次已回滚"]);
    assert!(disk.holds(&input.join("a.jpg")));
    assert!(exec.get_history()[0].rolled_back);
}

#[test]
fn test_scanner_basic() {
    let dir = Path::new("/tmp/scanned");

    let files = scan(dir, &[("test.txt", "hello")]);

    assert_eq!(files.len(), 1);
    assert_eq!(files[0].name, "test.txt");
    assert_eq!(files[0].extension, ".txt");
}

#[test]
fn execution_takes_operations_in_order_and_records_the_batch() {
    let mut disk = Disk::with(&["/in/a", "/in/b", "/out/taken"]);
    let plan = plan_of(&[
        ("/in/a", "/out/x/a"),
        ("/in/missing", "/out/x/m"),
        ("/in/b", "/out/taken"),
        ("/in/b", "/readonly/b"),
        ("/in/b", "b-at-top"),
    ]);
    let executor = Executor::new("/data".to_string(), Vec::new());
    assert_eq!(executor.history_file(), "/data/history.json");
    let (executor, plan, result) = disk.execute(executor, plan);
    assert_eq!(result.successful, 2);
    assert_eq!(result.failed, 3);
    assert_eq!(result.skipped, 0);
    assert!(!result.is_all_successful());
    assert_eq!(result.summary(), "成功: 2, 失败: 3, 跳过: 0");
    assert_eq!(
        result.errors,
        vec![
            "移动 /in/missing 失败: no such file",
            "移动 /in/b 失败: 目标文件已存在",
            "移动 /in/b 失败: permission denied",
        ]
    );
    let statuses: Vec<OperationStatus> = plan.operations.iter().map(|o| o.status).collect();
    assert_eq!(
        statuses,
        vec![
            OperationStatus::Completed,
            OperationStatus::Failed,
            OperationStatus::Failed,
            OperationStatus::Failed,
            OperationStatus::Completed,
        ]
    );
    assert_eq!(plan.operations[1].error.as_deref(), Some("no such file"));
    assert_eq!(plan.operations[2].error.as_deref(), Some("目标文件已存在"));
    assert!(plan.operations[0].error.is_none());
    assert_eq!(
        disk.log,
        vec![
            "mkdir /out/x",
            "mv /in/a /out/x/a",
            "mkdir /out/x",
            "mv /in/missing /out/x/m",
            "mkdir /out",
            "mkdir /readonly",
            "mkdir ",
            "mv /in/b b-at-top",
            "save",
        ]
    );
    assert_eq!(
        disk.files.iter().map(|s| s.as_str()).collect::<Vec<_>>(),
        vec!["/out/taken", "/out/x/a", "b-at-top"]
    );
    let history = executor.get_history();
    assert_eq!(history.len(), 1);
    assert_eq!(history[0].batch_id, "batch-1");
    assert_eq!(history[0].executed_at, 42);
    assert!(!history[0].rolled_back);
    assert_eq!(history[0].operations.len(), 5);
    assert_eq!(history[0].operations[4].status, OperationStatus::Completed);
}

#[test]
fn an_empty_batch_is_recorded_at_once() {
    let mut disk = Disk::with(&[]);
    let executor = Executor::new("d".to_string(), Vec::new());
    let run = executor.execute_at(plan_of(&[]), 5);
    assert!(matches!(run.request(), FsRequest::SaveHistory));
    let (executor, _plan, result) = run.finish();
    assert_eq!(executor.get_history().len(), 1);
    assert!(result.is_all_successful());
    let (executor, _plan, result) = disk.execute(executor, plan_of(&[]));
    assert_eq!(executor.get_history().len(), 2);
    assert_eq!(result.successful, 0);
    assert_eq!(disk.log, vec!["save"]);
    assert_eq!(executor.history_file(), "d/history.json");
}

#[test]
fn rollback_undoes_completed_operations_in_reverse() {
    let mut disk = Disk::with(&["/in/a", "/in/b", "/in/c"]);
    let plan = plan_of(&[
        ("/in/a", "/out/x/a"),
        ("/in/missing", "/out/x/m"),
        ("/in/b", "/out/y/b"),
        ("/in/c", "/out/y/c"),
    ]);
    let executor = Executor::new("/data".to_string(), Vec::new());
    let (executor, _plan, result) = disk.execute(executor, plan);
    assert_eq!(result.successful, 3);
    disk.log.clear();
    // Somebody takes one of the moved files away.
    disk.files.remove("/out/y/b");
    let (executor, result) = disk.rollback(executor, "batch-1");
    assert_eq!(result.successful, 2);
    assert_eq!(result.failed, 1);
    assert!(!result.is_all_successful());
    assert_eq!(result.summary(), "回滚成功: 2, 失败: 1");
    assert_eq!(result.errors, vec!["回滚 /out/y/b 失败: 新位置文件不存在"]);
    assert_eq!(
        disk.log,
        vec![
            "mkdir /in",
            "mv /out/y/c /in/c",
            "rmdir /out/y",
            "mkdir /in",
            "mv /out/x/a /in/a",
            "rmdir /out/x",
            "save",
        ]
    );
    assert_eq!(
        disk.files.iter().map(|s| s.as_str()).collect::<Vec<_>>(),
        vec!["/in/a", "/in/c"]
    );
    let entry = &executor.get_history()[0];
    assert!(entry.rolled_back);
    let statuses: Vec<OperationStatus> = entry.operations.iter().map(|o| o.status).collect();
    assert_eq!(
        statuses,
        vec![
            OperationStatus::RolledBack,
            OperationStatus::Failed,
            OperationStatus::Completed,
            OperationStatus::RolledBack,
        ]
    );
}

#[test]
fn rollback_rejects_unknown_and_repeated_batches() {
    let mut disk = Disk::with(&["/in/a"]);
    let executor = Executor::new("/data".to_string(), Vec::new());
    let (executor, _plan, _result) = disk.execute(executor, plan_of(&[("/in/a", "/out/a")]));
    disk.log.clear();

    let (executor, result) = disk.rollback(executor, "other");
    assert_eq!(result.successful, 0);
    assert_eq!(result.failed, 0);
    assert_eq!(result.errors, vec!["未找到批次: other"]);
    assert!(disk.log.is_empty());
    assert!(!executor.get_history()[0].rolled_back);

    let (executor, result) = disk.rollback(executor, "batch-1");
    assert_eq!(result.successful, 1);
    assert!(result.is_all_successful());
    let after_first = disk.files.clone();
    disk.log.clear();

    let (executor, result) = disk.rollback(executor, "batch-1");
    assert_eq!(result.successful, 0);
    assert_eq!(result.failed, 0);
    assert_eq!(result.errors, vec!["该批次已回滚"]);
    assert!(disk.log.is_empty());
    assert_eq!(disk.files, after_first);
    assert!(executor.get_history()[0].rolled_back);
}

#[test]
fn rollback_reports_a_failed_rename_and_goes_on() {
    let op = |from: &str, to: &str, status: OperationStatus| MoveOperation {
        from: from.to_string(),
        to: to.to_string(),
        file_id: String::new(),
        status,
        error: None,
    };
    let entry = HistoryEntry {
        batch_id: "old".to_string(),
        executed_at: 1,
        operations: vec![
            op("/readonly/a", "/out/a", OperationStatus::Completed),
            op("b", "c", OperationStatus::Completed),
            op("/in/p", "/out/p", OperationStatus::Pending),
        ],
        rolled_back: false,
    };
    let executor = Executor::new("/data".to_string(), vec![entry]);
    let mut disk = Disk::with(&["/out/a", "c", "/out/p"]);
    let (executor, result) = disk.rollback(executor, "old");
    assert_eq!(result.successful, 1);
    assert_eq!(result.failed, 1);
    assert_eq!(result.errors, vec!["回滚 /out/a 失败: permission denied"]);
    assert_eq!(disk.log, vec!["mkdir ", "mv c b", "rmdir ", "mkdir /readonly", "save"]);
    let entry = &executor.get_history()[0];
    assert!(entry.rolled_back);
    assert_eq!(entry.operations[0].status, OperationStatus::Completed);
    assert_eq!(entry.operations[1].status, OperationStatus::RolledBack);
    assert_eq!(entry.operations[2].status, OperationStatus::Pending);
}

#[test]
fn dry_run_previews_without_changing_anything() {
    let plan = plan_of(&[
        ("/in/a", "/out/x/a"),
        ("/in/missing", "/out/z/m"),
        ("/in/b", "/out/x/b"),
        ("/in/c", "/out/y/c"),
        ("/in/d", "/out/y/d"),
    ]);
    let seen = |s: bool, p: bool, t: bool| PathFacts { source_exists: s, parent_exists: p, target_exists: t };
    let facts = vec![
        seen(true, false, false),
        seen(false, false, false),
        seen(true, false, false),
        seen(true, true, true),
    ];
    let executor = Executor::new("/data".to_string(), Vec::new());
    let preview: DryRunResult = executor.dry_run(&plan, &facts);
    assert_eq!(preview.would_create_dirs, vec!["/out/x"]);
    assert_eq!(
        preview.would_move_files,
        vec![
            ("/in/a".to_string(), "/out/x/a".to_string()),
            ("/in/b".to_string(), "/out/x/b".to_string()),
            ("/in/c".to_string(), "/out/y/c".to_string()),
        ]
    );
    assert_eq!(
        preview.potential_errors,
        vec!["源文件不存在: /in/missing", "目标文件已存在: /out/y/c", "源文件不存在: /in/d"]
    );
    assert!(preview.has_errors());
    assert_eq!(preview.summary(), "将创建 1 个目录，移动 3 个文件，3 个潜在问题");
    assert!(executor.get_history().is_empty());
    assert_eq!(plan.operations[0].status, OperationStatus::Pending);

    let clean = executor.dry_run(&plan_of(&[]), &[]);
    assert!(!clean.has_errors());
    assert_eq!(clean.summary(), "将创建 0 个目录，移动 0 个文件，0 个潜在问题");
}

#[test]
fn history_is_read_newest_first_and_pruned_from_the_oldest() {
    let entry = |id: &str| HistoryEntry {
        batch_id: id.to_string(),
        executed_at: 0,
        operations: Vec::new(),
        rolled_back: false,
    };
    let mut executor =
        Executor::new("/data".to_string(), vec![entry("1"), entry("2"), entry("3"), entry("4")]);
    let ids = |list: Vec<&HistoryEntry>| list.iter().map(|e| e.batch_id.clone()).collect::<Vec<_>>();
    assert_eq!(ids(executor.get_recent_history(2)), vec!["4", "3"]);
    assert_eq!(ids(executor.get_recent_history(9)), vec!["4", "3", "2", "1"]);
    assert!(executor.get_recent_history(0).is_empty());
    assert_eq!(executor.locate_batch("3"), Some(2));
    assert_eq!(executor.locate_batch("9"), None);
    assert!(!executor.cleanup_old_history(4));
    assert_eq!(executor.get_history().len(), 4);
    assert!(executor.cleanup_old_history(3));
    assert_eq!(ids(executor.get_recent_history(9)), vec!["4", "3", "2"]);
    assert!(executor.cleanup_old_history(0));
    assert!(executor.get_history().is_empty());
}
