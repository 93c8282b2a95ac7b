//! The executor: previewing a batch, carrying it out one file-system step
//! at a time, and keeping the history that makes a batch reversible.
//!
//! The executor never touches the file system. It says which step comes
//! next, is told how the step went, and decides what follows.

use vstd::prelude::*;
use crate::text::{decimal, decimal_text, views};
use crate::clock::unix_now;
use crate::paths::{join, join_paths, parent, parent_of};
use crate::models::{
    HistoryEntry, HistoryView, MovePlan, OperationStatus, OperationView, PlanView,
    copy_operations, history_views, operation_views,
};
use crate::planner::{distinct, push_if_new};

verus! {

/// What was seen on disk for one operation before a preview.
#[derive(Debug, Clone, Copy, PartialEq, Eq, Structural)]
pub struct PathFacts {
    /// The source exists.
    pub source_exists: bool,
    /// The directory that the destination lies in exists.
    pub parent_exists: bool,
    /// Something exists at the destination already.
    pub target_exists: bool,
}

/// The values of a list of pairs of paths.
pub open spec fn pair_views(pairs: Seq<(String, String)>) -> Seq<(Seq<char>, Seq<char>)> {
    Seq::new(pairs.len(), |i: int| (pairs[i].0@, pairs[i].1@))
}

/// A preview, as a value.
pub struct DryRunView {
    pub would_create_dirs: Seq<Seq<char>>,
    pub would_move_files: Seq<(Seq<char>, Seq<char>)>,
    pub potential_errors: Seq<Seq<char>>,
}

/// What a batch would do: the directories it would create, the moves it
/// would make, and what is likely to go wrong.
#[derive(Debug)]
pub struct DryRunResult {
    pub would_create_dirs: Vec<String>,
    pub would_move_files: Vec<(String, String)>,
    pub potential_errors: Vec<String>,
}

impl View for DryRunResult {
    type V = DryRunView;

    open spec fn view(&self) -> DryRunView {
        DryRunView {
            would_create_dirs: views(self.would_create_dirs@),
            would_move_files: pair_views(self.would_move_files@),
            potential_errors: views(self.potential_errors@),
        }
    }
}

impl DryRunResult {
    /// Whether the preview found anything that is likely to go wrong.
    pub fn has_errors(&self) -> (r: bool)
        ensures
            r == (self@.potential_errors.len() > 0),
    {
        self.potential_errors.len() > 0
    }

    /// The preview in one line.
    pub fn summary(&self) -> (r: String)
        ensures
            r@ == "将创建 "@ + decimal(self@.would_create_dirs.len()) + " 个目录，移动 "@ + decimal(
                self@.would_move_files.len(),
            ) + " 个文件，"@ + decimal(self@.potential_errors.len()) + " 个潜在问题"@,
    {
        let mut out = String::from_str("将创建 ");
        out.append(decimal_text(self.would_create_dirs.len() as u64).as_str());
        out.append(" 个目录，移动 ");
        out.append(decimal_text(self.would_move_files.len() as u64).as_str());
        out.append(" 个文件，");
        out.append(decimal_text(self.potential_errors.len() as u64).as_str());
        out.append(" 个潜在问题");
        out
    }
}

/// The outcome of an execution, as a value.
pub struct ExecutionView {
    pub successful: usize,
    pub failed: usize,
    pub skipped: usize,
    pub errors: Seq<Seq<char>>,
}

/// The outcome of an execution: how many moves succeeded, failed and were
/// skipped, and the message of each failure.
#[derive(Debug)]
pub struct ExecutionResult {
    pub successful: usize,
    pub failed: usize,
    pub skipped: usize,
    pub errors: Vec<String>,
}

impl View for ExecutionResult {
    type V = ExecutionView;

    open spec fn view(&self) -> ExecutionView {
        ExecutionView {
            successful: self.successful,
            failed: self.failed,
            skipped: self.skipped,
            errors: views(self.errors@),
        }
    }
}

impl ExecutionResult {
    /// Whether no move failed.
    pub fn is_all_successful(&self) -> (r: bool)
        ensures
            r == (self@.failed == 0),
    {
        self.failed == 0
    }

    /// The outcome in one line.
    pub fn summary(&self) -> (r: String)
        ensures
            r@ == "成功: "@ + decimal(self@.successful as nat) + ", 失败: "@ + decimal(
                self@.failed as nat,
            ) + ", 跳过: "@ + decimal(self@.skipped as nat),
    {
        let mut out = String::from_str("成功: ");
        out.append(decimal_text(self.successful as u64).as_str());
        out.append(", 失败: ");
        out.append(decimal_text(self.failed as u64).as_str());
        out.append(", 跳过: ");
        out.append(decimal_text(self.skipped as u64).as_str());
        out
    }
}

/// The outcome of a rollback, as a value.
pub struct RollbackView {
    pub successful: usize,
    pub failed: usize,
    pub errors: Seq<Seq<char>>,
}

/// The outcome of a rollback: how many moves were undone, how many could
/// not be, and the message of each failure.
#[derive(Debug)]
pub struct RollbackResult {
    pub successful: usize,
    pub failed: usize,
    pub errors: Vec<String>,
}

impl View for RollbackResult {
    type V = RollbackView;

    open spec fn view(&self) -> RollbackView {
        RollbackView {
            successful: self.successful,
            failed: self.failed,
            errors: views(self.errors@),
        }
    }
}

impl RollbackResult {
    /// Whether no move failed to be undone.
    pub fn is_all_successful(&self) -> (r: bool)
        ensures
            r == (self@.failed == 0),
    {
        self.failed == 0
    }

    /// The outcome in one line.
    pub fn summary(&self) -> (r: String)
        ensures
            r@ == "回滚成功: "@ + decimal(self@.successful as nat) + ", 失败: "@ + decimal(
                self@.failed as nat,
            ),
    {
        let mut out = String::from_str("回滚成功: ");
        out.append(decimal_text(self.successful as u64).as_str());
        out.append(", 失败: ");
        out.append(decimal_text(self.failed as u64).as_str());
        out
    }
}

/// A step on the file system, as a value.
pub enum RequestView {
    CreateDirAll(Seq<char>),
    Exists(Seq<char>),
    Rename(Seq<char>, Seq<char>),
    RemoveDir(Seq<char>),
    SaveHistory,
    Finished,
}

/// The next step that the caller is to take on the file system.
#[derive(Debug)]
pub enum FsRequest {
    /// Create this directory and every missing directory above it.
    CreateDirAll(String),
    /// Say whether anything exists at this path.
    Exists(String),
    /// Rename the first path to the second.
    Rename(String, String),
    /// Remove this directory if it is empty. How that goes does not
    /// matter.
    RemoveDir(String),
    /// Write the history out. How that goes does not matter to the run.
    SaveHistory,
    /// Nothing is left to do.
    Finished,
}

impl View for FsRequest {
    type V = RequestView;

    open spec fn view(&self) -> RequestView {
        match self {
            FsRequest::CreateDirAll(p) => RequestView::CreateDirAll(p@),
            FsRequest::Exists(p) => RequestView::Exists(p@),
            FsRequest::Rename(a, b) => RequestView::Rename(a@, b@),
            FsRequest::RemoveDir(p) => RequestView::RemoveDir(p@),
            FsRequest::SaveHistory => RequestView::SaveHistory,
            FsRequest::Finished => RequestView::Finished,
        }
    }
}

/// How a step went, as a value.
pub enum ReplyView {
    Done,
    Failed(Seq<char>),
    Found(bool),
}

/// How the step that was asked for went.
#[derive(Debug)]
pub enum FsReply {
    /// It was carried out.
    Done,
    /// It failed, with these words.
    Failed(String),
    /// The answer to `Exists`.
    Found(bool),
}

impl View for FsReply {
    type V = ReplyView;

    open spec fn view(&self) -> ReplyView {
        match self {
            FsReply::Done => ReplyView::Done,
            FsReply::Failed(m) => ReplyView::Failed(m@),
            FsReply::Found(b) => ReplyView::Found(*b),
        }
    }
}

/// The facts about operation `i`; a source about which nothing is known
/// counts as missing.
pub open spec fn source_seen(facts: Seq<PathFacts>, i: int) -> bool {
    0 <= i < facts.len() && facts[i].source_exists
}

/// What the preview says is likely to go wrong with the first `n`
/// operations: a missing source, or a destination that is taken.
pub open spec fn preview_errors(ops: Seq<OperationView>, facts: Seq<PathFacts>, n: int) -> Seq<
    Seq<char>,
>
    decreases n,
{
    if n <= 0 {
        Seq::empty()
    } else {
        let before = preview_errors(ops, facts, n - 1);
        if !source_seen(facts, n - 1) {
            before.push("源文件不存在: "@ + ops[n - 1].from)
        } else if facts[n - 1].target_exists {
            before.push("目标文件已存在: "@ + ops[n - 1].to)
        } else {
            before
        }
    }
}

/// The moves that the preview shows for the first `n` operations: those
/// whose source exists.
pub open spec fn preview_moves(ops: Seq<OperationView>, facts: Seq<PathFacts>, n: int) -> Seq<
    (Seq<char>, Seq<char>),
>
    decreases n,
{
    if n <= 0 {
        Seq::empty()
    } else if source_seen(facts, n - 1) {
        preview_moves(ops, facts, n - 1).push((ops[n - 1].from, ops[n - 1].to))
    } else {
        preview_moves(ops, facts, n - 1)
    }
}

/// For each operation, the directory that would have to be created for it:
/// the parent of the destination, where the source exists and that parent
/// does not.
pub open spec fn missing_parents(ops: Seq<OperationView>, facts: Seq<PathFacts>) -> Seq<
    Option<Seq<char>>,
> {
    Seq::new(
        ops.len(),
        |i: int|
            if source_seen(facts, i) && !facts[i].parent_exists {
                parent(ops[i].to)
            } else {
                None
            },
    )
}

/// The preview of a batch.
pub open spec fn preview(ops: Seq<OperationView>, facts: Seq<PathFacts>) -> DryRunView {
    DryRunView {
        would_create_dirs: distinct(missing_parents(ops, facts)),
        would_move_files: preview_moves(ops, facts, ops.len() as int),
        potential_errors: preview_errors(ops, facts, ops.len() as int),
    }
}

/// The executor, as a value: the history, oldest batch first, and the file
/// in which the history is kept.
pub struct ExecutorView {
    pub history: Seq<HistoryView>,
    pub history_file: Seq<char>,
}

/// The executor: the history of the batches that were carried out.
#[derive(Debug)]
pub struct Executor {
    history: Vec<HistoryEntry>,
    history_file: String,
}

impl View for Executor {
    type V = ExecutorView;

    closed spec fn view(&self) -> ExecutorView {
        ExecutorView { history: history_views(self.history@), history_file: self.history_file@ }
    }
}

/// The name of the history file within the data directory.
pub open spec fn history_file_name() -> Seq<char> {
    "history.json"@
}

/// The most recent `count` entries, the most recent first.
pub open spec fn recent(history: Seq<HistoryView>, count: int) -> Seq<HistoryView> {
    let n = if count < history.len() {
        count
    } else {
        history.len() as int
    };
    Seq::new(n as nat, |i: int| history[history.len() - 1 - i])
}

/// The history without its oldest entries beyond the `keep` most recent.
pub open spec fn pruned(history: Seq<HistoryView>, keep: int) -> Seq<HistoryView> {
    if history.len() > keep {
        history.subrange(history.len() - keep, history.len() as int)
    } else {
        history
    }
}

/// The values of a list of borrowed history entries.
pub open spec fn borrowed_views(entries: Seq<&HistoryEntry>) -> Seq<HistoryView> {
    Seq::new(entries.len(), |i: int| entries[i]@)
}

fn prefixed(prefix: &str, text: &str) -> (r: String)
    ensures
        r@ == prefix@ + text@,
{
    let mut out = String::from_str(prefix);
    out.append(text);
    out
}

impl Executor {
    /// An executor that keeps its history in `history.json` under
    /// `data_dir` and starts from the history that was read from there:
    /// nothing, where the file did not exist.
    pub fn new(data_dir: String, history: Vec<HistoryEntry>) -> (r: Executor)
        ensures
            r@ == (ExecutorView {
                history: history_views(history@),
                history_file: join(data_dir@, history_file_name()),
            }),
    {
        Executor { history, history_file: join_paths(data_dir.as_str(), "history.json") }
    }

    /// The file in which the history is kept.
    pub fn history_file(&self) -> (r: &String)
        ensures
            r@ == self@.history_file,
    {
        &self.history_file
    }

    /// Previews a batch from what was seen on disk for each operation,
    /// without changing anything.
    pub fn dry_run(&self, plan: &MovePlan, facts: &[PathFacts]) -> (r: DryRunResult)
        ensures
            r@ == preview(plan@.operations, facts@),
    {
        let ghost ops = plan@.operations;
        let ghost wanted = missing_parents(ops, facts@);
        let n = plan.operations.len();
        let mut dirs: Vec<String> = Vec::new();
        let mut moves: Vec<(String, String)> = Vec::new();
        let mut errors: Vec<String> = Vec::new();
        let mut i: usize = 0;
        assert(wanted.take(0) =~= Seq::empty());
        assert(views(dirs@) =~= Seq::empty());
        assert(views(errors@) =~= Seq::empty());
        assert(pair_views(moves@) =~= Seq::empty());
        while i < n
            invariant
                i <= n,
                n == plan.operations@.len(),
                ops == plan@.operations,
                wanted == missing_parents(ops, facts@),
                views(dirs@) == distinct(wanted.take(i as int)),
                pair_views(moves@) == preview_moves(ops, facts@, i as int),
                views(errors@) == preview_errors(ops, facts@, i as int),
            decreases n - i,
        {
            let op = &plan.operations[i];
            assert(ops[i as int] == op@);
            proof {
                assert(wanted.take(i + 1).drop_last() =~= wanted.take(i as int));
                assert(wanted.take(i + 1).last() == wanted[i as int]);
            }
            let ghost errors_before = views(errors@);
            let ghost moves_before = pair_views(moves@);
            if !(i < facts.len() && facts[i].source_exists) {
                errors.push(prefixed("源文件不存在: ", op.from.as_str()));
                assert(views(errors@) =~= errors_before.push("源文件不存在: "@ + op@.from));
            } else {
                if !facts[i].parent_exists {
                    if let Some(dir) = parent_of(op.to.as_str()) {
                        push_if_new(&mut dirs, dir);
                    }
                }
                if facts[i].target_exists {
                    errors.push(prefixed("目标文件已存在: ", op.to.as_str()));
                    assert(views(errors@) =~= errors_before.push("目标文件已存在: "@ + op@.to));
                }
                moves.push((op.from.clone(), op.to.clone()));
                assert(pair_views(moves@) =~= moves_before.push((op@.from, op@.to)));
            }
            i += 1;
        }
        assert(wanted.take(n as int) =~= wanted);
        DryRunResult { would_create_dirs: dirs, would_move_files: moves, potential_errors: errors }
    }

    /// The history, oldest batch first.
    pub fn get_history(&self) -> (r: &Vec<HistoryEntry>)
        ensures
            history_views(r@) == self@.history,
    {
        &self.history
    }

    /// The most recent `count` entries of the history, the most recent
    /// first.
    pub fn get_recent_history(&self, count: usize) -> (r: Vec<&HistoryEntry>)
        ensures
            borrowed_views(r@) == recent(self@.history, count as int),
    {
        let n = self.history.len();
        let take = if count < n {
            count
        } else {
            n
        };
        let mut out: Vec<&HistoryEntry> = Vec::new();
        let mut i: usize = 0;
        while i < take
            invariant
                i <= take <= n,
                n == self.history@.len(),
                out@.len() == i,
                forall|j: int| 0 <= j < i ==> (#[trigger] out@[j])@ == self.history@[n - 1 - j]@,
            decreases take - i,
        {
            out.push(&self.history[n - 1 - i]);
            i += 1;
        }
        assert(borrowed_views(out@) =~= recent(self@.history, count as int));
        out
    }

    /// Drops the oldest entries of the history beyond the `keep_count` most
    /// recent, and says whether anything was dropped: the history file is
    /// then out of date.
    pub fn cleanup_old_history(&mut self, keep_count: usize) -> (r: bool)
        ensures
            final(self)@ == (ExecutorView {
                history: pruned(old(self)@.history, keep_count as int),
                ..old(self)@
            }),
            r == (old(self)@.history.len() > keep_count),
    {
        let n = self.history.len();
        if n > keep_count {
            let ghost before = history_views(self.history@);
            let kept = self.history.split_off(n - keep_count);
            self.history = kept;
            assert(history_views(self.history@) =~= before.subrange(n - keep_count, n as int));
            true
        } else {
            false
        }
    }
}

/// Where an execution stands.
#[derive(Debug, Clone, Copy, PartialEq, Eq, Structural)]
pub enum ExecutionStage {
    /// The directory of the destination is being created.
    CreatingParent,
    /// The destination is being looked at.
    CheckingTarget,
    /// The file is being renamed.
    Renaming,
    /// The batch is in the history, which is being written out.
    Saving,
    /// Nothing is left to do.
    Finished,
}

/// An execution under way, as a value.
pub struct RunView {
    pub executor: ExecutorView,
    pub plan: PlanView,
    /// The operation that is being carried out; the number of operations
    /// once all are through.
    pub index: int,
    pub stage: ExecutionStage,
    pub result: ExecutionView,
}

/// The words for a destination that is taken.
pub open spec fn target_taken() -> Seq<char> {
    "目标文件已存在"@
}

/// The message for a move that failed.
pub open spec fn move_failure(from: Seq<char>, reason: Seq<char>) -> Seq<char> {
    "移动 "@ + from + " 失败: "@ + reason
}

/// The record of a batch that was just carried out.
pub open spec fn record_of(plan: PlanView, now: i64) -> HistoryView {
    HistoryView {
        batch_id: plan.batch_id,
        executed_at: now,
        operations: plan.operations,
        rolled_back: false,
    }
}

/// The operations with the status of one of them changed.
pub open spec fn with_status(ops: Seq<OperationView>, i: int, status: OperationStatus) -> Seq<
    OperationView,
> {
    ops.update(i, OperationView { status, ..ops[i] })
}

/// The operations with one of them failed for a reason.
pub open spec fn with_failure(ops: Seq<OperationView>, i: int, reason: Seq<char>) -> Seq<
    OperationView,
> {
    ops.update(i, OperationView { status: OperationStatus::Failed, error: Some(reason), ..ops[i] })
}

/// The run as it turns to operation `i`. Past the last operation the batch
/// goes into the history as it ended, and the history is to be written
/// out. Else the operation is in progress, and its destination's directory
/// is to be created, if the destination has one.
pub open spec fn turn_to(s: RunView, i: int, now: i64) -> RunView {
    if i >= s.plan.operations.len() {
        RunView {
            executor: ExecutorView {
                history: s.executor.history.push(record_of(s.plan, now)),
                ..s.executor
            },
            index: i,
            stage: ExecutionStage::Saving,
            ..s
        }
    } else {
        RunView {
            plan: PlanView {
                operations: with_status(s.plan.operations, i, OperationStatus::InProgress),
                ..s.plan
            },
            index: i,
            stage: if parent(s.plan.operations[i].to) is Some {
                ExecutionStage::CreatingParent
            } else {
                ExecutionStage::CheckingTarget
            },
            ..s
        }
    }
}

/// The run after the current operation failed for a reason: the operation
/// is marked, the failure is counted and reported, and the run turns to the
/// next operation.
pub open spec fn after_failure(s: RunView, reason: Seq<char>, now: i64) -> RunView {
    turn_to(
        RunView {
            plan: PlanView { operations: with_failure(s.plan.operations, s.index, reason), ..s.plan },
            result: ExecutionView {
                failed: (s.result.failed + 1) as usize,
                errors: s.result.errors.push(
                    move_failure(s.plan.operations[s.index].from, reason),
                ),
                ..s.result
            },
            ..s
        },
        s.index + 1,
        now,
    )
}

/// The run after the current operation succeeded.
pub open spec fn after_success(s: RunView, now: i64) -> RunView {
    turn_to(
        RunView {
            plan: PlanView {
                operations: with_status(s.plan.operations, s.index, OperationStatus::Completed),
                ..s.plan
            },
            result: ExecutionView { successful: (s.result.successful + 1) as usize, ..s.result },
            ..s
        },
        s.index + 1,
        now,
    )
}

/// The run at its start: nothing counted yet, turning to the first
/// operation.
pub open spec fn execution_start(executor: ExecutorView, plan: PlanView, now: i64) -> RunView {
    turn_to(
        RunView {
            executor,
            plan,
            index: 0,
            stage: ExecutionStage::Finished,
            result: ExecutionView { successful: 0, failed: 0, skipped: 0, errors: Seq::empty() },
        },
        0,
        now,
    )
}

/// The step that the run asks for.
pub open spec fn execution_request(s: RunView) -> RequestView {
    match s.stage {
        ExecutionStage::CreatingParent => RequestView::CreateDirAll(
            parent(s.plan.operations[s.index].to).unwrap(),
        ),
        ExecutionStage::CheckingTarget => RequestView::Exists(s.plan.operations[s.index].to),
        ExecutionStage::Renaming => RequestView::Rename(
            s.plan.operations[s.index].from,
            s.plan.operations[s.index].to,
        ),
        ExecutionStage::Saving => RequestView::SaveHistory,
        ExecutionStage::Finished => RequestView::Finished,
    }
}

/// The run after it was told how its step went. A failure at any step
/// fails the operation, with the words of the failure, and so does a
/// destination that is taken; the run then goes on with the next
/// operation. How the writing of the history goes does not matter.
pub open spec fn execution_step(s: RunView, reply: ReplyView, now: i64) -> RunView {
    match s.stage {
        ExecutionStage::CreatingParent => match reply {
            ReplyView::Failed(reason) => after_failure(s, reason, now),
            _ => RunView { stage: ExecutionStage::CheckingTarget, ..s },
        },
        ExecutionStage::CheckingTarget => match reply {
            ReplyView::Failed(reason) => after_failure(s, reason, now),
            ReplyView::Found(true) => after_failure(s, target_taken(), now),
            _ => RunView { stage: ExecutionStage::Renaming, ..s },
        },
        ExecutionStage::Renaming => match reply {
            ReplyView::Failed(reason) => after_failure(s, reason, now),
            _ => after_success(s, now),
        },
        ExecutionStage::Saving => RunView { stage: ExecutionStage::Finished, ..s },
        ExecutionStage::Finished => s,
    }
}

/// A run is sound when its index lies within the batch, stands at an
/// operation while a step on one is asked for, and no more outcomes were
/// counted than operations are through.
pub open spec fn run_is_sound(s: RunView) -> bool {
    &&& 0 <= s.index <= s.plan.operations.len()
    &&& (s.stage is CreatingParent || s.stage is CheckingTarget || s.stage is Renaming) ==> s.index
        < s.plan.operations.len()
    &&& s.stage is CreatingParent ==> parent(s.plan.operations[s.index].to) is Some
    &&& s.result.successful + s.result.failed <= s.index
}

/// The state of an execution under way.
struct RunState {
    executor: Executor,
    plan: MovePlan,
    index: usize,
    stage: ExecutionStage,
    result: ExecutionResult,
}

impl View for RunState {
    type V = RunView;

    closed spec fn view(&self) -> RunView {
        RunView {
            executor: self.executor@,
            plan: self.plan@,
            index: self.index as int,
            stage: self.stage,
            result: self.result@,
        }
    }
}

impl RunState {
    /// A state in which nothing is under way.
    fn idle() -> (r: RunState)
        ensures
            run_is_sound(r@),
    {
        RunState {
            executor: Executor {
                history: Vec::new(),
                history_file: String::new(),
            },
            plan: MovePlan { batch_id: String::new(), created_at: 0, operations: Vec::new() },
            index: 0,
            stage: ExecutionStage::Finished,
            result: ExecutionResult { successful: 0, failed: 0, skipped: 0, errors: Vec::new() },
        }
    }

    fn turn_to(self, i: usize, now: i64) -> (r: RunState)
        requires
            i <= self@.plan.operations.len(),
            self@.result.successful + self@.result.failed <= i,
        ensures
            r@ == turn_to(self@, i as int, now),
            run_is_sound(r@),
    {
        let mut s = self;
        let ghost before = s@;
        if i >= s.plan.operations.len() {
            let ghost history = history_views(s.executor.history@);
            let entry = HistoryEntry {
                batch_id: s.plan.batch_id.clone(),
                executed_at: now,
                operations: copy_operations(&s.plan.operations),
                rolled_back: false,
            };
            s.executor.history.push(entry);
            assert(history_views(s.executor.history@) =~= history.push(record_of(before.plan, now)));
            s.index = i;
            s.stage = ExecutionStage::Saving;
            s
        } else {
            let ghost ops = operation_views(s.plan.operations@);
            assert(ops[i as int] == s.plan.operations@[i as int]@);
            s.plan.operations[i].status = OperationStatus::InProgress;
            assert(operation_views(s.plan.operations@) =~= with_status(
                ops,
                i as int,
                OperationStatus::InProgress,
            ));
            s.index = i;
            s.stage = if parent_of(s.plan.operations[i].to.as_str()).is_some() {
                ExecutionStage::CreatingParent
            } else {
                ExecutionStage::CheckingTarget
            };
            s
        }
    }

    fn after_failure(self, reason: String, now: i64) -> (r: RunState)
        requires
            run_is_sound(self@),
            self@.index < self@.plan.operations.len(),
        ensures
            r@ == after_failure(self@, reason@, now),
            run_is_sound(r@),
    {
        let mut s = self;
        let i = s.index;
        let n = s.plan.operations.len();
        assert(i < n);
        let ghost ops = operation_views(s.plan.operations@);
        let ghost errors = views(s.result.errors@);
        assert(ops[i as int] == s.plan.operations@[i as int]@);
        let mut message = prefixed("移动 ", s.plan.operations[i].from.as_str());
        message.append(" 失败: ");
        message.append(reason.as_str());
        s.result.errors.push(message);
        assert(views(s.result.errors@) =~= errors.push(move_failure(ops[i as int].from, reason@)));
        s.result.failed = s.result.failed + 1;
        s.plan.operations[i].status = OperationStatus::Failed;
        s.plan.operations[i].error = Some(reason);
        assert(operation_views(s.plan.operations@) =~= with_failure(ops, i as int, reason@));
        s.turn_to(i + 1, now)
    }

    fn after_success(self, now: i64) -> (r: RunState)
        requires
            run_is_sound(self@),
            self@.index < self@.plan.operations.len(),
        ensures
            r@ == after_success(self@, now),
            run_is_sound(r@),
    {
        let mut s = self;
        let i = s.index;
        let n = s.plan.operations.len();
        assert(i < n);
        let ghost ops = operation_views(s.plan.operations@);
        assert(ops[i as int] == s.plan.operations@[i as int]@);
        s.result.successful = s.result.successful + 1;
        s.plan.operations[i].status = OperationStatus::Completed;
        assert(operation_views(s.plan.operations@) =~= with_status(
            ops,
            i as int,
            OperationStatus::Completed,
        ));
        s.turn_to(i + 1, now)
    }

    fn step(self, reply: FsReply, now: i64) -> (r: RunState)
        requires
            run_is_sound(self@),
        ensures
            r@ == execution_step(self@, reply@, now),
            run_is_sound(r@),
    {
        let mut s = self;
        match s.stage {
            ExecutionStage::CreatingParent => match reply {
                FsReply::Failed(reason) => s.after_failure(reason, now),
                _ => {
                    s.stage = ExecutionStage::CheckingTarget;
                    s
                },
            },
            ExecutionStage::CheckingTarget => match reply {
                FsReply::Failed(reason) => s.after_failure(reason, now),
                FsReply::Found(true) => s.after_failure(String::from_str("目标文件已存在"), now),
                _ => {
                    s.stage = ExecutionStage::Renaming;
                    s
                },
            },
            ExecutionStage::Renaming => match reply {
                FsReply::Failed(reason) => s.after_failure(reason, now),
                _ => s.after_success(now),
            },
            ExecutionStage::Saving => {
                s.stage = ExecutionStage::Finished;
                s
            },
            ExecutionStage::Finished => s,
        }
    }

    fn request(&self) -> (r: FsRequest)
        requires
            run_is_sound(self@),
        ensures
            r@ == execution_request(self@),
    {
        match self.stage {
            ExecutionStage::CreatingParent => {
                assert(operation_views(self.plan.operations@)[self.index as int]
                    == self.plan.operations@[self.index as int]@);
                match parent_of(self.plan.operations[self.index].to.as_str()) {
                    Some(dir) => FsRequest::CreateDirAll(dir),
                    None => FsRequest::Finished,
                }
            },
            ExecutionStage::CheckingTarget => {
                assert(operation_views(self.plan.operations@)[self.index as int]
                    == self.plan.operations@[self.index as int]@);
                FsRequest::Exists(self.plan.operations[self.index].to.clone())
            },
            ExecutionStage::Renaming => {
                assert(operation_views(self.plan.operations@)[self.index as int]
                    == self.plan.operations@[self.index as int]@);
                FsRequest::Rename(
                    self.plan.operations[self.index].from.clone(),
                    self.plan.operations[self.index].to.clone(),
                )
            },
            ExecutionStage::Saving => FsRequest::SaveHistory,
            ExecutionStage::Finished => FsRequest::Finished,
        }
    }
}

/// An execution under way. It holds the executor and the batch until it is
/// taken apart again.
pub struct ExecutionRun {
    state: RunState,
}

impl View for ExecutionRun {
    type V = RunView;

    closed spec fn view(&self) -> RunView {
        self.state@
    }
}

impl ExecutionRun {
    #[verifier::type_invariant]
    spec fn sound(self) -> bool {
        run_is_sound(self.state@)
    }

    /// The step that the caller is to take next.
    pub fn request(&self) -> (r: FsRequest)
        ensures
            r@ == execution_request(self@),
            run_is_sound(self@),
    {
        proof {
            use_type_invariant(self);
        }
        self.state.request()
    }

    /// Whether nothing is left to do.
    pub fn is_finished(&self) -> (r: bool)
        ensures
            r == (self@.stage is Finished),
    {
        match self.state.stage {
            ExecutionStage::Finished => true,
            _ => false,
        }
    }

    /// The executor as it stands in the run.
    pub fn executor(&self) -> (r: &Executor)
        ensures
            r@ == self@.executor,
    {
        &self.state.executor
    }

    /// The batch as it stands in the run.
    pub fn plan(&self) -> (r: &MovePlan)
        ensures
            r@ == self@.plan,
    {
        &self.state.plan
    }

    /// Takes in how the step that was asked for went, at the instant
    /// `now`, and moves on.
    pub fn advance_at(&mut self, reply: FsReply, now: i64)
        ensures
            final(self)@ == execution_step(old(self)@, reply@, now),
    {
        proof {
            use_type_invariant(&*self);
        }
        let mut state = RunState::idle();
        core::mem::swap(&mut self.state, &mut state);
        let next = state.step(reply, now);
        self.state = next;
    }

    /// Takes in how the step that was asked for went, and moves on. The
    /// batch is entered in the history under the time at which its last
    /// operation was through.
    pub fn advance(&mut self, reply: FsReply)
        ensures
            exists|now: i64| final(self)@ == #[trigger] execution_step(old(self)@, reply@, now),
    {
        let now = unix_now();
        self.advance_at(reply, now)
    }

    /// Takes the run apart: the executor, the batch with the status of each
    /// operation, and the outcome so far.
    pub fn finish(self) -> (r: (Executor, MovePlan, ExecutionResult))
        ensures
            r.0@ == self@.executor,
            r.1@ == self@.plan,
            r.2@ == self@.result,
    {
        let ExecutionRun { state } = self;
        (state.executor, state.plan, state.result)
    }
}

impl Executor {
    /// Begins to carry out a batch at the instant `now`. The operations are
    /// taken strictly in the order of the batch, and a failure never stops
    /// the run.
    pub fn execute_at(self, plan: MovePlan, now: i64) -> (r: ExecutionRun)
        ensures
            r@ == execution_start(self@, plan@, now),
    {
        let state = RunState {
            executor: self,
            plan,
            index: 0,
            stage: ExecutionStage::Finished,
            result: ExecutionResult { successful: 0, failed: 0, skipped: 0, errors: Vec::new() },
        };
        assert(views(state.result.errors@) =~= Seq::empty());
        ExecutionRun { state: state.turn_to(0, now) }
    }

    /// Begins to carry out a batch.
    pub fn execute(self, plan: MovePlan) -> (r: ExecutionRun)
        ensures
            exists|now: i64| r@ == #[trigger] execution_start(self@, plan@, now),
    {
        let now = unix_now();
        self.execute_at(plan, now)
    }
}

/// The run stays sound from its start through every step.
pub proof fn lemma_run_stays_sound(s: RunView, reply: ReplyView, now: i64)
    requires
        run_is_sound(s),
    ensures
        run_is_sound(execution_step(s, reply, now)),
{
}

/// For a batch whose operations from the current one on are still pending
/// or, for the current one, in progress, a step changes the status of an
/// operation only along a legal edge: pending to in progress, in progress
/// to completed or failed.
pub proof fn lemma_execution_steps_are_legal(s: RunView, reply: ReplyView, now: i64, k: int)
    requires
        run_is_sound(s),
        0 <= k < s.plan.operations.len(),
        (s.stage is CreatingParent || s.stage is CheckingTarget || s.stage is Renaming)
            ==> s.plan.operations[s.index].status is InProgress,
        forall|j: int|
            s.index < j < s.plan.operations.len() ==> (#[trigger] s.plan.operations[j]).status
                is Pending,
    ensures
        execution_step(s, reply, now).plan.operations.len() == s.plan.operations.len(),
        execution_step(s, reply, now).plan.operations[k].status == s.plan.operations[k].status
            || s.plan.operations[k].status.may_become(
            execution_step(s, reply, now).plan.operations[k].status,
        ),
        execution_step(s, reply, now).plan.operations[k].from == s.plan.operations[k].from,
        execution_step(s, reply, now).plan.operations[k].to == s.plan.operations[k].to,
{
}

/// The operations are taken in the order of the batch: a step never moves
/// the index back, and moves it on by one at most.
pub proof fn lemma_execution_in_order(s: RunView, reply: ReplyView, now: i64)
    requires
        run_is_sound(s),
    ensures
        s.index <= execution_step(s, reply, now).index <= s.index + 1,
{
}

/// Once nothing is left to do, every operation of the batch is through:
/// a run that has reached the writing of the history stands past the last
/// operation, and the batch is the last entry of the history, not rolled
/// back.
pub proof fn lemma_turn_past_end_records(s: RunView, now: i64)
    requires
        run_is_sound(s),
    ensures
        turn_to(s, s.plan.operations.len() as int, now).stage is Saving,
        turn_to(s, s.plan.operations.len() as int, now).executor.history.last() == record_of(
            s.plan,
            now,
        ),
        turn_to(s, s.plan.operations.len() as int, now).executor.history.len()
            == s.executor.history.len() + 1,
{
}


/// Where a rollback stands.
#[derive(Debug, Clone, Copy, PartialEq, Eq, Structural)]
pub enum RollbackStage {
    /// The place that the file was moved to is being looked at.
    CheckingMoved,
    /// The directory that the file came from is being created again.
    CreatingParent,
    /// The file is being renamed back.
    Renaming,
    /// The directory that the file was moved to is being removed, if it is
    /// empty.
    Removing,
    /// The batch is marked as rolled back, and the history is being
    /// written out.
    Saving,
    /// Nothing is left to do.
    Finished,
}

/// A rollback under way, as a value.
pub struct UndoView {
    pub executor: ExecutorView,
    /// The entry of the history that is being rolled back.
    pub entry: int,
    /// The operation that is being undone.
    pub index: int,
    pub stage: RollbackStage,
    pub result: RollbackView,
}

/// The index of the first entry at or after `start` with the batch
/// identifier `id`.
pub open spec fn find_batch(history: Seq<HistoryView>, id: Seq<char>, start: int) -> Option<int>
    decreases history.len() - start,
{
    if start < 0 || start >= history.len() {
        None
    } else if history[start].batch_id == id {
        Some(start)
    } else {
        find_batch(history, id, start + 1)
    }
}

/// The index of the last completed operation below `below`.
pub open spec fn last_completed(ops: Seq<OperationView>, below: int) -> Option<int>
    decreases below,
{
    if below <= 0 || below > ops.len() {
        None
    } else if ops[below - 1].status is Completed {
        Some(below - 1)
    } else {
        last_completed(ops, below - 1)
    }
}

/// The message for a batch that is not in the history.
pub open spec fn batch_not_found(id: Seq<char>) -> Seq<char> {
    "未找到批次: "@ + id
}

/// The message for a batch that was rolled back before.
pub open spec fn already_rolled_back() -> Seq<char> {
    "该批次已回滚"@
}

/// The words for a file that is no longer where it was moved to.
pub open spec fn moved_file_missing() -> Seq<char> {
    "新位置文件不存在"@
}

/// The message for a move that could not be undone.
pub open spec fn undo_failure_message(to: Seq<char>, reason: Seq<char>) -> Seq<char> {
    "回滚 "@ + to + " 失败: "@ + reason
}

/// The operations of the entry that is being rolled back.
pub open spec fn undo_operations(s: UndoView) -> Seq<OperationView> {
    s.executor.history[s.entry].operations
}

/// The history with the operations of one entry replaced.
pub open spec fn with_operations(history: Seq<HistoryView>, entry: int, ops: Seq<OperationView>) -> Seq<
    HistoryView,
> {
    history.update(entry, HistoryView { operations: ops, ..history[entry] })
}

/// The history with one entry marked as rolled back.
pub open spec fn marked_rolled_back(history: Seq<HistoryView>, entry: int) -> Seq<HistoryView> {
    history.update(entry, HistoryView { rolled_back: true, ..history[entry] })
}

/// The rollback as it turns to the last completed operation below
/// `below`. Where there is none left, the batch is marked as rolled back
/// and the history is to be written out.
pub open spec fn seek(s: UndoView, below: int) -> UndoView {
    match last_completed(undo_operations(s), below) {
        Some(k) => UndoView { index: k, stage: RollbackStage::CheckingMoved, ..s },
        None => UndoView {
            executor: ExecutorView {
                history: marked_rolled_back(s.executor.history, s.entry),
                ..s.executor
            },
            index: 0,
            stage: RollbackStage::Saving,
            ..s
        },
    }
}

/// A rollback that ends at once with one message and without touching
/// anything.
pub open spec fn rejected(executor: ExecutorView, message: Seq<char>) -> UndoView {
    UndoView {
        executor,
        entry: 0,
        index: 0,
        stage: RollbackStage::Finished,
        result: RollbackView { successful: 0, failed: 0, errors: seq![message] },
    }
}

/// The rollback of the batch `id` at its start. A batch that is not in the
/// history, or that was rolled back before, is rejected. Else the completed
/// operations are undone from the last to the first.
pub open spec fn rollback_start(executor: ExecutorView, id: Seq<char>) -> UndoView {
    match find_batch(executor.history, id, 0) {
        None => rejected(executor, batch_not_found(id)),
        Some(e) => if executor.history[e].rolled_back {
            rejected(executor, already_rolled_back())
        } else {
            seek(
                UndoView {
                    executor,
                    entry: e,
                    index: 0,
                    stage: RollbackStage::Finished,
                    result: RollbackView { successful: 0, failed: 0, errors: Seq::empty() },
                },
                executor.history[e].operations.len() as int,
            )
        },
    }
}

/// The rollback after the current operation could not be undone: the
/// failure is counted and reported, the operation stays completed, and the
/// rollback turns to the completed operation before it.
pub open spec fn undo_failed(s: UndoView, reason: Seq<char>) -> UndoView {
    seek(
        UndoView {
            result: RollbackView {
                failed: (s.result.failed + 1) as usize,
                errors: s.result.errors.push(
                    undo_failure_message(undo_operations(s)[s.index].to, reason),
                ),
                ..s.result
            },
            ..s
        },
        s.index,
    )
}

/// The rollback after the current operation was renamed back: the
/// operation is rolled back and counted.
pub open spec fn undo_done(s: UndoView) -> UndoView {
    UndoView {
        executor: ExecutorView {
            history: with_operations(
                s.executor.history,
                s.entry,
                with_status(undo_operations(s), s.index, OperationStatus::RolledBack),
            ),
            ..s.executor
        },
        result: RollbackView { successful: (s.result.successful + 1) as usize, ..s.result },
        ..s
    }
}

/// The step that the rollback asks for.
pub open spec fn rollback_request(s: UndoView) -> RequestView {
    match s.stage {
        RollbackStage::CheckingMoved => RequestView::Exists(undo_operations(s)[s.index].to),
        RollbackStage::CreatingParent => RequestView::CreateDirAll(
            parent(undo_operations(s)[s.index].from).unwrap(),
        ),
        RollbackStage::Renaming => RequestView::Rename(
            undo_operations(s)[s.index].to,
            undo_operations(s)[s.index].from,
        ),
        RollbackStage::Removing => RequestView::RemoveDir(
            parent(undo_operations(s)[s.index].to).unwrap(),
        ),
        RollbackStage::Saving => RequestView::SaveHistory,
        RollbackStage::Finished => RequestView::Finished,
    }
}

/// The rollback after it was told how its step went. A file that is no
/// longer where it was moved to, and a failure at any step but the removal
/// of the emptied directory, fails the operation; the rollback then goes on
/// with the completed operation before it.
pub open spec fn rollback_step(s: UndoView, reply: ReplyView) -> UndoView {
    match s.stage {
        RollbackStage::CheckingMoved => match reply {
            ReplyView::Failed(reason) => undo_failed(s, reason),
            ReplyView::Found(false) => undo_failed(s, moved_file_missing()),
            _ => if parent(undo_operations(s)[s.index].from) is Some {
                UndoView { stage: RollbackStage::CreatingParent, ..s }
            } else {
                UndoView { stage: RollbackStage::Renaming, ..s }
            },
        },
        RollbackStage::CreatingParent => match reply {
            ReplyView::Failed(reason) => undo_failed(s, reason),
            _ => UndoView { stage: RollbackStage::Renaming, ..s },
        },
        RollbackStage::Renaming => match reply {
            ReplyView::Failed(reason) => undo_failed(s, reason),
            _ => if parent(undo_operations(s)[s.index].to) is Some {
                UndoView { stage: RollbackStage::Removing, ..undo_done(s) }
            } else {
                seek(undo_done(s), s.index)
            },
        },
        RollbackStage::Removing => seek(s, s.index),
        RollbackStage::Saving => UndoView { stage: RollbackStage::Finished, ..s },
        RollbackStage::Finished => s,
    }
}

/// The rollback stands at an operation: a step on one is asked for.
pub open spec fn at_operation(s: UndoView) -> bool {
    s.stage is CheckingMoved || s.stage is CreatingParent || s.stage is Renaming || s.stage
        is Removing
}

/// A rollback is sound when, while it stands at an operation, its entry
/// lies within the history and its index within the entry, the directory
/// that a step is asked for exists as a path, and no more outcomes were
/// counted than operations are through.
pub open spec fn undo_is_sound(s: UndoView) -> bool {
    &&& (at_operation(s) || s.stage is Saving) ==> 0 <= s.entry < s.executor.history.len()
    &&& at_operation(s) ==> 0 <= s.index < undo_operations(s).len()
    &&& s.stage is CreatingParent ==> parent(undo_operations(s)[s.index].from) is Some
    &&& s.stage is Removing ==> parent(undo_operations(s)[s.index].to) is Some
    &&& s.stage is Removing ==> s.result.successful + s.result.failed + s.index
        <= undo_operations(s).len()
    &&& (s.stage is CheckingMoved || s.stage is CreatingParent || s.stage is Renaming)
        ==> s.result.successful + s.result.failed + s.index < undo_operations(s).len()
}

/// The last completed operation below a bound lies below it, and is
/// completed.
pub proof fn lemma_last_completed(ops: Seq<OperationView>, below: int)
    ensures
        match last_completed(ops, below) {
            Some(k) => 0 <= k < below && k < ops.len() && ops[k].status is Completed && forall|
                j: int,
            |
                k < j < below ==> !((#[trigger] ops[j]).status is Completed),
            None => 0 <= below <= ops.len() ==> forall|j: int|
                0 <= j < below ==> !((#[trigger] ops[j]).status is Completed),
        },
    decreases below,
{
    if 0 < below <= ops.len() && !(ops[below - 1].status is Completed) {
        lemma_last_completed(ops, below - 1);
    }
}

/// The state of a rollback under way.
struct UndoState {
    executor: Executor,
    entry: usize,
    index: usize,
    stage: RollbackStage,
    result: RollbackResult,
}

impl View for UndoState {
    type V = UndoView;

    closed spec fn view(&self) -> UndoView {
        UndoView {
            executor: self.executor@,
            entry: self.entry as int,
            index: self.index as int,
            stage: self.stage,
            result: self.result@,
        }
    }
}

impl UndoState {
    /// A state in which nothing is under way.
    fn idle() -> (r: UndoState)
        ensures
            undo_is_sound(r@),
    {
        UndoState {
            executor: Executor { history: Vec::new(), history_file: String::new() },
            entry: 0,
            index: 0,
            stage: RollbackStage::Finished,
            result: RollbackResult { successful: 0, failed: 0, errors: Vec::new() },
        }
    }

    fn rejected(executor: Executor, message: String) -> (r: UndoState)
        ensures
            r@ == rejected(executor@, message@),
            undo_is_sound(r@),
    {
        let mut errors: Vec<String> = Vec::new();
        errors.push(message);
        assert(views(errors@) =~= seq![message@]);
        UndoState {
            executor,
            entry: 0,
            index: 0,
            stage: RollbackStage::Finished,
            result: RollbackResult { successful: 0, failed: 0, errors },
        }
    }

    fn seek(self, below: usize) -> (r: UndoState)
        requires
            self@.entry < self@.executor.history.len(),
            below <= undo_operations(self@).len(),
            self@.result.successful + self@.result.failed + below <= undo_operations(self@).len(),
        ensures
            r@ == seek(self@, below as int),
            undo_is_sound(r@),
    {
        let mut s = self;
        let ghost before = s@;
        let ghost history = history_views(s.executor.history@);
        let ghost ops = undo_operations(before);
        assert(history[s.entry as int] == s.executor.history@[s.entry as int]@);
        let mut k: usize = below;
        while k > 0
            invariant
                k <= below,
                s@ == before,
                before == self@,
                history == history_views(s.executor.history@),
                s.entry < s.executor.history@.len(),
                ops == undo_operations(before),
                ops == operation_views(s.executor.history@[s.entry as int].operations@),
                below <= ops.len(),
                before.result.successful + before.result.failed + below <= ops.len(),
                last_completed(ops, k as int) == last_completed(ops, below as int),
            decreases k,
        {
            assert(ops[k - 1] == s.executor.history@[s.entry as int].operations@[k - 1]@);
            match s.executor.history[s.entry].operations[k - 1].status {
                OperationStatus::Completed => {
                    s.index = k - 1;
                    s.stage = RollbackStage::CheckingMoved;
                    return s;
                },
                _ => {},
            }
            k -= 1;
        }
        s.executor.history[s.entry].rolled_back = true;
        assert(history_views(s.executor.history@) =~= marked_rolled_back(history, s.entry as int));
        s.index = 0;
        s.stage = RollbackStage::Saving;
        s
    }

    fn undo_failed(self, reason: String) -> (r: UndoState)
        requires
            undo_is_sound(self@),
            self@.stage is CheckingMoved || self@.stage is CreatingParent || self@.stage
                is Renaming,
        ensures
            r@ == undo_failed(self@, reason@),
            undo_is_sound(r@),
    {
        let mut s = self;
        let ghost history = history_views(s.executor.history@);
        let ghost errors = views(s.result.errors@);
        assert(history[s.entry as int] == s.executor.history@[s.entry as int]@);
        assert(undo_operations(s@)[s.index as int]
            == s.executor.history@[s.entry as int].operations@[s.index as int]@);
        let n = s.executor.history[s.entry].operations.len();
        let mut message = prefixed(
            "回滚 ",
            s.executor.history[s.entry].operations[s.index].to.as_str(),
        );
        message.append(" 失败: ");
        message.append(reason.as_str());
        s.result.errors.push(message);
        assert(views(s.result.errors@) =~= errors.push(
            undo_failure_message(undo_operations(self@)[self@.index].to, reason@),
        ));
        s.result.failed = s.result.failed + 1;
        let below = s.index;
        s.seek(below)
    }

    fn undo_done(self) -> (r: UndoState)
        requires
            undo_is_sound(self@),
            self@.stage is Renaming,
        ensures
            r@ == undo_done(self@),
            r@.entry < r@.executor.history.len(),
            r@.index < undo_operations(r@).len(),
            r@.result.successful + r@.result.failed + r@.index <= undo_operations(r@).len(),
    {
        let mut s = self;
        let ghost history = history_views(s.executor.history@);
        let ghost ops = undo_operations(s@);
        assert(history[s.entry as int] == s.executor.history@[s.entry as int]@);
        assert(ops[s.index as int]
            == s.executor.history@[s.entry as int].operations@[s.index as int]@);
        let n = s.executor.history[s.entry].operations.len();
        s.executor.history[s.entry].operations[s.index].status = OperationStatus::RolledBack;
        assert(operation_views(s.executor.history@[s.entry as int].operations@) =~= with_status(
            ops,
            s.index as int,
            OperationStatus::RolledBack,
        ));
        assert(history_views(s.executor.history@) =~= with_operations(
            history,
            s.entry as int,
            with_status(ops, s.index as int, OperationStatus::RolledBack),
        ));
        s.result.successful = s.result.successful + 1;
        s
    }

    fn step(self, reply: FsReply) -> (r: UndoState)
        requires
            undo_is_sound(self@),
        ensures
            r@ == rollback_step(self@, reply@),
            undo_is_sound(r@),
    {
        let mut s = self;
        proof {
            if at_operation(s@) {
                assert(history_views(s.executor.history@)[s.entry as int]
                    == s.executor.history@[s.entry as int]@);
                assert(undo_operations(s@)[s.index as int]
                    == s.executor.history@[s.entry as int].operations@[s.index as int]@);
            }
        }
        match s.stage {
            RollbackStage::CheckingMoved => match reply {
                FsReply::Failed(reason) => s.undo_failed(reason),
                FsReply::Found(false) => s.undo_failed(String::from_str("新位置文件不存在")),
                _ => {
                    s.stage = if parent_of(
                        s.executor.history[s.entry].operations[s.index].from.as_str(),
                    ).is_some() {
                        RollbackStage::CreatingParent
                    } else {
                        RollbackStage::Renaming
                    };
                    s
                },
            },
            RollbackStage::CreatingParent => match reply {
                FsReply::Failed(reason) => s.undo_failed(reason),
                _ => {
                    s.stage = RollbackStage::Renaming;
                    s
                },
            },
            RollbackStage::Renaming => match reply {
                FsReply::Failed(reason) => s.undo_failed(reason),
                _ => {
                    let has_parent = parent_of(
                        s.executor.history[s.entry].operations[s.index].to.as_str(),
                    ).is_some();
                    let mut t = s.undo_done();
                    if has_parent {
                        t.stage = RollbackStage::Removing;
                        t
                    } else {
                        let below = t.index;
                        t.seek(below)
                    }
                },
            },
            RollbackStage::Removing => {
                let below = s.index;
                s.seek(below)
            },
            RollbackStage::Saving => {
                s.stage = RollbackStage::Finished;
                s
            },
            RollbackStage::Finished => s,
        }
    }

    fn request(&self) -> (r: FsRequest)
        requires
            undo_is_sound(self@),
        ensures
            r@ == rollback_request(self@),
    {
        proof {
            if at_operation(self@) {
                assert(history_views(self.executor.history@)[self.entry as int]
                    == self.executor.history@[self.entry as int]@);
                assert(undo_operations(self@)[self.index as int]
                    == self.executor.history@[self.entry as int].operations@[self.index as int]@);
            }
        }
        match self.stage {
            RollbackStage::CheckingMoved => FsRequest::Exists(
                self.executor.history[self.entry].operations[self.index].to.clone(),
            ),
            RollbackStage::CreatingParent => match parent_of(
                self.executor.history[self.entry].operations[self.index].from.as_str(),
            ) {
                Some(dir) => FsRequest::CreateDirAll(dir),
                None => FsRequest::Finished,
            },
            RollbackStage::Renaming => FsRequest::Rename(
                self.executor.history[self.entry].operations[self.index].to.clone(),
                self.executor.history[self.entry].operations[self.index].from.clone(),
            ),
            RollbackStage::Removing => match parent_of(
                self.executor.history[self.entry].operations[self.index].to.as_str(),
            ) {
                Some(dir) => FsRequest::RemoveDir(dir),
                None => FsRequest::Finished,
            },
            RollbackStage::Saving => FsRequest::SaveHistory,
            RollbackStage::Finished => FsRequest::Finished,
        }
    }
}

/// A rollback under way. It holds the executor until it is taken apart
/// again.
pub struct RollbackRun {
    state: UndoState,
}

impl View for RollbackRun {
    type V = UndoView;

    closed spec fn view(&self) -> UndoView {
        self.state@
    }
}

impl RollbackRun {
    #[verifier::type_invariant]
    spec fn sound(self) -> bool {
        undo_is_sound(self.state@)
    }

    /// The step that the caller is to take next.
    pub fn request(&self) -> (r: FsRequest)
        ensures
            r@ == rollback_request(self@),
            undo_is_sound(self@),
    {
        proof {
            use_type_invariant(self);
        }
        self.state.request()
    }

    /// Whether nothing is left to do.
    pub fn is_finished(&self) -> (r: bool)
        ensures
            r == (self@.stage is Finished),
    {
        match self.state.stage {
            RollbackStage::Finished => true,
            _ => false,
        }
    }

    /// The executor as it stands in the rollback.
    pub fn executor(&self) -> (r: &Executor)
        ensures
            r@ == self@.executor,
    {
        &self.state.executor
    }

    /// Takes in how the step that was asked for went, and moves on.
    pub fn advance(&mut self, reply: FsReply)
        ensures
            final(self)@ == rollback_step(old(self)@, reply@),
    {
        proof {
            use_type_invariant(&*self);
        }
        let mut state = UndoState::idle();
        core::mem::swap(&mut self.state, &mut state);
        let next = state.step(reply);
        self.state = next;
    }

    /// Takes the rollback apart: the executor and the outcome so far.
    pub fn finish(self) -> (r: (Executor, RollbackResult))
        ensures
            r.0@ == self@.executor,
            r.1@ == self@.result,
    {
        let RollbackRun { state } = self;
        (state.executor, state.result)
    }
}

impl Executor {
    /// The index of the first entry of the history with the batch
    /// identifier `batch_id`.
    pub fn locate_batch(&self, batch_id: &str) -> (r: Option<usize>)
        ensures
            match r {
                Some(e) => find_batch(self@.history, batch_id@, 0) == Some(e as int) && e
                    < self@.history.len(),
                None => find_batch(self@.history, batch_id@, 0) is None,
            },
    {
        let ghost history = history_views(self.history@);
        let mut i: usize = 0;
        while i < self.history.len()
            invariant
                i <= self.history@.len(),
                history == history_views(self.history@),
                find_batch(history, batch_id@, i as int) == find_batch(history, batch_id@, 0),
            decreases self.history@.len() - i,
        {
            assert(history[i as int] == self.history@[i as int]@);
            if crate::text::same_text(self.history[i].batch_id.as_str(), batch_id) {
                return Some(i);
            }
            i += 1;
        }
        None
    }

    /// Begins to roll back the batch `batch_id`. A batch that is not in
    /// the history, or that was rolled back before, is rejected with a
    /// message and without any step. Else the completed operations of the
    /// batch are undone from the last to the first; a failure never stops
    /// the rollback.
    pub fn rollback(self, batch_id: &str) -> (r: RollbackRun)
        ensures
            r@ == rollback_start(self@, batch_id@),
    {
        let ghost history = history_views(self.history@);
        match self.locate_batch(batch_id) {
            None => RollbackRun {
                state: UndoState::rejected(self, prefixed("未找到批次: ", batch_id)),
            },
            Some(e) => {
                assert(history[e as int] == self.history@[e as int]@);
                if self.history[e].rolled_back {
                    RollbackRun {
                        state: UndoState::rejected(self, String::from_str("该批次已回滚")),
                    }
                } else {
                    let n = self.history[e].operations.len();
                    let state = UndoState {
                        executor: self,
                        entry: e,
                        index: 0,
                        stage: RollbackStage::Finished,
                        result: RollbackResult { successful: 0, failed: 0, errors: Vec::new() },
                    };
                    assert(views(state.result.errors@) =~= Seq::empty());
                    RollbackRun { state: state.seek(n) }
                }
            },
        }
    }
}

/// A rollback stays sound through every step.
pub proof fn lemma_undo_stays_sound(s: UndoView, reply: ReplyView)
    requires
        undo_is_sound(s),
    ensures
        undo_is_sound(rollback_step(s, reply)),
{
    if at_operation(s) {
        lemma_last_completed(undo_operations(s), s.index);
        lemma_last_completed(undo_operations(undo_done(s)), s.index);
    }
}

/// A step of a rollback changes no batch identifier, and so never changes
/// which entry an identifier finds.
pub proof fn lemma_find_batch_stable(before: Seq<HistoryView>, after: Seq<HistoryView>, id: Seq<char>, start: int)
    requires
        before.len() == after.len(),
        forall|i: int| 0 <= i < before.len() ==> (#[trigger] before[i]).batch_id == after[i].batch_id,
    ensures
        find_batch(before, id, start) == find_batch(after, id, start),
    decreases before.len() - start,
{
    if 0 <= start < before.len() && before[start].batch_id != id {
        lemma_find_batch_stable(before, after, id, start + 1);
    }
}

/// What holds of the rollback of the batch `id` from its start through
/// every step: while operations are being undone the batch is the entry
/// that `id` finds and is not yet marked; once the history is being written
/// out, the batch is marked as rolled back; and once nothing is left to do,
/// `id` finds no entry that is not marked.
pub open spec fn undo_tracks(s: UndoView, id: Seq<char>) -> bool {
    &&& undo_is_sound(s)
    &&& at_operation(s) ==> find_batch(s.executor.history, id, 0) == Some(s.entry)
        && !s.executor.history[s.entry].rolled_back
    &&& s.stage is Saving ==> find_batch(s.executor.history, id, 0) == Some(s.entry)
        && s.executor.history[s.entry].rolled_back
    &&& s.stage is Finished ==> match find_batch(s.executor.history, id, 0) {
        Some(e) => s.executor.history[e].rolled_back,
        None => true,
    }
}

/// The first entry that an identifier finds lies within the history.
pub proof fn lemma_find_batch_bounds(history: Seq<HistoryView>, id: Seq<char>, start: int)
    requires
        0 <= start,
    ensures
        match find_batch(history, id, start) {
            Some(e) => start <= e < history.len() && history[e].batch_id == id,
            None => true,
        },
    decreases history.len() - start,
{
    if start < history.len() && history[start].batch_id != id {
        lemma_find_batch_bounds(history, id, start + 1);
    }
}

/// The rollback of a batch tracks the batch from its start.
pub proof fn lemma_rollback_start_tracks(executor: ExecutorView, id: Seq<char>)
    ensures
        undo_tracks(rollback_start(executor, id), id),
{
    lemma_find_batch_bounds(executor.history, id, 0);
    match find_batch(executor.history, id, 0) {
        Some(e) => {
            if !executor.history[e].rolled_back {
                let ops = executor.history[e].operations;
                lemma_last_completed(ops, ops.len() as int);
                let marked = marked_rolled_back(executor.history, e);
                lemma_find_batch_stable(executor.history, marked, id, 0);
            }
        },
        None => {},
    }
}

/// The rollback of a batch tracks the batch through every step.
pub proof fn lemma_rollback_step_tracks(s: UndoView, reply: ReplyView, id: Seq<char>)
    requires
        undo_tracks(s, id),
    ensures
        undo_tracks(rollback_step(s, reply), id),
{
    lemma_undo_stays_sound(s, reply);
    let t = rollback_step(s, reply);
    if at_operation(s) {
        lemma_last_completed(undo_operations(s), s.index);
        lemma_last_completed(undo_operations(undo_done(s)), s.index);
        assert(t.executor.history.len() == s.executor.history.len());
        assert forall|i: int| 0 <= i < s.executor.history.len() implies (
        #[trigger] s.executor.history[i]).batch_id == t.executor.history[i].batch_id by {}
        lemma_find_batch_stable(s.executor.history, t.executor.history, id, 0);
    }
}

/// A second rollback of the same batch is rejected. Once the rollback of
/// the batch `id` has nothing left to do, a new rollback of `id` on the
/// executor that it leaves behind ends at once: it asks for no step on the
/// file system, changes nothing in the history, undoes nothing, and reports
/// one error.
pub proof fn lemma_second_rollback_rejected(s: UndoView, id: Seq<char>)
    requires
        undo_tracks(s, id),
        s.stage is Finished,
    ensures
        rollback_start(s.executor, id).stage is Finished,
        rollback_request(rollback_start(s.executor, id)) is Finished,
        rollback_start(s.executor, id).executor == s.executor,
        rollback_start(s.executor, id).result.successful == 0,
        rollback_start(s.executor, id).result.failed == 0,
        rollback_start(s.executor, id).result.errors.len() == 1,
        find_batch(s.executor.history, id, 0) is Some ==> rollback_start(
            s.executor,
            id,
        ).result.errors[0] == already_rolled_back(),
{
}

/// A step of a rollback changes the status of an operation only from
/// completed to rolled back, and changes nothing else about it.
pub proof fn lemma_rollback_steps_are_legal(s: UndoView, reply: ReplyView, k: int)
    requires
        undo_is_sound(s),
        at_operation(s),
        0 <= k < undo_operations(s).len(),
        s.stage is Renaming ==> undo_operations(s)[s.index].status is Completed,
    ensures
        undo_operations(rollback_step(s, reply)).len() == undo_operations(s).len(),
        undo_operations(rollback_step(s, reply))[k].status == undo_operations(s)[k].status
            || undo_operations(s)[k].status.may_become(
            undo_operations(rollback_step(s, reply))[k].status,
        ),
        undo_operations(rollback_step(s, reply))[k].from == undo_operations(s)[k].from,
        undo_operations(rollback_step(s, reply))[k].to == undo_operations(s)[k].to,
        rollback_step(s, reply).entry == s.entry,
{
    lemma_last_completed(undo_operations(s), s.index);
    lemma_last_completed(undo_operations(undo_done(s)), s.index);
}

/// The operations are undone from the last to the first: a step never
/// moves the index up while operations are being undone.
pub proof fn lemma_rollback_in_reverse(s: UndoView, reply: ReplyView)
    requires
        undo_is_sound(s),
        at_operation(s),
        at_operation(rollback_step(s, reply)),
    ensures
        rollback_step(s, reply).index <= s.index,
        rollback_step(s, reply).stage is CheckingMoved ==> rollback_step(s, reply).index < s.index,
{
    lemma_last_completed(undo_operations(s), s.index);
    lemma_last_completed(undo_operations(undo_done(s)), s.index);
}

/// The history is a log: a step of an execution leaves it as it is or adds
/// the batch at its end, and never touches an earlier entry.
pub proof fn lemma_execution_appends(s: RunView, reply: ReplyView, now: i64)
    requires
        run_is_sound(s),
    ensures
        execution_step(s, reply, now).executor.history == s.executor.history || exists|
            plan: PlanView,
        |
            execution_step(s, reply, now).executor.history == s.executor.history.push(
                #[trigger] record_of(plan, now),
            ),
        execution_step(s, reply, now).executor.history_file == s.executor.history_file,
{
    let t = execution_step(s, reply, now);
    if t.executor.history != s.executor.history {
        assert(t.executor.history == s.executor.history.push(record_of(t.plan, now)));
    }
}

/// A step of a rollback touches one entry of the history only, and of that
/// entry only the status of its operations and the mark that it was rolled
/// back.
pub proof fn lemma_rollback_touches_one_entry(s: UndoView, reply: ReplyView, j: int)
    requires
        undo_is_sound(s),
        0 <= j < s.executor.history.len(),
    ensures
        rollback_step(s, reply).executor.history.len() == s.executor.history.len(),
        rollback_step(s, reply).executor.history_file == s.executor.history_file,
        rollback_step(s, reply).executor.history[j].batch_id == s.executor.history[j].batch_id,
        rollback_step(s, reply).executor.history[j].executed_at
            == s.executor.history[j].executed_at,
        j != s.entry ==> rollback_step(s, reply).executor.history[j] == s.executor.history[j],
        s.executor.history[j].rolled_back ==> rollback_step(
            s,
            reply,
        ).executor.history[j].rolled_back,
{
    if at_operation(s) {
        lemma_last_completed(undo_operations(s), s.index);
        lemma_last_completed(undo_operations(undo_done(s)), s.index);
    }
}

} // verus!
