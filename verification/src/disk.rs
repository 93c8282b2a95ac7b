//! A file system in the small: the set of paths at which a file exists,
//! answering the steps of a run faithfully. On such a file system, rolling
//! back a batch whose operations all completed puts every file back where
//! it was.

use vstd::prelude::*;
use crate::models::{HistoryView, OperationView, PlanView};
use crate::executor::{
    ExecutionStage, ExecutorView, ReplyView, RequestView, RollbackStage, RunView, UndoView,
    at_operation, execution_request,
    execution_start, execution_step, find_batch, lemma_last_completed, record_of,
    rollback_request, rollback_start, rollback_step, run_is_sound, undo_is_sound,
    undo_operations,
};

verus! {

/// The words with which a rename of a missing file fails.
pub open spec fn no_such_file() -> Seq<char> {
    "No such file or directory"@
}

/// How a step goes on the file system `disk`: a path exists if it is in the
/// set, a rename succeeds if its source is, and everything else succeeds.
pub open spec fn reply_of(disk: Set<Seq<char>>, request: RequestView) -> ReplyView {
    match request {
        RequestView::Exists(p) => ReplyView::Found(disk.contains(p)),
        RequestView::Rename(a, b) => if disk.contains(a) {
            ReplyView::Done
        } else {
            ReplyView::Failed(no_such_file())
        },
        _ => ReplyView::Done,
    }
}

/// The file system after a step: a rename that succeeds takes the source
/// out and puts the destination in; nothing else moves a file.
pub open spec fn disk_after(disk: Set<Seq<char>>, request: RequestView) -> Set<Seq<char>> {
    match request {
        RequestView::Rename(a, b) => if disk.contains(a) {
            disk.remove(a).insert(b)
        } else {
            disk
        },
        _ => disk,
    }
}

/// An execution and the file system after so many steps, each answered
/// faithfully.
pub open spec fn executed(s: RunView, disk: Set<Seq<char>>, now: i64, steps: nat) -> (
    RunView,
    Set<Seq<char>>,
)
    decreases steps,
{
    if steps == 0 {
        (s, disk)
    } else {
        let request = execution_request(s);
        executed(
            execution_step(s, reply_of(disk, request), now),
            disk_after(disk, request),
            now,
            (steps - 1) as nat,
        )
    }
}

/// A rollback and the file system after so many steps, each answered
/// faithfully.
pub open spec fn undone(s: UndoView, disk: Set<Seq<char>>, steps: nat) -> (UndoView, Set<Seq<char>>)
    decreases steps,
{
    if steps == 0 {
        (s, disk)
    } else {
        let request = rollback_request(s);
        undone(
            rollback_step(s, reply_of(disk, request)),
            disk_after(disk, request),
            (steps - 1) as nat,
        )
    }
}

/// The file system after the completed ones of the first `n` operations
/// were carried out on `start`, in order.
pub open spec fn moved(ops: Seq<OperationView>, n: int, start: Set<Seq<char>>) -> Set<Seq<char>>
    decreases n,
{
    if n <= 0 {
        start
    } else if ops[n - 1].status is Completed {
        moved(ops, n - 1, start).remove(ops[n - 1].from).insert(ops[n - 1].to)
    } else {
        moved(ops, n - 1, start)
    }
}

/// Each completed one of the first `n` operations found its source in
/// place and its destination free.
pub open spec fn clean(ops: Seq<OperationView>, n: int, start: Set<Seq<char>>) -> bool {
    forall|k: int|
        0 <= k < n && (#[trigger] ops[k]).status is Completed ==> moved(ops, k, start).contains(
            ops[k].from,
        ) && !moved(ops, k, start).contains(ops[k].to)
}

/// Two lists of operations agree on their first `n` operations in what is
/// moved and whether it was.
pub open spec fn agree(a: Seq<OperationView>, b: Seq<OperationView>, n: int) -> bool {
    forall|k: int|
        0 <= k < n ==> (#[trigger] a[k]).from == b[k].from && a[k].to == b[k].to && (a[k].status
            is Completed) == (b[k].status is Completed)
}

/// What was moved depends only on the operations that were through.
pub proof fn lemma_moved_agrees(
    a: Seq<OperationView>,
    b: Seq<OperationView>,
    n: int,
    start: Set<Seq<char>>,
)
    requires
        agree(a, b, n),
    ensures
        moved(a, n, start) == moved(b, n, start),
    decreases n,
{
    if n > 0 {
        assert(a[n - 1].from == b[n - 1].from);
        lemma_moved_agrees(a, b, n - 1, start);
    }
}

/// Cleanness depends only on the operations that were through.
pub proof fn lemma_clean_agrees(
    a: Seq<OperationView>,
    b: Seq<OperationView>,
    n: int,
    start: Set<Seq<char>>,
)
    requires
        agree(a, b, n),
        clean(a, n, start),
    ensures
        clean(b, n, start),
{
    assert forall|k: int| 0 <= k < n && (#[trigger] b[k]).status is Completed implies moved(
        b,
        k,
        start,
    ).contains(b[k].from) && !moved(b, k, start).contains(b[k].to) by {
        assert(a[k].from == b[k].from);
        lemma_moved_agrees(a, b, k, start);
    }
}

/// What holds of an execution on a faithful file system that began on
/// `start` with the history `history`: the files are where the completed
/// operations so far put them, each of which found its source in place and
/// its destination free; and once all operations are through, the batch
/// stands at the end of the history as it ended.
pub open spec fn execution_tracks(
    s: RunView,
    disk: Set<Seq<char>>,
    start: Set<Seq<char>>,
    history: Seq<HistoryView>,
    now: i64,
) -> bool {
    let ops = s.plan.operations;
    &&& run_is_sound(s)
    &&& (s.stage is Saving || s.stage is Finished) ==> s.index == ops.len() && s.executor.history
        == history.push(record_of(s.plan, now))
    &&& !(s.stage is Saving || s.stage is Finished) ==> s.executor.history == history
    &&& disk == moved(ops, s.index, start)
    &&& clean(ops, s.index, start)
    &&& s.stage is Renaming ==> !disk.contains(ops[s.index].to)
    &&& (s.stage is CreatingParent || s.stage is CheckingTarget || s.stage is Renaming)
        ==> !(ops[s.index].status is Completed)
}

/// An execution tracks the file system from its start.
pub proof fn lemma_execution_start_tracks(
    executor: ExecutorView,
    plan: PlanView,
    start: Set<Seq<char>>,
    now: i64,
)
    ensures
        execution_tracks(
            execution_start(executor, plan, now),
            start,
            start,
            executor.history,
            now,
        ),
{
}

/// An execution tracks the file system through every faithful step.
pub proof fn lemma_execution_step_tracks(
    s: RunView,
    disk: Set<Seq<char>>,
    start: Set<Seq<char>>,
    history: Seq<HistoryView>,
    now: i64,
)
    requires
        execution_tracks(s, disk, start, history, now),
    ensures
        execution_tracks(
            execution_step(s, reply_of(disk, execution_request(s)), now),
            disk_after(disk, execution_request(s)),
            start,
            history,
            now,
        ),
        execution_step(s, reply_of(disk, execution_request(s)), now).plan.batch_id
            == s.plan.batch_id,
{
    let request = execution_request(s);
    let t = execution_step(s, reply_of(disk, request), now);
    let after = disk_after(disk, request);
    let ops = s.plan.operations;
    let i = s.index;
    if s.stage is Renaming {
        let next = t.plan.operations;
        assert(agree(ops, next, i));
        lemma_moved_agrees(ops, next, i, start);
        lemma_clean_agrees(ops, next, i, start);
        assert(t.index == i + 1);
        assert(next[i].from == ops[i].from && next[i].to == ops[i].to);
        if disk.contains(ops[i].from) {
            assert(next[i].status is Completed);
            assert(moved(next, i + 1, start) == moved(next, i, start).remove(next[i].from).insert(
                next[i].to,
            ));
        } else {
            assert(next[i].status is Failed);
            assert(moved(next, i + 1, start) == moved(next, i, start));
        }
        assert(clean(next, i + 1, start));
    } else if s.stage is CreatingParent || s.stage is CheckingTarget {
        let next = t.plan.operations;
        if t.index == i + 1 {
            assert(agree(ops, next, i));
            lemma_moved_agrees(ops, next, i, start);
            lemma_clean_agrees(ops, next, i, start);
            assert(next[i].status is Failed);
            assert(moved(next, i + 1, start) == moved(next, i, start));
            assert(clean(next, i + 1, start));
        }
    }
}

/// An execution tracks the file system however many faithful steps it
/// takes.
pub proof fn lemma_executed_tracks(
    s: RunView,
    disk: Set<Seq<char>>,
    start: Set<Seq<char>>,
    history: Seq<HistoryView>,
    now: i64,
    steps: nat,
)
    requires
        execution_tracks(s, disk, start, history, now),
    ensures
        execution_tracks(
            executed(s, disk, now, steps).0,
            executed(s, disk, now, steps).1,
            start,
            history,
            now,
        ),
        executed(s, disk, now, steps).0.plan.batch_id == s.plan.batch_id,
    decreases steps,
{
    if steps > 0 {
        lemma_execution_step_tracks(s, disk, start, history, now);
        let request = execution_request(s);
        lemma_executed_tracks(
            execution_step(s, reply_of(disk, request), now),
            disk_after(disk, request),
            start,
            history,
            now,
            (steps - 1) as nat,
        );
    }
}

/// A batch identifier that the history does not hold yet finds the batch
/// once the batch is added at the end.
pub proof fn lemma_fresh_batch_is_found(
    history: Seq<HistoryView>,
    record: HistoryView,
    from: int,
)
    requires
        0 <= from <= history.len(),
        find_batch(history, record.batch_id, from) is None,
    ensures
        find_batch(history.push(record), record.batch_id, from) == Some(history.len() as int),
    decreases history.len() - from,
{
    let longer = history.push(record);
    if from < history.len() {
        assert(longer[from] == history[from]);
        lemma_fresh_batch_is_found(history, record, from + 1);
    } else {
        assert(longer[from] == record);
    }
}

/// What holds of the rollback of entry `entry`, whose operations `done` all
/// completed cleanly from `start`, on a faithful file system: nothing has
/// failed; the operations up to the current one are still completed and
/// the files are where those put them; and once no operation is left, the
/// files are where they were at the start.
pub open spec fn rollback_tracks(
    s: UndoView,
    disk: Set<Seq<char>>,
    start: Set<Seq<char>>,
    done: Seq<OperationView>,
    entry: int,
) -> bool {
    &&& undo_is_sound(s)
    &&& s.result.failed == 0
    &&& at_operation(s) ==> {
        let ops = undo_operations(s);
        &&& s.entry == entry
        &&& ops.len() == done.len()
        &&& forall|k: int|
            0 <= k < ops.len() ==> (#[trigger] ops[k]).from == done[k].from && ops[k].to
                == done[k].to
        &&& forall|k: int| 0 <= k < s.index ==> (#[trigger] ops[k]).status is Completed
        &&& if s.stage is Removing {
            disk == moved(done, s.index, start)
        } else {
            ops[s.index].status is Completed && disk == moved(done, s.index + 1, start)
        }
    }
    &&& (s.stage is Saving || s.stage is Finished) ==> disk == start
}

/// The rollback of a batch whose operations all completed cleanly tracks
/// the file system from its start.
pub proof fn lemma_rollback_start_restores(
    executor: ExecutorView,
    id: Seq<char>,
    disk: Set<Seq<char>>,
    start: Set<Seq<char>>,
    entry: int,
)
    requires
        find_batch(executor.history, id, 0) == Some(entry),
        0 <= entry < executor.history.len(),
        !executor.history[entry].rolled_back,
        forall|k: int|
            0 <= k < executor.history[entry].operations.len()
                ==> (#[trigger] executor.history[entry].operations[k]).status is Completed,
        clean(
            executor.history[entry].operations,
            executor.history[entry].operations.len() as int,
            start,
        ),
        disk == moved(
            executor.history[entry].operations,
            executor.history[entry].operations.len() as int,
            start,
        ),
    ensures
        rollback_tracks(
            rollback_start(executor, id),
            disk,
            start,
            executor.history[entry].operations,
            entry,
        ),
{
    let ops = executor.history[entry].operations;
    lemma_last_completed(ops, ops.len() as int);
    if ops.len() > 0 {
        assert(ops[ops.len() - 1].status is Completed);
    }
}

/// The rollback of a batch whose operations all completed cleanly tracks
/// the file system through every faithful step.
pub proof fn lemma_rollback_step_restores(
    s: UndoView,
    disk: Set<Seq<char>>,
    start: Set<Seq<char>>,
    done: Seq<OperationView>,
    entry: int,
)
    requires
        rollback_tracks(s, disk, start, done, entry),
        clean(done, done.len() as int, start),
        forall|k: int| 0 <= k < done.len() ==> (#[trigger] done[k]).status is Completed,
    ensures
        rollback_tracks(
            rollback_step(s, reply_of(disk, rollback_request(s))),
            disk_after(disk, rollback_request(s)),
            start,
            done,
            entry,
        ),
{
    let request = rollback_request(s);
    let t = rollback_step(s, reply_of(disk, request));
    let after = disk_after(disk, request);
    crate::executor::lemma_undo_stays_sound(s, reply_of(disk, request));
    if at_operation(s) {
        let ops = undo_operations(s);
        let k = s.index;
        assert(ops[k].from == done[k].from && ops[k].to == done[k].to);
        assert(done[k].status is Completed);
        let before = moved(done, k, start);
        assert(moved(done, k + 1, start) == before.remove(done[k].from).insert(done[k].to));
        assert(before.contains(done[k].from) && !before.contains(done[k].to));
        lemma_last_completed(ops, k);
        if s.stage is Renaming {
            assert(disk.contains(ops[k].to));
            assert(after =~= before);
            let marked = undo_operations(crate::executor::undo_done(s));
            lemma_last_completed(marked, k);
            if k > 0 {
                assert(marked[k - 1] == ops[k - 1]);
                assert(marked[k - 1].status is Completed);
            }
            assert forall|j: int| 0 <= j < marked.len() implies (#[trigger] marked[j]).from
                == done[j].from && marked[j].to == done[j].to by {
                assert(ops[j].from == done[j].from);
            }
            assert forall|j: int| 0 <= j < k implies (#[trigger] marked[j]).status
                is Completed by {
                assert(ops[j].status is Completed);
            }
        } else if s.stage is Removing {
            if k > 0 {
                assert(ops[k - 1].status is Completed);
            }
        } else if s.stage is CheckingMoved {
            assert(disk.contains(ops[k].to));
        }
    }
}

/// The rollback of a batch whose operations all completed cleanly tracks
/// the file system however many faithful steps it takes.
pub proof fn lemma_undone_restores(
    s: UndoView,
    disk: Set<Seq<char>>,
    start: Set<Seq<char>>,
    done: Seq<OperationView>,
    entry: int,
    steps: nat,
)
    requires
        rollback_tracks(s, disk, start, done, entry),
        clean(done, done.len() as int, start),
        forall|k: int| 0 <= k < done.len() ==> (#[trigger] done[k]).status is Completed,
    ensures
        rollback_tracks(undone(s, disk, steps).0, undone(s, disk, steps).1, start, done, entry),
    decreases steps,
{
    if steps > 0 {
        lemma_rollback_step_restores(s, disk, start, done, entry);
        let request = rollback_request(s);
        lemma_undone_restores(
            rollback_step(s, reply_of(disk, request)),
            disk_after(disk, request),
            start,
            done,
            entry,
            (steps - 1) as nat,
        );
    }
}

/// Execution followed by rollback restores the file system. A batch under
/// a fresh identifier is carried out on a faithful file system until
/// nothing is left to do, and every one of its operations completes. When
/// the batch is then rolled back until nothing is left to do, no operation
/// fails to be undone, and exactly the paths that existed before the
/// execution exist again: every source is back, and every destination that
/// the batch created is gone.
pub proof fn lemma_round_trip(
    executor: ExecutorView,
    plan: PlanView,
    start: Set<Seq<char>>,
    now: i64,
    steps: nat,
    undo_steps: nat,
)
    requires
        find_batch(executor.history, plan.batch_id, 0) is None,
        executed(execution_start(executor, plan, now), start, now, steps).0.stage is Finished,
        forall|k: int|
            0 <= k < plan.operations.len() ==> (#[trigger] executed(
                execution_start(executor, plan, now),
                start,
                now,
                steps,
            ).0.plan.operations[k]).status is Completed,
        undone(
            rollback_start(
                executed(execution_start(executor, plan, now), start, now, steps).0.executor,
                plan.batch_id,
            ),
            executed(execution_start(executor, plan, now), start, now, steps).1,
            undo_steps,
        ).0.stage is Finished,
    ensures
        undone(
            rollback_start(
                executed(execution_start(executor, plan, now), start, now, steps).0.executor,
                plan.batch_id,
            ),
            executed(execution_start(executor, plan, now), start, now, steps).1,
            undo_steps,
        ).1 == start,
        undone(
            rollback_start(
                executed(execution_start(executor, plan, now), start, now, steps).0.executor,
                plan.batch_id,
            ),
            executed(execution_start(executor, plan, now), start, now, steps).1,
            undo_steps,
        ).0.result.failed == 0,
{
    let begun = execution_start(executor, plan, now);
    lemma_execution_start_tracks(executor, plan, start, now);
    lemma_executed_tracks(begun, start, start, executor.history, now, steps);
    let ended = executed(begun, start, now, steps).0;
    let disk = executed(begun, start, now, steps).1;
    let ops = ended.plan.operations;
    lemma_operations_keep_their_number(begun, start, now, steps);
    assert(begun.plan.operations.len() == plan.operations.len());
    let record = record_of(ended.plan, now);
    lemma_fresh_batch_is_found(executor.history, record, 0);
    let entry = executor.history.len() as int;
    assert(ended.executor.history[entry] == record);
    lemma_rollback_start_restores(ended.executor, plan.batch_id, disk, start, entry);
    lemma_undone_restores(
        rollback_start(ended.executor, plan.batch_id),
        disk,
        start,
        ops,
        entry,
        undo_steps,
    );
}

/// The number of operations of a batch never changes while it is carried
/// out.
pub proof fn lemma_operations_keep_their_number(
    s: RunView,
    disk: Set<Seq<char>>,
    now: i64,
    steps: nat,
)
    requires
        run_is_sound(s),
    ensures
        executed(s, disk, now, steps).0.plan.operations.len() == s.plan.operations.len(),
        run_is_sound(executed(s, disk, now, steps).0),
    decreases steps,
{
    if steps > 0 {
        let request = execution_request(s);
        lemma_operations_keep_their_number(
            execution_step(s, reply_of(disk, request), now),
            disk_after(disk, request),
            now,
            (steps - 1) as nat,
        );
    }
}

/// How many steps an execution has left at most: three for each operation
/// that is not through, less what is done of the current one, and one for
/// the writing of the history.
pub open spec fn steps_left(s: RunView) -> int {
    let later = 3 * (s.plan.operations.len() - 1 - s.index);
    match s.stage {
        ExecutionStage::CreatingParent => later + 4,
        ExecutionStage::CheckingTarget => later + 3,
        ExecutionStage::Renaming => later + 2,
        ExecutionStage::Saving => 1,
        ExecutionStage::Finished => 0,
    }
}

/// Every step brings an execution nearer to its end, whatever it is told.
pub proof fn lemma_execution_advances(s: RunView, reply: ReplyView, now: i64)
    requires
        run_is_sound(s),
    ensures
        0 <= steps_left(s) <= 3 * s.plan.operations.len() + 1,
        s.stage is Finished ==> execution_step(s, reply, now) == s,
        !(s.stage is Finished) ==> steps_left(execution_step(s, reply, now)) < steps_left(s),
        run_is_sound(execution_step(s, reply, now)),
{
}

/// An execution has nothing left to do after three steps for each
/// operation and one more.
pub proof fn lemma_execution_finishes(s: RunView, disk: Set<Seq<char>>, now: i64, steps: nat)
    requires
        run_is_sound(s),
        steps >= steps_left(s),
    ensures
        executed(s, disk, now, steps).0.stage is Finished,
    decreases steps,
{
    let request = execution_request(s);
    lemma_execution_advances(s, reply_of(disk, request), now);
    if steps > 0 {
        lemma_execution_finishes(
            execution_step(s, reply_of(disk, request), now),
            disk_after(disk, request),
            now,
            (steps - 1) as nat,
        );
    }
}

/// How many steps a rollback has left at most: four for each operation up
/// to the current one, less what is done of it, and one for the writing
/// of the history.
pub open spec fn undo_steps_left(s: UndoView) -> int {
    match s.stage {
        RollbackStage::CheckingMoved => 4 * s.index + 5,
        RollbackStage::CreatingParent => 4 * s.index + 4,
        RollbackStage::Renaming => 4 * s.index + 3,
        RollbackStage::Removing => 4 * s.index + 2,
        RollbackStage::Saving => 1,
        RollbackStage::Finished => 0,
    }
}

/// Every step brings a rollback nearer to its end, whatever it is told.
pub proof fn lemma_rollback_advances(s: UndoView, reply: ReplyView)
    requires
        undo_is_sound(s),
    ensures
        0 <= undo_steps_left(s),
        at_operation(s) ==> undo_steps_left(s) <= 4 * undo_operations(s).len() + 1,
        s.stage is Finished ==> rollback_step(s, reply) == s,
        !(s.stage is Finished) ==> undo_steps_left(rollback_step(s, reply)) < undo_steps_left(s),
        undo_is_sound(rollback_step(s, reply)),
{
    crate::executor::lemma_undo_stays_sound(s, reply);
    if at_operation(s) {
        lemma_last_completed(undo_operations(s), s.index);
        lemma_last_completed(undo_operations(crate::executor::undo_done(s)), s.index);
    }
}

/// A rollback has nothing left to do after as many steps as it has left
/// at most.
pub proof fn lemma_rollback_finishes(s: UndoView, disk: Set<Seq<char>>, steps: nat)
    requires
        undo_is_sound(s),
        steps >= undo_steps_left(s),
    ensures
        undone(s, disk, steps).0.stage is Finished,
    decreases steps,
{
    let request = rollback_request(s);
    lemma_rollback_advances(s, reply_of(disk, request));
    if steps > 0 {
        lemma_rollback_finishes(
            rollback_step(s, reply_of(disk, request)),
            disk_after(disk, request),
            (steps - 1) as nat,
        );
    }
}

/// Execution followed by rollback restores the file system, in full. A
/// batch of `n` operations under a fresh identifier is carried out on a
/// faithful file system for `3n + 1` steps, which is all it takes, and
/// every one of its operations completes. After `4n + 1` steps of rolling
/// the batch back, nothing is left to do, no operation has failed to be
/// undone, and exactly the paths that existed before the execution exist
/// again.
pub proof fn lemma_round_trip_in_full(
    executor: ExecutorView,
    plan: PlanView,
    start: Set<Seq<char>>,
    now: i64,
)
    requires
        find_batch(executor.history, plan.batch_id, 0) is None,
        forall|k: int|
            0 <= k < plan.operations.len() ==> (#[trigger] executed(
                execution_start(executor, plan, now),
                start,
                now,
                3 * plan.operations.len() + 1,
            ).0.plan.operations[k]).status is Completed,
    ensures
        executed(
            execution_start(executor, plan, now),
            start,
            now,
            3 * plan.operations.len() + 1,
        ).0.stage is Finished,
        undone(
            rollback_start(
                executed(
                    execution_start(executor, plan, now),
                    start,
                    now,
                    3 * plan.operations.len() + 1,
                ).0.executor,
                plan.batch_id,
            ),
            executed(
                execution_start(executor, plan, now),
                start,
                now,
                3 * plan.operations.len() + 1,
            ).1,
            4 * plan.operations.len() + 1,
        ).0.stage is Finished,
        undone(
            rollback_start(
                executed(
                    execution_start(executor, plan, now),
                    start,
                    now,
                    3 * plan.operations.len() + 1,
                ).0.executor,
                plan.batch_id,
            ),
            executed(
                execution_start(executor, plan, now),
                start,
                now,
                3 * plan.operations.len() + 1,
            ).1,
            4 * plan.operations.len() + 1,
        ).1 == start,
        undone(
            rollback_start(
                executed(
                    execution_start(executor, plan, now),
                    start,
                    now,
                    3 * plan.operations.len() + 1,
                ).0.executor,
                plan.batch_id,
            ),
            executed(
                execution_start(executor, plan, now),
                start,
                now,
                3 * plan.operations.len() + 1,
            ).1,
            4 * plan.operations.len() + 1,
        ).0.result.failed == 0,
{
    let n = plan.operations.len();
    let begun = execution_start(executor, plan, now);
    lemma_execution_start_tracks(executor, plan, start, now);
    lemma_execution_advances(begun, ReplyView::Done, now);
    lemma_execution_finishes(begun, start, now, 3 * n + 1);
    lemma_executed_tracks(begun, start, start, executor.history, now, 3 * n + 1);
    lemma_operations_keep_their_number(begun, start, now, 3 * n + 1);
    let ended = executed(begun, start, now, 3 * n + 1).0;
    let disk = executed(begun, start, now, 3 * n + 1).1;
    let record = record_of(ended.plan, now);
    lemma_fresh_batch_is_found(executor.history, record, 0);
    let entry = executor.history.len() as int;
    assert(ended.executor.history[entry] == record);
    let undo = rollback_start(ended.executor, plan.batch_id);
    lemma_rollback_start_restores(ended.executor, plan.batch_id, disk, start, entry);
    lemma_rollback_advances(undo, ReplyView::Done);
    assert(undo_steps_left(undo) <= 4 * n + 1) by {
        if at_operation(undo) {
            assert(undo_operations(undo) == record.operations);
        }
    }
    lemma_rollback_finishes(undo, disk, 4 * n + 1);
    lemma_round_trip(executor, plan, start, now, 3 * n + 1, 4 * n + 1);
}

} // verus!
