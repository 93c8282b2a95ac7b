//! The planner: fusing two proposals into one, turning the proposals of a
//! listing into a batch of moves, and checking such a batch before it runs.

use vstd::prelude::*;
use crate::text::{same_text, contains_char, views};
use crate::paths::{
    file_name, file_name_of, is_plain_name, is_separator, is_within, is_within_path, join,
    join_paths, parent, parent_of, with_file_name, with_file_name_of, lemma_last_separator,
    lemma_last_separator_append,
};
use crate::models::{
    Confidence, EntryView, FileDescriptor, MovePlan, MoveSuggestion, OperationView,
    SuggestionSource, SuggestionView, CONFIDENCE_ONE, entry_views,
    pending_operation, suggestion_view,
};
use crate::rule_engine::{EngineView, proposal};

verus! {

/// The share of the rule's confidence in a blend, in tenths.
pub const RULE_WEIGHT: u32 = 6;

/// The share of the model's confidence in a blend, in tenths.
pub const MODEL_WEIGHT: u32 = 4;

/// The weighted score of a rule's confidence, in whole millionths.
pub open spec fn rule_score(confidence: nat) -> nat {
    confidence * 6 / 10
}

/// The weighted score of the model's confidence, in whole millionths.
pub open spec fn model_score(confidence: nat) -> nat {
    confidence * 4 / 10
}

/// Six tenths of the one and four tenths of the other, in whole
/// millionths.
pub open spec fn blended(rule: nat, model: nat) -> nat {
    (rule * 6 + model * 4) / 10
}

/// The blend raised by a tenth, in whole millionths, and never above one.
pub open spec fn boosted(rule: nat, model: nat) -> nat {
    let raised = (rule * 6 + model * 4) * 11 / 100;
    if raised > CONFIDENCE_ONE {
        CONFIDENCE_ONE as nat
    } else {
        raised
    }
}

/// The words that open the reason when both agree.
pub open spec fn agreement_prefix() -> Seq<char> {
    "规则+AI一致: "@
}

/// What stands between the two reasons when both agree.
pub open spec fn agreement_separator() -> Seq<char> {
    " | "@
}

/// The words that open the reason when the rule wins.
pub open spec fn rule_first_prefix() -> Seq<char> {
    "规则优先: "@
}

/// The words that open the reason when the model wins.
pub open spec fn model_first_prefix() -> Seq<char> {
    "AI建议: "@
}

/// The one proposal made of a rule's and a model's. One alone passes
/// through. Two for the same target agree: the rule's target with the
/// boosted blend. Of two for different targets the one with the higher
/// weighted score wins, the rule on a tie, and carries the plain blend.
pub open spec fn fused(rule: Option<SuggestionView>, model: Option<SuggestionView>) -> Option<
    SuggestionView,
> {
    match (rule, model) {
        (Some(r), Some(m)) => if r.target_path == m.target_path {
            Some(
                SuggestionView {
                    target_path: r.target_path,
                    reason: agreement_prefix() + r.reason + agreement_separator() + m.reason,
                    source: SuggestionSource::Rule,
                    confidence: boosted(r.confidence, m.confidence),
                },
            )
        } else if r.confidence * 6 >= m.confidence * 4 {
            Some(
                SuggestionView {
                    target_path: r.target_path,
                    reason: rule_first_prefix() + r.reason,
                    source: SuggestionSource::Rule,
                    confidence: blended(r.confidence, m.confidence),
                },
            )
        } else {
            Some(
                SuggestionView {
                    target_path: m.target_path,
                    reason: model_first_prefix() + m.reason,
                    source: SuggestionSource::AI,
                    confidence: blended(r.confidence, m.confidence),
                },
            )
        },
        (Some(r), None) => Some(r),
        (None, Some(m)) => Some(m),
        (None, None) => None,
    }
}

/// Whether the planner takes an entry into a batch: it is selected, has a
/// proposal at or above the threshold, and is not an atomic file.
pub open spec fn accepted(e: EntryView, threshold: nat) -> bool {
    &&& e.selected
    &&& !(e.atomic && !e.is_directory)
    &&& match e.suggested_action {
        Some(s) => s.confidence >= threshold,
        None => false,
    }
}

/// Whether a target already seems to name a file: its final component is
/// the entry's own name, or holds a dot.
pub open spec fn looks_like_file_path(target: Seq<char>, name: Seq<char>) -> bool {
    file_name(target) == name || file_name(target).contains('.')
}

/// Where an entry named `name` goes for a target: into the target, or, where
/// the target already seems to name a file, beside that file under the
/// entry's own name.
pub open spec fn destination(target: Seq<char>, name: Seq<char>) -> Seq<char> {
    if looks_like_file_path(target, name) {
        with_file_name(target, name)
    } else {
        join(target, name)
    }
}

/// The move that is planned for an accepted entry.
pub open spec fn planned_operation(e: EntryView) -> OperationView {
    pending_operation(
        e.full_path,
        destination(e.suggested_action.unwrap().target_path, e.name),
        e.id,
    )
}

/// The moves planned for a listing: one for each accepted entry, in the
/// order of the listing.
pub open spec fn planned_operations(es: Seq<EntryView>, threshold: nat) -> Seq<OperationView>
    decreases es.len(),
{
    if es.len() == 0 {
        Seq::empty()
    } else if accepted(es.last(), threshold) {
        planned_operations(es.drop_last(), threshold).push(planned_operation(es.last()))
    } else {
        planned_operations(es.drop_last(), threshold)
    }
}

/// What can be wrong with a planned move.
#[derive(Debug, Clone, Copy, PartialEq, Eq, Structural)]
pub enum ValidationErrorType {
    /// The source is no longer there.
    SourceNotFound,
    /// The destination lies at or below the source.
    CircularPath,
    /// Another move has the same destination.
    TargetConflict,
    /// The move is not permitted.
    PermissionDenied,
}

/// One finding of a validation, as a value.
pub struct ValidationErrorView {
    pub operation_index: usize,
    pub error_type: ValidationErrorType,
    pub message: Seq<char>,
}

/// One finding of a validation: which operation, what is wrong, in words.
#[derive(Debug)]
pub struct PlanValidationError {
    pub operation_index: usize,
    pub error_type: ValidationErrorType,
    pub message: String,
}

impl View for PlanValidationError {
    type V = ValidationErrorView;

    open spec fn view(&self) -> ValidationErrorView {
        ValidationErrorView {
            operation_index: self.operation_index,
            error_type: self.error_type,
            message: self.message@,
        }
    }
}

/// The values of a list of findings.
pub open spec fn error_views(errors: Seq<PlanValidationError>) -> Seq<ValidationErrorView> {
    Seq::new(errors.len(), |i: int| errors[i]@)
}

/// The source of operation `i` was seen to exist. A source about which
/// nothing is known counts as missing.
pub open spec fn source_present(seen: Seq<bool>, i: int) -> bool {
    0 <= i < seen.len() && seen[i]
}

/// The finding for a missing source.
pub open spec fn missing_source(ops: Seq<OperationView>, i: int) -> ValidationErrorView {
    ValidationErrorView {
        operation_index: i as usize,
        error_type: ValidationErrorType::SourceNotFound,
        message: "源文件不存在: "@ + ops[i].from,
    }
}

/// The finding for a destination at or below its own source.
pub open spec fn circular_path(ops: Seq<OperationView>, i: int) -> ValidationErrorView {
    ValidationErrorView {
        operation_index: i as usize,
        error_type: ValidationErrorType::CircularPath,
        message: "目标路径在源路径内: "@ + ops[i].from + " -> "@ + ops[i].to,
    }
}

/// The finding for operation `i` sharing its destination with operation `j`.
pub open spec fn target_conflict(ops: Seq<OperationView>, i: int, j: int) -> ValidationErrorView {
    ValidationErrorView {
        operation_index: i as usize,
        error_type: ValidationErrorType::TargetConflict,
        message: "目标冲突: "@ + ops[i].from + " 和 "@ + ops[j].from + " 都要移动到 "@ + ops[i].to,
    }
}

/// The findings about the source and the destination of operation `i` by
/// itself.
pub open spec fn own_errors(ops: Seq<OperationView>, seen: Seq<bool>, i: int) -> Seq<
    ValidationErrorView,
> {
    let first = if source_present(seen, i) {
        Seq::empty()
    } else {
        seq![missing_source(ops, i)]
    };
    if is_within(ops[i].to, ops[i].from) {
        first.push(circular_path(ops, i))
    } else {
        first
    }
}

/// The conflicts of operation `i` with the first `n` operations: one for
/// each other operation with the same destination.
pub open spec fn conflicts(ops: Seq<OperationView>, i: int, n: int) -> Seq<ValidationErrorView>
    decreases n,
{
    if n <= 0 {
        Seq::empty()
    } else if n - 1 != i && ops[n - 1].to == ops[i].to {
        conflicts(ops, i, n - 1).push(target_conflict(ops, i, n - 1))
    } else {
        conflicts(ops, i, n - 1)
    }
}

/// All findings about operation `i`.
pub open spec fn errors_of(ops: Seq<OperationView>, seen: Seq<bool>, i: int) -> Seq<
    ValidationErrorView,
> {
    own_errors(ops, seen, i) + conflicts(ops, i, ops.len() as int)
}

/// All findings about the first `n` operations, operation by operation.
pub open spec fn validation_errors(ops: Seq<OperationView>, seen: Seq<bool>, n: int) -> Seq<
    ValidationErrorView,
>
    decreases n,
{
    if n <= 0 {
        Seq::empty()
    } else {
        validation_errors(ops, seen, n - 1) + errors_of(ops, seen, n - 1)
    }
}

/// The size of source `i`; zero where it is missing or unknown.
pub open spec fn size_or_zero(sizes: Seq<Option<u64>>, i: int) -> nat {
    if 0 <= i < sizes.len() {
        match sizes[i] {
            Some(s) => s as nat,
            None => 0,
        }
    } else {
        0
    }
}

/// The sizes of the first `n` sources together.
pub open spec fn total_size(sizes: Seq<Option<u64>>, n: int) -> nat
    decreases n,
{
    if n <= 0 {
        0
    } else {
        total_size(sizes, n - 1) + size_or_zero(sizes, n - 1)
    }
}

/// The texts among `items`, each once, in the order in which they first
/// occur.
pub open spec fn distinct(items: Seq<Option<Seq<char>>>) -> Seq<Seq<char>>
    decreases items.len(),
{
    if items.len() == 0 {
        Seq::empty()
    } else {
        let before = distinct(items.drop_last());
        match items.last() {
            Some(d) => if before.contains(d) {
                before
            } else {
                before.push(d)
            },
            None => before,
        }
    }
}

/// The directory that each operation moves into.
pub open spec fn destination_parents(ops: Seq<OperationView>) -> Seq<Option<Seq<char>>> {
    Seq::new(ops.len(), |i: int| parent(ops[i].to))
}

/// `distinct` holds nothing twice, and holds exactly the texts of `items`.
pub proof fn lemma_distinct(items: Seq<Option<Seq<char>>>)
    ensures
        distinct(items).no_duplicates(),
        forall|d: Seq<char>| distinct(items).contains(d) <==> items.contains(Some(d)),
    decreases items.len(),
{
    if items.len() > 0 {
        let rest = items.drop_last();
        lemma_distinct(rest);
        let before = distinct(rest);
        let out = distinct(items);
        assert forall|d: Seq<char>| out.contains(d) <==> items.contains(Some(d)) by {
            if out.contains(d) {
                let i = choose|i: int| 0 <= i < out.len() && out[i] == d;
                if i < before.len() {
                    assert(before[i] == d);
                    assert(before.contains(d));
                    let k = choose|k: int| 0 <= k < rest.len() && rest[k] == Some(d);
                    assert(items[k] == Some(d));
                } else {
                    assert(items[items.len() - 1] == Some(d));
                }
            }
            if items.contains(Some(d)) {
                let k = choose|k: int| 0 <= k < items.len() && items[k] == Some(d);
                if k < rest.len() {
                    assert(rest[k] == Some(d));
                    assert(before.contains(d));
                    let i = choose|i: int| 0 <= i < before.len() && before[i] == d;
                    assert(out[i] == d);
                } else {
                    if before.contains(d) {
                    } else {
                        assert(out[out.len() - 1] == d);
                    }
                }
            }
        }
    }
}

/// Adds `s` to `list` unless the list holds it already.
pub fn push_if_new(list: &mut Vec<String>, s: String)
    ensures
        views(final(list)@) == if views(old(list)@).contains(s@) {
            views(old(list)@)
        } else {
            views(old(list)@).push(s@)
        },
{
    let mut i: usize = 0;
    while i < list.len()
        invariant
            i <= list@.len(),
            *list == *old(list),
            forall|j: int| 0 <= j < i ==> views(list@)[j] != s@,
        decreases list@.len() - i,
    {
        if same_text(list[i].as_str(), s.as_str()) {
            assert(views(list@)[i as int] == s@);
            return ;
        }
        i += 1;
    }
    list.push(s);
    assert(views(list@) =~= views(old(list)@).push(s@));
}

/// The figures of a batch.
#[derive(Debug, Clone, Copy, PartialEq, Eq, Structural)]
pub struct PlanStats {
    /// How many operations the batch holds.
    pub total_operations: usize,
    /// The size of all sources together, in bytes.
    pub total_size: u64,
    /// Into how many different directories the batch moves.
    pub target_directories: usize,
}

/// The planner, as a value.
pub struct PlannerView {
    pub output_base: Seq<char>,
    pub confidence_threshold: nat,
}

/// The planner: the directory under which everything is sorted, and the
/// confidence below which a proposal is passed over.
#[derive(Debug)]
pub struct Planner {
    output_base: String,
    confidence_threshold: Confidence,
}

impl View for Planner {
    type V = PlannerView;

    closed spec fn view(&self) -> PlannerView {
        PlannerView {
            output_base: self.output_base@,
            confidence_threshold: self.confidence_threshold@,
        }
    }
}

/// Where an entry named `name` goes for a target.
pub fn destination_of(target: &str, name: &str) -> (r: String)
    ensures
        r@ == destination(target@, name@),
{
    let leaf = file_name_of(target);
    if same_text(leaf.as_str(), name) || contains_char(leaf.as_str(), '.') {
        with_file_name_of(target, name)
    } else {
        join_paths(target, name)
    }
}

fn prefixed(prefix: &str, text: &str) -> (r: String)
    ensures
        r@ == prefix@ + text@,
{
    let mut out = String::from_str(prefix);
    out.append(text);
    out
}

impl Planner {
    /// A planner for the given output directory and threshold.
    pub fn new(output_base: String, confidence_threshold: Confidence) -> (r: Planner)
        ensures
            r@ == (PlannerView {
                output_base: output_base@,
                confidence_threshold: confidence_threshold@,
            }),
    {
        Planner { output_base, confidence_threshold }
    }

    /// Sets the output directory.
    pub fn set_output_base(&mut self, path: String)
        ensures
            final(self)@ == (PlannerView { output_base: path@, ..old(self)@ }),
    {
        self.output_base = path;
    }

    /// Plans the moves for a listing: a fresh batch with one pending move
    /// for each accepted entry, in the order of the listing. A move keeps
    /// the entry's name and changes only the directory.
    pub fn generate_plan(&self, files: &[FileDescriptor]) -> (r: MovePlan)
        ensures
            r@.operations == planned_operations(entry_views(files@), self@.confidence_threshold),
            r@.batch_id.len() == 36,
    {
        let ghost es = entry_views(files@);
        let ghost threshold = self@.confidence_threshold;
        let mut plan = MovePlan::new();
        let mut i: usize = 0;
        assert(es.take(0) =~= Seq::empty());
        while i < files.len()
            invariant
                i <= files@.len(),
                es == entry_views(files@),
                threshold == self@.confidence_threshold,
                plan@.batch_id.len() == 36,
                plan@.operations == planned_operations(es.take(i as int), threshold),
            decreases files@.len() - i,
        {
            let file = &files[i];
            proof {
                assert(es[i as int] == file@);
                assert(es.take(i + 1).drop_last() =~= es.take(i as int));
                assert(es.take(i + 1).last() == es[i as int]);
            }
            i += 1;
            if !file.selected {
                continue ;
            }
            let suggestion = match &file.suggested_action {
                Some(s) => s,
                None => {
                    continue ;
                },
            };
            if file.atomic && !file.is_directory {
                continue ;
            }
            if suggestion.confidence.millionths() < self.confidence_threshold.millionths() {
                continue ;
            }
            let target = destination_of(suggestion.target_path.as_str(), file.name.as_str());
            plan.add_operation(file.full_path.clone(), target, file.id.clone());
        }
        assert(es.take(es.len() as int) =~= es);
        plan
    }

    /// Fuses the proposal of a rule with that of the semantic model.
    pub fn fuse_suggestions(
        &self,
        rule_suggestion: Option<&MoveSuggestion>,
        ai_suggestion: Option<&MoveSuggestion>,
    ) -> (r: Option<MoveSuggestion>)
        ensures
            suggestion_view(r) == fused(
                match rule_suggestion {
                    Some(s) => Some(s@),
                    None => None,
                },
                match ai_suggestion {
                    Some(s) => Some(s@),
                    None => None,
                },
            ),
    {
        match (rule_suggestion, ai_suggestion) {
            (Some(rule), Some(ai)) => {
                let r = rule.confidence.millionths();
                let a = ai.confidence.millionths();
                let sum: u32 = r * RULE_WEIGHT + a * MODEL_WEIGHT;
                if same_text(rule.target_path.as_str(), ai.target_path.as_str()) {
                    let mut reason = prefixed("规则+AI一致: ", rule.reason.as_str());
                    reason.append(" | ");
                    reason.append(ai.reason.as_str());
                    let raised: u32 = ((sum as u64) * 11 / 100) as u32;
                    Some(
                        MoveSuggestion {
                            target_path: rule.target_path.clone(),
                            reason,
                            source: SuggestionSource::Rule,
                            confidence: Confidence::from_millionths(raised),
                        },
                    )
                } else if r * RULE_WEIGHT >= a * MODEL_WEIGHT {
                    Some(
                        MoveSuggestion {
                            target_path: rule.target_path.clone(),
                            reason: prefixed("规则优先: ", rule.reason.as_str()),
                            source: SuggestionSource::Rule,
                            confidence: Confidence::from_millionths(sum / 10),
                        },
                    )
                } else {
                    Some(
                        MoveSuggestion {
                            target_path: ai.target_path.clone(),
                            reason: prefixed("AI建议: ", ai.reason.as_str()),
                            source: SuggestionSource::AI,
                            confidence: Confidence::from_millionths(sum / 10),
                        },
                    )
                }
            },
            (Some(rule), None) => Some(rule.clone()),
            (None, Some(ai)) => Some(ai.clone()),
            (None, None) => None,
        }
    }

    /// Checks a batch without changing anything. `source_exists` says of
    /// each operation whether its source was seen to exist. The findings
    /// come operation by operation: a missing source, a destination at or
    /// below its own source, and one conflict for each other operation with
    /// the same destination.
    pub fn validate_plan(&self, plan: &MovePlan, source_exists: &[bool]) -> (r: Vec<
        PlanValidationError,
    >)
        ensures
            error_views(r@) == validation_errors(
                plan@.operations,
                source_exists@,
                plan@.operations.len() as int,
            ),
    {
        let ghost ops = plan@.operations;
        let ghost seen = source_exists@;
        let n = plan.operations.len();
        let mut errors: Vec<PlanValidationError> = Vec::new();
        let mut i: usize = 0;
        assert(error_views(errors@) =~= Seq::empty());
        while i < n
            invariant
                i <= n,
                n == plan.operations@.len(),
                ops == plan@.operations,
                seen == source_exists@,
                error_views(errors@) == validation_errors(ops, seen, i as int),
            decreases n - i,
        {
            let op = &plan.operations[i];
            assert(ops[i as int] == op@);
            let ghost done = error_views(errors@);
            let present = i < source_exists.len() && source_exists[i];
            if !present {
                errors.push(
                    PlanValidationError {
                        operation_index: i,
                        error_type: ValidationErrorType::SourceNotFound,
                        message: prefixed("源文件不存在: ", op.from.as_str()),
                    },
                );
            }
            if is_within_path(op.to.as_str(), op.from.as_str()) {
                let mut message = prefixed("目标路径在源路径内: ", op.from.as_str());
                message.append(" -> ");
                message.append(op.to.as_str());
                errors.push(
                    PlanValidationError {
                        operation_index: i,
                        error_type: ValidationErrorType::CircularPath,
                        message,
                    },
                );
            }
            assert(error_views(errors@) =~= done + own_errors(ops, seen, i as int));
            let mut j: usize = 0;
            while j < n
                invariant
                    j <= n,
                    i < n,
                    n == plan.operations@.len(),
                    ops == plan@.operations,
                    ops[i as int] == op@,
                    error_views(errors@) == done + own_errors(ops, seen, i as int) + conflicts(
                        ops,
                        i as int,
                        j as int,
                    ),
                decreases n - j,
            {
                let other = &plan.operations[j];
                assert(ops[j as int] == other@);
                if i != j && same_text(op.to.as_str(), other.to.as_str()) {
                    let ghost so_far = error_views(errors@);
                    let mut message = prefixed("目标冲突: ", op.from.as_str());
                    message.append(" 和 ");
                    message.append(other.from.as_str());
                    message.append(" 都要移动到 ");
                    message.append(op.to.as_str());
                    errors.push(
                        PlanValidationError {
                            operation_index: i,
                            error_type: ValidationErrorType::TargetConflict,
                            message,
                        },
                    );
                    assert(error_views(errors@) =~= so_far.push(
                        target_conflict(ops, i as int, j as int),
                    ));
                    assert(error_views(errors@) =~= done + own_errors(ops, seen, i as int)
                        + conflicts(ops, i as int, j + 1));
                }
                j += 1;
            }
            assert(error_views(errors@) =~= done + errors_of(ops, seen, i as int));
            i += 1;
        }
        errors
    }

    /// The figures of a batch. `source_sizes` gives the size of each
    /// operation's source, or nothing where the source is missing; a
    /// missing source counts as zero bytes. The total stops at the largest
    /// number it can hold.
    pub fn get_plan_stats(&self, plan: &MovePlan, source_sizes: &[Option<u64>]) -> (r: PlanStats)
        ensures
            r.total_operations == plan@.operations.len(),
            r.total_size == if total_size(source_sizes@, plan@.operations.len() as int)
                > u64::MAX {
                u64::MAX as nat
            } else {
                total_size(source_sizes@, plan@.operations.len() as int)
            },
            r.target_directories == distinct(destination_parents(plan@.operations)).len(),
    {
        let ghost ops = plan@.operations;
        let ghost parents = destination_parents(ops);
        let n = plan.operations.len();
        let mut total: u64 = 0;
        let mut dirs: Vec<String> = Vec::new();
        let mut i: usize = 0;
        assert(parents.take(0) =~= Seq::empty());
        assert(views(dirs@) =~= Seq::empty());
        while i < n
            invariant
                i <= n,
                n == plan.operations@.len(),
                ops == plan@.operations,
                parents == destination_parents(ops),
                total == if total_size(source_sizes@, i as int) > u64::MAX {
                    u64::MAX as nat
                } else {
                    total_size(source_sizes@, i as int)
                },
                views(dirs@) == distinct(parents.take(i as int)),
                dirs@.len() <= i,
            decreases n - i,
        {
            let op = &plan.operations[i];
            assert(ops[i as int] == op@);
            if i < source_sizes.len() {
                if let Some(size) = source_sizes[i] {
                    total = if size > u64::MAX - total {
                        u64::MAX
                    } else {
                        total + size
                    };
                }
            }
            proof {
                assert(parents.take(i + 1).drop_last() =~= parents.take(i as int));
                assert(parents.take(i + 1).last() == parent(op@.to));
            }
            if let Some(dir) = parent_of(op.to.as_str()) {
                push_if_new(&mut dirs, dir);
            }
            assert(views(dirs@).len() == dirs@.len());
            i += 1;
        }
        assert(parents.take(n as int) =~= parents);
        assert(views(dirs@).len() == dirs@.len());
        PlanStats { total_operations: n, total_size: total, target_directories: dirs.len() }
    }
}

/// When both agree on the target, the fused confidence is at least the
/// weighted score of either and at most one. In exact terms it falls
/// short of six tenths of the rule's confidence, and of four tenths of the
/// model's, by less than one millionth.
pub proof fn lemma_agreement_confidence(rule: SuggestionView, model: SuggestionView)
    requires
        rule.target_path == model.target_path,
        rule.confidence <= CONFIDENCE_ONE,
        model.confidence <= CONFIDENCE_ONE,
    ensures
        fused(Some(rule), Some(model)) is Some,
        fused(Some(rule), Some(model)).unwrap().confidence >= rule_score(rule.confidence),
        fused(Some(rule), Some(model)).unwrap().confidence >= model_score(model.confidence),
        fused(Some(rule), Some(model)).unwrap().confidence <= CONFIDENCE_ONE,
        fused(Some(rule), Some(model)).unwrap().confidence * 10 + 10 > rule.confidence * 6,
        fused(Some(rule), Some(model)).unwrap().confidence * 10 + 10 > model.confidence * 4,
        fused(Some(rule), Some(model)).unwrap().target_path == rule.target_path,
{
    let r = rule.confidence;
    let m = model.confidence;
    assert(r * 6 / 10 <= 600_000);
    assert(m * 4 / 10 <= 400_000);
    assert((r * 6 + m * 4) * 11 / 100 >= (r * 6 + m * 4) / 10);
    assert((r * 6 + m * 4) / 10 >= r * 6 / 10);
    assert((r * 6 + m * 4) / 10 >= m * 4 / 10);
}

/// The blend and the boosted blend are the exact values cut down to whole
/// millionths: the blend is the largest whole number that is at most six
/// tenths of the one plus four tenths of the other, and the boosted blend
/// the largest that is at most eleven tenths of that sum, or one where the
/// sum is higher.
pub proof fn lemma_blend_is_cut_down(rule: nat, model: nat)
    ensures
        blended(rule, model) * 10 <= rule * 6 + model * 4 < (blended(rule, model) + 1) * 10,
        (rule * 6 + model * 4) * 11 >= 100 * CONFIDENCE_ONE ==> boosted(rule, model)
            == CONFIDENCE_ONE,
        (rule * 6 + model * 4) * 11 < 100 * CONFIDENCE_ONE ==> boosted(rule, model) * 100 <= (rule
            * 6 + model * 4) * 11 < (boosted(rule, model) + 1) * 100,
{
}

/// When both agree on the target, the two may change places without
/// changing the target: only the weights, the order of the reasons and the
/// attribution tell them apart.
pub proof fn lemma_agreement_target_symmetric(a: SuggestionView, b: SuggestionView)
    requires
        a.target_path == b.target_path,
    ensures
        fused(Some(a), Some(b)).unwrap().target_path == fused(
            Some(b),
            Some(a),
        ).unwrap().target_path,
        fused(Some(a), Some(b)).unwrap().source == fused(Some(b), Some(a)).unwrap().source,
{
}

/// A destination keeps the entry's name: its final component is the name,
/// for every name that holds no separator.
pub proof fn lemma_destination_keeps_name(target: Seq<char>, name: Seq<char>)
    requires
        is_plain_name(name),
    ensures
        file_name(destination(target, name)) == name,
{
    lemma_last_separator(target);
    if looks_like_file_path(target, name) {
        let prefix = target.subrange(0, crate::paths::last_separator(target) + 1);
        lemma_last_separator_append(prefix, name);
    } else {
        if target.len() == 0 || is_separator(target.last()) {
            lemma_last_separator_append(target, name);
        } else {
            lemma_last_separator_append(target.push('/'), name);
        }
    }
}

/// What the rule engine proposes for a file is planned under the file's own
/// name: where the engine has a proposal for an entry whose name holds no
/// separator, the entry is a file that is not atomic, and the move planned
/// for it with that proposal ends in its name.
pub proof fn lemma_matched_file_keeps_name(engine: EngineView, e: EntryView)
    requires
        is_plain_name(e.name),
        proposal(engine, e) is Some,
    ensures
        !e.is_directory && !e.atomic,
        file_name(
            planned_operation(EntryView { suggested_action: proposal(engine, e), ..e }).to,
        ) == e.name,
        planned_operation(EntryView { suggested_action: proposal(engine, e), ..e }).from
            == e.full_path,
{
    lemma_destination_keeps_name(proposal(engine, e).unwrap().target_path, e.name);
}

/// Every planned move ends in the name of an accepted entry of the
/// listing, so long as no name of the listing holds a separator.
pub proof fn lemma_plan_keeps_names(es: Seq<EntryView>, threshold: nat, k: int)
    requires
        0 <= k < planned_operations(es, threshold).len(),
        forall|i: int| 0 <= i < es.len() ==> is_plain_name((#[trigger] es[i]).name),
    ensures
        exists|i: int|
            0 <= i < es.len() && accepted(#[trigger] es[i], threshold) && planned_operations(
                es,
                threshold,
            )[k] == planned_operation(es[i]) && file_name(planned_operations(es, threshold)[k].to)
                == es[i].name,
    decreases es.len(),
{
    let rest = es.drop_last();
    let before = planned_operations(rest, threshold);
    if k < before.len() {
        assert forall|i: int| 0 <= i < rest.len() implies is_plain_name(
            (#[trigger] rest[i]).name,
        ) by {
            assert(rest[i] == es[i]);
        }
        lemma_plan_keeps_names(rest, threshold, k);
        let i = choose|i: int|
            0 <= i < rest.len() && accepted(#[trigger] rest[i], threshold) && before[k]
                == planned_operation(rest[i]) && file_name(before[k].to) == rest[i].name;
        assert(rest[i] == es[i]);
        assert(planned_operations(es, threshold)[k] == before[k]);
    } else {
        let i = es.len() - 1;
        assert(accepted(es[i], threshold));
        lemma_destination_keeps_name(es[i].suggested_action.unwrap().target_path, es[i].name);
    }
}

/// Two operations with one destination are each reported as in conflict
/// with the other.
pub proof fn lemma_conflict_reported(ops: Seq<OperationView>, seen: Seq<bool>, i: int, j: int)
    requires
        0 <= i < ops.len(),
        0 <= j < ops.len(),
        i != j,
        ops[i].to == ops[j].to,
    ensures
        validation_errors(ops, seen, ops.len() as int).contains(target_conflict(ops, i, j)),
        validation_errors(ops, seen, ops.len() as int).contains(target_conflict(ops, j, i)),
{
    lemma_conflict_listed(ops, seen, i, j);
    lemma_conflict_listed(ops, seen, j, i);
}

/// A conflict of operation `i` with operation `j` is among the findings.
proof fn lemma_conflict_listed(ops: Seq<OperationView>, seen: Seq<bool>, i: int, j: int)
    requires
        0 <= i < ops.len(),
        0 <= j < ops.len(),
        i != j,
        ops[i].to == ops[j].to,
    ensures
        validation_errors(ops, seen, ops.len() as int).contains(target_conflict(ops, i, j)),
{
    lemma_conflicts_hold(ops, i, j, ops.len() as int);
    let own = own_errors(ops, seen, i);
    let c = conflicts(ops, i, ops.len() as int);
    let k = choose|k: int| 0 <= k < c.len() && c[k] == target_conflict(ops, i, j);
    assert(errors_of(ops, seen, i)[own.len() + k] == target_conflict(ops, i, j));
    lemma_errors_kept(ops, seen, i, ops.len() as int, target_conflict(ops, i, j));
}

/// The conflicts of `i` with the first `n` operations hold the one with `j`
/// once `n` is past `j`.
proof fn lemma_conflicts_hold(ops: Seq<OperationView>, i: int, j: int, n: int)
    requires
        0 <= j < n,
        i != j,
        ops[i].to == ops[j].to,
    ensures
        conflicts(ops, i, n).contains(target_conflict(ops, i, j)),
    decreases n,
{
    let c = conflicts(ops, i, n);
    if n - 1 == j {
        assert(c[c.len() - 1] == target_conflict(ops, i, j));
    } else {
        lemma_conflicts_hold(ops, i, j, n - 1);
        let before = conflicts(ops, i, n - 1);
        let k = choose|k: int| 0 <= k < before.len() && before[k] == target_conflict(ops, i, j);
        assert(c[k] == before[k]);
    }
}

/// A finding about operation `i` is among the findings about the first `n`
/// operations once `n` is past `i`.
proof fn lemma_errors_kept(
    ops: Seq<OperationView>,
    seen: Seq<bool>,
    i: int,
    n: int,
    e: ValidationErrorView,
)
    requires
        0 <= i < n,
        errors_of(ops, seen, i).contains(e),
    ensures
        validation_errors(ops, seen, n).contains(e),
    decreases n,
{
    let all = validation_errors(ops, seen, n);
    let before = validation_errors(ops, seen, n - 1);
    if n - 1 == i {
        let own = errors_of(ops, seen, i);
        let k = choose|k: int| 0 <= k < own.len() && own[k] == e;
        assert(all[before.len() + k] == e);
    } else {
        lemma_errors_kept(ops, seen, i, n - 1, e);
        let k = choose|k: int| 0 <= k < before.len() && before[k] == e;
        assert(all[k] == e);
    }
}

} // verus!
