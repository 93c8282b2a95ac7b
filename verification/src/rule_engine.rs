//! The rule engine: an ordered set of classification rules, tried from the
//! highest priority down, and what it proposes for a file.

use vstd::prelude::*;
use crate::text::{views, same_text};
use crate::clock::unix_now;
use crate::models::{
    Confidence, ConditionView, EntryView, FileDescriptor, MoveSuggestion, RuleAction,
    RuleCondition, RuleDefinition, RuleOrigin, RuleView, Subject, SubjectView,
    SuggestionSource, SuggestionView, condition_matches, empty_condition, entry_views,
    lowered_condition, lowered_subject, meets, rendered_path, rule_views, suggestion_view,
};

verus! {

/// The confidence of every rule match, in millionths.
pub const RULE_CONFIDENCE: u32 = 900_000;

/// The priority of the built-in rules that go by extension alone.
pub const CATEGORY_PRIORITY: u8 = 30;

/// The priority of the built-in rules that also ask for a keyword.
pub const KEYWORD_PRIORITY: u8 = 60;

/// The rule engine, as a value: its rules in the order in which they are
/// tried, and the directory under which targets are rendered.
pub struct EngineView {
    pub rules: Seq<RuleView>,
    pub output_base: Seq<char>,
}

/// No rule stands before one of higher priority.
pub open spec fn sorted_by_priority(rules: Seq<RuleView>) -> bool {
    forall|i: int, j: int| 0 <= i < j < rules.len() ==> rules[i].priority >= rules[j].priority
}

/// Where a rule of the given priority goes: behind every rule that stands
/// before the first rule of lower priority.
pub open spec fn insertion_point(rules: Seq<RuleView>, priority: u8) -> int
    decreases rules.len(),
{
    if rules.len() == 0 || rules[0].priority < priority {
        0
    } else {
        1 + insertion_point(rules.drop_first(), priority)
    }
}

/// The rules with one more: it stands behind the rules of its own or higher
/// priority and before those of lower priority.
pub open spec fn with_rule(rules: Seq<RuleView>, rule: RuleView) -> Seq<RuleView> {
    rules.insert(insertion_point(rules, rule.priority), rule)
}

/// The rules with every user rule of `more` added, in order.
pub open spec fn with_user_rules(rules: Seq<RuleView>, more: Seq<RuleView>) -> Seq<RuleView>
    decreases more.len(),
{
    if more.len() == 0 {
        rules
    } else {
        let before = with_user_rules(rules, more.drop_last());
        if more.last().origin == RuleOrigin::UserConfirmed {
            with_rule(before, more.last())
        } else {
            before
        }
    }
}

/// The user rules among `rules`, in order.
pub open spec fn user_rules(rules: Seq<RuleView>) -> Seq<RuleView>
    decreases rules.len(),
{
    if rules.len() == 0 {
        Seq::empty()
    } else if rules.last().origin == RuleOrigin::UserConfirmed {
        user_rules(rules.drop_last()).push(rules.last())
    } else {
        user_rules(rules.drop_last())
    }
}

/// The index of the first rule at or after `start` that has the identifier
/// `id` and, where `users_only` is set, is a user rule.
pub open spec fn find_rule(rules: Seq<RuleView>, id: Seq<char>, users_only: bool, start: int) -> Option<
    int,
>
    decreases rules.len() - start,
{
    if start < 0 || start >= rules.len() {
        None
    } else if rules[start].id == id && (!users_only || rules[start].origin
        == RuleOrigin::UserConfirmed) {
        Some(start)
    } else {
        find_rule(rules, id, users_only, start + 1)
    }
}

/// What stands between a rule and a subject: whether the rule is enabled,
/// and its condition; as a value.
pub struct GateView {
    pub enabled: bool,
    pub condition: ConditionView,
}

/// What stands between a rule and a subject.
#[derive(Debug)]
pub struct Gate {
    pub enabled: bool,
    pub condition: RuleCondition,
}

impl View for Gate {
    type V = GateView;

    open spec fn view(&self) -> GateView {
        GateView { enabled: self.enabled, condition: self.condition@ }
    }
}

/// The values of a list of gates.
pub open spec fn gate_views(gates: Seq<Gate>) -> Seq<GateView> {
    Seq::new(gates.len(), |i: int| gates[i]@)
}

/// The index of the first gate at or after `start` that is enabled and
/// whose condition the subject meets, both taken as they are written.
pub open spec fn first_open(gates: Seq<GateView>, s: SubjectView, start: int) -> Option<int>
    decreases gates.len() - start,
{
    if start < 0 || start >= gates.len() {
        None
    } else if gates[start].enabled && meets(gates[start].condition, s) {
        Some(start)
    } else {
        first_open(gates, s, start + 1)
    }
}

/// The gates of the rules, with all text in lower case.
pub open spec fn lowered_gates(rules: Seq<RuleView>) -> Seq<GateView> {
    Seq::new(
        rules.len(),
        |i: int|
            GateView { enabled: rules[i].enabled, condition: lowered_condition(rules[i].condition) },
    )
}

/// The index of the first enabled rule at or after `start` whose condition
/// the entry meets, case ignored.
pub open spec fn first_match(rules: Seq<RuleView>, e: EntryView, start: int) -> Option<int> {
    first_open(lowered_gates(rules), lowered_subject(e), start)
}

/// The index of the first gate that is enabled and whose condition the
/// subject meets.
pub fn first_open_gate(gates: &[Gate], subject: &Subject) -> (r: Option<usize>)
    ensures
        match r {
            Some(k) => first_open(gate_views(gates@), subject@, 0) == Some(k as int) && k
                < gates@.len(),
            None => first_open(gate_views(gates@), subject@, 0) is None,
        },
{
    let ghost views = gate_views(gates@);
    let mut i: usize = 0;
    while i < gates.len()
        invariant
            i <= gates@.len(),
            views == gate_views(gates@),
            first_open(views, subject@, i as int) == first_open(views, subject@, 0),
        decreases gates@.len() - i,
    {
        assert(views[i as int] == gates@[i as int]@);
        if gates[i].enabled && gates[i].condition.is_met_by(subject) {
            return Some(i);
        }
        i += 1;
    }
    None
}

/// Atomic entries and directories are never matched.
pub open spec fn eligible(e: EntryView) -> bool {
    !e.atomic && !e.is_directory
}

/// The words that open the reason of a rule match.
pub open spec fn match_reason_prefix() -> Seq<char> {
    "匹配规则: "@
}

/// What a rule proposes for an entry that it matches.
pub open spec fn rule_suggestion(rule: RuleView, e: EntryView, base: Seq<char>) -> SuggestionView {
    SuggestionView {
        target_path: rendered_path(rule.action, e, base),
        reason: match_reason_prefix() + rule.name,
        source: SuggestionSource::Rule,
        confidence: RULE_CONFIDENCE as nat,
    }
}

/// A rule after one more hit at the instant `now`. The counter stops at the
/// largest number it can hold.
pub open spec fn hit(rule: RuleView, now: i64) -> RuleView {
    RuleView {
        hit_count: if rule.hit_count < u64::MAX {
            (rule.hit_count + 1) as u64
        } else {
            rule.hit_count
        },
        updated_at: now,
        ..rule
    }
}

/// What the engine proposes for an entry: the proposal of the first enabled
/// rule that the entry meets, if the entry is eligible and there is one.
pub open spec fn proposal(engine: EngineView, e: EntryView) -> Option<SuggestionView> {
    if !eligible(e) {
        None
    } else {
        match first_match(engine.rules, e, 0) {
            Some(k) => Some(rule_suggestion(engine.rules[k], e, engine.output_base)),
            None => None,
        }
    }
}

/// The engine after it was asked about an entry at the instant `now`: the
/// rule that matched has one more hit.
pub open spec fn after_match(engine: EngineView, e: EntryView, now: i64) -> EngineView {
    if !eligible(e) {
        engine
    } else {
        match first_match(engine.rules, e, 0) {
            Some(k) => EngineView { rules: engine.rules.update(k, hit(engine.rules[k], now)), ..engine },
            None => engine,
        }
    }
}

/// An entry after the engine was asked about it: a proposal replaces what
/// was suggested before; without a proposal the entry stays as it was.
pub open spec fn annotated(engine: EngineView, e: EntryView) -> EntryView {
    match proposal(engine, e) {
        Some(s) => EntryView { suggested_action: Some(s), ..e },
        None => e,
    }
}

/// The engine after it was asked about each of the entries in turn.
pub open spec fn after_matches(engine: EngineView, es: Seq<EntryView>, now: i64) -> EngineView
    decreases es.len(),
{
    if es.len() == 0 {
        engine
    } else {
        after_match(after_matches(engine, es.drop_last(), now), es.last(), now)
    }
}

/// The entries after the engine was asked about each in turn.
pub open spec fn annotated_all(engine: EngineView, es: Seq<EntryView>, now: i64) -> Seq<EntryView> {
    Seq::new(es.len(), |i: int| annotated(after_matches(engine, es.take(i), now), es[i]))
}

/// A rule with the given enabled flag, changed at the instant `now`.
pub open spec fn switched(rule: RuleView, enabled: bool, now: i64) -> RuleView {
    RuleView { enabled, updated_at: now, ..rule }
}

/// The engine after the first rule with the identifier `id`, if there is
/// one, was enabled or disabled at the instant `now`.
pub open spec fn after_switch(engine: EngineView, id: Seq<char>, enabled: bool, now: i64) -> EngineView {
    match find_rule(engine.rules, id, false, 0) {
        Some(k) => EngineView {
            rules: engine.rules.update(k, switched(engine.rules[k], enabled, now)),
            ..engine
        },
        None => engine,
    }
}

/// The engine after the first user rule with the identifier `id`, if there
/// is one, was removed.
pub open spec fn after_removal(engine: EngineView, id: Seq<char>) -> EngineView {
    match find_rule(engine.rules, id, true, 0) {
        Some(k) => EngineView { rules: engine.rules.remove(k), ..engine },
        None => engine,
    }
}

/// A built-in rule that asks for one of a list of extensions.
pub open spec fn category_rule(
    id: Seq<char>,
    name: Seq<char>,
    extensions: Seq<Seq<char>>,
    target: Seq<char>,
    now: i64,
) -> RuleView {
    RuleView {
        id,
        name,
        priority: CATEGORY_PRIORITY,
        enabled: true,
        condition: ConditionView { file_extensions: extensions, ..empty_condition() },
        action: target,
        origin: RuleOrigin::BuiltIn,
        created_at: now,
        updated_at: now,
        hit_count: 0,
    }
}

/// The extensions of pictures.
pub open spec fn image_extensions() -> Seq<Seq<char>> {
    seq![
        ".jpg"@,
        ".jpeg"@,
        ".png"@,
        ".gif"@,
        ".bmp"@,
        ".webp"@,
        ".svg"@,
        ".ico"@,
        ".heic"@,
        ".heif"@,
    ]
}

/// The extensions of videos.
pub open spec fn video_extensions() -> Seq<Seq<char>> {
    seq![".mp4"@, ".avi"@, ".mkv"@, ".mov"@, ".wmv"@, ".flv"@, ".webm"@, ".m4v"@]
}

/// The extensions of sound files.
pub open spec fn audio_extensions() -> Seq<Seq<char>> {
    seq![".mp3"@, ".wav"@, ".flac"@, ".aac"@, ".ogg"@, ".wma"@, ".m4a"@]
}

/// The extensions of documents.
pub open spec fn document_extensions() -> Seq<Seq<char>> {
    seq![
        ".doc"@,
        ".docx"@,
        ".xls"@,
        ".xlsx"@,
        ".ppt"@,
        ".pptx"@,
        ".pdf"@,
        ".txt"@,
        ".md"@,
        ".rtf"@,
        ".odt"@,
        ".ods"@,
        ".odp"@,
    ]
}

/// The extensions of archives.
pub open spec fn archive_extensions() -> Seq<Seq<char>> {
    seq![".zip"@, ".rar"@, ".7z"@, ".tar"@, ".gz"@, ".bz2"@, ".xz"@]
}

/// The extensions under which invoices are looked for.
pub open spec fn invoice_extensions() -> Seq<Seq<char>> {
    seq![".pdf"@, ".jpg"@, ".png"@]
}

/// The words that mark an invoice, a bill or a receipt.
pub open spec fn invoice_keywords() -> Seq<Seq<char>> {
    seq!["发票"@, "invoice"@, "账单"@, "bill"@, "收据"@, "receipt"@]
}

/// The built-in rule for invoices: a keyword in the name and one of three
/// extensions, at the higher priority.
pub open spec fn invoice_rule(now: i64) -> RuleView {
    RuleView {
        id: "builtin_invoice"@,
        name: "发票/账单"@,
        priority: KEYWORD_PRIORITY,
        enabled: true,
        condition: ConditionView {
            file_extensions: invoice_extensions(),
            filename_keywords: invoice_keywords(),
            ..empty_condition()
        },
        action: "Finance/Invoice/{year}"@,
        origin: RuleOrigin::BuiltIn,
        created_at: now,
        updated_at: now,
        hit_count: 0,
    }
}

/// The built-in rules in the order in which they are tried: the invoice
/// rule first, then pictures, videos, sound, documents and archives.
pub open spec fn builtin_rules(now: i64) -> Seq<RuleView> {
    seq![
        invoice_rule(now),
        category_rule(
            "builtin_images"@,
            "图片文件"@,
            image_extensions(),
            "Pictures/{year}/{month}"@,
            now,
        ),
        category_rule("builtin_videos"@, "视频文件"@, video_extensions(), "Videos/{year}"@, now),
        category_rule("builtin_audio"@, "音频文件"@, audio_extensions(), "Music/{year}"@, now),
        category_rule(
            "builtin_documents"@,
            "文档文件"@,
            document_extensions(),
            "Documents/{year}"@,
            now,
        ),
        category_rule(
            "builtin_archives"@,
            "压缩文件"@,
            archive_extensions(),
            "Archives/{year}"@,
            now,
        ),
    ]
}

fn push_text(list: &mut Vec<String>, s: &str)
    ensures
        views(final(list)@) == views(old(list)@).push(s@),
{
    list.push(String::from_str(s));
    assert(views(list@) =~= views(old(list)@).push(s@));
}

fn image_extension_list() -> (r: Vec<String>)
    ensures
        views(r@) == image_extensions(),
{
    let mut t: Vec<String> = Vec::new();
    assert(views(t@) =~= Seq::empty());
    push_text(&mut t, ".jpg");
    push_text(&mut t, ".jpeg");
    push_text(&mut t, ".png");
    push_text(&mut t, ".gif");
    push_text(&mut t, ".bmp");
    push_text(&mut t, ".webp");
    push_text(&mut t, ".svg");
    push_text(&mut t, ".ico");
    push_text(&mut t, ".heic");
    push_text(&mut t, ".heif");
    assert(views(t@) =~= image_extensions());
    t
}

fn video_extension_list() -> (r: Vec<String>)
    ensures
        views(r@) == video_extensions(),
{
    let mut t: Vec<String> = Vec::new();
    assert(views(t@) =~= Seq::empty());
    push_text(&mut t, ".mp4");
    push_text(&mut t, ".avi");
    push_text(&mut t, ".mkv");
    push_text(&mut t, ".mov");
    push_text(&mut t, ".wmv");
    push_text(&mut t, ".flv");
    push_text(&mut t, ".webm");
    push_text(&mut t, ".m4v");
    assert(views(t@) =~= video_extensions());
    t
}

fn audio_extension_list() -> (r: Vec<String>)
    ensures
        views(r@) == audio_extensions(),
{
    let mut t: Vec<String> = Vec::new();
    assert(views(t@) =~= Seq::empty());
    push_text(&mut t, ".mp3");
    push_text(&mut t, ".wav");
    push_text(&mut t, ".flac");
    push_text(&mut t, ".aac");
    push_text(&mut t, ".ogg");
    push_text(&mut t, ".wma");
    push_text(&mut t, ".m4a");
    assert(views(t@) =~= audio_extensions());
    t
}

fn document_extension_list() -> (r: Vec<String>)
    ensures
        views(r@) == document_extensions(),
{
    let mut t: Vec<String> = Vec::new();
    assert(views(t@) =~= Seq::empty());
    push_text(&mut t, ".doc");
    push_text(&mut t, ".docx");
    push_text(&mut t, ".xls");
    push_text(&mut t, ".xlsx");
    push_text(&mut t, ".ppt");
    push_text(&mut t, ".pptx");
    push_text(&mut t, ".pdf");
    push_text(&mut t, ".txt");
    push_text(&mut t, ".md");
    push_text(&mut t, ".rtf");
    push_text(&mut t, ".odt");
    push_text(&mut t, ".ods");
    push_text(&mut t, ".odp");
    assert(views(t@) =~= document_extensions());
    t
}

fn archive_extension_list() -> (r: Vec<String>)
    ensures
        views(r@) == archive_extensions(),
{
    let mut t: Vec<String> = Vec::new();
    assert(views(t@) =~= Seq::empty());
    push_text(&mut t, ".zip");
    push_text(&mut t, ".rar");
    push_text(&mut t, ".7z");
    push_text(&mut t, ".tar");
    push_text(&mut t, ".gz");
    push_text(&mut t, ".bz2");
    push_text(&mut t, ".xz");
    assert(views(t@) =~= archive_extensions());
    t
}

fn invoice_extension_list() -> (r: Vec<String>)
    ensures
        views(r@) == invoice_extensions(),
{
    let mut t: Vec<String> = Vec::new();
    assert(views(t@) =~= Seq::empty());
    push_text(&mut t, ".pdf");
    push_text(&mut t, ".jpg");
    push_text(&mut t, ".png");
    assert(views(t@) =~= invoice_extensions());
    t
}

fn invoice_keyword_list() -> (r: Vec<String>)
    ensures
        views(r@) == invoice_keywords(),
{
    let mut t: Vec<String> = Vec::new();
    assert(views(t@) =~= Seq::empty());
    push_text(&mut t, "发票");
    push_text(&mut t, "invoice");
    push_text(&mut t, "账单");
    push_text(&mut t, "bill");
    push_text(&mut t, "收据");
    push_text(&mut t, "receipt");
    assert(views(t@) =~= invoice_keywords());
    t
}

fn make_category_rule(id: &str, name: &str, extensions: Vec<String>, target: &str, now: i64) -> (r:
    RuleDefinition)
    ensures
        r@ == category_rule(id@, name@, views(extensions@), target@, now),
{
    let mut condition = RuleCondition::default();
    condition.file_extensions = extensions;
    RuleDefinition {
        id: String::from_str(id),
        name: String::from_str(name),
        priority: CATEGORY_PRIORITY,
        enabled: true,
        condition,
        action: RuleAction { move_to: String::from_str(target) },
        origin: RuleOrigin::BuiltIn,
        created_at: now,
        updated_at: now,
        hit_count: 0,
    }
}

fn make_invoice_rule(now: i64) -> (r: RuleDefinition)
    ensures
        r@ == invoice_rule(now),
{
    let mut condition = RuleCondition::default();
    condition.file_extensions = invoice_extension_list();
    condition.filename_keywords = invoice_keyword_list();
    RuleDefinition {
        id: String::from_str("builtin_invoice"),
        name: String::from_str("发票/账单"),
        priority: KEYWORD_PRIORITY,
        enabled: true,
        condition,
        action: RuleAction { move_to: String::from_str("Finance/Invoice/{year}") },
        origin: RuleOrigin::BuiltIn,
        created_at: now,
        updated_at: now,
        hit_count: 0,
    }
}

/// The insertion point lies within the list, behind rules of the same or
/// higher priority and before rules of lower priority.
pub proof fn lemma_insertion_point(rules: Seq<RuleView>, priority: u8)
    requires
        sorted_by_priority(rules),
    ensures
        0 <= insertion_point(rules, priority) <= rules.len(),
        forall|i: int|
            0 <= i < insertion_point(rules, priority) ==> (#[trigger] rules[i]).priority >= priority,
        forall|i: int|
            insertion_point(rules, priority) <= i < rules.len() ==> (#[trigger] rules[i]).priority
                < priority,
    decreases rules.len(),
{
    if rules.len() > 0 && rules[0].priority >= priority {
        let rest = rules.drop_first();
        assert forall|i: int, j: int| 0 <= i < j < rest.len() implies rest[i].priority
            >= rest[j].priority by {
            assert(rest[i] == rules[i + 1]);
            assert(rest[j] == rules[j + 1]);
        }
        lemma_insertion_point(rest, priority);
        let k = insertion_point(rest, priority);
        assert forall|i: int| 0 <= i < k + 1 implies (#[trigger] rules[i]).priority >= priority by {
            if i > 0 {
                assert(rest[i - 1] == rules[i]);
            }
        }
        assert forall|i: int| k + 1 <= i < rules.len() implies (#[trigger] rules[i]).priority
            < priority by {
            assert(rest[i - 1] == rules[i]);
        }
    } else if rules.len() > 0 {
        assert forall|i: int| 0 <= i < rules.len() implies (#[trigger] rules[i]).priority
            < priority by {
            if i > 0 {
                assert(rules[0].priority >= rules[i].priority);
            }
        }
    }
}

/// Adding a rule keeps the rules sorted.
pub proof fn lemma_with_rule_sorted(rules: Seq<RuleView>, rule: RuleView)
    requires
        sorted_by_priority(rules),
    ensures
        sorted_by_priority(with_rule(rules, rule)),
{
    lemma_insertion_point(rules, rule.priority);
    let k = insertion_point(rules, rule.priority);
    let out = with_rule(rules, rule);
    assert forall|i: int, j: int| 0 <= i < j < out.len() implies out[i].priority
        >= out[j].priority by {
        if i < k && j > k {
            assert(out[i] == rules[i]);
            assert(out[j] == rules[j - 1]);
        } else if i < k && j == k {
            assert(out[i] == rules[i]);
        } else if i < k {
            assert(out[i] == rules[i]);
            assert(out[j] == rules[j]);
        } else if i == k {
            assert(out[j] == rules[j - 1]);
        } else {
            assert(out[i] == rules[i - 1]);
            assert(out[j] == rules[j - 1]);
        }
    }
}

/// The first match lies at or after the start, is enabled and is met, and
/// no enabled rule between the start and it is met.
pub proof fn lemma_first_match(rules: Seq<RuleView>, e: EntryView, start: int)
    requires
        0 <= start,
    ensures
        match first_match(rules, e, start) {
            Some(k) => start <= k < rules.len() && rules[k].enabled && condition_matches(
                rules[k].condition,
                e,
            ) && forall|i: int|
                start <= i < k ==> !((#[trigger] rules[i]).enabled && condition_matches(
                    rules[i].condition,
                    e,
                )),
            None => forall|i: int|
                start <= i < rules.len() ==> !((#[trigger] rules[i]).enabled && condition_matches(
                    rules[i].condition,
                    e,
                )),
        },
    decreases rules.len() - start,
{
    let gates = lowered_gates(rules);
    if start < rules.len() {
        assert(gates[start].enabled == rules[start].enabled);
        if !(rules[start].enabled && condition_matches(rules[start].condition, e)) {
            lemma_first_match(rules, e, start + 1);
        }
    }
}

/// Removal never takes a built-in rule away: every built-in rule of the
/// engine is still there after a removal, whatever identifier was asked
/// for.
pub proof fn lemma_removal_spares_built_ins(engine: EngineView, id: Seq<char>, k: int)
    requires
        0 <= k < engine.rules.len(),
        engine.rules[k].origin == RuleOrigin::BuiltIn,
    ensures
        after_removal(engine, id).rules.contains(engine.rules[k]),
{
    lemma_find_rule(engine.rules, id, true, 0);
    match find_rule(engine.rules, id, true, 0) {
        Some(gone) => {
            let rest = engine.rules.remove(gone);
            if k < gone {
                assert(rest[k] == engine.rules[k]);
            } else {
                assert(rest[k - 1] == engine.rules[k]);
            }
        },
        None => {
            assert(engine.rules[k] == engine.rules[k]);
        },
    }
}

/// The rule that an identifier finds lies at or after the start, has the
/// identifier and, where only user rules are asked for, is a user rule.
pub proof fn lemma_find_rule(rules: Seq<RuleView>, id: Seq<char>, users_only: bool, start: int)
    requires
        0 <= start,
    ensures
        match find_rule(rules, id, users_only, start) {
            Some(k) => start <= k < rules.len() && rules[k].id == id && (users_only
                ==> rules[k].origin == RuleOrigin::UserConfirmed),
            None => true,
        },
    decreases rules.len() - start,
{
    if start < rules.len() && !(rules[start].id == id && (!users_only || rules[start].origin
        == RuleOrigin::UserConfirmed)) {
        lemma_find_rule(rules, id, users_only, start + 1);
    }
}

/// An import never overwrites or drops a rule: every rule of the engine is
/// still there afterwards, and the rules are still sorted.
pub proof fn lemma_import_keeps_rules(rules: Seq<RuleView>, more: Seq<RuleView>, k: int)
    requires
        sorted_by_priority(rules),
        0 <= k < rules.len(),
    ensures
        with_user_rules(rules, more).contains(rules[k]),
        sorted_by_priority(with_user_rules(rules, more)),
        with_user_rules(rules, more).len() == rules.len() + user_rules(more).len(),
    decreases more.len(),
{
    if more.len() == 0 {
        assert(rules[k] == rules[k]);
    } else {
        lemma_import_keeps_rules(rules, more.drop_last(), k);
        let before = with_user_rules(rules, more.drop_last());
        if more.last().origin == RuleOrigin::UserConfirmed {
            lemma_insertion_point(before, more.last().priority);
            lemma_with_rule_sorted(before, more.last());
            let at = insertion_point(before, more.last().priority);
            let after = with_rule(before, more.last());
            let j = choose|j: int| 0 <= j < before.len() && before[j] == rules[k];
            if j < at {
                assert(after[j] == before[j]);
            } else {
                assert(after[j + 1] == before[j]);
            }
        }
    }
}

/// Only user rules are exported.
pub proof fn lemma_export_holds_user_rules(rules: Seq<RuleView>, k: int)
    requires
        0 <= k < user_rules(rules).len(),
    ensures
        user_rules(rules)[k].origin == RuleOrigin::UserConfirmed,
        rules.contains(user_rules(rules)[k]),
    decreases rules.len(),
{
    let rest = rules.drop_last();
    if rules.last().origin == RuleOrigin::UserConfirmed && k == user_rules(rest).len() {
        assert(rules[rules.len() - 1] == user_rules(rules)[k]);
    } else {
        lemma_export_holds_user_rules(rest, k);
        let j = choose|j: int| 0 <= j < rest.len() && rest[j] == user_rules(rest)[k];
        assert(rules[j] == rest[j]);
    }
}

/// The rule engine.
pub struct RuleEngine {
    rules: Vec<RuleDefinition>,
    output_base: String,
}

impl View for RuleEngine {
    type V = EngineView;

    closed spec fn view(&self) -> EngineView {
        EngineView { rules: rule_views(self.rules@), output_base: self.output_base@ }
    }
}

impl RuleEngine {
    #[verifier::type_invariant]
    spec fn rules_are_sorted(self) -> bool {
        sorted_by_priority(rule_views(self.rules@))
    }

    /// Takes the rules out, leaving none behind.
    fn take_rules(&mut self) -> (r: Vec<RuleDefinition>)
        ensures
            r@ == old(self).rules@,
            final(self).rules@.len() == 0,
            final(self).output_base == old(self).output_base,
    {
        let mut taken: Vec<RuleDefinition> = Vec::new();
        core::mem::swap(&mut self.rules, &mut taken);
        taken
    }

    /// Takes the rule at position `k` out of the engine.
    pub(crate) fn take_rule(&mut self, k: usize) -> (r: RuleDefinition)
        requires
            k < old(self)@.rules.len(),
        ensures
            r@ == old(self)@.rules[k as int],
            final(self)@ == (EngineView { rules: old(self)@.rules.remove(k as int), ..old(self)@ }),
    {
        proof {
            use_type_invariant(&*self);
        }
        let ghost before = rule_views(self.rules@);
        let mut rules = self.take_rules();
        assert(before[k as int] == rules@[k as int]@);
        let rule = rules.remove(k);
        assert(rule_views(rules@) =~= before.remove(k as int));
        assert forall|i: int, j: int| 0 <= i < j < rules@.len() implies rule_views(
            rules@,
        )[i].priority >= rule_views(rules@)[j].priority by {
            let a = if i < k { i } else { i + 1 };
            let b = if j < k { j } else { j + 1 };
            assert(rule_views(rules@)[i] == before[a]);
            assert(rule_views(rules@)[j] == before[b]);
        }
        self.rules = rules;
        rule
    }

    /// An engine with the built-in rules, all made at the instant `now`.
    pub fn new_at(output_base: String, now: i64) -> (r: RuleEngine)
        ensures
            r@ == (EngineView { rules: builtin_rules(now), output_base: output_base@ }),
    {
        let mut rules: Vec<RuleDefinition> = Vec::new();
        rules.push(make_invoice_rule(now));
        rules.push(
            make_category_rule(
                "builtin_images",
                "图片文件",
                image_extension_list(),
                "Pictures/{year}/{month}",
                now,
            ),
        );
        rules.push(
            make_category_rule(
                "builtin_videos",
                "视频文件",
                video_extension_list(),
                "Videos/{year}",
                now,
            ),
        );
        rules.push(
            make_category_rule(
                "builtin_audio",
                "音频文件",
                audio_extension_list(),
                "Music/{year}",
                now,
            ),
        );
        rules.push(
            make_category_rule(
                "builtin_documents",
                "文档文件",
                document_extension_list(),
                "Documents/{year}",
                now,
            ),
        );
        rules.push(
            make_category_rule(
                "builtin_archives",
                "压缩文件",
                archive_extension_list(),
                "Archives/{year}",
                now,
            ),
        );
        assert(rule_views(rules@) =~= builtin_rules(now));
        RuleEngine { rules, output_base }
    }

    /// An engine with the built-in rules, all made now.
    pub fn new(output_base: String) -> (r: RuleEngine)
        ensures
            r@.output_base == output_base@,
            r@.rules.len() == 6,
            r@.rules == builtin_rules(r@.rules[0].created_at),
    {
        let now = unix_now();
        RuleEngine::new_at(output_base, now)
    }

    /// Adds a rule behind the rules of its own or higher priority.
    pub fn add_rule(&mut self, rule: RuleDefinition)
        ensures
            final(self)@ == (EngineView { rules: with_rule(old(self)@.rules, rule@), ..old(self)@ }),
    {
        proof {
            use_type_invariant(&*self);
            lemma_insertion_point(rule_views(self.rules@), rule.priority);
            lemma_with_rule_sorted(rule_views(self.rules@), rule@);
        }
        let ghost before = rule_views(self.rules@);
        let mut rules = self.take_rules();
        let mut pos: usize = 0;
        assert(before.subrange(0, before.len() as int) =~= before);
        while pos < rules.len() && rules[pos].priority >= rule.priority
            invariant
                pos <= rules@.len(),
                before == rule_views(rules@),
                pos + insertion_point(before.subrange(pos as int, before.len() as int), rule.priority)
                    == insertion_point(before, rule.priority),
            decreases rules@.len() - pos,
        {
            proof {
                let rest = before.subrange(pos as int, before.len() as int);
                assert(rest[0] == rules@[pos as int]@);
                assert(rest.drop_first() == before.subrange(pos + 1, before.len() as int));
            }
            pos += 1;
        }
        proof {
            let rest = before.subrange(pos as int, before.len() as int);
            if pos < before.len() {
                assert(rest[0] == rules@[pos as int]@);
            }
            assert(insertion_point(rest, rule.priority) == 0);
        }
        rules.insert(pos, rule);
        assert(rule_views(rules@) =~= with_rule(before, rule@));
        self.rules = rules;
    }

    /// Removes the first user rule with the identifier `rule_id` and says
    /// whether there was one. Built-in rules are never removed.
    pub fn remove_rule(&mut self, rule_id: &str) -> (r: bool)
        ensures
            r == find_rule(old(self)@.rules, rule_id@, true, 0) is Some,
            final(self)@ == after_removal(old(self)@, rule_id@),
    {
        proof {
            use_type_invariant(&*self);
        }
        match self.locate(rule_id, true) {
            Some(k) => {
                let _removed = self.take_rule(k);
                true
            },
            None => false,
        }
    }

    /// The index of the first rule with the identifier `rule_id`; with
    /// `users_only`, of the first user rule with it.
    pub fn locate(&self, rule_id: &str, users_only: bool) -> (r: Option<usize>)
        ensures
            match r {
                Some(k) => find_rule(self@.rules, rule_id@, users_only, 0) == Some(k as int) && k
                    < self@.rules.len(),
                None => find_rule(self@.rules, rule_id@, users_only, 0) is None,
            },
    {
        let ghost rules = rule_views(self.rules@);
        let mut i: usize = 0;
        while i < self.rules.len()
            invariant
                i <= self.rules@.len(),
                rules == rule_views(self.rules@),
                find_rule(rules, rule_id@, users_only, i as int) == find_rule(
                    rules,
                    rule_id@,
                    users_only,
                    0,
                ),
            decreases self.rules@.len() - i,
        {
            assert(rules[i as int] == self.rules@[i as int]@);
            if same_text(self.rules[i].id.as_str(), rule_id) && (!users_only || self.rules[i].origin
                == RuleOrigin::UserConfirmed) {
                return Some(i);
            }
            i += 1;
        }
        None
    }

    /// Enables or disables the first rule with the identifier `rule_id`,
    /// stamping the change with `now`, and says whether there was one.
    pub fn set_rule_enabled_at(&mut self, rule_id: &str, enabled: bool, now: i64) -> (r: bool)
        ensures
            r == find_rule(old(self)@.rules, rule_id@, false, 0) is Some,
            final(self)@ == after_switch(old(self)@, rule_id@, enabled, now),
    {
        proof {
            use_type_invariant(&*self);
        }
        let ghost before = rule_views(self.rules@);
        match self.locate(rule_id, false) {
            Some(k) => {
                let mut rules = self.take_rules();
                assert(before[k as int] == rules@[k as int]@);
                rules[k].enabled = enabled;
                rules[k].updated_at = now;
                assert(rule_views(rules@) =~= before.update(
                    k as int,
                    switched(before[k as int], enabled, now),
                ));
                self.rules = rules;
                true
            },
            None => false,
        }
    }

    /// Enables or disables the first rule with the identifier `rule_id`,
    /// stamping the change with the current time, and says whether there
    /// was one.
    pub fn set_rule_enabled(&mut self, rule_id: &str, enabled: bool) -> (r: bool)
        ensures
            r == find_rule(old(self)@.rules, rule_id@, false, 0) is Some,
            exists|now: i64| final(self)@ == #[trigger] after_switch(old(self)@, rule_id@, enabled, now),
    {
        let now = unix_now();
        self.set_rule_enabled_at(rule_id, enabled, now)
    }

    /// The rules in the order in which they are tried: no rule stands
    /// before one of higher priority.
    pub fn get_rules(&self) -> (r: &Vec<RuleDefinition>)
        ensures
            rule_views(r@) == self@.rules,
            sorted_by_priority(self@.rules),
    {
        proof {
            use_type_invariant(self);
        }
        &self.rules
    }

    /// Asks the engine about `file` at the instant `now`. The first enabled
    /// rule that the file meets proposes its target and is counted as hit;
    /// atomic entries and directories get no proposal.
    pub fn match_file_at(&mut self, file: &FileDescriptor, now: i64) -> (r: Option<MoveSuggestion>)
        ensures
            suggestion_view(r) == proposal(old(self)@, file@),
            final(self)@ == after_match(old(self)@, file@, now),
    {
        proof {
            use_type_invariant(&*self);
        }
        if file.atomic {
            return None;
        }
        if file.is_directory {
            return None;
        }
        let ghost before = rule_views(self.rules@);
        let found = self.first_matching(file);
        match found {
            Some(i) => {
                let mut rules = self.take_rules();
                assert(before[i as int] == rules@[i as int]@);
                let target_path = rules[i].action.render_path(file, self.output_base.as_str());
                let mut reason = String::from_str("匹配规则: ");
                reason.append(rules[i].name.as_str());
                let count = rules[i].hit_count;
                rules[i].hit_count = if count < u64::MAX {
                    count + 1
                } else {
                    count
                };
                rules[i].updated_at = now;
                assert(rule_views(rules@) =~= before.update(i as int, hit(before[i as int], now)));
                self.rules = rules;
                Some(
                    MoveSuggestion {
                        target_path,
                        reason,
                        source: SuggestionSource::Rule,
                        confidence: Confidence::from_millionths(RULE_CONFIDENCE),
                    },
                )
            },
            None => None,
        }
    }

    /// The gates of the rules, with all text in lower case.
    pub fn gates(&self) -> (r: Vec<Gate>)
        ensures
            gate_views(r@) == lowered_gates(self@.rules),
    {
        let mut out: Vec<Gate> = Vec::new();
        let mut i: usize = 0;
        while i < self.rules.len()
            invariant
                i <= self.rules@.len(),
                out@.len() == i,
                forall|j: int|
                    0 <= j < i ==> (#[trigger] out@[j])@ == lowered_gates(
                        rule_views(self.rules@),
                    )[j],
            decreases self.rules@.len() - i,
        {
            assert(rule_views(self.rules@)[i as int] == self.rules@[i as int]@);
            out.push(
                Gate { enabled: self.rules[i].enabled, condition: self.rules[i].condition.lowered() },
            );
            i += 1;
        }
        assert(gate_views(out@) =~= lowered_gates(rule_views(self.rules@)));
        out
    }

    /// The index of the first enabled rule whose condition `file` meets.
    pub fn first_matching(&self, file: &FileDescriptor) -> (r: Option<usize>)
        ensures
            match r {
                Some(k) => first_match(self@.rules, file@, 0) == Some(k as int) && k
                    < self@.rules.len(),
                None => first_match(self@.rules, file@, 0) is None,
            },
    {
        let gates = self.gates();
        let subject = Subject::lowered_of(file);
        first_open_gate(gates.as_slice(), &subject)
    }

    /// Asks the engine about `file` now.
    pub fn match_file(&mut self, file: &FileDescriptor) -> (r: Option<MoveSuggestion>)
        ensures
            suggestion_view(r) == proposal(old(self)@, file@),
            exists|now: i64| final(self)@ == #[trigger] after_match(old(self)@, file@, now),
    {
        let now = unix_now();
        self.match_file_at(file, now)
    }

    /// Asks the engine about each of `files` in turn at the instant `now`
    /// and writes each proposal into its file.
    pub fn match_files_at(&mut self, files: &mut Vec<FileDescriptor>, now: i64)
        ensures
            final(self)@ == after_matches(old(self)@, entry_views(old(files)@), now),
            entry_views(final(files)@) == annotated_all(old(self)@, entry_views(old(files)@), now),
    {
        let ghost es = entry_views(files@);
        let ghost start = self@;
        let n = files.len();
        let mut i: usize = 0;
        assert(es.take(0) =~= Seq::empty());
        while i < n
            invariant
                i <= n,
                n == files@.len(),
                n == es.len(),
                self@ == after_matches(start, es.take(i as int), now),
                forall|j: int|
                    0 <= j < i ==> (#[trigger] files@[j])@ == annotated(
                        after_matches(start, es.take(j), now),
                        es[j],
                    ),
                forall|j: int| i <= j < n ==> (#[trigger] files@[j])@ == es[j],
            decreases n - i,
        {
            let ghost current = self@;
            assert(files@[i as int]@ == es[i as int]);
            let found = self.match_file_at(&files[i], now);
            if let Some(s) = found {
                files[i].suggested_action = Some(s);
            }
            proof {
                assert(es.take(i + 1).drop_last() =~= es.take(i as int));
                assert(es.take(i + 1).last() == es[i as int]);
                assert(files@[i as int]@ == annotated(current, es[i as int]));
            }
            i += 1;
        }
        assert(es.take(n as int) =~= es);
        assert(entry_views(files@) =~= annotated_all(start, es, now));
    }

    /// Asks the engine about each of `files` in turn, stamping every hit
    /// with the time at which the call began.
    pub fn match_files(&mut self, files: &mut Vec<FileDescriptor>)
        ensures
            exists|now: i64|
                final(self)@ == #[trigger] after_matches(old(self)@, entry_views(old(files)@), now)
                    && entry_views(final(files)@) == annotated_all(
                    old(self)@,
                    entry_views(old(files)@),
                    now,
                ),
    {
        let now = unix_now();
        self.match_files_at(files, now)
    }

    /// Takes in the rules that were read from a JSON export: every user
    /// rule is added; built-in rules among them are passed over.
    pub fn load_from_json(&mut self, rules: Vec<RuleDefinition>)
        ensures
            final(self)@ == (EngineView {
                rules: with_user_rules(old(self)@.rules, rule_views(rules@)),
                ..old(self)@
            }),
    {
        let ghost more = rule_views(rules@);
        let ghost start = self@;
        let mut i: usize = 0;
        assert(more.take(0) =~= Seq::empty());
        while i < rules.len()
            invariant
                i <= rules@.len(),
                more == rule_views(rules@),
                self@ == (EngineView {
                    rules: with_user_rules(start.rules, more.take(i as int)),
                    ..start
                }),
            decreases rules@.len() - i,
        {
            assert(more[i as int] == rules@[i as int]@);
            proof {
                assert(more.take(i + 1).drop_last() =~= more.take(i as int));
                assert(more.take(i + 1).last() == more[i as int]);
            }
            if rules[i].origin == RuleOrigin::UserConfirmed {
                self.add_rule(rules[i].clone());
            }
            i += 1;
        }
        assert(more.take(more.len() as int) =~= more);
    }

    /// The user rules, in order, as they are to be written to a JSON
    /// export. Built-in rules are never exported.
    pub fn export_user_rules_to_json(&self) -> (r: Vec<RuleDefinition>)
        ensures
            rule_views(r@) == user_rules(self@.rules),
    {
        let ghost rules = rule_views(self.rules@);
        let mut out: Vec<RuleDefinition> = Vec::new();
        let mut i: usize = 0;
        assert(rules.take(0) =~= Seq::empty());
        assert(rule_views(out@) =~= Seq::empty());
        while i < self.rules.len()
            invariant
                i <= self.rules@.len(),
                rules == rule_views(self.rules@),
                rule_views(out@) == user_rules(rules.take(i as int)),
            decreases self.rules@.len() - i,
        {
            assert(rules[i as int] == self.rules@[i as int]@);
            proof {
                assert(rules.take(i + 1).drop_last() =~= rules.take(i as int));
                assert(rules.take(i + 1).last() == rules[i as int]);
            }
            if self.rules[i].origin == RuleOrigin::UserConfirmed {
                let ghost before = rule_views(out@);
                out.push(self.rules[i].clone());
                assert(rule_views(out@) =~= before.push(rules[i as int]));
            }
            i += 1;
        }
        assert(rules.take(rules.len() as int) =~= rules);
        out
    }

    /// Sets the directory under which targets are rendered.
    pub fn set_output_base(&mut self, path: String)
        ensures
            final(self)@ == (EngineView { output_base: path@, ..old(self)@ }),
    {
        proof {
            use_type_invariant(&*self);
        }
        self.output_base = path;
    }

    /// The directory under which targets are rendered.
    pub fn get_output_base(&self) -> (r: &String)
        ensures
            r@ == self@.output_base,
    {
        &self.output_base
    }
}

} // verus!
