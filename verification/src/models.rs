//! The data that the analyzer, the rule engine, the planner and the executor
//! pass between them, each with the mathematical value it stands for.

use vstd::prelude::*;
use crate::text::{
    views, contains, has_member, has_part, lowercase, lowered, replace_all, share_member,
    signed_decimal, trim_leading,
};
use crate::text::{
    contains_text, list_has, list_has_part, lists_share, lower_all, replace_text,
    signed_decimal_text, to_lowercase, trim_leading_text,
};
use crate::clock::{utc_text, year_pattern, month_pattern, format_utc, unix_now};
use crate::digest::{fingerprint, fingerprint_of};
use crate::ids::fresh_id;
use crate::paths::{parent, parent_of, join, join_paths};

verus! {

/// The number of millionths in a full confidence.
pub const CONFIDENCE_ONE: u32 = 1_000_000;

/// A confidence between zero and one, held in millionths.
#[derive(Debug, Clone, Copy)]
pub struct Confidence {
    millionths: u32,
}

impl View for Confidence {
    type V = nat;

    closed spec fn view(&self) -> nat {
        self.millionths as nat
    }
}

impl Confidence {
    #[verifier::type_invariant]
    spec fn in_range(self) -> bool {
        self.millionths <= CONFIDENCE_ONE
    }

    /// The confidence of `x` millionths; anything above one counts as one.
    pub fn from_millionths(x: u32) -> (r: Confidence)
        ensures
            r@ == if x <= CONFIDENCE_ONE {
                x as nat
            } else {
                CONFIDENCE_ONE as nat
            },
    {
        if x <= CONFIDENCE_ONE {
            Confidence { millionths: x }
        } else {
            Confidence { millionths: CONFIDENCE_ONE }
        }
    }

    /// The confidence in millionths.
    pub fn millionths(&self) -> (r: u32)
        ensures
            r == self@,
            r <= CONFIDENCE_ONE,
    {
        proof {
            use_type_invariant(self);
        }
        self.millionths
    }
}

/// What kind of directory an entry is; every kind but `Normal` marks a
/// subtree that must not be taken apart.
#[derive(Debug, Clone, Copy, PartialEq, Eq, Structural)]
pub enum DirectoryType {
    Normal,
    ProgramRoot,
    VirtualEnv,
    PackageRepo,
    System,
}

impl DirectoryType {
    /// Every classification except `Normal` is atomic.
    pub open spec fn atomic(self) -> bool {
        !(self is Normal)
    }

    /// Whether directories of this kind are atomic.
    pub fn is_atomic(&self) -> (r: bool)
        ensures
            r == self.atomic(),
    {
        match self {
            DirectoryType::Normal => false,
            _ => true,
        }
    }
}

impl Default for DirectoryType {
    fn default() -> (r: DirectoryType)
        ensures
            r == DirectoryType::Normal,
    {
        DirectoryType::Normal
    }
}

/// Who proposed a move.
#[derive(Debug, Clone, Copy, PartialEq, Eq, Structural)]
pub enum SuggestionSource {
    /// The semantic model.
    AI,
    /// A rule of the rule engine.
    Rule,
    /// A remembered earlier choice.
    Memory,
}

impl SuggestionSource {
    /// The name under which the source is shown.
    pub open spec fn label_text(self) -> Seq<char> {
        match self {
            SuggestionSource::AI => "AI"@,
            SuggestionSource::Rule => "规则"@,
            SuggestionSource::Memory => "记忆"@,
        }
    }

    /// The name under which the source is shown.
    pub fn label(&self) -> (r: String)
        ensures
            r@ == self.label_text(),
    {
        match self {
            SuggestionSource::AI => String::from_str("AI"),
            SuggestionSource::Rule => String::from_str("规则"),
            SuggestionSource::Memory => String::from_str("记忆"),
        }
    }
}

/// Where a rule came from.
#[derive(Debug, Clone, Copy, PartialEq, Eq, Structural)]
pub enum RuleOrigin {
    UserConfirmed,
    BuiltIn,
}

/// Where a move operation stands.
#[derive(Debug, Clone, Copy, PartialEq, Eq, Structural)]
pub enum OperationStatus {
    Pending,
    InProgress,
    Completed,
    Failed,
    Skipped,
    RolledBack,
}

impl OperationStatus {
    /// The legal steps of an operation's life: a pending operation starts,
    /// a started one completes or fails, a completed one is rolled back.
    pub open spec fn may_become(self, next: OperationStatus) -> bool {
        ||| (self is Pending && next is InProgress)
        ||| (self is InProgress && (next is Completed || next is Failed))
        ||| (self is Completed && next is RolledBack)
    }
}

/// What a semantic analysis found in a file.
pub struct SemanticView {
    pub tags: Seq<Seq<char>>,
    pub entities: Seq<Seq<char>>,
    pub year: Option<i32>,
    pub confidence: nat,
    pub explanation: Seq<char>,
}

/// The result of a semantic analysis.
#[derive(Debug)]
pub struct SemanticResult {
    pub tags: Vec<String>,
    pub entities: Vec<String>,
    pub year: Option<i32>,
    pub confidence: Confidence,
    pub explanation: String,
}

impl View for SemanticResult {
    type V = SemanticView;

    open spec fn view(&self) -> SemanticView {
        SemanticView {
            tags: views(self.tags@),
            entities: views(self.entities@),
            year: self.year,
            confidence: self.confidence@,
            explanation: self.explanation@,
        }
    }
}

impl Clone for SemanticResult {
    fn clone(&self) -> (r: SemanticResult)
        ensures
            r@ == self@,
    {
        let r = SemanticResult {
            tags: self.tags.clone(),
            entities: self.entities.clone(),
            year: self.year,
            confidence: self.confidence,
            explanation: self.explanation.clone(),
        };
        assert(views(r.tags@) =~= views(self.tags@));
        assert(views(r.entities@) =~= views(self.entities@));
        r
    }
}

impl Default for SemanticResult {
    fn default() -> (r: SemanticResult)
        ensures
            r@ == (SemanticView {
                tags: Seq::empty(),
                entities: Seq::empty(),
                year: None,
                confidence: 0,
                explanation: Seq::empty(),
            }),
    {
        let r = SemanticResult {
            tags: Vec::new(),
            entities: Vec::new(),
            year: None,
            confidence: Confidence::from_millionths(0),
            explanation: String::new(),
        };
        assert(views(r.tags@) =~= Seq::empty());
        assert(views(r.entities@) =~= Seq::empty());
        r
    }
}

/// A proposal to move an entry: where to, why, from whom, how sure.
pub struct SuggestionView {
    pub target_path: Seq<char>,
    pub reason: Seq<char>,
    pub source: SuggestionSource,
    pub confidence: nat,
}

/// A proposal to move an entry.
#[derive(Debug)]
pub struct MoveSuggestion {
    pub target_path: String,
    pub reason: String,
    pub source: SuggestionSource,
    pub confidence: Confidence,
}

impl View for MoveSuggestion {
    type V = SuggestionView;

    open spec fn view(&self) -> SuggestionView {
        SuggestionView {
            target_path: self.target_path@,
            reason: self.reason@,
            source: self.source,
            confidence: self.confidence@,
        }
    }
}

impl Clone for MoveSuggestion {
    fn clone(&self) -> (r: MoveSuggestion)
        ensures
            r@ == self@,
    {
        MoveSuggestion {
            target_path: self.target_path.clone(),
            reason: self.reason.clone(),
            source: self.source,
            confidence: self.confidence,
        }
    }
}

/// The value of an optional semantic result.
pub open spec fn semantic_view(s: Option<SemanticResult>) -> Option<SemanticView> {
    match s {
        Some(x) => Some(x@),
        None => None,
    }
}

/// The value of an optional suggestion.
pub open spec fn suggestion_view(s: Option<MoveSuggestion>) -> Option<SuggestionView> {
    match s {
        Some(x) => Some(x@),
        None => None,
    }
}

/// One scanned file or directory, as a value.
pub struct EntryView {
    pub id: Seq<char>,
    pub name: Seq<char>,
    pub extension: Seq<char>,
    pub full_path: Seq<char>,
    pub parent_dir: Seq<char>,
    pub size: u64,
    pub modified_at: i64,
    pub is_directory: bool,
    pub directory_type: DirectoryType,
    pub atomic: bool,
    pub semantic: Option<SemanticView>,
    pub suggested_action: Option<SuggestionView>,
    pub selected: bool,
}

/// One scanned file or directory. `modified_at` counts seconds since the
/// Unix epoch; `extension` carries its leading dot.
#[derive(Debug)]
pub struct FileDescriptor {
    pub id: String,
    pub name: String,
    pub extension: String,
    pub full_path: String,
    pub parent_dir: String,
    pub size: u64,
    pub modified_at: i64,
    pub is_directory: bool,
    pub directory_type: DirectoryType,
    pub atomic: bool,
    pub semantic: Option<SemanticResult>,
    pub suggested_action: Option<MoveSuggestion>,
    pub selected: bool,
}

impl View for FileDescriptor {
    type V = EntryView;

    open spec fn view(&self) -> EntryView {
        EntryView {
            id: self.id@,
            name: self.name@,
            extension: self.extension@,
            full_path: self.full_path@,
            parent_dir: self.parent_dir@,
            size: self.size,
            modified_at: self.modified_at,
            is_directory: self.is_directory,
            directory_type: self.directory_type,
            atomic: self.atomic,
            semantic: semantic_view(self.semantic),
            suggested_action: suggestion_view(self.suggested_action),
            selected: self.selected,
        }
    }
}

/// The values of a list of entries.
pub open spec fn entry_views(files: Seq<FileDescriptor>) -> Seq<EntryView> {
    Seq::new(files.len(), |i: int| files[i]@)
}

/// The directory recorded for an entry: the parent of its path, or the path
/// itself where it has no parent.
pub open spec fn parent_or_self(path: Seq<char>) -> Seq<char> {
    match parent(path) {
        Some(d) => d,
        None => path,
    }
}

/// The entry that a scan records for a path before any analysis.
pub open spec fn new_entry(
    full_path: Seq<char>,
    name: Seq<char>,
    extension: Seq<char>,
    size: u64,
    modified_at: i64,
    is_directory: bool,
) -> EntryView {
    EntryView {
        id: fingerprint(full_path),
        name,
        extension,
        full_path,
        parent_dir: parent_or_self(full_path),
        size,
        modified_at,
        is_directory,
        directory_type: DirectoryType::Normal,
        atomic: false,
        semantic: None,
        suggested_action: None,
        selected: true,
    }
}

impl FileDescriptor {
    /// Records a path. The identifier is the fingerprint of the path, so the
    /// same path always gets the same identifier. The entry starts as a
    /// normal, non-atomic, selected entry without annotations.
    pub fn new(
        full_path: String,
        name: String,
        extension: String,
        size: u64,
        modified_at: i64,
        is_directory: bool,
    ) -> (r: FileDescriptor)
        ensures
            r@ == new_entry(full_path@, name@, extension@, size, modified_at, is_directory),
    {
        let parent_dir = match parent_of(full_path.as_str()) {
            Some(d) => d,
            None => full_path.clone(),
        };
        let id = fingerprint_of(full_path.as_str());
        FileDescriptor {
            id,
            name,
            extension,
            full_path,
            parent_dir,
            size,
            modified_at,
            is_directory,
            directory_type: DirectoryType::Normal,
            atomic: false,
            semantic: None,
            suggested_action: None,
            selected: true,
        }
    }
}

impl Clone for FileDescriptor {
    fn clone(&self) -> (r: FileDescriptor)
        ensures
            r@ == self@,
    {
        let semantic = match &self.semantic {
            Some(s) => Some(s.clone()),
            None => None,
        };
        let suggested_action = match &self.suggested_action {
            Some(s) => Some(s.clone()),
            None => None,
        };
        FileDescriptor {
            id: self.id.clone(),
            name: self.name.clone(),
            extension: self.extension.clone(),
            full_path: self.full_path.clone(),
            parent_dir: self.parent_dir.clone(),
            size: self.size,
            modified_at: self.modified_at,
            is_directory: self.is_directory,
            directory_type: self.directory_type,
            atomic: self.atomic,
            semantic,
            suggested_action,
            selected: self.selected,
        }
    }
}

/// What a rule asks of an entry, as a value.
pub struct ConditionView {
    pub semantic_tags: Seq<Seq<char>>,
    pub file_extensions: Seq<Seq<char>>,
    pub filename_keywords: Seq<Seq<char>>,
    pub directory_excludes: Seq<Seq<char>>,
    pub min_size: Option<u64>,
    pub max_size: Option<u64>,
}

/// What a rule asks of an entry. Within a list one hit is enough; the lists
/// and bounds must all be met; an empty list asks nothing.
#[derive(Debug)]
pub struct RuleCondition {
    pub semantic_tags: Vec<String>,
    pub file_extensions: Vec<String>,
    pub filename_keywords: Vec<String>,
    pub directory_excludes: Vec<String>,
    pub min_size: Option<u64>,
    pub max_size: Option<u64>,
}

impl View for RuleCondition {
    type V = ConditionView;

    open spec fn view(&self) -> ConditionView {
        ConditionView {
            semantic_tags: views(self.semantic_tags@),
            file_extensions: views(self.file_extensions@),
            filename_keywords: views(self.filename_keywords@),
            directory_excludes: views(self.directory_excludes@),
            min_size: self.min_size,
            max_size: self.max_size,
        }
    }
}

/// The condition that asks nothing.
pub open spec fn empty_condition() -> ConditionView {
    ConditionView {
        semantic_tags: Seq::empty(),
        file_extensions: Seq::empty(),
        filename_keywords: Seq::empty(),
        directory_excludes: Seq::empty(),
        min_size: None,
        max_size: None,
    }
}

/// What a condition is held against: what is known of an entry, as a value.
pub struct SubjectView {
    pub extension: Seq<char>,
    pub name: Seq<char>,
    pub full_path: Seq<char>,
    /// The tags of the semantic analysis, where there was one.
    pub tags: Option<Seq<Seq<char>>>,
    pub size: u64,
}

/// What a condition is held against: what is known of an entry.
#[derive(Debug)]
pub struct Subject {
    pub extension: String,
    pub name: String,
    pub full_path: String,
    /// The tags of the semantic analysis, where there was one.
    pub tags: Option<Vec<String>>,
    pub size: u64,
}

impl View for Subject {
    type V = SubjectView;

    open spec fn view(&self) -> SubjectView {
        SubjectView {
            extension: self.extension@,
            name: self.name@,
            full_path: self.full_path@,
            tags: match self.tags {
                Some(t) => Some(views(t@)),
                None => None,
            },
            size: self.size,
        }
    }
}

/// Whether a subject meets a condition, both taken as they are written.
/// An extension must be one of the condition's; the name must hold one of
/// its keywords; the tags must share one with its tags; the path must hold
/// none of its excluded parts; and the size must lie within its bounds. A
/// list that is empty asks nothing.
pub open spec fn meets(c: ConditionView, s: SubjectView) -> bool {
    &&& (c.file_extensions.len() > 0 ==> has_member(c.file_extensions, s.extension))
    &&& (c.filename_keywords.len() > 0 ==> has_part(c.filename_keywords, s.name))
    &&& (c.semantic_tags.len() > 0 ==> match s.tags {
        Some(t) => share_member(c.semantic_tags, t),
        None => false,
    })
    &&& !has_part(c.directory_excludes, s.full_path)
    &&& match c.min_size {
        Some(m) => s.size >= m,
        None => true,
    }
    &&& match c.max_size {
        Some(m) => s.size <= m,
        None => true,
    }
}

/// A condition with all its text in lower case.
pub open spec fn lowered_condition(c: ConditionView) -> ConditionView {
    ConditionView {
        semantic_tags: lowered(c.semantic_tags),
        file_extensions: lowered(c.file_extensions),
        filename_keywords: lowered(c.filename_keywords),
        directory_excludes: lowered(c.directory_excludes),
        min_size: c.min_size,
        max_size: c.max_size,
    }
}

/// What is known of an entry, with all text in lower case.
pub open spec fn lowered_subject(e: EntryView) -> SubjectView {
    SubjectView {
        extension: lowercase(e.extension),
        name: lowercase(e.name),
        full_path: lowercase(e.full_path),
        tags: match e.semantic {
            Some(s) => Some(lowered(s.tags)),
            None => None,
        },
        size: e.size,
    }
}

/// Whether an entry meets a condition: whether it does once both are in
/// lower case.
pub open spec fn condition_matches(c: ConditionView, e: EntryView) -> bool {
    meets(lowered_condition(c), lowered_subject(e))
}

impl Subject {
    /// What is known of `file`, with all text in lower case.
    pub fn lowered_of(file: &FileDescriptor) -> (r: Subject)
        ensures
            r@ == lowered_subject(file@),
    {
        let tags = match &file.semantic {
            Some(semantic) => Some(lower_all(semantic.tags.as_slice())),
            None => None,
        };
        Subject {
            extension: to_lowercase(file.extension.as_str()),
            name: to_lowercase(file.name.as_str()),
            full_path: to_lowercase(file.full_path.as_str()),
            tags,
            size: file.size,
        }
    }
}

impl RuleCondition {
    /// This condition with all its text in lower case.
    pub fn lowered(&self) -> (r: RuleCondition)
        ensures
            r@ == lowered_condition(self@),
    {
        RuleCondition {
            semantic_tags: lower_all(self.semantic_tags.as_slice()),
            file_extensions: lower_all(self.file_extensions.as_slice()),
            filename_keywords: lower_all(self.filename_keywords.as_slice()),
            directory_excludes: lower_all(self.directory_excludes.as_slice()),
            min_size: self.min_size,
            max_size: self.max_size,
        }
    }

    /// Whether `subject` meets this condition, both taken as they are
    /// written.
    pub fn is_met_by(&self, subject: &Subject) -> (r: bool)
        ensures
            r == meets(self@, subject@),
    {
        if self.file_extensions.len() > 0 {
            if !list_has(self.file_extensions.as_slice(), subject.extension.as_str()) {
                return false;
            }
        }
        if self.filename_keywords.len() > 0 {
            if !list_has_part(self.filename_keywords.as_slice(), subject.name.as_str()) {
                return false;
            }
        }
        if self.semantic_tags.len() > 0 {
            match &subject.tags {
                Some(tags) => {
                    if !lists_share(self.semantic_tags.as_slice(), tags.as_slice()) {
                        return false;
                    }
                },
                None => {
                    return false;
                },
            }
        }
        if list_has_part(self.directory_excludes.as_slice(), subject.full_path.as_str()) {
            return false;
        }
        if let Some(min) = self.min_size {
            if subject.size < min {
                return false;
            }
        }
        if let Some(max) = self.max_size {
            if subject.size > max {
                return false;
            }
        }
        true
    }

    /// Whether `file` meets this condition, case ignored.
    pub fn matches(&self, file: &FileDescriptor) -> (r: bool)
        ensures
            r == condition_matches(self@, file@),
    {
        let condition = self.lowered();
        let subject = Subject::lowered_of(file);
        condition.is_met_by(&subject)
    }
}

impl Clone for RuleCondition {
    fn clone(&self) -> (r: RuleCondition)
        ensures
            r@ == self@,
    {
        let r = RuleCondition {
            semantic_tags: self.semantic_tags.clone(),
            file_extensions: self.file_extensions.clone(),
            filename_keywords: self.filename_keywords.clone(),
            directory_excludes: self.directory_excludes.clone(),
            min_size: self.min_size,
            max_size: self.max_size,
        };
        assert(views(r.semantic_tags@) =~= views(self.semantic_tags@));
        assert(views(r.file_extensions@) =~= views(self.file_extensions@));
        assert(views(r.filename_keywords@) =~= views(self.filename_keywords@));
        assert(views(r.directory_excludes@) =~= views(self.directory_excludes@));
        r
    }
}

impl Default for RuleCondition {
    fn default() -> (r: RuleCondition)
        ensures
            r@ == empty_condition(),
    {
        let r = RuleCondition {
            semantic_tags: Vec::new(),
            file_extensions: Vec::new(),
            filename_keywords: Vec::new(),
            directory_excludes: Vec::new(),
            min_size: None,
            max_size: None,
        };
        assert(views(r.semantic_tags@) =~= Seq::empty());
        assert(views(r.file_extensions@) =~= Seq::empty());
        assert(views(r.filename_keywords@) =~= Seq::empty());
        assert(views(r.directory_excludes@) =~= Seq::empty());
        r
    }
}

/// The placeholder for the year.
pub open spec fn year_variable() -> Seq<char> {
    "{year}"@
}

/// The placeholder for the month.
pub open spec fn month_variable() -> Seq<char> {
    "{month}"@
}

/// The placeholder for the extension.
pub open spec fn extension_variable() -> Seq<char> {
    "{extension}"@
}

/// `text` with the placeholder `variable` filled by `value`; unchanged where
/// there is no value.
pub open spec fn fill(text: Seq<char>, variable: Seq<char>, value: Option<Seq<char>>) -> Seq<
    char,
> {
    match value {
        Some(v) => replace_all(text, variable, v),
        None => text,
    }
}

/// The year that a semantic analysis inferred, as a numeral.
pub open spec fn inferred_year(semantic: Option<SemanticView>) -> Option<Seq<char>> {
    match semantic {
        Some(s) => match s.year {
            Some(y) => Some(signed_decimal(y as int)),
            None => None,
        },
        None => None,
    }
}

/// A template with its placeholders filled: the year by the inferred year
/// where there is one, else by the year of the clock; the extension
/// without its leading dots; the month by the month of the clock. A
/// placeholder for which there is no value stays as it is.
pub open spec fn filled(
    template: Seq<char>,
    inferred: Option<Seq<char>>,
    clock_year: Option<Seq<char>>,
    extension: Seq<char>,
    clock_month: Option<Seq<char>>,
) -> Seq<char> {
    let with_inferred = fill(template, year_variable(), inferred);
    let with_year = if contains(with_inferred, year_variable()) {
        fill(with_inferred, year_variable(), clock_year)
    } else {
        with_inferred
    };
    let with_extension = replace_all(with_year, extension_variable(), trim_leading(extension, '.'));
    fill(with_extension, month_variable(), clock_month)
}

/// A template with its placeholders filled from an entry: the inferred
/// year is that of the semantic analysis, the clock is the modification
/// time in UTC.
pub open spec fn fill_template(template: Seq<char>, e: EntryView) -> Seq<char> {
    filled(
        template,
        inferred_year(e.semantic),
        utc_text(e.modified_at, year_pattern()),
        e.extension,
        utc_text(e.modified_at, month_pattern()),
    )
}

/// The inferred year as a numeral.
pub open spec fn year_numeral(year: Option<i32>) -> Option<Seq<char>> {
    match year {
        Some(y) => Some(signed_decimal(y as int)),
        None => None,
    }
}

/// Fills the placeholders of a template.
pub fn fill_placeholders(
    template: &str,
    inferred_year: Option<i32>,
    clock_year: &Option<String>,
    extension: &str,
    clock_month: &Option<String>,
) -> (r: String)
    ensures
        r@ == filled(
            template@,
            year_numeral(inferred_year),
            text_view(*clock_year),
            extension@,
            text_view(*clock_month),
        ),
{
    let mut path = String::from_str(template);
    if let Some(year) = inferred_year {
        let numeral = signed_decimal_text(year as i64);
        path = replace_text(path.as_str(), "{year}", numeral.as_str());
    }
    if contains_text(path.as_str(), "{year}") {
        if let Some(year) = clock_year {
            path = replace_text(path.as_str(), "{year}", year.as_str());
        }
    }
    let bare = trim_leading_text(extension, '.');
    path = replace_text(path.as_str(), "{extension}", bare.as_str());
    if let Some(month) = clock_month {
        path = replace_text(path.as_str(), "{month}", month.as_str());
    }
    path
}

/// The directory that a template names for an entry, under `base`.
pub open spec fn rendered_path(template: Seq<char>, e: EntryView, base: Seq<char>) -> Seq<char> {
    join(base, fill_template(template, e))
}

/// What a rule does with an entry that meets its condition: the template of
/// the directory to move it to.
#[derive(Debug)]
pub struct RuleAction {
    pub move_to: String,
}

impl View for RuleAction {
    type V = Seq<char>;

    open spec fn view(&self) -> Seq<char> {
        self.move_to@
    }
}

impl RuleAction {
    /// The directory that this action names for `file`, under `base_path`.
    pub fn render_path(&self, file: &FileDescriptor, base_path: &str) -> (r: String)
        ensures
            r@ == rendered_path(self@, file@, base_path@),
    {
        let inferred = match &file.semantic {
            Some(semantic) => semantic.year,
            None => None,
        };
        let clock_year = format_utc(file.modified_at, "%Y");
        let clock_month = format_utc(file.modified_at, "%m");
        let path = fill_placeholders(
            self.move_to.as_str(),
            inferred,
            &clock_year,
            file.extension.as_str(),
            &clock_month,
        );
        join_paths(base_path, path.as_str())
    }
}

impl Clone for RuleAction {
    fn clone(&self) -> (r: RuleAction)
        ensures
            r@ == self@,
    {
        RuleAction { move_to: self.move_to.clone() }
    }
}

impl Default for RuleAction {
    fn default() -> (r: RuleAction)
        ensures
            r@ == Seq::<char>::empty(),
    {
        RuleAction { move_to: String::new() }
    }
}

/// A classification rule, as a value.
pub struct RuleView {
    pub id: Seq<char>,
    pub name: Seq<char>,
    pub priority: u8,
    pub enabled: bool,
    pub condition: ConditionView,
    pub action: Seq<char>,
    pub origin: RuleOrigin,
    pub created_at: i64,
    pub updated_at: i64,
    pub hit_count: u64,
}

/// A classification rule. Of two rules the one with the higher priority is
/// tried first. The timestamps count seconds since the Unix epoch.
#[derive(Debug)]
pub struct RuleDefinition {
    pub id: String,
    pub name: String,
    pub priority: u8,
    pub enabled: bool,
    pub condition: RuleCondition,
    pub action: RuleAction,
    pub origin: RuleOrigin,
    pub created_at: i64,
    pub updated_at: i64,
    pub hit_count: u64,
}

impl View for RuleDefinition {
    type V = RuleView;

    open spec fn view(&self) -> RuleView {
        RuleView {
            id: self.id@,
            name: self.name@,
            priority: self.priority,
            enabled: self.enabled,
            condition: self.condition@,
            action: self.action@,
            origin: self.origin,
            created_at: self.created_at,
            updated_at: self.updated_at,
            hit_count: self.hit_count,
        }
    }
}

/// The values of a list of rules.
pub open spec fn rule_views(rules: Seq<RuleDefinition>) -> Seq<RuleView> {
    Seq::new(rules.len(), |i: int| rules[i]@)
}

/// The priority that a new rule starts with.
pub const DEFAULT_PRIORITY: u8 = 50;

/// A user rule as it is made: enabled, at the default priority, never hit,
/// made and last changed at the same instant.
pub open spec fn new_rule(
    id: Seq<char>,
    name: Seq<char>,
    condition: ConditionView,
    action: Seq<char>,
    now: i64,
) -> RuleView {
    RuleView {
        id,
        name,
        priority: DEFAULT_PRIORITY,
        enabled: true,
        condition,
        action,
        origin: RuleOrigin::UserConfirmed,
        created_at: now,
        updated_at: now,
        hit_count: 0,
    }
}

impl RuleDefinition {
    /// A user rule made at the instant `now` under the identifier `id`.
    pub fn with_id(
        id: String,
        name: String,
        condition: RuleCondition,
        action: RuleAction,
        now: i64,
    ) -> (r: RuleDefinition)
        ensures
            r@ == new_rule(id@, name@, condition@, action@, now),
    {
        RuleDefinition {
            id,
            name,
            priority: DEFAULT_PRIORITY,
            enabled: true,
            condition,
            action,
            origin: RuleOrigin::UserConfirmed,
            created_at: now,
            updated_at: now,
            hit_count: 0,
        }
    }

    /// A user rule made now, under a fresh random identifier of 36
    /// characters.
    pub fn new(name: String, condition: RuleCondition, action: RuleAction) -> (r: RuleDefinition)
        ensures
            r@ == new_rule(r@.id, name@, condition@, action@, r@.created_at),
            r@.id.len() == 36,
    {
        let id = fresh_id();
        let now = unix_now();
        RuleDefinition::with_id(id, name, condition, action, now)
    }
}

impl Clone for RuleDefinition {
    fn clone(&self) -> (r: RuleDefinition)
        ensures
            r@ == self@,
    {
        RuleDefinition {
            id: self.id.clone(),
            name: self.name.clone(),
            priority: self.priority,
            enabled: self.enabled,
            condition: self.condition.clone(),
            action: self.action.clone(),
            origin: self.origin,
            created_at: self.created_at,
            updated_at: self.updated_at,
            hit_count: self.hit_count,
        }
    }
}

/// The value of an optional text.
pub open spec fn text_view(s: Option<String>) -> Option<Seq<char>> {
    match s {
        Some(x) => Some(x@),
        None => None,
    }
}

/// One move, as a value.
pub struct OperationView {
    pub from: Seq<char>,
    pub to: Seq<char>,
    pub file_id: Seq<char>,
    pub status: OperationStatus,
    pub error: Option<Seq<char>>,
}

/// One move: from where, to where, of which entry, and how far it has got.
#[derive(Debug)]
pub struct MoveOperation {
    pub from: String,
    pub to: String,
    pub file_id: String,
    pub status: OperationStatus,
    pub error: Option<String>,
}

impl View for MoveOperation {
    type V = OperationView;

    open spec fn view(&self) -> OperationView {
        OperationView {
            from: self.from@,
            to: self.to@,
            file_id: self.file_id@,
            status: self.status,
            error: text_view(self.error),
        }
    }
}

impl Clone for MoveOperation {
    fn clone(&self) -> (r: MoveOperation)
        ensures
            r@ == self@,
    {
        let error = match &self.error {
            Some(e) => Some(e.clone()),
            None => None,
        };
        MoveOperation {
            from: self.from.clone(),
            to: self.to.clone(),
            file_id: self.file_id.clone(),
            status: self.status,
            error,
        }
    }
}

/// The values of a list of operations.
pub open spec fn operation_views(ops: Seq<MoveOperation>) -> Seq<OperationView> {
    Seq::new(ops.len(), |i: int| ops[i]@)
}

/// A copy of a list of operations.
pub fn copy_operations(ops: &Vec<MoveOperation>) -> (r: Vec<MoveOperation>)
    ensures
        operation_views(r@) == operation_views(ops@),
{
    let mut out: Vec<MoveOperation> = Vec::new();
    let mut i: usize = 0;
    while i < ops.len()
        invariant
            i <= ops@.len(),
            out@.len() == i,
            forall|j: int| 0 <= j < i ==> out@[j]@ == ops@[j]@,
        decreases ops@.len() - i,
    {
        out.push(ops[i].clone());
        i += 1;
    }
    assert(operation_views(out@) =~= operation_views(ops@));
    out
}

/// A pending move without an error.
pub open spec fn pending_operation(from: Seq<char>, to: Seq<char>, file_id: Seq<char>) -> OperationView {
    OperationView { from, to, file_id, status: OperationStatus::Pending, error: None }
}

/// A batch of moves, as a value.
pub struct PlanView {
    pub batch_id: Seq<char>,
    pub created_at: i64,
    pub operations: Seq<OperationView>,
}

/// A batch of moves under one identifier, in the order in which they are to
/// be carried out.
#[derive(Debug)]
pub struct MovePlan {
    pub batch_id: String,
    pub created_at: i64,
    pub operations: Vec<MoveOperation>,
}

impl View for MovePlan {
    type V = PlanView;

    open spec fn view(&self) -> PlanView {
        PlanView {
            batch_id: self.batch_id@,
            created_at: self.created_at,
            operations: operation_views(self.operations@),
        }
    }
}

impl MovePlan {
    /// An empty batch under the identifier `batch_id`, made at `now`.
    pub fn with_id(batch_id: String, now: i64) -> (r: MovePlan)
        ensures
            r@ == (PlanView { batch_id: batch_id@, created_at: now, operations: Seq::empty() }),
    {
        let r = MovePlan { batch_id, created_at: now, operations: Vec::new() };
        assert(operation_views(r.operations@) =~= Seq::empty());
        r
    }

    /// An empty batch made now, under a fresh random identifier of 36
    /// characters.
    pub fn new() -> (r: MovePlan)
        ensures
            r@.operations == Seq::<OperationView>::empty(),
            r@.batch_id.len() == 36,
    {
        let id = fresh_id();
        let now = unix_now();
        MovePlan::with_id(id, now)
    }

    /// Adds a pending move at the end of the batch.
    pub fn add_operation(&mut self, from: String, to: String, file_id: String)
        ensures
            final(self)@ == (PlanView {
                operations: old(self)@.operations.push(pending_operation(from@, to@, file_id@)),
                ..old(self)@
            }),
    {
        self.operations.push(
            MoveOperation { from, to, file_id, status: OperationStatus::Pending, error: None },
        );
        assert(operation_views(self.operations@) =~= operation_views(old(self).operations@).push(
            pending_operation(from@, to@, file_id@),
        ));
    }
}

impl Clone for MovePlan {
    fn clone(&self) -> (r: MovePlan)
        ensures
            r@ == self@,
    {
        MovePlan {
            batch_id: self.batch_id.clone(),
            created_at: self.created_at,
            operations: copy_operations(&self.operations),
        }
    }
}

impl Default for MovePlan {
    fn default() -> (r: MovePlan)
        ensures
            r@.operations == Seq::<OperationView>::empty(),
            r@.batch_id.len() == 36,
    {
        MovePlan::new()
    }
}

/// One executed batch, as a value.
pub struct HistoryView {
    pub batch_id: Seq<char>,
    pub executed_at: i64,
    pub operations: Seq<OperationView>,
    pub rolled_back: bool,
}

/// The record of one executed batch: its operations as they ended, and
/// whether the batch has since been rolled back.
#[derive(Debug)]
pub struct HistoryEntry {
    pub batch_id: String,
    pub executed_at: i64,
    pub operations: Vec<MoveOperation>,
    pub rolled_back: bool,
}

impl View for HistoryEntry {
    type V = HistoryView;

    open spec fn view(&self) -> HistoryView {
        HistoryView {
            batch_id: self.batch_id@,
            executed_at: self.executed_at,
            operations: operation_views(self.operations@),
            rolled_back: self.rolled_back,
        }
    }
}

impl Clone for HistoryEntry {
    fn clone(&self) -> (r: HistoryEntry)
        ensures
            r@ == self@,
    {
        HistoryEntry {
            batch_id: self.batch_id.clone(),
            executed_at: self.executed_at,
            operations: copy_operations(&self.operations),
            rolled_back: self.rolled_back,
        }
    }
}

/// The values of a list of history entries.
pub open spec fn history_views(entries: Seq<HistoryEntry>) -> Seq<HistoryView> {
    Seq::new(entries.len(), |i: int| entries[i]@)
}

} // verus!
