//! The types that the stage, the Workflows and the backends share, with their
//! mathematical models.
use vstd::prelude::*;

use crate::text::{blank, clone_texts, is_blank, is_white_space, texts, to_chars};

verus! {

// ---------------------------------------------------------------------------
// Vocabulary
// ---------------------------------------------------------------------------
#[derive(Debug, Clone, Copy, PartialEq, Eq, Structural)]
pub enum Category {
    Concurrency,
    Ownership,
    ErrorHandling,
    Unsafe,
    Automation,
    Data,
    Testing,
    Other,
}

/// The name of a category on the wire.
pub open spec fn category_name(category: Category) -> Seq<char> {
    match category {
        Category::Concurrency => "concurrency"@,
        Category::Ownership => "ownership"@,
        Category::ErrorHandling => "error_handling"@,
        Category::Unsafe => "unsafe"@,
        Category::Automation => "automation"@,
        Category::Data => "data"@,
        Category::Testing => "testing"@,
        Category::Other => "other"@,
    }
}

impl Category {
    pub const ALL: [Category; 8] = [
        Category::Concurrency,
        Category::Ownership,
        Category::ErrorHandling,
        Category::Unsafe,
        Category::Automation,
        Category::Data,
        Category::Testing,
        Category::Other,
    ];

    pub fn as_str(self) -> (res: &'static str)
        ensures
            res@ == category_name(self),
    {
        match self {
            Category::Concurrency => "concurrency",
            Category::Ownership => "ownership",
            Category::ErrorHandling => "error_handling",
            Category::Unsafe => "unsafe",
            Category::Automation => "automation",
            Category::Data => "data",
            Category::Testing => "testing",
            Category::Other => "other",
        }
    }
}

/// Different categories have different names on the wire.
pub proof fn law_category_names_are_distinct(a: Category, b: Category)
    requires
        category_name(a) == category_name(b),
    ensures
        a == b,
{
    reveal_strlit("concurrency");
    reveal_strlit("ownership");
    reveal_strlit("error_handling");
    reveal_strlit("unsafe");
    reveal_strlit("automation");
    reveal_strlit("data");
    reveal_strlit("testing");
    reveal_strlit("other");
    assert("concurrency"@.len() == 11 && "ownership"@.len() == 9 && "error_handling"@.len() == 14
        && "unsafe"@.len() == 6 && "automation"@.len() == 10 && "data"@.len() == 4
        && "testing"@.len() == 7 && "other"@.len() == 5);
}

/// Which agent shape a confession's Workflow runs: the fixed linear pipeline or
/// the autonomous decide/act loop.
#[derive(Debug, Clone, Copy, PartialEq, Eq, Structural)]
pub enum AgentMode {
    Linear,
    Autonomous,
}

impl Default for AgentMode {
    fn default() -> (res: Self)
        ensures
            res == AgentMode::Linear,
    {
        AgentMode::Linear
    }
}

/// A capability the autonomous loop can invoke as a research step.
#[derive(Debug, Clone, Copy, PartialEq, Eq, Structural)]
pub enum Skill {
    RemedyLookup,
    DocLookup,
    SelfCritique,
}

#[derive(Debug, Clone, Copy, PartialEq, Eq, Structural)]
pub enum SubmissionStatus {
    Received,
    Judging,
    Researching,
    Composing,
    ReplyPending,
    Sending,
    Sent,
    Failed,
}

impl Default for SubmissionStatus {
    fn default() -> (res: Self)
        ensures
            res == SubmissionStatus::Received,
    {
        SubmissionStatus::Received
    }
}

/// How Stage turns confessions into Workflows.
#[derive(Debug, Clone, Copy, PartialEq, Eq, Structural)]
pub enum WorkflowMode {
    /// One `ConfessionWorkflow` per confession.
    PerConfession,
    /// One aggregate `SessionWorkflow` for the whole session.
    Session,
}

impl Default for WorkflowMode {
    fn default() -> (res: Self)
        ensures
            res == WorkflowMode::PerConfession,
    {
        WorkflowMode::PerConfession
    }
}

/// A point in time, in seconds and nanoseconds since the Unix epoch.
#[derive(Debug, Clone, Copy, PartialEq, Eq, Structural)]
pub struct Timestamp {
    pub seconds: i64,
    pub nanoseconds: u32,
}

#[derive(Debug, Clone, Copy, PartialEq, Eq, Structural)]
pub struct AwardScores {
    pub most_cursed: u8,
    pub most_relatable: u8,
    pub most_needlessly_rewritten: u8,
}

impl Default for AwardScores {
    fn default() -> (res: Self)
        ensures
            res == (AwardScores {
                most_cursed: 0,
                most_relatable: 0,
                most_needlessly_rewritten: 0,
            }),
    {
        AwardScores { most_cursed: 0, most_relatable: 0, most_needlessly_rewritten: 0 }
    }
}

// ---------------------------------------------------------------------------
// Models
// ---------------------------------------------------------------------------
/// What an optional string holds.
pub open spec fn text_of(s: Option<String>) -> Option<Seq<char>> {
    match s {
        Some(s) => Some(s@),
        None => None,
    }
}

/// A copy of an optional string.
pub fn clone_text(s: &Option<String>) -> (res: Option<String>)
    ensures
        text_of(res) == text_of(*s),
{
    match s {
        Some(s) => Some(s.clone()),
        None => None,
    }
}

#[verifier::ext_equal]
pub enum AgentStepView {
    Lookup { skill: Skill, query: Seq<char> },
    Compose,
    Revise { reason: Seq<char> },
    Finish,
}

#[verifier::ext_equal]
pub struct FindingView {
    pub skill: Skill,
    pub summary: Seq<char>,
    pub detail: Seq<char>,
}

#[verifier::ext_equal]
pub struct SubmissionView {
    pub id: Seq<char>,
    pub session_id: Seq<char>,
    pub text: Seq<char>,
    pub created_at: Timestamp,
    pub hold_before_reply: bool,
    pub agent_mode: AgentMode,
}

#[verifier::ext_equal]
pub struct PlanView {
    pub category: Category,
    pub needs_lookup: bool,
    pub search_key: Seq<char>,
}

#[verifier::ext_equal]
pub struct RemedyView {
    pub category: Category,
    pub guidance: Seq<char>,
    pub suggested_tools: Seq<Seq<char>>,
}

#[verifier::ext_equal]
pub struct JudgmentView {
    pub display_confession: Seq<char>,
    pub category: Category,
    pub judgment: Seq<char>,
    pub severity: u8,
    pub severity_reason: Seq<char>,
    pub prescription: Seq<char>,
    pub suggested_tools: Seq<Seq<char>>,
    pub sentence: Seq<char>,
    pub penance: Seq<char>,
    pub penance_line: Seq<char>,
    pub award_scores: AwardScores,
}

#[verifier::ext_equal]
pub struct StageSubmissionView {
    pub id: Seq<char>,
    pub workflow_id: Seq<char>,
    pub session_id: Seq<char>,
    pub text: Seq<char>,
    pub status: SubmissionStatus,
    pub created_at: Timestamp,
    pub category: Option<Category>,
    pub judgment: Option<Seq<char>>,
    pub severity: Option<Seq<char>>,
    pub prescription: Option<Seq<char>>,
    pub sentence: Option<Seq<char>>,
    pub penance: Option<Seq<char>>,
    pub penance_line: Option<Seq<char>>,
    pub penance_reps: Option<u8>,
    pub award_scores: Option<AwardScores>,
    pub error: Option<Seq<char>>,
    pub agent_steps: Seq<Seq<char>>,
}

#[verifier::ext_equal]
pub struct StageUpdateView {
    pub id: Seq<char>,
    pub session_id: Seq<char>,
    pub status: SubmissionStatus,
    pub judgment: Option<JudgmentView>,
    pub error: Option<Seq<char>>,
    pub agent_steps: Seq<Seq<char>>,
}

/// One confession as its Workflow holds it.
#[verifier::ext_equal]
pub struct ConfessionView {
    pub submission: SubmissionView,
    pub status: SubmissionStatus,
    pub plan: Option<PlanView>,
    pub judgment: Option<JudgmentView>,
    pub released: bool,
    pub findings: Seq<FindingView>,
    pub steps: Seq<AgentStepView>,
}

// ---------------------------------------------------------------------------
// Agent steps and findings
// ---------------------------------------------------------------------------
/// One decision the autonomous agent makes on each turn of its loop.
#[derive(Debug, PartialEq, Eq)]
pub enum AgentStep {
    Lookup { skill: Skill, query: String },
    Compose,
    Revise { reason: String },
    Finish,
}

impl View for AgentStep {
    type V = AgentStepView;

    open spec fn view(&self) -> AgentStepView {
        match self {
            AgentStep::Lookup { skill, query } => AgentStepView::Lookup {
                skill: *skill,
                query: query@,
            },
            AgentStep::Compose => AgentStepView::Compose,
            AgentStep::Revise { reason } => AgentStepView::Revise { reason: reason@ },
            AgentStep::Finish => AgentStepView::Finish,
        }
    }
}

impl Clone for AgentStep {
    fn clone(&self) -> (res: Self)
        ensures
            res@ == self@,
    {
        match self {
            AgentStep::Lookup { skill, query } => AgentStep::Lookup {
                skill: *skill,
                query: query.clone(),
            },
            AgentStep::Compose => AgentStep::Compose,
            AgentStep::Revise { reason } => AgentStep::Revise { reason: reason.clone() },
            AgentStep::Finish => AgentStep::Finish,
        }
    }
}

/// How the dashboard's step trace words a step.
pub open spec fn step_label(step: AgentStepView) -> Seq<char> {
    match step {
        AgentStepView::Lookup { skill, .. } => match skill {
            Skill::RemedyLookup => "Looked up an approved remedy"@,
            Skill::DocLookup => "Consulted the docs"@,
            Skill::SelfCritique => "Self-critiqued the draft"@,
        },
        AgentStepView::Compose => "Composed a draft"@,
        AgentStepView::Revise { .. } => "Revised the draft"@,
        AgentStepView::Finish => "Finished"@,
    }
}

impl AgentStep {
    /// A short, human-readable label for the dashboard's autonomous step trace.
    pub fn label(&self) -> (res: &'static str)
        ensures
            res@ == step_label(self@),
    {
        match self {
            AgentStep::Lookup { skill, .. } => match skill {
                Skill::RemedyLookup => "Looked up an approved remedy",
                Skill::DocLookup => "Consulted the docs",
                Skill::SelfCritique => "Self-critiqued the draft",
            },
            AgentStep::Compose => "Composed a draft",
            AgentStep::Revise { .. } => "Revised the draft",
            AgentStep::Finish => "Finished",
        }
    }
}

pub open spec fn step_views(steps: Seq<AgentStep>) -> Seq<AgentStepView> {
    steps.map_values(|step: AgentStep| step@)
}

/// The labels of a sequence of steps.
pub open spec fn step_labels(steps: Seq<AgentStepView>) -> Seq<Seq<char>> {
    steps.map_values(|step: AgentStepView| step_label(step))
}

pub fn clone_steps(steps: &Vec<AgentStep>) -> (res: Vec<AgentStep>)
    ensures
        step_views(res@) == step_views(steps@),
{
    let mut out: Vec<AgentStep> = Vec::new();
    let mut i: usize = 0;
    while i < steps.len()
        invariant
            i <= steps@.len(),
            out@.len() == i,
            forall|k: int| 0 <= k < i ==> (#[trigger] out@[k])@ == steps@[k]@,
        decreases steps@.len() - i,
    {
        out.push(steps[i].clone());
        i += 1;
    }
    assert(step_views(out@) =~= step_views(steps@));
    out
}

/// The labels of the steps taken so far.
pub fn labels_of(steps: &Vec<AgentStep>) -> (res: Vec<String>)
    ensures
        texts(res@) == step_labels(step_views(steps@)),
{
    let mut out: Vec<String> = Vec::new();
    let mut i: usize = 0;
    while i < steps.len()
        invariant
            i <= steps@.len(),
            out@.len() == i,
            forall|k: int| 0 <= k < i ==> (#[trigger] out@[k])@ == step_label(steps@[k]@),
        decreases steps@.len() - i,
    {
        out.push(steps[i].label().to_owned());
        i += 1;
    }
    assert(texts(out@) =~= step_labels(step_views(steps@)));
    out
}

/// A result the agent gathered from running a `Skill`, folded into later steps.
#[derive(Debug, PartialEq, Eq)]
pub struct Finding {
    pub skill: Skill,
    pub summary: String,
    pub detail: String,
}

impl View for Finding {
    type V = FindingView;

    open spec fn view(&self) -> FindingView {
        FindingView { skill: self.skill, summary: self.summary@, detail: self.detail@ }
    }
}

impl Clone for Finding {
    fn clone(&self) -> (res: Self)
        ensures
            res@ == self@,
    {
        Finding {
            skill: self.skill,
            summary: self.summary.clone(),
            detail: self.detail.clone(),
        }
    }
}

pub open spec fn finding_views(findings: Seq<Finding>) -> Seq<FindingView> {
    findings.map_values(|finding: Finding| finding@)
}

pub fn clone_findings(findings: &[Finding]) -> (res: Vec<Finding>)
    ensures
        finding_views(res@) == finding_views(findings@),
{
    let mut out: Vec<Finding> = Vec::new();
    let mut i: usize = 0;
    while i < findings.len()
        invariant
            i <= findings@.len(),
            out@.len() == i,
            forall|k: int| 0 <= k < i ==> (#[trigger] out@[k])@ == findings@[k]@,
        decreases findings@.len() - i,
    {
        out.push(findings[i].clone());
        i += 1;
    }
    assert(finding_views(out@) =~= finding_views(findings@));
    out
}

// ---------------------------------------------------------------------------
// Submissions, plans and remedies
// ---------------------------------------------------------------------------
#[derive(Debug, PartialEq, Eq)]
pub struct SubmissionInput {
    pub id: String,
    pub session_id: String,
    pub text: String,
    pub created_at: Timestamp,
    pub hold_before_reply: bool,
    pub agent_mode: AgentMode,
}

impl View for SubmissionInput {
    type V = SubmissionView;

    open spec fn view(&self) -> SubmissionView {
        SubmissionView {
            id: self.id@,
            session_id: self.session_id@,
            text: self.text@,
            created_at: self.created_at,
            hold_before_reply: self.hold_before_reply,
            agent_mode: self.agent_mode,
        }
    }
}

impl Clone for SubmissionInput {
    fn clone(&self) -> (res: Self)
        ensures
            res@ == self@,
    {
        SubmissionInput {
            id: self.id.clone(),
            session_id: self.session_id.clone(),
            text: self.text.clone(),
            created_at: self.created_at,
            hold_before_reply: self.hold_before_reply,
            agent_mode: self.agent_mode,
        }
    }
}

#[derive(Debug, PartialEq, Eq)]
pub struct AgentPlan {
    pub category: Category,
    pub needs_lookup: bool,
    pub search_key: String,
}

impl View for AgentPlan {
    type V = PlanView;

    open spec fn view(&self) -> PlanView {
        PlanView {
            category: self.category,
            needs_lookup: self.needs_lookup,
            search_key: self.search_key@,
        }
    }
}

impl Clone for AgentPlan {
    fn clone(&self) -> (res: Self)
        ensures
            res@ == self@,
    {
        AgentPlan {
            category: self.category,
            needs_lookup: self.needs_lookup,
            search_key: self.search_key.clone(),
        }
    }
}

pub open spec fn plan_of(plan: Option<AgentPlan>) -> Option<PlanView> {
    match plan {
        Some(plan) => Some(plan@),
        None => None,
    }
}

#[derive(Debug, PartialEq, Eq)]
pub struct Remedy {
    pub category: Category,
    pub guidance: String,
    pub suggested_tools: Vec<String>,
}

impl View for Remedy {
    type V = RemedyView;

    open spec fn view(&self) -> RemedyView {
        RemedyView {
            category: self.category,
            guidance: self.guidance@,
            suggested_tools: texts(self.suggested_tools@),
        }
    }
}

impl Clone for Remedy {
    fn clone(&self) -> (res: Self)
        ensures
            res@ == self@,
    {
        Remedy {
            category: self.category,
            guidance: self.guidance.clone(),
            suggested_tools: clone_texts(&self.suggested_tools),
        }
    }
}

pub open spec fn remedy_of(remedy: Option<Remedy>) -> Option<RemedyView> {
    match remedy {
        Some(remedy) => Some(remedy@),
        None => None,
    }
}

// ---------------------------------------------------------------------------
// Judgments
// ---------------------------------------------------------------------------
#[derive(Debug, PartialEq, Eq)]
pub struct Judgment {
    pub display_confession: String,
    pub category: Category,
    pub judgment: String,
    pub severity: u8,
    /// A short phrase that justifies the severity; may be empty.
    pub severity_reason: String,
    pub prescription: String,
    pub suggested_tools: Vec<String>,
    pub sentence: String,
    /// A short, playful assignment ("Write a loop that prints foo then bar").
    pub penance: String,
    /// The single repeatable line the dashboard renders looped `severity` times.
    pub penance_line: String,
    pub award_scores: AwardScores,
}

impl View for Judgment {
    type V = JudgmentView;

    open spec fn view(&self) -> JudgmentView {
        JudgmentView {
            display_confession: self.display_confession@,
            category: self.category,
            judgment: self.judgment@,
            severity: self.severity,
            severity_reason: self.severity_reason@,
            prescription: self.prescription@,
            suggested_tools: texts(self.suggested_tools@),
            sentence: self.sentence@,
            penance: self.penance@,
            penance_line: self.penance_line@,
            award_scores: self.award_scores,
        }
    }
}

impl Clone for Judgment {
    fn clone(&self) -> (res: Self)
        ensures
            res@ == self@,
    {
        Judgment {
            display_confession: self.display_confession.clone(),
            category: self.category,
            judgment: self.judgment.clone(),
            severity: self.severity,
            severity_reason: self.severity_reason.clone(),
            prescription: self.prescription.clone(),
            suggested_tools: clone_texts(&self.suggested_tools),
            sentence: self.sentence.clone(),
            penance: self.penance.clone(),
            penance_line: self.penance_line.clone(),
            award_scores: self.award_scores,
        }
    }
}

pub open spec fn judgment_of(judgment: Option<Judgment>) -> Option<JudgmentView> {
    match judgment {
        Some(judgment) => Some(judgment@),
        None => None,
    }
}

pub fn clone_judgment(judgment: &Option<Judgment>) -> (res: Option<Judgment>)
    ensures
        judgment_of(res) == judgment_of(*judgment),
{
    match judgment {
        Some(judgment) => Some(judgment.clone()),
        None => None,
    }
}

/// The text a judgment displays when it carries no paraphrase of its own.
pub fn default_display_confession() -> (res: String)
    ensures
        res@ == "A programming confession."@,
{
    "A programming confession.".to_owned()
}

/// Why a judgment may not go on stage.
#[derive(Debug, Clone, Copy, PartialEq, Eq, Structural)]
pub enum JudgmentError {
    Severity,
    MostCursed,
    MostRelatable,
    MostNeedlesslyRewritten,
    DisplayConfessionEmpty,
    DisplayConfessionTooLong,
    JudgmentEmpty,
    JudgmentTooLong,
    PrescriptionEmpty,
    PrescriptionTooLong,
    SentenceEmpty,
    SentenceTooLong,
    PenanceEmpty,
    PenanceTooLong,
    PenanceLineEmpty,
    PenanceLineTooLong,
    PenanceLineNotSingle,
    ToolCount,
    ToolInvalid,
}

/// How a rejection is worded.
pub open spec fn judgment_error_text(error: JudgmentError) -> Seq<char> {
    match error {
        JudgmentError::Severity => "severity must be between 1 and 5"@,
        JudgmentError::MostCursed => "most_cursed must be <= 100"@,
        JudgmentError::MostRelatable => "most_relatable must be <= 100"@,
        JudgmentError::MostNeedlesslyRewritten => "most_needlessly_rewritten must be <= 100"@,
        JudgmentError::DisplayConfessionEmpty => "display_confession cannot be empty"@,
        JudgmentError::DisplayConfessionTooLong => "display_confession is too long"@,
        JudgmentError::JudgmentEmpty => "judgment cannot be empty"@,
        JudgmentError::JudgmentTooLong => "judgment is too long"@,
        JudgmentError::PrescriptionEmpty => "prescription cannot be empty"@,
        JudgmentError::PrescriptionTooLong => "prescription is too long"@,
        JudgmentError::SentenceEmpty => "sentence cannot be empty"@,
        JudgmentError::SentenceTooLong => "sentence is too long"@,
        JudgmentError::PenanceEmpty => "penance cannot be empty"@,
        JudgmentError::PenanceTooLong => "penance is too long"@,
        JudgmentError::PenanceLineEmpty => "penance_line cannot be empty"@,
        JudgmentError::PenanceLineTooLong => "penance_line is too long"@,
        JudgmentError::PenanceLineNotSingle => "penance_line must be a single line"@,
        JudgmentError::ToolCount => "suggested_tools must contain between one and five items"@,
        JudgmentError::ToolInvalid => "suggested_tools contains an invalid item"@,
    }
}

impl JudgmentError {
    pub fn message(self) -> (res: &'static str)
        ensures
            res@ == judgment_error_text(self),
    {
        match self {
            JudgmentError::Severity => "severity must be between 1 and 5",
            JudgmentError::MostCursed => "most_cursed must be <= 100",
            JudgmentError::MostRelatable => "most_relatable must be <= 100",
            JudgmentError::MostNeedlesslyRewritten => "most_needlessly_rewritten must be <= 100",
            JudgmentError::DisplayConfessionEmpty => "display_confession cannot be empty",
            JudgmentError::DisplayConfessionTooLong => "display_confession is too long",
            JudgmentError::JudgmentEmpty => "judgment cannot be empty",
            JudgmentError::JudgmentTooLong => "judgment is too long",
            JudgmentError::PrescriptionEmpty => "prescription cannot be empty",
            JudgmentError::PrescriptionTooLong => "prescription is too long",
            JudgmentError::SentenceEmpty => "sentence cannot be empty",
            JudgmentError::SentenceTooLong => "sentence is too long",
            JudgmentError::PenanceEmpty => "penance cannot be empty",
            JudgmentError::PenanceTooLong => "penance is too long",
            JudgmentError::PenanceLineEmpty => "penance_line cannot be empty",
            JudgmentError::PenanceLineTooLong => "penance_line is too long",
            JudgmentError::PenanceLineNotSingle => "penance_line must be a single line",
            JudgmentError::ToolCount => "suggested_tools must contain between one and five items",
            JudgmentError::ToolInvalid => "suggested_tools contains an invalid item",
        }
    }
}

pub const MAX_DISPLAY_CHARS: usize = 180;

pub const MAX_SHORT_FIELD_CHARS: usize = 280;

pub const MAX_PENANCE_LINE_CHARS: usize = 48;

pub const MAX_TOOL_CHARS: usize = 64;

/// A tool that may be shown: visible text of bounded length.
pub open spec fn tool_fits(tool: Seq<char>) -> bool {
    !blank(tool) && tool.len() <= MAX_TOOL_CHARS
}

/// No line break within.
pub open spec fn single_line(s: Seq<char>) -> bool {
    forall|i: int| 0 <= i < s.len() ==> #[trigger] s[i] != '\n' && s[i] != '\r'
}

/// The first rule that a judgment breaks, if it breaks one.
pub open spec fn judgment_fault(j: JudgmentView) -> Option<JudgmentError> {
    if !(1 <= j.severity <= 5) {
        Some(JudgmentError::Severity)
    } else if j.award_scores.most_cursed > 100 {
        Some(JudgmentError::MostCursed)
    } else if j.award_scores.most_relatable > 100 {
        Some(JudgmentError::MostRelatable)
    } else if j.award_scores.most_needlessly_rewritten > 100 {
        Some(JudgmentError::MostNeedlesslyRewritten)
    } else if blank(j.display_confession) {
        Some(JudgmentError::DisplayConfessionEmpty)
    } else if j.display_confession.len() > MAX_DISPLAY_CHARS {
        Some(JudgmentError::DisplayConfessionTooLong)
    } else if blank(j.judgment) {
        Some(JudgmentError::JudgmentEmpty)
    } else if j.judgment.len() > MAX_SHORT_FIELD_CHARS {
        Some(JudgmentError::JudgmentTooLong)
    } else if blank(j.prescription) {
        Some(JudgmentError::PrescriptionEmpty)
    } else if j.prescription.len() > MAX_SHORT_FIELD_CHARS {
        Some(JudgmentError::PrescriptionTooLong)
    } else if blank(j.sentence) {
        Some(JudgmentError::SentenceEmpty)
    } else if j.sentence.len() > MAX_SHORT_FIELD_CHARS {
        Some(JudgmentError::SentenceTooLong)
    } else if blank(j.penance) {
        Some(JudgmentError::PenanceEmpty)
    } else if j.penance.len() > MAX_SHORT_FIELD_CHARS {
        Some(JudgmentError::PenanceTooLong)
    } else if blank(j.penance_line) {
        Some(JudgmentError::PenanceLineEmpty)
    } else if j.penance_line.len() > MAX_PENANCE_LINE_CHARS {
        Some(JudgmentError::PenanceLineTooLong)
    } else if !single_line(j.penance_line) {
        Some(JudgmentError::PenanceLineNotSingle)
    } else if !(1 <= j.suggested_tools.len() <= 5) {
        Some(JudgmentError::ToolCount)
    } else if !(forall|i: int|
        0 <= i < j.suggested_tools.len() ==> tool_fits(#[trigger] j.suggested_tools[i])) {
        Some(JudgmentError::ToolInvalid)
    } else {
        None
    }
}

fn is_single_line(s: &str) -> (res: bool)
    ensures
        res == single_line(s@),
{
    let chars = to_chars(s);
    let mut i: usize = 0;
    while i < chars.len()
        invariant
            i <= chars@.len(),
            chars@ == s@,
            forall|k: int| 0 <= k < i ==> #[trigger] s@[k] != '\n' && s@[k] != '\r',
        decreases chars@.len() - i,
    {
        if chars[i] == '\n' || chars[i] == '\r' {
            assert(s@[i as int] == chars@[i as int]);
            return false;
        }
        i += 1;
    }
    true
}

fn tools_fit(tools: &Vec<String>) -> (res: bool)
    ensures
        res == (forall|i: int|
            0 <= i < texts(tools@).len() ==> tool_fits(#[trigger] texts(tools@)[i])),
{
    let mut i: usize = 0;
    while i < tools.len()
        invariant
            i <= tools@.len(),
            forall|k: int| 0 <= k < i ==> tool_fits(#[trigger] texts(tools@)[k]),
        decreases tools@.len() - i,
    {
        let tool = tools[i].as_str();
        if is_blank(tool) || tool.unicode_len() > MAX_TOOL_CHARS {
            assert(!tool_fits(texts(tools@)[i as int]));
            return false;
        }
        i += 1;
    }
    true
}

impl Judgment {
    /// Accepts a judgment that may go on stage, and names the first rule that
    /// any other breaks.
    pub fn validate(&self) -> (res: Result<(), JudgmentError>)
        ensures
            match judgment_fault(self@) {
                None => res is Ok,
                Some(error) => res == Err::<(), JudgmentError>(error),
            },
    {
        if !(1 <= self.severity && self.severity <= 5) {
            return Err(JudgmentError::Severity);
        }
        if self.award_scores.most_cursed > 100 {
            return Err(JudgmentError::MostCursed);
        }
        if self.award_scores.most_relatable > 100 {
            return Err(JudgmentError::MostRelatable);
        }
        if self.award_scores.most_needlessly_rewritten > 100 {
            return Err(JudgmentError::MostNeedlesslyRewritten);
        }
        if is_blank(self.display_confession.as_str()) {
            return Err(JudgmentError::DisplayConfessionEmpty);
        }
        if self.display_confession.as_str().unicode_len() > MAX_DISPLAY_CHARS {
            return Err(JudgmentError::DisplayConfessionTooLong);
        }
        if is_blank(self.judgment.as_str()) {
            return Err(JudgmentError::JudgmentEmpty);
        }
        if self.judgment.as_str().unicode_len() > MAX_SHORT_FIELD_CHARS {
            return Err(JudgmentError::JudgmentTooLong);
        }
        if is_blank(self.prescription.as_str()) {
            return Err(JudgmentError::PrescriptionEmpty);
        }
        if self.prescription.as_str().unicode_len() > MAX_SHORT_FIELD_CHARS {
            return Err(JudgmentError::PrescriptionTooLong);
        }
        if is_blank(self.sentence.as_str()) {
            return Err(JudgmentError::SentenceEmpty);
        }
        if self.sentence.as_str().unicode_len() > MAX_SHORT_FIELD_CHARS {
            return Err(JudgmentError::SentenceTooLong);
        }
        if is_blank(self.penance.as_str()) {
            return Err(JudgmentError::PenanceEmpty);
        }
        if self.penance.as_str().unicode_len() > MAX_SHORT_FIELD_CHARS {
            return Err(JudgmentError::PenanceTooLong);
        }
        if is_blank(self.penance_line.as_str()) {
            return Err(JudgmentError::PenanceLineEmpty);
        }
        if self.penance_line.as_str().unicode_len() > MAX_PENANCE_LINE_CHARS {
            return Err(JudgmentError::PenanceLineTooLong);
        }
        if !is_single_line(self.penance_line.as_str()) {
            return Err(JudgmentError::PenanceLineNotSingle);
        }
        if self.suggested_tools.len() < 1 || self.suggested_tools.len() > 5 {
            return Err(JudgmentError::ToolCount);
        }
        if !tools_fit(&self.suggested_tools) {
            return Err(JudgmentError::ToolInvalid);
        }
        Ok(())
    }
}

// ---------------------------------------------------------------------------
// The stage projection
// ---------------------------------------------------------------------------
#[derive(Debug, PartialEq, Eq)]
pub struct StageSubmission {
    pub id: String,
    pub workflow_id: String,
    pub session_id: String,
    pub text: String,
    pub status: SubmissionStatus,
    pub created_at: Timestamp,
    pub category: Option<Category>,
    pub judgment: Option<String>,
    pub severity: Option<String>,
    pub prescription: Option<String>,
    pub sentence: Option<String>,
    pub penance: Option<String>,
    pub penance_line: Option<String>,
    pub penance_reps: Option<u8>,
    pub award_scores: Option<AwardScores>,
    pub error: Option<String>,
    /// Human-readable trace of the autonomous loop's steps; empty for linear
    /// confessions.
    pub agent_steps: Vec<String>,
}

impl View for StageSubmission {
    type V = StageSubmissionView;

    open spec fn view(&self) -> StageSubmissionView {
        StageSubmissionView {
            id: self.id@,
            workflow_id: self.workflow_id@,
            session_id: self.session_id@,
            text: self.text@,
            status: self.status,
            created_at: self.created_at,
            category: self.category,
            judgment: text_of(self.judgment),
            severity: text_of(self.severity),
            prescription: text_of(self.prescription),
            sentence: text_of(self.sentence),
            penance: text_of(self.penance),
            penance_line: text_of(self.penance_line),
            penance_reps: self.penance_reps,
            award_scores: self.award_scores,
            error: text_of(self.error),
            agent_steps: texts(self.agent_steps@),
        }
    }
}

impl Clone for StageSubmission {
    fn clone(&self) -> (res: Self)
        ensures
            res@ == self@,
    {
        StageSubmission {
            id: self.id.clone(),
            workflow_id: self.workflow_id.clone(),
            session_id: self.session_id.clone(),
            text: self.text.clone(),
            status: self.status,
            created_at: self.created_at,
            category: self.category,
            judgment: clone_text(&self.judgment),
            severity: clone_text(&self.severity),
            prescription: clone_text(&self.prescription),
            sentence: clone_text(&self.sentence),
            penance: clone_text(&self.penance),
            penance_line: clone_text(&self.penance_line),
            penance_reps: self.penance_reps,
            award_scores: self.award_scores,
            error: clone_text(&self.error),
            agent_steps: clone_texts(&self.agent_steps),
        }
    }
}

/// The row that stands on the board for a confession just received. The raw
/// text stays out of it: a placeholder stands there until the judgment supplies
/// a stage-safe version.
pub open spec fn received_row(
    input: SubmissionView,
    workflow_id: Seq<char>,
) -> StageSubmissionView {
    StageSubmissionView {
        id: input.id,
        workflow_id,
        session_id: input.session_id,
        text: "Confession received — Ferris is reviewing it…"@,
        status: SubmissionStatus::Received,
        created_at: input.created_at,
        category: None,
        judgment: None,
        severity: None,
        prescription: None,
        sentence: None,
        penance: None,
        penance_line: None,
        penance_reps: None,
        award_scores: None,
        error: None,
        agent_steps: Seq::empty(),
    }
}

impl StageSubmission {
    pub fn received(input: &SubmissionInput, workflow_id: String) -> (res: Self)
        ensures
            res@ == received_row(input@, workflow_id@),
    {
        let res = StageSubmission {
            id: input.id.clone(),
            workflow_id,
            session_id: input.session_id.clone(),
            text: "Confession received — Ferris is reviewing it…".to_owned(),
            status: SubmissionStatus::Received,
            created_at: input.created_at,
            category: None,
            judgment: None,
            severity: None,
            prescription: None,
            sentence: None,
            penance: None,
            penance_line: None,
            penance_reps: None,
            award_scores: None,
            error: None,
            agent_steps: Vec::new(),
        };
        assert(res@ =~= received_row(input@, workflow_id@));
        res
    }
}

/// What a Worker reports to the stage about one confession.
#[derive(Debug, PartialEq, Eq)]
pub struct StageUpdate {
    pub id: String,
    pub session_id: String,
    pub status: SubmissionStatus,
    pub judgment: Option<Judgment>,
    pub error: Option<String>,
    /// The running list of autonomous step labels; empty for linear paths.
    pub agent_steps: Vec<String>,
}

impl View for StageUpdate {
    type V = StageUpdateView;

    open spec fn view(&self) -> StageUpdateView {
        StageUpdateView {
            id: self.id@,
            session_id: self.session_id@,
            status: self.status,
            judgment: judgment_of(self.judgment),
            error: text_of(self.error),
            agent_steps: texts(self.agent_steps@),
        }
    }
}

impl Clone for StageUpdate {
    fn clone(&self) -> (res: Self)
        ensures
            res@ == self@,
    {
        StageUpdate {
            id: self.id.clone(),
            session_id: self.session_id.clone(),
            status: self.status,
            judgment: clone_judgment(&self.judgment),
            error: clone_text(&self.error),
            agent_steps: clone_texts(&self.agent_steps),
        }
    }
}

// ---------------------------------------------------------------------------
// Workflow state
// ---------------------------------------------------------------------------
/// A `ConfessionWorkflow`'s durable state, returned by its query.
#[derive(Debug, PartialEq, Eq)]
pub struct WorkflowSnapshot {
    pub submission: SubmissionInput,
    pub status: SubmissionStatus,
    pub plan: Option<AgentPlan>,
    pub judgment: Option<Judgment>,
    pub released: bool,
    pub findings: Vec<Finding>,
    pub steps: Vec<AgentStep>,
}

impl View for WorkflowSnapshot {
    type V = ConfessionView;

    open spec fn view(&self) -> ConfessionView {
        ConfessionView {
            submission: self.submission@,
            status: self.status,
            plan: plan_of(self.plan),
            judgment: judgment_of(self.judgment),
            released: self.released,
            findings: finding_views(self.findings@),
            steps: step_views(self.steps@),
        }
    }
}

/// One confession's state as a Workflow holds it.
#[derive(Debug, PartialEq, Eq)]
pub struct SessionConfession {
    pub submission: SubmissionInput,
    pub status: SubmissionStatus,
    pub plan: Option<AgentPlan>,
    pub judgment: Option<Judgment>,
    /// Starts as `!hold_before_reply`; the release Signal frees the held ones.
    pub released: bool,
    pub findings: Vec<Finding>,
    pub steps: Vec<AgentStep>,
}

impl View for SessionConfession {
    type V = ConfessionView;

    open spec fn view(&self) -> ConfessionView {
        ConfessionView {
            submission: self.submission@,
            status: self.status,
            plan: plan_of(self.plan),
            judgment: judgment_of(self.judgment),
            released: self.released,
            findings: finding_views(self.findings@),
            steps: step_views(self.steps@),
        }
    }
}

fn clone_plan(plan: &Option<AgentPlan>) -> (res: Option<AgentPlan>)
    ensures
        plan_of(res) == plan_of(*plan),
{
    match plan {
        Some(plan) => Some(plan.clone()),
        None => None,
    }
}

impl Clone for SessionConfession {
    fn clone(&self) -> (res: Self)
        ensures
            res@ == self@,
    {
        SessionConfession {
            submission: self.submission.clone(),
            status: self.status,
            plan: clone_plan(&self.plan),
            judgment: clone_judgment(&self.judgment),
            released: self.released,
            findings: clone_findings(&self.findings),
            steps: clone_steps(&self.steps),
        }
    }
}

/// A confession as it enters a Workflow.
pub open spec fn fresh_confession(submission: SubmissionView) -> ConfessionView {
    ConfessionView {
        submission,
        status: SubmissionStatus::Received,
        plan: None,
        judgment: None,
        released: !submission.hold_before_reply,
        findings: Seq::empty(),
        steps: Seq::empty(),
    }
}

impl SessionConfession {
    /// A confession just received, held back if its submission says so.
    pub fn fresh(submission: SubmissionInput) -> (res: Self)
        ensures
            res@ == fresh_confession(submission@),
    {
        let res = SessionConfession {
            released: !submission.hold_before_reply,
            submission,
            status: SubmissionStatus::Received,
            plan: None,
            judgment: None,
            findings: Vec::new(),
            steps: Vec::new(),
        };
        assert(res@ =~= fresh_confession(submission@));
        res
    }

    /// The same state as a query answers it.
    pub fn to_snapshot(&self) -> (res: WorkflowSnapshot)
        ensures
            res@ == self@,
    {
        WorkflowSnapshot {
            submission: self.submission.clone(),
            status: self.status,
            plan: clone_plan(&self.plan),
            judgment: clone_judgment(&self.judgment),
            released: self.released,
            findings: clone_findings(&self.findings),
            steps: clone_steps(&self.steps),
        }
    }
}

pub open spec fn confession_views(confessions: Seq<SessionConfession>) -> Seq<ConfessionView> {
    confessions.map_values(|item: SessionConfession| item@)
}

/// The aggregate `SessionWorkflow`'s durable state, returned by its query.
#[derive(Debug, PartialEq, Eq)]
pub struct SessionSnapshot {
    pub session_id: String,
    pub confessions: Vec<SessionConfession>,
}

#[derive(Debug, PartialEq, Eq)]
pub struct ReleaseInput {
    pub reason: String,
}

/// The submissions that lead the three award lists.
#[derive(Debug, PartialEq, Eq)]
pub struct Awards {
    pub most_cursed: Option<String>,
    pub most_relatable: Option<String>,
    pub most_needlessly_rewritten: Option<String>,
}

/// What the dashboard polls.
#[derive(Debug, PartialEq, Eq)]
pub struct PublicStageState {
    pub worker_online: bool,
    pub temporal_connected: bool,
    pub model_mode: String,
    pub held: bool,
    pub show_raw_confessions: bool,
    pub workflow_mode: WorkflowMode,
    pub agent_mode: AgentMode,
    pub submissions: Vec<StageSubmission>,
    pub awards: Awards,
}

/// A text that shows something and is no longer than `maximum`.
pub open spec fn shown_within(text: Seq<char>, maximum: nat) -> bool {
    text.len() <= maximum && exists|i: int|
        0 <= i < text.len() && !is_white_space(#[trigger] text[i])
}

/// A judgment is valid exactly if its level is one of five, no score is over a
/// hundred, every text shows something within its limit, the line has no break,
/// and it suggests one to five tools whose names fit.
pub proof fn law_what_a_valid_judgment_is(j: JudgmentView)
    ensures
        judgment_fault(j) is None <==> {
            &&& 1 <= j.severity <= 5
            &&& j.award_scores.most_cursed <= 100
            &&& j.award_scores.most_relatable <= 100
            &&& j.award_scores.most_needlessly_rewritten <= 100
            &&& shown_within(j.display_confession, 180)
            &&& shown_within(j.judgment, 280)
            &&& shown_within(j.prescription, 280)
            &&& shown_within(j.sentence, 280)
            &&& shown_within(j.penance, 280)
            &&& shown_within(j.penance_line, 48)
            &&& forall|i: int|
                0 <= i < j.penance_line.len() ==> #[trigger] j.penance_line[i] != '\n'
                    && j.penance_line[i] != '\r'
            &&& 1 <= j.suggested_tools.len() <= 5
            &&& forall|i: int|
                0 <= i < j.suggested_tools.len() ==> shown_within(
                    #[trigger] j.suggested_tools[i],
                    64,
                )
        },
{
    assert forall|i: int| 0 <= i < j.suggested_tools.len() implies tool_fits(
        #[trigger] j.suggested_tools[i],
    ) == shown_within(j.suggested_tools[i], 64) by {}
}

/// A fault that is reported is one that the judgment has.
pub proof fn law_a_reported_fault_is_there(j: JudgmentView)
    ensures
        match judgment_fault(j) {
            None => true,
            Some(JudgmentError::Severity) => j.severity < 1 || j.severity > 5,
            Some(JudgmentError::MostCursed) => j.award_scores.most_cursed > 100,
            Some(JudgmentError::MostRelatable) => j.award_scores.most_relatable > 100,
            Some(JudgmentError::MostNeedlesslyRewritten) => j.award_scores.most_needlessly_rewritten
                > 100,
            Some(JudgmentError::DisplayConfessionEmpty) => blank(j.display_confession),
            Some(JudgmentError::DisplayConfessionTooLong) => j.display_confession.len() > 180,
            Some(JudgmentError::JudgmentEmpty) => blank(j.judgment),
            Some(JudgmentError::JudgmentTooLong) => j.judgment.len() > 280,
            Some(JudgmentError::PrescriptionEmpty) => blank(j.prescription),
            Some(JudgmentError::PrescriptionTooLong) => j.prescription.len() > 280,
            Some(JudgmentError::SentenceEmpty) => blank(j.sentence),
            Some(JudgmentError::SentenceTooLong) => j.sentence.len() > 280,
            Some(JudgmentError::PenanceEmpty) => blank(j.penance),
            Some(JudgmentError::PenanceTooLong) => j.penance.len() > 280,
            Some(JudgmentError::PenanceLineEmpty) => blank(j.penance_line),
            Some(JudgmentError::PenanceLineTooLong) => j.penance_line.len() > 48,
            Some(JudgmentError::PenanceLineNotSingle) => exists|i: int|
                0 <= i < j.penance_line.len() && (#[trigger] j.penance_line[i] == '\n'
                    || j.penance_line[i] == '\r'),
            Some(JudgmentError::ToolCount) => j.suggested_tools.len() < 1 || j.suggested_tools.len()
                > 5,
            Some(JudgmentError::ToolInvalid) => exists|i: int|
                0 <= i < j.suggested_tools.len() && !tool_fits(#[trigger] j.suggested_tools[i]),
        },
{
}

/// A trace names each step, in the order of the steps.
pub proof fn law_a_trace_names_each_step(steps: Seq<AgentStepView>, i: int)
    requires
        0 <= i < steps.len(),
    ensures
        step_labels(steps).len() == steps.len(),
        step_labels(steps)[i] == match steps[i] {
            AgentStepView::Lookup { skill: Skill::RemedyLookup, .. } =>
                "Looked up an approved remedy"@,
            AgentStepView::Lookup { skill: Skill::DocLookup, .. } => "Consulted the docs"@,
            AgentStepView::Lookup { skill: Skill::SelfCritique, .. } => "Self-critiqued the draft"@,
            AgentStepView::Compose => "Composed a draft"@,
            AgentStepView::Revise { .. } => "Revised the draft"@,
            AgentStepView::Finish => "Finished"@,
        },
{
}

/// A new row is that of its confession, and nothing is judged in it yet.
pub proof fn law_a_new_row_is_of_its_confession(input: SubmissionView, workflow_id: Seq<char>)
    ensures
        ({
            let row = received_row(input, workflow_id);
            &&& row.id == input.id
            &&& row.session_id == input.session_id
            &&& row.created_at == input.created_at
            &&& row.workflow_id == workflow_id
            &&& row.status == SubmissionStatus::Received
            &&& row.judgment is None && row.category is None && row.severity is None
            &&& row.prescription is None && row.sentence is None && row.penance is None
            &&& row.penance_line is None && row.penance_reps is None && row.award_scores is None
            &&& row.error is None && row.agent_steps.len() == 0
        }),
{
}

} // verus!
