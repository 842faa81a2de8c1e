//! The side effects a Workflow asks for: what goes into each Activity, what
//! comes out of it, and the rules that decide its outcome.
use vstd::prelude::*;

use crate::domain::{
    finding_views, judgment_of, labels_of, remedy_of, step_labels, step_views, AgentPlan, AgentStep,
    AgentStepView, Category, Finding, FindingView, Judgment, JudgmentView, PlanView, Remedy,
    RemedyView, Skill, StageUpdate, StageUpdateView, SubmissionInput, SubmissionStatus,
    SubmissionView,
};
use crate::agent::{
    catalog_remedy, model_error_text, remedy_for, AgentLoopView, LoopView, ModelError,
};
use crate::http::{is_status, is_success, status_line, status_text, success};
use crate::openai::Backend;
use crate::text::{ascii_lowercase, contains, decimal, has, to_ascii_lowercase, to_decimal};

verus! {

// ---------------------------------------------------------------------------
// Inputs
// ---------------------------------------------------------------------------
#[derive(Debug, PartialEq, Eq)]
pub struct LookupInput {
    pub plan: AgentPlan,
}

#[derive(Debug, PartialEq, Eq)]
pub struct ComposeInput {
    pub submission: SubmissionInput,
    pub plan: AgentPlan,
    pub remedy: Option<Remedy>,
    /// What the autonomous loop has gathered; empty on the linear path.
    pub findings: Vec<Finding>,
}

#[derive(Debug, PartialEq, Eq)]
pub struct DecideInput {
    pub text: String,
    pub category: Category,
    pub findings: Vec<Finding>,
    pub has_draft: bool,
    pub revised: bool,
    pub iteration: u8,
}

#[derive(Debug, PartialEq, Eq)]
pub struct SkillInput {
    pub skill: Skill,
    pub text: String,
    pub category: Category,
    pub findings: Vec<Finding>,
    pub has_draft: bool,
    pub revised: bool,
    pub iteration: u8,
}

#[derive(Debug, PartialEq, Eq)]
pub struct DeliveryInput {
    pub submission_id: String,
}

#[derive(Debug, PartialEq, Eq)]
pub struct DeliveryReceipt {
    pub submission_id: String,
    pub channel: String,
}

#[verifier::ext_equal]
pub struct ComposeView {
    pub submission: SubmissionView,
    pub plan: PlanView,
    pub remedy: Option<RemedyView>,
    pub findings: Seq<FindingView>,
}

#[verifier::ext_equal]
pub struct DecideView {
    pub text: Seq<char>,
    pub category: Category,
    pub findings: Seq<FindingView>,
    pub has_draft: bool,
    pub revised: bool,
    pub iteration: u8,
}

#[verifier::ext_equal]
pub struct SkillView {
    pub skill: Skill,
    pub text: Seq<char>,
    pub category: Category,
    pub findings: Seq<FindingView>,
    pub has_draft: bool,
    pub revised: bool,
    pub iteration: u8,
}

impl View for ComposeInput {
    type V = ComposeView;

    open spec fn view(&self) -> ComposeView {
        ComposeView {
            submission: self.submission@,
            plan: self.plan@,
            remedy: remedy_of(self.remedy),
            findings: finding_views(self.findings@),
        }
    }
}

impl View for DecideInput {
    type V = DecideView;

    open spec fn view(&self) -> DecideView {
        DecideView {
            text: self.text@,
            category: self.category,
            findings: finding_views(self.findings@),
            has_draft: self.has_draft,
            revised: self.revised,
            iteration: self.iteration,
        }
    }
}

impl View for SkillInput {
    type V = SkillView;

    open spec fn view(&self) -> SkillView {
        SkillView {
            skill: self.skill,
            text: self.text@,
            category: self.category,
            findings: finding_views(self.findings@),
            has_draft: self.has_draft,
            revised: self.revised,
            iteration: self.iteration,
        }
    }
}

// ---------------------------------------------------------------------------
// Activities and their results
// ---------------------------------------------------------------------------
/// One Activity, with what it is given.
#[derive(Debug, PartialEq, Eq)]
pub enum Activity {
    ReportStage(StageUpdate),
    Plan(SubmissionInput),
    LookupRemedy(LookupInput),
    Compose(ComposeInput),
    DecideNextStep(DecideInput),
    RunSkill(SkillInput),
    Deliver(DeliveryInput),
}

/// What came back from an Activity once its attempts were over.
#[derive(Debug, PartialEq, Eq)]
pub enum ActivityResult {
    Reported,
    Planned(AgentPlan),
    Remedied(Remedy),
    Composed(Judgment),
    Decided(AgentStep),
    Researched(Finding),
    Delivered(DeliveryReceipt),
    Failed,
}

#[verifier::ext_equal]
pub enum ActivityView {
    ReportStage(StageUpdateView),
    Plan(SubmissionView),
    LookupRemedy(PlanView),
    Compose(ComposeView),
    DecideNextStep(DecideView),
    RunSkill(SkillView),
    Deliver(Seq<char>),
}

#[verifier::ext_equal]
pub enum ResultView {
    Reported,
    Planned(PlanView),
    Remedied(RemedyView),
    Composed(JudgmentView),
    Decided(AgentStepView),
    Researched(FindingView),
    Delivered { submission_id: Seq<char>, channel: Seq<char> },
    Failed,
}

impl View for Activity {
    type V = ActivityView;

    open spec fn view(&self) -> ActivityView {
        match self {
            Activity::ReportStage(update) => ActivityView::ReportStage(update@),
            Activity::Plan(submission) => ActivityView::Plan(submission@),
            Activity::LookupRemedy(input) => ActivityView::LookupRemedy(input.plan@),
            Activity::Compose(input) => ActivityView::Compose(input@),
            Activity::DecideNextStep(input) => ActivityView::DecideNextStep(input@),
            Activity::RunSkill(input) => ActivityView::RunSkill(input@),
            Activity::Deliver(input) => ActivityView::Deliver(input.submission_id@),
        }
    }
}

impl View for ActivityResult {
    type V = ResultView;

    open spec fn view(&self) -> ResultView {
        match self {
            ActivityResult::Reported => ResultView::Reported,
            ActivityResult::Planned(plan) => ResultView::Planned(plan@),
            ActivityResult::Remedied(remedy) => ResultView::Remedied(remedy@),
            ActivityResult::Composed(judgment) => ResultView::Composed(judgment@),
            ActivityResult::Decided(step) => ResultView::Decided(step@),
            ActivityResult::Researched(finding) => ResultView::Researched(finding@),
            ActivityResult::Delivered(receipt) => ResultView::Delivered {
                submission_id: receipt.submission_id@,
                channel: receipt.channel@,
            },
            ActivityResult::Failed => ResultView::Failed,
        }
    }
}

/// The timeouts, in seconds, and the attempts that an Activity is given.
#[derive(Debug, Clone, Copy, PartialEq, Eq, Structural)]
pub struct ActivityOptions {
    pub start_to_close: u64,
    pub schedule_to_close: u64,
    pub maximum_attempts: i32,
}

/// The options of each Activity. Delivery is at-least-once, so it gets a single
/// attempt.
pub open spec fn options_for(activity: ActivityView) -> ActivityOptions {
    match activity {
        ActivityView::ReportStage(_) => ActivityOptions {
            start_to_close: 5,
            schedule_to_close: 12,
            maximum_attempts: 2,
        },
        ActivityView::LookupRemedy(_) => ActivityOptions {
            start_to_close: 5,
            schedule_to_close: 15,
            maximum_attempts: 3,
        },
        ActivityView::Deliver(_) => ActivityOptions {
            start_to_close: 10,
            schedule_to_close: 30,
            maximum_attempts: 1,
        },
        _ => ActivityOptions {
            start_to_close: 20,
            schedule_to_close: 75,
            maximum_attempts: 3,
        },
    }
}

impl Activity {
    pub fn options(&self) -> (res: ActivityOptions)
        ensures
            res == options_for(self@),
    {
        match self {
            Activity::ReportStage(_) => ActivityOptions {
                start_to_close: 5,
                schedule_to_close: 12,
                maximum_attempts: 2,
            },
            Activity::LookupRemedy(_) => ActivityOptions {
                start_to_close: 5,
                schedule_to_close: 15,
                maximum_attempts: 3,
            },
            Activity::Deliver(_) => ActivityOptions {
                start_to_close: 10,
                schedule_to_close: 30,
                maximum_attempts: 1,
            },
            _ => ActivityOptions {
                start_to_close: 20,
                schedule_to_close: 75,
                maximum_attempts: 3,
            },
        }
    }
}

// ---------------------------------------------------------------------------
// Reports to the stage
// ---------------------------------------------------------------------------
/// A report of where a confession stands.
pub open spec fn plain_update(
    submission: SubmissionView,
    status: SubmissionStatus,
    judgment: Option<JudgmentView>,
) -> StageUpdateView {
    StageUpdateView {
        id: submission.id,
        session_id: submission.session_id,
        status,
        judgment,
        error: None,
        agent_steps: Seq::empty(),
    }
}

/// A report of where a confession stands, with the trace of its steps so far.
pub open spec fn traced_update(
    submission: SubmissionView,
    status: SubmissionStatus,
    steps: Seq<AgentStepView>,
) -> StageUpdateView {
    StageUpdateView {
        agent_steps: step_labels(steps),
        ..plain_update(submission, status, None)
    }
}

/// The report that a confession has failed.
pub open spec fn failed_update(submission: SubmissionView) -> StageUpdateView {
    StageUpdateView {
        error: Some("Agent step failed; inspect the Worker logs for details."@),
        ..plain_update(submission, SubmissionStatus::Failed, None)
    }
}

pub fn stage_update(
    submission: &SubmissionInput,
    status: SubmissionStatus,
    judgment: Option<Judgment>,
) -> (res: StageUpdate)
    ensures
        res@ == plain_update(submission@, status, judgment_of(judgment)),
{
    let res = StageUpdate {
        id: submission.id.clone(),
        session_id: submission.session_id.clone(),
        status,
        judgment,
        error: None,
        agent_steps: Vec::new(),
    };
    assert(res@ =~= plain_update(submission@, status, judgment_of(judgment)));
    res
}

/// A report that carries the labels of the steps taken so far.
pub fn trace_update(
    submission: &SubmissionInput,
    status: SubmissionStatus,
    steps: &Vec<AgentStep>,
) -> (res: StageUpdate)
    ensures
        res@ == traced_update(submission@, status, step_views(steps@)),
{
    let mut res = stage_update(submission, status, None);
    res.agent_steps = labels_of(steps);
    res
}

pub fn failure_update(submission: &SubmissionInput) -> (res: StageUpdate)
    ensures
        res@ == failed_update(submission@),
{
    let mut res = stage_update(submission, SubmissionStatus::Failed, None);
    res.error = Some("Agent step failed; inspect the Worker logs for details.".to_owned());
    res
}

// ---------------------------------------------------------------------------
// What each Activity decides
// ---------------------------------------------------------------------------
/// How an Activity fails: what it says, and whether another attempt may help.
#[derive(Debug, PartialEq, Eq)]
pub struct ActivityFailure {
    pub message: String,
    pub retryable: bool,
}

/// A confession that opts into a simulated transient model outage.
pub open spec fn mentions_rate_limit(text: Seq<char>) -> bool {
    let t = ascii_lowercase(text);
    has(t, "rate limit"@) || has(t, "rate-limit"@) || has(t, "ratelimit"@) || has(t, "429"@) || has(
        t,
        "too many requests"@,
    )
}

/// Stage-only trigger: confessions that mention rate limiting opt into a
/// simulated transient model outage, so that the retry-and-recover beat is
/// deterministic and needs no live, flaky API.
pub fn simulates_rate_limit(text: &str) -> (res: bool)
    ensures
        res == mentions_rate_limit(text@),
{
    let lowered = to_ascii_lowercase(text);
    let t = lowered.as_str();
    contains(t, "rate limit") || contains(t, "rate-limit") || contains(t, "ratelimit") || contains(
        t,
        "429",
    ) || contains(t, "too many requests")
}

/// An attempt to compose that is made to fail: one of the first two of a
/// confession that opts in.
pub open spec fn is_injected(text: Seq<char>, attempt: int) -> bool {
    mentions_rate_limit(text) && attempt <= 2
}

/// The failure that is injected into an attempt to compose, if one is.
pub fn injected_failure(text: &str, attempt: u32) -> (res: Option<ActivityFailure>)
    ensures
        match res {
            Some(failure) => is_injected(text@, attempt as int) && failure.retryable
                && failure.message@ == "simulated model rate limit (HTTP 429) on attempt "@
                + decimal(attempt as nat),
            None => !is_injected(text@, attempt as int),
        },
{
    if simulates_rate_limit(text) && attempt <= 2 {
        let mut message = "simulated model rate limit (HTTP 429) on attempt ".to_owned();
        let number = to_decimal(attempt as u64);
        message.append(number.as_str());
        Some(ActivityFailure { message, retryable: true })
    } else {
        None
    }
}

/// A model failure as the failure of an Activity.
pub fn model_error(error: &ModelError) -> (res: ActivityFailure)
    ensures
        res.message@ == model_error_text(error@),
        res.retryable == (error@ is Retryable),
{
    ActivityFailure { message: error.message(), retryable: error.is_retryable() }
}

impl DecideInput {
    /// The loop's state, as the backend sees it.
    pub fn loop_view(&self) -> (res: AgentLoopView<'_>)
        ensures
            res@ == (LoopView {
                text: self@.text,
                category: self@.category,
                findings: self@.findings,
                has_draft: self@.has_draft,
                revised: self@.revised,
                iteration: self@.iteration,
            }),
    {
        AgentLoopView {
            text: self.text.as_str(),
            category: self.category,
            findings: self.findings.as_slice(),
            has_draft: self.has_draft,
            revised: self.revised,
            iteration: self.iteration,
        }
    }
}

impl SkillInput {
    /// The loop's state, as the backend sees it.
    pub fn loop_view(&self) -> (res: AgentLoopView<'_>)
        ensures
            res@ == (LoopView {
                text: self@.text,
                category: self@.category,
                findings: self@.findings,
                has_draft: self@.has_draft,
                revised: self@.revised,
                iteration: self@.iteration,
            }),
    {
        AgentLoopView {
            text: self.text.as_str(),
            category: self.category,
            findings: self.findings.as_slice(),
            has_draft: self.has_draft,
            revised: self.revised,
            iteration: self.iteration,
        }
    }
}

// ---------------------------------------------------------------------------
// Reporting to the stage
// ---------------------------------------------------------------------------
/// Where the stage takes reports, and the token that it asks for.
pub struct StageReporter {
    pub base_url: String,
    pub token: String,
}

impl StageReporter {
    pub fn new(base_url: String, token: String) -> (res: Self)
        ensures
            res.base_url == base_url,
            res.token == token,
    {
        StageReporter { base_url, token }
    }

    /// Where an update goes.
    pub fn update_url(&self) -> (res: String)
        ensures
            res@ == self.base_url@ + "/update"@,
    {
        let mut out = self.base_url.clone();
        out.append("/update");
        out
    }

    /// Where a heartbeat goes.
    pub fn heartbeat_url(&self) -> (res: String)
        ensures
            res@ == self.base_url@ + "/worker-heartbeat"@,
    {
        let mut out = self.base_url.clone();
        out.append("/worker-heartbeat");
        out
    }

    /// What the stage's reply to an update amounts to.
    pub fn send_update(&self, status: u16) -> (res: Result<(), String>)
        requires
            is_status(status),
        ensures
            match res {
                Ok(_) => is_success(status),
                Err(message) => !is_success(status) && message@ == "stage update returned HTTP "@
                    + status_line(status),
            },
    {
        if success(status) {
            Ok(())
        } else {
            let mut message = "stage update returned HTTP ".to_owned();
            let line = status_text(status);
            message.append(line.as_str());
            Err(message)
        }
    }

    /// What the stage's reply to a heartbeat amounts to.
    pub fn heartbeat(&self, status: u16) -> (res: Result<(), String>)
        requires
            is_status(status),
        ensures
            match res {
                Ok(_) => is_success(status),
                Err(message) => !is_success(status) && message@
                    == "stage heartbeat returned HTTP "@ + status_line(status),
            },
    {
        if success(status) {
            Ok(())
        } else {
            let mut message = "stage heartbeat returned HTTP ".to_owned();
            let line = status_text(status);
            message.append(line.as_str());
            Err(message)
        }
    }
}

// ---------------------------------------------------------------------------
// The Worker's Activities
// ---------------------------------------------------------------------------
/// What the Worker's Activities work with: the backend that judges, and the
/// stage that they report to.
pub struct ConfessionalActivities {
    pub backend: Backend,
    pub reporter: StageReporter,
}

impl ConfessionalActivities {
    pub fn new(
        backend: Backend,
        stage_internal_url: String,
        stage_internal_token: String,
    ) -> (res: Self)
        ensures
            res.backend == backend,
            res.reporter.base_url == stage_internal_url,
            res.reporter.token == stage_internal_token,
    {
        ConfessionalActivities {
            backend,
            reporter: StageReporter::new(stage_internal_url, stage_internal_token),
        }
    }

    /// The model that the Worker runs.
    pub fn model_mode(&self) -> (res: &'static str)
        ensures
            res@ == match self.backend {
                Backend::Fixture(_) => "fixture"@,
                Backend::OpenAi(_) => "openai"@,
            },
    {
        match &self.backend {
            Backend::Fixture(backend) => backend.mode(),
            Backend::OpenAi(backend) => backend.mode(),
        }
    }

    /// Looks the plan's category up in the approved catalog. This is an Activity
    /// although the catalog is bundled, so that it can become an approved lookup
    /// without a change to the Workflow.
    pub fn lookup_remedy(&self, input: &LookupInput) -> (res: Remedy)
        ensures
            res@ == catalog_remedy(input.plan@.category),
    {
        remedy_for(input.plan.category)
    }

    /// The receipt of a delivery: the dashboard is the delivery channel.
    pub fn deliver(&self, input: DeliveryInput) -> (res: DeliveryReceipt)
        ensures
            res.submission_id@ == input.submission_id@,
            res.channel@ == "stage"@,
    {
        DeliveryReceipt { submission_id: input.submission_id, channel: "stage".to_owned() }
    }
}

/// A simulated outage fails twice and recovers on the third attempt, which is
/// the last that composing is allowed; no other confession is made to fail.
pub proof fn law_simulated_outage_recovers(input: ComposeView, attempt: int)
    requires
        1 <= attempt <= options_for(ActivityView::Compose(input)).maximum_attempts,
    ensures
        options_for(ActivityView::Compose(input)).maximum_attempts == 3,
        is_injected(input.submission.text, attempt) <==> mentions_rate_limit(input.submission.text)
            && attempt < 3,
{
}

/// Every Activity may be tried again within its time, but a delivery: a reply
/// must not go out twice.
pub proof fn law_only_deliveries_are_not_retried(activity: ActivityView)
    ensures
        options_for(activity).maximum_attempts == 1 <==> activity is Deliver,
        options_for(activity).start_to_close < options_for(activity).schedule_to_close,
        options_for(activity).start_to_close * options_for(activity).maximum_attempts
            <= options_for(activity).schedule_to_close,
{
}

} // verus!
