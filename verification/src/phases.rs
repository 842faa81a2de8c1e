//! The life of one confession: it moves through its phases one Activity at a
//! time. The per-confession Workflow and the aggregate session Workflow drive
//! the same phases.
use vstd::prelude::*;

use crate::activities::{
    failed_update, failure_update, plain_update, stage_update, trace_update, traced_update,
    Activity, ActivityResult, ActivityView, ComposeInput, ComposeView, DecideInput, DecideView,
    DeliveryInput, LookupInput, ResultView, SkillInput, SkillView,
};
use crate::domain::{
    clone_findings, clone_judgment, finding_views, remedy_of, step_views, AgentMode, AgentPlan,
    AgentStep, AgentStepView, Category, ConfessionView, Finding, FindingView, PlanView, Remedy,
    RemedyView, SessionConfession, Skill, SubmissionStatus,
};
use crate::text::{parts, split, texts};

verus! {

// ---------------------------------------------------------------------------
// The approved remedy among the findings
// ---------------------------------------------------------------------------
/// The first finding of a skill.
pub open spec fn first_of(findings: Seq<FindingView>, skill: Skill) -> Option<FindingView>
    decreases findings.len(),
{
    if findings.len() == 0 {
        None
    } else if findings[0].skill == skill {
        Some(findings[0])
    } else {
        first_of(findings.drop_first(), skill)
    }
}

/// The parts that hold anything.
pub open spec fn nonempty_parts(list: Seq<Seq<char>>) -> Seq<Seq<char>> {
    list.filter(|part: Seq<char>| part.len() > 0)
}

/// The remedy that a remedy finding carries: its summary is the guidance, and
/// its detail lists the tools.
pub open spec fn remedy_from(finding: FindingView, category: Category) -> RemedyView {
    RemedyView {
        category,
        guidance: finding.summary,
        suggested_tools: nonempty_parts(parts(finding.detail, ", "@)),
    }
}

/// The approved remedy among the findings, if the loop gathered one.
pub open spec fn approved_remedy(
    findings: Seq<FindingView>,
    category: Category,
) -> Option<RemedyView> {
    match first_of(findings, Skill::RemedyLookup) {
        Some(finding) => Some(remedy_from(finding, category)),
        None => None,
    }
}

proof fn lemma_nonempty_push(list: Seq<Seq<char>>, part: Seq<char>)
    ensures
        nonempty_parts(list.push(part)) == if part.len() > 0 {
            nonempty_parts(list).push(part)
        } else {
            nonempty_parts(list)
        },
{
    reveal(Seq::filter);
    assert(list.push(part).drop_last() =~= list);
}

fn tools_in(detail: &str) -> (res: Vec<String>)
    ensures
        texts(res@) == nonempty_parts(parts(detail@, ", "@)),
{
    proof {
        reveal_strlit(", ");
    }
    let pieces = split(detail, ", ");
    let mut out: Vec<String> = Vec::new();
    let mut i: usize = 0;
    assert(texts(out@) =~= nonempty_parts(texts(pieces@).take(0))) by {
        reveal(Seq::filter);
    }
    while i < pieces.len()
        invariant
            i <= pieces@.len(),
            texts(out@) == nonempty_parts(texts(pieces@).take(i as int)),
        decreases pieces@.len() - i,
    {
        let ghost before = out@;
        proof {
            lemma_nonempty_push(texts(pieces@).take(i as int), pieces@[i as int]@);
            assert(texts(pieces@).take(i + 1) =~= texts(pieces@).take(i as int).push(
                pieces@[i as int]@,
            ));
        }
        if !pieces[i].as_str().is_empty() {
            let piece = pieces[i].clone();
            out.push(piece);
            assert(texts(out@) =~= texts(before).push(piece@));
        }
        i += 1;
    }
    assert(texts(pieces@).take(i as int) =~= texts(pieces@));
    out
}

/// Rebuild the approved `Remedy` from the first `RemedyLookup` finding, if the
/// loop gathered one; otherwise the compose step runs without one.
pub fn first_remedy(findings: &[Finding], category: Category) -> (res: Option<Remedy>)
    ensures
        remedy_of(res) == approved_remedy(finding_views(findings@), category),
{
    let mut i: usize = 0;
    let ghost views = finding_views(findings@);
    assert(views.skip(0) =~= views);
    while i < findings.len()
        invariant
            i <= findings@.len(),
            views == finding_views(findings@),
            first_of(views, Skill::RemedyLookup) == first_of(
                views.skip(i as int),
                Skill::RemedyLookup,
            ),
        decreases findings@.len() - i,
    {
        assert(views.skip(i as int)[0] == findings@[i as int]@);
        if findings[i].skill == Skill::RemedyLookup {
            let finding = &findings[i];
            return Some(
                Remedy {
                    category,
                    guidance: finding.summary.clone(),
                    suggested_tools: tools_in(finding.detail.as_str()),
                },
            );
        }
        assert(views.skip(i as int).drop_first() =~= views.skip(i + 1));
        i += 1;
    }
    None
}

/// A revision is among the steps.
pub open spec fn has_revised(steps: Seq<AgentStepView>) -> bool {
    exists|i: int| 0 <= i < steps.len() && (#[trigger] steps[i]) is Revise
}

fn revised(steps: &Vec<AgentStep>) -> (res: bool)
    ensures
        res == has_revised(step_views(steps@)),
{
    let mut i: usize = 0;
    while i < steps.len()
        invariant
            i <= steps@.len(),
            forall|k: int| 0 <= k < i ==> !((#[trigger] step_views(steps@)[k]) is Revise),
        decreases steps@.len() - i,
    {
        if let AgentStep::Revise { .. } = &steps[i] {
            assert(step_views(steps@)[i as int] is Revise);
            return true;
        }
        i += 1;
    }
    false
}

// ---------------------------------------------------------------------------
// Phases of one confession
// ---------------------------------------------------------------------------
/// Where one confession stands between two Activities.
#[derive(Debug, PartialEq, Eq)]
pub enum Phase {
    /// Not started.
    Received,
    ReportingJudging,
    Planning,
    ReportingLookup,
    LookingUp,
    Deciding { iteration: u8 },
    ReportingSkill { skill: Skill, iteration: u8 },
    RunningSkill { iteration: u8 },
    /// A draft is due; the loop goes on at turn `next`.
    ReportingCompose { remedy: Option<Remedy>, next: u8 },
    Composing { next: u8 },
    ReportingPending,
    /// The judgment is there and waits for its release.
    Parked,
    ReportingSending,
    Delivering,
    ReportingSent,
    ReportingFailure,
    /// Sent or failed, and reported.
    Ended,
}

#[verifier::ext_equal]
pub enum PhaseView {
    Received,
    ReportingJudging,
    Planning,
    ReportingLookup,
    LookingUp,
    Deciding { iteration: u8 },
    ReportingSkill { skill: Skill, iteration: u8 },
    RunningSkill { iteration: u8 },
    ReportingCompose { remedy: Option<RemedyView>, next: u8 },
    Composing { next: u8 },
    ReportingPending,
    Parked,
    ReportingSending,
    Delivering,
    ReportingSent,
    ReportingFailure,
    Ended,
}

impl View for Phase {
    type V = PhaseView;

    open spec fn view(&self) -> PhaseView {
        match self {
            Phase::Received => PhaseView::Received,
            Phase::ReportingJudging => PhaseView::ReportingJudging,
            Phase::Planning => PhaseView::Planning,
            Phase::ReportingLookup => PhaseView::ReportingLookup,
            Phase::LookingUp => PhaseView::LookingUp,
            Phase::Deciding { iteration } => PhaseView::Deciding { iteration: *iteration },
            Phase::ReportingSkill { skill, iteration } => PhaseView::ReportingSkill {
                skill: *skill,
                iteration: *iteration,
            },
            Phase::RunningSkill { iteration } => PhaseView::RunningSkill { iteration: *iteration },
            Phase::ReportingCompose { remedy, next } => PhaseView::ReportingCompose {
                remedy: remedy_of(*remedy),
                next: *next,
            },
            Phase::Composing { next } => PhaseView::Composing { next: *next },
            Phase::ReportingPending => PhaseView::ReportingPending,
            Phase::Parked => PhaseView::Parked,
            Phase::ReportingSending => PhaseView::ReportingSending,
            Phase::Delivering => PhaseView::Delivering,
            Phase::ReportingSent => PhaseView::ReportingSent,
            Phase::ReportingFailure => PhaseView::ReportingFailure,
            Phase::Ended => PhaseView::Ended,
        }
    }
}

/// What one confession asks for next.
#[derive(Debug, PartialEq, Eq)]
pub enum Progress {
    Run(Activity),
    /// The judgment is there and waits for its release.
    Parked,
    Delivered,
    Failed,
}

#[verifier::ext_equal]
pub enum ProgressView {
    Run(ActivityView),
    Parked,
    Delivered,
    Failed,
}

impl View for Progress {
    type V = ProgressView;

    open spec fn view(&self) -> ProgressView {
        match self {
            Progress::Run(activity) => ProgressView::Run(activity@),
            Progress::Parked => ProgressView::Parked,
            Progress::Delivered => ProgressView::Delivered,
            Progress::Failed => ProgressView::Failed,
        }
    }
}

/// A confession, its phase and what it asks for next.
#[verifier::ext_equal]
pub struct Move {
    pub item: ConfessionView,
    pub phase: PhaseView,
    pub progress: ProgressView,
}

/// The phase waits for a report to the stage to be over.
pub open spec fn reporting(phase: PhaseView) -> bool {
    match phase {
        PhaseView::ReportingJudging => true,
        PhaseView::ReportingLookup => true,
        PhaseView::ReportingSkill { .. } => true,
        PhaseView::ReportingCompose { .. } => true,
        PhaseView::ReportingPending => true,
        PhaseView::ReportingSending => true,
        PhaseView::ReportingSent => true,
        PhaseView::ReportingFailure => true,
        _ => false,
    }
}

/// The phase waits for an Activity.
pub open spec fn running(phase: PhaseView) -> bool {
    !(phase is Received || phase is Parked || phase is Ended)
}

/// `result` can come back from the Activity that the phase waits for.
pub open spec fn fits(phase: PhaseView, result: ResultView) -> bool {
    if reporting(phase) {
        result is Reported || result is Failed
    } else {
        match phase {
            PhaseView::Planning => result is Planned || result is Failed,
            PhaseView::LookingUp => result is Remedied || result is Failed,
            PhaseView::Deciding { .. } => result is Decided || result is Failed,
            PhaseView::RunningSkill { .. } => result is Researched || result is Failed,
            PhaseView::Composing { .. } => result is Composed || result is Failed,
            PhaseView::Delivering => result is Delivered || result is Failed,
            _ => false,
        }
    }
}

/// The turns of the loop that are over in a phase.
pub open spec fn turns_taken(phase: PhaseView, cap: u8) -> int {
    match phase {
        PhaseView::Received => 0,
        PhaseView::ReportingJudging => 0,
        PhaseView::Planning => 0,
        PhaseView::ReportingLookup => 0,
        PhaseView::LookingUp => 0,
        PhaseView::Deciding { iteration } => iteration as int,
        PhaseView::ReportingSkill { iteration, .. } => iteration + 1,
        PhaseView::RunningSkill { iteration } => iteration + 1,
        PhaseView::ReportingCompose { next, .. } => next as int,
        PhaseView::Composing { next } => next as int,
        _ => cap as int,
    }
}

/// Planning is over in a phase.
pub open spec fn planned(phase: PhaseView) -> bool {
    match phase {
        PhaseView::ReportingLookup => true,
        PhaseView::LookingUp => true,
        PhaseView::Deciding { .. } => true,
        PhaseView::ReportingSkill { .. } => true,
        PhaseView::RunningSkill { .. } => true,
        PhaseView::ReportingCompose { .. } => true,
        PhaseView::Composing { .. } => true,
        PhaseView::ReportingPending => true,
        PhaseView::Parked => true,
        PhaseView::ReportingSending => true,
        PhaseView::Delivering => true,
        PhaseView::ReportingSent => true,
        _ => false,
    }
}

/// The judgment is final in a phase.
pub open spec fn judged(phase: PhaseView) -> bool {
    match phase {
        PhaseView::ReportingPending => true,
        PhaseView::Parked => true,
        PhaseView::ReportingSending => true,
        PhaseView::Delivering => true,
        PhaseView::ReportingSent => true,
        _ => false,
    }
}

/// The status that a confession shows in a phase.
pub open spec fn status_fits(status: SubmissionStatus, phase: PhaseView) -> bool {
    match phase {
        PhaseView::Received => status == SubmissionStatus::Received,
        PhaseView::ReportingJudging => status == SubmissionStatus::Judging,
        PhaseView::Planning => status == SubmissionStatus::Judging,
        PhaseView::ReportingLookup => status == SubmissionStatus::Researching,
        PhaseView::LookingUp => status == SubmissionStatus::Researching,
        PhaseView::Deciding { .. } => status == SubmissionStatus::Judging || status
            == SubmissionStatus::Researching || status == SubmissionStatus::Composing,
        PhaseView::ReportingSkill { .. } => status == SubmissionStatus::Researching,
        PhaseView::RunningSkill { .. } => status == SubmissionStatus::Researching,
        PhaseView::ReportingCompose { .. } => status == SubmissionStatus::Composing,
        PhaseView::Composing { .. } => status == SubmissionStatus::Composing,
        PhaseView::ReportingPending => status == SubmissionStatus::ReplyPending,
        PhaseView::Parked => status == SubmissionStatus::ReplyPending,
        PhaseView::ReportingSending => status == SubmissionStatus::Sending,
        PhaseView::Delivering => status == SubmissionStatus::Sending,
        PhaseView::ReportingSent => status == SubmissionStatus::Sent,
        PhaseView::ReportingFailure => status == SubmissionStatus::Failed,
        PhaseView::Ended => status == SubmissionStatus::Sent || status
            == SubmissionStatus::Failed,
    }
}

/// What every confession keeps: a plan once planning is over, a judgment once
/// it is final, the status of its phase, and no more steps than the cap.
pub open spec fn confession_wf(item: ConfessionView, phase: PhaseView, cap: u8) -> bool {
    &&& planned(phase) ==> item.plan is Some
    &&& judged(phase) ==> item.judgment is Some
    &&& phase matches PhaseView::Deciding { iteration } ==> iteration < cap
    &&& status_fits(item.status, phase)
    &&& (item.status == SubmissionStatus::Judging ==> item.judgment is None)
    &&& (item.status == SubmissionStatus::Received ==> item.judgment is None)
    &&& (item.status == SubmissionStatus::Sent ==> item.judgment is Some)
    &&& item.steps.len() <= turns_taken(phase, cap) <= cap
}

// ---------------------------------------------------------------------------
// Moves
// ---------------------------------------------------------------------------
/// Judging starts.
pub open spec fn begin(item: ConfessionView) -> Move {
    Move {
        item: ConfessionView { status: SubmissionStatus::Judging, ..item },
        phase: PhaseView::ReportingJudging,
        progress: ProgressView::Run(
            ActivityView::ReportStage(
                plain_update(item.submission, SubmissionStatus::Judging, None),
            ),
        ),
    }
}

/// The confession has failed.
pub open spec fn fail(item: ConfessionView) -> Move {
    Move {
        item: ConfessionView { status: SubmissionStatus::Failed, ..item },
        phase: PhaseView::ReportingFailure,
        progress: ProgressView::Run(ActivityView::ReportStage(failed_update(item.submission))),
    }
}

/// A draft is due.
pub open spec fn draft(item: ConfessionView, remedy: Option<RemedyView>, next: u8) -> Move {
    Move {
        item: ConfessionView { status: SubmissionStatus::Composing, ..item },
        phase: PhaseView::ReportingCompose { remedy, next },
        progress: ProgressView::Run(
            ActivityView::ReportStage(
                traced_update(item.submission, SubmissionStatus::Composing, item.steps),
            ),
        ),
    }
}

/// Turn `turn` of the loop: the backend decides while turns are left; then the
/// judgment is final, and is composed now if there is none yet.
pub open spec fn take_turn(item: ConfessionView, turn: u8, cap: u8) -> Move {
    if turn < cap {
        Move {
            item,
            phase: PhaseView::Deciding { iteration: turn },
            progress: ProgressView::Run(
                ActivityView::DecideNextStep(
                    DecideView {
                        text: item.submission.text,
                        category: item.plan->0.category,
                        findings: item.findings,
                        has_draft: item.judgment is Some,
                        revised: has_revised(item.steps),
                        iteration: turn,
                    },
                ),
            ),
        }
    } else if item.judgment is Some {
        Move {
            item: ConfessionView { status: SubmissionStatus::ReplyPending, ..item },
            phase: PhaseView::ReportingPending,
            progress: ProgressView::Run(
                ActivityView::ReportStage(
                    plain_update(item.submission, SubmissionStatus::ReplyPending, item.judgment),
                ),
            ),
        }
    } else {
        draft(item, approved_remedy(item.findings, item.plan->0.category), cap)
    }
}

/// The plan is there.
pub open spec fn on_plan(item: ConfessionView, plan: PlanView, cap: u8) -> Move {
    let item = ConfessionView { plan: Some(plan), ..item };
    match item.submission.agent_mode {
        AgentMode::Linear => if plan.needs_lookup {
            Move {
                item: ConfessionView { status: SubmissionStatus::Researching, ..item },
                phase: PhaseView::ReportingLookup,
                progress: ProgressView::Run(
                    ActivityView::ReportStage(
                        traced_update(item.submission, SubmissionStatus::Researching, item.steps),
                    ),
                ),
            }
        } else {
            draft(item, None, cap)
        },
        AgentMode::Autonomous => take_turn(item, 0, cap),
    }
}

/// The backend has decided on a step.
pub open spec fn on_step(
    item: ConfessionView,
    step: AgentStepView,
    iteration: u8,
    cap: u8,
) -> Move {
    let item = ConfessionView { steps: item.steps.push(step), ..item };
    match step {
        AgentStepView::Lookup { skill, .. } => Move {
            item: ConfessionView { status: SubmissionStatus::Researching, ..item },
            phase: PhaseView::ReportingSkill { skill, iteration },
            progress: ProgressView::Run(
                ActivityView::ReportStage(
                    traced_update(item.submission, SubmissionStatus::Researching, item.steps),
                ),
            ),
        },
        AgentStepView::Finish => take_turn(item, cap, cap),
        _ => draft(
            item,
            approved_remedy(item.findings, item.plan->0.category),
            (iteration + 1) as u8,
        ),
    }
}

/// The judgment goes out.
pub open spec fn begin_delivery(item: ConfessionView) -> Move {
    Move {
        item: ConfessionView { status: SubmissionStatus::Sending, ..item },
        phase: PhaseView::ReportingSending,
        progress: ProgressView::Run(
            ActivityView::ReportStage(
                plain_update(item.submission, SubmissionStatus::Sending, item.judgment),
            ),
        ),
    }
}

/// What follows once the Activity that a phase waits for is over.
pub open spec fn next_move(
    item: ConfessionView,
    phase: PhaseView,
    cap: u8,
    result: ResultView,
) -> Move {
    match phase {
        PhaseView::ReportingJudging => Move {
            item,
            phase: PhaseView::Planning,
            progress: ProgressView::Run(ActivityView::Plan(item.submission)),
        },
        PhaseView::Planning => match result {
            ResultView::Planned(plan) => on_plan(item, plan, cap),
            _ => fail(item),
        },
        PhaseView::ReportingLookup => Move {
            item,
            phase: PhaseView::LookingUp,
            progress: ProgressView::Run(ActivityView::LookupRemedy(item.plan->0)),
        },
        PhaseView::LookingUp => match result {
            ResultView::Remedied(remedy) => draft(item, Some(remedy), cap),
            _ => fail(item),
        },
        PhaseView::Deciding { iteration } => match result {
            ResultView::Decided(step) => on_step(item, step, iteration, cap),
            _ => fail(item),
        },
        PhaseView::ReportingSkill { skill, iteration } => Move {
            item,
            phase: PhaseView::RunningSkill { iteration },
            progress: ProgressView::Run(
                ActivityView::RunSkill(
                    SkillView {
                        skill,
                        text: item.submission.text,
                        category: item.plan->0.category,
                        findings: item.findings,
                        has_draft: item.judgment is Some,
                        revised: has_revised(item.steps),
                        iteration,
                    },
                ),
            ),
        },
        PhaseView::RunningSkill { iteration } => match result {
            ResultView::Researched(finding) => take_turn(
                ConfessionView { findings: item.findings.push(finding), ..item },
                (iteration + 1) as u8,
                cap,
            ),
            _ => fail(item),
        },
        PhaseView::ReportingCompose { remedy, next } => Move {
            item,
            phase: PhaseView::Composing { next },
            progress: ProgressView::Run(
                ActivityView::Compose(
                    ComposeView {
                        submission: item.submission,
                        plan: item.plan->0,
                        remedy,
                        findings: item.findings,
                    },
                ),
            ),
        },
        PhaseView::Composing { next } => match result {
            ResultView::Composed(judgment) => take_turn(
                ConfessionView { judgment: Some(judgment), ..item },
                next,
                cap,
            ),
            _ => fail(item),
        },
        PhaseView::ReportingPending => Move {
            item,
            phase: PhaseView::Parked,
            progress: ProgressView::Parked,
        },
        PhaseView::ReportingSending => Move {
            item,
            phase: PhaseView::Delivering,
            progress: ProgressView::Run(ActivityView::Deliver(item.submission.id)),
        },
        PhaseView::Delivering => match result {
            ResultView::Delivered { .. } => Move {
                item: ConfessionView { status: SubmissionStatus::Sent, ..item },
                phase: PhaseView::ReportingSent,
                progress: ProgressView::Run(
                    ActivityView::ReportStage(
                        plain_update(item.submission, SubmissionStatus::Sent, item.judgment),
                    ),
                ),
            },
            _ => fail(item),
        },
        PhaseView::ReportingSent => Move {
            item,
            phase: PhaseView::Ended,
            progress: ProgressView::Delivered,
        },
        _ => Move { item, phase: PhaseView::Ended, progress: ProgressView::Failed },
    }
}

/// Sets Judging and reports it; the plan follows the report.
pub fn begin_confession(item: &mut SessionConfession) -> (res: (Phase, Progress))
    ensures
        (Move { item: final(item)@, phase: res.0@, progress: res.1@ }) == begin(old(item)@),
{
    item.status = SubmissionStatus::Judging;
    (
        Phase::ReportingJudging,
        Progress::Run(
            Activity::ReportStage(stage_update(&item.submission, SubmissionStatus::Judging, None)),
        ),
    )
}

fn fail_confession(item: &mut SessionConfession) -> (res: (Phase, Progress))
    ensures
        (Move { item: final(item)@, phase: res.0@, progress: res.1@ }) == fail(old(item)@),
{
    item.status = SubmissionStatus::Failed;
    (
        Phase::ReportingFailure,
        Progress::Run(Activity::ReportStage(failure_update(&item.submission))),
    )
}

/// Set Composing and report it; the draft follows the report.
fn compose_draft(
    item: &mut SessionConfession,
    remedy: Option<Remedy>,
    next: u8,
) -> (res: (Phase, Progress))
    ensures
        (Move { item: final(item)@, phase: res.0@, progress: res.1@ }) == draft(
            old(item)@,
            remedy_of(remedy),
            next,
        ),
{
    item.status = SubmissionStatus::Composing;
    (
        Phase::ReportingCompose { remedy, next },
        Progress::Run(
            Activity::ReportStage(
                trace_update(&item.submission, SubmissionStatus::Composing, &item.steps),
            ),
        ),
    )
}

fn turn_confession(item: &mut SessionConfession, turn: u8, cap: u8) -> (res: (Phase, Progress))
    requires
        old(item).plan is Some,
    ensures
        (Move { item: final(item)@, phase: res.0@, progress: res.1@ }) == take_turn(
            old(item)@,
            turn,
            cap,
        ),
{
    let category = item.plan.as_ref().unwrap().category;
    if turn < cap {
        let input = DecideInput {
            text: item.submission.text.clone(),
            category,
            findings: clone_findings(&item.findings),
            has_draft: item.judgment.is_some(),
            revised: revised(&item.steps),
            iteration: turn,
        };
        (Phase::Deciding { iteration: turn }, Progress::Run(Activity::DecideNextStep(input)))
    } else if item.judgment.is_some() {
        item.status = SubmissionStatus::ReplyPending;
        let judgment = clone_judgment(&item.judgment);
        (
            Phase::ReportingPending,
            Progress::Run(
                Activity::ReportStage(
                    stage_update(&item.submission, SubmissionStatus::ReplyPending, judgment),
                ),
            ),
        )
    } else {
        let remedy = first_remedy(&item.findings, category);
        compose_draft(item, remedy, cap)
    }
}

fn plan_confession(item: &mut SessionConfession, plan: AgentPlan, cap: u8) -> (res: (
    Phase,
    Progress,
))
    ensures
        (Move { item: final(item)@, phase: res.0@, progress: res.1@ }) == on_plan(
            old(item)@,
            plan@,
            cap,
        ),
{
    let needs_lookup = plan.needs_lookup;
    item.plan = Some(plan);
    match item.submission.agent_mode {
        AgentMode::Linear => {
            if needs_lookup {
                item.status = SubmissionStatus::Researching;
                (
                    Phase::ReportingLookup,
                    Progress::Run(
                        Activity::ReportStage(
                            trace_update(
                                &item.submission,
                                SubmissionStatus::Researching,
                                &item.steps,
                            ),
                        ),
                    ),
                )
            } else {
                compose_draft(item, None, cap)
            }
        },
        AgentMode::Autonomous => turn_confession(item, 0, cap),
    }
}

fn step_confession(
    item: &mut SessionConfession,
    step: AgentStep,
    iteration: u8,
    cap: u8,
) -> (res: (Phase, Progress))
    requires
        old(item).plan is Some,
        iteration < cap,
    ensures
        (Move { item: final(item)@, phase: res.0@, progress: res.1@ }) == on_step(
            old(item)@,
            step@,
            iteration,
            cap,
        ),
{
    let ghost before = step_views(item.steps@);
    let category = item.plan.as_ref().unwrap().category;
    let taken = step.clone();
    item.steps.push(taken);
    assert(step_views(item.steps@) =~= before.push(step@));
    match step {
        AgentStep::Lookup { skill, .. } => {
            item.status = SubmissionStatus::Researching;
            (
                Phase::ReportingSkill { skill, iteration },
                Progress::Run(
                    Activity::ReportStage(
                        trace_update(&item.submission, SubmissionStatus::Researching, &item.steps),
                    ),
                ),
            )
        },
        AgentStep::Finish => turn_confession(item, cap, cap),
        _ => {
            let remedy = first_remedy(&item.findings, category);
            compose_draft(item, remedy, iteration + 1)
        },
    }
}

/// Sets Sending and reports it; the delivery follows the report.
pub fn deliver_confession(item: &mut SessionConfession) -> (res: (Phase, Progress))
    ensures
        (Move { item: final(item)@, phase: res.0@, progress: res.1@ }) == begin_delivery(
            old(item)@,
        ),
{
    item.status = SubmissionStatus::Sending;
    let judgment = clone_judgment(&item.judgment);
    (
        Phase::ReportingSending,
        Progress::Run(
            Activity::ReportStage(
                stage_update(&item.submission, SubmissionStatus::Sending, judgment),
            ),
        ),
    )
}

/// Folds the result of the Activity that the phase waits for into the
/// confession, and says what follows.
#[verifier::rlimit(40)]
#[verifier::spinoff_prover]
pub fn advance(
    item: &mut SessionConfession,
    phase: Phase,
    cap: u8,
    result: ActivityResult,
) -> (res: (Phase, Progress))
    requires
        confession_wf(old(item)@, phase@, cap),
        fits(phase@, result@),
    ensures
        (Move { item: final(item)@, phase: res.0@, progress: res.1@ }) == next_move(
            old(item)@,
            phase@,
            cap,
            result@,
        ),
{
    match phase {
        Phase::ReportingJudging => (
            Phase::Planning,
            Progress::Run(Activity::Plan(item.submission.clone())),
        ),
        Phase::Planning => match result {
            ActivityResult::Planned(plan) => plan_confession(item, plan, cap),
            _ => fail_confession(item),
        },
        Phase::ReportingLookup => {
            let plan = item.plan.as_ref().unwrap().clone();
            (Phase::LookingUp, Progress::Run(Activity::LookupRemedy(LookupInput { plan })))
        },
        Phase::LookingUp => match result {
            ActivityResult::Remedied(remedy) => compose_draft(item, Some(remedy), cap),
            _ => fail_confession(item),
        },
        Phase::Deciding { iteration } => match result {
            ActivityResult::Decided(step) => step_confession(item, step, iteration, cap),
            _ => fail_confession(item),
        },
        Phase::ReportingSkill { skill, iteration } => {
            let input = SkillInput {
                skill,
                text: item.submission.text.clone(),
                category: item.plan.as_ref().unwrap().category,
                findings: clone_findings(&item.findings),
                has_draft: item.judgment.is_some(),
                revised: revised(&item.steps),
                iteration,
            };
            (Phase::RunningSkill { iteration }, Progress::Run(Activity::RunSkill(input)))
        },
        Phase::RunningSkill { iteration } => match result {
            ActivityResult::Researched(finding) => {
                let ghost before = finding_views(item.findings@);
                item.findings.push(finding);
                assert(finding_views(item.findings@) =~= before.push(finding@));
                turn_confession(item, iteration + 1, cap)
            },
            _ => fail_confession(item),
        },
        Phase::ReportingCompose { remedy, next } => {
            let input = ComposeInput {
                submission: item.submission.clone(),
                plan: item.plan.as_ref().unwrap().clone(),
                remedy,
                findings: clone_findings(&item.findings),
            };
            (Phase::Composing { next }, Progress::Run(Activity::Compose(input)))
        },
        Phase::Composing { next } => match result {
            ActivityResult::Composed(judgment) => {
                item.judgment = Some(judgment);
                turn_confession(item, next, cap)
            },
            _ => fail_confession(item),
        },
        Phase::ReportingPending => (Phase::Parked, Progress::Parked),
        Phase::ReportingSending => {
            let input = DeliveryInput { submission_id: item.submission.id.clone() };
            (Phase::Delivering, Progress::Run(Activity::Deliver(input)))
        },
        Phase::Delivering => match result {
            ActivityResult::Delivered(_) => {
                item.status = SubmissionStatus::Sent;
                let judgment = clone_judgment(&item.judgment);
                (
                    Phase::ReportingSent,
                    Progress::Run(
                        Activity::ReportStage(
                            stage_update(&item.submission, SubmissionStatus::Sent, judgment),
                        ),
                    ),
                )
            },
            _ => fail_confession(item),
        },
        Phase::ReportingSent => (Phase::Ended, Progress::Delivered),
        _ => (Phase::Ended, Progress::Failed),
    }
}

// ---------------------------------------------------------------------------
// What moves keep
// ---------------------------------------------------------------------------
/// A confession with its reply released.
pub open spec fn with_release(item: ConfessionView) -> ConfessionView {
    ConfessionView { released: true, ..item }
}

/// Every move keeps what a confession promises, leaves its submission and its
/// release alone, and only appends to its findings and steps.
pub proof fn lemma_next_move_keeps(
    item: ConfessionView,
    phase: PhaseView,
    cap: u8,
    result: ResultView,
)
    requires
        confession_wf(item, phase, cap),
        fits(phase, result),
    ensures
        confession_wf(
            next_move(item, phase, cap, result).item,
            next_move(item, phase, cap, result).phase,
            cap,
        ),
        next_move(item, phase, cap, result).item.submission == item.submission,
        next_move(item, phase, cap, result).item.released == item.released,
        item.steps.is_prefix_of(next_move(item, phase, cap, result).item.steps),
        item.findings.is_prefix_of(next_move(item, phase, cap, result).item.findings),
{
}

/// The dashboard is a projection: whether a report to it succeeds or fails
/// makes no difference to the confession.
pub proof fn law_reports_never_fail_a_confession(
    item: ConfessionView,
    phase: PhaseView,
    cap: u8,
)
    requires
        reporting(phase),
    ensures
        next_move(item, phase, cap, ResultView::Failed) == next_move(
            item,
            phase,
            cap,
            ResultView::Reported,
        ),
{
}

/// A release may arrive at any time: it makes no difference whether it comes
/// before or after the result of an Activity.
pub proof fn law_release_commutes_with_results(
    item: ConfessionView,
    phase: PhaseView,
    cap: u8,
    result: ResultView,
)
    ensures
        next_move(with_release(item), phase, cap, result) == (Move {
            item: with_release(next_move(item, phase, cap, result).item),
            ..next_move(item, phase, cap, result)
        }),
{
}

/// One status may follow another in the life of a confession.
pub open spec fn may_follow(from: SubmissionStatus, to: SubmissionStatus) -> bool {
    ||| from == to
    ||| match from {
        SubmissionStatus::Received => to == SubmissionStatus::Judging,
        SubmissionStatus::Judging => to == SubmissionStatus::Researching || to
            == SubmissionStatus::Composing || to == SubmissionStatus::Failed,
        SubmissionStatus::Researching => to == SubmissionStatus::Composing || to
            == SubmissionStatus::ReplyPending || to == SubmissionStatus::Failed,
        SubmissionStatus::Composing => to == SubmissionStatus::Researching || to
            == SubmissionStatus::ReplyPending || to == SubmissionStatus::Failed,
        SubmissionStatus::ReplyPending => to == SubmissionStatus::Sending,
        SubmissionStatus::Sending => to == SubmissionStatus::Sent || to
            == SubmissionStatus::Failed,
        SubmissionStatus::Sent => false,
        SubmissionStatus::Failed => false,
    }
}

/// A confession's status only moves along the life of a confession; sent and
/// failed are final.
pub proof fn law_status_follows_the_life_of_a_confession(
    item: ConfessionView,
    phase: PhaseView,
    cap: u8,
    result: ResultView,
)
    requires
        confession_wf(item, phase, cap),
        fits(phase, result),
    ensures
        may_follow(item.status, next_move(item, phase, cap, result).item.status),
{
}

/// An upper bound on the Activities that are left before a confession is parked
/// or ended.
pub open spec fn activities_left(phase: PhaseView, cap: u8) -> int {
    match phase {
        PhaseView::Received => 8 * cap + 27,
        PhaseView::ReportingJudging => 8 * cap + 26,
        PhaseView::Planning => 8 * cap + 25,
        PhaseView::ReportingLookup => 8 * cap + 24,
        PhaseView::LookingUp => 8 * cap + 23,
        PhaseView::Deciding { iteration } => 8 * (cap - iteration) + 20,
        PhaseView::ReportingSkill { iteration, .. } => 8 * (cap - iteration) + 19,
        PhaseView::RunningSkill { iteration } => 8 * (cap - iteration) + 18,
        PhaseView::ReportingCompose { next, .. } => 8 * (cap - next) + 22,
        PhaseView::Composing { next } => 8 * (cap - next) + 21,
        PhaseView::ReportingPending => 10,
        PhaseView::Parked => 9,
        PhaseView::ReportingSending => 8,
        PhaseView::Delivering => 7,
        PhaseView::ReportingSent => 6,
        PhaseView::ReportingFailure => 5,
        PhaseView::Ended => 0,
    }
}

/// `results` can come back, one after the other, to a confession in `phase`.
pub open spec fn can_happen(
    item: ConfessionView,
    phase: PhaseView,
    cap: u8,
    results: Seq<ResultView>,
) -> bool
    decreases results.len(),
{
    results.len() == 0 || {
        let m = next_move(item, phase, cap, results[0]);
        fits(phase, results[0]) && can_happen(m.item, m.phase, cap, results.drop_first())
    }
}

/// The loop cannot run forever: whatever the backend decides, a confession
/// takes a bounded number of Activities.
pub proof fn law_every_confession_terminates(
    item: ConfessionView,
    phase: PhaseView,
    cap: u8,
    results: Seq<ResultView>,
)
    requires
        confession_wf(item, phase, cap),
        can_happen(item, phase, cap, results),
    ensures
        results.len() <= activities_left(phase, cap),
    decreases results.len(),
{
    if results.len() > 0 {
        let m = next_move(item, phase, cap, results[0]);
        lemma_next_move_keeps(item, phase, cap, results[0]);
        assert(0 <= activities_left(m.phase, cap) < activities_left(phase, cap));
        law_every_confession_terminates(m.item, m.phase, cap, results.drop_first());
    }
}

} // verus!
