//! What the pipeline of a confession is for: which Activity is due when, what it
//! is given, and where its result goes.
use vstd::prelude::*;

use crate::activities::{ActivityView, ResultView};
use crate::board::{
    distinct_rows, law_a_report_is_shown_as_it_is, law_a_report_reaches_its_row, updated, BoardView,
};
use crate::domain::{
    fresh_confession, step_labels, AgentMode, AgentStepView, Category, ConfessionView, FindingView,
    JudgmentView, PlanView, RemedyView, Skill, StageUpdateView, SubmissionStatus, SubmissionView,
};
use crate::phases::{
    approved_remedy, begin, begin_delivery, confession_wf, first_of, fits, lemma_next_move_keeps,
    next_move, reporting, Move, PhaseView, ProgressView,
};
use crate::workflows::{
    can_be_recorded, confession_run, confession_state_wf, expected, first_waiting, idle, item_wf,
    law_every_history_keeps_its_promises, lemma_first_waiting, lemma_session_run_keeps, pick_work,
    replayed, session_expected, session_run, session_wf, take, ConfessionCommandView,
    ConfessionState, Recorded, SessionCommandView, SessionState, Work, WorkflowEventView,
    MAX_AGENT_STEPS, MAX_SESSION_AGENT_STEPS,
};

verus! {

// ---------------------------------------------------------------------------
// Where results go
// ---------------------------------------------------------------------------
/// What comes back from an Activity is kept, all of it and nothing else: a plan
/// becomes the plan, a finding and a step go to the end of theirs, and a judgment
/// becomes the judgment. The confession itself and its release stay.
pub proof fn law_results_are_kept(
    item: ConfessionView,
    phase: PhaseView,
    cap: u8,
    result: ResultView,
)
    requires
        fits(phase, result),
    ensures
        ({
            let after = next_move(item, phase, cap, result).item;
            &&& after.submission == item.submission
            &&& after.released == item.released
            &&& after.plan == match result {
                ResultView::Planned(plan) => Some(plan),
                _ => item.plan,
            }
            &&& after.findings == match result {
                ResultView::Researched(finding) => item.findings.push(finding),
                _ => item.findings,
            }
            &&& after.steps == match result {
                ResultView::Decided(step) => item.steps.push(step),
                _ => item.steps,
            }
            &&& after.judgment == match result {
                ResultView::Composed(judgment) => Some(judgment),
                _ => item.judgment,
            }
        }),
{
}

// ---------------------------------------------------------------------------
// What each Activity is given
// ---------------------------------------------------------------------------
/// A revision is among the first `n` steps.
pub open spec fn revised_within(steps: Seq<AgentStepView>, n: int) -> bool {
    exists|i: int| 0 <= i < n && (#[trigger] steps[i]) is Revise
}

/// A status whose report shows the judgment.
pub open spec fn shows_judgment(status: SubmissionStatus) -> bool {
    status == SubmissionStatus::ReplyPending || status == SubmissionStatus::Sending || status
        == SubmissionStatus::Sent
}

/// A report says where a confession stands: its identity and session, its
/// status, its judgment once that is final and no judgment before, an error
/// exactly where it has failed, and the steps so far while it is researched and
/// composed.
pub open spec fn report_is_true(item: ConfessionView, update: StageUpdateView) -> bool {
    &&& update.id == item.submission.id
    &&& update.session_id == item.submission.session_id
    &&& update.status == item.status
    &&& update.judgment == if shows_judgment(item.status) {
        item.judgment
    } else {
        None
    }
    &&& update.error is Some <==> item.status == SubmissionStatus::Failed
    &&& update.agent_steps == if item.status == SubmissionStatus::Researching || item.status
        == SubmissionStatus::Composing {
        step_labels(item.steps)
    } else {
        Seq::empty()
    }
}

/// An Activity is given what the confession holds.
pub open spec fn given_its_due(item: ConfessionView, activity: ActivityView) -> bool {
    match activity {
        ActivityView::ReportStage(update) => report_is_true(item, update),
        ActivityView::Plan(submission) => submission == item.submission,
        ActivityView::LookupRemedy(plan) => item.plan == Some(plan),
        ActivityView::DecideNextStep(input) => {
            &&& input.text == item.submission.text
            &&& item.plan matches Some(plan) && input.category == plan.category
            &&& input.findings == item.findings
            &&& input.has_draft == (item.judgment is Some)
            &&& input.revised == revised_within(item.steps, item.steps.len() as int)
        },
        ActivityView::RunSkill(input) => {
            &&& input.text == item.submission.text
            &&& item.plan matches Some(plan) && input.category == plan.category
            &&& input.findings == item.findings
            &&& input.has_draft == (item.judgment is Some)
            &&& input.revised == revised_within(item.steps, item.steps.len() as int)
        },
        ActivityView::Compose(input) => {
            &&& input.submission == item.submission
            &&& item.plan == Some(input.plan)
            &&& input.findings == item.findings
        },
        ActivityView::Deliver(id) => id == item.submission.id,
    }
}

/// Every Activity that a confession asks for is given what the confession holds
/// at that moment. So every report of a final judgment carries it, and no other
/// report carries one.
pub proof fn law_activities_are_given_their_due(
    item: ConfessionView,
    phase: PhaseView,
    cap: u8,
    result: ResultView,
)
    requires
        confession_wf(item, phase, cap),
        fits(phase, result),
    ensures
        next_move(item, phase, cap, result).progress matches ProgressView::Run(activity)
            ==> given_its_due(next_move(item, phase, cap, result).item, activity),
{
}

/// So are those that begin the work and begin the delivery: each reports its
/// status, and touches nothing else of the confession.
pub proof fn law_beginnings_are_given_their_due(item: ConfessionView)
    ensures
        begin(item).progress matches ProgressView::Run(activity) && given_its_due(
            begin(item).item,
            activity,
        ),
        begin_delivery(item).progress matches ProgressView::Run(activity) && given_its_due(
            begin_delivery(item).item,
            activity,
        ),
        begin(item).item == (ConfessionView { status: SubmissionStatus::Judging, ..item }),
        begin_delivery(item).item == (ConfessionView { status: SubmissionStatus::Sending, ..item }),
{
}

/// A failure is reported with these words, whatever has failed.
pub proof fn law_failures_are_reported_alike(
    item: ConfessionView,
    phase: PhaseView,
    cap: u8,
)
    requires
        fits(phase, ResultView::Failed),
        !reporting(phase),
    ensures
        ({
            let m = next_move(item, phase, cap, ResultView::Failed);
            &&& m.item == (ConfessionView { status: SubmissionStatus::Failed, ..item })
            &&& m.progress matches ProgressView::Run(ActivityView::ReportStage(update))
                && update.error == Some(
                "Agent step failed; inspect the Worker logs for details."@,
            )
            &&& next_move(m.item, m.phase, cap, ResultView::Reported).progress is Failed
        }),
{
}

/// What can come back from an Activity.
pub open spec fn answers(result: ResultView, activity: ActivityView) -> bool {
    result is Failed || match activity {
        ActivityView::ReportStage(_) => result is Reported,
        ActivityView::Plan(_) => result is Planned,
        ActivityView::LookupRemedy(_) => result is Remedied,
        ActivityView::DecideNextStep(_) => result is Decided,
        ActivityView::RunSkill(_) => result is Researched,
        ActivityView::Compose(_) => result is Composed,
        ActivityView::Deliver(_) => result is Delivered,
    }
}

/// A Workflow that has asked for an Activity takes every result that can come
/// back from it, and no other; nothing else wakes it meanwhile.
pub proof fn law_answers_are_expected(
    state: ConfessionState,
    event: WorkflowEventView,
    next: WorkflowEventView,
)
    requires
        confession_state_wf(state),
        expected(state.phase, event),
    ensures
        confession_run(state, event).1 matches ConfessionCommandView::Run(activity) ==> expected(
            confession_run(state, event).0.phase,
            next,
        ) == (next matches WorkflowEventView::Completed(result) && answers(result, activity)),
        confession_run(state, event).1 is AwaitRelease ==> expected(
            confession_run(state, event).0.phase,
            next,
        ) == (next is Woken),
{
    if let WorkflowEventView::Completed(result) = event {
        lemma_next_move_keeps(state.item, state.phase, MAX_AGENT_STEPS, result);
    }
}

// ---------------------------------------------------------------------------
// What follows what
// ---------------------------------------------------------------------------
/// A report of this status is due.
pub open spec fn reports(m: Move, status: SubmissionStatus) -> bool {
    &&& m.item.status == status
    &&& m.progress matches ProgressView::Run(ActivityView::ReportStage(update)) && update.status
        == status
}

/// What follows a move once its report is over, however the report went.
pub open spec fn after_report(m: Move, cap: u8, report: ResultView) -> Move {
    next_move(m.item, m.phase, cap, report)
}

/// A draft is composed next, with this remedy: first it is reported, then the
/// backend is asked.
pub open spec fn composes(m: Move, cap: u8, report: ResultView, remedy: Option<RemedyView>) -> bool {
    &&& reports(m, SubmissionStatus::Composing)
    &&& after_report(m, cap, report).progress matches ProgressView::Run(
        ActivityView::Compose(input),
    ) && input.remedy == remedy
}

/// The loop goes on with this turn: the backend decides while turns are left;
/// after that a draft is final, and where there is none it is composed.
pub open spec fn goes_on(m: Move, turn: int, cap: u8, report: ResultView) -> bool {
    if turn < cap {
        m.progress matches ProgressView::Run(ActivityView::DecideNextStep(input))
            && input.iteration == turn
    } else if m.item.judgment is Some {
        reports(m, SubmissionStatus::ReplyPending) && after_report(m, cap, report).progress
            is Parked
    } else {
        composes(m, cap, report, approved_remedy(m.item.findings, m.item.plan->0.category))
    }
}

/// The remedy that a lookup returns is the remedy that the judgment is composed
/// with.
pub proof fn law_the_looked_up_remedy_is_composed_with(
    item: ConfessionView,
    cap: u8,
    remedy: RemedyView,
    report: ResultView,
)
    requires
        report is Reported || report is Failed,
    ensures
        composes(
            next_move(item, PhaseView::LookingUp, cap, ResultView::Remedied(remedy)),
            cap,
            report,
            Some(remedy),
        ),
{
}

/// What follows a plan. A linear confession looks its plan up in the catalog, if
/// the plan asks for it, and else composes without a remedy; an autonomous one
/// begins its loop.
pub proof fn law_what_follows_a_plan(
    item: ConfessionView,
    cap: u8,
    plan: PlanView,
    report: ResultView,
)
    requires
        report is Reported || report is Failed,
    ensures
        ({
            let m = next_move(item, PhaseView::Planning, cap, ResultView::Planned(plan));
            match item.submission.agent_mode {
                AgentMode::Autonomous => goes_on(m, 0, cap, report),
                AgentMode::Linear => if plan.needs_lookup {
                    reports(m, SubmissionStatus::Researching) && after_report(m, cap, report).progress
                        == ProgressView::Run(ActivityView::LookupRemedy(plan))
                } else {
                    composes(m, cap, report, None)
                },
            }
        }),
{
}

/// What follows a step of the loop. A lookup is reported and its skill is run; a
/// draft or a revision is composed with the remedy that has been found; and
/// `Finish` ends the loop.
pub proof fn law_what_follows_a_step(
    item: ConfessionView,
    iteration: u8,
    cap: u8,
    step: AgentStepView,
    report: ResultView,
)
    requires
        item.plan is Some,
        iteration < cap,
        report is Reported || report is Failed,
    ensures
        ({
            let m = next_move(
                item,
                PhaseView::Deciding { iteration },
                cap,
                ResultView::Decided(step),
            );
            match step {
                AgentStepView::Lookup { skill, .. } => {
                    &&& reports(m, SubmissionStatus::Researching)
                    &&& after_report(m, cap, report).progress matches ProgressView::Run(
                        ActivityView::RunSkill(input),
                    ) && input.skill == skill && input.iteration == iteration
                },
                AgentStepView::Finish => goes_on(m, cap as int, cap, report),
                _ => composes(
                    m,
                    cap,
                    report,
                    approved_remedy(item.findings, item.plan->0.category),
                ),
            }
        }),
{
}

/// What follows a finding and a draft: the loop's next turn. A linear draft is
/// final.
pub proof fn law_what_follows_a_finding_or_a_draft(
    item: ConfessionView,
    turn: u8,
    cap: u8,
    finding: FindingView,
    judgment: JudgmentView,
    report: ResultView,
)
    requires
        item.plan is Some,
        turn < cap,
        report is Reported || report is Failed,
    ensures
        goes_on(
            next_move(
                item,
                PhaseView::RunningSkill { iteration: turn },
                cap,
                ResultView::Researched(finding),
            ),
            turn + 1,
            cap,
            report,
        ),
        forall|next: u8|
            goes_on(
                #[trigger] next_move(
                    item,
                    PhaseView::Composing { next },
                    cap,
                    ResultView::Composed(judgment),
                ),
                next as int,
                cap,
                report,
            ),
        ({
            let step = AgentStepView::Compose;
            let m = next_move(
                item,
                PhaseView::Deciding { iteration: turn },
                cap,
                ResultView::Decided(step),
            );
            after_report(m, cap, report).phase == (PhaseView::Composing { next: (turn + 1) as u8 })
        }),
        ({
            let m = next_move(
                item,
                PhaseView::LookingUp,
                cap,
                ResultView::Remedied(RemedyView {
                    category: item.plan->0.category,
                    guidance: finding.summary,
                    suggested_tools: Seq::empty(),
                }),
            );
            after_report(m, cap, report).phase == (PhaseView::Composing { next: cap })
        }),
{
}

/// A judgment that goes out is reported as sending, then handed to its channel,
/// then reported as sent; that is the end of it.
pub proof fn law_what_follows_a_release(
    item: ConfessionView,
    cap: u8,
    first: ResultView,
    second: ResultView,
    submission_id: Seq<char>,
    channel: Seq<char>,
)
    requires
        first is Reported || first is Failed,
        second is Reported || second is Failed,
    ensures
        ({
            let sending = begin_delivery(item);
            let delivering = after_report(sending, cap, first);
            let sent = next_move(
                delivering.item,
                delivering.phase,
                cap,
                ResultView::Delivered { submission_id, channel },
            );
            let ended = after_report(sent, cap, second);
            &&& reports(sending, SubmissionStatus::Sending)
            &&& delivering.progress == ProgressView::Run(ActivityView::Deliver(item.submission.id))
            &&& reports(sent, SubmissionStatus::Sent)
            &&& ended.progress is Delivered
            &&& ended.item == (ConfessionView { status: SubmissionStatus::Sent, ..item })
        }),
{
}

// ---------------------------------------------------------------------------
// Whole histories
// ---------------------------------------------------------------------------
/// A confession's Workflow as it is started.
pub open spec fn started_with(submission: SubmissionView) -> ConfessionState {
    ConfessionState { item: fresh_confession(submission), phase: PhaseView::Received }
}

/// The last plan in a history.
pub open spec fn plan_in(history: Seq<Recorded>) -> Option<PlanView>
    decreases history.len(),
{
    if history.len() == 0 {
        None
    } else {
        match history.last() {
            Recorded::Event(WorkflowEventView::Completed(ResultView::Planned(plan))) => Some(plan),
            _ => plan_in(history.drop_last()),
        }
    }
}

/// The last remedy that a lookup in a history returned.
pub open spec fn remedy_in(history: Seq<Recorded>) -> Option<RemedyView>
    decreases history.len(),
{
    if history.len() == 0 {
        None
    } else {
        match history.last() {
            Recorded::Event(WorkflowEventView::Completed(ResultView::Remedied(remedy))) => Some(
                remedy,
            ),
            _ => remedy_in(history.drop_last()),
        }
    }
}

/// The last judgment in a history.
pub open spec fn judgment_in(history: Seq<Recorded>) -> Option<JudgmentView>
    decreases history.len(),
{
    if history.len() == 0 {
        None
    } else {
        match history.last() {
            Recorded::Event(WorkflowEventView::Completed(ResultView::Composed(judgment))) => Some(
                judgment,
            ),
            _ => judgment_in(history.drop_last()),
        }
    }
}

/// The findings in a history, in their order.
pub open spec fn findings_in(history: Seq<Recorded>) -> Seq<FindingView>
    decreases history.len(),
{
    if history.len() == 0 {
        Seq::empty()
    } else {
        match history.last() {
            Recorded::Event(
                WorkflowEventView::Completed(ResultView::Researched(finding)),
            ) => findings_in(history.drop_last()).push(finding),
            _ => findings_in(history.drop_last()),
        }
    }
}

/// The steps that were decided in a history, in their order.
pub open spec fn steps_in(history: Seq<Recorded>) -> Seq<AgentStepView>
    decreases history.len(),
{
    if history.len() == 0 {
        Seq::empty()
    } else {
        match history.last() {
            Recorded::Event(WorkflowEventView::Completed(ResultView::Decided(step))) => steps_in(
                history.drop_last(),
            ).push(step),
            _ => steps_in(history.drop_last()),
        }
    }
}

/// A Workflow holds what its history recorded: the confession it was started
/// with, the last plan and the last judgment, every finding and every step in
/// order, and a release exactly where it was not held or has been released.
pub proof fn law_a_workflow_holds_what_was_recorded(
    submission: SubmissionView,
    history: Seq<Recorded>,
)
    requires
        can_be_recorded(started_with(submission), history),
    ensures
        ({
            let item = replayed(started_with(submission), history).item;
            &&& item.submission == submission
            &&& item.plan == plan_in(history)
            &&& item.findings == findings_in(history)
            &&& item.steps == steps_in(history)
            &&& item.judgment == judgment_in(history)
            &&& item.released == (!submission.hold_before_reply || history.contains(
                Recorded::Released,
            ))
        }),
    decreases history.len(),
{
    if history.len() > 0 {
        let earlier = history.drop_last();
        law_a_workflow_holds_what_was_recorded(submission, earlier);
        assert(history.contains(Recorded::Released) == (earlier.contains(Recorded::Released)
            || history.last() is Released)) by {
            if earlier.contains(Recorded::Released) {
                let i = choose|i: int|
                    0 <= i < earlier.len() && #[trigger] earlier[i] == Recorded::Released;
                assert(history[i] == Recorded::Released);
            }
            if history.last() is Released {
                assert(history[history.len() - 1] == Recorded::Released);
            }
            if history.contains(Recorded::Released) {
                let i = choose|i: int|
                    0 <= i < history.len() && #[trigger] history[i] == Recorded::Released;
                if i < earlier.len() {
                    assert(earlier[i] == Recorded::Released);
                }
            }
        }
        let before = replayed(started_with(submission), earlier);
        if let Recorded::Event(WorkflowEventView::Completed(result)) = history.last() {
            law_results_are_kept(before.item, before.phase, MAX_AGENT_STEPS, result);
        }
    }
}

/// Where a linear confession stands, and which remedy it has.
pub open spec fn linear_so_far(state: ConfessionState, remedy: Option<RemedyView>) -> bool {
    match state.phase {
        PhaseView::Received => remedy is None,
        PhaseView::ReportingJudging => remedy is None,
        PhaseView::Planning => remedy is None,
        PhaseView::ReportingLookup => remedy is None,
        PhaseView::LookingUp => remedy is None,
        PhaseView::ReportingCompose { remedy: given, next } => given == remedy && next
            == MAX_AGENT_STEPS,
        PhaseView::Composing { next } => next == MAX_AGENT_STEPS,
        PhaseView::Deciding { .. } => false,
        PhaseView::ReportingSkill { .. } => false,
        PhaseView::RunningSkill { .. } => false,
        PhaseView::ReportingPending => state.item.judgment is Some,
        _ => true,
    }
}

proof fn lemma_linear_so_far(submission: SubmissionView, history: Seq<Recorded>)
    requires
        submission.agent_mode == AgentMode::Linear,
        can_be_recorded(started_with(submission), history),
    ensures
        linear_so_far(replayed(started_with(submission), history), remedy_in(history)),
    decreases history.len(),
{
    if history.len() > 0 {
        lemma_linear_so_far(submission, history.drop_last());
        law_every_history_keeps_its_promises(submission, history.drop_last());
    }
}

/// A linear confession is composed with what its lookup returned: whatever its
/// history, the remedy in a request for a draft is the one that the lookup in
/// the history returned, and none where there was no lookup.
pub proof fn law_a_linear_confession_is_composed_with_its_lookup(
    submission: SubmissionView,
    history: Seq<Recorded>,
    event: WorkflowEventView,
)
    requires
        submission.agent_mode == AgentMode::Linear,
        can_be_recorded(started_with(submission), history.push(Recorded::Event(event))),
    ensures
        confession_run(replayed(started_with(submission), history), event).1
            matches ConfessionCommandView::Run(ActivityView::Compose(input)) ==> {
            &&& input.remedy == remedy_in(history)
            &&& input.submission == submission
            &&& plan_in(history) == Some(input.plan)
            &&& input.findings.len() == 0
        },
{
    assert(history.push(Recorded::Event(event)).drop_last() =~= history);
    lemma_linear_so_far(submission, history);
    law_every_history_keeps_its_promises(submission, history);
    law_a_workflow_holds_what_was_recorded(submission, history);
    lemma_linear_has_no_findings(submission, history);
}

proof fn lemma_linear_has_no_findings(submission: SubmissionView, history: Seq<Recorded>)
    requires
        submission.agent_mode == AgentMode::Linear,
        can_be_recorded(started_with(submission), history),
    ensures
        findings_in(history).len() == 0,
    decreases history.len(),
{
    if history.len() > 0 {
        lemma_linear_has_no_findings(submission, history.drop_last());
        lemma_linear_so_far(submission, history.drop_last());
    }
}

/// An autonomous confession is composed with what its lookups found: the remedy
/// in a request for a draft is the one approved from the findings in the history,
/// which it is given too.
pub proof fn law_an_autonomous_confession_is_composed_with_its_findings(
    submission: SubmissionView,
    history: Seq<Recorded>,
    event: WorkflowEventView,
)
    requires
        submission.agent_mode == AgentMode::Autonomous,
        can_be_recorded(started_with(submission), history.push(Recorded::Event(event))),
    ensures
        confession_run(replayed(started_with(submission), history), event).1
            matches ConfessionCommandView::Run(ActivityView::Compose(input)) ==> {
            &&& input.remedy == approved_remedy(findings_in(history), input.plan.category)
            &&& input.submission == submission
            &&& plan_in(history) == Some(input.plan)
            &&& input.findings == findings_in(history)
        },
{
    assert(history.push(Recorded::Event(event)).drop_last() =~= history);
    lemma_autonomous_so_far(submission, history);
    law_every_history_keeps_its_promises(submission, history);
    law_a_workflow_holds_what_was_recorded(submission, history);
}

proof fn lemma_autonomous_so_far(submission: SubmissionView, history: Seq<Recorded>)
    requires
        submission.agent_mode == AgentMode::Autonomous,
        can_be_recorded(started_with(submission), history),
    ensures
        ({
            let state = replayed(started_with(submission), history);
            &&& !(state.phase is ReportingLookup)
            &&& !(state.phase is LookingUp)
            &&& state.phase matches PhaseView::ReportingCompose { remedy, .. } ==> remedy
                == approved_remedy(state.item.findings, state.item.plan->0.category)
        }),
    decreases history.len(),
{
    if history.len() > 0 {
        lemma_autonomous_so_far(submission, history.drop_last());
        law_every_history_keeps_its_promises(submission, history.drop_last());
    }
}

/// Whatever history a Workflow has, each Activity it asks for is given what it
/// holds at that moment: every report of a final judgment carries that judgment,
/// and no other report carries one. It completes with the judgment it holds.
pub proof fn law_every_command_is_given_its_due(state: ConfessionState, event: WorkflowEventView)
    requires
        confession_state_wf(state),
        expected(state.phase, event),
    ensures
        ({
            let (after, command) = confession_run(state, event);
            match command {
                ConfessionCommandView::Run(activity) => given_its_due(after.item, activity),
                ConfessionCommandView::AwaitRelease => !after.item.released && after.item.status
                    == SubmissionStatus::ReplyPending,
                ConfessionCommandView::Complete(judgment) => after.item.judgment == Some(judgment)
                    && after.item.status == SubmissionStatus::Sent,
                ConfessionCommandView::Fail => after.item.status == SubmissionStatus::Failed,
            }
        }),
{
    match event {
        WorkflowEventView::Completed(result) => {
            law_activities_are_given_their_due(state.item, state.phase, MAX_AGENT_STEPS, result);
            lemma_next_move_keeps(state.item, state.phase, MAX_AGENT_STEPS, result);
            let m = next_move(state.item, state.phase, MAX_AGENT_STEPS, result);
            law_beginnings_are_given_their_due(m.item);
        },
        _ => {
            law_beginnings_are_given_their_due(state.item);
        },
    }
}

/// In a session too each Activity is given what the confession that is worked on
/// holds at that moment.
pub proof fn law_every_session_command_is_given_its_due(
    state: SessionState,
    event: WorkflowEventView,
)
    requires
        session_wf(state),
        session_expected(state, event),
    ensures
        session_run(state, event).1 matches SessionCommandView::Run(activity) ==> {
            let after = session_run(state, event).0;
            after.active matches Some(i) && 0 <= i < after.confessions.len() && given_its_due(
                after.confessions[i],
                activity,
            )
        },
{
    lemma_session_run_keeps(state, event);
    if let WorkflowEventView::Completed(result) = event {
        let k = state.active->0;
        assert(item_wf(state, k)) by {
            let _ = state.confessions[k];
        }
        let m = next_move(state.confessions[k], state.phase, MAX_SESSION_AGENT_STEPS, result);
        law_activities_are_given_their_due(
            state.confessions[k],
            state.phase,
            MAX_SESSION_AGENT_STEPS,
            result,
        );
        lemma_picked_work_is_given_its_due(idle(take(state, k, m)));
    } else {
        lemma_picked_work_is_given_its_due(state);
    }
}

proof fn lemma_picked_work_is_given_its_due(state: SessionState)
    ensures
        pick_work(state).1 matches SessionCommandView::Run(activity) ==> {
            let after = pick_work(state).0;
            after.active matches Some(i) && 0 <= i < after.confessions.len() && given_its_due(
                after.confessions[i],
                activity,
            )
        },
{
    lemma_first_waiting(state.confessions, Work::Compose, 0);
    lemma_first_waiting(state.confessions, Work::Deliver, 0);
    let i = first_waiting(state.confessions, Work::Compose, 0);
    let j = first_waiting(state.confessions, Work::Deliver, 0);
    law_beginnings_are_given_their_due(state.confessions[i]);
    law_beginnings_are_given_their_due(state.confessions[j]);
}

/// The row of a confession whose final judgment is reported shows that judgment:
/// its words, its level, its penance and its scores.
pub proof fn law_a_reported_row_shows_its_judgment(
    item: ConfessionView,
    update: StageUpdateView,
    board: BoardView,
    replace: bool,
    i: int,
)
    requires
        report_is_true(item, update),
        shows_judgment(item.status),
        item.judgment is Some,
        distinct_rows(board.submissions),
        0 <= i < board.submissions.len(),
        board.submissions[i].id == item.submission.id,
        board.session_id == item.submission.session_id,
    ensures
        ({
            let judgment = item.judgment->0;
            let row = updated(board, update, replace).submissions[i];
            &&& row.status == item.status
            &&& row.category == Some(judgment.category)
            &&& row.judgment == Some(judgment.judgment)
            &&& row.sentence == Some(judgment.sentence)
            &&& row.penance == Some(judgment.penance)
            &&& row.penance_line == Some(judgment.penance_line)
            &&& row.penance_reps == Some(judgment.severity)
            &&& row.award_scores == Some(judgment.award_scores)
            &&& row.error is None
            &&& replace ==> row.text == judgment.display_confession
        }),
{
    law_a_report_reaches_its_row(board, update, replace, i);
    law_a_report_is_shown_as_it_is(board.submissions[i], update, replace);
}

/// A Workflow that reports a confession as sent holds the judgment that its
/// history recorded last, and the confession's row shows that judgment.
pub proof fn law_a_sent_row_shows_the_recorded_judgment(
    submission: SubmissionView,
    history: Seq<Recorded>,
    event: WorkflowEventView,
    board: BoardView,
    replace: bool,
    i: int,
)
    requires
        can_be_recorded(started_with(submission), history.push(Recorded::Event(event))),
        confession_run(replayed(started_with(submission), history), event).1
            matches ConfessionCommandView::Run(ActivityView::ReportStage(update)) && update.status
            == SubmissionStatus::Sent,
        distinct_rows(board.submissions),
        0 <= i < board.submissions.len(),
        board.submissions[i].id == submission.id,
        board.session_id == submission.session_id,
    ensures
        ({
            let update = confession_run(
                replayed(started_with(submission), history),
                event,
            ).1->Run_0->ReportStage_0;
            let row = updated(board, update, replace).submissions[i];
            judgment_in(history) matches Some(judgment) && row.status == SubmissionStatus::Sent
                && row.judgment == Some(judgment.judgment) && row.penance == Some(
                judgment.penance,
            ) && row.penance_reps == Some(judgment.severity) && row.award_scores == Some(
                judgment.award_scores,
            )
        }),
{
    let whole = history.push(Recorded::Event(event));
    assert(whole.drop_last() =~= history);
    law_every_history_keeps_its_promises(submission, history);
    law_every_history_keeps_its_promises(submission, whole);
    law_a_workflow_holds_what_was_recorded(submission, history);
    law_a_workflow_holds_what_was_recorded(submission, whole);
    let before = replayed(started_with(submission), history);
    law_every_command_is_given_its_due(before, event);
    let (after, command) = confession_run(before, event);
    let update = command->Run_0->ReportStage_0;
    law_a_reported_row_shows_its_judgment(after.item, update, board, replace, i);
}

/// The remedy that an autonomous confession is composed with is that of the first
/// remedy lookup among its findings: its guidance is the finding's summary, and
/// there is none where no remedy was looked up.
pub proof fn law_the_approved_remedy_is_the_first_one_found(
    findings: Seq<FindingView>,
    category: Category,
    i: int,
)
    requires
        0 <= i <= findings.len(),
        forall|j: int| 0 <= j < i ==> (#[trigger] findings[j]).skill != Skill::RemedyLookup,
    ensures
        i == findings.len() ==> approved_remedy(findings, category) is None,
        i < findings.len() && findings[i].skill == Skill::RemedyLookup ==> {
            &&& approved_remedy(findings, category) matches Some(remedy)
            &&& remedy.category == category
            &&& remedy.guidance == findings[i].summary
        },
{
    lemma_first_of(findings, i);
}

proof fn lemma_first_of(findings: Seq<FindingView>, i: int)
    requires
        0 <= i <= findings.len(),
        forall|j: int| 0 <= j < i ==> (#[trigger] findings[j]).skill != Skill::RemedyLookup,
    ensures
        i == findings.len() ==> first_of(findings, Skill::RemedyLookup) is None,
        i < findings.len() && findings[i].skill == Skill::RemedyLookup ==> first_of(
            findings,
            Skill::RemedyLookup,
        ) == Some(findings[i]),
    decreases i,
{
    if i > 0 {
        let rest = findings.drop_first();
        assert forall|j: int| 0 <= j < i - 1 implies (#[trigger] rest[j]).skill
            != Skill::RemedyLookup by {
            assert(rest[j] == findings[j + 1]);
        }
        lemma_first_of(rest, i - 1);
    }
}

/// A confession's own Workflow goes the way of its moves, with six turns for the
/// loop; a judgment that comes to rest goes out at once where it has been
/// released, and waits for that where not.
pub proof fn law_a_workflow_follows_its_moves(state: ConfessionState, result: ResultView)
    ensures
        ({
            let m = next_move(state.item, state.phase, 6, result);
            let (after, command) = confession_run(state, WorkflowEventView::Completed(result));
            match m.progress {
                ProgressView::Run(activity) => command == ConfessionCommandView::Run(activity)
                    && after.item == m.item && after.phase == m.phase,
                ProgressView::Parked => if m.item.released {
                    &&& after.item == begin_delivery(m.item).item
                    &&& after.phase == begin_delivery(m.item).phase
                    &&& command matches ConfessionCommandView::Run(activity)
                        && begin_delivery(m.item).progress == ProgressView::Run(activity)
                } else {
                    command is AwaitRelease && after.item == m.item && after.phase == m.phase
                },
                ProgressView::Delivered => after.item == m.item && command is Complete,
                ProgressView::Failed => after.item == m.item && command is Fail,
            }
        }),
{
}

/// A release that wakes a waiting Workflow starts its delivery.
pub proof fn law_a_release_starts_the_delivery(state: ConfessionState)
    requires
        state.phase is Parked,
        state.item.released,
    ensures
        confession_run(state, WorkflowEventView::Woken).1 matches ConfessionCommandView::Run(
            ActivityView::ReportStage(update),
        ) && update.status == SubmissionStatus::Sending && update.id == state.item.submission.id,
        confession_run(state, WorkflowEventView::Woken).0.phase is ReportingSending,
{
}

} // verus!
