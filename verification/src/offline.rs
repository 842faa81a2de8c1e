//! What a confession comes to when the offline backend answers for every
//! Activity: it is always judged, and its judgment may always go on stage.
use vstd::prelude::*;

use crate::activities::{ActivityView, ResultView};
use crate::agent::{catalog_remedy, law_catalog_is_presentable, LoopView};
use crate::domain::{
    category_name, fresh_confession, judgment_fault, ConfessionView, PlanView, SubmissionStatus,
    SubmissionView,
};
use crate::fixture::{
    category_of, composed, fixture_finding, fixture_step, law_composed_judgment_is_valid,
    law_loop_judgment_is_valid,
};
use crate::phases::{
    activities_left, approved_remedy, lemma_next_move_keeps, next_move, reporting, PhaseView,
};
use crate::workflows::{
    confession_run, confession_state_wf, ConfessionCommandView, ConfessionState, WorkflowEventView,
    MAX_AGENT_STEPS,
};

verus! {

/// What comes back from an Activity when the offline backend answers for it.
pub open spec fn offline_answer(activity: ActivityView) -> ResultView {
    match activity {
        ActivityView::ReportStage(_) => ResultView::Reported,
        ActivityView::Plan(submission) => ResultView::Planned(
            PlanView {
                category: category_of(submission.text),
                needs_lookup: true,
                search_key: category_name(category_of(submission.text)),
            },
        ),
        ActivityView::LookupRemedy(plan) => ResultView::Remedied(catalog_remedy(plan.category)),
        ActivityView::Compose(input) => ResultView::Composed(
            composed(input.submission.text, input.plan.category, input.remedy, input.findings),
        ),
        ActivityView::DecideNextStep(input) => ResultView::Decided(
            fixture_step(
                LoopView {
                    text: input.text,
                    category: input.category,
                    findings: input.findings,
                    has_draft: input.has_draft,
                    revised: input.revised,
                    iteration: input.iteration,
                },
            ),
        ),
        ActivityView::RunSkill(input) => ResultView::Researched(
            fixture_finding(input.category, input.skill),
        ),
        ActivityView::Deliver(submission_id) => ResultView::Delivered {
            submission_id,
            channel: "stage"@,
        },
    }
}

/// The findings are the offline backend's, and so is the judgment, which may go
/// on stage.
spec fn is_offline(item: ConfessionView) -> bool {
    &&& item.plan matches Some(plan) ==> forall|i: int|
        0 <= i < item.findings.len() ==> #[trigger] item.findings[i] == fixture_finding(
            plan.category,
            item.findings[i].skill,
        )
    &&& item.judgment matches Some(judgment) ==> judgment_fault(judgment) is None
    &&& item.status != SubmissionStatus::Failed
}

/// The Activity that a phase waits for.
spec fn awaited(item: ConfessionView, phase: PhaseView, activity: ActivityView) -> bool {
    match phase {
        PhaseView::Planning => activity == ActivityView::Plan(item.submission),
        PhaseView::LookingUp => activity == ActivityView::LookupRemedy(item.plan->0),
        PhaseView::Deciding { .. } => activity is DecideNextStep,
        PhaseView::RunningSkill { .. } => activity matches ActivityView::RunSkill(input)
            && input.category == item.plan->0.category,
        PhaseView::Composing { .. } => activity matches ActivityView::Compose(input)
            && judgment_fault(
            composed(input.submission.text, input.plan.category, input.remedy, input.findings),
        ) is None,
        PhaseView::Delivering => activity is Deliver,
        _ => reporting(phase) && activity is ReportStage,
    }
}

/// A draft that is due can be composed.
spec fn can_compose(item: ConfessionView, phase: PhaseView) -> bool {
    phase matches PhaseView::ReportingCompose { remedy, .. } ==> judgment_fault(
        composed(item.submission.text, item.plan->0.category, remedy, item.findings),
    ) is None
}

/// The loop has not begun.
spec fn before_the_loop(phase: PhaseView) -> bool {
    phase is Received || phase is ReportingJudging || phase is Planning || phase is ReportingLookup
        || phase is LookingUp
}

/// A Workflow that the offline backend has served so far, and what it asks for.
spec fn served(state: ConfessionState, command: ConfessionCommandView) -> bool {
    &&& confession_state_wf(state)
    &&& is_offline(state.item)
    &&& can_compose(state.item, state.phase)
    &&& before_the_loop(state.phase) ==> state.item.findings.len() == 0
    &&& match command {
        ConfessionCommandView::Run(activity) => awaited(state.item, state.phase, activity),
        ConfessionCommandView::AwaitRelease => state.phase is Parked && !state.item.released,
        ConfessionCommandView::Complete(judgment) => judgment_fault(judgment) is None
            && state.item.status == SubmissionStatus::Sent && state.item.judgment == Some(judgment),
        ConfessionCommandView::Fail => false,
    }
}

proof fn lemma_draft_can_be_composed(item: ConfessionView)
    requires
        item.plan is Some,
        is_offline(item),
    ensures
        judgment_fault(
            composed(
                item.submission.text,
                item.plan->0.category,
                approved_remedy(item.findings, item.plan->0.category),
                item.findings,
            ),
        ) is None,
{
    law_loop_judgment_is_valid(item.submission.text, item.plan->0.category, item.findings);
}

proof fn lemma_linear_draft_can_be_composed(item: ConfessionView)
    requires
        item.plan is Some,
        item.findings.len() == 0,
    ensures
        judgment_fault(
            composed(
                item.submission.text,
                item.plan->0.category,
                Some(catalog_remedy(item.plan->0.category)),
                item.findings,
            ),
        ) is None,
{
    law_catalog_is_presentable(item.plan->0.category);
    law_composed_judgment_is_valid(
        item.submission.text,
        item.plan->0.category,
        Some(catalog_remedy(item.plan->0.category)),
        item.findings,
    );
}

proof fn lemma_offline_serves(state: ConfessionState, activity: ActivityView)
    requires
        served(state, ConfessionCommandView::Run(activity)),
    ensures
        ({
            let event = WorkflowEventView::Completed(offline_answer(activity));
            let (after, command) = confession_run(state, event);
            &&& served(after, command)
            &&& activities_left(after.phase, MAX_AGENT_STEPS) < activities_left(
                state.phase,
                MAX_AGENT_STEPS,
            )
            &&& after.item.submission == state.item.submission
            &&& after.item.released == state.item.released
        }),
{
    let item = state.item;
    let answer = offline_answer(activity);
    lemma_next_move_keeps(item, state.phase, MAX_AGENT_STEPS, answer);
    let m = next_move(item, state.phase, MAX_AGENT_STEPS, answer);
    match state.phase {
        PhaseView::Planning => {
            assert(is_offline(m.item));
            lemma_draft_can_be_composed(m.item);
        },
        PhaseView::LookingUp => {
            lemma_linear_draft_can_be_composed(item);
        },
        PhaseView::Deciding { .. } => {
            assert(is_offline(m.item));
            lemma_draft_can_be_composed(m.item);
        },
        PhaseView::RunningSkill { .. } => {
            assert(is_offline(m.item));
            lemma_draft_can_be_composed(m.item);
        },
        PhaseView::Composing { .. } => {
            assert(is_offline(m.item));
            lemma_draft_can_be_composed(m.item);
        },
        _ => {},
    }
}

/// Where a Workflow stands once the offline backend has answered for up to
/// `turns` Activities, from the first on.
pub open spec fn served_for(
    state: ConfessionState,
    command: ConfessionCommandView,
    turns: nat,
) -> (ConfessionState, ConfessionCommandView)
    decreases turns,
{
    match command {
        ConfessionCommandView::Run(activity) => if turns == 0 {
            (state, command)
        } else {
            let (after, next) = confession_run(
                state,
                WorkflowEventView::Completed(offline_answer(activity)),
            );
            served_for(after, next, (turns - 1) as nat)
        },
        _ => (state, command),
    }
}

proof fn lemma_served_to_the_end(
    state: ConfessionState,
    command: ConfessionCommandView,
    turns: nat,
)
    requires
        served(state, command),
        command is Run ==> activities_left(state.phase, MAX_AGENT_STEPS) <= turns,
    ensures
        served(
            served_for(state, command, turns).0,
            served_for(state, command, turns).1,
        ),
        !(served_for(state, command, turns).1 is Run),
        served_for(state, command, turns).0.item.submission == state.item.submission,
        served_for(state, command, turns).0.item.released == state.item.released,
    decreases turns,
{
    if let ConfessionCommandView::Run(activity) = command {
        lemma_offline_serves(state, activity);
        let (after, next) = confession_run(
            state,
            WorkflowEventView::Completed(offline_answer(activity)),
        );
        assert(turns > 0);
        lemma_served_to_the_end(after, next, (turns - 1) as nat);
    }
}

/// With the offline backend every confession is judged, in either agent mode and
/// whatever it says. Within a fixed number of Activities its Workflow holds a
/// judgment that may go on stage: one that is held back waits for its release,
/// and any other has been sent and completes.
pub proof fn law_offline_confessions_are_always_judged(submission: SubmissionView)
    ensures
        ({
            let start = ConfessionState {
                item: fresh_confession(submission),
                phase: PhaseView::Received,
            };
            let (begun, first) = confession_run(start, WorkflowEventView::Started);
            let (state, command) = served_for(begun, first, 80);
            &&& state.item.submission == submission
            &&& state.item.judgment matches Some(judgment) && judgment_fault(judgment) is None
            &&& if submission.hold_before_reply {
                command is AwaitRelease && state.item.status == SubmissionStatus::ReplyPending
            } else {
                command == ConfessionCommandView::Complete(state.item.judgment->0)
                    && state.item.status == SubmissionStatus::Sent
            }
        }),
{
    let start = ConfessionState {
        item: fresh_confession(submission),
        phase: PhaseView::Received,
    };
    let (begun, first) = confession_run(start, WorkflowEventView::Started);
    assert(served(begun, first));
    lemma_served_to_the_end(begun, first, 80);
}

} // verus!
