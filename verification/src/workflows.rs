//! Deterministic orchestration: one Workflow per confession, and the aggregate
//! Workflow that holds a whole session. Each is handed what happened and says
//! what to run next.
use vstd::prelude::*;

use crate::activities::{Activity, ActivityResult, ActivityView, ResultView};
use crate::domain::{
    confession_views, fresh_confession, ConfessionView, Judgment, JudgmentView, ReleaseInput,
    SessionConfession, SessionSnapshot, SubmissionInput, SubmissionStatus, SubmissionView,
    WorkflowSnapshot,
};
use crate::phases::{
    advance, begin, begin_confession, begin_delivery, confession_wf, deliver_confession, fits,
    lemma_next_move_keeps, next_move, reporting, running, with_release, Move, Phase, PhaseView,
    Progress, ProgressView,
};
use crate::text::same;

verus! {

/// The autonomous loop's hard step cap: the loop always terminates, even if a
/// backend never returns `Finish`.
pub const MAX_AGENT_STEPS: u8 = 6;

/// The tighter cap of the aggregate session Workflow.
pub const MAX_SESSION_AGENT_STEPS: u8 = 4;

/// What wakes a Workflow.
#[derive(Debug, PartialEq, Eq)]
pub enum WorkflowEvent {
    Started,
    Completed(ActivityResult),
    /// A Signal has arrived.
    Woken,
}

#[verifier::ext_equal]
pub enum WorkflowEventView {
    Started,
    Completed(ResultView),
    Woken,
}

impl View for WorkflowEvent {
    type V = WorkflowEventView;

    open spec fn view(&self) -> WorkflowEventView {
        match self {
            WorkflowEvent::Started => WorkflowEventView::Started,
            WorkflowEvent::Completed(result) => WorkflowEventView::Completed(result@),
            WorkflowEvent::Woken => WorkflowEventView::Woken,
        }
    }
}

fn is_reporting(phase: &Phase) -> (res: bool)
    ensures
        res == reporting(phase@),
{
    match phase {
        Phase::ReportingJudging => true,
        Phase::ReportingLookup => true,
        Phase::ReportingSkill { .. } => true,
        Phase::ReportingCompose { .. } => true,
        Phase::ReportingPending => true,
        Phase::ReportingSending => true,
        Phase::ReportingSent => true,
        Phase::ReportingFailure => true,
        _ => false,
    }
}

fn result_fits(phase: &Phase, result: &ActivityResult) -> (res: bool)
    ensures
        res == fits(phase@, result@),
{
    if is_reporting(phase) {
        match result {
            ActivityResult::Reported => true,
            ActivityResult::Failed => true,
            _ => false,
        }
    } else {
        match (phase, result) {
            (Phase::Planning, ActivityResult::Planned(_)) => true,
            (Phase::Planning, ActivityResult::Failed) => true,
            (Phase::LookingUp, ActivityResult::Remedied(_)) => true,
            (Phase::LookingUp, ActivityResult::Failed) => true,
            (Phase::Deciding { .. }, ActivityResult::Decided(_)) => true,
            (Phase::Deciding { .. }, ActivityResult::Failed) => true,
            (Phase::RunningSkill { .. }, ActivityResult::Researched(_)) => true,
            (Phase::RunningSkill { .. }, ActivityResult::Failed) => true,
            (Phase::Composing { .. }, ActivityResult::Composed(_)) => true,
            (Phase::Composing { .. }, ActivityResult::Failed) => true,
            (Phase::Delivering, ActivityResult::Delivered(_)) => true,
            (Phase::Delivering, ActivityResult::Failed) => true,
            _ => false,
        }
    }
}

/// The reply is on its way, or has arrived.
pub open spec fn delivering(phase: PhaseView) -> bool {
    phase is ReportingSending || phase is Delivering || phase is ReportingSent
}

// ---------------------------------------------------------------------------
// One Workflow per confession
// ---------------------------------------------------------------------------
/// What a `ConfessionWorkflow` waits for next.
#[derive(Debug, PartialEq, Eq)]
pub enum ConfessionCommand {
    Run(Activity),
    AwaitRelease,
    Complete(Judgment),
    Fail,
}

#[verifier::ext_equal]
pub enum ConfessionCommandView {
    Run(ActivityView),
    AwaitRelease,
    Complete(JudgmentView),
    Fail,
}

impl View for ConfessionCommand {
    type V = ConfessionCommandView;

    open spec fn view(&self) -> ConfessionCommandView {
        match self {
            ConfessionCommand::Run(activity) => ConfessionCommandView::Run(activity@),
            ConfessionCommand::AwaitRelease => ConfessionCommandView::AwaitRelease,
            ConfessionCommand::Complete(judgment) => ConfessionCommandView::Complete(judgment@),
            ConfessionCommand::Fail => ConfessionCommandView::Fail,
        }
    }
}

/// A confession's state and phase.
#[verifier::ext_equal]
pub struct ConfessionState {
    pub item: ConfessionView,
    pub phase: PhaseView,
}

/// What follows a move: a released judgment goes out at once, a held one waits
/// for its release.
pub open spec fn settle(m: Move) -> (ConfessionState, ConfessionCommandView) {
    let state = ConfessionState { item: m.item, phase: m.phase };
    match m.progress {
        ProgressView::Run(activity) => (state, ConfessionCommandView::Run(activity)),
        ProgressView::Parked => if m.item.released {
            let d = begin_delivery(m.item);
            (
                ConfessionState { item: d.item, phase: d.phase },
                ConfessionCommandView::Run(d.progress->Run_0),
            )
        } else {
            (state, ConfessionCommandView::AwaitRelease)
        },
        ProgressView::Delivered => (state, ConfessionCommandView::Complete(m.item.judgment->0)),
        ProgressView::Failed => (state, ConfessionCommandView::Fail),
    }
}

/// What a confession's Workflow does when an event reaches it.
pub open spec fn confession_run(
    state: ConfessionState,
    event: WorkflowEventView,
) -> (ConfessionState, ConfessionCommandView) {
    match event {
        WorkflowEventView::Started => settle(begin(state.item)),
        WorkflowEventView::Completed(result) => settle(
            next_move(state.item, state.phase, MAX_AGENT_STEPS, result),
        ),
        WorkflowEventView::Woken => settle(
            Move { item: state.item, phase: state.phase, progress: ProgressView::Parked },
        ),
    }
}

/// An event that can reach a Workflow in a phase.
pub open spec fn expected(phase: PhaseView, event: WorkflowEventView) -> bool {
    match event {
        WorkflowEventView::Started => phase is Received,
        WorkflowEventView::Completed(result) => fits(phase, result),
        WorkflowEventView::Woken => phase is Parked,
    }
}

/// What a confession's Workflow keeps: the promises of a confession, and that
/// no reply is on its way before its release.
pub open spec fn confession_state_wf(state: ConfessionState) -> bool {
    &&& confession_wf(state.item, state.phase, MAX_AGENT_STEPS)
    &&& delivering(state.phase) ==> state.item.released
    &&& state.item.status == SubmissionStatus::Sent ==> state.item.released
}

#[derive(Debug, PartialEq, Eq)]
pub struct ConfessionWorkflow {
    pub item: SessionConfession,
    pub phase: Phase,
}

impl View for ConfessionWorkflow {
    type V = ConfessionState;

    open spec fn view(&self) -> ConfessionState {
        ConfessionState { item: self.item@, phase: self.phase@ }
    }
}

impl ConfessionWorkflow {
    pub open spec fn wf(self) -> bool {
        confession_state_wf(self@)
    }

    pub fn new(submission: SubmissionInput) -> (res: Self)
        ensures
            res.wf(),
            res@ == (ConfessionState {
                item: fresh_confession(submission@),
                phase: PhaseView::Received,
            }),
    {
        ConfessionWorkflow { item: SessionConfession::fresh(submission), phase: Phase::Received }
    }

    /// Tests whether an event can reach the Workflow now.
    pub fn expects(&self, event: &WorkflowEvent) -> (res: bool)
        ensures
            res == expected(self@.phase, event@),
    {
        match event {
            WorkflowEvent::Started => match &self.phase {
                Phase::Received => true,
                _ => false,
            },
            WorkflowEvent::Completed(result) => result_fits(&self.phase, result),
            WorkflowEvent::Woken => match &self.phase {
                Phase::Parked => true,
                _ => false,
            },
        }
    }

    /// Folds an event into the Workflow's state and says what to run next.
    pub fn run(&mut self, event: WorkflowEvent) -> (res: ConfessionCommand)
        requires
            old(self).wf(),
            expected(old(self)@.phase, event@),
        ensures
            final(self).wf(),
            (final(self)@, res@) == confession_run(old(self)@, event@),
    {
        proof {
            if let WorkflowEventView::Completed(result) = event@ {
                lemma_next_move_keeps(self.item@, self.phase@, MAX_AGENT_STEPS, result);
            }
        }
        let mut phase = Phase::Ended;
        core::mem::swap(&mut phase, &mut self.phase);
        let (phase, progress) = match event {
            WorkflowEvent::Started => begin_confession(&mut self.item),
            WorkflowEvent::Completed(result) => advance(
                &mut self.item,
                phase,
                MAX_AGENT_STEPS,
                result,
            ),
            WorkflowEvent::Woken => (phase, Progress::Parked),
        };
        self.phase = phase;
        match progress {
            Progress::Run(activity) => ConfessionCommand::Run(activity),
            Progress::Parked => {
                if self.item.released {
                    let (phase, progress) = deliver_confession(&mut self.item);
                    self.phase = phase;
                    match progress {
                        Progress::Run(activity) => ConfessionCommand::Run(activity),
                        _ => ConfessionCommand::Fail,
                    }
                } else {
                    ConfessionCommand::AwaitRelease
                }
            },
            Progress::Delivered => {
                let judgment = self.item.judgment.as_ref().unwrap().clone();
                ConfessionCommand::Complete(judgment)
            },
            Progress::Failed => ConfessionCommand::Fail,
        }
    }

    /// The release Signal.
    pub fn release(&mut self, _input: ReleaseInput)
        ensures
            old(self).wf() ==> final(self).wf(),
            final(self)@ == (ConfessionState {
                item: with_release(old(self)@.item),
                phase: old(self)@.phase,
            }),
    {
        self.item.released = true;
    }

    /// The snapshot query.
    pub fn snapshot(&self) -> (res: WorkflowSnapshot)
        ensures
            res@ == self@.item,
    {
        self.item.to_snapshot()
    }
}

/// A reply goes out only after its release, and a Workflow that completes hands
/// back the judgment it has sent.
pub proof fn law_no_delivery_before_release(state: ConfessionState, event: WorkflowEventView)
    requires
        confession_state_wf(state),
        expected(state.phase, event),
    ensures
        confession_run(state, event).1 matches ConfessionCommandView::Run(activity)
            ==> activity is Deliver ==> confession_run(state, event).0.item.released,
        confession_run(state, event).1 matches ConfessionCommandView::Complete(judgment) ==> {
            let after = confession_run(state, event).0.item;
            after.released && after.status == SubmissionStatus::Sent && after.judgment == Some(
                judgment,
            )
        },
{
}

/// A release that arrives while the judgment is parked, and one that was there
/// before the judgment was reported, lead to the same state and the same reply.
pub proof fn law_early_and_late_release_agree(state: ConfessionState, result: ResultView)
    requires
        state.phase is ReportingPending,
        fits(state.phase, result),
    ensures
        ({
            let early = ConfessionState { item: with_release(state.item), phase: state.phase };
            let parked = confession_run(state, WorkflowEventView::Completed(result)).0;
            let late = ConfessionState { item: with_release(parked.item), phase: parked.phase };
            !state.item.released ==> confession_run(early, WorkflowEventView::Completed(result))
                == confession_run(late, WorkflowEventView::Woken)
        }),
{
}

/// A held judgment stays parked: waking its Workflow without a release changes
/// nothing.
pub proof fn law_held_judgment_stays_parked(state: ConfessionState)
    requires
        state.phase is Parked,
        !state.item.released,
    ensures
        confession_run(state, WorkflowEventView::Woken) == (
            state,
            ConfessionCommandView::AwaitRelease,
        ),
{
}

/// The reply has been handed to its channel.
pub open spec fn delivery_begun(phase: PhaseView) -> bool {
    phase is Delivering || phase is ReportingSent || phase is ReportingFailure || phase is Ended
}

/// A reply is handed to its channel at most once: to hand it over begins the
/// delivery, which had not begun, and a delivery that has begun stays so.
pub proof fn law_a_reply_goes_out_at_most_once(state: ConfessionState, event: WorkflowEventView)
    requires
        expected(state.phase, event),
    ensures
        confession_run(state, event).1 matches ConfessionCommandView::Run(activity)
            ==> activity is Deliver ==> !delivery_begun(state.phase) && delivery_begun(
            confession_run(state, event).0.phase,
        ),
        delivery_begun(state.phase) ==> delivery_begun(confession_run(state, event).0.phase),
{
}

/// What the history of a Workflow records.
#[verifier::ext_equal]
pub enum Recorded {
    Event(WorkflowEventView),
    Released,
}

/// The state that a history leads to.
pub open spec fn replayed(state: ConfessionState, history: Seq<Recorded>) -> ConfessionState
    decreases history.len(),
{
    if history.len() == 0 {
        state
    } else {
        let before = replayed(state, history.drop_last());
        match history.last() {
            Recorded::Event(event) => confession_run(before, event).0,
            Recorded::Released => ConfessionState {
                item: with_release(before.item),
                phase: before.phase,
            },
        }
    }
}

/// A history that can happen: every event in it finds a Workflow that expects
/// it.
pub open spec fn can_be_recorded(state: ConfessionState, history: Seq<Recorded>) -> bool
    decreases history.len(),
{
    history.len() > 0 ==> can_be_recorded(state, history.drop_last()) && (
    history.last() matches Recorded::Event(event) ==> expected(
        replayed(state, history.drop_last()).phase,
        event,
    ))
}

/// A Worker that takes over resumes where the last one left off: to replay a
/// history and go on from there leads to the same state as if there had been one
/// Worker all along.
pub proof fn law_replay_resumes(
    state: ConfessionState,
    before: Seq<Recorded>,
    after: Seq<Recorded>,
)
    ensures
        replayed(state, before + after) == replayed(replayed(state, before), after),
    decreases after.len(),
{
    if after.len() == 0 {
        assert(before + after =~= before);
    } else {
        law_replay_resumes(state, before, after.drop_last());
        assert((before + after).drop_last() =~= before + after.drop_last());
        assert((before + after).last() == after.last());
    }
}

/// Whatever history a Workflow has, its state keeps what it promises, and the
/// confession that it was started with is still the one it holds.
pub proof fn law_every_history_keeps_its_promises(
    submission: SubmissionView,
    history: Seq<Recorded>,
)
    requires
        can_be_recorded(
            ConfessionState { item: fresh_confession(submission), phase: PhaseView::Received },
            history,
        ),
    ensures
        ({
            let start = ConfessionState {
                item: fresh_confession(submission),
                phase: PhaseView::Received,
            };
            let state = replayed(start, history);
            confession_state_wf(state) && state.item.submission == submission
        }),
    decreases history.len(),
{
    let start = ConfessionState {
        item: fresh_confession(submission),
        phase: PhaseView::Received,
    };
    if history.len() > 0 {
        law_every_history_keeps_its_promises(submission, history.drop_last());
        let before = replayed(start, history.drop_last());
        if let Recorded::Event(event) = history.last() {
            if let WorkflowEventView::Completed(result) = event {
                lemma_next_move_keeps(before.item, before.phase, MAX_AGENT_STEPS, result);
            }
        }
    }
}

// ---------------------------------------------------------------------------
// The aggregate Workflow of a session
// ---------------------------------------------------------------------------
/// What a `SessionWorkflow` waits for next.
#[derive(Debug, PartialEq, Eq)]
pub enum SessionCommand {
    Run(Activity),
    AwaitWork,
}

#[verifier::ext_equal]
pub enum SessionCommandView {
    Run(ActivityView),
    AwaitWork,
}

impl View for SessionCommand {
    type V = SessionCommandView;

    open spec fn view(&self) -> SessionCommandView {
        match self {
            SessionCommand::Run(activity) => SessionCommandView::Run(activity@),
            SessionCommand::AwaitWork => SessionCommandView::AwaitWork,
        }
    }
}

/// Work that a session can pick up.
#[derive(Debug, Clone, Copy, PartialEq, Eq, Structural)]
pub enum Work {
    Compose,
    Deliver,
}

/// A confession that waits for this work.
pub open spec fn waits_for(work: Work, item: ConfessionView) -> bool {
    match work {
        Work::Compose => item.status == SubmissionStatus::Received,
        Work::Deliver => item.status == SubmissionStatus::ReplyPending && item.released,
    }
}

/// The first confession from `from` on that waits for this work, or -1.
pub open spec fn first_waiting(items: Seq<ConfessionView>, work: Work, from: int) -> int
    decreases items.len() - from,
{
    if from < 0 || from >= items.len() {
        -1
    } else if waits_for(work, items[from]) {
        from
    } else {
        first_waiting(items, work, from + 1)
    }
}

pub proof fn lemma_first_waiting(items: Seq<ConfessionView>, work: Work, from: int)
    requires
        0 <= from,
    ensures
        first_waiting(items, work, from) >= 0 ==> {
            let i = first_waiting(items, work, from);
            from <= i < items.len() && waits_for(work, items[i])
        },
        first_waiting(items, work, from) < 0 ==> forall|i: int|
            from <= i < items.len() ==> !waits_for(work, #[trigger] items[i]),
    decreases items.len() - from,
{
    if from < items.len() && !waits_for(work, items[from]) {
        lemma_first_waiting(items, work, from + 1);
    }
}

/// A session: its confessions, and the one that is being worked on.
#[verifier::ext_equal]
pub struct SessionState {
    pub session_id: Seq<char>,
    pub confessions: Seq<ConfessionView>,
    pub active: Option<int>,
    pub phase: PhaseView,
}

/// The session with a move of confession `i` taken.
pub open spec fn take(state: SessionState, i: int, m: Move) -> SessionState {
    SessionState {
        confessions: state.confessions.update(i, m.item),
        active: Some(i),
        phase: m.phase,
        ..state
    }
}

/// The session with nothing being worked on.
pub open spec fn idle(state: SessionState) -> SessionState {
    SessionState { active: None, phase: PhaseView::Received, ..state }
}

/// An idle session picks up its next work: it composes every received confession
/// first, then delivers those that have been released.
pub open spec fn pick_work(state: SessionState) -> (SessionState, SessionCommandView) {
    let i = first_waiting(state.confessions, Work::Compose, 0);
    let j = first_waiting(state.confessions, Work::Deliver, 0);
    if i >= 0 {
        let m = begin(state.confessions[i]);
        (take(state, i, m), SessionCommandView::Run(m.progress->Run_0))
    } else if j >= 0 {
        let m = begin_delivery(state.confessions[j]);
        (take(state, j, m), SessionCommandView::Run(m.progress->Run_0))
    } else {
        (state, SessionCommandView::AwaitWork)
    }
}

/// What a session's Workflow does when an event reaches it.
pub open spec fn session_run(
    state: SessionState,
    event: WorkflowEventView,
) -> (SessionState, SessionCommandView) {
    match event {
        WorkflowEventView::Completed(result) => {
            let i = state.active->0;
            let m = next_move(state.confessions[i], state.phase, MAX_SESSION_AGENT_STEPS, result);
            match m.progress {
                ProgressView::Run(activity) => (
                    take(state, i, m),
                    SessionCommandView::Run(activity),
                ),
                _ => pick_work(idle(take(state, i, m))),
            }
        },
        _ => pick_work(state),
    }
}

/// An event that can reach a session's Workflow.
pub open spec fn session_expected(state: SessionState, event: WorkflowEventView) -> bool {
    match event {
        WorkflowEventView::Completed(result) => state.active is Some && fits(state.phase, result),
        _ => state.active is None,
    }
}

/// The phase of a confession that is not being worked on.
pub open spec fn resting(status: SubmissionStatus) -> PhaseView {
    match status {
        SubmissionStatus::Received => PhaseView::Received,
        SubmissionStatus::ReplyPending => PhaseView::Parked,
        _ => PhaseView::Ended,
    }
}

/// What a session keeps of each confession.
pub open spec fn item_wf(state: SessionState, i: int) -> bool {
    let item = state.confessions[i];
    let phase = if state.active == Some(i) {
        state.phase
    } else {
        resting(item.status)
    };
    &&& confession_wf(item, phase, MAX_SESSION_AGENT_STEPS)
    &&& delivering(phase) ==> item.released
    &&& item.status == SubmissionStatus::Sent ==> item.released
}

/// No confession is held twice.
pub open spec fn distinct_ids(items: Seq<ConfessionView>) -> bool {
    forall|i: int, j: int|
        0 <= i < j < items.len() ==> (#[trigger] items[i]).submission.id != (
        #[trigger] items[j]).submission.id
}

pub open spec fn session_wf(state: SessionState) -> bool {
    &&& distinct_ids(state.confessions)
    &&& state.active is None ==> state.phase is Received
    &&& state.active matches Some(i) ==> 0 <= i < state.confessions.len() && running(state.phase)
    &&& forall|i: int|
        #![trigger state.confessions[i]]
        0 <= i < state.confessions.len() ==> item_wf(state, i)
}

/// The aggregate demo variant: a single long-lived Workflow for an entire
/// session. Confessions arrive by Signal and are folded into one durable state.
#[derive(Debug, PartialEq, Eq)]
pub struct SessionWorkflow {
    pub session_id: String,
    pub confessions: Vec<SessionConfession>,
    /// The confession that is being worked on.
    pub active: Option<usize>,
    /// Its phase; `Received` while nothing is being worked on.
    pub phase: Phase,
}

impl View for SessionWorkflow {
    type V = SessionState;

    open spec fn view(&self) -> SessionState {
        SessionState {
            session_id: self.session_id@,
            confessions: confession_views(self.confessions@),
            active: match self.active {
                Some(i) => Some(i as int),
                None => None,
            },
            phase: self.phase@,
        }
    }
}

fn is_waiting(work: Work, item: &SessionConfession) -> (res: bool)
    ensures
        res == waits_for(work, item@),
{
    match work {
        Work::Compose => item.status == SubmissionStatus::Received,
        Work::Deliver => item.status == SubmissionStatus::ReplyPending && item.released,
    }
}

proof fn lemma_pick_work_keeps(state: SessionState)
    requires
        session_wf(state),
        state.active is None,
    ensures
        session_wf(pick_work(state).0),
{
    lemma_first_waiting(state.confessions, Work::Compose, 0);
    lemma_first_waiting(state.confessions, Work::Deliver, 0);
    let i = first_waiting(state.confessions, Work::Compose, 0);
    let j = first_waiting(state.confessions, Work::Deliver, 0);
    if i >= 0 {
        lemma_take_keeps(state, i, begin(state.confessions[i]));
    } else if j >= 0 {
        lemma_take_keeps(state, j, begin_delivery(state.confessions[j]));
    }
}

proof fn lemma_take_keeps(state: SessionState, i: int, m: Move)
    requires
        session_wf(state),
        0 <= i < state.confessions.len(),
        state.active is None || state.active == Some(i),
        m.item.submission == state.confessions[i].submission,
        running(m.phase),
        confession_wf(m.item, m.phase, MAX_SESSION_AGENT_STEPS),
        delivering(m.phase) ==> m.item.released,
        m.item.status == SubmissionStatus::Sent ==> m.item.released,
    ensures
        session_wf(take(state, i, m)),
{
    let after = take(state, i, m);
    assert forall|k: int| #![trigger after.confessions[k]] 0
        <= k < after.confessions.len() implies item_wf(after, k) by {
        assert(item_wf(state, k)) by {
            let _ = state.confessions[k];
        }
    }
    assert forall|a: int, b: int| 0 <= a < b < after.confessions.len() implies (
    #[trigger] after.confessions[a]).submission.id != (
    #[trigger] after.confessions[b]).submission.id by {
        assert(state.confessions[a].submission.id != state.confessions[b].submission.id);
    }
}

proof fn lemma_rest_keeps(state: SessionState, i: int, m: Move)
    requires
        session_wf(state),
        0 <= i < state.confessions.len(),
        state.active == Some(i),
        m.item.submission == state.confessions[i].submission,
        m.phase is Parked || m.phase is Ended,
        confession_wf(m.item, m.phase, MAX_SESSION_AGENT_STEPS),
        m.item.status == SubmissionStatus::Sent ==> m.item.released,
    ensures
        session_wf(idle(take(state, i, m))),
{
    let after = idle(take(state, i, m));
    assert forall|k: int| #![trigger after.confessions[k]] 0
        <= k < after.confessions.len() implies item_wf(after, k) by {
        assert(item_wf(state, k)) by {
            let _ = state.confessions[k];
        }
    }
    assert forall|a: int, b: int| 0 <= a < b < after.confessions.len() implies (
    #[trigger] after.confessions[a]).submission.id != (
    #[trigger] after.confessions[b]).submission.id by {
        assert(state.confessions[a].submission.id != state.confessions[b].submission.id);
    }
}

/// Every event keeps what a session promises.
pub proof fn lemma_session_run_keeps(state: SessionState, event: WorkflowEventView)
    requires
        session_wf(state),
        session_expected(state, event),
    ensures
        session_wf(session_run(state, event).0),
{
    match event {
        WorkflowEventView::Completed(result) => {
            let i = state.active->0;
            let item = state.confessions[i];
            let m = next_move(item, state.phase, MAX_SESSION_AGENT_STEPS, result);
            assert(item_wf(state, i));
            lemma_next_move_keeps(item, state.phase, MAX_SESSION_AGENT_STEPS, result);
            if m.progress is Run {
                lemma_take_keeps(state, i, m);
            } else {
                lemma_rest_keeps(state, i, m);
                lemma_pick_work_keeps(idle(take(state, i, m)));
            }
        },
        _ => {
            lemma_pick_work_keeps(state);
        },
    }
}

impl SessionWorkflow {
    pub open spec fn wf(self) -> bool {
        session_wf(self@)
    }

    pub fn new(session_id: String) -> (res: Self)
        ensures
            res.wf(),
            res@ == (SessionState {
                session_id: session_id@,
                confessions: Seq::empty(),
                active: None,
                phase: PhaseView::Received,
            }),
    {
        let res = SessionWorkflow {
            session_id,
            confessions: Vec::new(),
            active: None,
            phase: Phase::Received,
        };
        assert(res@.confessions =~= Seq::empty());
        res
    }

    /// The add Signal: a confession that is already there is not added again.
    pub fn add_confession(&mut self, submission: SubmissionInput)
        requires
            old(self).wf(),
        ensures
            final(self).wf(),
            final(self)@ == session_add(old(self)@, submission@),
    {
        let mut i: usize = 0;
        while i < self.confessions.len()
            invariant
                i <= self.confessions@.len(),
                self.wf(),
                self@ == old(self)@,
                forall|k: int|
                    0 <= k < i ==> (#[trigger] self@.confessions[k]).submission.id
                        != submission@.id,
            decreases self.confessions@.len() - i,
        {
            if same(self.confessions[i].submission.id.as_str(), submission.id.as_str()) {
                assert(self@.confessions[i as int].submission.id == submission@.id);
                return;
            }
            i += 1;
        }
        let ghost before = self@;
        self.confessions.push(SessionConfession::fresh(submission));
        proof {
            assert(self@.confessions =~= before.confessions.push(fresh_confession(submission@)));
            assert forall|k: int| #![trigger self@.confessions[k]] 0
                <= k < self@.confessions.len() implies item_wf(self@, k) by {
                if k < before.confessions.len() {
                    assert(before.confessions[k] == self@.confessions[k]);
                    assert(item_wf(before, k));
                }
            }
            assert forall|a: int, b: int| 0 <= a < b < self@.confessions.len() implies (
            #[trigger] self@.confessions[a]).submission.id != (
            #[trigger] self@.confessions[b]).submission.id by {
                assert(before.confessions[a] == self@.confessions[a]);
                if b < before.confessions.len() {
                    assert(before.confessions[b] == self@.confessions[b]);
                }
            }
        }
    }

    /// The release Signal: frees every confession that has not already finished.
    pub fn release(&mut self, _input: ReleaseInput)
        requires
            old(self).wf(),
        ensures
            final(self).wf(),
            final(self)@ == session_release(old(self)@),
    {
        let mut i: usize = 0;
        let n: usize = self.confessions.len();
        while i < n
            invariant
                i <= n,
                n == self.confessions@.len(),
                self.session_id == old(self).session_id,
                self.active == old(self).active,
                self.phase == old(self).phase,
                self.confessions@.len() == old(self).confessions@.len(),
                forall|k: int|
                    0 <= k < i ==> (#[trigger] self.confessions@[k])@ == release_item(
                        old(self).confessions@[k]@,
                    ),
                forall|k: int|
                    i <= k < n ==> #[trigger] self.confessions@[k] == old(self).confessions@[k],
            decreases n - i,
        {
            let status = self.confessions[i].status;
            if status != SubmissionStatus::Sent && status != SubmissionStatus::Failed {
                let item = &mut self.confessions[i];
                item.released = true;
            }
            i += 1;
        }
        proof {
            let before = old(self)@;
            assert(self@.confessions =~= session_release(before).confessions);
            assert forall|k: int| #![trigger self@.confessions[k]] 0
                <= k < self@.confessions.len() implies item_wf(self@, k) by {
                assert(item_wf(before, k)) by {
                    let _ = before.confessions[k];
                }
            }
            assert forall|a: int, b: int| 0 <= a < b < self@.confessions.len() implies (
            #[trigger] self@.confessions[a]).submission.id != (
            #[trigger] self@.confessions[b]).submission.id by {
                assert(before.confessions[a].submission.id != before.confessions[b].submission.id);
            }
        }
    }

    /// The snapshot query.
    pub fn snapshot(&self) -> (res: SessionSnapshot)
        ensures
            res.session_id@ == self@.session_id,
            confession_views(res.confessions@) == self@.confessions,
    {
        let mut confessions: Vec<SessionConfession> = Vec::new();
        let mut i: usize = 0;
        while i < self.confessions.len()
            invariant
                i <= self.confessions@.len(),
                confessions@.len() == i,
                forall|k: int|
                    0 <= k < i ==> (#[trigger] confessions@[k])@ == self.confessions@[k]@,
            decreases self.confessions@.len() - i,
        {
            confessions.push(self.confessions[i].clone());
            i += 1;
        }
        assert(confession_views(confessions@) =~= self@.confessions);
        SessionSnapshot { session_id: self.session_id.clone(), confessions }
    }

    fn first_matching(&self, work: Work) -> (res: Option<usize>)
        ensures
            match res {
                Some(i) => first_waiting(self@.confessions, work, 0) == i && i
                    < self.confessions@.len(),
                None => first_waiting(self@.confessions, work, 0) < 0,
            },
    {
        let mut i: usize = 0;
        while i < self.confessions.len()
            invariant
                i <= self.confessions@.len(),
                first_waiting(self@.confessions, work, 0) == first_waiting(
                    self@.confessions,
                    work,
                    i as int,
                ),
            decreases self.confessions@.len() - i,
        {
            if is_waiting(work, &self.confessions[i]) {
                return Some(i);
            }
            i += 1;
        }
        None
    }

    /// Whether a confession waits to be composed or delivered.
    pub fn has_work(&self) -> (res: bool)
        ensures
            res == exists|i: int, work: Work|
                0 <= i < self@.confessions.len() && #[trigger] waits_for(
                    work,
                    self@.confessions[i],
                ),
    {
        let compose = self.first_matching(Work::Compose);
        let deliver = self.first_matching(Work::Deliver);
        proof {
            lemma_first_waiting(self@.confessions, Work::Compose, 0);
            lemma_first_waiting(self@.confessions, Work::Deliver, 0);
            if let Some(i) = compose {
                assert(waits_for(Work::Compose, self@.confessions[i as int]));
            }
            if let Some(i) = deliver {
                assert(waits_for(Work::Deliver, self@.confessions[i as int]));
            }
            if compose is None && deliver is None {
                assert forall|i: int, work: Work|
                    0 <= i < self@.confessions.len() implies !(#[trigger] waits_for(
                    work,
                    self@.confessions[i],
                )) by {
                    match work {
                        Work::Compose => {},
                        Work::Deliver => {},
                    }
                }
            }
        }
        compose.is_some() || deliver.is_some()
    }

    fn take_up_work(&mut self) -> (res: SessionCommand)
        requires
            old(self).active is None,
        ensures
            (final(self)@, res@) == pick_work(old(self)@),
    {
        let ghost before = self@;
        if let Some(i) = self.first_matching(Work::Compose) {
            let (phase, progress) = begin_confession(&mut self.confessions[i]);
            self.phase = phase;
            self.active = Some(i);
            proof {
                let m = begin(before.confessions[i as int]);
                assert(self@.confessions =~= before.confessions.update(i as int, m.item));
            }
            match progress {
                Progress::Run(activity) => SessionCommand::Run(activity),
                _ => SessionCommand::AwaitWork,
            }
        } else if let Some(i) = self.first_matching(Work::Deliver) {
            let (phase, progress) = deliver_confession(&mut self.confessions[i]);
            self.phase = phase;
            self.active = Some(i);
            proof {
                let m = begin_delivery(before.confessions[i as int]);
                assert(self@.confessions =~= before.confessions.update(i as int, m.item));
            }
            match progress {
                Progress::Run(activity) => SessionCommand::Run(activity),
                _ => SessionCommand::AwaitWork,
            }
        } else {
            SessionCommand::AwaitWork
        }
    }

    /// Tests whether an event can reach the Workflow now.
    pub fn expects(&self, event: &WorkflowEvent) -> (res: bool)
        ensures
            res == session_expected(self@, event@),
    {
        match event {
            WorkflowEvent::Completed(result) => self.active.is_some() && result_fits(
                &self.phase,
                result,
            ),
            _ => self.active.is_none(),
        }
    }

    /// Folds an event into the session and says what to run next. A confession
    /// that fails is reported and left; it never fails the session.
    pub fn run(&mut self, event: WorkflowEvent) -> (res: SessionCommand)
        requires
            old(self).wf(),
            session_expected(old(self)@, event@),
        ensures
            final(self).wf(),
            (final(self)@, res@) == session_run(old(self)@, event@),
    {
        proof {
            lemma_session_run_keeps(self@, event@);
        }
        match event {
            WorkflowEvent::Completed(result) => {
                let i: usize = self.active.unwrap();
                let ghost before = self@;
                assert(item_wf(before, i as int)) by {
                    let _ = before.confessions[i as int];
                }
                let mut phase = Phase::Received;
                core::mem::swap(&mut phase, &mut self.phase);
                let (phase, progress) = advance(
                    &mut self.confessions[i],
                    phase,
                    MAX_SESSION_AGENT_STEPS,
                    result,
                );
                proof {
                    let m = next_move(
                        before.confessions[i as int],
                        before.phase,
                        MAX_SESSION_AGENT_STEPS,
                        result@,
                    );
                    assert(self@.confessions =~= before.confessions.update(i as int, m.item));
                }
                match progress {
                    Progress::Run(activity) => {
                        self.phase = phase;
                        SessionCommand::Run(activity)
                    },
                    _ => {
                        self.active = None;
                        self.take_up_work()
                    },
                }
            },
            _ => self.take_up_work(),
        }
    }
}

/// The session with a confession added, unless it is already there.
pub open spec fn session_add(state: SessionState, submission: SubmissionView) -> SessionState {
    if exists|i: int|
        0 <= i < state.confessions.len() && (#[trigger] state.confessions[i]).submission.id
            == submission.id {
        state
    } else {
        SessionState {
            confessions: state.confessions.push(fresh_confession(submission)),
            ..state
        }
    }
}

/// A confession as a release of its session leaves it.
pub open spec fn release_item(item: ConfessionView) -> ConfessionView {
    if item.status == SubmissionStatus::Sent || item.status == SubmissionStatus::Failed {
        item
    } else {
        with_release(item)
    }
}

/// The session with every unfinished confession released.
pub open spec fn session_release(state: SessionState) -> SessionState {
    SessionState {
        confessions: state.confessions.map_values(|item: ConfessionView| release_item(item)),
        ..state
    }
}

/// Adding a confession twice is adding it once.
pub proof fn law_adding_is_idempotent(state: SessionState, submission: SubmissionView)
    ensures
        session_add(session_add(state, submission), submission) == session_add(state, submission),
{
    let once = session_add(state, submission);
    if once != state {
        assert(once.confessions.last().submission.id == submission.id);
    }
}

/// Adding a confession leaves those that are there as they are, in their order.
pub proof fn law_adding_keeps_the_others(state: SessionState, submission: SubmissionView)
    ensures
        state.confessions.is_prefix_of(session_add(state, submission).confessions),
        session_add(state, submission).confessions.len() <= state.confessions.len() + 1,
        exists|i: int|
            0 <= i < session_add(state, submission).confessions.len() && (
            #[trigger] session_add(state, submission).confessions[i]).submission.id
                == submission.id,
{
    let once = session_add(state, submission);
    if once != state {
        assert(once.confessions.last().submission.id == submission.id);
    }
}

/// Releasing a session twice is releasing it once.
pub proof fn law_releasing_is_idempotent(state: SessionState)
    ensures
        session_release(session_release(state)) == session_release(state),
{
    let once = session_release(state);
    assert(session_release(once).confessions =~= once.confessions);
}

/// An event touches only the confession that was being worked on and the one
/// that is picked up next; every other confession is as it was, and none is lost
/// or reordered. So a confession that fails leaves the others alone.
pub proof fn law_confessions_are_isolated(state: SessionState, event: WorkflowEventView, i: int)
    requires
        session_wf(state),
        session_expected(state, event),
        0 <= i < state.confessions.len(),
    ensures
        ({
            let after = session_run(state, event).0;
            &&& after.session_id == state.session_id
            &&& after.confessions.len() == state.confessions.len()
            &&& after.confessions[i].submission == state.confessions[i].submission
            &&& state.active != Some(i) && after.active != Some(i) ==> after.confessions[i]
                == state.confessions[i]
        }),
{
    lemma_first_waiting(state.confessions, Work::Compose, 0);
    lemma_first_waiting(state.confessions, Work::Deliver, 0);
    if let WorkflowEventView::Completed(result) = event {
        let k = state.active->0;
        assert(item_wf(state, k));
        let m = next_move(state.confessions[k], state.phase, MAX_SESSION_AGENT_STEPS, result);
        lemma_next_move_keeps(
            state.confessions[k],
            state.phase,
            MAX_SESSION_AGENT_STEPS,
            result,
        );
        let rest = idle(take(state, k, m));
        lemma_first_waiting(rest.confessions, Work::Compose, 0);
        lemma_first_waiting(rest.confessions, Work::Deliver, 0);
    }
}

/// A session that waits has nothing left to do: no confession is uncomposed, and
/// none that has been released is undelivered.
pub proof fn law_waiting_means_no_work(state: SessionState, event: WorkflowEventView)
    requires
        session_wf(state),
        session_expected(state, event),
        session_run(state, event).1 is AwaitWork,
    ensures
        session_run(state, event).0.active is None,
        forall|i: int, work: Work|
            0 <= i < session_run(state, event).0.confessions.len() ==> !(#[trigger] waits_for(
                work,
                session_run(state, event).0.confessions[i],
            )),
{
    let after = session_run(state, event).0;
    lemma_first_waiting(after.confessions, Work::Compose, 0);
    lemma_first_waiting(after.confessions, Work::Deliver, 0);
    assert forall|i: int, work: Work| 0 <= i < after.confessions.len() implies !(
    #[trigger] waits_for(work, after.confessions[i])) by {
        match work {
            Work::Compose => {},
            Work::Deliver => {},
        }
    }
}

/// A session composes before it delivers: it takes up a delivery only when no
/// confession waits to be composed, and only of a confession that has been
/// released.
pub proof fn law_composing_comes_first(state: SessionState)
    requires
        session_wf(state),
        state.active is None,
        delivering(pick_work(state).0.phase),
    ensures
        pick_work(state).0.active matches Some(i) && state.confessions[i].released
            && state.confessions[i].status == SubmissionStatus::ReplyPending,
        forall|i: int|
            0 <= i < state.confessions.len() ==> (#[trigger] state.confessions[i]).status
                != SubmissionStatus::Received,
{
    lemma_first_waiting(state.confessions, Work::Compose, 0);
    lemma_first_waiting(state.confessions, Work::Deliver, 0);
}

/// In a session too a reply goes out only after its release.
pub proof fn law_session_delivers_only_released(state: SessionState, event: WorkflowEventView)
    requires
        session_wf(state),
        session_expected(state, event),
        session_run(state, event).1 matches SessionCommandView::Run(activity) && activity is Deliver,
    ensures
        session_run(state, event).0.active matches Some(i) && session_run(
            state,
            event,
        ).0.confessions[i].released,
{
    lemma_session_run_keeps(state, event);
    let after = session_run(state, event).0;
    lemma_first_waiting(state.confessions, Work::Compose, 0);
    lemma_first_waiting(state.confessions, Work::Deliver, 0);
    if let WorkflowEventView::Completed(result) = event {
        assert(item_wf(state, state.active->0)) by {
            let _ = state.confessions[state.active->0];
        }
        let m = next_move(
            state.confessions[state.active->0],
            state.phase,
            MAX_SESSION_AGENT_STEPS,
            result,
        );
        let rest = idle(take(state, state.active->0, m));
        lemma_first_waiting(rest.confessions, Work::Compose, 0);
        lemma_first_waiting(rest.confessions, Work::Deliver, 0);
    }
    if let Some(i) = after.active {
        assert(item_wf(after, i)) by {
            let _ = after.confessions[i];
        }
    }
}

/// A release reaches every confession that is neither sent nor failed, whatever
/// it is being worked on for. It changes nothing else.
pub proof fn law_a_release_reaches_every_unfinished_confession(state: SessionState, i: int)
    requires
        0 <= i < state.confessions.len(),
    ensures
        ({
            let item = state.confessions[i];
            let finished = item.status == SubmissionStatus::Sent || item.status
                == SubmissionStatus::Failed;
            let after = session_release(state);
            &&& after.session_id == state.session_id
            &&& after.active == state.active
            &&& after.phase == state.phase
            &&& after.confessions.len() == state.confessions.len()
            &&& after.confessions[i] == (ConfessionView {
                released: item.released || !finished,
                ..item
            })
        }),
{
}

/// Every confession is finished or has been released.
pub open spec fn all_released(state: SessionState) -> bool {
    forall|i: int|
        0 <= i < state.confessions.len() ==> (#[trigger] state.confessions[i]).released
            || state.confessions[i].status == SubmissionStatus::Sent
            || state.confessions[i].status == SubmissionStatus::Failed
}

/// Every confession has been sent or has failed.
pub open spec fn all_finished(state: SessionState) -> bool {
    forall|i: int|
        0 <= i < state.confessions.len() ==> (#[trigger] state.confessions[i]).status
            == SubmissionStatus::Sent || state.confessions[i].status == SubmissionStatus::Failed
}

/// An event takes no release back, and leaves a confession that was sent or has
/// failed as it is.
pub proof fn law_what_is_finished_stays(state: SessionState, event: WorkflowEventView, i: int)
    requires
        session_wf(state),
        session_expected(state, event),
        0 <= i < state.confessions.len(),
    ensures
        session_run(state, event).0.confessions.len() == state.confessions.len(),
        session_run(state, event).0.confessions[i].released == state.confessions[i].released,
        state.confessions[i].status == SubmissionStatus::Sent || state.confessions[i].status
            == SubmissionStatus::Failed ==> session_run(state, event).0.confessions[i]
            == state.confessions[i],
{
    lemma_first_waiting(state.confessions, Work::Compose, 0);
    lemma_first_waiting(state.confessions, Work::Deliver, 0);
    assert(item_wf(state, i)) by {
        let _ = state.confessions[i];
    }
    if let WorkflowEventView::Completed(result) = event {
        let k = state.active->0;
        assert(item_wf(state, k)) by {
            let _ = state.confessions[k];
        }
        let m = next_move(state.confessions[k], state.phase, MAX_SESSION_AGENT_STEPS, result);
        let rest = idle(take(state, k, m));
        lemma_first_waiting(rest.confessions, Work::Compose, 0);
        lemma_first_waiting(rest.confessions, Work::Deliver, 0);
    }
}

/// A session that has been released stays released, whatever happens, as long as
/// nothing is added; and one that has been released and waits for work holds
/// only confessions that were sent or have failed.
pub proof fn law_a_released_session_finishes(state: SessionState, event: WorkflowEventView)
    requires
        session_wf(state),
        session_expected(state, event),
        all_released(state),
    ensures
        all_released(session_run(state, event).0),
        session_run(state, event).1 is AwaitWork ==> all_finished(session_run(state, event).0),
{
    let after = session_run(state, event).0;
    lemma_session_run_keeps(state, event);
    assert forall|i: int| 0 <= i < after.confessions.len() implies (
    #[trigger] after.confessions[i]).released || after.confessions[i].status
        == SubmissionStatus::Sent || after.confessions[i].status == SubmissionStatus::Failed by {
        law_what_is_finished_stays(state, event, 0);
        law_what_is_finished_stays(state, event, i);
        let _ = state.confessions[i];
        assert(item_wf(state, i));
        assert(item_wf(after, i));
    }
    if session_run(state, event).1 is AwaitWork {
        law_waiting_means_no_work(state, event);
        assert forall|i: int| 0 <= i < after.confessions.len() implies (
        #[trigger] after.confessions[i]).status == SubmissionStatus::Sent
            || after.confessions[i].status == SubmissionStatus::Failed by {
            assert(item_wf(after, i));
            assert(!waits_for(Work::Compose, after.confessions[i]));
            assert(!waits_for(Work::Deliver, after.confessions[i]));
        }
    }
}

/// The session that events lead to.
pub open spec fn session_after(state: SessionState, events: Seq<WorkflowEventView>) -> SessionState
    decreases events.len(),
{
    if events.len() == 0 {
        state
    } else {
        session_run(session_after(state, events.drop_last()), events.last()).0
    }
}

/// Events that can reach a session one after the other.
pub open spec fn can_reach(state: SessionState, events: Seq<WorkflowEventView>) -> bool
    decreases events.len(),
{
    events.len() > 0 ==> can_reach(state, events.drop_last()) && session_expected(
        session_after(state, events.drop_last()),
        events.last(),
    )
}

/// A release is for good: whatever happens after it, up to the next addition,
/// every unfinished confession of the session stays released.
pub proof fn law_a_release_is_for_good(state: SessionState, events: Seq<WorkflowEventView>)
    requires
        session_wf(state),
        can_reach(session_release(state), events),
    ensures
        session_wf(session_after(session_release(state), events)),
        all_released(session_after(session_release(state), events)),
    decreases events.len(),
{
    let start = session_release(state);
    if events.len() == 0 {
        assert forall|i: int| 0 <= i < start.confessions.len() implies item_wf(start, i) by {
            assert(item_wf(state, i)) by {
                let _ = state.confessions[i];
            }
        }
        assert(distinct_ids(start.confessions)) by {
            assert forall|i: int, j: int| 0 <= i < j < start.confessions.len() implies (
            #[trigger] start.confessions[i]).submission.id != (
            #[trigger] start.confessions[j]).submission.id by {
                assert(state.confessions[i].submission.id != state.confessions[j].submission.id);
            }
        }
    } else {
        law_a_release_is_for_good(state, events.drop_last());
        let before = session_after(start, events.drop_last());
        law_a_released_session_finishes(before, events.last());
        lemma_session_run_keeps(before, events.last());
    }
}

/// A session that waits for work after its release, with nothing added since,
/// holds only confessions that were sent or have failed.
pub proof fn law_a_release_lets_a_session_finish(
    state: SessionState,
    events: Seq<WorkflowEventView>,
    event: WorkflowEventView,
)
    requires
        session_wf(state),
        can_reach(session_release(state), events.push(event)),
        session_run(session_after(session_release(state), events), event).1 is AwaitWork,
    ensures
        all_finished(session_run(session_after(session_release(state), events), event).0),
{
    assert(events.push(event).drop_last() =~= events);
    law_a_release_is_for_good(state, events);
    law_a_released_session_finishes(session_after(session_release(state), events), event);
}

/// Work is taken up in the order of arrival: an idle session takes up the first
/// confession that waits to be composed, and where there is none the first
/// released one that waits to be delivered. Each begins with its report.
pub proof fn law_work_is_taken_up_in_order(state: SessionState, i: int)
    requires
        session_wf(state),
        state.active is None,
        0 <= i < state.confessions.len(),
    ensures
        state.confessions[i].status == SubmissionStatus::Received && (forall|j: int|
            0 <= j < i ==> (#[trigger] state.confessions[j]).status != SubmissionStatus::Received)
            ==> {
            &&& pick_work(state).0.active == Some(i)
            &&& pick_work(state).0.phase is ReportingJudging
            &&& pick_work(state).0.confessions == state.confessions.update(
                i,
                ConfessionView { status: SubmissionStatus::Judging, ..state.confessions[i] },
            )
            &&& pick_work(state).1 matches SessionCommandView::Run(ActivityView::ReportStage(update))
                && update.id == state.confessions[i].submission.id && update.status
                == SubmissionStatus::Judging
        },
        state.confessions[i].status == SubmissionStatus::ReplyPending && state.confessions[i].released
            && (forall|j: int|
            0 <= j < state.confessions.len() ==> (#[trigger] state.confessions[j]).status
                != SubmissionStatus::Received) && (forall|j: int|
            0 <= j < i ==> (#[trigger] state.confessions[j]).status
                != SubmissionStatus::ReplyPending || !state.confessions[j].released) ==> {
            &&& pick_work(state).0.active == Some(i)
            &&& pick_work(state).0.phase is ReportingSending
            &&& pick_work(state).0.confessions == state.confessions.update(
                i,
                ConfessionView { status: SubmissionStatus::Sending, ..state.confessions[i] },
            )
            &&& pick_work(state).1 matches SessionCommandView::Run(ActivityView::ReportStage(update))
                && update.id == state.confessions[i].submission.id && update.status
                == SubmissionStatus::Sending
        },
{
    lemma_first_is_first(state.confessions, Work::Compose, 0);
    lemma_first_is_first(state.confessions, Work::Deliver, 0);
    lemma_first_waiting(state.confessions, Work::Compose, 0);
    lemma_first_waiting(state.confessions, Work::Deliver, 0);
}

proof fn lemma_first_is_first(items: Seq<ConfessionView>, work: Work, from: int)
    requires
        0 <= from,
    ensures
        forall|j: int|
            from <= j < first_waiting(items, work, from) ==> !waits_for(work, #[trigger] items[j]),
    decreases items.len() - from,
{
    if from < items.len() && !waits_for(work, items[from]) {
        lemma_first_is_first(items, work, from + 1);
    }
}

/// The confession that is worked on goes the way of its own moves, with the
/// session's limit on turns; when it has come to rest, the session takes up other
/// work.
pub proof fn law_a_session_works_on_one_confession(state: SessionState, result: ResultView)
    requires
        session_wf(state),
        session_expected(state, WorkflowEventView::Completed(result)),
    ensures
        ({
            let k = state.active->0;
            let m = next_move(state.confessions[k], state.phase, 4, result);
            let (after, command) = session_run(state, WorkflowEventView::Completed(result));
            match m.progress {
                ProgressView::Run(activity) => {
                    &&& command == SessionCommandView::Run(activity)
                    &&& after.active == Some(k)
                    &&& after.phase == m.phase
                    &&& after.confessions == state.confessions.update(k, m.item)
                },
                _ => (after, command) == pick_work(
                    SessionState {
                        confessions: state.confessions.update(k, m.item),
                        active: None,
                        phase: PhaseView::Received,
                        ..state
                    },
                ),
            }
        }),
{
}

/// A new confession is added behind the others as it came, with nothing done on
/// it yet, and released unless it is to be held.
pub proof fn law_a_new_confession_is_added_as_it_came(
    state: SessionState,
    submission: SubmissionView,
)
    requires
        forall|i: int|
            0 <= i < state.confessions.len() ==> (#[trigger] state.confessions[i]).submission.id
                != submission.id,
    ensures
        ({
            let after = session_add(state, submission);
            let item = after.confessions.last();
            &&& after.confessions.len() == state.confessions.len() + 1
            &&& after.session_id == state.session_id
            &&& after.active == state.active
            &&& after.phase == state.phase
            &&& item.submission == submission
            &&& item.status == SubmissionStatus::Received
            &&& item.plan is None
            &&& item.findings.len() == 0
            &&& item.steps.len() == 0
            &&& item.judgment is None
            &&& item.released == !submission.hold_before_reply
        }),
{
}

} // verus!
