//! The stage: which confessions it takes, what it answers, and what becomes of
//! them when Temporal accepts or refuses them.
use vstd::prelude::*;

use crate::board::{
    awards_for, fresh_board, fresh_ulid, inserted, is_ulid, is_winner,
    law_nothing_to_release_when_all_finished, lemma_row_from, marked_failed, releasable, row_from, row_of, row_views, unfinished, updated, Award, BoardView, InsertError, StoredStageState,
};
use crate::config::{StageConfig, StageConfigView};
use crate::domain::{
    received_row, text_of, AgentMode, PublicStageState, StageSubmission, StageSubmissionView,
    StageUpdate, SubmissionInput, SubmissionStatus, SubmissionView, Timestamp, WorkflowMode,
};
use crate::moderation::{
    is_gap, law_sanitized_empty_iff_nothing_visible, mask_words, masked, sanitize_for_stage, sanitized,
};
use crate::temporal::{
    session_workflow_id, session_workflow_id_of, workflow_id, workflow_id_of,
};
use crate::text::{
    ascii_alphanumeric, ascii_lowercase, begins_with, decimal, is_ascii_alphanumeric, pairs, same,
    starts_with, to_ascii_lowercase, to_chars, to_decimal, trim, trimmed, value_named,
};
use crate::twilio::{
    command_of, compliance_keyword, form_field, form_pairs, is_signature, parse_form_body,
    verify_twilio_signature,
};
use crate::twilio_poll::{submission_id_for, twilio_submission_id};

verus! {

// ---------------------------------------------------------------------------
// Errors
// ---------------------------------------------------------------------------
/// What the stage answers when it refuses: an HTTP status and a message.
#[derive(Debug, PartialEq, Eq)]
pub struct ApiError {
    pub status: u16,
    pub message: String,
}

#[verifier::ext_equal]
pub struct ApiErrorView {
    pub status: u16,
    pub message: Seq<char>,
}

impl View for ApiError {
    type V = ApiErrorView;

    open spec fn view(&self) -> ApiErrorView {
        ApiErrorView { status: self.status, message: self.message@ }
    }
}

pub open spec fn refusal(status: u16, message: Seq<char>) -> ApiErrorView {
    ApiErrorView { status, message }
}

impl ApiError {
    pub fn bad_request(message: String) -> (res: Self)
        ensures
            res@ == refusal(400, message@),
    {
        ApiError { status: 400, message }
    }

    pub fn unauthorized() -> (res: Self)
        ensures
            res@ == refusal(401, "unauthorized"@),
    {
        ApiError { status: 401, message: "unauthorized".to_owned() }
    }

    pub fn forbidden(message: String) -> (res: Self)
        ensures
            res@ == refusal(403, message@),
    {
        ApiError { status: 403, message }
    }

    pub fn not_found(message: String) -> (res: Self)
        ensures
            res@ == refusal(404, message@),
    {
        ApiError { status: 404, message }
    }

    pub fn conflict(message: String) -> (res: Self)
        ensures
            res@ == refusal(409, message@),
    {
        ApiError { status: 409, message }
    }

    pub fn too_many_requests(message: String) -> (res: Self)
        ensures
            res@ == refusal(429, message@),
    {
        ApiError { status: 429, message }
    }

    /// The answer to a fault of the stage's own, which gives nothing away.
    pub fn internal() -> (res: Self)
        ensures
            res@ == refusal(500, "internal stage error"@),
    {
        ApiError { status: 500, message: "internal stage error".to_owned() }
    }

    pub fn unavailable(message: String) -> (res: Self)
        ensures
            res@ == refusal(503, message@),
    {
        ApiError { status: 503, message }
    }
}

// ---------------------------------------------------------------------------
// Submission identities
// ---------------------------------------------------------------------------
/// A character of a submission identity.
pub open spec fn is_id_char(c: char) -> bool {
    is_ascii_alphanumeric(c) || c == '-' || c == '_'
}

/// A submission identity: 1 to 128 ASCII letters, digits, '-' or '_'.
pub open spec fn is_submission_id(id: Seq<char>) -> bool {
    1 <= id.len() <= 128 && forall|i: int| 0 <= i < id.len() ==> is_id_char(#[trigger] id[i])
}

/// The answer to a bad submission identity.
pub open spec fn bad_id() -> ApiErrorView {
    refusal(400, "submission identity must be 1-128 ASCII letters, digits, '-' or '_'"@)
}

pub fn validate_submission_id(id: &str) -> (res: Result<(), ApiError>)
    ensures
        match res {
            Ok(_) => is_submission_id(id@),
            Err(error) => !is_submission_id(id@) && error@ == bad_id(),
        },
{
    let chars = to_chars(id);
    let mut fine = 1 <= chars.len() && chars.len() <= 128;
    let mut i: usize = 0;
    while i < chars.len()
        invariant
            i <= chars@.len(),
            chars@ == id@,
            fine == (1 <= id@.len() <= 128 && forall|k: int|
                0 <= k < i ==> is_id_char(#[trigger] id@[k])),
        decreases chars@.len() - i,
    {
        let c: char = chars[i];
        assert(id@[i as int] == c);
        if !(ascii_alphanumeric(c) || c == '-' || c == '_') {
            fine = false;
        }
        i += 1;
    }
    if fine {
        Ok(())
    } else {
        Err(
            ApiError::bad_request(
                "submission identity must be 1-128 ASCII letters, digits, '-' or '_'".to_owned(),
            ),
        )
    }
}

/// The identity of a browser's submission: the key that the request names, if
/// it names one. `header` is the idempotency header's value; the inner `None`
/// stands for a value that is no visible ASCII.
pub fn optional_idempotency_key(header: Option<Option<String>>) -> (res: Result<
    Option<String>,
    ApiError,
>)
    ensures
        match header {
            None => res matches Ok(id) && id is None,
            Some(None) => res matches Err(error) && error@ == refusal(
                400,
                "Idempotency-Key must be valid ASCII"@,
            ),
            Some(Some(key)) => res matches Ok(id) && text_of(id) == Some("web-"@ + key@),
        },
{
    match header {
        None => Ok(None),
        Some(None) => Err(
            ApiError::bad_request("Idempotency-Key must be valid ASCII".to_owned()),
        ),
        Some(Some(key)) => {
            let mut id = "web-".to_owned();
            id.append(key.as_str());
            Ok(Some(id))
        },
    }
}

// ---------------------------------------------------------------------------
// The stage's state
// ---------------------------------------------------------------------------
/// The stage: its board, what it was configured with, and what it knows of
/// Temporal and of the Worker.
pub struct StageApp {
    pub store: StoredStageState,
    pub config: StageConfig,
    pub temporal_connected: bool,
    pub model_mode: String,
}

#[verifier::ext_equal]
pub struct StageView {
    pub store: BoardView,
    pub config: StageConfigView,
    pub temporal_connected: bool,
    pub model_mode: Seq<char>,
}

impl View for StageApp {
    type V = StageView;

    open spec fn view(&self) -> StageView {
        StageView {
            store: self.store@,
            config: self.config@,
            temporal_connected: self.temporal_connected,
            model_mode: self.model_mode@,
        }
    }
}

impl StageApp {
    pub fn new(config: StageConfig, store: StoredStageState) -> (res: Self)
        ensures
            res@ == (StageView {
                store: store@,
                config: config@,
                temporal_connected: false,
                model_mode: Seq::empty(),
            }),
    {
        let res = StageApp {
            store,
            config,
            temporal_connected: false,
            model_mode: String::new(),
        };
        assert(res@.model_mode =~= Seq::empty());
        res
    }
}

// ---------------------------------------------------------------------------
// Admission
// ---------------------------------------------------------------------------
/// What becomes of a confession that the stage has taken.
#[derive(Debug, PartialEq, Eq)]
pub enum Admission {
    /// It is on the board already, and on its way.
    Settled(StageSubmission),
    /// It has to be handed to Temporal.
    Dispatch {
        staged: StageSubmission,
        input: SubmissionInput,
        /// The row is new, so the board has to be written first.
        inserted: bool,
        mode: WorkflowMode,
    },
}

#[verifier::ext_equal]
pub enum AdmissionView {
    Settled(StageSubmissionView),
    Dispatch {
        staged: StageSubmissionView,
        input: SubmissionView,
        inserted: bool,
        mode: WorkflowMode,
    },
}

impl View for Admission {
    type V = AdmissionView;

    open spec fn view(&self) -> AdmissionView {
        match self {
            Admission::Settled(staged) => AdmissionView::Settled(staged@),
            Admission::Dispatch { staged, input, inserted, mode } => AdmissionView::Dispatch {
                staged: staged@,
                input: input@,
                inserted: *inserted,
                mode: *mode,
            },
        }
    }
}

/// Why a text is no confession, if it is none; `text` is trimmed already.
pub open spec fn text_fault(text: Seq<char>, max_chars: nat) -> Option<ApiErrorView> {
    if text.len() == 0 {
        Some(refusal(400, "confession cannot be empty"@))
    } else if text.len() > max_chars {
        Some(
            refusal(
                400,
                "confession is "@ + decimal(text.len()) + " characters; maximum is "@ + decimal(
                    max_chars,
                ),
            ),
        )
    } else if sanitized(text).len() == 0 {
        Some(refusal(400, "confession must contain visible text"@))
    } else {
        None
    }
}

/// A confession as its Workflow is given it.
pub open spec fn input_for(
    board: BoardView,
    text: Seq<char>,
    id: Seq<char>,
    now: Timestamp,
) -> SubmissionView {
    SubmissionView {
        id,
        session_id: board.session_id,
        text,
        created_at: now,
        hold_before_reply: board.held,
        agent_mode: board.agent_mode,
    }
}

/// The Workflow that a confession goes to.
pub open spec fn target_workflow(mode: WorkflowMode, input: SubmissionView) -> Seq<char> {
    match mode {
        WorkflowMode::PerConfession => workflow_id_of(input.id),
        WorkflowMode::Session => session_workflow_id_of(input.session_id),
    }
}

/// The row for a new confession. Its text is a placeholder, unless raw
/// confessions are shown: then it is the confession's own, sanitized and with
/// the listed words masked.
pub open spec fn row_for(stage: StageView, input: SubmissionView) -> StageSubmissionView {
    let row = received_row(input, target_workflow(stage.store.workflow_mode, input));
    if stage.config.show_raw_confessions {
        StageSubmissionView {
            text: masked(sanitized(input.text), stage.config.mask_words),
            ..row
        }
    } else {
        row
    }
}

/// The answer of a stage whose session is full.
pub open spec fn at_capacity(maximum: nat) -> ApiErrorView {
    refusal(
        429,
        "this session has reached its limit of "@ + decimal(maximum) + " confessions"@,
    )
}

/// What the stage does with a confession of this identity at this time.
pub open spec fn admission(
    stage: StageView,
    text: Seq<char>,
    id: Seq<char>,
    now: Timestamp,
) -> (StageView, Result<AdmissionView, ApiErrorView>) {
    let said = trimmed(text);
    let maximum = stage.config.max_submissions_per_session;
    match text_fault(said, stage.config.max_confession_chars) {
        Some(error) => (stage, Err(error)),
        None => if !is_submission_id(id) {
            (stage, Err(bad_id()))
        } else {
            let input = input_for(stage.store, said, id, now);
            let (store, outcome) = inserted(stage.store, row_for(stage, input), maximum);
            match outcome {
                Err(_) => (stage, Err(at_capacity(maximum))),
                Ok((staged, added)) => (
                    StageView { store, ..stage },
                    Ok(
                        if !added && staged.status != SubmissionStatus::Received && staged.status
                            != SubmissionStatus::Failed {
                            AdmissionView::Settled(staged)
                        } else {
                            AdmissionView::Dispatch {
                                staged,
                                input: SubmissionView {
                                    session_id: staged.session_id,
                                    created_at: staged.created_at,
                                    ..input
                                },
                                inserted: added,
                                mode: stage.store.workflow_mode,
                            }
                        },
                    ),
                ),
            }
        },
    }
}

/// Checks a confession's text; gives its sanitized form.
fn check_text(said: &str, max_chars: usize) -> (res: Result<String, ApiError>)
    ensures
        match res {
            Ok(cleaned) => text_fault(said@, max_chars as nat) is None && cleaned@ == sanitized(
                said@,
            ),
            Err(error) => text_fault(said@, max_chars as nat) == Some(error@),
        },
{
    let char_count: usize = said.unicode_len();
    if char_count == 0 {
        return Err(ApiError::bad_request("confession cannot be empty".to_owned()));
    }
    if char_count > max_chars {
        let mut message = "confession is ".to_owned();
        let count = to_decimal(char_count as u64);
        message.append(count.as_str());
        message.append(" characters; maximum is ");
        let most = to_decimal(max_chars as u64);
        message.append(most.as_str());
        return Err(ApiError::bad_request(message));
    }
    let cleaned = sanitize_for_stage(said);
    if cleaned.as_str().is_empty() {
        return Err(ApiError::bad_request("confession must contain visible text".to_owned()));
    }
    Ok(cleaned)
}

impl StageApp {
    /// Takes a confession under an identity. A source that retries finds the row
    /// that it added first; Temporal's Workflow identifier stays the
    /// authoritative idempotency boundary.
    pub fn submit_text_admitted(&mut self, text: &str, id: String, now: Timestamp) -> (res: Result<
        Admission,
        ApiError,
    >)
        ensures
            final(self)@ == admission(old(self)@, text@, id@, now).0,
            match res {
                Ok(taken) => admission(old(self)@, text@, id@, now).1 == Ok::<
                    AdmissionView,
                    ApiErrorView,
                >(taken@),
                Err(error) => admission(old(self)@, text@, id@, now).1 == Err::<
                    AdmissionView,
                    ApiErrorView,
                >(error@),
            },
    {
        let said = trim(text);
        let cleaned = match check_text(said.as_str(), self.config.max_confession_chars) {
            Ok(cleaned) => cleaned,
            Err(error) => return Err(error),
        };
        if let Err(error) = validate_submission_id(id.as_str()) {
            return Err(error);
        }
        let mode = self.store.workflow_mode;
        let mut input = SubmissionInput {
            id,
            session_id: self.store.session_id.clone(),
            text: said,
            created_at: now,
            hold_before_reply: self.store.held,
            agent_mode: self.store.agent_mode,
        };
        assert(input@ == input_for(self@.store, said@, id@, now));
        let target = match mode {
            WorkflowMode::PerConfession => workflow_id(input.id.as_str()),
            WorkflowMode::Session => session_workflow_id(input.session_id.as_str()),
        };
        let mut row = StageSubmission::received(&input, target);
        if self.config.show_raw_confessions {
            row.text = mask_words(cleaned.as_str(), self.config.mask_words.as_slice());
        }
        assert(row@ =~= row_for(self@, input@));
        let maximum: usize = self.config.max_submissions_per_session;
        let (staged, added) = match self.store.insert_if_absent(row, maximum) {
            Ok(outcome) => outcome,
            Err(InsertError::AtCapacity) => {
                let mut message = "this session has reached its limit of ".to_owned();
                let most = to_decimal(maximum as u64);
                message.append(most.as_str());
                message.append(" confessions");
                return Err(ApiError::too_many_requests(message));
            },
        };
        input.session_id = staged.session_id.clone();
        input.created_at = staged.created_at;
        if !added && staged.status != SubmissionStatus::Received && staged.status
            != SubmissionStatus::Failed {
            return Ok(Admission::Settled(staged));
        }
        Ok(Admission::Dispatch { staged, input, inserted: added, mode })
    }

    /// Takes a confession under the identity that its source asks for, or else
    /// under a fresh one.
    pub fn submit_text(
        &mut self,
        text: &str,
        requested_id: Option<String>,
        now: Timestamp,
    ) -> (res: Result<Admission, ApiError>)
        ensures
            exists|id: Seq<char>|
                #![trigger admission(old(self)@, text@, id, now)]
                (match requested_id {
                    Some(requested) => id == requested@,
                    None => is_ulid(id),
                }) && final(self)@ == admission(old(self)@, text@, id, now).0 && match res {
                    Ok(taken) => admission(old(self)@, text@, id, now).1 == Ok::<
                        AdmissionView,
                        ApiErrorView,
                    >(taken@),
                    Err(error) => admission(old(self)@, text@, id, now).1 == Err::<
                        AdmissionView,
                        ApiErrorView,
                    >(error@),
                },
    {
        let id = match requested_id {
            Some(requested) => requested,
            None => fresh_ulid(),
        };
        let ghost used = id@;
        let res = self.submit_text_admitted(text, id, now);
        assert(self@ == admission(old(self)@, text@, used, now).0);
        res
    }
}

// ---------------------------------------------------------------------------
// Handing a confession to Temporal
// ---------------------------------------------------------------------------
/// What came of handing a confession to Temporal.
#[derive(Debug, PartialEq, Eq)]
pub enum DispatchOutcome {
    /// There is no connection, and this is why.
    NotConnected(String),
    /// Temporal did not take it, and this is why.
    Rejected(String),
    Accepted,
}

#[verifier::ext_equal]
pub enum DispatchOutcomeView {
    NotConnected(Seq<char>),
    Rejected(Seq<char>),
    Accepted,
}

impl View for DispatchOutcome {
    type V = DispatchOutcomeView;

    open spec fn view(&self) -> DispatchOutcomeView {
        match self {
            DispatchOutcome::NotConnected(error) => DispatchOutcomeView::NotConnected(error@),
            DispatchOutcome::Rejected(error) => DispatchOutcomeView::Rejected(error@),
            DispatchOutcome::Accepted => DispatchOutcomeView::Accepted,
        }
    }
}

/// What the stage makes of a dispatch: a confession that did not get through is
/// marked as failed.
pub open spec fn dispatched(
    stage: StageView,
    staged: StageSubmissionView,
    outcome: DispatchOutcomeView,
) -> (StageView, Result<StageSubmissionView, ApiErrorView>) {
    match outcome {
        DispatchOutcomeView::NotConnected(error) => (
            StageView { store: marked_failed(stage.store, staged.id, error), ..stage },
            Err(refusal(503, "Temporal is not connected yet"@)),
        ),
        DispatchOutcomeView::Rejected(error) => (
            StageView {
                store: marked_failed(stage.store, staged.id, error),
                temporal_connected: false,
                ..stage
            },
            Err(refusal(503, "Temporal did not accept the confession: "@ + error)),
        ),
        DispatchOutcomeView::Accepted => (
            StageView { temporal_connected: true, ..stage },
            Ok(staged),
        ),
    }
}

impl StageApp {
    /// Concludes a dispatch.
    pub fn finish_dispatch(&mut self, staged: StageSubmission, outcome: DispatchOutcome) -> (res:
        Result<StageSubmission, ApiError>)
        ensures
            final(self)@ == dispatched(old(self)@, staged@, outcome@).0,
            match res {
                Ok(row) => dispatched(old(self)@, staged@, outcome@).1 == Ok::<
                    StageSubmissionView,
                    ApiErrorView,
                >(row@),
                Err(error) => dispatched(old(self)@, staged@, outcome@).1 == Err::<
                    StageSubmissionView,
                    ApiErrorView,
                >(error@),
            },
    {
        match outcome {
            DispatchOutcome::NotConnected(error) => {
                self.store.mark_failed(staged.id.as_str(), error);
                Err(ApiError::unavailable("Temporal is not connected yet".to_owned()))
            },
            DispatchOutcome::Rejected(error) => {
                let mut message = "Temporal did not accept the confession: ".to_owned();
                message.append(error.as_str());
                self.temporal_connected = false;
                self.store.mark_failed(staged.id.as_str(), error);
                Err(ApiError::unavailable(message))
            },
            DispatchOutcome::Accepted => {
                self.temporal_connected = true;
                Ok(staged)
            },
        }
    }
}

/// The request that adds a confession to its session's Workflow, which Temporal
/// deduplicates by.
pub fn add_request_id(submission_id: &str) -> (res: String)
    ensures
        res@ == "add-"@ + submission_id@,
{
    let mut out = "add-".to_owned();
    out.append(submission_id);
    out
}

/// The example confessions, each with the identity under which it is submitted.
pub fn seed_confessions() -> (res: Vec<(String, String)>)
    ensures
        pairs(res@) == seq![
            ("I fixed the race condition with a sleep."@, "seed-0"@),
            ("I clone everything until it compiles."@, "seed-1"@),
            ("I wrote a Python script that now runs the company."@, "seed-2"@),
        ],
{
    let mut out: Vec<(String, String)> = Vec::new();
    out.push(("I fixed the race condition with a sleep.".to_owned(), "seed-0".to_owned()));
    out.push(("I clone everything until it compiles.".to_owned(), "seed-1".to_owned()));
    out.push(
        ("I wrote a Python script that now runs the company.".to_owned(), "seed-2".to_owned()),
    );
    assert(pairs(out@) =~= seq![
        ("I fixed the race condition with a sleep."@, "seed-0"@),
        ("I clone everything until it compiles."@, "seed-1"@),
        ("I wrote a Python script that now runs the company."@, "seed-2"@),
    ]);
    out
}

// ---------------------------------------------------------------------------
// Releasing
// ---------------------------------------------------------------------------
/// A release Signal that has to be sent: to which Workflow, under which request.
#[derive(Debug, PartialEq, Eq)]
pub struct ReleaseSignal {
    pub workflow_id: String,
    pub request_id: String,
}

/// What has to be sent to release the session's unfinished confessions.
#[derive(Debug, PartialEq, Eq)]
pub enum ReleasePlan {
    Nothing,
    /// One Signal frees the whole session, which holds so many confessions.
    Session { signal: ReleaseSignal, waiting: usize },
    Each(Vec<ReleaseSignal>),
}

#[verifier::ext_equal]
pub enum ReleasePlanView {
    Nothing,
    Session { signal: (Seq<char>, Seq<char>), waiting: nat },
    Each(Seq<(Seq<char>, Seq<char>)>),
}

impl View for ReleaseSignal {
    type V = (Seq<char>, Seq<char>);

    open spec fn view(&self) -> (Seq<char>, Seq<char>) {
        (self.workflow_id@, self.request_id@)
    }
}

pub open spec fn signal_views(signals: Seq<ReleaseSignal>) -> Seq<(Seq<char>, Seq<char>)> {
    signals.map_values(|signal: ReleaseSignal| signal@)
}

impl View for ReleasePlan {
    type V = ReleasePlanView;

    open spec fn view(&self) -> ReleasePlanView {
        match self {
            ReleasePlan::Nothing => ReleasePlanView::Nothing,
            ReleasePlan::Session { signal, waiting } => ReleasePlanView::Session {
                signal: signal@,
                waiting: *waiting as nat,
            },
            ReleasePlan::Each(signals) => ReleasePlanView::Each(signal_views(signals@)),
        }
    }
}

/// The request that releases a confession or a session.
pub open spec fn release_request(id: Seq<char>) -> Seq<char> {
    "release-"@ + id
}

/// The Signals that release confessions one by one.
pub open spec fn signals_for(waiting: Seq<(Seq<char>, Seq<char>)>) -> Seq<
    (Seq<char>, Seq<char>),
> {
    waiting.map_values(|entry: (Seq<char>, Seq<char>)| (entry.1, release_request(entry.0)))
}

/// What has to be sent to release a board's unfinished confessions.
pub open spec fn release_plan_of(board: BoardView) -> ReleasePlanView {
    let waiting = releasable(board.submissions, board.session_id);
    if waiting.len() == 0 {
        ReleasePlanView::Nothing
    } else if board.workflow_mode == WorkflowMode::Session {
        ReleasePlanView::Session {
            signal: (session_workflow_id_of(board.session_id), release_request(board.session_id)),
            waiting: waiting.len(),
        }
    } else {
        ReleasePlanView::Each(signals_for(waiting))
    }
}

/// What came of the Signals of a plan.
#[derive(Debug, PartialEq, Eq)]
pub enum ReleaseOutcome {
    NotConnected,
    /// Which of the Signals were accepted, in the order of the plan.
    Signalled(Vec<bool>),
}

/// How many Signals were accepted.
pub open spec fn accepted_in(signals: Seq<bool>) -> nat
    decreases signals.len(),
{
    if signals.len() == 0 {
        0
    } else {
        accepted_in(signals.drop_last()) + if signals.last() {
            1nat
        } else {
            0nat
        }
    }
}

/// How many Signals failed.
pub open spec fn failed_in(signals: Seq<bool>) -> nat
    decreases signals.len(),
{
    if signals.len() == 0 {
        0
    } else {
        failed_in(signals.drop_last()) + if signals.last() {
            0nat
        } else {
            1nat
        }
    }
}

/// Counts the Signals that were accepted and those that failed.
fn tally(signals: &Vec<bool>) -> (res: (usize, usize))
    ensures
        res.0 == accepted_in(signals@),
        res.1 == failed_in(signals@),
{
    let mut accepted: usize = 0;
    let mut failed: usize = 0;
    let mut i: usize = 0;
    while i < signals.len()
        invariant
            i <= signals@.len(),
            accepted == accepted_in(signals@.take(i as int)),
            failed == failed_in(signals@.take(i as int)),
            accepted + failed == i,
        decreases signals@.len() - i,
    {
        assert(signals@.take(i + 1).drop_last() =~= signals@.take(i as int));
        if signals[i] {
            accepted += 1;
        } else {
            failed += 1;
        }
        i += 1;
    }
    assert(signals@.take(i as int) =~= signals@);
    (accepted, failed)
}

/// The outcome of a plan: the count of confessions released, or the refusal.
pub open spec fn released(
    stage: StageView,
    plan: ReleasePlanView,
    outcome: ReleaseOutcome,
) -> (StageView, Result<nat, ApiErrorView>) {
    match (plan, outcome) {
        (ReleasePlanView::Nothing, _) => (stage, Ok(0)),
        (_, ReleaseOutcome::NotConnected) => (
            stage,
            Err(refusal(503, "Temporal is not connected yet"@)),
        ),
        (
            ReleasePlanView::Session { waiting, .. },
            ReleaseOutcome::Signalled(signals),
        ) => if failed_in(signals@) > 0 {
            (
                StageView { temporal_connected: false, ..stage },
                Err(refusal(503, "release signal failed; retry the control"@)),
            )
        } else {
            (StageView { temporal_connected: true, ..stage }, Ok(waiting))
        },
        (
            ReleasePlanView::Each(_),
            ReleaseOutcome::Signalled(signals),
        ) => if failed_in(signals@) > 0 {
            (
                StageView { temporal_connected: false, ..stage },
                Err(
                    refusal(
                        503,
                        "released "@ + decimal(accepted_in(signals@)) + " confessions, but "@
                            + decimal(failed_in(signals@))
                            + " release signals failed; retry the control"@,
                    ),
                ),
            )
        } else {
            (StageView { temporal_connected: true, ..stage }, Ok(accepted_in(signals@)))
        },
    }
}

fn release_request_id(id: &str) -> (res: String)
    ensures
        res@ == release_request(id@),
{
    let mut out = "release-".to_owned();
    out.append(id);
    out
}

impl StageApp {
    /// Plans the release of the session's unfinished confessions.
    pub fn plan_release(&self) -> (res: ReleasePlan)
        ensures
            res@ == release_plan_of(self@.store),
    {
        let waiting = self.store.releasable_workflows();
        let ghost all = pairs(waiting@);
        if waiting.len() == 0 {
            return ReleasePlan::Nothing;
        }
        if self.store.workflow_mode == WorkflowMode::Session {
            let session_id = self.store.session_id.as_str();
            return ReleasePlan::Session {
                signal: ReleaseSignal {
                    workflow_id: session_workflow_id(session_id),
                    request_id: release_request_id(session_id),
                },
                waiting: waiting.len(),
            };
        }
        let mut signals: Vec<ReleaseSignal> = Vec::new();
        let mut i: usize = 0;
        while i < waiting.len()
            invariant
                i <= waiting@.len(),
                all == pairs(waiting@),
                signals@.len() == i,
                forall|k: int|
                    0 <= k < i ==> (#[trigger] signals@[k])@ == (all[k].1, release_request(
                        all[k].0,
                    )),
            decreases waiting@.len() - i,
        {
            let request_id = release_request_id(waiting[i].0.as_str());
            signals.push(ReleaseSignal { workflow_id: waiting[i].1.clone(), request_id });
            i += 1;
        }
        assert(signal_views(signals@) =~= signals_for(all));
        ReleasePlan::Each(signals)
    }

    /// Concludes a release.
    pub fn release_current(&mut self, plan: &ReleasePlan, outcome: ReleaseOutcome) -> (res: Result<
        usize,
        ApiError,
    >)
        ensures
            final(self)@ == released(old(self)@, plan@, outcome).0,
            match res {
                Ok(count) => released(old(self)@, plan@, outcome).1 == Ok::<nat, ApiErrorView>(
                    count as nat,
                ),
                Err(error) => released(old(self)@, plan@, outcome).1 == Err::<nat, ApiErrorView>(
                    error@,
                ),
            },
    {
        match plan {
            ReleasePlan::Nothing => Ok(0),
            ReleasePlan::Session { waiting, .. } => match outcome {
                ReleaseOutcome::NotConnected => Err(
                    ApiError::unavailable("Temporal is not connected yet".to_owned()),
                ),
                ReleaseOutcome::Signalled(signals) => {
                    let (_, failed) = tally(&signals);
                    self.temporal_connected = failed == 0;
                    if failed > 0 {
                        Err(
                            ApiError::unavailable(
                                "release signal failed; retry the control".to_owned(),
                            ),
                        )
                    } else {
                        Ok(*waiting)
                    }
                },
            },
            ReleasePlan::Each(_) => match outcome {
                ReleaseOutcome::NotConnected => Err(
                    ApiError::unavailable("Temporal is not connected yet".to_owned()),
                ),
                ReleaseOutcome::Signalled(signals) => {
                    let (accepted, failed) = tally(&signals);
                    self.temporal_connected = failed == 0;
                    if failed > 0 {
                        let mut message = "released ".to_owned();
                        let done = to_decimal(accepted as u64);
                        message.append(done.as_str());
                        message.append(" confessions, but ");
                        let missed = to_decimal(failed as u64);
                        message.append(missed.as_str());
                        message.append(" release signals failed; retry the control");
                        Err(ApiError::unavailable(message))
                    } else {
                        Ok(accepted)
                    }
                },
            },
        }
    }
}

// ---------------------------------------------------------------------------
// Holding, switching, resetting
// ---------------------------------------------------------------------------
/// The answer to a hold request.
#[derive(Debug, Clone, Copy, PartialEq, Eq, Structural)]
pub struct HoldResponse {
    pub held: bool,
    pub released: usize,
}

/// The stage once a hold request has begun.
pub open spec fn hold_begun(stage: StageView, held: bool) -> StageView {
    StageView { store: BoardView { held, ..stage.store }, ..stage }
}

/// What a release came to.
pub open spec fn release_view(release: Result<usize, ApiError>) -> Result<nat, ApiErrorView> {
    match release {
        Ok(count) => Ok(count as nat),
        Err(error) => Err(error@),
    }
}

/// What a hold request comes to, given what the release came to: the stage, and
/// how many confessions were released. A release that failed puts the hold back.
pub open spec fn hold_concluded(
    stage: StageView,
    held: bool,
    release: Result<nat, ApiErrorView>,
) -> (StageView, Result<nat, ApiErrorView>) {
    if held {
        (hold_begun(stage, true), Ok(0))
    } else {
        match release {
            Ok(count) => (hold_begun(stage, false), Ok(count)),
            Err(error) => (hold_begun(stage, true), Err(error)),
        }
    }
}

/// For how many seconds a reset or a switch waits for the session to drain.
pub const DRAIN_SECONDS: u64 = 12;

/// Every confession of the session has been sent or has failed.
pub open spec fn is_drained(board: BoardView) -> bool {
    releasable(board.submissions, board.session_id).len() == 0
}

/// What has to be sent to switch to a Workflow mode: nothing, if it is the one
/// that is set.
pub open spec fn switch_plan_of(board: BoardView, mode: WorkflowMode) -> ReleasePlanView {
    if board.workflow_mode == mode {
        ReleasePlanView::Nothing
    } else {
        release_plan_of(board)
    }
}

impl StageApp {
    /// Begins to hold replies, or to let them go.
    pub fn begin_hold(&mut self, held: bool)
        ensures
            final(self)@ == hold_begun(old(self)@, held),
    {
        self.store.set_held(held);
    }

    /// Concludes a hold request, given what the release came to. A release that
    /// failed puts the hold back, so that new submissions stay at the checkpoint
    /// and the control can be tried again.
    pub fn set_hold(&mut self, held: bool, release: Result<usize, ApiError>) -> (res: Result<
        HoldResponse,
        ApiError,
    >)
        ensures
            final(self)@ == hold_concluded(old(self)@, held, release_view(release)).0,
            match res {
                Ok(response) => response.held == held && hold_concluded(
                    old(self)@,
                    held,
                    release_view(release),
                ).1 == Ok::<nat, ApiErrorView>(response.released as nat),
                Err(error) => hold_concluded(old(self)@, held, release_view(release)).1 == Err::<
                    nat,
                    ApiErrorView,
                >(error@),
            },
    {
        if held {
            self.store.set_held(true);
            return Ok(HoldResponse { held, released: 0 });
        }
        match release {
            Ok(count) => {
                self.store.set_held(false);
                Ok(HoldResponse { held, released: count })
            },
            Err(error) => {
                self.store.set_held(true);
                Err(error)
            },
        }
    }

    /// Whether every confession of the session has finished.
    pub fn drained(&self) -> (res: bool)
        ensures
            res == is_drained(self@.store),
    {
        let waiting = self.store.releasable_workflows();
        assert(pairs(waiting@).len() == waiting@.len());
        waiting.len() == 0
    }

    /// One look at the board while waiting for it to drain: whether the wait is
    /// over, and if so whether the board has drained.
    pub fn wait_until_terminal(&self, deadline_passed: bool) -> (res: Option<bool>)
        ensures
            res == (if is_drained(self@.store) {
                Some(true)
            } else if deadline_passed {
                Some(false)
            } else {
                None
            }),
    {
        if self.drained() {
            Some(true)
        } else if deadline_passed {
            Some(false)
        } else {
            None
        }
    }

    /// One step of the drain before the board is cleared: whether it is over, and
    /// if so whether the board may be cleared. A release that failed ends it, and
    /// so does a deadline that has passed over an unfinished confession.
    fn drain(&self, release: Result<usize, ApiError>, deadline_passed: bool, message: &str) -> (res:
        Option<Result<(), ApiError>>)
        ensures
            match release {
                Err(error) => res == Some(Err::<(), ApiError>(error)),
                Ok(_) => if is_drained(self@.store) {
                    res matches Some(Ok(_))
                } else if deadline_passed {
                    res matches Some(Err(error)) && error@ == refusal(409, message@)
                } else {
                    res is None
                },
            },
    {
        match release {
            Err(error) => Some(Err(error)),
            Ok(_) => match self.wait_until_terminal(deadline_passed) {
                Some(true) => Some(Ok(())),
                Some(false) => Some(Err(ApiError::conflict(message.to_owned()))),
                None => None,
            },
        }
    }

    /// Whether a request for a Workflow mode asks for another one.
    pub fn changes_mode(&self, mode: WorkflowMode) -> (res: bool)
        ensures
            res == (self@.store.workflow_mode != mode),
    {
        self.store.workflow_mode != mode
    }

    /// Plans the release that comes before a switch to a Workflow mode.
    pub fn plan_switch(&self, mode: WorkflowMode) -> (res: ReleasePlan)
        ensures
            res@ == switch_plan_of(self@.store, mode),
    {
        if self.changes_mode(mode) {
            self.plan_release()
        } else {
            ReleasePlan::Nothing
        }
    }

    /// One step of a switch to a Workflow mode, given what the release came to;
    /// `None` while the session drains. The mode that is set already is left with
    /// everything as it is. Any other begins a new session with a clean board,
    /// once every confession has finished, so that the two architectures never
    /// interleave on stage; until then, and where it is refused, the session is
    /// as it was.
    pub fn set_workflow_mode(
        &mut self,
        mode: WorkflowMode,
        release: Result<usize, ApiError>,
        deadline_passed: bool,
    ) -> (res: Option<Result<(), ApiError>>)
        ensures
            if old(self)@.store.workflow_mode == mode {
                (res matches Some(Ok(_))) && final(self)@ == old(self)@
            } else {
                match release {
                    Err(error) => res == Some(Err::<(), ApiError>(error)) && final(self)@
                        == old(self)@,
                    Ok(_) => if is_drained(old(self)@.store) {
                        (res matches Some(Ok(_))) && is_ulid(final(self)@.store.session_id)
                            && final(self)@ == (StageView {
                            store: BoardView {
                                workflow_mode: mode,
                                ..fresh_board(final(self)@.store.session_id)
                            },
                            ..old(self)@
                        })
                    } else {
                        final(self)@ == old(self)@ && if deadline_passed {
                            res matches Some(Err(error)) && error@ == refusal(
                                409,
                                "unfinished confessions are still draining; wait and switch again"@,
                            )
                        } else {
                            res is None
                        }
                    },
                }
            },
    {
        if !self.changes_mode(mode) {
            return Some(Ok(()));
        }
        let step = self.drain(
            release,
            deadline_passed,
            "unfinished confessions are still draining; wait and switch again",
        );
        if let Some(Ok(_)) = &step {
            self.store.reset();
            self.store.set_mode(mode);
        }
        step
    }

    /// Changes how new confessions are judged. The session goes on: linear and
    /// autonomous confessions coexist in it.
    pub fn set_agent_mode(&mut self, agent_mode: AgentMode)
        ensures
            final(self)@ == (StageView {
                store: BoardView { agent_mode, ..old(self)@.store },
                ..old(self)@
            }),
    {
        self.store.set_agent_mode(agent_mode);
    }

    /// One step of a reset, given what the release came to; `None` while the
    /// session drains. It begins a new session with a clean board once every
    /// confession has finished; until then, and where it is refused, the session
    /// is as it was.
    pub fn reset_demo(&mut self, release: Result<usize, ApiError>, deadline_passed: bool) -> (res:
        Option<Result<(), ApiError>>)
        ensures
            match release {
                Err(error) => res == Some(Err::<(), ApiError>(error)) && final(self)@ == old(self)@,
                Ok(_) => if is_drained(old(self)@.store) {
                    (res matches Some(Ok(_))) && is_ulid(final(self)@.store.session_id)
                        && final(self)@ == (StageView {
                        store: fresh_board(final(self)@.store.session_id),
                        ..old(self)@
                    })
                } else {
                    final(self)@ == old(self)@ && if deadline_passed {
                        res matches Some(Err(error)) && error@ == refusal(
                            409,
                            "unfinished confessions are still draining; wait and reset again"@,
                        )
                    } else {
                        res is None
                    }
                },
            },
    {
        let step = self.drain(
            release,
            deadline_passed,
            "unfinished confessions are still draining; wait and reset again",
        );
        if let Some(Ok(_)) = &step {
            self.store.reset();
        }
        step
    }
}

// ---------------------------------------------------------------------------
// Reports from the Worker
// ---------------------------------------------------------------------------
/// The credentials that the stage's own endpoints ask for.
pub open spec fn bearer(token: Seq<char>) -> Seq<char> {
    "Bearer "@ + token
}

impl StageApp {
    /// Accepts only the Worker, which knows the internal token.
    pub fn authorize_internal(&self, authorization: Option<&str>) -> (res: Result<(), ApiError>)
        ensures
            match res {
                Ok(_) => authorization matches Some(supplied) && supplied@ == bearer(
                    self@.config.internal_token,
                ),
                Err(error) => !(authorization matches Some(supplied) && supplied@ == bearer(
                    self@.config.internal_token,
                )) && error@ == refusal(401, "unauthorized"@),
            },
    {
        let mut expected = "Bearer ".to_owned();
        expected.append(self.config.internal_token.as_str());
        let known = match authorization {
            Some(supplied) => same(supplied, expected.as_str()),
            None => false,
        };
        if known {
            Ok(())
        } else {
            Err(ApiError::unauthorized())
        }
    }

    /// Takes a report in; says whether the board has to be written. Where raw
    /// confessions are not shown, a judgment's stage-safe display takes the place
    /// of a row's text.
    pub fn internal_update(&mut self, authorization: Option<&str>, update: StageUpdate) -> (res:
        Result<bool, ApiError>)
        ensures
            match res {
                Ok(write) => (authorization matches Some(supplied) && supplied@ == bearer(
                    old(self)@.config.internal_token,
                )) && write == (update@.session_id == old(self)@.store.session_id) && final(self)@
                    == (StageView {
                    store: updated(
                        old(self)@.store,
                        update@,
                        !old(self)@.config.show_raw_confessions,
                    ),
                    ..old(self)@
                }),
                Err(error) => !(authorization matches Some(supplied) && supplied@ == bearer(
                    old(self)@.config.internal_token,
                )) && error@ == refusal(401, "unauthorized"@) && final(self)@ == old(self)@,
            },
    {
        if let Err(error) = self.authorize_internal(authorization) {
            return Err(error);
        }
        Ok(self.store.apply_update(update, !self.config.show_raw_confessions))
    }

    /// Takes a heartbeat in: which model the Worker runs.
    pub fn worker_heartbeat(&mut self, authorization: Option<&str>, model_mode: String) -> (res:
        Result<(), ApiError>)
        ensures
            match res {
                Ok(_) => (authorization matches Some(supplied) && supplied@ == bearer(
                    old(self)@.config.internal_token,
                )) && final(self)@ == (StageView { model_mode: model_mode@, ..old(self)@ }),
                Err(error) => !(authorization matches Some(supplied) && supplied@ == bearer(
                    old(self)@.config.internal_token,
                )) && error@ == refusal(401, "unauthorized"@) && final(self)@ == old(self)@,
            },
    {
        if let Err(error) = self.authorize_internal(authorization) {
            return Err(error);
        }
        self.model_mode = model_mode;
        Ok(())
    }

    /// What the dashboard is shown. `heartbeat_age` is how many milliseconds ago
    /// the Worker was last heard of, if it was; it counts as online for three
    /// seconds.
    pub fn get_state(&self, heartbeat_age: Option<u64>) -> (res: PublicStageState)
        ensures
            res.worker_online == (heartbeat_age matches Some(age) && age < 3000),
            res.temporal_connected == self@.temporal_connected,
            res.model_mode@ == self@.model_mode,
            res.held == self@.store.held,
            res.show_raw_confessions == self@.config.show_raw_confessions,
            res.workflow_mode == self@.store.workflow_mode,
            res.agent_mode == self@.store.agent_mode,
            row_views(res.submissions@) == self@.store.submissions,
            is_winner(
                self@.store.submissions,
                Award::MostCursed,
                text_of(res.awards.most_cursed),
            ),
            is_winner(
                self@.store.submissions,
                Award::MostRelatable,
                text_of(res.awards.most_relatable),
            ),
            is_winner(
                self@.store.submissions,
                Award::MostNeedlesslyRewritten,
                text_of(res.awards.most_needlessly_rewritten),
            ),
    {
        let worker_online = match heartbeat_age {
            Some(age) => age < 3000,
            None => false,
        };
        let mut submissions: Vec<StageSubmission> = Vec::new();
        let mut i: usize = 0;
        while i < self.store.submissions.len()
            invariant
                i <= self.store.submissions@.len(),
                submissions@.len() == i,
                forall|k: int|
                    0 <= k < i ==> (#[trigger] submissions@[k])@ == self.store.submissions@[k]@,
            decreases self.store.submissions@.len() - i,
        {
            submissions.push(self.store.submissions[i].clone());
            i += 1;
        }
        assert(row_views(submissions@) =~= self@.store.submissions);
        let awards = awards_for(submissions.as_slice());
        PublicStageState {
            worker_online,
            temporal_connected: self.temporal_connected,
            model_mode: self.model_mode.clone(),
            held: self.store.held,
            show_raw_confessions: self.config.show_raw_confessions,
            workflow_mode: self.store.workflow_mode,
            agent_mode: self.store.agent_mode,
            submissions,
            awards,
        }
    }
}

// ---------------------------------------------------------------------------
// Twilio's webhook
// ---------------------------------------------------------------------------
/// The value of a form field that has to be there and not empty.
pub open spec fn filled_field(fields: Seq<(Seq<char>, Seq<char>)>, name: Seq<char>) -> Option<
    Seq<char>,
> {
    match value_named(fields, name) {
        Some(value) => if value.len() > 0 {
            Some(value)
        } else {
            None
        },
        None => None,
    }
}

/// The answer where a form field is missing.
pub open spec fn missing_field(name: Seq<char>) -> ApiErrorView {
    refusal(400, "missing Twilio field "@ + name)
}

pub fn required_form_field<'a>(fields: &'a [(String, String)], name: &str) -> (res: Result<
    &'a str,
    ApiError,
>)
    ensures
        match res {
            Ok(value) => filled_field(pairs(fields@), name@) == Some(value@),
            Err(error) => filled_field(pairs(fields@), name@) is None && error@ == missing_field(
                name@,
            ),
        },
{
    if let Some(value) = form_field(fields, name) {
        if !value.is_empty() {
            return Ok(value);
        }
    }
    let mut message = "missing Twilio field ".to_owned();
    message.append(name);
    Err(ApiError::bad_request(message))
}

/// What a signed form of Twilio's asks for: a confession, as its text and the
/// identity under which it is submitted, or nothing, where it is a carrier's
/// command.
pub open spec fn confession_in_form(fields: Seq<(Seq<char>, Seq<char>)>, account: Seq<char>) -> Result<
    Option<(Seq<char>, Seq<char>)>,
    ApiErrorView,
> {
    let account_sid = filled_field(fields, "AccountSid"@);
    let message_sid = filled_field(fields, "MessageSid"@);
    let body = filled_field(fields, "Body"@);
    if account_sid is None {
        Err(missing_field("AccountSid"@))
    } else if message_sid is None {
        Err(missing_field("MessageSid"@))
    } else if body is None {
        Err(missing_field("Body"@))
    } else if filled_field(fields, "From"@) is None {
        Err(missing_field("From"@))
    } else if filled_field(fields, "To"@) is None {
        Err(missing_field("To"@))
    } else if account_sid->0 != account {
        Err(refusal(403, "unexpected Twilio account"@))
    } else if command_of(body->0) is Some {
        Ok(None)
    } else {
        Ok(Some((body->0, twilio_submission_id(message_sid->0))))
    }
}

/// What the stage makes of a request to Twilio's webhook, where `fields` are
/// those of its body and the headers are given where they are there and are
/// visible ASCII.
pub open spec fn webhook_request(
    stage: StageView,
    content_type: Option<Seq<char>>,
    signature: Option<Seq<char>>,
    fields: Seq<(Seq<char>, Seq<char>)>,
) -> Result<Option<(Seq<char>, Seq<char>)>, ApiErrorView> {
    match stage.config.twilio {
        None => Err(refusal(404, "Twilio ingress is not configured"@)),
        Some(twilio) => if !(content_type matches Some(kind) && begins_with(
            ascii_lowercase(kind),
            "application/x-www-form-urlencoded"@,
        )) {
            Err(refusal(400, "expected application/x-www-form-urlencoded"@))
        } else if !(signature matches Some(supplied) && is_signature(
            twilio.auth_token,
            twilio.webhook_url,
            fields,
            supplied,
        )) {
            Err(refusal(403, "invalid Twilio signature"@))
        } else {
            confession_in_form(fields, twilio.account_sid)
        },
    }
}

/// What a lent string holds.
pub open spec fn lent_text(s: Option<&str>) -> Option<Seq<char>> {
    match s {
        Some(s) => Some(s@),
        None => None,
    }
}

/// What a confession that is to be submitted holds: its text and its identity.
pub open spec fn confession_view(confession: Option<(String, String)>) -> Option<
    (Seq<char>, Seq<char>),
> {
    match confession {
        Some((text, id)) => Some((text@, id@)),
        None => None,
    }
}

fn read_form(fields: &[(String, String)], account: &str) -> (res: Result<
    Option<(String, String)>,
    ApiError,
>)
    ensures
        match res {
            Ok(confession) => confession_in_form(pairs(fields@), account@) == Ok::<
                Option<(Seq<char>, Seq<char>)>,
                ApiErrorView,
            >(confession_view(confession)),
            Err(error) => confession_in_form(pairs(fields@), account@) == Err::<
                Option<(Seq<char>, Seq<char>)>,
                ApiErrorView,
            >(error@),
        },
{
    let account_sid = match required_form_field(fields, "AccountSid") {
        Ok(value) => value,
        Err(error) => return Err(error),
    };
    let message_sid = match required_form_field(fields, "MessageSid") {
        Ok(value) => value,
        Err(error) => return Err(error),
    };
    let confession = match required_form_field(fields, "Body") {
        Ok(value) => value,
        Err(error) => return Err(error),
    };
    // The sender and the recipient have to be there; they are neither kept nor
    // logged.
    if let Err(error) = required_form_field(fields, "From") {
        return Err(error);
    }
    if let Err(error) = required_form_field(fields, "To") {
        return Err(error);
    }
    if !same(account_sid, account) {
        return Err(ApiError::forbidden("unexpected Twilio account".to_owned()));
    }
    if compliance_keyword(confession).is_some() {
        Ok(None)
    } else {
        Ok(Some((confession.to_owned(), submission_id_for(message_sid))))
    }
}

impl StageApp {
    /// Decides on a request to Twilio's webhook: the confession that has to be
    /// submitted, or none where a carrier's command is only acknowledged.
    pub fn twilio_message(
        &self,
        content_type: Option<&str>,
        signature: Option<&str>,
        body: &[u8],
    ) -> (res: Result<Option<(String, String)>, ApiError>)
        ensures
            match res {
                Ok(confession) => webhook_request(
                    self@,
                    lent_text(content_type),
                    lent_text(signature),
                    form_pairs(body@),
                ) == Ok::<Option<(Seq<char>, Seq<char>)>, ApiErrorView>(
                    confession_view(confession),
                ),
                Err(error) => webhook_request(
                    self@,
                    lent_text(content_type),
                    lent_text(signature),
                    form_pairs(body@),
                ) == Err::<Option<(Seq<char>, Seq<char>)>, ApiErrorView>(error@),
            },
    {
        let fields = parse_form_body(body);
        self.twilio_form(content_type, signature, fields.as_slice())
    }

    /// Decides on a request to Twilio's webhook by the fields of its body.
    pub fn twilio_form(
        &self,
        content_type: Option<&str>,
        signature: Option<&str>,
        fields: &[(String, String)],
    ) -> (res: Result<Option<(String, String)>, ApiError>)
        ensures
            match res {
                Ok(confession) => webhook_request(
                    self@,
                    lent_text(content_type),
                    lent_text(signature),
                    pairs(fields@),
                ) == Ok::<Option<(Seq<char>, Seq<char>)>, ApiErrorView>(
                    confession_view(confession),
                ),
                Err(error) => webhook_request(
                    self@,
                    lent_text(content_type),
                    lent_text(signature),
                    pairs(fields@),
                ) == Err::<Option<(Seq<char>, Seq<char>)>, ApiErrorView>(error@),
            },
    {
        let twilio = match &self.config.twilio {
            Some(twilio) => twilio,
            None => return Err(
                ApiError::not_found("Twilio ingress is not configured".to_owned()),
            ),
        };
        let is_form = match content_type {
            Some(kind) => {
                let lowered = to_ascii_lowercase(kind);
                starts_with(lowered.as_str(), "application/x-www-form-urlencoded")
            },
            None => false,
        };
        if !is_form {
            return Err(
                ApiError::bad_request("expected application/x-www-form-urlencoded".to_owned()),
            );
        }
        let is_signed = match signature {
            Some(supplied) => verify_twilio_signature(
                twilio.auth_token.as_str(),
                twilio.webhook_url.as_str(),
                fields,
                supplied,
            ),
            None => false,
        };
        if !is_signed {
            return Err(ApiError::forbidden("invalid Twilio signature".to_owned()));
        }
        read_form(fields, twilio.account_sid.as_str())
    }
}

/// The answer that Twilio is given: a reply with no message in it.
pub fn empty_twiml() -> (res: &'static str)
    ensures
        res@ == "<Response></Response>"@,
{
    "<Response></Response>"
}

// ---------------------------------------------------------------------------
// Laws
// ---------------------------------------------------------------------------
/// A fresh identifier is always a submission identity.
pub proof fn law_fresh_identities_are_valid(id: Seq<char>)
    requires
        is_ulid(id),
    ensures
        is_submission_id(id),
{
}

/// A source that retries changes nothing: the first row stands as it is, and
/// what goes to Temporal, if anything does, carries the session and the time of
/// that row.
pub proof fn law_retries_keep_the_first_row(
    stage: StageView,
    text: Seq<char>,
    id: Seq<char>,
    now: Timestamp,
)
    requires
        row_of(stage.store.submissions, id) >= 0,
    ensures
        ({
            let row = stage.store.submissions[row_of(stage.store.submissions, id)];
            let (after, outcome) = admission(stage, text, id, now);
            &&& after == stage
            &&& outcome matches Ok(AdmissionView::Settled(staged)) ==> staged == row
            &&& outcome matches Ok(AdmissionView::Dispatch { staged, input, inserted, .. })
                ==> staged == row && !inserted && input.session_id == row.session_id
                && input.created_at == row.created_at && input.id == id
        }),
{
}

/// Taking a confession adds one row at most, after those that are there, and
/// never more rows than a session may have.
pub proof fn law_admission_respects_the_capacity(
    stage: StageView,
    text: Seq<char>,
    id: Seq<char>,
    now: Timestamp,
)
    requires
        stage.store.submissions.len() <= stage.config.max_submissions_per_session,
    ensures
        ({
            let after = admission(stage, text, id, now).0;
            &&& stage.store.submissions.is_prefix_of(after.store.submissions)
            &&& after.store.submissions.len() <= stage.store.submissions.len() + 1
            &&& after.store.submissions.len() <= stage.config.max_submissions_per_session
        }),
{
}

/// A confession that is refused leaves no trace on the stage.
pub proof fn law_refused_confessions_leave_no_trace(
    stage: StageView,
    text: Seq<char>,
    id: Seq<char>,
    now: Timestamp,
)
    requires
        admission(stage, text, id, now).1 is Err,
    ensures
        admission(stage, text, id, now).0 == stage,
{
}

/// Where raw confessions are not shown, what a confession says stays off the
/// board: two texts that are both taken leave the same board behind.
pub proof fn law_raw_text_stays_off_the_board(
    stage: StageView,
    text: Seq<char>,
    other: Seq<char>,
    id: Seq<char>,
    now: Timestamp,
)
    requires
        !stage.config.show_raw_confessions,
        text_fault(trimmed(text), stage.config.max_confession_chars) is None,
        text_fault(trimmed(other), stage.config.max_confession_chars) is None,
    ensures
        admission(stage, text, id, now).0 == admission(stage, other, id, now).0,
{
}

/// A confession that did not get through to Temporal is marked as failed, and a
/// retry hands it over again.
pub proof fn law_failed_dispatches_can_be_retried(
    stage: StageView,
    staged: StageSubmissionView,
    outcome: DispatchOutcomeView,
    text: Seq<char>,
    now: Timestamp,
)
    requires
        row_of(stage.store.submissions, staged.id) >= 0,
        !(outcome is Accepted),
        text_fault(trimmed(text), stage.config.max_confession_chars) is None,
        is_submission_id(staged.id),
    ensures
        ({
            let after = dispatched(stage, staged, outcome).0;
            let row = after.store.submissions[row_of(stage.store.submissions, staged.id)];
            &&& row.status == SubmissionStatus::Failed
            &&& row.error is Some
            &&& admission(after, text, staged.id, now).1 matches Ok(
                AdmissionView::Dispatch { input, .. },
            ) && input.id == staged.id && input.text == trimmed(text)
        }),
{
    let rows = stage.store.submissions;
    let i = row_of(rows, staged.id);
    let after = dispatched(stage, staged, outcome).0;
    lemma_row_from(rows, staged.id, 0);
    lemma_same_ids_same_row(rows, after.store.submissions, staged.id, 0);
}

proof fn lemma_same_ids_same_row(
    a: Seq<StageSubmissionView>,
    b: Seq<StageSubmissionView>,
    id: Seq<char>,
    from: int,
)
    requires
        0 <= from,
        a.len() == b.len(),
        forall|i: int| 0 <= i < a.len() ==> (#[trigger] a[i]).id == (#[trigger] b[i]).id,
    ensures
        row_from(a, id, from) == row_from(b, id, from),
    decreases a.len() - from,
{
    if from < a.len() {
        assert(a[from].id == b[from].id);
        lemma_same_ids_same_row(a, b, id, from + 1);
    }
}

/// Releasing never touches the board: what a confession came to is for the
/// Worker to report.
pub proof fn law_releasing_leaves_the_board(
    stage: StageView,
    plan: ReleasePlanView,
    outcome: ReleaseOutcome,
)
    ensures
        released(stage, plan, outcome).0.store == stage.store,
        released(stage, plan, outcome).0.config == stage.config,
{
}

/// How many Signals a plan sends.
pub open spec fn signals_in(plan: ReleasePlanView) -> nat {
    match plan {
        ReleasePlanView::Nothing => 0,
        ReleasePlanView::Session { .. } => 1,
        ReleasePlanView::Each(signals) => signals.len(),
    }
}

proof fn lemma_every_signal_counts(signals: Seq<bool>)
    ensures
        accepted_in(signals) + failed_in(signals) == signals.len(),
        failed_in(signals) == 0 <==> forall|i: int| 0 <= i < signals.len() ==> #[trigger] signals[i],
    decreases signals.len(),
{
    if signals.len() > 0 {
        let rest = signals.drop_last();
        lemma_every_signal_counts(rest);
        assert(forall|i: int| 0 <= i < rest.len() ==> #[trigger] rest[i] == signals[i]);
        assert(signals.last() == signals[signals.len() - 1]);
        if failed_in(signals) == 0 {
            assert forall|i: int| 0 <= i < signals.len() implies #[trigger] signals[i] by {
                if i < rest.len() {
                    assert(rest[i]);
                }
            }
        } else if forall|i: int| 0 <= i < signals.len() ==> #[trigger] signals[i] {
            assert forall|i: int| 0 <= i < rest.len() implies #[trigger] rest[i] by {
                assert(signals[i]);
            }
        }
    }
}

/// A release of the board that was planned for, with an answer for each Signal,
/// succeeds exactly when every Signal was accepted, and then counts every
/// unfinished confession of the session.
pub proof fn law_a_release_counts_every_unfinished_confession(
    stage: StageView,
    signals: Vec<bool>,
)
    requires
        signals@.len() == signals_in(release_plan_of(stage.store)),
    ensures
        ({
            let plan = release_plan_of(stage.store);
            let outcome = released(stage, plan, ReleaseOutcome::Signalled(signals)).1;
            &&& outcome is Ok <==> forall|i: int|
                0 <= i < signals@.len() ==> #[trigger] signals@[i]
            &&& outcome matches Ok(count) ==> count == releasable(
                stage.store.submissions,
                stage.store.session_id,
            ).len()
        }),
{
    lemma_every_signal_counts(signals@);
}

/// A hold request that succeeds leaves the board held as it was asked to be, and
/// one that fails leaves it held, whatever the release in between came to.
pub proof fn law_hold_follows_the_request(
    stage: StageView,
    held: bool,
    plan: ReleasePlanView,
    outcome: ReleaseOutcome,
)
    ensures
        ({
            let begun = hold_begun(stage, held);
            let (between, release) = released(begun, plan, outcome);
            let (after, answer) = hold_concluded(between, held, release);
            &&& answer is Ok ==> after.store == (BoardView { held, ..stage.store })
            &&& answer is Err ==> after.store == (BoardView { held: true, ..stage.store })
            &&& held ==> answer is Ok
        }),
{
}

/// To switch to the Workflow mode that is set already, no Signal is sent.
pub proof fn law_the_same_mode_sends_no_signal(board: BoardView)
    ensures
        signals_in(switch_plan_of(board, board.workflow_mode)) == 0,
{
}

/// In a session that runs one Workflow per confession, each unfinished
/// confession gets a Signal of its own, to its own Workflow.
pub proof fn law_every_unfinished_confession_is_signalled(board: BoardView, i: int)
    requires
        board.workflow_mode == WorkflowMode::PerConfession,
        0 <= i < board.submissions.len(),
        unfinished(board.submissions[i], board.session_id),
    ensures
        release_plan_of(board) matches ReleasePlanView::Each(signals) && signals.contains(
            (board.submissions[i].workflow_id, release_request(board.submissions[i].id)),
        ),
{
    let row = board.submissions[i];
    let waiting = releasable(board.submissions, board.session_id);
    let k = lemma_releasable_holds(board.submissions, board.session_id, i);
    assert(signals_for(waiting)[k] == (row.workflow_id, release_request(row.id)));
}

proof fn lemma_releasable_holds(
    rows: Seq<StageSubmissionView>,
    session_id: Seq<char>,
    i: int,
) -> (k: int)
    requires
        0 <= i < rows.len(),
        unfinished(rows[i], session_id),
    ensures
        0 <= k < releasable(rows, session_id).len(),
        releasable(rows, session_id)[k] == (rows[i].id, rows[i].workflow_id),
    decreases rows.len(),
{
    if i == rows.len() - 1 {
        releasable(rows.drop_last(), session_id).len() as int
    } else {
        lemma_releasable_holds(rows.drop_last(), session_id, i)
    }
}

/// A request to Twilio's webhook is taken only if it is signed and names the
/// configured account; then it never submits a carrier's command.
pub proof fn law_only_signed_messages_are_taken(
    stage: StageView,
    content_type: Option<Seq<char>>,
    signature: Option<Seq<char>>,
    fields: Seq<(Seq<char>, Seq<char>)>,
)
    requires
        webhook_request(stage, content_type, signature, fields) is Ok,
    ensures
        stage.config.twilio matches Some(twilio) && signature matches Some(supplied)
            && is_signature(twilio.auth_token, twilio.webhook_url, fields, supplied)
            && value_named(fields, "AccountSid"@) == Some(twilio.account_sid),
        webhook_request(stage, content_type, signature, fields) matches Ok(Some((text, id)))
            ==> command_of(text) is None && value_named(fields, "Body"@) == Some(text) && (
        value_named(fields, "MessageSid"@) matches Some(sid) && id == twilio_submission_id(sid)),
{
}

/// Who sent a message, and to which number, makes no difference to what becomes
/// of it: both have to be there, and neither is kept.
pub proof fn law_phone_numbers_are_not_kept(
    fields: Seq<(Seq<char>, Seq<char>)>,
    others: Seq<(Seq<char>, Seq<char>)>,
    account: Seq<char>,
)
    requires
        filled_field(fields, "AccountSid"@) == filled_field(others, "AccountSid"@),
        filled_field(fields, "MessageSid"@) == filled_field(others, "MessageSid"@),
        filled_field(fields, "Body"@) == filled_field(others, "Body"@),
        filled_field(fields, "From"@) is Some == filled_field(others, "From"@) is Some,
        filled_field(fields, "To"@) is Some == filled_field(others, "To"@) is Some,
    ensures
        confession_in_form(fields, account) == confession_in_form(others, account),
{
}

/// Every example confession passes the checks of a stage that takes texts of
/// fifty characters.
pub proof fn law_examples_are_admissible(max_chars: nat)
    requires
        max_chars >= 50,
    ensures
        text_fault(trimmed("I fixed the race condition with a sleep."@), max_chars) is None,
        text_fault(trimmed("I clone everything until it compiles."@), max_chars) is None,
        text_fault(trimmed("I wrote a Python script that now runs the company."@), max_chars)
            is None,
        is_submission_id("seed-0"@),
        is_submission_id("seed-1"@),
        is_submission_id("seed-2"@),
{
    reveal_strlit("I fixed the race condition with a sleep.");
    reveal_strlit("I clone everything until it compiles.");
    reveal_strlit("I wrote a Python script that now runs the company.");
    reveal_strlit("seed-0");
    reveal_strlit("seed-1");
    reveal_strlit("seed-2");
    lemma_admissible("I fixed the race condition with a sleep."@, max_chars);
    lemma_admissible("I clone everything until it compiles."@, max_chars);
    lemma_admissible("I wrote a Python script that now runs the company."@, max_chars);
}

proof fn lemma_admissible(s: Seq<char>, max_chars: nat)
    requires
        0 < s.len() <= max_chars,
        !is_gap(s[0]),
        !is_gap(s.last()),
    ensures
        text_fault(trimmed(s), max_chars) is None,
{
    law_sanitized_empty_iff_nothing_visible(s);
    assert(trimmed(s) == s);
}

/// A confession that is handed to Temporal carries what the stage is set to at
/// that moment: it is held exactly if the board is held, it goes through the
/// agent mode that is set, and it goes to the Workflow of the mode that is set.
/// Its text is what was said, without the white space around it.
pub proof fn law_a_confession_carries_the_settings(
    stage: StageView,
    text: Seq<char>,
    id: Seq<char>,
    now: Timestamp,
)
    ensures
        admission(stage, text, id, now).1 matches Ok(
            AdmissionView::Dispatch { staged, input, inserted, mode },
        ) ==> {
            &&& input.hold_before_reply == stage.store.held
            &&& input.agent_mode == stage.store.agent_mode
            &&& input.text == trimmed(text)
            &&& input.id == id
            &&& mode == stage.store.workflow_mode
            &&& staged.id == id
            &&& input.session_id == staged.session_id
            &&& input.created_at == staged.created_at
            &&& inserted ==> {
                &&& input.session_id == stage.store.session_id
                &&& input.created_at == now
                &&& staged.status == SubmissionStatus::Received
                &&& staged.workflow_id == match stage.store.workflow_mode {
                    WorkflowMode::PerConfession => workflow_id_of(id),
                    WorkflowMode::Session => session_workflow_id_of(stage.store.session_id),
                }
            }
        },
{
    lemma_row_from(stage.store.submissions, id, 0);
}

/// What the stage is set to decides how the next confession is handed over: one
/// that is taken after a hold request carries that request's hold, whichever it
/// is.
pub proof fn law_a_hold_reaches_the_next_confession(
    stage: StageView,
    held: bool,
    text: Seq<char>,
    id: Seq<char>,
    now: Timestamp,
)
    ensures
        admission(hold_begun(stage, held), text, id, now).1 matches Ok(
            AdmissionView::Dispatch { input, .. },
        ) ==> input.hold_before_reply == held,
        admission(hold_begun(stage, held), text, id, now).1 is Ok == admission(
            stage,
            text,
            id,
            now,
        ).1 is Ok,
{
}

/// A confession is taken exactly if it says something visible, is not too long,
/// has a valid identity, and is on the board already or finds room on it; a full
/// board answers 429, and everything else that is refused 400. One whose Workflow
/// is under way or done is not handed over again.
pub proof fn law_what_is_taken(stage: StageView, text: Seq<char>, id: Seq<char>, now: Timestamp)
    ensures
        ({
            let said = trimmed(text);
            let fit = 0 < said.len() <= stage.config.max_confession_chars && (exists|i: int|
                0 <= i < said.len() && !is_gap(#[trigger] said[i])) && is_submission_id(id);
            let rows = stage.store.submissions;
            let known = exists|i: int| 0 <= i < rows.len() && (#[trigger] rows[i]).id == id;
            let room = rows.len() < stage.config.max_submissions_per_session;
            let (after, outcome) = admission(stage, text, id, now);
            &&& outcome is Ok <==> fit && (known || room)
            &&& outcome matches Err(error) ==> error.status == if fit {
                429u16
            } else {
                400u16
            }
            &&& outcome is Ok && !known ==> outcome->Ok_0 is Dispatch && outcome->Ok_0->inserted
                && after.store.submissions.len() == rows.len() + 1
            &&& outcome is Ok && known ==> after == stage && (outcome->Ok_0 is Dispatch <==> (
            rows[row_of(rows, id)].status == SubmissionStatus::Received || rows[row_of(
                rows,
                id,
            )].status == SubmissionStatus::Failed))
        }),
{
    let said = trimmed(text);
    lemma_row_from(stage.store.submissions, id, 0);
    law_sanitized_empty_iff_nothing_visible(said);
}

/// What comes of a dispatch: one that Temporal accepts answers with the row and
/// leaves the board; every other answers 503 and marks that row, and no other, as
/// failed for the reason given. A refusal by Temporal shows as a lost connection.
pub proof fn law_a_dispatch_marks_only_its_row(
    stage: StageView,
    staged: StageSubmissionView,
    outcome: DispatchOutcomeView,
    i: int,
)
    requires
        0 <= i < stage.store.submissions.len(),
        forall|a: int, b: int|
            0 <= a < b < stage.store.submissions.len() ==> (
            #[trigger] stage.store.submissions[a]).id != (#[trigger] stage.store.submissions[b]).id,
    ensures
        ({
            let (after, answer) = dispatched(stage, staged, outcome);
            let before = stage.store.submissions[i];
            &&& after.config == stage.config
            &&& after.store.submissions.len() == stage.store.submissions.len()
            &&& answer is Ok <==> outcome is Accepted
            &&& answer matches Ok(row) ==> row == staged
            &&& answer matches Err(error) ==> error.status == 503
            &&& after.temporal_connected == match outcome {
                DispatchOutcomeView::NotConnected(_) => stage.temporal_connected,
                DispatchOutcomeView::Rejected(_) => false,
                DispatchOutcomeView::Accepted => true,
            }
            &&& after.store.submissions[i] == match outcome {
                DispatchOutcomeView::Accepted => before,
                DispatchOutcomeView::NotConnected(error) => if before.id == staged.id {
                    StageSubmissionView {
                        status: SubmissionStatus::Failed,
                        error: Some(error),
                        ..before
                    }
                } else {
                    before
                },
                DispatchOutcomeView::Rejected(error) => if before.id == staged.id {
                    StageSubmissionView {
                        status: SubmissionStatus::Failed,
                        error: Some(error),
                        ..before
                    }
                } else {
                    before
                },
            }
        }),
{
    lemma_row_from(stage.store.submissions, staged.id, 0);
}

/// A release signals unfinished confessions only, each through its own Workflow,
/// or the one Workflow of the session where there is one; there is nothing to
/// signal exactly if none is unfinished.
pub proof fn law_only_unfinished_confessions_are_signalled(board: BoardView)
    ensures
        match release_plan_of(board) {
            ReleasePlanView::Nothing => forall|i: int|
                0 <= i < board.submissions.len() ==> !unfinished(
                    #[trigger] board.submissions[i],
                    board.session_id,
                ),
            ReleasePlanView::Session { signal, waiting } => board.workflow_mode
                == WorkflowMode::Session && signal == (
                session_workflow_id_of(board.session_id),
                "release-"@ + board.session_id,
            ) && 0 < waiting <= board.submissions.len(),
            ReleasePlanView::Each(signals) => board.workflow_mode == WorkflowMode::PerConfession
                && 0 < signals.len() <= board.submissions.len() && forall|k: int|
                0 <= k < signals.len() ==> is_signal_of_unfinished(board, #[trigger] signals[k]),
        },
{
    let waiting = releasable(board.submissions, board.session_id);
    law_nothing_to_release_when_all_finished(board);
    lemma_releasable_is_unfinished(board.submissions, board.session_id);
    assert forall|k: int| 0 <= k < waiting.len() implies is_signal_of_unfinished(
        board,
        #[trigger] signals_for(waiting)[k],
    ) by {
        assert(is_entry_of_unfinished(board.submissions, board.session_id, waiting[k]));
    }
}

/// A Signal that releases one of the board's unfinished confessions.
pub open spec fn is_signal_of_unfinished(
    board: BoardView,
    signal: (Seq<char>, Seq<char>),
) -> bool {
    exists|i: int|
        0 <= i < board.submissions.len() && unfinished(
            #[trigger] board.submissions[i],
            board.session_id,
        ) && signal == (
            board.submissions[i].workflow_id,
            "release-"@ + board.submissions[i].id,
        )
}

spec fn is_entry_of_unfinished(
    rows: Seq<StageSubmissionView>,
    session_id: Seq<char>,
    entry: (Seq<char>, Seq<char>),
) -> bool {
    exists|i: int|
        0 <= i < rows.len() && unfinished(#[trigger] rows[i], session_id) && entry == (
            rows[i].id,
            rows[i].workflow_id,
        )
}

proof fn lemma_releasable_is_unfinished(rows: Seq<StageSubmissionView>, session_id: Seq<char>)
    ensures
        releasable(rows, session_id).len() <= rows.len(),
        forall|k: int|
            0 <= k < releasable(rows, session_id).len() ==> is_entry_of_unfinished(
                rows,
                session_id,
                #[trigger] releasable(rows, session_id)[k],
            ),
    decreases rows.len(),
{
    if rows.len() > 0 {
        let rest = rows.drop_last();
        lemma_releasable_is_unfinished(rest, session_id);
        let found = releasable(rows, session_id);
        let before = releasable(rest, session_id);
        assert forall|k: int| 0 <= k < found.len() implies is_entry_of_unfinished(
            rows,
            session_id,
            #[trigger] found[k],
        ) by {
            if k < before.len() {
                assert(is_entry_of_unfinished(rest, session_id, before[k]));
                let i = choose|i: int|
                    0 <= i < rest.len() && unfinished(#[trigger] rest[i], session_id) && before[k]
                        == (rest[i].id, rest[i].workflow_id);
                assert(rows[i] == rest[i]);
            } else {
                assert(rows[rows.len() - 1] == rows.last());
            }
        }
    }
}

/// A signed and complete message of the configured account is taken: submitted
/// word for word under its own identity, unless it is a carrier's command.
pub proof fn law_signed_messages_are_taken(
    stage: StageView,
    content_type: Option<Seq<char>>,
    signature: Option<Seq<char>>,
    fields: Seq<(Seq<char>, Seq<char>)>,
    sid: Seq<char>,
    body: Seq<char>,
    from: Seq<char>,
    to: Seq<char>,
)
    requires
        stage.config.twilio matches Some(twilio) && signature matches Some(supplied)
            && is_signature(twilio.auth_token, twilio.webhook_url, fields, supplied)
            && value_named(fields, "AccountSid"@) == Some(twilio.account_sid)
            && twilio.account_sid.len() > 0,
        content_type matches Some(kind) && begins_with(
            ascii_lowercase(kind),
            "application/x-www-form-urlencoded"@,
        ),
        value_named(fields, "MessageSid"@) == Some(sid) && sid.len() > 0,
        value_named(fields, "Body"@) == Some(body) && body.len() > 0,
        value_named(fields, "From"@) == Some(from) && from.len() > 0,
        value_named(fields, "To"@) == Some(to) && to.len() > 0,
    ensures
        webhook_request(stage, content_type, signature, fields) == if command_of(body) is Some {
            Ok::<Option<(Seq<char>, Seq<char>)>, ApiErrorView>(None)
        } else {
            Ok(Some((body, "twilio-"@ + sid)))
        },
{
}

/// A session has drained exactly when each of its confessions was sent or has
/// failed.
pub proof fn law_a_session_drains_when_all_is_done(board: BoardView)
    ensures
        is_drained(board) <==> forall|i: int|
            0 <= i < board.submissions.len() && (#[trigger] board.submissions[i]).session_id
                == board.session_id ==> board.submissions[i].status == SubmissionStatus::Sent
                || board.submissions[i].status == SubmissionStatus::Failed,
{
    law_nothing_to_release_when_all_finished(board);
    if is_drained(board) {
        assert forall|i: int|
            0 <= i < board.submissions.len() && (#[trigger] board.submissions[i]).session_id
                == board.session_id implies board.submissions[i].status == SubmissionStatus::Sent
            || board.submissions[i].status == SubmissionStatus::Failed by {
            assert(!unfinished(board.submissions[i], board.session_id));
        }
    } else {
        let i = choose|i: int|
            0 <= i < board.submissions.len() && unfinished(
                #[trigger] board.submissions[i],
                board.session_id,
            );
        assert(board.submissions[i].session_id == board.session_id);
    }
}

/// A release that was signalled shows whether Temporal is connected: it is
/// exactly if no Signal failed, and else the answer is 503. One that could not be
/// signalled leaves the stage as it was.
pub proof fn law_a_release_shows_the_connection(
    stage: StageView,
    plan: ReleasePlanView,
    signals: Vec<bool>,
)
    requires
        !(plan is Nothing),
    ensures
        ({
            let (after, answer) = released(stage, plan, ReleaseOutcome::Signalled(signals));
            &&& after.temporal_connected == answer is Ok
            &&& after.store == stage.store
            &&& answer is Ok <==> forall|i: int| 0 <= i < signals@.len() ==> #[trigger] signals@[i]
            &&& answer matches Err(error) ==> error.status == 503
        }),
        released(stage, plan, ReleaseOutcome::NotConnected).0 == stage,
        released(stage, plan, ReleaseOutcome::NotConnected).1 matches Err(error) && error.status
            == 503,
{
    lemma_every_signal_counts(signals@);
}

/// A session begins empty and held, with one Workflow per confession and the
/// autonomous loop.
pub proof fn law_a_session_begins_empty_and_held(session_id: Seq<char>)
    ensures
        ({
            let board = fresh_board(session_id);
            &&& board.session_id == session_id
            &&& board.submissions.len() == 0
            &&& board.held
            &&& board.workflow_mode == WorkflowMode::PerConfession
            &&& board.agent_mode == AgentMode::Autonomous
            &&& is_drained(board)
        }),
{
}

/// What a new row shows of a confession: with raw confessions shown, what was
/// said, sanitized and masked; otherwise nothing of it.
pub proof fn law_what_a_new_row_shows(
    stage: StageView,
    text: Seq<char>,
    id: Seq<char>,
    now: Timestamp,
)
    ensures
        admission(stage, text, id, now).1 matches Ok(
            AdmissionView::Dispatch { staged, inserted, .. },
        ) ==> (inserted ==> staged.text == if stage.config.show_raw_confessions {
            masked(sanitized(trimmed(text)), stage.config.mask_words)
        } else {
            "Confession received — Ferris is reviewing it…"@
        }),
{
}

/// An identity is 1 to 128 ASCII letters, digits, hyphens and underscores.
pub proof fn law_what_an_identity_is(id: Seq<char>)
    ensures
        is_submission_id(id) <==> 1 <= id.len() <= 128 && forall|i: int|
            0 <= i < id.len() ==> {
                let u = (#[trigger] id[i]) as u32;
                48 <= u <= 57 || 65 <= u <= 90 || 97 <= u <= 122 || id[i] == '-' || id[i] == '_'
            },
{
    if is_submission_id(id) {
        assert forall|i: int| 0 <= i < id.len() implies {
            let u = (#[trigger] id[i]) as u32;
            48 <= u <= 57 || 65 <= u <= 90 || 97 <= u <= 122 || id[i] == '-' || id[i] == '_'
        } by {
            assert(is_id_char(id[i]));
        }
    }
}

/// A Worker is let in with the stage's token behind the word `Bearer`, and no two
/// tokens let the same caller in.
pub proof fn law_tokens_tell_callers_apart(token: Seq<char>, other: Seq<char>)
    ensures
        bearer(token) == bearer(other) ==> token == other,
        begins_with(bearer(token), "Bearer "@),
{
    let word = "Bearer "@;
    assert((word + token).skip(word.len() as int) =~= token);
    assert((word + other).skip(word.len() as int) =~= other);
    assert((word + token).subrange(0, word.len() as int) =~= word);
}

} // verus!
