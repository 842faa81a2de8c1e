//! The board behind the dashboard: the rows of the current session, the reports
//! that change them, and the awards they lead to.
use vstd::prelude::*;

use crate::domain::{
    text_of, AgentMode, AwardScores, Awards, StageSubmission, StageSubmissionView, StageUpdate,
    StageUpdateView, SubmissionStatus, WorkflowMode,
};
use crate::text::{
    begins_with, blank, decimal, has, is_blank, join, joined, occurs_at, pairs, same, to_decimal,
};

verus! {

// ---------------------------------------------------------------------------
// Fresh identifiers
// ---------------------------------------------------------------------------
/// A character of Crockford's Base32.
pub open spec fn is_crockford(c: char) -> bool {
    let u = c as u32;
    0x30 <= u <= 0x39 || (0x41 <= u <= 0x5a && c != 'I' && c != 'L' && c != 'O' && c != 'U')
}

/// The shape of a ULID.
pub open spec fn is_ulid(s: Seq<char>) -> bool {
    s.len() == 26 && forall|i: int| 0 <= i < s.len() ==> is_crockford(#[trigger] s[i])
}

/// `ulid::Ulid::new` and `Ulid::to_string` of what it gives: an identifier made
/// from the time and from chance, written as 26 characters of Crockford's Base32.
/// Nothing is said of which one it is, nor that no two are alike.
#[verifier::external_body]
pub(crate) fn fresh_ulid() -> (res: String)
    ensures
        is_ulid(res@),
{
    ulid::Ulid::new().to_string()
}

// ---------------------------------------------------------------------------
// The board
// ---------------------------------------------------------------------------
/// What the stage keeps across restarts.
#[derive(Debug, PartialEq, Eq)]
pub struct StoredStageState {
    pub session_id: String,
    pub held: bool,
    pub workflow_mode: WorkflowMode,
    pub agent_mode: AgentMode,
    pub submissions: Vec<StageSubmission>,
}

#[verifier::ext_equal]
pub struct BoardView {
    pub session_id: Seq<char>,
    pub held: bool,
    pub workflow_mode: WorkflowMode,
    pub agent_mode: AgentMode,
    pub submissions: Seq<StageSubmissionView>,
}

pub open spec fn row_views(rows: Seq<StageSubmission>) -> Seq<StageSubmissionView> {
    rows.map_values(|row: StageSubmission| row@)
}

impl View for StoredStageState {
    type V = BoardView;

    open spec fn view(&self) -> BoardView {
        BoardView {
            session_id: self.session_id@,
            held: self.held,
            workflow_mode: self.workflow_mode,
            agent_mode: self.agent_mode,
            submissions: row_views(self.submissions@),
        }
    }
}

/// The board of a session that has just begun: replies are held, and the
/// autonomous loop is on.
pub open spec fn fresh_board(session_id: Seq<char>) -> BoardView {
    BoardView {
        session_id,
        held: true,
        workflow_mode: WorkflowMode::PerConfession,
        agent_mode: AgentMode::Autonomous,
        submissions: Seq::empty(),
    }
}

/// The position of the first row with this identifier, or -1.
pub open spec fn row_from(rows: Seq<StageSubmissionView>, id: Seq<char>, from: int) -> int
    decreases rows.len() - from,
{
    if from < 0 || from >= rows.len() {
        -1
    } else if rows[from].id == id {
        from
    } else {
        row_from(rows, id, from + 1)
    }
}

/// The position of the row with this identifier, or -1.
pub open spec fn row_of(rows: Seq<StageSubmissionView>, id: Seq<char>) -> int {
    row_from(rows, id, 0)
}

pub proof fn lemma_row_from(rows: Seq<StageSubmissionView>, id: Seq<char>, from: int)
    requires
        0 <= from,
    ensures
        row_from(rows, id, from) >= 0 ==> from <= row_from(rows, id, from) < rows.len()
            && rows[row_from(rows, id, from)].id == id,
        row_from(rows, id, from) < 0 ==> forall|i: int|
            from <= i < rows.len() ==> (#[trigger] rows[i]).id != id,
    decreases rows.len() - from,
{
    if from < rows.len() && rows[from].id != id {
        lemma_row_from(rows, id, from + 1);
    }
}

/// Why a row was not added.
#[derive(Debug, Clone, Copy, PartialEq, Eq, Structural)]
pub enum InsertError {
    AtCapacity,
}

/// Adding a row: one that is there already stays as it is; a new one is refused
/// when the board is full.
pub open spec fn inserted(board: BoardView, row: StageSubmissionView, maximum: nat) -> (
    BoardView,
    Result<(StageSubmissionView, bool), InsertError>,
) {
    let i = row_of(board.submissions, row.id);
    if i >= 0 {
        (board, Ok((board.submissions[i], false)))
    } else if board.submissions.len() >= maximum {
        (board, Err(InsertError::AtCapacity))
    } else {
        (BoardView { submissions: board.submissions.push(row), ..board }, Ok((row, true)))
    }
}

/// The board with a confession marked as failed, if it is there.
pub open spec fn marked_failed(board: BoardView, id: Seq<char>, error: Seq<char>) -> BoardView {
    let i = row_of(board.submissions, id);
    if i >= 0 {
        BoardView {
            submissions: board.submissions.update(
                i,
                StageSubmissionView {
                    status: SubmissionStatus::Failed,
                    error: Some(error),
                    ..board.submissions[i]
                },
            ),
            ..board
        }
    } else {
        board
    }
}

/// How a rating reads on the board: the bare level where no reason is given.
pub open spec fn severity_line(severity: u8, reason: Seq<char>) -> Seq<char> {
    if blank(reason) {
        "Ferris Level "@ + decimal(severity as nat) + "/5"@
    } else {
        "Ferris Level "@ + decimal(severity as nat) + "/5 — "@ + reason
    }
}

/// A row after a report. A report without steps leaves the trace, and one
/// without a judgment leaves what the judgment filled in.
pub open spec fn updated_row(
    row: StageSubmissionView,
    update: StageUpdateView,
    replace_with_safe_display: bool,
) -> StageSubmissionView {
    let reported = StageSubmissionView {
        status: update.status,
        error: update.error,
        agent_steps: if update.agent_steps.len() > 0 {
            update.agent_steps
        } else {
            row.agent_steps
        },
        ..row
    };
    match update.judgment {
        Some(judgment) => StageSubmissionView {
            text: if replace_with_safe_display {
                judgment.display_confession
            } else {
                row.text
            },
            category: Some(judgment.category),
            judgment: Some(judgment.judgment),
            severity: Some(severity_line(judgment.severity, judgment.severity_reason)),
            prescription: Some(
                judgment.prescription + " Suggested tools: "@ + joined(
                    judgment.suggested_tools,
                    ", "@,
                ) + "."@,
            ),
            sentence: Some(judgment.sentence),
            penance_reps: Some(judgment.severity),
            penance: Some(judgment.penance),
            penance_line: Some(judgment.penance_line),
            award_scores: Some(judgment.award_scores),
            ..reported
        },
        None => reported,
    }
}

/// The board after a report. A report of another session changes nothing, nor
/// does one of a confession that is not there.
pub open spec fn updated(
    board: BoardView,
    update: StageUpdateView,
    replace_with_safe_display: bool,
) -> BoardView {
    let i = row_of(board.submissions, update.id);
    if update.session_id == board.session_id && i >= 0 {
        BoardView {
            submissions: board.submissions.update(
                i,
                updated_row(board.submissions[i], update, replace_with_safe_display),
            ),
            ..board
        }
    } else {
        board
    }
}

/// A confession of the session whose Workflow has not finished.
pub open spec fn unfinished(row: StageSubmissionView, session_id: Seq<char>) -> bool {
    row.session_id == session_id && row.status != SubmissionStatus::Sent && row.status
        != SubmissionStatus::Failed
}

/// The identifiers of the unfinished confessions and their Workflows.
pub open spec fn releasable(rows: Seq<StageSubmissionView>, session_id: Seq<char>) -> Seq<
    (Seq<char>, Seq<char>),
>
    decreases rows.len(),
{
    if rows.len() == 0 {
        Seq::empty()
    } else {
        let before = releasable(rows.drop_last(), session_id);
        if unfinished(rows.last(), session_id) {
            before.push((rows.last().id, rows.last().workflow_id))
        } else {
            before
        }
    }
}

fn severity_text(severity: u8, reason: &str) -> (res: String)
    ensures
        res@ == severity_line(severity, reason@),
{
    let mut out = "Ferris Level ".to_owned();
    let level = to_decimal(severity as u64);
    out.append(level.as_str());
    if is_blank(reason) {
        out.append("/5");
    } else {
        out.append("/5 — ");
        out.append(reason);
    }
    out
}

fn apply_to_row(row: &mut StageSubmission, update: StageUpdate, replace_with_safe_display: bool)
    ensures
        final(row)@ == updated_row(old(row)@, update@, replace_with_safe_display),
{
    row.status = update.status;
    row.error = update.error;
    if update.agent_steps.len() > 0 {
        row.agent_steps = update.agent_steps;
    }
    if let Some(judgment) = update.judgment {
        if replace_with_safe_display {
            row.text = judgment.display_confession;
        }
        row.category = Some(judgment.category);
        row.judgment = Some(judgment.judgment);
        row.severity = Some(severity_text(judgment.severity, judgment.severity_reason.as_str()));
        let mut prescription = judgment.prescription;
        prescription.append(" Suggested tools: ");
        let tools = join(&judgment.suggested_tools, ", ");
        prescription.append(tools.as_str());
        prescription.append(".");
        row.prescription = Some(prescription);
        row.sentence = Some(judgment.sentence);
        row.penance_reps = Some(judgment.severity);
        row.penance = Some(judgment.penance);
        row.penance_line = Some(judgment.penance_line);
        row.award_scores = Some(judgment.award_scores);
    }
}

impl Default for StoredStageState {
    fn default() -> (res: Self)
        ensures
            is_ulid(res@.session_id),
            res@ == fresh_board(res@.session_id),
    {
        StoredStageState::fresh(fresh_ulid())
    }
}

impl StoredStageState {
    /// The board of a session that has just begun.
    pub fn fresh(session_id: String) -> (res: Self)
        ensures
            res@ == fresh_board(session_id@),
    {
        let res = StoredStageState {
            session_id,
            held: true,
            workflow_mode: WorkflowMode::PerConfession,
            agent_mode: AgentMode::Autonomous,
            submissions: Vec::new(),
        };
        assert(res@ =~= fresh_board(session_id@));
        res
    }

    fn find(&self, id: &str) -> (res: Option<usize>)
        ensures
            match res {
                Some(i) => i < self.submissions@.len() && row_of(self@.submissions, id@) == i,
                None => row_of(self@.submissions, id@) == -1,
            },
    {
        let mut i: usize = 0;
        while i < self.submissions.len()
            invariant
                i <= self.submissions@.len(),
                row_of(self@.submissions, id@) == row_from(self@.submissions, id@, i as int),
            decreases self.submissions@.len() - i,
        {
            if same(self.submissions[i].id.as_str(), id) {
                return Some(i);
            }
            i += 1;
        }
        None
    }

    /// Adds a row unless it is there already; says which row stands on the board
    /// and whether it was added.
    pub fn insert_if_absent(&mut self, submission: StageSubmission, maximum: usize) -> (res: Result<
        (StageSubmission, bool),
        InsertError,
    >)
        ensures
            final(self)@ == inserted(old(self)@, submission@, maximum as nat).0,
            match res {
                Ok((row, added)) => inserted(old(self)@, submission@, maximum as nat).1 == Ok::<
                    (StageSubmissionView, bool),
                    InsertError,
                >((row@, added)),
                Err(error) => inserted(old(self)@, submission@, maximum as nat).1 == Err::<
                    (StageSubmissionView, bool),
                    InsertError,
                >(error),
            },
    {
        if let Some(i) = self.find(submission.id.as_str()) {
            return Ok((self.submissions[i].clone(), false));
        }
        if self.submissions.len() >= maximum {
            return Err(InsertError::AtCapacity);
        }
        self.submissions.push(submission.clone());
        assert(self@.submissions =~= old(self)@.submissions.push(submission@));
        Ok((submission, true))
    }

    pub fn mark_failed(&mut self, id: &str, error: String)
        ensures
            final(self)@ == marked_failed(old(self)@, id@, error@),
    {
        if let Some(i) = self.find(id) {
            let row = &mut self.submissions[i];
            row.status = SubmissionStatus::Failed;
            row.error = Some(error);
        }
        assert(self@.submissions =~= marked_failed(old(self)@, id@, error@).submissions);
    }

    /// Applies a report; says whether the report was of this session.
    pub fn apply_update(&mut self, update: StageUpdate, replace_with_safe_display: bool) -> (res:
        bool)
        ensures
            final(self)@ == updated(old(self)@, update@, replace_with_safe_display),
            res == (update@.session_id == old(self)@.session_id),
    {
        if !same(update.session_id.as_str(), self.session_id.as_str()) {
            return false;
        }
        let ghost after = updated(old(self)@, update@, replace_with_safe_display);
        if let Some(i) = self.find(update.id.as_str()) {
            apply_to_row(&mut self.submissions[i], update, replace_with_safe_display);
        }
        assert(self@.submissions =~= after.submissions);
        true
    }

    pub fn set_held(&mut self, held: bool)
        ensures
            final(self)@ == (BoardView { held, ..old(self)@ }),
    {
        self.held = held;
    }

    pub fn set_mode(&mut self, mode: WorkflowMode)
        ensures
            final(self)@ == (BoardView { workflow_mode: mode, ..old(self)@ }),
    {
        self.workflow_mode = mode;
    }

    pub fn set_agent_mode(&mut self, agent_mode: AgentMode)
        ensures
            final(self)@ == (BoardView { agent_mode, ..old(self)@ }),
    {
        self.agent_mode = agent_mode;
    }

    /// The identifiers of the unfinished confessions and their Workflows.
    pub fn releasable_workflows(&self) -> (res: Vec<(String, String)>)
        ensures
            pairs(res@) == releasable(self@.submissions, self@.session_id),
    {
        let ghost all = self@.submissions;
        let mut out: Vec<(String, String)> = Vec::new();
        let mut i: usize = 0;
        assert(pairs(out@) =~= releasable(all.take(0), self@.session_id));
        while i < self.submissions.len()
            invariant
                i <= self.submissions@.len(),
                all == self@.submissions,
                pairs(out@) == releasable(all.take(i as int), self@.session_id),
            decreases self.submissions@.len() - i,
        {
            let row = &self.submissions[i];
            let ghost before = pairs(out@);
            proof {
                assert(all.take(i + 1).drop_last() =~= all.take(i as int));
                assert(all.take(i + 1).last() == row@);
            }
            if same(row.session_id.as_str(), self.session_id.as_str()) && row.status
                != SubmissionStatus::Sent && row.status != SubmissionStatus::Failed {
                out.push((row.id.clone(), row.workflow_id.clone()));
                assert(pairs(out@) =~= before.push((row@.id, row@.workflow_id)));
            }
            i += 1;
        }
        assert(all.take(i as int) =~= all);
        out
    }

    /// Begins a new session with a clean board.
    pub fn reset(&mut self)
        ensures
            is_ulid(final(self)@.session_id),
            final(self)@ == fresh_board(final(self)@.session_id),
    {
        *self = StoredStageState::fresh(fresh_ulid());
    }
}

/// The name under which a file is written before it takes its place.
pub open spec fn temporary_name_of(path: Seq<char>, mark: Seq<char>) -> Seq<char> {
    path + "."@ + mark + ".tmp"@
}

/// The name under which a file is written before it takes its place.
pub fn temporary_name(path: &str, mark: &str) -> (res: String)
    ensures
        res@ == temporary_name_of(path@, mark@),
{
    let mut out = path.to_owned();
    out.append(".");
    out.append(mark);
    out.append(".tmp");
    out
}

/// A fresh name beside a file, under which it is written before it takes its
/// place.
pub fn temporary_path(path: &str) -> (res: String)
    ensures
        exists|mark: Seq<char>|
            is_ulid(mark) && res@ == #[trigger] temporary_name_of(path@, mark),
{
    let mark = fresh_ulid();
    temporary_name(path, mark.as_str())
}

// ---------------------------------------------------------------------------
// Awards
// ---------------------------------------------------------------------------
/// One of the three award lists.
#[derive(Debug, Clone, Copy, PartialEq, Eq, Structural)]
pub enum Award {
    MostCursed,
    MostRelatable,
    MostNeedlesslyRewritten,
}

/// The score that counts for an award.
pub open spec fn score_for(award: Award, scores: AwardScores) -> u8 {
    match award {
        Award::MostCursed => scores.most_cursed,
        Award::MostRelatable => scores.most_relatable,
        Award::MostNeedlesslyRewritten => scores.most_needlessly_rewritten,
    }
}

/// A confession that competes: its reply has been sent, and it has scores.
pub open spec fn competes(row: StageSubmissionView) -> bool {
    row.status == SubmissionStatus::Sent && row.award_scores is Some
}

/// The row that leads an award list: of the highest score, and the last of
/// those.
pub open spec fn leads(rows: Seq<StageSubmissionView>, award: Award, i: int) -> bool {
    &&& 0 <= i < rows.len()
    &&& competes(rows[i])
    &&& forall|k: int|
        0 <= k < rows.len() && competes(#[trigger] rows[k]) ==> {
            let (mine, other) = (
                score_for(award, rows[i].award_scores->0),
                score_for(award, rows[k].award_scores->0),
            );
            mine > other || (mine == other && k <= i)
        }
}

/// Names the leader of an award list, or nobody where nobody competes.
pub open spec fn is_winner(
    rows: Seq<StageSubmissionView>,
    award: Award,
    winner: Option<Seq<char>>,
) -> bool {
    match winner {
        Some(id) => exists|i: int| leads(rows, award, i) && rows[i].id == id,
        None => forall|i: int| 0 <= i < rows.len() ==> !competes(#[trigger] rows[i]),
    }
}

fn score(award: Award, scores: &AwardScores) -> (res: u8)
    ensures
        res == score_for(award, *scores),
{
    match award {
        Award::MostCursed => scores.most_cursed,
        Award::MostRelatable => scores.most_relatable,
        Award::MostNeedlesslyRewritten => scores.most_needlessly_rewritten,
    }
}

/// The leader of an award list, if anyone competes.
pub fn winner(submissions: &[StageSubmission], award: Award) -> (res: Option<String>)
    ensures
        is_winner(row_views(submissions@), award, text_of(res)),
{
    let ghost rows = row_views(submissions@);
    let mut best: Option<(usize, u8)> = None;
    let mut i: usize = 0;
    while i < submissions.len()
        invariant
            i <= submissions@.len(),
            rows == row_views(submissions@),
            match best {
                Some((b, s)) => b < i && leads(rows.take(i as int), award, b as int) && s
                    == score_for(award, rows[b as int].award_scores->0),
                None => forall|k: int| 0 <= k < i ==> !competes(#[trigger] rows[k]),
            },
        decreases submissions@.len() - i,
    {
        let row = &submissions[i];
        let ghost before = rows.take(i as int);
        let ghost upto = rows.take(i + 1);
        assert(forall|k: int| 0 <= k < i ==> #[trigger] upto[k] == before[k]);
        assert(upto[i as int] == row@);
        if row.status == SubmissionStatus::Sent {
            if let Some(scores) = &row.award_scores {
                let s: u8 = score(award, scores);
                let better = match best {
                    Some((_, top)) => s >= top,
                    None => true,
                };
                if better {
                    best = Some((i, s));
                }
            }
        }
        proof {
            assert forall|k: int| 0 <= k < upto.len() && competes(#[trigger] upto[k]) implies k == i
                || competes(before[k]) by {}
        }
        i += 1;
    }
    assert(rows.take(i as int) =~= rows);
    match best {
        Some((b, _)) => {
            let id = submissions[b].id.clone();
            assert(leads(rows, award, b as int) && rows[b as int].id == id@);
            Some(id)
        },
        None => None,
    }
}

pub fn awards_for(submissions: &[StageSubmission]) -> (res: Awards)
    ensures
        is_winner(row_views(submissions@), Award::MostCursed, text_of(res.most_cursed)),
        is_winner(row_views(submissions@), Award::MostRelatable, text_of(res.most_relatable)),
        is_winner(
            row_views(submissions@),
            Award::MostNeedlesslyRewritten,
            text_of(res.most_needlessly_rewritten),
        ),
{
    Awards {
        most_cursed: winner(submissions, Award::MostCursed),
        most_relatable: winner(submissions, Award::MostRelatable),
        most_needlessly_rewritten: winner(submissions, Award::MostNeedlesslyRewritten),
    }
}

// ---------------------------------------------------------------------------
// Laws
// ---------------------------------------------------------------------------
/// An award list has at most one leader.
pub proof fn law_leaders_are_unique(
    rows: Seq<StageSubmissionView>,
    award: Award,
    i: int,
    j: int,
)
    requires
        leads(rows, award, i),
        leads(rows, award, j),
    ensures
        i == j,
{
}

/// No two rows have the same identifier.
pub open spec fn distinct_rows(rows: Seq<StageSubmissionView>) -> bool {
    forall|i: int, j: int|
        0 <= i < j < rows.len() ==> (#[trigger] rows[i]).id != (#[trigger] rows[j]).id
}

/// Adding a row a second time changes nothing and gives back the row that was
/// added first; a full board refuses every row that is not on it and stays as it
/// is.
pub proof fn law_insertion_is_idempotent_and_capacity_atomic(
    board: BoardView,
    row: StageSubmissionView,
    again: StageSubmissionView,
    maximum: nat,
    other_maximum: nat,
)
    requires
        again.id == row.id,
    ensures
        ({
            let (after, first) = inserted(board, row, maximum);
            &&& first matches Ok((stored, _)) ==> inserted(after, again, other_maximum) == (
                after,
                Ok::<(StageSubmissionView, bool), InsertError>((stored, false)),
            )
            &&& first is Err ==> after == board && board.submissions.len() >= maximum
            &&& after.submissions.len() <= maximum || after.submissions.len()
                == board.submissions.len()
        }),
{
    let (after, first) = inserted(board, row, maximum);
    lemma_row_from(board.submissions, row.id, 0);
    lemma_row_from(after.submissions, row.id, 0);
    if row_of(board.submissions, row.id) < 0 && board.submissions.len() < maximum {
        let n = board.submissions.len() as int;
        assert(after.submissions[n].id == row.id);
        let i = row_of(after.submissions, row.id);
        if i < n {
            assert(board.submissions[i].id == row.id);
        }
    }
}

/// Whatever happens to a board, no two of its rows get the same identifier, and
/// none of them is lost or moved.
pub proof fn law_rows_keep_their_identity(
    board: BoardView,
    row: StageSubmissionView,
    maximum: nat,
    id: Seq<char>,
    error: Seq<char>,
    update: StageUpdateView,
    replace: bool,
)
    requires
        distinct_rows(board.submissions),
    ensures
        distinct_rows(inserted(board, row, maximum).0.submissions),
        distinct_rows(marked_failed(board, id, error).submissions),
        distinct_rows(updated(board, update, replace).submissions),
        board.submissions.is_prefix_of(inserted(board, row, maximum).0.submissions),
        marked_failed(board, id, error).submissions.len() == board.submissions.len(),
        updated(board, update, replace).submissions.len() == board.submissions.len(),
        forall|i: int|
            0 <= i < board.submissions.len() ==> (#[trigger] marked_failed(
                board,
                id,
                error,
            ).submissions[i]).id == board.submissions[i].id,
        forall|i: int|
            0 <= i < board.submissions.len() ==> (#[trigger] updated(
                board,
                update,
                replace,
            ).submissions[i]).id == board.submissions[i].id,
{
    let rows = board.submissions;
    lemma_row_from(rows, row.id, 0);
    lemma_row_from(rows, id, 0);
    lemma_row_from(rows, update.id, 0);
    let a = inserted(board, row, maximum).0.submissions;
    assert forall|i: int, j: int| 0 <= i < j < a.len() implies (#[trigger] a[i]).id != (
    #[trigger] a[j]).id by {
        assert(a[i] == rows[i]);
        if j < rows.len() {
            assert(a[j] == rows[j]);
        }
    }
    let b = marked_failed(board, id, error).submissions;
    assert forall|i: int, j: int| 0 <= i < j < b.len() implies (#[trigger] b[i]).id != (
    #[trigger] b[j]).id by {
        assert(rows[i].id != rows[j].id);
    }
    let c = updated(board, update, replace).submissions;
    assert forall|i: int, j: int| 0 <= i < j < c.len() implies (#[trigger] c[i]).id != (
    #[trigger] c[j]).id by {
        assert(rows[i].id != rows[j].id);
    }
}

/// A report touches one row at most, the one of its confession, and never what
/// identifies it. A report of another session touches none.
pub proof fn law_reports_touch_their_own_row(
    board: BoardView,
    update: StageUpdateView,
    replace: bool,
    i: int,
)
    requires
        0 <= i < board.submissions.len(),
    ensures
        ({
            let before = board.submissions[i];
            let after = updated(board, update, replace).submissions[i];
            &&& before.id != update.id || update.session_id != board.session_id ==> after == before
            &&& after.id == before.id && after.workflow_id == before.workflow_id
            &&& after.session_id == before.session_id && after.created_at == before.created_at
        }),
{
    lemma_row_from(board.submissions, update.id, 0);
}

/// The plain reports of the delivery tail never clear a trace that was built up,
/// nor what the judgment filled in.
pub proof fn law_plain_reports_keep_trace_and_judgment(
    row: StageSubmissionView,
    update: StageUpdateView,
    replace: bool,
)
    requires
        update.agent_steps.len() == 0,
        update.judgment is None,
    ensures
        updated_row(row, update, replace) == (StageSubmissionView {
            status: update.status,
            error: update.error,
            ..row
        }),
{
}

/// Where raw confessions are not shown, a report puts nothing on the board but
/// the judgment's stage-safe display: the text of a row is what it was, or that.
pub proof fn law_reports_show_only_safe_text(row: StageSubmissionView, update: StageUpdateView)
    ensures
        updated_row(row, update, true).text == row.text || (update.judgment matches Some(judgment)
            && updated_row(row, update, true).text == judgment.display_confession),
        updated_row(row, update, false).text == row.text,
{
}

proof fn lemma_releasable(rows: Seq<StageSubmissionView>, session_id: Seq<char>)
    ensures
        releasable(rows, session_id).len() == 0 <==> forall|i: int|
            0 <= i < rows.len() ==> !unfinished(#[trigger] rows[i], session_id),
    decreases rows.len(),
{
    if rows.len() > 0 {
        let rest = rows.drop_last();
        lemma_releasable(rest, session_id);
        assert(rows.last() == rows[rows.len() - 1]);
        assert(forall|i: int| 0 <= i < rest.len() ==> #[trigger] rest[i] == rows[i]);
        if releasable(rows, session_id).len() == 0 {
            assert forall|i: int| 0 <= i < rows.len() implies !unfinished(
                #[trigger] rows[i],
                session_id,
            ) by {
                if i < rest.len() {
                    assert(!unfinished(rest[i], session_id));
                }
            }
        } else if forall|i: int| 0 <= i < rows.len() ==> !unfinished(
            #[trigger] rows[i],
            session_id,
        ) {
            assert forall|i: int| 0 <= i < rest.len() implies !unfinished(
                #[trigger] rest[i],
                session_id,
            ) by {
                assert(!unfinished(rows[i], session_id));
            }
        }
    }
}

/// Nothing is left to release exactly when every confession of the session has
/// been sent or has failed.
pub proof fn law_nothing_to_release_when_all_finished(board: BoardView)
    ensures
        releasable(board.submissions, board.session_id).len() == 0 <==> forall|i: int|
            0 <= i < board.submissions.len() ==> !unfinished(
                #[trigger] board.submissions[i],
                board.session_id,
            ),
{
    lemma_releasable(board.submissions, board.session_id);
}

/// A report is shown as it is: its status, its error and its steps, and of its
/// judgment every field. A rating reads as its level, with the reason where there
/// is one, and as many repetitions of the penance are due as the level says.
pub proof fn law_a_report_is_shown_as_it_is(
    row: StageSubmissionView,
    update: StageUpdateView,
    replace: bool,
)
    ensures
        ({
            let after = updated_row(row, update, replace);
            &&& after.status == update.status
            &&& after.error == update.error
            &&& update.agent_steps.len() > 0 ==> after.agent_steps == update.agent_steps
            &&& update.agent_steps.len() == 0 ==> after.agent_steps == row.agent_steps
            &&& update.judgment matches Some(judgment) ==> {
                &&& replace ==> after.text == judgment.display_confession
                &&& !replace ==> after.text == row.text
                &&& after.category == Some(judgment.category)
                &&& after.judgment == Some(judgment.judgment)
                &&& after.severity matches Some(line) && begins_with(
                    line,
                    "Ferris Level "@ + decimal(judgment.severity as nat) + "/5"@,
                ) && (!blank(judgment.severity_reason) ==> has(line, judgment.severity_reason))
                &&& after.prescription matches Some(advice) && begins_with(
                    advice,
                    judgment.prescription,
                ) && has(advice, joined(judgment.suggested_tools, ", "@))
                &&& after.sentence == Some(judgment.sentence)
                &&& after.penance_reps == Some(judgment.severity)
                &&& after.penance == Some(judgment.penance)
                &&& after.penance_line == Some(judgment.penance_line)
                &&& after.award_scores == Some(judgment.award_scores)
            }
        }),
{
    if let Some(judgment) = update.judgment {
        let level = "Ferris Level "@ + decimal(judgment.severity as nat) + "/5"@;
        let line = severity_line(judgment.severity, judgment.severity_reason);
        reveal_strlit("/5");
        reveal_strlit("/5 — ");
        assert(occurs_at(line, level, 0)) by {
            assert(line.subrange(0, level.len() as int) =~= level);
        }
        if !blank(judgment.severity_reason) {
            let reason = judgment.severity_reason;
            let at = line.len() - reason.len();
            assert(line.subrange(at, line.len() as int) =~= reason);
            assert(occurs_at(line, reason, at));
        }
        let tools = joined(judgment.suggested_tools, ", "@);
        let advice = judgment.prescription + " Suggested tools: "@ + tools + "."@;
        assert(advice.subrange(0, judgment.prescription.len() as int) =~= judgment.prescription);
        let at = (judgment.prescription + " Suggested tools: "@).len() as int;
        assert(advice.subrange(at, at + tools.len()) =~= tools);
        assert(occurs_at(advice, tools, at));
    }
}

/// A report of a confession of this session reaches that confession's row.
pub proof fn law_a_report_reaches_its_row(
    board: BoardView,
    update: StageUpdateView,
    replace: bool,
    i: int,
)
    requires
        distinct_rows(board.submissions),
        0 <= i < board.submissions.len(),
        board.submissions[i].id == update.id,
        board.session_id == update.session_id,
    ensures
        updated(board, update, replace).submissions[i] == updated_row(
            board.submissions[i],
            update,
            replace,
        ),
        updated(board, update, replace).session_id == board.session_id,
        updated(board, update, replace).held == board.held,
        updated(board, update, replace).workflow_mode == board.workflow_mode,
        updated(board, update, replace).agent_mode == board.agent_mode,
{
    lemma_row_from(board.submissions, update.id, 0);
}

/// A winner has been sent and has the highest score of its award, and there is
/// one wherever a sent confession has scores.
pub proof fn law_a_winner_has_the_highest_score(
    rows: Seq<StageSubmissionView>,
    award: Award,
    winner: Option<Seq<char>>,
    k: int,
)
    requires
        is_winner(rows, award, winner),
        0 <= k < rows.len(),
        rows[k].status == SubmissionStatus::Sent,
        rows[k].award_scores is Some,
    ensures
        winner matches Some(id) && exists|i: int|
            0 <= i < rows.len() && (#[trigger] rows[i]).id == id && rows[i].status
                == SubmissionStatus::Sent && rows[i].award_scores is Some && match award {
                Award::MostCursed => rows[k].award_scores->0.most_cursed
                    <= rows[i].award_scores->0.most_cursed,
                Award::MostRelatable => rows[k].award_scores->0.most_relatable
                    <= rows[i].award_scores->0.most_relatable,
                Award::MostNeedlesslyRewritten => rows[k].award_scores->0.most_needlessly_rewritten
                    <= rows[i].award_scores->0.most_needlessly_rewritten,
            },
{
    assert(competes(rows[k]));
    if let Some(id) = winner {
        let i = choose|i: int| leads(rows, award, i) && rows[i].id == id;
        assert(rows[i].id == id);
    }
}

/// Of those with the same score the one that came last wins.
pub proof fn law_ties_go_to_the_last(
    rows: Seq<StageSubmissionView>,
    award: Award,
    winner: Seq<char>,
    i: int,
    k: int,
)
    requires
        distinct_rows(rows),
        is_winner(rows, award, Some(winner)),
        0 <= i < rows.len(),
        rows[i].id == winner,
        0 <= k < rows.len(),
        rows[k].status == SubmissionStatus::Sent,
        rows[k].award_scores is Some,
        match award {
            Award::MostCursed => rows[k].award_scores->0.most_cursed
                == rows[i].award_scores->0.most_cursed,
            Award::MostRelatable => rows[k].award_scores->0.most_relatable
                == rows[i].award_scores->0.most_relatable,
            Award::MostNeedlesslyRewritten => rows[k].award_scores->0.most_needlessly_rewritten
                == rows[i].award_scores->0.most_needlessly_rewritten,
        },
    ensures
        k <= i,
{
    let w = choose|w: int| leads(rows, award, w) && rows[w].id == winner;
    if w < i {
        assert(rows[w].id != rows[i].id);
    } else if i < w {
        assert(rows[i].id != rows[w].id);
    }
    assert(competes(rows[k]));
}

} // verus!
