//! The identifiers of Workflows, and what a start that failed amounts to.
use vstd::prelude::*;

use crate::WORKFLOW_ID_PREFIX;

verus! {

/// The Workflow of one confession.
pub open spec fn workflow_id_of(submission_id: Seq<char>) -> Seq<char> {
    WORKFLOW_ID_PREFIX@ + "-"@ + submission_id
}

/// The aggregate Workflow of one session.
pub open spec fn session_workflow_id_of(session_id: Seq<char>) -> Seq<char> {
    WORKFLOW_ID_PREFIX@ + "-session-"@ + session_id
}

pub fn workflow_id(submission_id: &str) -> (res: String)
    ensures
        res@ == workflow_id_of(submission_id@),
{
    let mut out = WORKFLOW_ID_PREFIX.to_owned();
    out.append("-");
    out.append(submission_id);
    out
}

pub fn session_workflow_id(session_id: &str) -> (res: String)
    ensures
        res@ == session_workflow_id_of(session_id@),
{
    let mut out = WORKFLOW_ID_PREFIX.to_owned();
    out.append("-session-");
    out.append(session_id);
    out
}

/// What a start of a Workflow amounts to. A source can retry after the Workflow
/// has already completed, so a start that failed still counts as success if a
/// Workflow of that stable identifier exists.
pub fn start_outcome<E>(workflow_id: String, started: Result<(), E>, exists_already: bool) -> (res:
    Result<String, E>)
    ensures
        match started {
            Ok(_) => res == Ok::<String, E>(workflow_id),
            Err(error) => if exists_already {
                res == Ok::<String, E>(workflow_id)
            } else {
                res == Err::<String, E>(error)
            },
        },
{
    match started {
        Ok(_) => Ok(workflow_id),
        Err(error) => if exists_already {
            Ok(workflow_id)
        } else {
            Err(error)
        },
    }
}

/// The reason that a release Signal carries.
pub fn release_reason() -> (res: String)
    ensures
        res@ == "stage operator released replies"@,
{
    "stage operator released replies".to_owned()
}

/// Different confessions have different Workflows, and different sessions have
/// different aggregate Workflows.
pub proof fn law_workflow_ids_are_injective(a: Seq<char>, b: Seq<char>)
    ensures
        workflow_id_of(a) == workflow_id_of(b) ==> a == b,
        session_workflow_id_of(a) == session_workflow_id_of(b) ==> a == b,
{
    let p = WORKFLOW_ID_PREFIX@ + "-"@;
    let q = WORKFLOW_ID_PREFIX@ + "-session-"@;
    assert((p + a).skip(p.len() as int) =~= a);
    assert((p + b).skip(p.len() as int) =~= b);
    assert((q + a).skip(q.len() as int) =~= a);
    assert((q + b).skip(q.len() as int) =~= b);
}

} // verus!
