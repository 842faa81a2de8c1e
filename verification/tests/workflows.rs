use rust_confessional::activities::{Activity, ActivityResult, ConfessionalActivities};
use rust_confessional::domain::{
    AgentMode, Judgment, ReleaseInput, SubmissionInput, SubmissionStatus, Timestamp,
};
use rust_confessional::fixture::FixtureBackend;
use rust_confessional::openai::Backend;
use rust_confessional::workflows::{
    ConfessionCommand, ConfessionWorkflow, SessionCommand, SessionWorkflow, WorkflowEvent,
    MAX_AGENT_STEPS, MAX_SESSION_AGENT_STEPS,
};

fn submission(id: &str, text: &str, held: bool, agent_mode: AgentMode) -> SubmissionInput {
    SubmissionInput {
        id: id.to_owned(),
        session_id: "show".to_owned(),
        text: text.to_owned(),
        created_at: Timestamp {
            seconds: 0,
            nanoseconds: 0,
        },
        hold_before_reply: held,
        agent_mode,
    }
}

fn release() -> ReleaseInput {
    ReleaseInput {
        reason: "test".to_owned(),
    }
}

/// Answers for an Activity with the offline backend.
fn answer(activity: Activity) -> ActivityResult {
    let backend = FixtureBackend;
    let activities =
        ConfessionalActivities::new(Backend::Fixture(backend), String::new(), String::new());
    match activity {
        Activity::ReportStage(_) => ActivityResult::Reported,
        Activity::Plan(submission) => ActivityResult::Planned(backend.plan(&submission).unwrap()),
        Activity::LookupRemedy(input) => ActivityResult::Remedied(activities.lookup_remedy(&input)),
        Activity::Compose(input) => ActivityResult::Composed(
            backend
                .compose(&input.submission, &input.plan, input.remedy.as_ref(), &input.findings)
                .unwrap(),
        ),
        Activity::DecideNextStep(input) => {
            ActivityResult::Decided(backend.decide_next_step(&input.loop_view()).unwrap())
        }
        Activity::RunSkill(input) => {
            ActivityResult::Researched(backend.run_skill(input.skill, &input.loop_view()).unwrap())
        }
        Activity::Deliver(input) => ActivityResult::Delivered(activities.deliver(input)),
    }
}

fn name(activity: &Activity) -> String {
    match activity {
        Activity::ReportStage(update) => format!("{:?}", update.status),
        Activity::Plan(_) => "plan".to_owned(),
        Activity::LookupRemedy(_) => "lookup".to_owned(),
        Activity::Compose(_) => "compose".to_owned(),
        Activity::DecideNextStep(_) => "decide".to_owned(),
        Activity::RunSkill(_) => "skill".to_owned(),
        Activity::Deliver(_) => "deliver".to_owned(),
    }
}

/// Runs a Workflow until it waits or ends; gives what it ran.
fn drive(
    workflow: &mut ConfessionWorkflow,
    event: WorkflowEvent,
) -> (Vec<String>, ConfessionCommand) {
    let mut ran = Vec::new();
    let mut event = event;
    loop {
        assert!(workflow.expects(&event));
        match workflow.run(event) {
            ConfessionCommand::Run(activity) => {
                ran.push(name(&activity));
                event = WorkflowEvent::Completed(answer(activity));
            }
            command => return (ran, command),
        }
    }
}

fn completed(command: ConfessionCommand) -> Judgment {
    match command {
        ConfessionCommand::Complete(judgment) => judgment,
        other => panic!("the Workflow did not complete: {other:?}"),
    }
}

#[test]
fn a_linear_confession_runs_straight_through() {
    let text = "I used unsafe because I was tired.";
    let mut workflow = ConfessionWorkflow::new(submission("a", text, false, AgentMode::Linear));
    let (ran, command) = drive(&mut workflow, WorkflowEvent::Started);
    assert_eq!(
        ran,
        [
            "Judging",
            "plan",
            "Researching",
            "lookup",
            "Composing",
            "compose",
            "ReplyPending",
            "Sending",
            "deliver",
            "Sent"
        ]
    );
    completed(command).validate().unwrap();
    assert_eq!(workflow.snapshot().status, SubmissionStatus::Sent);
}

#[test]
fn an_autonomous_confession_loops_and_finishes() {
    let text = "I used unsafe because I was tired.";
    let mut workflow = ConfessionWorkflow::new(submission("a", text, false, AgentMode::Autonomous));
    let (ran, command) = drive(&mut workflow, WorkflowEvent::Started);
    let decided = ran.iter().filter(|step| *step == "decide").count();
    assert_eq!(decided, usize::from(MAX_AGENT_STEPS));
    assert_eq!(ran.iter().filter(|step| *step == "compose").count(), 2);
    assert_eq!(ran.iter().filter(|step| *step == "deliver").count(), 1);
    completed(command).validate().unwrap();
    let labels: Vec<&str> = workflow.item.steps.iter().map(|step| step.label()).collect();
    assert_eq!(
        labels,
        [
            "Looked up an approved remedy",
            "Consulted the docs",
            "Self-critiqued the draft",
            "Composed a draft",
            "Revised the draft",
            "Finished"
        ]
    );
}

#[test]
fn a_held_judgment_waits_for_its_release() {
    let mut workflow =
        ConfessionWorkflow::new(submission("a", "I clone it", true, AgentMode::Autonomous));
    let (_, command) = drive(&mut workflow, WorkflowEvent::Started);
    assert_eq!(command, ConfessionCommand::AwaitRelease);
    assert_eq!(workflow.snapshot().status, SubmissionStatus::ReplyPending);
    let (ran, command) = drive(&mut workflow, WorkflowEvent::Woken);
    assert!(ran.is_empty());
    assert_eq!(command, ConfessionCommand::AwaitRelease);
    workflow.release(release());
    let (ran, command) = drive(&mut workflow, WorkflowEvent::Woken);
    assert_eq!(ran, ["Sending", "deliver", "Sent"]);
    completed(command);
}

#[test]
fn a_release_may_come_early() {
    let mut workflow =
        ConfessionWorkflow::new(submission("a", "I clone it", true, AgentMode::Linear));
    workflow.release(release());
    let (ran, command) = drive(&mut workflow, WorkflowEvent::Started);
    assert_eq!(ran.last().map(String::as_str), Some("Sent"));
    completed(command);
}

#[test]
fn a_failed_activity_fails_the_confession_and_a_failed_report_does_not() {
    let mut workflow =
        ConfessionWorkflow::new(submission("a", "x", false, AgentMode::Autonomous));
    assert!(matches!(workflow.run(WorkflowEvent::Started), ConfessionCommand::Run(_)));
    // The report fails, and the Workflow goes on to plan.
    match workflow.run(WorkflowEvent::Completed(ActivityResult::Failed)) {
        ConfessionCommand::Run(Activity::Plan(_)) => {}
        other => panic!("planning should follow: {other:?}"),
    }
    // The plan fails, the failure is reported, and the Workflow ends.
    match workflow.run(WorkflowEvent::Completed(ActivityResult::Failed)) {
        ConfessionCommand::Run(Activity::ReportStage(update)) => {
            assert_eq!(update.status, SubmissionStatus::Failed);
        }
        other => panic!("the failure should be reported: {other:?}"),
    }
    assert_eq!(
        workflow.run(WorkflowEvent::Completed(ActivityResult::Reported)),
        ConfessionCommand::Fail
    );
    assert_eq!(workflow.snapshot().status, SubmissionStatus::Failed);
}

#[test]
fn unexpected_events_are_told_apart() {
    let mut workflow = ConfessionWorkflow::new(submission("a", "x", false, AgentMode::Linear));
    assert!(!workflow.expects(&WorkflowEvent::Woken));
    assert!(!workflow.expects(&WorkflowEvent::Completed(ActivityResult::Reported)));
    assert!(workflow.expects(&WorkflowEvent::Started));
    workflow.run(WorkflowEvent::Started);
    assert!(!workflow.expects(&WorkflowEvent::Started));
    assert!(workflow.expects(&WorkflowEvent::Completed(ActivityResult::Reported)));
    assert!(!workflow.expects(&WorkflowEvent::Completed(answer(Activity::Plan(submission(
        "a",
        "x",
        false,
        AgentMode::Linear
    ))))));
}

#[test]
fn replaying_a_history_resumes_it() {
    let text = "Our production database is a CSV file.";
    let input = || submission("a", text, true, AgentMode::Autonomous);
    let mut whole = ConfessionWorkflow::new(input());
    let (ran, _) = drive(&mut whole, WorkflowEvent::Started);

    // A second Worker replays half of the history and goes on from there.
    let mut first = ConfessionWorkflow::new(input());
    let mut history = Vec::new();
    let mut command = first.run(WorkflowEvent::Started);
    for _ in 0..ran.len() / 2 {
        if let ConfessionCommand::Run(activity) = command {
            history.push(answer_twice(activity));
            let (result, copy) = history.pop().unwrap();
            history.push((copy, ActivityResult::Reported));
            command = first.run(WorkflowEvent::Completed(result));
        }
    }
    let mut second = ConfessionWorkflow::new(input());
    let mut command = second.run(WorkflowEvent::Started);
    for (result, _) in history {
        command = second.run(WorkflowEvent::Completed(result));
    }
    loop {
        match command {
            ConfessionCommand::Run(activity) => {
                command = second.run(WorkflowEvent::Completed(answer(activity)));
            }
            _ => break,
        }
    }
    assert_eq!(second.item, whole.item);
}

/// The answer to an Activity, twice over: the offline backend is deterministic.
fn answer_twice(activity: Activity) -> (ActivityResult, ActivityResult) {
    match activity {
        Activity::ReportStage(update) => {
            (ActivityResult::Reported, answer(Activity::ReportStage(update)))
        }
        Activity::Plan(input) => (
            answer(Activity::Plan(input.clone())),
            answer(Activity::Plan(input)),
        ),
        Activity::DecideNextStep(input) => (
            ActivityResult::Decided(FixtureBackend.decide_next_step(&input.loop_view()).unwrap()),
            answer(Activity::DecideNextStep(input)),
        ),
        Activity::RunSkill(input) => (
            ActivityResult::Researched(
                FixtureBackend
                    .run_skill(input.skill, &input.loop_view())
                    .unwrap(),
            ),
            answer(Activity::RunSkill(input)),
        ),
        Activity::Compose(input) => (
            ActivityResult::Composed(
                FixtureBackend
                    .compose(&input.submission, &input.plan, input.remedy.as_ref(), &input.findings)
                    .unwrap(),
            ),
            answer(Activity::Compose(input)),
        ),
        other => panic!("not part of this history: {other:?}"),
    }
}

/// Runs a session until it waits; gives what it ran.
fn drive_session(session: &mut SessionWorkflow, event: WorkflowEvent) -> Vec<String> {
    let mut ran = Vec::new();
    let mut event = event;
    loop {
        assert!(session.expects(&event));
        match session.run(event) {
            SessionCommand::Run(activity) => {
                ran.push(name(&activity));
                event = WorkflowEvent::Completed(answer(activity));
            }
            SessionCommand::AwaitWork => return ran,
        }
    }
}

#[test]
fn every_offline_confession_is_judged() {
    let texts = [
        "a race",
        "I clone it",
        "it panics",
        "unsafe",
        "a bash script",
        "json",
        "works on my machine",
        "nothing in particular",
        "\u{7}",
    ];
    for text in texts {
        for mode in [AgentMode::Linear, AgentMode::Autonomous] {
            let mut open = ConfessionWorkflow::new(submission("a", text, false, mode));
            let (ran, command) = drive(&mut open, WorkflowEvent::Started);
            assert!(ran.len() <= 80);
            completed(command).validate().unwrap();
            let mut held = ConfessionWorkflow::new(submission("a", text, true, mode));
            let (_, command) = drive(&mut held, WorkflowEvent::Started);
            assert_eq!(command, ConfessionCommand::AwaitRelease);
            held.item.judgment.as_ref().unwrap().validate().unwrap();
        }
    }
}

#[test]
fn releasing_a_session_twice_is_releasing_it_once() {
    let mut session = SessionWorkflow::new("show".to_owned());
    session.add_confession(submission("a", "x", true, AgentMode::Linear));
    session.release(release());
    let once = session.snapshot();
    session.release(release());
    assert_eq!(session.snapshot(), once);
    assert!(once.confessions[0].released);
}

#[test]
fn a_session_composes_everything_before_it_delivers() {
    let mut session = SessionWorkflow::new("show".to_owned());
    assert!(drive_session(&mut session, WorkflowEvent::Started).is_empty());
    session.add_confession(submission("a", "I clone it", false, AgentMode::Linear));
    session.add_confession(submission("b", "a bash script", true, AgentMode::Linear));
    session.add_confession(submission("a", "again", false, AgentMode::Linear));
    assert_eq!(session.snapshot().confessions.len(), 2);
    assert!(session.has_work());

    let ran = drive_session(&mut session, WorkflowEvent::Woken);
    let composed: Vec<usize> = ran
        .iter()
        .enumerate()
        .filter(|(_, step)| *step == "compose")
        .map(|(i, _)| i)
        .collect();
    let delivered = ran.iter().position(|step| step == "deliver").unwrap();
    assert_eq!(composed.len(), 2);
    assert!(composed[1] < delivered);
    let statuses = |session: &SessionWorkflow| -> Vec<SubmissionStatus> {
        session.snapshot().confessions.iter().map(|item| item.status).collect()
    };
    assert_eq!(
        statuses(&session),
        [SubmissionStatus::Sent, SubmissionStatus::ReplyPending]
    );

    assert!(!session.has_work());
    session.release(release());
    assert!(session.has_work());
    assert_eq!(
        drive_session(&mut session, WorkflowEvent::Woken),
        ["Sending", "deliver", "Sent"]
    );
    assert_eq!(statuses(&session), [SubmissionStatus::Sent, SubmissionStatus::Sent]);
    assert!(drive_session(&mut session, WorkflowEvent::Woken).is_empty());
}

#[test]
fn a_session_caps_the_loop_tighter() {
    let mut session = SessionWorkflow::new("show".to_owned());
    let text = "I used unsafe because I was tired.";
    session.add_confession(submission("a", text, true, AgentMode::Autonomous));
    let ran = drive_session(&mut session, WorkflowEvent::Started);
    let decided = ran.iter().filter(|step| *step == "decide").count();
    assert_eq!(decided, usize::from(MAX_SESSION_AGENT_STEPS));
    let snapshot = session.snapshot();
    snapshot.confessions[0].judgment.as_ref().unwrap().validate().unwrap();
    assert_eq!(snapshot.session_id, "show");
}

#[test]
fn a_failed_confession_leaves_the_others_alone() {
    let mut session = SessionWorkflow::new("show".to_owned());
    session.add_confession(submission("a", "x", false, AgentMode::Linear));
    session.add_confession(submission("b", "y", false, AgentMode::Linear));
    session.run(WorkflowEvent::Started);
    session.run(WorkflowEvent::Completed(ActivityResult::Reported));
    // Planning the first confession fails; its failure is reported.
    match session.run(WorkflowEvent::Completed(ActivityResult::Failed)) {
        SessionCommand::Run(Activity::ReportStage(update)) => {
            assert_eq!(update.status, SubmissionStatus::Failed);
        }
        other => panic!("the failure should be reported: {other:?}"),
    }
    let ran = drive_session(&mut session, WorkflowEvent::Completed(ActivityResult::Reported));
    assert_eq!(ran.last().map(String::as_str), Some("Sent"));
    let snapshot = session.snapshot();
    assert_eq!(snapshot.confessions[0].status, SubmissionStatus::Failed);
    assert_eq!(snapshot.confessions[1].status, SubmissionStatus::Sent);
    session.release(release());
    assert!(!session.snapshot().confessions[1].submission.hold_before_reply);
    assert_eq!(session.snapshot().confessions[0].status, SubmissionStatus::Failed);
}
