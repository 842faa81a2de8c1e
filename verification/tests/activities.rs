use rust_confessional::activities::{
    failure_update, injected_failure, model_error, simulates_rate_limit, stage_update,
    trace_update, Activity, ComposeInput, ConfessionalActivities, DecideInput, DeliveryInput,
    LookupInput, SkillInput, StageReporter,
};
use rust_confessional::agent::{remedy_for, ModelError};
use rust_confessional::fixture::FixtureBackend;
use rust_confessional::openai::{Backend, OpenAiBackend};
use rust_confessional::domain::{
    AgentMode, AgentPlan, AgentStep, Category, Skill, SubmissionInput, SubmissionStatus, Timestamp,
};

fn submission() -> SubmissionInput {
    SubmissionInput {
        id: "a".to_owned(),
        session_id: "show".to_owned(),
        text: "text".to_owned(),
        created_at: Timestamp {
            seconds: 0,
            nanoseconds: 0,
        },
        hold_before_reply: true,
        agent_mode: AgentMode::Linear,
    }
}

fn plan() -> AgentPlan {
    AgentPlan {
        category: Category::Testing,
        needs_lookup: true,
        search_key: "testing".to_owned(),
    }
}

#[test]
fn rate_limits_are_simulated_for_two_attempts() {
    for text in ["the API keeps rate-limiting me", "Rate Limit", "ratelimit", "HTTP 429", "TOO MANY REQUESTS"] {
        assert!(simulates_rate_limit(text));
    }
    assert!(!simulates_rate_limit("limit the rates"));
    let failure = injected_failure("429", 2).unwrap();
    assert_eq!(failure.message, "simulated model rate limit (HTTP 429) on attempt 2");
    assert!(failure.retryable);
    assert!(injected_failure("429", 1).is_some());
    assert_eq!(injected_failure("429", 3), None);
    assert_eq!(injected_failure("fine", 1), None);
}

#[test]
fn composing_gets_a_third_attempt() {
    let compose = Activity::Compose(ComposeInput {
        submission: submission(),
        plan: plan(),
        remedy: None,
        findings: Vec::new(),
    });
    let options = compose.options();
    assert_eq!(
        (options.start_to_close, options.schedule_to_close, options.maximum_attempts),
        (20, 75, 3)
    );
    let lookup = Activity::LookupRemedy(LookupInput { plan: plan() }).options();
    assert_eq!(
        (lookup.start_to_close, lookup.schedule_to_close, lookup.maximum_attempts),
        (5, 15, 3)
    );
    let delivery = Activity::Deliver(DeliveryInput {
        submission_id: "a".to_owned(),
    })
    .options();
    assert_eq!(
        (delivery.start_to_close, delivery.schedule_to_close, delivery.maximum_attempts),
        (10, 30, 1)
    );
    let report = Activity::ReportStage(failure_update(&submission())).options();
    assert_eq!(
        (report.start_to_close, report.schedule_to_close, report.maximum_attempts),
        (5, 12, 2)
    );
}

#[test]
fn model_errors_decide_whether_to_retry() {
    let failure = model_error(&ModelError::Retryable("busy".to_owned()));
    assert!(failure.retryable);
    assert_eq!(failure.message, "temporary model failure: busy");
    let failure = model_error(&ModelError::Permanent("no".to_owned()));
    assert!(!failure.retryable);
    assert_eq!(failure.message, "permanent model failure: no");
}

#[test]
fn lookups_and_deliveries_answer_plainly() {
    let activities = ConfessionalActivities::new(
        Backend::Fixture(FixtureBackend),
        "http://stage".to_owned(),
        "t".to_owned(),
    );
    assert_eq!(activities.model_mode(), "fixture");
    assert_eq!(activities.reporter.update_url(), "http://stage/update");
    let input = LookupInput { plan: plan() };
    assert_eq!(activities.lookup_remedy(&input), remedy_for(Category::Testing));
    let receipt = activities.deliver(DeliveryInput {
        submission_id: "a".to_owned(),
    });
    assert_eq!((receipt.submission_id.as_str(), receipt.channel.as_str()), ("a", "stage"));
    let model = OpenAiBackend::new("k".to_owned(), "m".to_owned(), 1);
    let activities =
        ConfessionalActivities::new(Backend::OpenAi(model), String::new(), String::new());
    assert_eq!(activities.model_mode(), "openai");
}

#[test]
fn reports_carry_the_confession_and_the_trace() {
    let update = stage_update(&submission(), SubmissionStatus::Judging, None);
    assert_eq!((update.id.as_str(), update.session_id.as_str()), ("a", "show"));
    assert_eq!(update.status, SubmissionStatus::Judging);
    assert!(update.agent_steps.is_empty());
    let steps = vec![AgentStep::Compose, AgentStep::Finish];
    let update = trace_update(&submission(), SubmissionStatus::Composing, &steps);
    assert_eq!(update.agent_steps, ["Composed a draft", "Finished"]);
    let update = failure_update(&submission());
    assert_eq!(update.status, SubmissionStatus::Failed);
    assert_eq!(
        update.error.as_deref(),
        Some("Agent step failed; inspect the Worker logs for details.")
    );
}

#[test]
fn the_reporter_reads_the_stage_by_its_status() {
    let reporter = StageReporter::new("http://stage/api/internal".to_owned(), "t".to_owned());
    assert_eq!(reporter.update_url(), "http://stage/api/internal/update");
    assert_eq!(reporter.heartbeat_url(), "http://stage/api/internal/worker-heartbeat");
    assert_eq!(reporter.send_update(204), Ok(()));
    assert_eq!(reporter.heartbeat(200), Ok(()));
    assert_eq!(
        reporter.send_update(401),
        Err("stage update returned HTTP 401 Unauthorized".to_owned())
    );
    assert_eq!(
        reporter.heartbeat(503),
        Err("stage heartbeat returned HTTP 503 Service Unavailable".to_owned())
    );
    assert_eq!(
        reporter.heartbeat(999),
        Err("stage heartbeat returned HTTP 999 <unknown status code>".to_owned())
    );
}

#[test]
fn loop_inputs_are_handed_over_as_they_are() {
    let decide = DecideInput {
        text: "x".to_owned(),
        category: Category::Data,
        findings: Vec::new(),
        has_draft: true,
        revised: true,
        iteration: 5,
    };
    let view = decide.loop_view();
    assert_eq!((view.text, view.category, view.iteration), ("x", Category::Data, 5));
    assert!(view.has_draft && view.revised && view.findings.is_empty());
    let skill = SkillInput {
        skill: Skill::DocLookup,
        text: "y".to_owned(),
        category: Category::Other,
        findings: Vec::new(),
        has_draft: false,
        revised: false,
        iteration: 1,
    };
    assert_eq!(skill.loop_view().text, "y");
}
