use rust_confessional::board::{
    awards_for, temporary_name, temporary_path, InsertError, StoredStageState,
};
use rust_confessional::config::{StageConfig, TemporalConfig, TwilioInboundConfig};
use rust_confessional::domain::{
    AgentMode, AwardScores, Category, Judgment, StageSubmission, StageUpdate, SubmissionInput,
    SubmissionStatus, Timestamp, WorkflowMode,
};
use rust_confessional::stage::{
    add_request_id, empty_twiml, optional_idempotency_key, required_form_field, seed_confessions,
    validate_submission_id, Admission, ApiError, DispatchOutcome, HoldResponse, ReleaseOutcome,
    ReleasePlan, StageApp,
};
use rust_confessional::twilio::{parse_form_body, twilio_signature};

const NOW: Timestamp = Timestamp {
    seconds: 1_700_000_000,
    nanoseconds: 5,
};

fn config() -> StageConfig {
    StageConfig {
        bind_address: "127.0.0.1:0".to_owned(),
        data_path: "data/stage.json".to_owned(),
        static_dir: "static".to_owned(),
        internal_token: "internal".to_owned(),
        max_confession_chars: 500,
        max_submissions_per_session: 20,
        show_raw_confessions: false,
        twilio: None,
        twilio_poll: None,
        temporal: TemporalConfig {
            task_queue: "test".to_owned(),
        },
        mask_words: Vec::new(),
    }
}

fn stage() -> StageApp {
    StageApp::new(config(), StoredStageState::fresh("show".to_owned()))
}

fn input(id: &str) -> SubmissionInput {
    SubmissionInput {
        id: id.to_owned(),
        session_id: "show".to_owned(),
        text: "one".to_owned(),
        created_at: NOW,
        hold_before_reply: true,
        agent_mode: AgentMode::default(),
    }
}

fn judgment() -> Judgment {
    Judgment {
        display_confession: "A paraphrase.".to_owned(),
        category: Category::Data,
        judgment: "Hm.".to_owned(),
        severity: 4,
        severity_reason: "schema drift".to_owned(),
        prescription: "Parse once.".to_owned(),
        suggested_tools: vec!["serde".to_owned(), "newtypes".to_owned()],
        sentence: "Write a test.".to_owned(),
        penance: "Write a loop.".to_owned(),
        penance_line: "foo bar".to_owned(),
        award_scores: AwardScores {
            most_cursed: 72,
            most_relatable: 68,
            most_needlessly_rewritten: 44,
        },
    }
}

fn report(id: &str, status: SubmissionStatus, judgment: Option<Judgment>) -> StageUpdate {
    StageUpdate {
        id: id.to_owned(),
        session_id: "show".to_owned(),
        status,
        judgment,
        error: None,
        agent_steps: Vec::new(),
    }
}

#[test]
fn awards_choose_highest_scored_submission() {
    let mut first = StageSubmission::received(&input("first"), "wf-first".to_owned());
    first.status = SubmissionStatus::Sent;
    first.category = Some(Category::Other);
    first.award_scores = Some(AwardScores {
        most_cursed: 90,
        most_relatable: 20,
        most_needlessly_rewritten: 10,
    });
    let mut second = first.clone();
    second.id = "second".to_owned();
    second.award_scores.as_mut().unwrap().most_cursed = 10;
    let awards = awards_for(&[first, second]);
    assert_eq!(awards.most_cursed.as_deref(), Some("first"));
}

#[test]
fn awards_go_to_the_last_of_equals_and_only_to_sent_rows() {
    let row = |id: &str, status: SubmissionStatus, score: Option<u8>| {
        let mut row = StageSubmission::received(&input(id), "wf".to_owned());
        row.status = status;
        row.award_scores = score.map(|most_cursed| AwardScores {
            most_cursed,
            most_relatable: 0,
            most_needlessly_rewritten: 0,
        });
        row
    };
    let rows = [
        row("a", SubmissionStatus::Sent, Some(50)),
        row("b", SubmissionStatus::Sent, Some(50)),
        row("c", SubmissionStatus::Sending, Some(99)),
        row("d", SubmissionStatus::Sent, None),
        row("e", SubmissionStatus::Sent, Some(10)),
    ];
    let awards = awards_for(&rows);
    assert_eq!(awards.most_cursed.as_deref(), Some("b"));
    assert_eq!(awards.most_relatable.as_deref(), Some("e"));
    assert_eq!(awards_for(&rows[2..4]).most_cursed, None);
}

#[test]
fn insertion_is_idempotent_and_capacity_is_atomic() {
    let mut store = StoredStageState::default();
    let first = StageSubmission::received(&input("same-id"), "wf-first".to_owned());
    let (stored, inserted) = store.insert_if_absent(first.clone(), 1).unwrap();
    assert!(inserted);
    assert_eq!(stored.id, first.id);

    let (stored, inserted) = store.insert_if_absent(first, 1).unwrap();
    assert!(!inserted);
    assert_eq!(stored.id, "same-id");

    let other = StageSubmission::received(&input("other-id"), "wf-other".to_owned());
    assert_eq!(store.insert_if_absent(other, 1), Err(InsertError::AtCapacity));
    assert_eq!(store.submissions.len(), 1);
}

#[test]
fn submission_ids_preserve_case_and_reject_unsafe_characters() {
    validate_submission_id("twilio-SMabc123").unwrap();
    assert!(validate_submission_id("ABC").is_ok());
    assert!(validate_submission_id("abc").is_ok());
    assert!(validate_submission_id("contains/slash").is_err());
    assert!(validate_submission_id("").is_err());
}

#[test]
fn submission_ids_enforce_the_length_and_charset_boundary() {
    validate_submission_id("web-01ABC_def").unwrap();
    validate_submission_id(&"a".repeat(128)).unwrap();
    assert!(validate_submission_id(&"a".repeat(129)).is_err());
    assert!(validate_submission_id("has space").is_err());
    assert!(validate_submission_id("emoji-\u{1f600}").is_err());
}

fn with_twilio(public_url: &str, auth_token: &str) -> StageApp {
    let mut config = config();
    config.twilio = Some(TwilioInboundConfig {
        account_sid: "AC123".to_owned(),
        auth_token: auth_token.to_owned(),
        webhook_url: public_url.to_owned(),
    });
    StageApp::new(config, StoredStageState::default())
}

#[test]
fn signed_twilio_compliance_message_is_acknowledged_without_submission() {
    let public_url = "https://demo.example/webhooks/twilio/messages";
    let auth_token = "test-token";
    let body = "AccountSid=AC123&MessageSid=SM123&From=%2B14155550100&To=%2B18005550100&Body=STOP";
    let fields = parse_form_body(body.as_bytes());
    let signature = twilio_signature(auth_token, public_url, &fields);
    let app = with_twilio(public_url, auth_token);
    let taken = app
        .twilio_message(
            Some("application/x-www-form-urlencoded"),
            Some(&signature),
            body.as_bytes(),
        )
        .unwrap();
    assert!(taken.is_none());
    assert!(app.store.submissions.is_empty());
    assert_eq!(empty_twiml(), "<Response></Response>");
}

#[test]
fn webhook_requests_are_checked_in_order() {
    let url = "https://demo.example/hook";
    let app = with_twilio(url, "tok");
    let form = "application/x-www-form-urlencoded; charset=UTF-8";
    let sign = |body: &str| twilio_signature("tok", url, &parse_form_body(body.as_bytes()));
    let full = "AccountSid=AC123&MessageSid=SM1&From=a&To=b&Body=I+clone";
    let send = |body: &str| app.twilio_message(Some(form), Some(&sign(body)), body.as_bytes());
    let error = |result: Result<Option<(String, String)>, ApiError>| {
        let error = result.unwrap_err();
        (error.status, error.message)
    };

    assert_eq!(
        send(full).unwrap(),
        Some(("I clone".to_owned(), "twilio-SM1".to_owned()))
    );
    assert_eq!(
        error(stage().twilio_message(Some(form), Some(&sign(full)), full.as_bytes())),
        (404, "Twilio ingress is not configured".to_owned())
    );
    assert_eq!(
        error(app.twilio_message(None, Some(&sign(full)), full.as_bytes())),
        (400, "expected application/x-www-form-urlencoded".to_owned())
    );
    assert_eq!(
        error(app.twilio_message(Some("application/json"), Some(&sign(full)), full.as_bytes())),
        (400, "expected application/x-www-form-urlencoded".to_owned())
    );
    for signature in [None, Some("AAAA"), Some("not base64")] {
        assert_eq!(
            error(app.twilio_message(Some(form), signature, full.as_bytes())),
            (403, "invalid Twilio signature".to_owned())
        );
    }
    for (missing, body) in [
        ("AccountSid", "MessageSid=SM1&From=a&To=b&Body=x"),
        ("MessageSid", "AccountSid=AC123&From=a&To=b&Body=x"),
        ("Body", "AccountSid=AC123&MessageSid=SM1&From=a&To=b&Body="),
        ("From", "AccountSid=AC123&MessageSid=SM1&To=b&Body=x"),
        ("To", "AccountSid=AC123&MessageSid=SM1&From=a&Body=x"),
    ] {
        assert_eq!(
            error(send(body)),
            (400, format!("missing Twilio field {missing}"))
        );
    }
    assert_eq!(
        error(send("AccountSid=AC999&MessageSid=SM1&From=a&To=b&Body=x")),
        (403, "unexpected Twilio account".to_owned())
    );
    assert!(required_form_field(&parse_form_body(b"a="), "a").is_err());
}

#[test]
fn phone_numbers_make_no_difference() {
    let url = "https://demo.example/hook";
    let app = with_twilio(url, "tok");
    let form = Some("application/x-www-form-urlencoded");
    let taken = |from: &str, to: &str| {
        let body = format!("AccountSid=AC123&MessageSid=SM1&From={from}&To={to}&Body=oops");
        let signature = twilio_signature("tok", url, &parse_form_body(body.as_bytes()));
        app.twilio_message(form, Some(&signature), body.as_bytes()).unwrap()
    };
    assert_eq!(taken("%2B1", "%2B2"), taken("%2B3", "%2B4"));
}

fn dispatch(taken: Admission) -> (StageSubmission, SubmissionInput, bool, WorkflowMode) {
    match taken {
        Admission::Dispatch {
            staged,
            input,
            inserted,
            mode,
        } => (staged, input, inserted, mode),
        Admission::Settled(_) => panic!("the confession was settled"),
    }
}

fn refused(result: Result<Admission, ApiError>) -> (u16, String) {
    let error = result.unwrap_err();
    (error.status, error.message)
}

#[test]
fn a_confession_is_taken_with_a_placeholder_row() {
    let mut app = stage();
    let taken = app.submit_text("  I used  unsafe. ", None, NOW).unwrap();
    let (staged, input, inserted, mode) = dispatch(taken);
    assert!(inserted);
    assert_eq!(mode, WorkflowMode::PerConfession);
    assert_eq!(staged.id.len(), 26);
    validate_submission_id(&staged.id).unwrap();
    assert_eq!(staged.workflow_id, format!("rust-confession-{}", staged.id));
    assert_eq!(staged.text, "Confession received — Ferris is reviewing it…");
    assert_eq!(input.text, "I used  unsafe.");
    assert_eq!(input.session_id, "show");
    assert_eq!(input.created_at, NOW);
    assert!(input.hold_before_reply);
    assert_eq!(input.agent_mode, AgentMode::Autonomous);
    assert_eq!(app.store.submissions, vec![staged]);
}

#[test]
fn raw_display_is_sanitized_and_masked() {
    let mut config = config();
    config.show_raw_confessions = true;
    config.mask_words = vec!["bob".to_owned()];
    let mut app = StageApp::new(config, StoredStageState::fresh("show".to_owned()));
    app.store.set_mode(WorkflowMode::Session);
    let taken = app
        .submit_text("blame\u{7} Bob  and bobby", Some("web-1".to_owned()), NOW)
        .unwrap();
    let (staged, input, _, mode) = dispatch(taken);
    assert_eq!(staged.text, "blame *** and bobby");
    assert_eq!(staged.workflow_id, "rust-confession-session-show");
    assert_eq!(input.text, "blame\u{7} Bob  and bobby");
    assert_eq!(mode, WorkflowMode::Session);
}

#[test]
fn bad_confessions_are_refused_without_a_trace() {
    let mut app = stage();
    assert_eq!(
        refused(app.submit_text(" \n", None, NOW)),
        (400, "confession cannot be empty".to_owned())
    );
    assert_eq!(
        refused(app.submit_text(&"é".repeat(501), None, NOW)),
        (400, "confession is 501 characters; maximum is 500".to_owned())
    );
    assert_eq!(
        refused(app.submit_text("\u{0}\u{7f}", None, NOW)),
        (400, "confession must contain visible text".to_owned())
    );
    assert_eq!(
        refused(app.submit_text("fine", Some("no/slash".to_owned()), NOW)),
        (
            400,
            "submission identity must be 1-128 ASCII letters, digits, '-' or '_'".to_owned()
        )
    );
    assert!(app.store.submissions.is_empty());
    app.config.max_submissions_per_session = 0;
    assert_eq!(
        refused(app.submit_text("fine", None, NOW)),
        (429, "this session has reached its limit of 0 confessions".to_owned())
    );
    assert!(app.store.submissions.is_empty());
}

#[test]
fn retries_find_the_first_row() {
    let mut app = stage();
    let id = || Some("web-1".to_owned());
    app.submit_text("first", id(), NOW).unwrap();
    let later = Timestamp {
        seconds: NOW.seconds + 60,
        nanoseconds: 0,
    };
    let (_, input, inserted, _) = dispatch(app.submit_text("second", id(), later).unwrap());
    assert!(!inserted);
    assert_eq!(input.created_at, NOW);
    assert_eq!(input.text, "second");

    app.store.submissions[0].status = SubmissionStatus::Composing;
    assert!(matches!(
        app.submit_text("third", id(), later).unwrap(),
        Admission::Settled(row) if row.status == SubmissionStatus::Composing
    ));
    assert_eq!(app.store.submissions.len(), 1);
}

#[test]
fn dispatches_that_fail_mark_the_row_and_can_be_retried() {
    let mut app = stage();
    let id = || Some("web-1".to_owned());
    let (staged, ..) = dispatch(app.submit_text("x", id(), NOW).unwrap());
    app.temporal_connected = true;
    let error = app
        .finish_dispatch(staged.clone(), DispatchOutcome::NotConnected("dns".to_owned()))
        .unwrap_err();
    assert_eq!((error.status, error.message.as_str()), (503, "Temporal is not connected yet"));
    assert!(app.temporal_connected);
    assert_eq!(app.store.submissions[0].status, SubmissionStatus::Failed);
    assert_eq!(app.store.submissions[0].error.as_deref(), Some("dns"));

    let (staged, _, inserted, _) = dispatch(app.submit_text("x", id(), NOW).unwrap());
    assert!(!inserted);
    let error = app
        .finish_dispatch(staged.clone(), DispatchOutcome::Rejected("full".to_owned()))
        .unwrap_err();
    assert_eq!(error.status, 503);
    assert_eq!(error.message, "Temporal did not accept the confession: full");
    assert!(!app.temporal_connected);

    let row = app.finish_dispatch(staged, DispatchOutcome::Accepted).unwrap();
    assert_eq!(row.id, "web-1");
    assert!(app.temporal_connected);
}

#[test]
fn examples_are_taken_in_order() {
    let mut app = stage();
    for (text, id) in seed_confessions() {
        dispatch(app.submit_text(&text, Some(id), NOW).unwrap());
    }
    let ids: Vec<&str> = app.store.submissions.iter().map(|row| row.id.as_str()).collect();
    assert_eq!(ids, ["seed-0", "seed-1", "seed-2"]);
    assert_eq!(add_request_id("seed-0"), "add-seed-0");
}

#[test]
fn reports_fill_a_row_in() {
    let mut app = stage();
    app.submit_text("x", Some("a".to_owned()), NOW).unwrap();
    app.submit_text("y", Some("b".to_owned()), NOW).unwrap();
    let before = app.store.submissions[1].clone();

    let mut update = report("a", SubmissionStatus::Researching, None);
    update.agent_steps = vec!["Consulted the docs".to_owned()];
    assert_eq!(app.internal_update(Some("Bearer internal"), update), Ok(true));
    let update = report("a", SubmissionStatus::ReplyPending, Some(judgment()));
    assert_eq!(app.internal_update(Some("Bearer internal"), update), Ok(true));

    let row = &app.store.submissions[0];
    assert_eq!(row.status, SubmissionStatus::ReplyPending);
    assert_eq!(row.agent_steps, ["Consulted the docs"]);
    assert_eq!(row.text, "A paraphrase.");
    assert_eq!(row.severity.as_deref(), Some("Ferris Level 4/5 — schema drift"));
    assert_eq!(
        row.prescription.as_deref(),
        Some("Parse once. Suggested tools: serde, newtypes.")
    );
    assert_eq!(row.sentence.as_deref(), Some("Write a test."));
    assert_eq!(row.penance_reps, Some(4));
    assert_eq!(row.category, Some(Category::Data));
    assert_eq!(app.store.submissions[1], before);

    let mut plain = judgment();
    plain.severity_reason = " ".to_owned();
    let update = report("a", SubmissionStatus::ReplyPending, Some(plain));
    app.internal_update(Some("Bearer internal"), update).unwrap();
    assert_eq!(app.store.submissions[0].severity.as_deref(), Some("Ferris Level 4/5"));

    let update = report("a", SubmissionStatus::Sent, None);
    app.internal_update(Some("Bearer internal"), update).unwrap();
    assert_eq!(app.store.submissions[0].judgment.as_deref(), Some("Hm."));
    assert_eq!(app.get_state(None).awards.most_cursed.as_deref(), Some("a"));
}

#[test]
fn reports_need_the_token_the_session_and_the_row() {
    let mut app = stage();
    app.submit_text("x", Some("a".to_owned()), NOW).unwrap();
    let before = app.store.submissions[0].clone();
    for supplied in [None, Some("internal"), Some("Bearer other"), Some("bearer internal")] {
        let update = report("a", SubmissionStatus::Sent, None);
        let error = app.internal_update(supplied, update).unwrap_err();
        assert_eq!((error.status, error.message.as_str()), (401, "unauthorized"));
        assert!(app.worker_heartbeat(supplied, "fixture".to_owned()).is_err());
    }
    let mut foreign = report("a", SubmissionStatus::Sent, None);
    foreign.session_id = "old".to_owned();
    assert_eq!(app.internal_update(Some("Bearer internal"), foreign), Ok(false));
    let unknown = report("zz", SubmissionStatus::Sent, None);
    assert_eq!(app.internal_update(Some("Bearer internal"), unknown), Ok(true));
    assert_eq!(app.store.submissions, vec![before]);
}

#[test]
fn raw_display_keeps_its_text_through_reports() {
    let mut app = stage();
    app.config.show_raw_confessions = true;
    app.submit_text("my words", Some("a".to_owned()), NOW).unwrap();
    let update = report("a", SubmissionStatus::ReplyPending, Some(judgment()));
    app.internal_update(Some("Bearer internal"), update).unwrap();
    assert_eq!(app.store.submissions[0].text, "my words");
}

#[test]
fn the_worker_is_online_for_three_seconds() {
    let mut app = stage();
    app.worker_heartbeat(Some("Bearer internal"), "fixture".to_owned()).unwrap();
    assert_eq!(app.get_state(Some(2999)).model_mode, "fixture");
    assert!(app.get_state(Some(2999)).worker_online);
    assert!(!app.get_state(Some(3000)).worker_online);
    assert!(!app.get_state(None).worker_online);
    assert!(app.get_state(None).held);
}

#[test]
fn releases_go_to_each_unfinished_workflow() {
    let mut app = stage();
    assert_eq!(app.plan_release(), ReleasePlan::Nothing);
    for id in ["a", "b", "c"] {
        app.submit_text("x", Some(id.to_owned()), NOW).unwrap();
    }
    app.store.submissions[1].status = SubmissionStatus::Sent;
    let plan = app.plan_release();
    match &plan {
        ReleasePlan::Each(signals) => {
            assert_eq!(signals.len(), 2);
            assert_eq!(signals[0].workflow_id, "rust-confession-a");
            assert_eq!(signals[1].request_id, "release-c");
        }
        _ => panic!("each confession has its own Workflow"),
    }
    let signalled = |signals: &[bool]| ReleaseOutcome::Signalled(signals.to_vec());
    assert_eq!(app.release_current(&plan, signalled(&[true, true])), Ok(2));
    assert!(app.temporal_connected);
    let error = app.release_current(&plan, signalled(&[false, true])).unwrap_err();
    assert_eq!(error.status, 503);
    assert_eq!(
        error.message,
        "released 1 confessions, but 1 release signals failed; retry the control"
    );
    assert!(!app.temporal_connected);
    let error = app.release_current(&plan, ReleaseOutcome::NotConnected).unwrap_err();
    assert_eq!(error.message, "Temporal is not connected yet");
}

#[test]
fn one_signal_releases_a_session() {
    let mut app = stage();
    app.store.set_mode(WorkflowMode::Session);
    app.submit_text("x", Some("a".to_owned()), NOW).unwrap();
    app.submit_text("x", Some("b".to_owned()), NOW).unwrap();
    let plan = app.plan_release();
    match &plan {
        ReleasePlan::Session { signal, waiting } => {
            assert_eq!(signal.workflow_id, "rust-confession-session-show");
            assert_eq!(signal.request_id, "release-show");
            assert_eq!(*waiting, 2);
        }
        _ => panic!("a session has one Workflow"),
    }
    let signalled = |signals: &[bool]| ReleaseOutcome::Signalled(signals.to_vec());
    assert_eq!(app.release_current(&plan, signalled(&[true])), Ok(2));
    let error = app.release_current(&plan, signalled(&[false])).unwrap_err();
    assert_eq!(error.message, "release signal failed; retry the control");
    assert!(!app.temporal_connected);
}

#[test]
fn a_failed_release_puts_the_hold_back() {
    let mut app = stage();
    app.begin_hold(false);
    assert_eq!(
        app.set_hold(false, Ok(3)),
        Ok(HoldResponse {
            held: false,
            released: 3
        })
    );
    assert!(!app.store.held);
    let failed = ApiError::unavailable("release signal failed; retry the control".to_owned());
    assert!(app.set_hold(false, Err(failed)).is_err());
    assert!(app.store.held);
    app.set_hold(false, Ok(0)).unwrap();
    assert!(!app.store.held);
    assert_eq!(
        app.set_hold(true, Ok(0)),
        Ok(HoldResponse {
            held: true,
            released: 0
        })
    );
    assert!(app.store.held);
}

#[test]
fn resetting_waits_for_the_session_to_drain() {
    let mut app = stage();
    app.submit_text("x", Some("a".to_owned()), NOW).unwrap();
    let before = app.store.submissions.clone();
    assert!(!app.drained());
    assert_eq!(app.wait_until_terminal(false), None);
    assert_eq!(app.wait_until_terminal(true), Some(false));

    // While a confession is unfinished the session stays as it is.
    assert_eq!(app.reset_demo(Ok(1), false), None);
    let error = app.reset_demo(Ok(1), true).unwrap().unwrap_err();
    assert_eq!(
        (error.status, error.message.as_str()),
        (409, "unfinished confessions are still draining; wait and reset again")
    );
    let failed = ApiError::unavailable("release signal failed; retry the control".to_owned());
    let error = app.reset_demo(Err(failed), false).unwrap().unwrap_err();
    assert_eq!(error.status, 503);
    assert_eq!(app.store.submissions, before);
    assert_eq!(app.store.session_id, "show");

    app.store.submissions[0].status = SubmissionStatus::Failed;
    let failed = ApiError::unavailable("Temporal is not connected yet".to_owned());
    assert!(app.reset_demo(Err(failed), true).unwrap().is_err());
    assert_eq!(app.store.submissions.len(), 1);
    assert_eq!(app.wait_until_terminal(true), Some(true));
    app.begin_hold(false);
    assert_eq!(app.reset_demo(Ok(0), true), Some(Ok(())));
    assert!(app.store.submissions.is_empty());
    assert_ne!(app.store.session_id, "show");
    assert!(app.store.held);
}

#[test]
fn switching_modes_drains_and_clears_the_board() {
    let mut app = stage();
    app.submit_text("x", Some("a".to_owned()), NOW).unwrap();
    app.set_agent_mode(AgentMode::Linear);
    assert_eq!(app.store.agent_mode, AgentMode::Linear);
    assert!(app.changes_mode(WorkflowMode::Session));
    assert!(matches!(app.plan_switch(WorkflowMode::Session), ReleasePlan::Each(_)));

    assert_eq!(app.set_workflow_mode(WorkflowMode::Session, Ok(1), false), None);
    let error = app
        .set_workflow_mode(WorkflowMode::Session, Ok(1), true)
        .unwrap()
        .unwrap_err();
    assert_eq!(
        (error.status, error.message.as_str()),
        (409, "unfinished confessions are still draining; wait and switch again")
    );
    let failed = ApiError::unavailable("Temporal is not connected yet".to_owned());
    let answer = app.set_workflow_mode(WorkflowMode::Session, Err(failed), false);
    assert_eq!(answer.unwrap().unwrap_err().status, 503);
    assert_eq!(app.store.workflow_mode, WorkflowMode::PerConfession);
    assert_eq!(app.store.session_id, "show");

    app.store.submissions[0].status = SubmissionStatus::Sent;
    assert_eq!(app.set_workflow_mode(WorkflowMode::Session, Ok(0), false), Some(Ok(())));
    assert_eq!(app.store.workflow_mode, WorkflowMode::Session);
    assert_eq!(app.store.agent_mode, AgentMode::Autonomous);
    assert!(app.store.submissions.is_empty());
    assert_ne!(app.store.session_id, "show");
    assert_eq!(app.reset_demo(Ok(0), false), Some(Ok(())));
    assert_eq!(app.store.workflow_mode, WorkflowMode::PerConfession);
}

#[test]
fn the_mode_that_is_set_changes_nothing() {
    let mut app = stage();
    app.submit_text("x", Some("a".to_owned()), NOW).unwrap();
    app.begin_hold(false);
    let before = app.store.submissions.clone();
    let mode = WorkflowMode::PerConfession;
    assert!(!app.changes_mode(mode));
    assert_eq!(app.plan_switch(mode), ReleasePlan::Nothing);
    for passed in [false, true] {
        assert_eq!(app.set_workflow_mode(mode, Ok(0), passed), Some(Ok(())));
        let failed = ApiError::unavailable("Temporal is not connected yet".to_owned());
        assert_eq!(app.set_workflow_mode(mode, Err(failed), passed), Some(Ok(())));
    }
    assert_eq!(app.store.submissions, before);
    assert_eq!(app.store.session_id, "show");
    assert!(!app.store.held);
}

#[test]
fn browser_keys_become_identities() {
    assert_eq!(optional_idempotency_key(None), Ok(None));
    assert_eq!(
        optional_idempotency_key(Some(Some("k1".to_owned()))),
        Ok(Some("web-k1".to_owned()))
    );
    let error = optional_idempotency_key(Some(None)).unwrap_err();
    assert_eq!(error.message, "Idempotency-Key must be valid ASCII");
}

#[test]
fn refusals_carry_their_status() {
    let text = || "m".to_owned();
    assert_eq!(ApiError::bad_request(text()).status, 400);
    assert_eq!(ApiError::unauthorized().status, 401);
    assert_eq!(ApiError::forbidden(text()).status, 403);
    assert_eq!(ApiError::not_found(text()).status, 404);
    assert_eq!(ApiError::conflict(text()).status, 409);
    assert_eq!(ApiError::too_many_requests(text()).status, 429);
    assert_eq!(ApiError::internal().status, 500);
    assert_eq!(ApiError::internal().message, "internal stage error");
    assert_eq!(ApiError::unavailable(text()).status, 503);
}

#[test]
fn fresh_identifiers_are_ulids() {
    let alphabet = "0123456789ABCDEFGHJKMNPQRSTVWXYZ";
    for _ in 0..50 {
        let state = StoredStageState::default();
        assert_eq!(state.session_id.chars().count(), 26);
        assert!(state.session_id.chars().all(|c| alphabet.contains(c)));
    }
    assert_ne!(
        StoredStageState::default().session_id,
        StoredStageState::default().session_id
    );
    let path = temporary_path("data/stage.json");
    assert!(path.starts_with("data/stage.json."));
    assert!(path.ends_with(".tmp"));
    assert_eq!(path.len(), "data/stage.json".len() + 1 + 26 + 4);
    assert_eq!(temporary_name("p", "m"), "p.m.tmp");
}
