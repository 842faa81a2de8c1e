use rust_confessional::domain::{
    default_display_confession, AgentMode, AgentStep, AwardScores, Category, Judgment,
    JudgmentError, Skill, StageSubmission, SubmissionInput, SubmissionStatus, Timestamp,
    WorkflowMode,
};

fn valid() -> Judgment {
    Judgment {
        display_confession: "I trusted an undocumented invariant.".to_owned(),
        category: Category::Other,
        judgment: "Questionable.".to_owned(),
        severity: 3,
        severity_reason: String::new(),
        prescription: "Use a type.".to_owned(),
        suggested_tools: vec!["newtypes".to_owned()],
        sentence: "Write a test.".to_owned(),
        penance: "Write a loop that prints foo then bar.".to_owned(),
        penance_line: "foo bar".to_owned(),
        award_scores: AwardScores::default(),
    }
}

#[test]
fn category_uses_stable_wire_names() {
    assert_eq!(
        serde_json::to_string(Category::ErrorHandling.as_str()).unwrap(),
        "\"error_handling\""
    );
}

#[test]
fn every_category_has_its_own_name() {
    let names: Vec<&str> = Category::ALL.iter().map(|category| category.as_str()).collect();
    assert_eq!(
        names,
        vec![
            "concurrency",
            "ownership",
            "error_handling",
            "unsafe",
            "automation",
            "data",
            "testing",
            "other"
        ]
    );
}

#[test]
fn agent_step_labels_are_stable() {
    assert_eq!(
        AgentStep::Lookup {
            skill: Skill::RemedyLookup,
            query: String::new(),
        }
        .label(),
        "Looked up an approved remedy"
    );
    assert_eq!(
        AgentStep::Lookup {
            skill: Skill::DocLookup,
            query: String::new(),
        }
        .label(),
        "Consulted the docs"
    );
    assert_eq!(
        AgentStep::Lookup {
            skill: Skill::SelfCritique,
            query: String::new(),
        }
        .label(),
        "Self-critiqued the draft"
    );
    assert_eq!(AgentStep::Compose.label(), "Composed a draft");
    assert_eq!(
        AgentStep::Revise {
            reason: String::new(),
        }
        .label(),
        "Revised the draft"
    );
    assert_eq!(AgentStep::Finish.label(), "Finished");
}

#[test]
fn judgment_rejects_invalid_severity() {
    let judgment = Judgment {
        display_confession: "I trusted an undocumented invariant.".to_owned(),
        category: Category::Other,
        judgment: "Questionable.".to_owned(),
        severity: 9,
        severity_reason: String::new(),
        prescription: "Use a type.".to_owned(),
        suggested_tools: vec![],
        sentence: "Write a test.".to_owned(),
        penance: "Write a loop that prints foo then bar.".to_owned(),
        penance_line: "foo bar".to_owned(),
        award_scores: AwardScores::default(),
    };
    assert!(judgment.validate().is_err());
}

#[test]
fn a_valid_judgment_passes() {
    assert_eq!(valid().validate(), Ok(()));
    let mut full = valid();
    full.severity = 5;
    full.display_confession = "d".repeat(180);
    full.judgment = "j".repeat(280);
    full.prescription = "p".repeat(280);
    full.sentence = "s".repeat(280);
    full.penance = "p".repeat(280);
    full.penance_line = "l".repeat(48);
    full.suggested_tools = vec!["t".repeat(64); 5];
    full.award_scores = AwardScores {
        most_cursed: 100,
        most_relatable: 100,
        most_needlessly_rewritten: 100,
    };
    assert_eq!(full.validate(), Ok(()));
}

fn fault(change: fn(&mut Judgment)) -> JudgmentError {
    let mut judgment = valid();
    change(&mut judgment);
    judgment.validate().unwrap_err()
}

#[test]
fn each_rule_of_a_judgment_is_enforced() {
    assert_eq!(fault(|j| j.severity = 0), JudgmentError::Severity);
    assert_eq!(fault(|j| j.severity = 6), JudgmentError::Severity);
    assert_eq!(fault(|j| j.award_scores.most_cursed = 101), JudgmentError::MostCursed);
    assert_eq!(fault(|j| j.award_scores.most_relatable = 101), JudgmentError::MostRelatable);
    assert_eq!(
        fault(|j| j.award_scores.most_needlessly_rewritten = 101),
        JudgmentError::MostNeedlesslyRewritten
    );
    assert_eq!(
        fault(|j| j.display_confession = " \n".to_owned()),
        JudgmentError::DisplayConfessionEmpty
    );
    assert_eq!(
        fault(|j| j.display_confession = "é".repeat(181)),
        JudgmentError::DisplayConfessionTooLong
    );
    assert_eq!(fault(|j| j.judgment = String::new()), JudgmentError::JudgmentEmpty);
    assert_eq!(fault(|j| j.judgment = "x".repeat(281)), JudgmentError::JudgmentTooLong);
    assert_eq!(fault(|j| j.prescription = String::new()), JudgmentError::PrescriptionEmpty);
    assert_eq!(fault(|j| j.prescription = "x".repeat(281)), JudgmentError::PrescriptionTooLong);
    assert_eq!(fault(|j| j.sentence = String::new()), JudgmentError::SentenceEmpty);
    assert_eq!(fault(|j| j.sentence = "x".repeat(281)), JudgmentError::SentenceTooLong);
    assert_eq!(fault(|j| j.penance = String::new()), JudgmentError::PenanceEmpty);
    assert_eq!(fault(|j| j.penance = "x".repeat(281)), JudgmentError::PenanceTooLong);
    assert_eq!(fault(|j| j.penance_line = String::new()), JudgmentError::PenanceLineEmpty);
    assert_eq!(fault(|j| j.penance_line = "x".repeat(49)), JudgmentError::PenanceLineTooLong);
    assert_eq!(
        fault(|j| j.penance_line = "foo\nbar".to_owned()),
        JudgmentError::PenanceLineNotSingle
    );
    assert_eq!(
        fault(|j| j.penance_line = "foo\rbar".to_owned()),
        JudgmentError::PenanceLineNotSingle
    );
    assert_eq!(fault(|j| j.suggested_tools = vec![]), JudgmentError::ToolCount);
    assert_eq!(
        fault(|j| j.suggested_tools = vec!["t".to_owned(); 6]),
        JudgmentError::ToolCount
    );
    assert_eq!(
        fault(|j| j.suggested_tools = vec!["t".repeat(65)]),
        JudgmentError::ToolInvalid
    );
    assert_eq!(
        fault(|j| j.suggested_tools = vec![" ".to_owned()]),
        JudgmentError::ToolInvalid
    );
}

#[test]
fn faults_are_worded_after_their_fields() {
    assert_eq!(JudgmentError::Severity.message(), "severity must be between 1 and 5");
    assert_eq!(JudgmentError::PenanceLineTooLong.message(), "penance_line is too long");
    assert_eq!(
        JudgmentError::ToolCount.message(),
        "suggested_tools must contain between one and five items"
    );
}

#[test]
fn a_received_row_holds_back_the_raw_text() {
    let input = SubmissionInput {
        id: "a".to_owned(),
        session_id: "show".to_owned(),
        text: "my secret".to_owned(),
        created_at: Timestamp {
            seconds: 5,
            nanoseconds: 7,
        },
        hold_before_reply: true,
        agent_mode: AgentMode::Autonomous,
    };
    let row = StageSubmission::received(&input, "wf".to_owned());
    assert_eq!(row.text, "Confession received — Ferris is reviewing it…");
    assert_eq!(row.status, SubmissionStatus::Received);
    assert_eq!(row.workflow_id, "wf");
    assert_eq!(row.created_at, input.created_at);
    assert!(row.agent_steps.is_empty());
}

#[test]
fn defaults_are_the_safe_choices() {
    assert_eq!(AgentMode::default(), AgentMode::Linear);
    assert_eq!(WorkflowMode::default(), WorkflowMode::PerConfession);
    assert_eq!(SubmissionStatus::default(), SubmissionStatus::Received);
    assert_eq!(default_display_confession(), "A programming confession.");
}
