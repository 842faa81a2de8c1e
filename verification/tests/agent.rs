use rust_confessional::agent::{
    default_finding, default_next_step, remedy_for, sanitize_stage_text, AgentLoopView, ModelError,
};
use rust_confessional::domain::{
    AgentMode, AgentStep, Category, Finding, Judgment, Remedy, Skill, SubmissionInput, Timestamp,
};
use rust_confessional::fixture::{classify, fixture_display_confession, FixtureBackend};
use rust_confessional::phases::first_remedy;

fn submission(text: &str) -> SubmissionInput {
    SubmissionInput {
        id: "01TEST".to_owned(),
        session_id: "session".to_owned(),
        text: text.to_owned(),
        created_at: Timestamp {
            seconds: 1_700_000_000,
            nanoseconds: 0,
        },
        hold_before_reply: true,
        agent_mode: AgentMode::default(),
    }
}

#[test]
fn fixture_uses_the_same_structured_contract() {
    let backend = FixtureBackend;
    let input = submission("I fixed the race condition with a sleep.");
    let plan = backend.plan(&input).unwrap();
    assert_eq!(plan.category, Category::Concurrency);
    let judgment = backend
        .compose(&input, &plan, Some(&remedy_for(plan.category)), &[])
        .unwrap();
    judgment.validate().unwrap();
    assert_eq!(judgment.judgment, "Concurrency by astrology.");
}

#[test]
fn revise_with_findings_changes_the_draft() {
    let backend = FixtureBackend;
    let input = submission("I used unsafe because I was tired.");
    let plan = backend.plan(&input).unwrap();

    let first = backend.compose(&input, &plan, None, &[]).unwrap();
    first.validate().unwrap();

    let critique = Finding {
        skill: Skill::SelfCritique,
        summary: "Self-critique: name the invariant before shipping.".to_owned(),
        detail: String::new(),
    };
    let revised = backend
        .compose(&input, &plan, None, std::slice::from_ref(&critique))
        .unwrap();
    revised.validate().unwrap();

    assert!(
        first.severity != revised.severity || first.severity_reason != revised.severity_reason,
        "a revise should change severity or its reason: {}/{:?} -> {}/{:?}",
        first.severity,
        first.severity_reason,
        revised.severity,
        revised.severity_reason,
    );
    assert_ne!(first, revised);
}

#[test]
fn autonomous_loop_terminates_with_a_valid_judgment() {
    const MAX_AGENT_STEPS: u8 = 6;
    let backend = FixtureBackend;
    let input = submission("I used unsafe because I was tired.");
    let plan = backend.plan(&input).unwrap();

    let mut findings: Vec<Finding> = Vec::new();
    let mut draft: Option<Judgment> = None;
    let mut revised = false;
    let mut steps_taken = 0u8;
    let mut finished = false;

    for iteration in 0..MAX_AGENT_STEPS {
        steps_taken = iteration + 1;
        let step = {
            let view = AgentLoopView {
                text: &input.text,
                category: plan.category,
                findings: &findings,
                has_draft: draft.is_some(),
                revised,
                iteration,
            };
            backend.decide_next_step(&view).unwrap()
        };
        if matches!(step, AgentStep::Revise { .. }) {
            revised = true;
        }

        match step {
            AgentStep::Lookup { skill, .. } => {
                let finding = {
                    let view = AgentLoopView {
                        text: &input.text,
                        category: plan.category,
                        findings: &findings,
                        has_draft: draft.is_some(),
                        revised,
                        iteration,
                    };
                    backend.run_skill(skill, &view).unwrap()
                };
                findings.push(finding);
            }
            AgentStep::Compose | AgentStep::Revise { .. } => {
                let remedy = findings
                    .iter()
                    .find(|finding| finding.skill == Skill::RemedyLookup)
                    .map(|finding| Remedy {
                        category: plan.category,
                        guidance: finding.summary.clone(),
                        suggested_tools: finding
                            .detail
                            .split(", ")
                            .map(ToOwned::to_owned)
                            .collect(),
                    });
                draft = Some(
                    backend
                        .compose(&input, &plan, remedy.as_ref(), &findings)
                        .unwrap(),
                );
            }
            AgentStep::Finish => {
                finished = true;
                break;
            }
        }
    }

    assert!(finished, "loop must reach Finish within the cap");
    assert!(steps_taken <= MAX_AGENT_STEPS, "loop must respect the cap");
    let judgment = draft.expect("loop must produce a draft judgment");
    judgment.validate().unwrap();
}

#[test]
fn aggregate_autonomous_loop_terminates_within_the_session_cap() {
    const MAX_SESSION_AGENT_STEPS: u8 = 4;
    let backend = FixtureBackend;
    let input = submission("Our production database is a CSV file.");
    let plan = backend.plan(&input).unwrap();

    let mut findings: Vec<Finding> = Vec::new();
    let mut draft: Option<Judgment> = None;
    let mut revised = false;
    let mut steps_taken = 0u8;

    for iteration in 0..MAX_SESSION_AGENT_STEPS {
        steps_taken = iteration + 1;
        let step = {
            let view = AgentLoopView {
                text: &input.text,
                category: plan.category,
                findings: &findings,
                has_draft: draft.is_some(),
                revised,
                iteration,
            };
            backend.decide_next_step(&view).unwrap()
        };
        if matches!(step, AgentStep::Revise { .. }) {
            revised = true;
        }

        match step {
            AgentStep::Lookup { skill, .. } => {
                let finding = {
                    let view = AgentLoopView {
                        text: &input.text,
                        category: plan.category,
                        findings: &findings,
                        has_draft: draft.is_some(),
                        revised,
                        iteration,
                    };
                    backend.run_skill(skill, &view).unwrap()
                };
                findings.push(finding);
            }
            AgentStep::Compose | AgentStep::Revise { .. } => {
                let remedy = findings
                    .iter()
                    .find(|finding| finding.skill == Skill::RemedyLookup)
                    .map(|finding| Remedy {
                        category: plan.category,
                        guidance: finding.summary.clone(),
                        suggested_tools: finding
                            .detail
                            .split(", ")
                            .map(ToOwned::to_owned)
                            .collect(),
                    });
                draft = Some(
                    backend
                        .compose(&input, &plan, remedy.as_ref(), &findings)
                        .unwrap(),
                );
            }
            AgentStep::Finish => break,
        }
    }

    assert!(
        steps_taken <= MAX_SESSION_AGENT_STEPS,
        "loop must respect the tighter aggregate cap"
    );
    let judgment = draft.expect("loop must produce a draft judgment");
    judgment.validate().unwrap();
}

/// Drives the fixture's decide/act loop for one confession and returns the exact
/// sequence of steps it chose, tracking only the flags `decide_next_step` reads.
fn fixture_step_trace(text: &str) -> Vec<AgentStep> {
    let backend = FixtureBackend;
    let input = submission(text);
    let plan = backend.plan(&input).unwrap();
    let mut findings: Vec<Finding> = Vec::new();
    let mut has_draft = false;
    let mut revised = false;
    let mut trace: Vec<AgentStep> = Vec::new();

    for iteration in 0..8 {
        let step = {
            let view = AgentLoopView {
                text: &input.text,
                category: plan.category,
                findings: &findings,
                has_draft,
                revised,
                iteration,
            };
            backend.decide_next_step(&view).unwrap()
        };
        trace.push(step.clone());
        match step {
            AgentStep::Lookup { skill, .. } => {
                let view = AgentLoopView {
                    text: &input.text,
                    category: plan.category,
                    findings: &findings,
                    has_draft,
                    revised,
                    iteration,
                };
                let finding = backend.run_skill(skill, &view).unwrap();
                findings.push(finding);
            }
            AgentStep::Compose => has_draft = true,
            AgentStep::Revise { .. } => {
                has_draft = true;
                revised = true;
            }
            AgentStep::Finish => break,
        }
    }
    trace
}

#[test]
fn decide_next_step_is_content_aware_deep_versus_shallow() {
    let deep = fixture_step_trace("I used unsafe because I was tired.");
    let shallow = fixture_step_trace("I wrote a Python script that now runs the company.");

    assert_ne!(deep, shallow, "different categories must trace differently");
    assert!(
        deep.len() > shallow.len(),
        "the deep category must take more steps: deep={deep:?} shallow={shallow:?}"
    );

    // The deep trace consults the docs and revises; the shallow one does neither.
    assert!(
        deep.iter().any(|step| matches!(
            step,
            AgentStep::Lookup {
                skill: Skill::DocLookup,
                ..
            }
        )),
        "deep trace should consult the docs: {deep:?}"
    );
    assert!(
        deep.iter()
            .any(|step| matches!(step, AgentStep::Revise { .. })),
        "deep trace should revise: {deep:?}"
    );
    assert!(
        !shallow.iter().any(|step| matches!(
            step,
            AgentStep::Lookup {
                skill: Skill::DocLookup,
                ..
            }
        )),
        "shallow trace should not consult the docs: {shallow:?}"
    );
    assert!(
        !shallow
            .iter()
            .any(|step| matches!(step, AgentStep::Revise { .. })),
        "shallow trace should not revise: {shallow:?}"
    );

    assert_eq!(deep.last(), Some(&AgentStep::Finish));
    assert_eq!(shallow.last(), Some(&AgentStep::Finish));
    // Every trace must open with the approved-remedy lookup.
    assert!(matches!(
        deep.first(),
        Some(AgentStep::Lookup {
            skill: Skill::RemedyLookup,
            ..
        })
    ));
}

#[test]
fn compose_folds_a_doc_lookup_into_the_prescription() {
    let backend = FixtureBackend;
    let input = submission("I used unsafe because I was tired.");
    let plan = backend.plan(&input).unwrap();

    let base = backend.compose(&input, &plan, None, &[]).unwrap();
    let doc = Finding {
        skill: Skill::DocLookup,
        summary: "Doc lookup: the std API already covers this case.".to_owned(),
        detail: String::new(),
    };
    let with_doc = backend
        .compose(&input, &plan, None, std::slice::from_ref(&doc))
        .unwrap();
    with_doc.validate().unwrap();

    assert_ne!(base.prescription, with_doc.prescription);
    assert!(
        with_doc.prescription.contains("Docs:"),
        "prescription should carry the folded doc lookup"
    );
    // The DocLookup fold touches only the prescription, not the severity.
    assert_eq!(base.severity, with_doc.severity);
    assert_eq!(base.severity_reason, with_doc.severity_reason);
}

#[test]
fn fixture_severity_spans_the_full_range() {
    let backend = FixtureBackend;

    let mild = submission("I left a typo in a code comment.");
    let mild_plan = backend.plan(&mild).unwrap();
    let mild = backend.compose(&mild, &mild_plan, None, &[]).unwrap();
    mild.validate().unwrap();
    assert!(
        (1..=2).contains(&mild.severity),
        "a mild confession should score low: {}",
        mild.severity
    );
    assert!(!mild.severity_reason.trim().is_empty());

    let severe = submission("I used unsafe in production because I was tired.");
    let severe_plan = backend.plan(&severe).unwrap();
    let severe = backend.compose(&severe, &severe_plan, None, &[]).unwrap();
    severe.validate().unwrap();
    assert_eq!(
        severe.severity, 5,
        "a prod/unsafe confession should score highest"
    );
    assert!(!severe.severity_reason.trim().is_empty());
}

#[test]
fn revise_adjusts_the_ferris_level() {
    let backend = FixtureBackend;
    let input = submission("I left a typo in a code comment.");
    let plan = backend.plan(&input).unwrap();

    let first = backend.compose(&input, &plan, None, &[]).unwrap();
    first.validate().unwrap();

    let critique = Finding {
        skill: Skill::SelfCritique,
        summary: "Self-critique: this hides a sharper edge than it looks.".to_owned(),
        detail: String::new(),
    };
    let revised = backend
        .compose(&input, &plan, None, std::slice::from_ref(&critique))
        .unwrap();
    revised.validate().unwrap();

    assert!(
        first.severity != revised.severity || first.severity_reason != revised.severity_reason,
        "a revise should change the Ferris Level or its justification: \
         {}/{:?} -> {}/{:?}",
        first.severity,
        first.severity_reason,
        revised.severity,
        revised.severity_reason,
    );
    assert!(!revised.severity_reason.trim().is_empty());
}

#[test]
fn ratings_have_exact_levels_and_scores() {
    let rating = |text: &str| {
        let input = submission(text);
        let plan = FixtureBackend.plan(&input).unwrap();
        let judgment = FixtureBackend.compose(&input, &plan, None, &[]).unwrap();
        (
            judgment.severity,
            judgment.severity_reason,
            judgment.award_scores.most_cursed,
            judgment.award_scores.most_relatable,
            judgment.award_scores.most_needlessly_rewritten,
        )
    };
    assert_eq!(
        rating("Our PRODUCTION box"),
        (5, "prod-facing unsafe".to_owned(), 90, 68, 44)
    );
    assert_eq!(rating("I clone it"), (4, "correctness risk".to_owned(), 72, 92, 44));
    assert_eq!(rating("a Rust typo"), (1, "cosmetic nit".to_owned(), 18, 68, 97));
    assert_eq!(rating("todo: rewrite"), (2, "minor tech debt".to_owned(), 36, 68, 97));
    assert_eq!(rating("python"), (3, "worth a cleanup".to_owned(), 54, 92, 44));
}

#[test]
fn critiques_add_up_to_five() {
    let input = submission("a typo");
    let plan = FixtureBackend.plan(&input).unwrap();
    let critique = || Finding {
        skill: Skill::SelfCritique,
        summary: String::new(),
        detail: String::new(),
    };
    let rated = |n: usize| {
        let findings: Vec<Finding> = (0..n).map(|_| critique()).collect();
        let judgment = FixtureBackend.compose(&input, &plan, None, &findings).unwrap();
        (judgment.severity, judgment.severity_reason)
    };
    assert_eq!(rated(1), (2, "escalated after self-critique".to_owned()));
    assert_eq!(rated(3).0, 4);
    assert_eq!(rated(9).0, 5);
}

#[test]
fn proposed_tools_are_added_once_and_up_to_five() {
    let input = submission("anything");
    let plan = FixtureBackend.plan(&input).unwrap();
    let proposal = |detail: &str| Finding {
        skill: Skill::RemedyLookup,
        summary: String::new(),
        detail: detail.to_owned(),
    };
    let tools = |findings: &[Finding]| {
        FixtureBackend
            .compose(&input, &plan, None, findings)
            .unwrap()
            .suggested_tools
    };
    let base = vec!["enums", "newtypes", "clippy"];
    assert_eq!(tools(&[proposal("clippy, miri")]), base);
    assert_eq!(tools(&[proposal("")]), base);
    assert_eq!(
        tools(&[proposal(&format!("{}, miri", "x".repeat(65)))]),
        ["enums", "newtypes", "clippy", "miri"]
    );
    assert_eq!(
        tools(&[proposal("a"), proposal("b"), proposal("c")]),
        ["enums", "newtypes", "clippy", "a", "b"]
    );
}

#[test]
fn a_blank_tool_or_hidden_guidance_makes_a_judgment_unfit() {
    let input = submission("anything");
    let plan = FixtureBackend.plan(&input).unwrap();
    let blank_tool = Finding {
        skill: Skill::RemedyLookup,
        summary: String::new(),
        detail: " ".to_owned(),
    };
    let judgment = FixtureBackend.compose(&input, &plan, None, &[blank_tool]).unwrap();
    assert!(judgment.validate().is_err());

    let hidden = Remedy {
        category: plan.category,
        guidance: format!("\u{7}{}", " ".repeat(279)),
        suggested_tools: vec!["miri".to_owned()],
    };
    let doc = Finding {
        skill: Skill::DocLookup,
        summary: "docs".to_owned(),
        detail: String::new(),
    };
    let judgment = FixtureBackend.compose(&input, &plan, Some(&hidden), &[doc]).unwrap();
    assert!(judgment.validate().is_err());
}

#[test]
fn every_catalog_remedy_survives_a_finding() {
    for category in Category::ALL {
        let remedy = remedy_for(category);
        assert_eq!(remedy.suggested_tools.len(), 3);
        let view = AgentLoopView {
            text: "x",
            category,
            findings: &[],
            has_draft: false,
            revised: false,
            iteration: 0,
        };
        let finding = FixtureBackend.run_skill(Skill::RemedyLookup, &view).unwrap();
        assert_eq!(first_remedy(&[finding], category), Some(remedy));
    }
    assert_eq!(first_remedy(&[], Category::Other), None);
    assert_eq!(
        remedy_for(Category::Unsafe).suggested_tools,
        ["SAFETY comments", "Miri", "cargo-fuzz"]
    );
}

#[test]
fn classification_goes_by_the_first_matching_word() {
    assert_eq!(classify("Race in my borrow checker"), Category::Concurrency);
    assert_eq!(classify("ARC<Mutex>"), Category::Ownership);
    assert_eq!(classify("it panics"), Category::ErrorHandling);
    assert_eq!(classify("a raw pointer"), Category::Unsafe);
    assert_eq!(classify("a Bash one-liner"), Category::Automation);
    assert_eq!(classify("regex"), Category::Data);
    assert_eq!(classify("Works on my machine"), Category::Testing);
    assert_eq!(classify("nothing to see"), Category::Other);
}

#[test]
fn only_known_confessions_are_quoted() {
    assert_eq!(
        fixture_display_confession("  i USED unsafe because I was tired. ", Category::Unsafe),
        "I used unsafe because I was tired."
    );
    assert_eq!(
        fixture_display_confession("my boss is Bob", Category::ErrorHandling),
        "A developer confessed to an undocumented shortcut involving error handling."
    );
}

#[test]
fn stage_text_is_trimmed_cleaned_and_cut() {
    assert_eq!(sanitize_stage_text("  a\u{7}b c  ", 10), "ab c");
    assert_eq!(sanitize_stage_text("héllo wörld", 5), "héllo");
    assert_eq!(sanitize_stage_text("abc", 0), "");
    assert_eq!(sanitize_stage_text("\n\n", 5), "");
}

#[test]
fn a_backend_without_a_policy_composes_and_finishes() {
    let mut view = AgentLoopView {
        text: "x",
        category: Category::Other,
        findings: &[],
        has_draft: false,
        revised: false,
        iteration: 0,
    };
    assert_eq!(default_next_step(&view), AgentStep::Compose);
    view.has_draft = true;
    assert_eq!(default_next_step(&view), AgentStep::Finish);
    assert_eq!(
        default_finding(Skill::DocLookup).summary,
        "DocLookup produced no additional detail."
    );
    for skill in [Skill::RemedyLookup, Skill::DocLookup, Skill::SelfCritique] {
        assert_eq!(
            default_finding(skill).summary,
            format!("{skill:?} produced no additional detail.")
        );
    }
}

#[test]
fn model_errors_say_whether_they_pass() {
    let retryable = ModelError::Retryable("busy".to_owned());
    assert!(retryable.is_retryable());
    assert_eq!(retryable.message(), "temporary model failure: busy");
    let permanent = ModelError::Permanent("no".to_owned());
    assert!(!permanent.is_retryable());
    assert_eq!(permanent.message(), "permanent model failure: no");
    assert_eq!(FixtureBackend.mode(), "fixture");
}
