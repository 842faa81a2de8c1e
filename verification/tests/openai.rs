use std::collections::BTreeSet;

use rust_confessional::agent::{remedy_for, AgentLoopView, ModelError};
use rust_confessional::domain::{
    AgentMode, AgentPlan, AwardScores, Category, Finding, Judgment, Skill, SubmissionInput,
    Timestamp,
};
use rust_confessional::json::{
    json_array, json_flag, json_number, json_object, json_string, json_strings, json_text_at,
};
use rust_confessional::openai::{
    agent_step_schema, api_error_message, critique_schema, error_detail, judgment_schema,
    plan_schema, retryable_status, schema_mismatch, ApiResponse, ContentItem, ModelReply,
    ModelRequest, OpenAiBackend, OutputItem, SkillRun, AGENT_LOOP_INSTRUCTIONS,
    CRITIQUE_INSTRUCTIONS, FERRIS_INSTRUCTIONS,
};
use serde_json::Value;

fn backend() -> OpenAiBackend {
    OpenAiBackend::new("sk-test".to_owned(), "model-x".to_owned(), 12)
}

fn submission(text: &str) -> SubmissionInput {
    SubmissionInput {
        id: "01TEST".to_owned(),
        session_id: "session".to_owned(),
        text: text.to_owned(),
        created_at: Timestamp {
            seconds: 0,
            nanoseconds: 0,
        },
        hold_before_reply: true,
        agent_mode: AgentMode::Autonomous,
    }
}

fn plan() -> AgentPlan {
    AgentPlan {
        category: Category::Unsafe,
        needs_lookup: true,
        search_key: "unsafe".to_owned(),
    }
}

fn parse(text: &str) -> Value {
    serde_json::from_str(text).unwrap()
}

/// The text is JSON as the serializer itself would write it.
fn canonical(text: &str) {
    assert_eq!(parse(text).to_string(), text);
}

#[test]
fn strict_schemas_require_every_declared_property() {
    fn inspect(value: &Value) {
        if value.get("type").and_then(Value::as_str) == Some("object") {
            let properties = value["properties"]
                .as_object()
                .expect("object schemas declare properties");
            let required = value["required"]
                .as_array()
                .expect("strict object schemas declare required")
                .iter()
                .map(|name| name.as_str().unwrap())
                .collect::<BTreeSet<_>>();
            let declared = properties
                .keys()
                .map(String::as_str)
                .collect::<BTreeSet<_>>();
            assert_eq!(required, declared);
            assert_eq!(value["additionalProperties"], false);
            for child in properties.values() {
                inspect(child);
            }
        }
        if let Some(any_of) = value.get("anyOf").and_then(Value::as_array) {
            for child in any_of {
                inspect(child);
            }
        }
        if let Some(items) = value.get("items") {
            inspect(items);
        }
    }

    inspect(&parse(&plan_schema()));
    inspect(&parse(&judgment_schema()));
    inspect(&parse(&agent_step_schema()));
    inspect(&parse(&critique_schema()));

    let judgment = parse(&judgment_schema());
    assert!(
        judgment["properties"].get("severity_reason").is_some(),
        "judgment schema must declare severity_reason"
    );
    assert!(
        judgment["required"]
            .as_array()
            .unwrap()
            .iter()
            .any(|name| name == "severity_reason"),
        "severity_reason must be required by the strict schema"
    );
}

#[test]
fn schemas_are_canonical_json() {
    canonical(&plan_schema());
    canonical(&judgment_schema());
    canonical(&agent_step_schema());
    canonical(&critique_schema());
    assert_eq!(
        critique_schema(),
        "{\"additionalProperties\":false,\"properties\":{\"detail\":{\"maxLength\":280,\"type\":\"string\"},\"summary\":{\"maxLength\":280,\"type\":\"string\"}},\"required\":[\"summary\",\"detail\"],\"type\":\"object\"}"
    );
    let schema = parse(&judgment_schema());
    assert_eq!(schema["properties"]["display_confession"]["maxLength"], 180);
    assert_eq!(schema["properties"]["severity"]["minimum"], 1);
    assert_eq!(schema["properties"]["severity"]["maximum"], 5);
    assert_eq!(schema["properties"]["suggested_tools"]["items"]["maxLength"], 64);
    assert_eq!(schema["properties"]["category"]["enum"][2], "error_handling");
    let step = parse(&agent_step_schema());
    let variants = step["properties"]["step"]["anyOf"].as_array().unwrap();
    assert_eq!(variants.len(), 4);
    assert_eq!(variants[0]["properties"]["skill"]["enum"][2], "self_critique");
    assert_eq!(variants[3]["properties"]["action"]["enum"][0], "finish");
}

#[test]
fn json_strings_escape_what_they_must() {
    let escaped = |c: char| match c {
        '"' => "\\\"".to_owned(),
        '\\' => "\\\\".to_owned(),
        '\u{8}' => "\\b".to_owned(),
        '\t' => "\\t".to_owned(),
        '\n' => "\\n".to_owned(),
        '\u{c}' => "\\f".to_owned(),
        '\r' => "\\r".to_owned(),
        c if (c as u32) < 0x20 => format!("\\u{:04x}", c as u32),
        c => c.to_string(),
    };
    for c in (0..=0x2fff).chain(0x1f5ff..=0x1f650).filter_map(char::from_u32) {
        assert_eq!(json_string(&format!("a{c}b")), format!("\"a{}b\"", escaped(c)));
    }
    assert_eq!(json_string(""), "\"\"");
    assert_eq!(json_strings(&vec!["a".to_owned(), "\"".to_owned()]), "[\"a\",\"\\\"\"]");
    assert_eq!(json_object(&vec![("k".to_owned(), json_flag(true))]), "{\"k\":true}");
    assert_eq!(json_array(&Vec::new()), "[]");
    assert_eq!(json_number(42), "42");
}

#[test]
fn a_plan_request_quotes_the_confession() {
    let request = backend().plan_request(&submission("say \"hi\"\n"));
    assert_eq!(
        request.input,
        "Classify this programming confession and decide whether the approved Rust remedy catalog should be consulted. Confession JSON: \"say \\\"hi\\\"\\n\""
    );
    assert_eq!(request.name, "rust_confession_plan");
    assert_eq!(request.instructions, FERRIS_INSTRUCTIONS);
    assert_eq!(request.schema, plan_schema());
    assert_eq!(request.max_output_tokens, 2000);
}

#[test]
fn the_request_body_is_strict_and_stateless() {
    let request = ModelRequest {
        name: "n",
        instructions: "be \"good\"",
        input: "in".to_owned(),
        schema: plan_schema(),
        max_output_tokens: 2000,
    };
    let body = backend().request_body(&request);
    canonical(&body);
    let value = parse(&body);
    assert_eq!(value["model"], "model-x");
    assert_eq!(value["store"], false);
    assert_eq!(value["reasoning"]["effort"], "medium");
    assert_eq!(value["max_output_tokens"], 2000);
    assert_eq!(value["instructions"], "be \"good\"");
    assert_eq!(value["input"][0]["role"], "user");
    assert_eq!(value["input"][0]["content"][0]["type"], "input_text");
    assert_eq!(value["input"][0]["content"][0]["text"], "in");
    assert_eq!(value["text"]["format"]["type"], "json_schema");
    assert_eq!(value["text"]["format"]["name"], "n");
    assert_eq!(value["text"]["format"]["strict"], true);
    assert_eq!(value["text"]["format"]["schema"], parse(&plan_schema()));
}

#[test]
fn a_compose_request_carries_plan_remedy_and_findings() {
    let finding = Finding {
        skill: Skill::DocLookup,
        summary: "s".to_owned(),
        detail: "d".to_owned(),
    };
    let remedy = remedy_for(Category::Unsafe);
    let request = backend().compose_request(
        &submission("oops"),
        &plan(),
        Some(&remedy),
        std::slice::from_ref(&finding),
    );
    canonical(&request.input);
    let value = parse(&request.input);
    assert_eq!(value["task"], "Write the final Rust Confessional judgment.");
    assert_eq!(value["confession"], "oops");
    assert_eq!(value["plan"]["category"], "unsafe");
    assert_eq!(value["plan"]["needs_lookup"], true);
    assert_eq!(value["plan"]["search_key"], "unsafe");
    assert_eq!(value["approved_remedy"]["guidance"], remedy.guidance.as_str());
    assert_eq!(value["approved_remedy"]["suggested_tools"][1], "Miri");
    assert_eq!(value["findings"][0]["skill"], "doc_lookup");
    assert_eq!(value["findings"][0]["detail"], "d");
    assert_eq!(request.max_output_tokens, 4000);

    let bare = backend().compose_request(&submission("oops"), &plan(), None, &[]);
    assert_eq!(parse(&bare.input)["approved_remedy"], Value::Null);
    assert_eq!(bare.schema, judgment_schema());
}

#[test]
fn a_step_is_chosen_from_summaries() {
    let findings = [Finding {
        skill: Skill::RemedyLookup,
        summary: "s".to_owned(),
        detail: "hidden".to_owned(),
    }];
    let view = AgentLoopView {
        text: "oops",
        category: Category::Data,
        findings: &findings,
        has_draft: true,
        revised: false,
        iteration: 3,
    };
    let request = backend().decide_request(&view);
    canonical(&request.input);
    let value = parse(&request.input);
    assert_eq!(value["findings_so_far"][0]["summary"], "s");
    assert!(value["findings_so_far"][0].get("detail").is_none());
    assert_eq!(value["has_draft"], true);
    assert_eq!(value["revised"], false);
    assert_eq!(value["iteration"], 3);
    assert_eq!(value["category"], "data");
    assert_eq!(request.instructions, AGENT_LOOP_INSTRUCTIONS);

    match backend().run_skill(Skill::SelfCritique, &view) {
        SkillRun::Ask(request) => {
            canonical(&request.input);
            assert_eq!(parse(&request.input)["findings_so_far"][0]["detail"], "hidden");
            assert_eq!(request.instructions, CRITIQUE_INSTRUCTIONS);
            assert_eq!(request.schema, critique_schema());
        }
        SkillRun::Found(_) => panic!("a critique needs the model"),
    }
    match backend().run_skill(Skill::RemedyLookup, &view) {
        SkillRun::Found(finding) => {
            assert_eq!(finding.detail, "serde, newtypes, validator");
        }
        SkillRun::Ask(_) => panic!("the catalog owns remedies"),
    }
    assert!(matches!(
        backend().run_skill(Skill::DocLookup, &view),
        SkillRun::Found(Finding { skill: Skill::DocLookup, .. })
    ));
}

fn text(part: &str) -> ContentItem {
    ContentItem::OutputText {
        text: part.to_owned(),
    }
}

fn response(status: &str, output: Vec<OutputItem>) -> ApiResponse {
    ApiResponse {
        id: "resp_1".to_owned(),
        status: status.to_owned(),
        output,
        incomplete_details: None,
    }
}

fn answered(status: u16, body: &str, parsed: Result<ApiResponse, String>) -> ModelReply {
    ModelReply::Answered {
        status,
        request_id: Some("req_1".to_owned()),
        body: body.to_owned(),
        parsed,
    }
}

#[test]
fn the_text_of_all_messages_is_joined() {
    let output = vec![
        OutputItem::Other,
        OutputItem::Message {
            content: vec![text("{\"a\""), ContentItem::Other, text(":1")],
        },
        OutputItem::Message {
            content: vec![text("}")],
        },
    ];
    let reply = answered(200, "", Ok(response("completed", output)));
    assert_eq!(backend().structured(reply), Ok("{\"a\":1}".to_owned()));
}

#[test]
fn a_refusal_is_permanent_whatever_came_before() {
    let output = vec![
        OutputItem::Message {
            content: vec![
                text("{}"),
                ContentItem::Refusal {
                    refusal: "no".to_owned(),
                },
            ],
        },
        OutputItem::Message {
            content: vec![ContentItem::Refusal {
                refusal: "later".to_owned(),
            }],
        },
    ];
    assert_eq!(
        response("completed", output).output_text(),
        Err(ModelError::Permanent("model refused the request: no".to_owned()))
    );
}

#[test]
fn incomplete_and_empty_replies_fail() {
    let mut incomplete = response("incomplete", vec![]);
    assert_eq!(
        incomplete.output_text(),
        Err(ModelError::Permanent(
            "OpenAI response resp_1 ended with status incomplete: no incomplete details".to_owned()
        ))
    );
    incomplete.incomplete_details = Some("{\"reason\":\"max_output_tokens\"}".to_owned());
    assert_eq!(
        incomplete.output_text(),
        Err(ModelError::Permanent(
            "OpenAI response resp_1 ended with status incomplete: {\"reason\":\"max_output_tokens\"}"
                .to_owned()
        ))
    );
    assert_eq!(
        response("completed", vec![OutputItem::Other]).output_text(),
        Err(ModelError::Retryable(
            "OpenAI response resp_1 contained no output text".to_owned()
        ))
    );
}

#[test]
fn http_failures_are_classified_and_worded() {
    let body = "{\"error\":{\"message\":\"slow down\"}}";
    assert_eq!(
        backend().structured(answered(429, body, Err("unused".to_owned()))),
        Err(ModelError::Retryable(
            "OpenAI HTTP 429 Too Many Requests (request req_1): slow down".to_owned()
        ))
    );
    let reply = ModelReply::Answered {
        status: 401,
        request_id: None,
        body: "plain".to_owned(),
        parsed: Err("unused".to_owned()),
    };
    assert_eq!(
        backend().structured(reply),
        Err(ModelError::Permanent(
            "OpenAI HTTP 401 Unauthorized (request unknown): plain".to_owned()
        ))
    );
    assert_eq!(
        backend().structured(ModelReply::Failed("connection reset".to_owned())),
        Err(ModelError::Retryable("connection reset".to_owned()))
    );
    assert_eq!(
        backend().structured(answered(200, "<html>", Err("expected value".to_owned()))),
        Err(ModelError::Retryable(
            "invalid OpenAI response JSON (request req_1): expected value".to_owned()
        ))
    );
    for status in [408, 429, 500, 503, 599] {
        assert!(retryable_status(status));
    }
    for status in [200, 400, 401, 404, 407, 409, 499, 600] {
        assert!(!retryable_status(status));
    }
    assert_eq!(
        schema_mismatch("missing field"),
        ModelError::Permanent(
            "structured output did not match the schema: missing field".to_owned()
        )
    );
}

#[test]
fn error_details_come_from_the_json_or_the_body() {
    assert_eq!(api_error_message("{\"error\":{\"message\":\"bad key\"}}"), "bad key");
    assert_eq!(api_error_message("{\"error\":{\"message\":5}}"), "{\"error\":{\"message\":5}}");
    assert_eq!(api_error_message(&"é".repeat(600)), "é".repeat(500));
    assert_eq!(error_detail(Some("found".to_owned()), "body"), "found");
    assert_eq!(error_detail(None, "body"), "body");
    assert_eq!(json_text_at("{\"a\":[\"x\"]}", "/a/0"), Some("x".to_owned()));
    assert_eq!(json_text_at("{\"a\":[\"x\"]}", "/a/1"), None);
    assert_eq!(json_text_at("not json", ""), None);
}

fn drafted() -> Judgment {
    Judgment {
        display_confession: "  A\u{7} paraphrase  ".to_owned(),
        category: Category::Other,
        judgment: "j".repeat(400),
        severity: 4,
        severity_reason: "r".repeat(60),
        prescription: "model prose".to_owned(),
        suggested_tools: vec!["model tool".to_owned()],
        sentence: String::new(),
        penance: "Write a loop.".to_owned(),
        penance_line: "foo\nbar".to_owned(),
        award_scores: AwardScores::default(),
    }
}

#[test]
fn the_plan_and_the_catalog_own_their_fields() {
    let remedy = remedy_for(Category::Unsafe);
    let judgment = backend().compose(drafted(), &plan(), Some(&remedy)).unwrap();
    assert_eq!(judgment.category, Category::Unsafe);
    assert_eq!(judgment.prescription, remedy.guidance);
    assert_eq!(judgment.suggested_tools, remedy.suggested_tools);
    assert_eq!(judgment.display_confession, "A paraphrase");
    assert_eq!(judgment.judgment.len(), 280);
    assert_eq!(judgment.severity_reason.len(), 48);
    assert_eq!(judgment.penance_line, "foobar");
    assert_eq!(judgment.sentence, "Write a loop.");

    let free = backend().compose(drafted(), &plan(), None).unwrap();
    assert_eq!(free.prescription, "model prose");
    assert_eq!(free.suggested_tools, ["model tool"]);
}

#[test]
fn an_invalid_judgment_is_refused_for_good() {
    let mut judgment = drafted();
    judgment.severity = 0;
    assert_eq!(
        backend().compose(judgment, &plan(), None),
        Err(ModelError::Permanent("severity must be between 1 and 5".to_owned()))
    );
}

#[test]
fn a_sentence_is_taken_as_it_came() {
    let mut judgment = drafted();
    judgment.sentence = "  Write\u{7} a test. ".to_owned();
    let accepted = backend().compose(judgment, &plan(), None).unwrap();
    assert_eq!(accepted.sentence, "  Write\u{7} a test. ");

    let mut judgment = drafted();
    judgment.sentence = "s".repeat(280);
    assert_eq!(backend().compose(judgment, &plan(), None).unwrap().sentence.len(), 280);

    let mut judgment = drafted();
    judgment.sentence = "s".repeat(281);
    assert_eq!(
        backend().compose(judgment, &plan(), None),
        Err(ModelError::Permanent("sentence is too long".to_owned()))
    );
}

#[test]
fn a_critique_is_cut_to_its_caps() {
    let finding = backend().critique(&"s".repeat(300), " d\u{1} ");
    assert_eq!(finding.skill, Skill::SelfCritique);
    assert_eq!(finding.summary.len(), 280);
    assert_eq!(finding.detail, "d");
    assert_eq!(backend().mode(), "openai");
}
