//! The offline backend of the stage demo and the tests. It never touches the
//! network, so the autonomous loop stays reproducible and safe to project live.
use vstd::prelude::*;

use crate::domain::{
    category_name, finding_views, judgment_fault, single_line, text_of, tool_fits, AgentPlan, AgentStep,
    AgentStepView, AwardScores, Category, Finding, FindingView, Judgment, JudgmentView, PlanView,
    Remedy, RemedyView, Skill, SubmissionInput, MAX_SHORT_FIELD_CHARS, MAX_TOOL_CHARS,
};
use crate::agent::{
    catalog_lookup, catalog_remedy, catalog_tools, doc_finding, law_catalog_is_presentable,
    law_stage_text_keeps_visible_text, presentable, remedy_finding, remedy_for,
    sanitize_stage_text, shows_something, simulated_doc_lookup, stage_text, AgentLoopView,
    LoopView, ModelError,
};
use crate::moderation::is_gap;
use crate::phases::{approved_remedy, first_of, nonempty_parts, remedy_from};
use crate::text::{
    ascii_lowercase, blank, contains, has, holds, is_white_space, lemma_position_from,
    lemma_split_undoes_join, occurs_at, parts, same, split, texts, to_ascii_lowercase, to_chars, trim, trimmed,
};

verus! {

// ---------------------------------------------------------------------------
// Classification
// ---------------------------------------------------------------------------
/// Where a text in ASCII lower case belongs: the first category, in this order,
/// one of whose words it holds.
pub open spec fn category_of_lowered(t: Seq<char>) -> Category {
    if has(t, "race"@) || has(t, "thread"@) || has(t, "sleep"@) || has(t, "deadlock"@) || has(
        t,
        "async"@,
    ) {
        Category::Concurrency
    } else if has(t, "clone"@) || has(t, "borrow"@) || has(t, "lifetime"@) || has(t, "arc<"@) {
        Category::Ownership
    } else if has(t, "unwrap"@) || has(t, "panic"@) || has(t, "error"@) || has(t, "exception"@) {
        Category::ErrorHandling
    } else if has(t, "unsafe"@) || has(t, "transmute"@) || has(t, "raw pointer"@) {
        Category::Unsafe
    } else if has(t, "script"@) || has(t, "python"@) || has(t, "bash"@) || has(t, "cron"@) {
        Category::Automation
    } else if has(t, "csv"@) || has(t, "database"@) || has(t, "json"@) || has(t, "regex"@) {
        Category::Data
    } else if has(t, "test"@) || has(t, "works on my machine"@) {
        Category::Testing
    } else {
        Category::Other
    }
}

/// The category of a confession, in whatever case it is written.
pub open spec fn category_of(text: Seq<char>) -> Category {
    category_of_lowered(ascii_lowercase(text))
}

pub fn classify(text: &str) -> (res: Category)
    ensures
        res == category_of(text@),
{
    let lowered = to_ascii_lowercase(text);
    let t = lowered.as_str();
    if contains(t, "race") || contains(t, "thread") || contains(t, "sleep") || contains(
        t,
        "deadlock",
    ) || contains(t, "async") {
        Category::Concurrency
    } else if contains(t, "clone") || contains(t, "borrow") || contains(t, "lifetime") || contains(
        t,
        "arc<",
    ) {
        Category::Ownership
    } else if contains(t, "unwrap") || contains(t, "panic") || contains(t, "error") || contains(
        t,
        "exception",
    ) {
        Category::ErrorHandling
    } else if contains(t, "unsafe") || contains(t, "transmute") || contains(t, "raw pointer") {
        Category::Unsafe
    } else if contains(t, "script") || contains(t, "python") || contains(t, "bash") || contains(
        t,
        "cron",
    ) {
        Category::Automation
    } else if contains(t, "csv") || contains(t, "database") || contains(t, "json") || contains(
        t,
        "regex",
    ) {
        Category::Data
    } else if contains(t, "test") || contains(t, "works on my machine") {
        Category::Testing
    } else {
        Category::Other
    }
}

// ---------------------------------------------------------------------------
// Fixed texts
// ---------------------------------------------------------------------------
pub open spec fn fixed_judgment(category: Category) -> Seq<char> {
    match category {
        Category::Concurrency => "Concurrency by astrology."@,
        Category::Ownership => "A small offering to the borrow-checker gods."@,
        Category::ErrorHandling => "Error handling through optimism."@,
        Category::Unsafe => "A safety case consisting mainly of vibes."@,
        Category::Automation => "Congratulations on founding a platform team by accident."@,
        Category::Data => "A schema was present in spirit."@,
        Category::Testing => "Production remains your most loyal test runner."@,
        Category::Other => "An undocumented invariant has entered the chat."@,
    }
}

pub open spec fn fixed_penance(category: Category) -> Seq<char> {
    match category {
        Category::Concurrency =>
            "Write a loop that prints foo then bar, in order, with no sleeps."@,
        Category::Ownership => "Copy out, by hand, who owns the value you kept cloning."@,
        Category::ErrorHandling => "Write out the error you optimistically unwrapped away."@,
        Category::Unsafe => "Transcribe the SAFETY comment you wish you had written."@,
        Category::Automation => "Write the README line your company-running script deserves."@,
        Category::Data => "Declare the domain type you should have parsed into."@,
        Category::Testing => "Write the assertion production has been running for you."@,
        Category::Other => "Turn the hidden assumption into a written invariant."@,
    }
}

pub open spec fn fixed_penance_line(category: Category) -> Seq<char> {
    match category {
        Category::Concurrency => "foo bar // no sleep"@,
        Category::Ownership => "I know who owns this"@,
        Category::ErrorHandling => "return Err(the_truth)"@,
        Category::Unsafe => "// SAFETY: explained, honest"@,
        Category::Automation => "# TODO: make me a real tool"@,
        Category::Data => "let value: Newtype = ..."@,
        Category::Testing => "assert!(it_actually_works())"@,
        Category::Other => "// invariant: must hold"@,
    }
}

pub fn fixture_judgment(category: Category) -> (res: &'static str)
    ensures
        res@ == fixed_judgment(category),
{
    match category {
        Category::Concurrency => "Concurrency by astrology.",
        Category::Ownership => "A small offering to the borrow-checker gods.",
        Category::ErrorHandling => "Error handling through optimism.",
        Category::Unsafe => "A safety case consisting mainly of vibes.",
        Category::Automation => "Congratulations on founding a platform team by accident.",
        Category::Data => "A schema was present in spirit.",
        Category::Testing => "Production remains your most loyal test runner.",
        Category::Other => "An undocumented invariant has entered the chat.",
    }
}

/// The penance for a category, and the line it is written out with.
pub fn fixture_penance(category: Category) -> (res: (&'static str, &'static str))
    ensures
        res.0@ == fixed_penance(category),
        res.1@ == fixed_penance_line(category),
{
    match category {
        Category::Concurrency => (
            "Write a loop that prints foo then bar, in order, with no sleeps.",
            "foo bar // no sleep",
        ),
        Category::Ownership => (
            "Copy out, by hand, who owns the value you kept cloning.",
            "I know who owns this",
        ),
        Category::ErrorHandling => (
            "Write out the error you optimistically unwrapped away.",
            "return Err(the_truth)",
        ),
        Category::Unsafe => (
            "Transcribe the SAFETY comment you wish you had written.",
            "// SAFETY: explained, honest",
        ),
        Category::Automation => (
            "Write the README line your company-running script deserves.",
            "# TODO: make me a real tool",
        ),
        Category::Data => (
            "Declare the domain type you should have parsed into.",
            "let value: Newtype = ...",
        ),
        Category::Testing => (
            "Write the assertion production has been running for you.",
            "assert!(it_actually_works())",
        ),
        Category::Other => (
            "Turn the hidden assumption into a written invariant.",
            "// invariant: must hold",
        ),
    }
}

/// The confessions that may be shown word for word.
pub open spec fn safe_confessions() -> Seq<Seq<char>> {
    seq![
        "I fixed the race condition with a sleep."@,
        "I clone everything until it compiles."@,
        "I wrote a Python script that now runs the company."@,
        "Our production database is a CSV file."@,
        "I used unsafe because I was tired."@,
    ]
}

/// `s` with a space for each underscore.
pub open spec fn spaced(s: Seq<char>) -> Seq<char> {
    s.map_values(
        |c: char|
            if c == '_' {
                ' '
            } else {
                c
            },
    )
}

/// Equal but for the case of ASCII letters.
pub open spec fn same_ignoring_case(a: Seq<char>, b: Seq<char>) -> bool {
    ascii_lowercase(a) == ascii_lowercase(b)
}

/// What the stage shows of a confession: a known-safe text as it is kept here,
/// of any other only its category.
pub open spec fn shown_confession(text: Seq<char>, category: Category) -> Seq<char> {
    let said = trimmed(text);
    let safe = safe_confessions();
    if same_ignoring_case(safe[0], said) {
        safe[0]
    } else if same_ignoring_case(safe[1], said) {
        safe[1]
    } else if same_ignoring_case(safe[2], said) {
        safe[2]
    } else if same_ignoring_case(safe[3], said) {
        safe[3]
    } else if same_ignoring_case(safe[4], said) {
        safe[4]
    } else {
        "A developer confessed to an undocumented shortcut involving "@ + spaced(
            category_name(category),
        ) + "."@
    }
}

fn to_spaced(s: &str) -> (res: String)
    ensures
        res@ == spaced(s@),
{
    let chars = to_chars(s);
    let mut out = String::new();
    let mut i: usize = 0;
    while i < chars.len()
        invariant
            i <= chars@.len(),
            out@ == spaced(chars@.take(i as int)),
        decreases chars@.len() - i,
    {
        if chars[i] == '_' {
            out.push(' ');
        } else {
            out.push(chars[i]);
        }
        i += 1;
        assert(out@ =~= spaced(chars@.take(i as int)));
    }
    assert(chars@.take(i as int) =~= s@);
    out
}

fn equal_ignoring_case(a: &str, b: &str) -> (res: bool)
    ensures
        res == same_ignoring_case(a@, b@),
{
    let x = to_ascii_lowercase(a);
    let y = to_ascii_lowercase(b);
    same(x.as_str(), y.as_str())
}

pub fn fixture_display_confession(text: &str, category: Category) -> (res: String)
    ensures
        res@ == shown_confession(text@, category),
{
    let said = trim(text);
    if equal_ignoring_case("I fixed the race condition with a sleep.", said.as_str()) {
        return "I fixed the race condition with a sleep.".to_owned();
    }
    if equal_ignoring_case("I clone everything until it compiles.", said.as_str()) {
        return "I clone everything until it compiles.".to_owned();
    }
    if equal_ignoring_case("I wrote a Python script that now runs the company.", said.as_str()) {
        return "I wrote a Python script that now runs the company.".to_owned();
    }
    if equal_ignoring_case("Our production database is a CSV file.", said.as_str()) {
        return "Our production database is a CSV file.".to_owned();
    }
    if equal_ignoring_case("I used unsafe because I was tired.", said.as_str()) {
        return "I used unsafe because I was tired.".to_owned();
    }
    let mut out = "A developer confessed to an undocumented shortcut involving ".to_owned();
    let involving = to_spaced(category.as_str());
    out.append(involving.as_str());
    out.append(".");
    out
}

// ---------------------------------------------------------------------------
// Composing
// ---------------------------------------------------------------------------
/// How severe a text in ASCII lower case is, and why.
pub open spec fn first_rating(t: Seq<char>) -> (u8, Seq<char>) {
    if has(t, "production"@) || has(t, "unsafe"@) {
        (5u8, "prod-facing unsafe"@)
    } else if has(t, "sleep"@) || has(t, "clone"@) || has(t, "panic"@) || has(t, "race"@) {
        (4u8, "correctness risk"@)
    } else if has(t, "typo"@) || has(t, "cosmetic"@) || has(t, "nit"@) || has(t, "whitespace"@)
        || has(t, "rename"@) || has(t, "indent"@) {
        (1u8, "cosmetic nit"@)
    } else if has(t, "todo"@) || has(t, "comment"@) || has(t, "naming"@) || has(t, "style"@) {
        (2u8, "minor tech debt"@)
    } else {
        (3u8, "worth a cleanup"@)
    }
}

/// How many findings of a skill there are.
pub open spec fn count_of(findings: Seq<FindingView>, skill: Skill) -> nat
    decreases findings.len(),
{
    if findings.len() == 0 {
        0
    } else {
        count_of(findings.drop_last(), skill) + if findings.last().skill == skill {
            1nat
        } else {
            0nat
        }
    }
}

/// The rating once the findings are folded in: each self-critique raises it by
/// one, up to five, and gives it a new reason.
pub open spec fn final_rating(t: Seq<char>, findings: Seq<FindingView>) -> (u8, Seq<char>) {
    let (severity, reason) = first_rating(t);
    let critiques = count_of(findings, Skill::SelfCritique);
    if critiques == 0 {
        (severity, reason)
    } else {
        (
            if severity + critiques >= 5 {
                5u8
            } else {
                (severity + critiques) as u8
            },
            "escalated after self-critique"@,
        )
    }
}

/// The guidance with every documentation finding folded in, in order.
pub open spec fn with_docs(guidance: Seq<char>, findings: Seq<FindingView>) -> Seq<char>
    decreases findings.len(),
{
    if findings.len() == 0 {
        guidance
    } else {
        let before = with_docs(guidance, findings.drop_last());
        if findings.last().skill == Skill::DocLookup {
            stage_text(
                before + " Docs: "@ + findings.last().summary,
                MAX_SHORT_FIELD_CHARS as nat,
            )
        } else {
            before
        }
    }
}

/// The first of some parts that is a tool's name by its length.
pub open spec fn first_name(list: Seq<Seq<char>>) -> Option<Seq<char>>
    decreases list.len(),
{
    if list.len() == 0 {
        None
    } else if 0 < list[0].len() <= MAX_TOOL_CHARS {
        Some(list[0])
    } else {
        first_name(list.drop_first())
    }
}

/// The tool that a remedy finding proposes.
pub open spec fn proposed_tool(finding: FindingView) -> Option<Seq<char>> {
    first_name(parts(finding.detail, ", "@))
}

/// The tools with those that the remedy findings propose, in order, as long as
/// there are fewer than five and the tool is new.
pub open spec fn with_tools(tools: Seq<Seq<char>>, findings: Seq<FindingView>) -> Seq<Seq<char>>
    decreases findings.len(),
{
    if findings.len() == 0 {
        tools
    } else {
        let before = with_tools(tools, findings.drop_last());
        let finding = findings.last();
        match proposed_tool(finding) {
            Some(tool) => if finding.skill == Skill::RemedyLookup && before.len() < 5
                && !before.contains(tool) {
                before.push(tool)
            } else {
                before
            },
            None => before,
        }
    }
}

/// The remedy that a judgment goes by: the approved one, or else the catalog's.
pub open spec fn remedy_or_catalog(remedy: Option<RemedyView>, category: Category) -> RemedyView {
    match remedy {
        Some(remedy) => remedy,
        None => catalog_remedy(category),
    }
}

/// The judgment that the offline backend composes.
pub open spec fn composed(
    text: Seq<char>,
    category: Category,
    remedy: Option<RemedyView>,
    findings: Seq<FindingView>,
) -> JudgmentView {
    let t = ascii_lowercase(text);
    let advice = remedy_or_catalog(remedy, category);
    let (severity, severity_reason) = final_rating(t, findings);
    JudgmentView {
        display_confession: shown_confession(text, category),
        category,
        judgment: fixed_judgment(category),
        severity,
        severity_reason,
        prescription: with_docs(advice.guidance, findings),
        suggested_tools: with_tools(advice.suggested_tools, findings),
        sentence: fixed_penance(category),
        penance: fixed_penance(category),
        penance_line: fixed_penance_line(category),
        award_scores: AwardScores {
            most_cursed: (severity * 18) as u8,
            most_relatable: if has(t, "clone"@) || has(t, "python"@) {
                92u8
            } else {
                68u8
            },
            most_needlessly_rewritten: if has(t, "rewrite"@) || has(t, "rust"@) {
                97u8
            } else {
                44u8
            },
        },
    }
}

fn rate(t: &str) -> (res: (u8, &'static str))
    ensures
        (res.0, res.1@) == first_rating(t@),
{
    if contains(t, "production") || contains(t, "unsafe") {
        (5, "prod-facing unsafe")
    } else if contains(t, "sleep") || contains(t, "clone") || contains(t, "panic") || contains(
        t,
        "race",
    ) {
        (4, "correctness risk")
    } else if contains(t, "typo") || contains(t, "cosmetic") || contains(t, "nit") || contains(
        t,
        "whitespace",
    ) || contains(t, "rename") || contains(t, "indent") {
        (1, "cosmetic nit")
    } else if contains(t, "todo") || contains(t, "comment") || contains(t, "naming") || contains(
        t,
        "style",
    ) {
        (2, "minor tech debt")
    } else {
        (3, "worth a cleanup")
    }
}

fn find_tool(detail: &str) -> (res: Option<String>)
    ensures
        text_of(res) == first_name(parts(detail@, ", "@)),
{
    proof {
        reveal_strlit(", ");
    }
    let pieces = split(detail, ", ");
    let ghost all = texts(pieces@);
    let mut i: usize = 0;
    assert(all.skip(0) =~= all);
    while i < pieces.len()
        invariant
            i <= pieces@.len(),
            all == texts(pieces@),
            all == parts(detail@, ", "@),
            first_name(all) == first_name(all.skip(i as int)),
        decreases pieces@.len() - i,
    {
        let n: usize = pieces[i].as_str().unicode_len();
        assert(all.skip(i as int)[0] == pieces@[i as int]@);
        if 0 < n && n <= MAX_TOOL_CHARS {
            return Some(pieces[i].clone());
        }
        assert(all.skip(i as int).drop_first() =~= all.skip(i + 1));
        i += 1;
    }
    None
}

/// The view of a remedy that is lent.
pub open spec fn lent_remedy(remedy: Option<&Remedy>) -> Option<RemedyView> {
    match remedy {
        Some(remedy) => Some(remedy@),
        None => None,
    }
}

/// Offline, deterministic backend.
#[derive(Debug, Clone, Copy, PartialEq, Eq, Default)]
pub struct FixtureBackend;

impl FixtureBackend {
    pub fn plan(&self, submission: &SubmissionInput) -> (res: Result<AgentPlan, ModelError>)
        ensures
            res matches Ok(plan) && plan@ == (PlanView {
                category: category_of(submission@.text),
                needs_lookup: true,
                search_key: category_name(category_of(submission@.text)),
            }),
    {
        let category = classify(submission.text.as_str());
        Ok(AgentPlan { category, needs_lookup: true, search_key: category.as_str().to_owned() })
    }

    pub fn compose(
        &self,
        submission: &SubmissionInput,
        plan: &AgentPlan,
        remedy: Option<&Remedy>,
        findings: &[Finding],
    ) -> (res: Result<Judgment, ModelError>)
        ensures
            res matches Ok(judgment) && judgment@ == composed(
                submission@.text,
                plan@.category,
                lent_remedy(remedy),
                finding_views(findings@),
            ),
    {
        let advice = match remedy {
            Some(remedy) => remedy.clone(),
            None => remedy_for(plan.category),
        };
        let ghost approved = remedy_or_catalog(lent_remedy(remedy), plan@.category);
        let (penance, penance_line) = fixture_penance(plan.category);
        let normalized = to_ascii_lowercase(submission.text.as_str());
        let t = normalized.as_str();
        let (first_severity, first_reason) = rate(t);
        let most_relatable: u8 = if contains(t, "clone") || contains(t, "python") {
            92
        } else {
            68
        };
        let most_needlessly_rewritten: u8 = if contains(t, "rewrite") || contains(t, "rust") {
            97
        } else {
            44
        };
        // Fold the loop's findings in, so that a revision differs from the first
        // draft.
        let mut severity: u8 = first_severity;
        let mut severity_reason = first_reason;
        let mut prescription = advice.guidance;
        let mut suggested_tools = advice.suggested_tools;
        let ghost all = finding_views(findings@);
        let mut i: usize = 0;
        assert(all.take(0) =~= Seq::empty());
        while i < findings.len()
            invariant
                i <= findings@.len(),
                all == finding_views(findings@),
                1 <= severity <= 5,
                (severity, severity_reason@) == final_rating(t@, all.take(i as int)),
                prescription@ == with_docs(approved.guidance, all.take(i as int)),
                texts(suggested_tools@) == with_tools(
                    approved.suggested_tools,
                    all.take(i as int),
                ),
            decreases findings@.len() - i,
        {
            let finding = &findings[i];
            let ghost upto = all.take(i + 1);
            proof {
                assert(upto.drop_last() =~= all.take(i as int));
                assert(upto.last() == finding@);
            }
            match finding.skill {
                Skill::SelfCritique => {
                    severity = if severity < 5 {
                        severity + 1
                    } else {
                        5
                    };
                    severity_reason = "escalated after self-critique";
                },
                Skill::DocLookup => {
                    let mut text = prescription.clone();
                    text.append(" Docs: ");
                    text.append(finding.summary.as_str());
                    prescription = sanitize_stage_text(text.as_str(), MAX_SHORT_FIELD_CHARS);
                },
                Skill::RemedyLookup => {
                    if let Some(tool) = find_tool(finding.detail.as_str()) {
                        if suggested_tools.len() < 5 && !holds(
                            &suggested_tools,
                            tool.as_str(),
                        ) {
                            let ghost before = texts(suggested_tools@);
                            let ghost added = tool@;
                            suggested_tools.push(tool);
                            assert(texts(suggested_tools@) =~= before.push(added));
                        }
                    }
                },
            }
            i += 1;
        }
        assert(all.take(i as int) =~= all);
        Ok(
            Judgment {
                display_confession: fixture_display_confession(
                    submission.text.as_str(),
                    plan.category,
                ),
                category: plan.category,
                judgment: fixture_judgment(plan.category).to_owned(),
                severity,
                severity_reason: severity_reason.to_owned(),
                prescription,
                suggested_tools,
                sentence: penance.to_owned(),
                penance: penance.to_owned(),
                penance_line: penance_line.to_owned(),
                award_scores: AwardScores {
                    most_cursed: severity * 18,
                    most_relatable,
                    most_needlessly_rewritten,
                },
            },
        )
    }
}

// ---------------------------------------------------------------------------
// Deciding and researching
// ---------------------------------------------------------------------------
/// Categories that call for all the evidence: remedy, docs, critique, compose,
/// revise, finish.
pub open spec fn deep(category: Category) -> bool {
    category == Category::Unsafe || category == Category::Concurrency || category
        == Category::ErrorHandling
}

/// Categories that call for a second look: remedy, critique, compose, revise,
/// finish. Every other category takes the short path: remedy, compose, finish.
pub open spec fn medium(category: Category) -> bool {
    category == Category::Ownership || category == Category::Data || category == Category::Testing
}

/// A finding of the skill is there.
pub open spec fn has_finding(findings: Seq<FindingView>, skill: Skill) -> bool {
    exists|i: int| 0 <= i < findings.len() && (#[trigger] findings[i]).skill == skill
}

/// The step that the offline backend chooses.
pub open spec fn fixture_step(view: LoopView) -> AgentStepView {
    let considered = deep(view.category) || medium(view.category);
    if !has_finding(view.findings, Skill::RemedyLookup) {
        AgentStepView::Lookup {
            skill: Skill::RemedyLookup,
            query: category_name(view.category),
        }
    } else if deep(view.category) && !has_finding(view.findings, Skill::DocLookup) {
        AgentStepView::Lookup { skill: Skill::DocLookup, query: category_name(view.category) }
    } else if considered && !has_finding(view.findings, Skill::SelfCritique) {
        AgentStepView::Lookup { skill: Skill::SelfCritique, query: "review the working draft"@ }
    } else if !view.has_draft {
        AgentStepView::Compose
    } else if considered && !view.revised {
        AgentStepView::Revise { reason: "folding in the self-critique"@ }
    } else {
        AgentStepView::Finish
    }
}

/// What the offline backend finds with a skill.
pub open spec fn fixture_finding(category: Category, skill: Skill) -> FindingView {
    match skill {
        Skill::RemedyLookup => remedy_finding(category),
        Skill::DocLookup => doc_finding(),
        Skill::SelfCritique => FindingView {
            skill,
            summary: "Self-critique: the draft leans on vibes where a type would do."@,
            detail:
                "Name the invariant and make the illegal state unrepresentable before shipping."@,
        },
    }
}

fn found(findings: &[Finding], skill: Skill) -> (res: bool)
    ensures
        res == has_finding(finding_views(findings@), skill),
{
    let mut i: usize = 0;
    while i < findings.len()
        invariant
            i <= findings@.len(),
            forall|k: int|
                0 <= k < i ==> (#[trigger] finding_views(findings@)[k]).skill != skill,
        decreases findings@.len() - i,
    {
        if findings[i].skill == skill {
            assert(finding_views(findings@)[i as int].skill == skill);
            return true;
        }
        i += 1;
    }
    false
}

impl FixtureBackend {
    pub fn decide_next_step(&self, view: &AgentLoopView<'_>) -> (res: Result<
        AgentStep,
        ModelError,
    >)
        ensures
            res matches Ok(step) && step@ == fixture_step(view@),
    {
        let is_deep = match view.category {
            Category::Unsafe => true,
            Category::Concurrency => true,
            Category::ErrorHandling => true,
            _ => false,
        };
        let is_medium = match view.category {
            Category::Ownership => true,
            Category::Data => true,
            Category::Testing => true,
            _ => false,
        };
        let step = if !found(view.findings, Skill::RemedyLookup) {
            AgentStep::Lookup {
                skill: Skill::RemedyLookup,
                query: view.category.as_str().to_owned(),
            }
        } else if is_deep && !found(view.findings, Skill::DocLookup) {
            AgentStep::Lookup {
                skill: Skill::DocLookup,
                query: view.category.as_str().to_owned(),
            }
        } else if (is_deep || is_medium) && !found(view.findings, Skill::SelfCritique) {
            AgentStep::Lookup {
                skill: Skill::SelfCritique,
                query: "review the working draft".to_owned(),
            }
        } else if !view.has_draft {
            AgentStep::Compose
        } else if (is_deep || is_medium) && !view.revised {
            AgentStep::Revise { reason: "folding in the self-critique".to_owned() }
        } else {
            AgentStep::Finish
        };
        Ok(step)
    }

    pub fn run_skill(&self, skill: Skill, view: &AgentLoopView<'_>) -> (res: Result<
        Finding,
        ModelError,
    >)
        ensures
            res matches Ok(finding) && finding@ == fixture_finding(view@.category, skill),
    {
        let finding = match skill {
            Skill::RemedyLookup => catalog_lookup(view.category),
            Skill::SelfCritique => Finding {
                skill,
                summary: "Self-critique: the draft leans on vibes where a type would do.".to_owned(),
                detail:
                    "Name the invariant and make the illegal state unrepresentable before shipping.".to_owned(),
            },
            Skill::DocLookup => simulated_doc_lookup(),
        };
        Ok(finding)
    }

    pub fn mode(&self) -> (res: &'static str)
        ensures
            res@ == "fixture"@,
    {
        "fixture"
    }
}

// ---------------------------------------------------------------------------
// Laws of the loop
// ---------------------------------------------------------------------------
/// The loop's state once a step of it has been performed.
pub open spec fn performed(view: LoopView, step: AgentStepView) -> LoopView {
    let next = LoopView { iteration: (view.iteration + 1) as u8, ..view };
    match step {
        AgentStepView::Lookup { skill, .. } => LoopView {
            findings: view.findings.push(fixture_finding(view.category, skill)),
            ..next
        },
        AgentStepView::Compose => LoopView { has_draft: true, ..next },
        AgentStepView::Revise { .. } => LoopView { has_draft: true, revised: true, ..next },
        AgentStepView::Finish => view,
    }
}

/// The loop's state after the first `turns` turns of the offline backend.
pub open spec fn after_turns(view: LoopView, turns: nat) -> LoopView
    decreases turns,
{
    if turns == 0 {
        view
    } else {
        let before = after_turns(view, (turns - 1) as nat);
        performed(before, fixture_step(before))
    }
}

spec fn one_if(b: bool) -> int {
    if b {
        1
    } else {
        0
    }
}

/// How many steps the offline backend has yet to take before it finishes.
pub closed spec fn steps_left(view: LoopView) -> int {
    let considered = deep(view.category) || medium(view.category);
    one_if(!has_finding(view.findings, Skill::RemedyLookup)) + one_if(
        deep(view.category) && !has_finding(view.findings, Skill::DocLookup),
    ) + one_if(considered && !has_finding(view.findings, Skill::SelfCritique)) + one_if(
        !view.has_draft,
    ) + one_if(considered && !view.revised)
}

proof fn lemma_finding_added(findings: Seq<FindingView>, finding: FindingView, skill: Skill)
    ensures
        has_finding(findings.push(finding), skill) == (has_finding(findings, skill)
            || finding.skill == skill),
{
    let more = findings.push(finding);
    if finding.skill == skill {
        assert(more[findings.len() as int].skill == skill);
    }
    if has_finding(findings, skill) {
        let i = choose|i: int| 0 <= i < findings.len() && (#[trigger] findings[i]).skill == skill;
        assert(more[i].skill == skill);
    }
}

/// The loop always converges: from any state the offline backend has at most
/// five steps left, each step it takes is one of them, and it finishes exactly
/// when none is left, with a draft in hand.
pub proof fn law_fixture_loop_converges(view: LoopView)
    ensures
        0 <= steps_left(view) <= 5,
        fixture_step(view) is Finish <==> steps_left(view) == 0,
        fixture_step(view) is Finish ==> view.has_draft,
        !(fixture_step(view) is Finish) ==> steps_left(performed(view, fixture_step(view)))
            == steps_left(view) - 1,
{
    lemma_traces(view);
}

/// From any state the offline backend finishes within six turns, which is the
/// loop's hard cap.
pub proof fn law_fixture_loop_finishes_within_the_cap(view: LoopView)
    ensures
        fixture_step(after_turns(view, 5)) is Finish,
        after_turns(view, 5).has_draft,
{
    reveal_with_fuel(after_turns, 6);
    law_fixture_loop_converges(view);
    law_fixture_loop_converges(after_turns(view, 1));
    law_fixture_loop_converges(after_turns(view, 2));
    law_fixture_loop_converges(after_turns(view, 3));
    law_fixture_loop_converges(after_turns(view, 4));
    law_fixture_loop_converges(after_turns(view, 5));
}

/// The loop before its first turn.
pub open spec fn fresh_loop(text: Seq<char>, category: Category) -> LoopView {
    LoopView {
        text,
        category,
        findings: Seq::empty(),
        has_draft: false,
        revised: false,
        iteration: 0,
    }
}

/// A step that consults one skill.
pub open spec fn looks_up(step: AgentStepView, skill: Skill) -> bool {
    step matches AgentStepView::Lookup { skill: used, .. } && used == skill
}

proof fn lemma_trace(view: LoopView, skill: Skill)
    ensures
        has_finding(performed(view, fixture_step(view)).findings, skill) == (has_finding(
            view.findings,
            skill,
        ) || looks_up(fixture_step(view), skill)),
{
    if let AgentStepView::Lookup { skill: used, .. } = fixture_step(view) {
        lemma_finding_added(view.findings, fixture_finding(view.category, used), skill);
    }
}

proof fn lemma_traces(view: LoopView)
    ensures
        forall|skill: Skill|
            #[trigger] has_finding(performed(view, fixture_step(view)).findings, skill) == (
            has_finding(view.findings, skill) || looks_up(fixture_step(view), skill)),
{
    assert forall|skill: Skill|
        #[trigger] has_finding(performed(view, fixture_step(view)).findings, skill) == (
        has_finding(view.findings, skill) || looks_up(fixture_step(view), skill)) by {
        lemma_trace(view, skill);
    }
}

/// The path through the loop depends on the category alone. A deep category
/// consults remedy, docs and critique, composes, revises and finishes; a medium
/// one leaves the docs out; any other consults the remedy, composes and
/// finishes.
pub proof fn law_category_decides_the_path(text: Seq<char>, category: Category)
    ensures
        ({
            let step = |turn: nat| fixture_step(after_turns(fresh_loop(text, category), turn));
            &&& looks_up(step(0), Skill::RemedyLookup)
            &&& deep(category) ==> looks_up(step(1), Skill::DocLookup) && looks_up(
                step(2),
                Skill::SelfCritique,
            ) && step(3) is Compose && step(4) is Revise && step(5) is Finish
            &&& medium(category) ==> looks_up(step(1), Skill::SelfCritique) && step(2) is Compose
                && step(3) is Revise && step(4) is Finish
            &&& !deep(category) && !medium(category) ==> step(1) is Compose && step(2) is Finish
        }),
{
    reveal_with_fuel(after_turns, 6);
    let v0 = fresh_loop(text, category);
    let v1 = after_turns(v0, 1);
    let v2 = after_turns(v0, 2);
    let v3 = after_turns(v0, 3);
    let v4 = after_turns(v0, 4);
    lemma_traces(v0);
    lemma_traces(v1);
    lemma_traces(v2);
    lemma_traces(v3);
    lemma_traces(v4);
}

// ---------------------------------------------------------------------------
// Laws of composing
// ---------------------------------------------------------------------------
proof fn lemma_first_visible(s: Seq<char>)
    requires
        s.len() > 0,
        !is_white_space(s[0]),
    ensures
        !blank(s),
{
}

proof fn lemma_fixed_texts_fit(category: Category)
    ensures
        !blank(fixed_judgment(category)),
        fixed_judgment(category).len() <= 280,
        !blank(fixed_penance(category)),
        fixed_penance(category).len() <= 280,
{
    reveal_strlit("Concurrency by astrology.");
    reveal_strlit("A small offering to the borrow-checker gods.");
    reveal_strlit("Error handling through optimism.");
    reveal_strlit("A safety case consisting mainly of vibes.");
    reveal_strlit("Congratulations on founding a platform team by accident.");
    reveal_strlit("A schema was present in spirit.");
    reveal_strlit("Production remains your most loyal test runner.");
    reveal_strlit("An undocumented invariant has entered the chat.");
    lemma_first_visible(fixed_judgment(category));
    reveal_strlit("Write a loop that prints foo then bar, in order, with no sleeps.");
    reveal_strlit("Copy out, by hand, who owns the value you kept cloning.");
    reveal_strlit("Write out the error you optimistically unwrapped away.");
    reveal_strlit("Transcribe the SAFETY comment you wish you had written.");
    reveal_strlit("Write the README line your company-running script deserves.");
    reveal_strlit("Declare the domain type you should have parsed into.");
    reveal_strlit("Write the assertion production has been running for you.");
    reveal_strlit("Turn the hidden assumption into a written invariant.");
    lemma_first_visible(fixed_penance(category));
}

proof fn lemma_penance_lines_fit(category: Category)
    ensures
        !blank(fixed_penance_line(category)),
        fixed_penance_line(category).len() <= 48,
        single_line(fixed_penance_line(category)),
{
    reveal_strlit("foo bar // no sleep");
    reveal_strlit("I know who owns this");
    reveal_strlit("return Err(the_truth)");
    reveal_strlit("// SAFETY: explained, honest");
    reveal_strlit("# TODO: make me a real tool");
    reveal_strlit("let value: Newtype = ...");
    reveal_strlit("assert!(it_actually_works())");
    reveal_strlit("// invariant: must hold");
    lemma_first_visible(fixed_penance_line(category));
}

proof fn lemma_shown_confession_fits(text: Seq<char>, category: Category)
    ensures
        !blank(shown_confession(text, category)),
        shown_confession(text, category).len() <= 180,
{
    reveal_strlit("I fixed the race condition with a sleep.");
    reveal_strlit("I clone everything until it compiles.");
    reveal_strlit("I wrote a Python script that now runs the company.");
    reveal_strlit("Our production database is a CSV file.");
    reveal_strlit("I used unsafe because I was tired.");
    reveal_strlit("A developer confessed to an undocumented shortcut involving ");
    reveal_strlit(".");
    reveal_strlit("concurrency");
    reveal_strlit("ownership");
    reveal_strlit("error_handling");
    reveal_strlit("unsafe");
    reveal_strlit("automation");
    reveal_strlit("data");
    reveal_strlit("testing");
    reveal_strlit("other");
    lemma_first_visible(shown_confession(text, category));
}

/// Whatever the confession and the findings, the rating stays between one and
/// five, and the award scores follow from it.
pub proof fn law_ratings_stay_in_range(
    text: Seq<char>,
    category: Category,
    remedy: Option<RemedyView>,
    findings: Seq<FindingView>,
)
    ensures
        ({
            let j = composed(text, category, remedy, findings);
            &&& 1 <= j.severity <= 5
            &&& j.award_scores.most_cursed == 18 * j.severity
            &&& j.award_scores.most_relatable <= 100
            &&& j.award_scores.most_needlessly_rewritten <= 100
        }),
{
}

/// Only the advice can make a composed judgment unfit for the stage: it passes
/// validation exactly when its prescription and its tools do.
pub proof fn law_only_advice_can_be_unfit(
    text: Seq<char>,
    category: Category,
    remedy: Option<RemedyView>,
    findings: Seq<FindingView>,
)
    ensures
        ({
            let j = composed(text, category, remedy, findings);
            judgment_fault(j) is None <==> !blank(j.prescription) && j.prescription.len() <= 280
                && 1 <= j.suggested_tools.len() <= 5 && forall|i: int|
                0 <= i < j.suggested_tools.len() ==> tool_fits(#[trigger] j.suggested_tools[i])
        }),
{
    lemma_fixed_texts_fit(category);
    lemma_penance_lines_fit(category);
    lemma_shown_confession_fits(text, category);
    law_ratings_stay_in_range(text, category, remedy, findings);
}

proof fn lemma_docs_keep(guidance: Seq<char>, findings: Seq<FindingView>)
    requires
        shows_something(guidance),
        guidance.len() <= MAX_SHORT_FIELD_CHARS,
    ensures
        shows_something(with_docs(guidance, findings)),
        with_docs(guidance, findings).len() <= MAX_SHORT_FIELD_CHARS,
    decreases findings.len(),
{
    if findings.len() > 0 {
        lemma_docs_keep(guidance, findings.drop_last());
        let before = with_docs(guidance, findings.drop_last());
        if findings.last().skill == Skill::DocLookup {
            let text = before + " Docs: "@ + findings.last().summary;
            let i = choose|i: int| 0 <= i < before.len() && !is_gap(#[trigger] before[i]);
            assert(text[i] == before[i]);
            law_stage_text_keeps_visible_text(text, MAX_SHORT_FIELD_CHARS as nat, i);
        }
    }
}

/// A finding that proposes no tool, or one that may go on stage.
pub open spec fn proposes_fit(finding: FindingView) -> bool {
    finding.skill == Skill::RemedyLookup ==> (proposed_tool(finding) matches Some(tool)
        ==> tool_fits(tool))
}

proof fn lemma_tools_keep(tools: Seq<Seq<char>>, findings: Seq<FindingView>)
    requires
        1 <= tools.len() <= 5,
        forall|i: int| 0 <= i < tools.len() ==> tool_fits(#[trigger] tools[i]),
        forall|i: int|
            0 <= i < findings.len() ==> proposes_fit(#[trigger] findings[i]),
    ensures
        1 <= with_tools(tools, findings).len() <= 5,
        forall|i: int|
            0 <= i < with_tools(tools, findings).len() ==> tool_fits(
                #[trigger] with_tools(tools, findings)[i],
            ),
    decreases findings.len(),
{
    if findings.len() > 0 {
        assert forall|i: int| 0 <= i < findings.drop_last().len() implies proposes_fit(
            #[trigger] findings.drop_last()[i],
        ) by {
            assert(findings.drop_last()[i] == findings[i]);
        }
        lemma_tools_keep(tools, findings.drop_last());
        assert(findings.last() == findings[findings.len() - 1]);
    }
}

/// A judgment composed from presentable advice passes validation, with any
/// findings whose proposed tools are presentable. Without an approved remedy the
/// catalog's entry is taken, which is.
pub proof fn law_composed_judgment_is_valid(
    text: Seq<char>,
    category: Category,
    remedy: Option<RemedyView>,
    findings: Seq<FindingView>,
)
    requires
        remedy matches Some(advice) ==> presentable(advice),
        forall|i: int|
            0 <= i < findings.len() ==> proposes_fit(#[trigger] findings[i]),
    ensures
        judgment_fault(composed(text, category, remedy, findings)) is None,
{
    law_catalog_is_presentable(category);
    let advice = remedy_or_catalog(remedy, category);
    lemma_docs_keep(advice.guidance, findings);
    lemma_tools_keep(advice.suggested_tools, findings);
    law_only_advice_can_be_unfit(text, category, remedy, findings);
    let p = with_docs(advice.guidance, findings);
    let i = choose|i: int| 0 <= i < p.len() && !is_gap(#[trigger] p[i]);
    assert(!is_white_space(p[i]));
}

/// The first self-critique re-rates a draft: its severity rises by one, up to
/// five, and its reason is another. Nothing else of the draft changes but the
/// award that follows from the severity.
pub proof fn law_self_critique_re_rates(
    text: Seq<char>,
    category: Category,
    remedy: Option<RemedyView>,
    findings: Seq<FindingView>,
    critique: FindingView,
)
    requires
        count_of(findings, Skill::SelfCritique) == 0,
        critique.skill == Skill::SelfCritique,
    ensures
        ({
            let first = composed(text, category, remedy, findings);
            let revised = composed(text, category, remedy, findings.push(critique));
            &&& revised.severity == if first.severity < 5 {
                (first.severity + 1) as u8
            } else {
                5u8
            }
            &&& revised.severity_reason != first.severity_reason
            &&& revised == JudgmentView {
                severity: revised.severity,
                severity_reason: revised.severity_reason,
                award_scores: revised.award_scores,
                ..first
            }
        }),
{
    assert(findings.push(critique).drop_last() =~= findings);
    reveal_strlit("escalated after self-critique");
    reveal_strlit("prod-facing unsafe");
    reveal_strlit("correctness risk");
    reveal_strlit("cosmetic nit");
    reveal_strlit("minor tech debt");
    reveal_strlit("worth a cleanup");
    assert("escalated after self-critique"@.len() == 29);
}

/// A documentation finding touches only the prescription.
pub proof fn law_doc_lookup_touches_only_the_prescription(
    text: Seq<char>,
    category: Category,
    remedy: Option<RemedyView>,
    findings: Seq<FindingView>,
    doc: FindingView,
)
    requires
        doc.skill == Skill::DocLookup,
    ensures
        ({
            let base = composed(text, category, remedy, findings);
            let with_doc = composed(text, category, remedy, findings.push(doc));
            with_doc == JudgmentView { prescription: with_doc.prescription, ..base }
        }),
{
    assert(findings.push(doc).drop_last() =~= findings);
}

/// A text that is not known to be safe is never shown: what stands in its place
/// depends on the category alone.
pub proof fn law_unknown_confessions_are_not_quoted(
    text: Seq<char>,
    other: Seq<char>,
    category: Category,
)
    requires
        forall|i: int|
            0 <= i < 5 ==> !same_ignoring_case(#[trigger] safe_confessions()[i], trimmed(text)),
        forall|i: int|
            0 <= i < 5 ==> !same_ignoring_case(#[trigger] safe_confessions()[i], trimmed(other)),
    ensures
        shown_confession(text, category) == shown_confession(other, category),
{
    assert(!same_ignoring_case(safe_confessions()[0], trimmed(text)));
    assert(!same_ignoring_case(safe_confessions()[0], trimmed(other)));
}

proof fn lemma_catalog_tools_hold_no_comma(category: Category)
    ensures
        forall|k: int, i: int|
            0 <= k < 3 && 0 <= i < catalog_tools(category)[k].len() ==> #[trigger] catalog_tools(
                category,
            )[k][i] != ',',
        forall|k: int| 0 <= k < 3 ==> (#[trigger] catalog_tools(category)[k]).len() > 0,
{
    reveal_strlit("Tokio channels");
    reveal_strlit("JoinSet");
    reveal_strlit("tracing");
    reveal_strlit("borrow checker");
    reveal_strlit("Arc");
    reveal_strlit("Cow");
    reveal_strlit("Result");
    reveal_strlit("thiserror");
    reveal_strlit("anyhow");
    reveal_strlit("SAFETY comments");
    reveal_strlit("Miri");
    reveal_strlit("cargo-fuzz");
    reveal_strlit("clap");
    reveal_strlit("serde");
    reveal_strlit("newtypes");
    reveal_strlit("validator");
    reveal_strlit("cargo test");
    reveal_strlit("proptest");
    reveal_strlit("insta");
    reveal_strlit("enums");
    reveal_strlit("clippy");
}

proof fn lemma_all_nonempty(list: Seq<Seq<char>>)
    requires
        forall|k: int| 0 <= k < list.len() ==> (#[trigger] list[k]).len() > 0,
    ensures
        nonempty_parts(list) == list,
    decreases list.len(),
{
    reveal(Seq::filter);
    if list.len() > 0 {
        let rest = list.drop_last();
        assert forall|k: int| 0 <= k < rest.len() implies (#[trigger] rest[k]).len() > 0 by {
            assert(rest[k] == list[k]);
        }
        lemma_all_nonempty(rest);
        assert(rest.push(list.last()) =~= list);
        assert(list.last() == list[list.len() - 1]);
    }
}

/// A catalog entry survives its way through a finding: what a remedy lookup
/// writes down, the loop reads back as the same remedy.
pub proof fn law_catalog_survives_a_finding(category: Category)
    ensures
        remedy_from(remedy_finding(category), category) == catalog_remedy(category),
        proposed_tool(remedy_finding(category)) == Some(catalog_tools(category)[0]),
{
    reveal_strlit(", ");
    let tools = catalog_tools(category);
    lemma_catalog_tools_hold_no_comma(category);
    law_catalog_is_presentable(category);
    assert(catalog_remedy(category).suggested_tools == tools);
    assert(tools.len() == 3);
    lemma_split_undoes_join(tools, ", "@);
    lemma_all_nonempty(tools);
    assert(tool_fits(catalog_remedy(category).suggested_tools[0]));
    assert(tools[0].len() > 0);
}

proof fn lemma_first_of(findings: Seq<FindingView>, skill: Skill)
    ensures
        first_of(findings, skill) matches Some(finding) ==> finding.skill == skill && exists|i: int|
            0 <= i < findings.len() && #[trigger] findings[i] == finding,
    decreases findings.len(),
{
    if findings.len() > 0 && findings[0].skill != skill {
        lemma_first_of(findings.drop_first(), skill);
        if let Some(finding) = first_of(findings.drop_first(), skill) {
            let i = choose|i: int|
                0 <= i < findings.drop_first().len() && #[trigger] findings.drop_first()[i]
                    == finding;
            assert(findings[i + 1] == finding);
        }
    }
}

/// Whatever the confession says and however far the loop has come, the judgment
/// that the offline backend composes from its own findings passes validation.
pub proof fn law_loop_judgment_is_valid(
    text: Seq<char>,
    category: Category,
    findings: Seq<FindingView>,
)
    requires
        forall|i: int|
            0 <= i < findings.len() ==> #[trigger] findings[i] == fixture_finding(
                category,
                findings[i].skill,
            ),
    ensures
        judgment_fault(composed(text, category, approved_remedy(findings, category), findings))
            is None,
{
    law_catalog_survives_a_finding(category);
    law_catalog_is_presentable(category);
    lemma_first_of(findings, Skill::RemedyLookup);
    assert(tool_fits(catalog_remedy(category).suggested_tools[0]));
    assert forall|i: int| 0 <= i < findings.len() implies proposes_fit(
        #[trigger] findings[i],
    ) by {}
    law_composed_judgment_is_valid(text, category, approved_remedy(findings, category), findings);
}

/// One of the words occurs in a text, in whatever case it is written there.
pub open spec fn says(text: Seq<char>, words: Seq<Seq<char>>) -> bool {
    exists|i: int| 0 <= i < words.len() && has(ascii_lowercase(text), #[trigger] words[i])
}

/// The words that a category goes by, in the order in which categories are
/// tried.
pub open spec fn category_words(category: Category) -> Seq<Seq<char>> {
    match category {
        Category::Concurrency => seq!["race"@, "thread"@, "sleep"@, "deadlock"@, "async"@],
        Category::Ownership => seq!["clone"@, "borrow"@, "lifetime"@, "arc<"@],
        Category::ErrorHandling => seq!["unwrap"@, "panic"@, "error"@, "exception"@],
        Category::Unsafe => seq!["unsafe"@, "transmute"@, "raw pointer"@],
        Category::Automation => seq!["script"@, "python"@, "bash"@, "cron"@],
        Category::Data => seq!["csv"@, "database"@, "json"@, "regex"@],
        Category::Testing => seq!["test"@, "works on my machine"@],
        Category::Other => Seq::empty(),
    }
}

proof fn lemma_says(text: Seq<char>, words: Seq<Seq<char>>, i: int)
    requires
        0 <= i < words.len(),
    ensures
        has(ascii_lowercase(text), words[i]) ==> says(text, words),
{
}

/// A confession is of the first category that one of its words names, and of
/// none of them where no word does.
pub proof fn law_words_name_the_category(text: Seq<char>)
    ensures
        category_of(text) == if says(text, category_words(Category::Concurrency)) {
            Category::Concurrency
        } else if says(text, category_words(Category::Ownership)) {
            Category::Ownership
        } else if says(text, category_words(Category::ErrorHandling)) {
            Category::ErrorHandling
        } else if says(text, category_words(Category::Unsafe)) {
            Category::Unsafe
        } else if says(text, category_words(Category::Automation)) {
            Category::Automation
        } else if says(text, category_words(Category::Data)) {
            Category::Data
        } else if says(text, category_words(Category::Testing)) {
            Category::Testing
        } else {
            Category::Other
        },
{
    let a = category_words(Category::Concurrency);
    lemma_says(text, a, 0);
    lemma_says(text, a, 1);
    lemma_says(text, a, 2);
    lemma_says(text, a, 3);
    lemma_says(text, a, 4);
    let b = category_words(Category::Ownership);
    lemma_says(text, b, 0);
    lemma_says(text, b, 1);
    lemma_says(text, b, 2);
    lemma_says(text, b, 3);
    let c = category_words(Category::ErrorHandling);
    lemma_says(text, c, 0);
    lemma_says(text, c, 1);
    lemma_says(text, c, 2);
    lemma_says(text, c, 3);
    let d = category_words(Category::Unsafe);
    lemma_says(text, d, 0);
    lemma_says(text, d, 1);
    lemma_says(text, d, 2);
    let e = category_words(Category::Automation);
    lemma_says(text, e, 0);
    lemma_says(text, e, 1);
    lemma_says(text, e, 2);
    lemma_says(text, e, 3);
    let f = category_words(Category::Data);
    lemma_says(text, f, 0);
    lemma_says(text, f, 1);
    lemma_says(text, f, 2);
    lemma_says(text, f, 3);
    let g = category_words(Category::Testing);
    lemma_says(text, g, 0);
    lemma_says(text, g, 1);
}

/// The words of a confession rate its draft: what touches production or is
/// unsafe is worst, then what risks correctness; what is cosmetic is least, then
/// minor debt; anything else is in the middle. The scores go by words too.
pub proof fn law_words_rate_the_draft(
    text: Seq<char>,
    category: Category,
    remedy: Option<RemedyView>,
)
    ensures
        ({
            let j = composed(text, category, remedy, Seq::empty());
            let worst = seq!["production"@, "unsafe"@];
            let risky = seq!["sleep"@, "clone"@, "panic"@, "race"@];
            let cosmetic = seq![
                "typo"@,
                "cosmetic"@,
                "nit"@,
                "whitespace"@,
                "rename"@,
                "indent"@,
            ];
            let minor = seq!["todo"@, "comment"@, "naming"@, "style"@];
            &&& (j.severity, j.severity_reason) == if says(text, worst) {
                (5u8, "prod-facing unsafe"@)
            } else if says(text, risky) {
                (4u8, "correctness risk"@)
            } else if says(text, cosmetic) {
                (1u8, "cosmetic nit"@)
            } else if says(text, minor) {
                (2u8, "minor tech debt"@)
            } else {
                (3u8, "worth a cleanup"@)
            }
            &&& j.award_scores.most_relatable == if says(text, seq!["clone"@, "python"@]) {
                92u8
            } else {
                68u8
            }
            &&& j.award_scores.most_needlessly_rewritten == if says(
                text,
                seq!["rewrite"@, "rust"@],
            ) {
                97u8
            } else {
                44u8
            }
            &&& j.category == category
            &&& j.sentence == j.penance
        }),
{
    let worst = seq!["production"@, "unsafe"@];
    lemma_says(text, worst, 0);
    lemma_says(text, worst, 1);
    let risky = seq!["sleep"@, "clone"@, "panic"@, "race"@];
    lemma_says(text, risky, 0);
    lemma_says(text, risky, 1);
    lemma_says(text, risky, 2);
    lemma_says(text, risky, 3);
    let cosmetic = seq!["typo"@, "cosmetic"@, "nit"@, "whitespace"@, "rename"@, "indent"@];
    lemma_says(text, cosmetic, 0);
    lemma_says(text, cosmetic, 1);
    lemma_says(text, cosmetic, 2);
    lemma_says(text, cosmetic, 3);
    lemma_says(text, cosmetic, 4);
    lemma_says(text, cosmetic, 5);
    let minor = seq!["todo"@, "comment"@, "naming"@, "style"@];
    lemma_says(text, minor, 0);
    lemma_says(text, minor, 1);
    lemma_says(text, minor, 2);
    lemma_says(text, minor, 3);
    let relatable = seq!["clone"@, "python"@];
    lemma_says(text, relatable, 0);
    lemma_says(text, relatable, 1);
    let rewritten = seq!["rewrite"@, "rust"@];
    lemma_says(text, rewritten, 0);
    lemma_says(text, rewritten, 1);
    assert(count_of(Seq::empty(), Skill::SelfCritique) == 0);
}

/// Every self-critique raises the severity by one, up to five.
pub proof fn law_every_critique_raises_the_severity(
    text: Seq<char>,
    category: Category,
    remedy: Option<RemedyView>,
    findings: Seq<FindingView>,
    finding: FindingView,
)
    ensures
        ({
            let before = composed(text, category, remedy, findings).severity;
            composed(text, category, remedy, findings.push(finding)).severity == if finding.skill
                == Skill::SelfCritique && before < 5 {
                before + 1
            } else {
                before as int
            }
        }),
{
    assert(findings.push(finding).drop_last() =~= findings);
    assert(findings.push(finding).last() == finding);
}

/// A draft gives the advice of the remedy it is composed with, or of the catalog
/// where there is none; each documentation finding is added to the prescription,
/// and each remedy finding adds the first tool it names, if that is new and there
/// is room for it.
pub proof fn law_a_draft_gives_the_advice_it_was_given(
    text: Seq<char>,
    category: Category,
    remedy: Option<RemedyView>,
    findings: Seq<FindingView>,
    finding: FindingView,
    tool: Seq<char>,
)
    ensures
        ({
            let bare = composed(text, category, remedy, Seq::empty());
            let before = composed(text, category, remedy, findings);
            let after = composed(text, category, remedy, findings.push(finding));
            &&& remedy matches Some(advice) ==> bare.prescription == advice.guidance
                && bare.suggested_tools == advice.suggested_tools
            &&& remedy is None ==> bare.prescription == catalog_remedy(category).guidance
                && bare.suggested_tools == catalog_remedy(category).suggested_tools
            &&& finding.skill == Skill::DocLookup ==> after.prescription == stage_text(
                before.prescription + " Docs: "@ + finding.summary,
                280,
            )
            &&& finding.skill != Skill::DocLookup ==> after.prescription == before.prescription
            &&& finding.skill != Skill::RemedyLookup ==> after.suggested_tools
                == before.suggested_tools
            &&& finding.skill == Skill::RemedyLookup && finding.detail == tool && 0 < tool.len()
                <= 64 && !tool.contains(',') ==> after.suggested_tools == if before.suggested_tools.contains(
                tool,
            ) || before.suggested_tools.len() >= 5 {
                before.suggested_tools
            } else {
                before.suggested_tools.push(tool)
            }
        }),
{
    assert(findings.push(finding).drop_last() =~= findings);
    assert(findings.push(finding).last() == finding);
    let sep = ", "@;
    reveal_strlit(", ");
    if finding.detail == tool && !tool.contains(',') {
        let list = seq![tool];
        assert forall|i: int| !occurs_at(tool, sep, i) by {
            if occurs_at(tool, sep, i) {
                assert(tool.subrange(i, i + 2)[0] == ',');
                assert(tool[i] == ',');
            }
        }
        lemma_position_from(tool, sep, 0);
        assert(parts(tool, sep) =~= seq![tool]);
    }
}

/// A text that is known to be safe is shown as it is kept; any other is stood
/// for by its category.
pub proof fn law_what_is_shown(text: Seq<char>, category: Category, i: int)
    requires
        0 <= i < 5,
    ensures
        same_ignoring_case(safe_confessions()[i], trimmed(text)) ==> safe_confessions().contains(
            shown_confession(text, category),
        ) && same_ignoring_case(shown_confession(text, category), trimmed(text)),
        (forall|k: int|
            0 <= k < 5 ==> !same_ignoring_case(#[trigger] safe_confessions()[k], trimmed(text)))
            ==> shown_confession(text, category)
            == "A developer confessed to an undocumented shortcut involving "@ + spaced(
            category_name(category),
        ) + "."@,
{
    let safe = safe_confessions();
    assert(safe[0] == safe[0] && safe[1] == safe[1] && safe[2] == safe[2] && safe[3] == safe[3]
        && safe[4] == safe[4]);
}

} // verus!
