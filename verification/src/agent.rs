//! What every agent backend shares: its errors, its view of the autonomous loop,
//! the approved remedy catalog and the text that may go on stage.
use vstd::prelude::*;

use crate::domain::{
    finding_views, tool_fits, AgentStep, AgentStepView, Category, Finding, FindingView, Remedy,
    RemedyView, Skill, MAX_SHORT_FIELD_CHARS,
};
use crate::moderation::is_gap;
use crate::text::{
    blank, control, is_control, is_white_space, join, joined, law_trimming_takes_what_is_around,
    lemma_trimmed, texts, to_chars, trim, trimmed,
};

verus! {

// ---------------------------------------------------------------------------
// Errors
// ---------------------------------------------------------------------------
/// Why a model call failed.
#[derive(Debug, PartialEq, Eq)]
pub enum ModelError {
    Retryable(String),
    Permanent(String),
}

#[verifier::ext_equal]
pub enum ModelErrorView {
    Retryable(Seq<char>),
    Permanent(Seq<char>),
}

impl View for ModelError {
    type V = ModelErrorView;

    open spec fn view(&self) -> ModelErrorView {
        match self {
            ModelError::Retryable(detail) => ModelErrorView::Retryable(detail@),
            ModelError::Permanent(detail) => ModelErrorView::Permanent(detail@),
        }
    }
}

/// How a model failure is worded.
pub open spec fn model_error_text(error: ModelErrorView) -> Seq<char> {
    match error {
        ModelErrorView::Retryable(detail) => "temporary model failure: "@ + detail,
        ModelErrorView::Permanent(detail) => "permanent model failure: "@ + detail,
    }
}

impl ModelError {
    pub fn is_retryable(&self) -> (res: bool)
        ensures
            res == (self@ is Retryable),
    {
        match self {
            ModelError::Retryable(_) => true,
            ModelError::Permanent(_) => false,
        }
    }

    pub fn message(&self) -> (res: String)
        ensures
            res@ == model_error_text(self@),
    {
        match self {
            ModelError::Retryable(detail) => {
                let mut out = "temporary model failure: ".to_owned();
                out.append(detail.as_str());
                out
            },
            ModelError::Permanent(detail) => {
                let mut out = "permanent model failure: ".to_owned();
                out.append(detail.as_str());
                out
            },
        }
    }
}

// ---------------------------------------------------------------------------
// The loop's state, as a backend sees it
// ---------------------------------------------------------------------------
/// A read-only view of the autonomous loop's state, handed to the backend so it
/// can decide the next step or run a skill without owning the durable state.
#[derive(Debug, PartialEq, Eq)]
pub struct AgentLoopView<'a> {
    pub text: &'a str,
    pub category: Category,
    pub findings: &'a [Finding],
    pub has_draft: bool,
    pub revised: bool,
    pub iteration: u8,
}

#[verifier::ext_equal]
pub struct LoopView {
    pub text: Seq<char>,
    pub category: Category,
    pub findings: Seq<FindingView>,
    pub has_draft: bool,
    pub revised: bool,
    pub iteration: u8,
}

impl<'a> View for AgentLoopView<'a> {
    type V = LoopView;

    open spec fn view(&self) -> LoopView {
        LoopView {
            text: self.text@,
            category: self.category,
            findings: finding_views(self.findings@),
            has_draft: self.has_draft,
            revised: self.revised,
            iteration: self.iteration,
        }
    }
}

/// The step of a backend that has no policy of its own: compose once, then
/// finish.
pub open spec fn default_step(view: LoopView) -> AgentStepView {
    if view.has_draft {
        AgentStepView::Finish
    } else {
        AgentStepView::Compose
    }
}

/// The variant's name of a skill.
pub open spec fn skill_variant(skill: Skill) -> Seq<char> {
    match skill {
        Skill::RemedyLookup => "RemedyLookup"@,
        Skill::DocLookup => "DocLookup"@,
        Skill::SelfCritique => "SelfCritique"@,
    }
}

/// Chooses the next step for a backend that has not opted into the loop.
pub fn default_next_step(view: &AgentLoopView<'_>) -> (res: AgentStep)
    ensures
        res@ == default_step(view@),
{
    if view.has_draft {
        AgentStep::Finish
    } else {
        AgentStep::Compose
    }
}

/// The placeholder finding of a backend without research skills.
pub fn default_finding(skill: Skill) -> (res: Finding)
    ensures
        res@ == (FindingView {
            skill,
            summary: skill_variant(skill) + " produced no additional detail."@,
            detail: Seq::empty(),
        }),
{
    let mut summary = match skill {
        Skill::RemedyLookup => "RemedyLookup",
        Skill::DocLookup => "DocLookup",
        Skill::SelfCritique => "SelfCritique",
    }.to_owned();
    summary.append(" produced no additional detail.");
    Finding { skill, summary, detail: String::new() }
}

// ---------------------------------------------------------------------------
// The approved remedy catalog
// ---------------------------------------------------------------------------
/// The approved guidance for a category.
pub open spec fn catalog_guidance(category: Category) -> Seq<char> {
    match category {
        Category::Concurrency =>
            "Replace timing guesses with explicit task coordination and typed messages."@,
        Category::Ownership =>
            "Model ownership deliberately; borrow where lifetimes are clear and share with Arc only where needed."@,
        Category::ErrorHandling =>
            "Make failure part of the type and preserve context at system boundaries."@,
        Category::Unsafe =>
            "Shrink unsafe code to one audited boundary and expose a safe typed API around it."@,
        Category::Automation =>
            "Turn the script's implicit contract into typed inputs, observable steps, and repeatable execution."@,
        Category::Data =>
            "Parse once into domain types and validate invariants before the data reaches business logic."@,
        Category::Testing =>
            "Move the assumption into a reproducible test and let generated cases find the embarrassing edge."@,
        Category::Other =>
            "Represent the hidden assumption explicitly, then make invalid states difficult to construct."@,
    }
}

/// The approved tools for a category.
pub open spec fn catalog_tools(category: Category) -> Seq<Seq<char>> {
    match category {
        Category::Concurrency => seq!["Tokio channels"@, "JoinSet"@, "tracing"@],
        Category::Ownership => seq!["borrow checker"@, "Arc"@, "Cow"@],
        Category::ErrorHandling => seq!["Result"@, "thiserror"@, "anyhow"@],
        Category::Unsafe => seq!["SAFETY comments"@, "Miri"@, "cargo-fuzz"@],
        Category::Automation => seq!["clap"@, "serde"@, "tracing"@],
        Category::Data => seq!["serde"@, "newtypes"@, "validator"@],
        Category::Testing => seq!["cargo test"@, "proptest"@, "insta"@],
        Category::Other => seq!["enums"@, "newtypes"@, "clippy"@],
    }
}

/// The catalog entry for a category.
pub open spec fn catalog_remedy(category: Category) -> RemedyView {
    RemedyView {
        category,
        guidance: catalog_guidance(category),
        suggested_tools: catalog_tools(category),
    }
}

fn three(a: &str, b: &str, c: &str) -> (res: Vec<String>)
    ensures
        texts(res@) == seq![a@, b@, c@],
{
    let mut out: Vec<String> = Vec::new();
    out.push(a.to_owned());
    out.push(b.to_owned());
    out.push(c.to_owned());
    assert(texts(out@) =~= seq![a@, b@, c@]);
    out
}

/// The approved remedy catalog entry for a category. This bundled catalog, not
/// model prose, owns the guidance and suggested tools.
pub fn remedy_for(category: Category) -> (res: Remedy)
    ensures
        res@ == catalog_remedy(category),
{
    let (guidance, suggested_tools) = match category {
        Category::Concurrency => (
            "Replace timing guesses with explicit task coordination and typed messages.",
            three("Tokio channels", "JoinSet", "tracing"),
        ),
        Category::Ownership => (
            "Model ownership deliberately; borrow where lifetimes are clear and share with Arc only where needed.",
            three("borrow checker", "Arc", "Cow"),
        ),
        Category::ErrorHandling => (
            "Make failure part of the type and preserve context at system boundaries.",
            three("Result", "thiserror", "anyhow"),
        ),
        Category::Unsafe => (
            "Shrink unsafe code to one audited boundary and expose a safe typed API around it.",
            three("SAFETY comments", "Miri", "cargo-fuzz"),
        ),
        Category::Automation => (
            "Turn the script's implicit contract into typed inputs, observable steps, and repeatable execution.",
            three("clap", "serde", "tracing"),
        ),
        Category::Data => (
            "Parse once into domain types and validate invariants before the data reaches business logic.",
            three("serde", "newtypes", "validator"),
        ),
        Category::Testing => (
            "Move the assumption into a reproducible test and let generated cases find the embarrassing edge.",
            three("cargo test", "proptest", "insta"),
        ),
        Category::Other => (
            "Represent the hidden assumption explicitly, then make invalid states difficult to construct.",
            three("enums", "newtypes", "clippy"),
        ),
    };
    Remedy { category, guidance: guidance.to_owned(), suggested_tools }
}

// ---------------------------------------------------------------------------
// Stage text
// ---------------------------------------------------------------------------
/// The characters that are no control codes.
pub open spec fn printable(s: Seq<char>) -> Seq<char> {
    s.filter(|c: char| !is_control(c))
}

/// The first `n` characters.
pub open spec fn first_chars(s: Seq<char>, n: nat) -> Seq<char> {
    if s.len() <= n {
        s
    } else {
        s.take(n as int)
    }
}

/// A text without the white space around it and without control codes, cut to
/// its first characters.
pub open spec fn stage_text(s: Seq<char>, maximum_chars: nat) -> Seq<char> {
    first_chars(printable(trimmed(s)), maximum_chars)
}

proof fn lemma_printable_push(s: Seq<char>, c: char)
    ensures
        printable(s.push(c)) == (if is_control(c) {
            printable(s)
        } else {
            printable(s).push(c)
        }),
        printable(s).len() <= s.len(),
{
    reveal(Seq::filter);
    assert(s.push(c).drop_last() =~= s);
    s.lemma_filter_len(|c: char| !is_control(c));
}

/// Trims a text, takes out its control codes and cuts it to a length.
pub fn sanitize_stage_text(text: &str, maximum_chars: usize) -> (res: String)
    ensures
        res@ == stage_text(text@, maximum_chars as nat),
{
    let body = trim(text);
    let chars = to_chars(body.as_str());
    let mut out = String::new();
    let mut taken: usize = 0;
    let mut i: usize = 0;
    assert(printable(chars@.take(0)) =~= Seq::empty()) by {
        reveal(Seq::filter);
    }
    while i < chars.len()
        invariant
            i <= chars@.len(),
            out@ == first_chars(printable(chars@.take(i as int)), maximum_chars as nat),
            taken == out@.len(),
            taken <= maximum_chars,
        decreases chars@.len() - i,
    {
        let c: char = chars[i];
        let ghost before = printable(chars@.take(i as int));
        proof {
            lemma_printable_push(chars@.take(i as int), c);
            assert(chars@.take(i as int).push(c) =~= chars@.take(i + 1));
        }
        if !control(c) && taken < maximum_chars {
            out.push(c);
            taken += 1;
        }
        i += 1;
        assert(out@ =~= first_chars(printable(chars@.take(i as int)), maximum_chars as nat));
    }
    assert(chars@.take(i as int) =~= body@);
    out
}

// ---------------------------------------------------------------------------
// Research that needs no model
// ---------------------------------------------------------------------------
/// The finding of a remedy lookup: the catalog entry for the category.
pub open spec fn remedy_finding(category: Category) -> FindingView {
    FindingView {
        skill: Skill::RemedyLookup,
        summary: catalog_guidance(category),
        detail: joined(catalog_tools(category), ", "@),
    }
}

/// The finding of a documentation lookup.
pub open spec fn doc_finding() -> FindingView {
    FindingView {
        skill: Skill::DocLookup,
        summary: "Doc lookup: the std/crate API already covers this case."@,
        detail: "See the std docs and the crate's examples for the idiomatic call."@,
    }
}

/// Looks the category up in the approved catalog.
pub fn catalog_lookup(category: Category) -> (res: Finding)
    ensures
        res@ == remedy_finding(category),
{
    let remedy = remedy_for(category);
    let detail = join(&remedy.suggested_tools, ", ");
    Finding { skill: Skill::RemedyLookup, summary: remedy.guidance, detail }
}

/// The simulated "web search" result for the `DocLookup` skill. There is no
/// live network call: every backend returns this canned finding.
pub fn simulated_doc_lookup() -> (res: Finding)
    ensures
        res@ == doc_finding(),
{
    Finding {
        skill: Skill::DocLookup,
        summary: "Doc lookup: the std/crate API already covers this case.".to_owned(),
        detail: "See the std docs and the crate's examples for the idiomatic call.".to_owned(),
    }
}

// ---------------------------------------------------------------------------
// Laws
// ---------------------------------------------------------------------------
/// A text with a character that is neither white space nor a control code.
pub open spec fn shows_something(s: Seq<char>) -> bool {
    exists|i: int| 0 <= i < s.len() && !is_gap(#[trigger] s[i])
}

/// Advice that may go on stage: guidance with something to see in it and of
/// bounded length, and one to five tools that fit.
pub open spec fn presentable(remedy: RemedyView) -> bool {
    &&& shows_something(remedy.guidance)
    &&& remedy.guidance.len() <= MAX_SHORT_FIELD_CHARS
    &&& 1 <= remedy.suggested_tools.len() <= 5
    &&& forall|i: int|
        0 <= i < remedy.suggested_tools.len() ==> tool_fits(#[trigger] remedy.suggested_tools[i])
}

/// Every entry of the approved catalog may go on stage.
pub proof fn law_catalog_is_presentable(category: Category)
    ensures
        presentable(catalog_remedy(category)),
{
    reveal_strlit("Replace timing guesses with explicit task coordination and typed messages.");
    reveal_strlit(
        "Model ownership deliberately; borrow where lifetimes are clear and share with Arc only where needed.",
    );
    reveal_strlit("Make failure part of the type and preserve context at system boundaries.");
    reveal_strlit(
        "Shrink unsafe code to one audited boundary and expose a safe typed API around it.",
    );
    reveal_strlit(
        "Turn the script's implicit contract into typed inputs, observable steps, and repeatable execution.",
    );
    reveal_strlit(
        "Parse once into domain types and validate invariants before the data reaches business logic.",
    );
    reveal_strlit(
        "Move the assumption into a reproducible test and let generated cases find the embarrassing edge.",
    );
    reveal_strlit(
        "Represent the hidden assumption explicitly, then make invalid states difficult to construct.",
    );
    assert(!is_gap(catalog_remedy(category).guidance[0]));
    lemma_catalog_tools_fit(category);
}

proof fn lemma_visible_first(s: Seq<char>)
    requires
        0 < s.len() <= 64,
        !is_white_space(s[0]),
    ensures
        tool_fits(s),
{
}

proof fn lemma_catalog_tools_fit(category: Category)
    ensures
        catalog_tools(category).len() == 3,
        forall|i: int| 0 <= i < 3 ==> tool_fits(#[trigger] catalog_tools(category)[i]),
{
    reveal_strlit("Tokio channels");
    reveal_strlit("JoinSet");
    reveal_strlit("tracing");
    reveal_strlit("borrow checker");
    reveal_strlit("Arc");
    reveal_strlit("Cow");
    reveal_strlit("Result");
    reveal_strlit("thiserror");
    reveal_strlit("anyhow");
    reveal_strlit("SAFETY comments");
    reveal_strlit("Miri");
    reveal_strlit("cargo-fuzz");
    reveal_strlit("clap");
    reveal_strlit("serde");
    reveal_strlit("newtypes");
    reveal_strlit("validator");
    reveal_strlit("cargo test");
    reveal_strlit("proptest");
    reveal_strlit("insta");
    reveal_strlit("enums");
    reveal_strlit("clippy");
    assert forall|i: int| 0 <= i < 3 implies tool_fits(#[trigger] catalog_tools(category)[i]) by {
        lemma_visible_first(catalog_tools(category)[i]);
    }
}

proof fn lemma_printable(s: Seq<char>)
    ensures
        forall|i: int| 0 <= i < printable(s).len() ==> !is_control(#[trigger] printable(s)[i]),
    decreases s.len(),
{
    if s.len() == 0 {
        reveal(Seq::filter);
    } else {
        lemma_printable(s.drop_last());
        lemma_printable_push(s.drop_last(), s.last());
        assert(s.drop_last().push(s.last()) =~= s);
        let before = printable(s.drop_last());
        assert forall|i: int| 0 <= i < printable(s).len() implies !is_control(
            #[trigger] printable(s)[i],
        ) by {
            if i < before.len() {
                assert(!is_control(before[i]));
            }
        }
    }
}

/// Where a printable character stands once the control codes are gone.
proof fn lemma_printable_keeps(s: Seq<char>, i: int) -> (j: int)
    requires
        0 <= i < s.len(),
        !is_control(s[i]),
    ensures
        0 <= j <= i,
        j < printable(s).len(),
        printable(s)[j] == s[i],
    decreases s.len(),
{
    lemma_printable_push(s.drop_last(), s.last());
    assert(s.drop_last().push(s.last()) =~= s);
    if i == s.len() - 1 {
        printable(s.drop_last()).len() as int
    } else {
        lemma_printable_keeps(s.drop_last(), i)
    }
}

/// Stage text is never longer than its cap and holds no control code.
pub proof fn law_stage_text_is_bounded(s: Seq<char>, maximum_chars: nat)
    ensures
        stage_text(s, maximum_chars).len() <= maximum_chars,
        forall|i: int|
            0 <= i < stage_text(s, maximum_chars).len() ==> !is_control(
                #[trigger] stage_text(s, maximum_chars)[i],
            ),
{
    lemma_printable(trimmed(s));
}

/// Stage text that is cut at a cap of `maximum_chars` still shows something if
/// one of the first `maximum_chars` characters of the text is visible.
pub proof fn law_stage_text_keeps_visible_text(s: Seq<char>, maximum_chars: nat, i: int)
    requires
        0 <= i < s.len(),
        i < maximum_chars,
        !is_gap(s[i]),
    ensures
        shows_something(stage_text(s, maximum_chars)),
{
    lemma_trimmed(s);
    let (a, b) = choose|a: int, b: int|
        #![trigger s.subrange(a, b)]
        0 <= a <= b <= s.len() && trimmed(s) == s.subrange(a, b) && blank(s.subrange(0, a))
            && blank(s.subrange(b, s.len() as int));
    if i < a {
        assert(is_white_space(s.subrange(0, a)[i]));
    }
    if i >= b {
        assert(is_white_space(s.subrange(b, s.len() as int)[i - b]));
    }
    let j = lemma_printable_keeps(trimmed(s), i - a);
    assert(!is_gap(stage_text(s, maximum_chars)[j]));
}

/// Stage text is the text itself where it fits: where it holds no control code,
/// is no longer than the cap and has no white space around it. Where it is
/// longer, it is cut behind the cap.
pub proof fn law_fitting_text_is_kept(s: Seq<char>, maximum_chars: nat)
    requires
        s.len() > 0,
        !is_white_space(s[0]),
        !is_white_space(s.last()),
        forall|i: int| 0 <= i < s.len() ==> !is_control(#[trigger] s[i]),
    ensures
        s.len() <= maximum_chars ==> stage_text(s, maximum_chars) == s,
        s.len() > maximum_chars ==> stage_text(s, maximum_chars) == s.take(maximum_chars as int),
{
    let nothing = Seq::<char>::empty();
    law_trimming_takes_what_is_around(nothing, s, nothing);
    assert(nothing + s + nothing =~= s);
    lemma_printable_keeps_all(s);
}

proof fn lemma_printable_keeps_all(s: Seq<char>)
    requires
        forall|i: int| 0 <= i < s.len() ==> !is_control(#[trigger] s[i]),
    ensures
        printable(s) == s,
    decreases s.len(),
{
    if s.len() == 0 {
        reveal(Seq::filter);
        assert(printable(s) =~= s);
    } else {
        lemma_printable_keeps_all(s.drop_last());
        lemma_printable_push(s.drop_last(), s.last());
        assert(s.drop_last().push(s.last()) =~= s);
    }
}

/// The white space around a text makes no difference on the stage, nor do the
/// control codes in it.
pub proof fn law_stage_text_ignores_what_is_not_shown(
    before: Seq<char>,
    s: Seq<char>,
    after: Seq<char>,
    code: char,
    at: int,
    maximum_chars: nat,
)
    requires
        blank(before),
        blank(after),
        is_control(code),
        0 < at < s.len(),
        !is_white_space(s[0]),
        !is_white_space(s.last()),
    ensures
        stage_text(before + s + after, maximum_chars) == stage_text(s, maximum_chars),
        stage_text(s.insert(at, code), maximum_chars) == stage_text(s, maximum_chars),
{
    let nothing = Seq::<char>::empty();
    law_trimming_takes_what_is_around(before, s, after);
    law_trimming_takes_what_is_around(nothing, s, nothing);
    assert(nothing + s + nothing =~= s);
    let t = s.insert(at, code);
    law_trimming_takes_what_is_around(nothing, t, nothing);
    assert(nothing + t + nothing =~= t);
    lemma_printable_insert(s, at, code);
}

proof fn lemma_printable_insert(s: Seq<char>, at: int, code: char)
    requires
        0 <= at <= s.len(),
        is_control(code),
    ensures
        printable(s.insert(at, code)) == printable(s),
    decreases s.len() - at,
{
    let t = s.insert(at, code);
    if at == s.len() {
        assert(t =~= s.push(code));
        lemma_printable_push(s, code);
    } else {
        lemma_printable_insert(s.drop_last(), at, code);
        assert(t =~= s.drop_last().insert(at, code).push(s.last()));
        lemma_printable_push(s.drop_last().insert(at, code), s.last());
        lemma_printable_push(s.drop_last(), s.last());
        assert(s.drop_last().push(s.last()) =~= s);
    }
}

} // verus!
