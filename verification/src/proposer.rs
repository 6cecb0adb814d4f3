//! The proposer that asks a model: its prompt, and what becomes of the model's answer.

use vstd::prelude::*;
use vstd::string::*;

use crate::fingerprint::{components_document, document_of_components};
use crate::json::{
    add_member, find_member, lemma_array_tree, lemma_object_tree, lookup, member, member_views,
    pretty, put_member, put_members_are_found, with_member, Json, JsonView,
};
use crate::model::{HarnessOptError, HarnessOptErrorView};
use crate::strategies::gepa::{ReflectiveProposalRequest, ReflectiveProposalRequestView};
use crate::text::{
    decimal, decimal_text, join, join_path, joined, path_join, replace_text, replaced, same_text,
};
use crate::views::{lemma_take_next, lemma_views_push, opt_view, views};

verus! {

/// The models that the program is set up to ask of two kinds of providers.
pub struct ProviderModels {
    /// The model of the provider `anthropic`.
    pub anthropic: String,
    /// The model of providers that are `openai-compatible`.
    pub openai_compatible: String,
}

/// The model that is asked where none is named, for a kind of provider.
pub open spec fn provider_model(
    kind: Seq<char>,
    anthropic: Seq<char>,
    openai_compatible: Seq<char>,
) -> Seq<char> {
    if kind == "anthropic"@ {
        anthropic
    } else if kind == "openai"@ {
        "gpt-5.4"@
    } else if kind == "openai-compatible"@ {
        openai_compatible
    } else if kind == "codex"@ {
        "gpt-5.5"@
    } else if kind == "google_oauth"@ {
        "gemini-3.1-pro-preview"@
    } else {
        "mock-model"@
    }
}

/// The model that is asked where none is named, for a kind of provider.
pub fn default_model_for_provider(kind: &str, models: &ProviderModels) -> (r: String)
    ensures
        r@ == provider_model(kind@, models.anthropic@, models.openai_compatible@),
{
    if same_text(kind, "anthropic") {
        models.anthropic.clone()
    } else if same_text(kind, "openai") {
        "gpt-5.4".to_string()
    } else if same_text(kind, "openai-compatible") {
        models.openai_compatible.clone()
    } else if same_text(kind, "codex") {
        "gpt-5.5".to_string()
    } else if same_text(kind, "google_oauth") {
        "gemini-3.1-pro-preview".to_string()
    } else {
        "mock-model".to_string()
    }
}

/// The model that is asked: the one that is named, or that of the provider.
pub fn proposer_model(model: &Option<String>, kind: &str, models: &ProviderModels) -> (r: String)
    ensures
        r@ == match opt_view(*model) {
            Some(name) => name,
            None => provider_model(kind@, models.anthropic@, models.openai_compatible@),
        },
{
    match model {
        Some(name) => name.clone(),
        None => default_model_for_provider(kind, models),
    }
}

/// What a prompt template is filled with.
pub struct PromptTemplateValues {
    pub parent_candidate_id: String,
    pub mutable_components_json: String,
    pub evidence_json: String,
    pub output_schema_json: String,
}

/// The template with its four places filled, one after the other.
pub open spec fn filled(
    template: Seq<char>,
    parent_candidate_id: Seq<char>,
    mutable_components_json: Seq<char>,
    evidence_json: Seq<char>,
    output_schema_json: Seq<char>,
) -> Seq<char> {
    replaced(
        replaced(
            replaced(
                replaced(template, "{{parent_candidate_id}}"@, parent_candidate_id),
                "{{mutable_components_json}}"@,
                mutable_components_json,
            ),
            "{{evidence_json}}"@,
            evidence_json,
        ),
        "{{output_schema_json}}"@,
        output_schema_json,
    )
}

/// Fills a prompt template.
pub fn render_prompt_template(template: &str, values: &PromptTemplateValues) -> (r: String)
    ensures
        r@ == filled(
            template@,
            values.parent_candidate_id@,
            values.mutable_components_json@,
            values.evidence_json@,
            values.output_schema_json@,
        ),
{
    proof {
        reveal_strlit("{{parent_candidate_id}}");
        reveal_strlit("{{mutable_components_json}}");
        reveal_strlit("{{evidence_json}}");
        reveal_strlit("{{output_schema_json}}");
    }
    let a: String = replace_text(
        template,
        "{{parent_candidate_id}}",
        values.parent_candidate_id.as_str(),
    );
    let b: String = replace_text(
        a.as_str(),
        "{{mutable_components_json}}",
        values.mutable_components_json.as_str(),
    );
    let c: String = replace_text(
        b.as_str(),
        "{{evidence_json}}",
        values.evidence_json.as_str(),
    );
    replace_text(c.as_str(), "{{output_schema_json}}", values.output_schema_json.as_str())
}

/// The template of the prompt where no other is given.
pub const DEFAULT_PROMPT_TEMPLATE: &'static str =
    "You are GEPA inside Lash RLM mode. Reflect on the evaluation evidence and propose concrete candidate patches for the harness optimizer.

Parent candidate id:
{{parent_candidate_id}}

Mutable components:
{{mutable_components_json}}

Evaluation evidence:
{{evidence_json}}

Required output schema:
{{output_schema_json}}

Rules:
- Propose patches only for listed mutable component ids.
- Preserve generic RLM execution protocol, Lashlang reference, tool contracts, Tool Catalog membership, and typed response-schema enforcement.
- Use feedback and traces to target the weakest selected component.
- Prefer small, testable changes over broad rewrites.
- Do not claim benchmark improvements that are not present in the evidence.

Return only by calling `finish <object>` from a single paired `<lashlang>` block closed with `</lashlang>`. The final object must match the required output schema.";

/// The template of the prompt where no other is given.
pub fn default_gepa_proposer_prompt_template() -> (r: &'static str)
    ensures
        r@ == DEFAULT_PROMPT_TEMPLATE@,
{
    DEFAULT_PROMPT_TEMPLATE
}

/// The prompt for a request, from a template or from the default one.
pub open spec fn proposer_prompt(
    request: ReflectiveProposalRequestView,
    template: Option<Seq<char>>,
) -> Seq<char> {
    filled(
        match template {
            Some(text) => text,
            None => DEFAULT_PROMPT_TEMPLATE@,
        },
        request.parent_candidate_id,
        pretty(components_document(request.mutable_components)),
        pretty(request.evidence),
        pretty(request.output_schema),
    )
}

/// Renders the prompt for a request, from a template or from the default one.
pub fn render_gepa_proposer_prompt(
    request: &ReflectiveProposalRequest,
    template: &Option<String>,
) -> (r: String)
    ensures
        r@ == proposer_prompt(request@, opt_view(*template)),
{
    let values = PromptTemplateValues {
        parent_candidate_id: request.parent_candidate_id.clone(),
        mutable_components_json: document_of_components(&request.mutable_components).to_pretty(),
        evidence_json: request.evidence.to_pretty(),
        output_schema_json: request.output_schema.to_pretty(),
    };
    match template {
        Some(text) => render_prompt_template(text.as_str(), &values),
        None => render_prompt_template(default_gepa_proposer_prompt_template(), &values),
    }
}

fn named(start: &str, run_id: &str, generation: usize) -> (r: String)
    ensures
        r@ == start@ + run_id@ + "-"@ + decimal(generation as nat),
{
    let mut r: String = start.to_string();
    r.append(run_id);
    r.append("-");
    r.append(decimal_text(generation as u64).as_str());
    r
}

/// The name of the session of a request.
pub fn session_name(request: &ReflectiveProposalRequest) -> (r: String)
    ensures
        r@ == "harness-opt-gepa-"@ + request@.run_id + "-"@ + decimal(request@.generation as nat),
{
    named("harness-opt-gepa-", request.run_id.as_str(), request.generation)
}

/// The name of the turn of a request.
pub fn turn_name(request: &ReflectiveProposalRequest) -> (r: String)
    ensures
        r@ == "harness-opt-gepa-turn-"@ + request@.run_id + "-"@ + decimal(
            request@.generation as nat,
        ),
{
    named("harness-opt-gepa-turn-", request.run_id.as_str(), request.generation)
}

/// The path of the file that the prompt is written to.
pub fn prompt_path(request: &ReflectiveProposalRequest) -> (r: String)
    ensures
        r@ == path_join(request@.artifact_dir, "prompt.md"@),
{
    join_path(request.artifact_dir.as_str(), "prompt.md")
}

/// The path of the file that the answer is written to.
pub fn output_path(request: &ReflectiveProposalRequest) -> (r: String)
    ensures
        r@ == path_join(request@.artifact_dir, "output.json"@),
{
    join_path(request.artifact_dir.as_str(), "output.json")
}

/// What the assistant said, piece by piece, in one text.
pub fn assistant_prose(pieces: &Vec<String>) -> (r: String)
    ensures
        r@ == joined(views(pieces@), ""@),
{
    join(pieces, "")
}

/// The metadata with the paths of the prompt and the answer.
pub open spec fn referring(
    metadata: Seq<(Seq<char>, JsonView)>,
    prompt_path: Seq<char>,
    output_path: Seq<char>,
) -> Seq<(Seq<char>, JsonView)> {
    with_member(
        with_member(metadata, "rlm_prompt_ref"@, JsonView::Text(prompt_path)),
        "rlm_output_ref"@,
        JsonView::Text(output_path),
    )
}

/// A proposal whose metadata name the paths of the prompt and the answer. What is no object, and
/// metadata that are none, stay as they are.
pub open spec fn with_refs(
    proposal: JsonView,
    prompt_path: Seq<char>,
    output_path: Seq<char>,
) -> JsonView {
    match proposal {
        JsonView::Object(members) => {
            let metadata = match lookup(members, "metadata"@) {
                Some(value) => value,
                None => JsonView::Object(Seq::empty()),
            };
            match metadata {
                JsonView::Object(held) => JsonView::Object(
                    with_member(
                        members,
                        "metadata"@,
                        JsonView::Object(referring(held, prompt_path, output_path)),
                    ),
                ),
                _ => proposal,
            }
        },
        _ => proposal,
    }
}

/// An answer whose proposals name the paths of the prompt and the answer.
pub open spec fn with_artifact_refs(
    value: JsonView,
    prompt_path: Seq<char>,
    output_path: Seq<char>,
) -> JsonView {
    match value {
        JsonView::Object(members) => match lookup(members, "proposals"@) {
            Some(JsonView::Array(proposals)) => JsonView::Object(
                with_member(
                    members,
                    "proposals"@,
                    JsonView::Array(
                        proposals.map_values(
                            |p: JsonView| with_refs(p, prompt_path, output_path),
                        ),
                    ),
                ),
            ),
            _ => value,
        },
        _ => value,
    }
}

/// A proposal that is an object, with metadata that are an object or missing, names both paths in
/// its metadata; its other members stay.
pub proof fn proposals_name_their_artifacts(
    members: Seq<(Seq<char>, JsonView)>,
    prompt_path: Seq<char>,
    output_path: Seq<char>,
    other: Seq<char>,
)
    requires
        lookup(members, "metadata"@) is Some ==> (lookup(members, "metadata"@)->0) is Object,
    ensures
        ({
            let after = with_refs(JsonView::Object(members), prompt_path, output_path);
            let metadata = member(after, "metadata"@);
            &&& metadata is Some
            &&& member(metadata->0, "rlm_prompt_ref"@) == Some(JsonView::Text(prompt_path))
            &&& member(metadata->0, "rlm_output_ref"@) == Some(JsonView::Text(output_path))
            &&& other != "metadata"@ ==> member(after, other) == lookup(members, other)
        }),
{
    reveal_strlit("rlm_prompt_ref");
    reveal_strlit("rlm_output_ref");
    assert("rlm_prompt_ref"@[4] == 'p' && "rlm_output_ref"@[4] == 'o');
    let held = match lookup(members, "metadata"@) {
        Some(value) => value->Object_0,
        None => Seq::empty(),
    };
    let first = with_member(held, "rlm_prompt_ref"@, JsonView::Text(prompt_path));
    put_members_are_found(
        held,
        "rlm_prompt_ref"@,
        JsonView::Text(prompt_path),
        "rlm_output_ref"@,
    );
    put_members_are_found(
        first,
        "rlm_output_ref"@,
        JsonView::Text(output_path),
        "rlm_prompt_ref"@,
    );
    put_members_are_found(
        members,
        "metadata"@,
        JsonView::Object(referring(held, prompt_path, output_path)),
        other,
    );
}

fn add_refs(proposal: &Json, prompt_path: &str, output_path: &str) -> (r: Json)
    ensures
        r@ == with_refs(proposal@, prompt_path@, output_path@),
{
    match proposal {
        Json::Object(members) => {
            proof {
                lemma_object_tree(*members);
            }
            let mut held: Vec<(String, Json)> = match find_member(members, "metadata") {
                Some(value) => match value.copy() {
                    Json::Object(held) => {
                        proof {
                            lemma_object_tree(held);
                        }
                        held
                    },
                    _ => {
                        return proposal.copy();
                    },
                },
                None => {
                    let none: Vec<(String, Json)> = Vec::new();
                    assert(member_views(none@) =~= Seq::empty());
                    none
                },
            };
            put_member(&mut held, "rlm_prompt_ref", Json::text(prompt_path));
            put_member(&mut held, "rlm_output_ref", Json::text(output_path));
            match proposal.copy() {
                Json::Object(members) => {
                    proof {
                        lemma_object_tree(members);
                    }
                    let mut members: Vec<(String, Json)> = members;
                    put_member(&mut members, "metadata", Json::object(held));
                    Json::object(members)
                },
                other => other,
            }
        },
        _ => proposal.copy(),
    }
}

/// Names the paths of the prompt and the answer in the proposals of an answer.
pub fn with_proposal_artifact_refs(value: Json, prompt_path: &str, output_path: &str) -> (r: Json)
    ensures
        r@ == with_artifact_refs(value@, prompt_path@, output_path@),
{
    match value {
        Json::Object(members) => {
            proof {
                lemma_object_tree(members);
            }
            let mut changed: Vec<Json> = Vec::new();
            match find_member(&members, "proposals") {
                Some(Json::Array(proposals)) => {
                    proof {
                        lemma_array_tree(*proposals);
                    }
                    let ghost whole = views(proposals@).map_values(
                        |p: JsonView| with_refs(p, prompt_path@, output_path@),
                    );
                    let mut i: usize = 0;
                    assert(views(changed@) =~= whole.take(0));
                    while i < proposals.len()
                        invariant
                            i <= proposals@.len(),
                            whole == views(proposals@).map_values(
                                |p: JsonView| with_refs(p, prompt_path@, output_path@),
                            ),
                            views(changed@) == whole.take(i as int),
                        decreases proposals@.len() - i,
                    {
                        let proposal: Json = add_refs(&proposals[i], prompt_path, output_path);
                        proof {
                            lemma_views_push(changed@, proposal);
                            lemma_take_next(whole, i as int);
                        }
                        changed.push(proposal);
                        i = i + 1;
                    }
                    assert(whole.take(i as int) =~= whole);
                },
                _ => {
                    return Json::Object(members);
                },
            }
            let mut members: Vec<(String, Json)> = members;
            put_member(&mut members, "proposals", Json::array(changed));
            Json::object(members)
        },
        other => other,
    }
}

/// How the turn of a proposer ended.
pub enum ProposerTurn {
    /// With a value.
    Finished(Json),
    /// Otherwise. The texts describe the outcome and the errors.
    Unfinished(String, String),
}

/// The document of an answer.
pub open spec fn answer_document(value: JsonView, errors: JsonView, prose: Seq<char>) -> JsonView {
    JsonView::Object(
        seq![("assistant_prose"@, JsonView::Text(prose)), ("errors"@, errors), ("value"@, value)],
    )
}

/// Writes the document of an answer over several lines.
pub fn render_answer(value: &Json, errors: &Json, prose: &str) -> (r: String)
    ensures
        r@ == pretty(answer_document(value@, errors@, prose@)),
{
    let mut members: Vec<(String, Json)> = Vec::new();
    add_member(&mut members, "assistant_prose", Json::text(prose));
    add_member(&mut members, "errors", errors.copy());
    add_member(&mut members, "value", value.copy());
    assert(member_views(members@) =~= answer_document(value@, errors@, prose@)->Object_0);
    Json::object(members).to_pretty()
}

/// What a proposer answers: the value with which its turn finished, its proposals naming the paths
/// of the prompt and the answer. A turn that did not finish is an error.
pub fn conclude_turn(
    request: &ReflectiveProposalRequest,
    turn: ProposerTurn,
    prose: &str,
) -> (r: Result<Json, HarnessOptError>)
    ensures
        match turn {
            ProposerTurn::Finished(value) => r matches Ok(answer) && answer@ == with_artifact_refs(
                value@,
                path_join(request@.artifact_dir, "prompt.md"@),
                path_join(request@.artifact_dir, "output.json"@),
            ),
            ProposerTurn::Unfinished(ending, errors) => r matches Err(error) && error@
                == HarnessOptErrorView::Strategy(
                "GEPA RLM proposer did not finish a proposal: outcome="@ + ending@ + " errors="@
                    + errors@ + " output="@ + prose@,
            ),
        },
{
    match turn {
        ProposerTurn::Finished(value) => Ok(
            with_proposal_artifact_refs(
                value,
                prompt_path(request).as_str(),
                output_path(request).as_str(),
            ),
        ),
        ProposerTurn::Unfinished(ending, errors) => {
            let mut text: String =
                "GEPA RLM proposer did not finish a proposal: outcome=".to_string();
            text.append(ending.as_str());
            text.append(" errors=");
            text.append(errors.as_str());
            text.append(" output=");
            text.append(prose);
            Err(HarnessOptError::Strategy(text))
        },
    }
}

} // verus!
