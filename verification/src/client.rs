//! The client's decisions around its calls to LM Studio: which address to
//! use, which models match an identifier, which models to unload, the
//! channels it opens and the messages that open them, and how it reads the
//! messages of a streaming chat.
use vstd::prelude::*;
use rand::Rng;
use crate::error::{LMStudioError, Result};
use crate::json::{Json, JsonV, member, string_member, is_object};
use crate::text::{chars_of, contains, contains_str, digits, occurs_at, push_digits, str_eq};
use crate::types::{Model, opt_text};

verus! {

/// The address the client talks to: the one given, else the first
/// discovered instance, else the default address. `discovered` is what
/// discovery found, `None` where it was not run because an address was given.
pub fn select_api_host(api_host: Option<&str>, discovered: Option<Result<String>>, default_host: String) -> (s: String)
    ensures
        match api_host {
            Some(h) => s@ == h@,
            None => match discovered {
                Some(Ok(d)) => s == d,
                _ => s == default_host,
            },
        },
{
    match api_host {
        Some(h) => h.to_owned(),
        None => match discovered {
            Some(Ok(d)) => d,
            _ => default_host,
        },
    }
}

/// A downloaded model matches an identifier by its key, its identifier, or
/// a path that contains the identifier.
pub open spec fn matches_downloaded(m: Model, id: Seq<char>) -> bool {
    m.model_key@ == id || opt_text(m.identifier) == Some(id) || contains(m.path@, id)
}

/// A loaded model matches an identifier by its key or its identifier.
pub open spec fn matches_loaded(m: Model, id: Seq<char>) -> bool {
    m.model_key@ == id || opt_text(m.identifier) == Some(id)
}

/// The model a prompt goes to: its identifier (or, without one, its key)
/// equals the given one, or its key does.
pub open spec fn matches_prompt_target(m: Model, id: Seq<char>) -> bool {
    (match opt_text(m.identifier) {
        Some(i) => i,
        None => m.model_key@,
    }) == id || m.model_key@ == id
}

/// A downloaded model matches an identifier that occurs anywhere in its
/// path; and it matches nothing else than its key, its identifier, or a
/// text that occurs in its path.
pub proof fn lemma_downloaded_match_by_path(m: Model, id: Seq<char>, at: int)
    ensures
        0 <= at && at + id.len() <= m.path@.len() && m.path@.subrange(at, at + id.len()) == id
            ==> matches_downloaded(m, id),
        matches_downloaded(m, id) ==> (m.model_key@ == id || opt_text(m.identifier) == Some(id)
            || exists|i: int|
            0 <= i && i + id.len() <= m.path@.len() && #[trigger] m.path@.subrange(i, i + id.len())
                == id),
{
    if 0 <= at && at + id.len() <= m.path@.len() && m.path@.subrange(at, at + id.len()) == id {
        assert(occurs_at(m.path@, at, id));
    }
    if matches_downloaded(m, id) && !(m.model_key@ == id || opt_text(m.identifier) == Some(id)) {
        let i = choose|i: int| occurs_at(m.path@, i, id);
        assert(m.path@.subrange(i, i + id.len()) == id);
    }
}

/// The matches nest: the model a prompt for `id` goes to counts as a loaded
/// model matching `id`, and a loaded model matching `id` counts as a
/// downloaded model matching `id`.
pub proof fn lemma_matches_nest(m: Model, id: Seq<char>)
    ensures
        matches_prompt_target(m, id) ==> matches_loaded(m, id),
        matches_loaded(m, id) ==> matches_downloaded(m, id),
{
}

/// Whether a downloaded model matches `id`.
pub fn model_matches_downloaded(m: &Model, id: &str) -> (b: bool)
    ensures
        b == matches_downloaded(*m, id@),
{
    if str_eq(m.model_key.as_str(), id) {
        return true;
    }
    match &m.identifier {
        Some(i) => if str_eq(i.as_str(), id) {
            return true;
        },
        None => {},
    }
    contains_str(m.path.as_str(), id)
}

/// Whether a loaded model matches `id`.
pub fn model_matches_loaded(m: &Model, id: &str) -> (b: bool)
    ensures
        b == matches_loaded(*m, id@),
{
    if str_eq(m.model_key.as_str(), id) {
        return true;
    }
    match &m.identifier {
        Some(i) => str_eq(i.as_str(), id),
        None => false,
    }
}

/// Whether a loaded model is the target of a prompt for `id`.
pub fn model_matches_prompt_target(m: &Model, id: &str) -> (b: bool)
    ensures
        b == matches_prompt_target(*m, id@),
{
    let name = match &m.identifier {
        Some(i) => i.as_str(),
        None => m.model_key.as_str(),
    };
    str_eq(name, id) || str_eq(m.model_key.as_str(), id)
}

/// Checks that `model_identifier` names a downloaded model; the error names
/// the identifier otherwise.
pub fn check_model_exists(downloaded: &[Model], model_identifier: &str) -> (r: Result<()>)
    ensures
        (exists|i: int| 0 <= i < downloaded@.len() && matches_downloaded(
            #[trigger] downloaded@[i],
            model_identifier@,
        )) ==> r is Ok,
        !(exists|i: int| 0 <= i < downloaded@.len() && matches_downloaded(
            #[trigger] downloaded@[i],
            model_identifier@,
        )) ==> (r matches Err(LMStudioError::ModelNotFound(m)) && m@ == model_identifier@),
{
    let mut i: usize = 0;
    while i < downloaded.len()
        invariant
            i <= downloaded@.len(),
            forall|k: int| 0 <= k < i ==> !matches_downloaded(#[trigger] downloaded@[k], model_identifier@),
        decreases downloaded@.len() - i,
    {
        if model_matches_downloaded(&downloaded[i], model_identifier) {
            return Ok(());
        }
        i = i + 1;
    }
    Err(LMStudioError::model_not_found(model_identifier))
}

/// Whether a model matching `model_identifier` is loaded; `false` when the
/// list of loaded models could not be had.
pub fn is_model_already_loaded(loaded: &Result<Vec<Model>>, model_identifier: &str) -> (b: bool)
    ensures
        b == match loaded {
            Ok(models) => exists|i: int|
                0 <= i < models@.len() && matches_loaded(#[trigger] models@[i], model_identifier@),
            Err(_) => false,
        },
{
    match loaded {
        Ok(models) => match find_loaded_model(models.as_slice(), model_identifier) {
            Some(_) => true,
            None => false,
        },
        Err(_) => false,
    }
}

/// The position of the first loaded model matching `model_identifier`.
pub fn find_loaded_model(loaded: &[Model], model_identifier: &str) -> (r: Option<usize>)
    ensures
        match r {
            Some(i) => i < loaded@.len() && matches_loaded(loaded@[i as int], model_identifier@)
                && forall|k: int| 0 <= k < i ==> !matches_loaded(#[trigger] loaded@[k], model_identifier@),
            None => forall|k: int|
                0 <= k < loaded@.len() ==> !matches_loaded(#[trigger] loaded@[k], model_identifier@),
        },
{
    let mut i: usize = 0;
    while i < loaded.len()
        invariant
            i <= loaded@.len(),
            forall|k: int| 0 <= k < i ==> !matches_loaded(#[trigger] loaded@[k], model_identifier@),
        decreases loaded@.len() - i,
    {
        if model_matches_loaded(&loaded[i], model_identifier) {
            return Some(i);
        }
        i = i + 1;
    }
    None
}

/// The position of the first downloaded model whose key is `model_identifier`.
pub fn find_downloaded_model(downloaded: &[Model], model_identifier: &str) -> (r: Option<usize>)
    ensures
        match r {
            Some(i) => i < downloaded@.len() && downloaded@[i as int].model_key@ == model_identifier@
                && forall|k: int| 0 <= k < i ==> (#[trigger] downloaded@[k]).model_key@ != model_identifier@,
            None => forall|k: int|
                0 <= k < downloaded@.len() ==> (#[trigger] downloaded@[k]).model_key@ != model_identifier@,
        },
{
    let mut i: usize = 0;
    while i < downloaded.len()
        invariant
            i <= downloaded@.len(),
            forall|k: int| 0 <= k < i ==> (#[trigger] downloaded@[k]).model_key@ != model_identifier@,
        decreases downloaded@.len() - i,
    {
        if str_eq(downloaded[i].model_key.as_str(), model_identifier) {
            return Some(i);
        }
        i = i + 1;
    }
    None
}

/// Model information from the loaded models: a copy of the first that
/// matches `model_identifier` as a loaded model, if any.
pub fn loaded_model_info(loaded: &[Model], model_identifier: &str) -> (r: Option<Model>)
    ensures
        match r {
            Some(m) => exists|i: int|
                0 <= i < loaded@.len() && matches_loaded(#[trigger] loaded@[i], model_identifier@)
                    && (forall|k: int| 0 <= k < i ==> !matches_loaded(#[trigger] loaded@[k], model_identifier@))
                    && m == loaded@[i],
            None => forall|k: int|
                0 <= k < loaded@.len() ==> !matches_loaded(#[trigger] loaded@[k], model_identifier@),
        },
{
    match find_loaded_model(loaded, model_identifier) {
        Some(i) => Some(loaded[i].duplicate()),
        None => None,
    }
}

/// Model information from the downloaded models, asked for when no loaded
/// model matched: a copy of the first whose key is `model_identifier`, else
/// a model-not-found error naming it.
pub fn downloaded_model_info(downloaded: &[Model], model_identifier: &str) -> (r: Result<Model>)
    ensures
        match r {
            Ok(m) => exists|i: int|
                0 <= i < downloaded@.len() && (#[trigger] downloaded@[i]).model_key@ == model_identifier@
                    && (forall|k: int| 0 <= k < i ==> (#[trigger] downloaded@[k]).model_key@ != model_identifier@)
                    && m == downloaded@[i],
            Err(LMStudioError::ModelNotFound(n)) => n@ == model_identifier@ && forall|k: int|
                0 <= k < downloaded@.len() ==> (#[trigger] downloaded@[k]).model_key@ != model_identifier@,
            Err(_) => false,
        },
{
    match find_downloaded_model(downloaded, model_identifier) {
        Some(i) => Ok(downloaded[i].duplicate()),
        None => Err(LMStudioError::model_not_found(model_identifier)),
    }
}

/// The instance reference of the loaded model a prompt for `model_identifier`
/// goes to: the first model that is its target. Errors: no such model
/// (model not found), or the model has no instance reference (invalid
/// response, "Model missing instance reference").
pub fn resolve_instance_reference(loaded: &[Model], model_identifier: &str) -> (r: Result<String>)
    ensures
        match r {
            Ok(s) => exists|i: int|
                0 <= i < loaded@.len() && matches_prompt_target(#[trigger] loaded@[i], model_identifier@)
                    && (forall|k: int| 0 <= k < i ==> !matches_prompt_target(#[trigger] loaded@[k], model_identifier@))
                    && opt_text(loaded@[i].instance_reference) == Some(s@),
            Err(LMStudioError::ModelNotFound(m)) => m@ == model_identifier@ && forall|k: int|
                0 <= k < loaded@.len() ==> !matches_prompt_target(#[trigger] loaded@[k], model_identifier@),
            Err(LMStudioError::InvalidResponse(m)) => m@ == "Model missing instance reference"@
                && exists|i: int|
                0 <= i < loaded@.len() && matches_prompt_target(#[trigger] loaded@[i], model_identifier@)
                    && (forall|k: int| 0 <= k < i ==> !matches_prompt_target(#[trigger] loaded@[k], model_identifier@))
                    && loaded@[i].instance_reference is None,
            Err(_) => false,
        },
{
    let mut i: usize = 0;
    while i < loaded.len()
        invariant
            i <= loaded@.len(),
            forall|k: int| 0 <= k < i ==> !matches_prompt_target(#[trigger] loaded@[k], model_identifier@),
        decreases loaded@.len() - i,
    {
        if model_matches_prompt_target(&loaded[i], model_identifier) {
            return match &loaded[i].instance_reference {
                Some(reference) => Ok(reference.clone()),
                None => Err(LMStudioError::invalid_response("Model missing instance reference")),
            };
        }
        i = i + 1;
    }
    Err(LMStudioError::model_not_found(model_identifier))
}

/// The identifiers of the loaded models that have one, in order: the models
/// that unloading everything unloads.
pub open spec fn unload_identifiers(models: Seq<Model>) -> Seq<Seq<char>>
    decreases models.len(),
{
    if models.len() == 0 {
        Seq::empty()
    } else {
        let rest = unload_identifiers(models.drop_last());
        match models.last().identifier {
            Some(i) => rest.push(i@),
            None => rest,
        }
    }
}

/// The identifiers to unload when unloading all loaded models.
pub fn unload_targets(loaded: &[Model]) -> (v: Vec<String>)
    ensures
        v@.len() == unload_identifiers(loaded@).len(),
        forall|i: int| 0 <= i < v@.len() ==> #[trigger] v@[i]@ == unload_identifiers(loaded@)[i],
{
    let mut v: Vec<String> = Vec::new();
    let mut i: usize = 0;
    while i < loaded.len()
        invariant
            i <= loaded@.len(),
            v@.len() == unload_identifiers(loaded@.take(i as int)).len(),
            forall|k: int| 0 <= k < v@.len() ==> #[trigger] v@[k]@ == unload_identifiers(loaded@.take(i as int))[k],
        decreases loaded@.len() - i,
    {
        proof {
            assert(loaded@.take(i + 1).drop_last() =~= loaded@.take(i as int));
            assert(loaded@.take(i + 1).last() == loaded@[i as int]);
        }
        match &loaded[i].identifier {
            Some(identifier) => v.push(identifier.clone()),
            None => {},
        }
        i = i + 1;
    }
    assert(loaded@.take(i as int) =~= loaded@);
    v
}

/// The number of models that have an identifier.
pub open spec fn count_identified(models: Seq<Model>) -> nat
    decreases models.len(),
{
    if models.len() == 0 {
        0
    } else {
        count_identified(models.drop_last()) + if models.last().identifier is Some {
            1nat
        } else {
            0nat
        }
    }
}

/// Unloading everything targets every loaded model that has an identifier,
/// whatever its key: each such identifier is among the targets, every target
/// is the identifier of a loaded model, and there is one target per model
/// with an identifier.
pub proof fn lemma_unload_all_targets_every_identified_model(models: Seq<Model>)
    ensures
        forall|i: int|
            #![trigger models[i]]
            0 <= i < models.len() && models[i].identifier is Some ==> unload_identifiers(
                models,
            ).contains(models[i].identifier->0@),
        forall|k: int|
            #![trigger unload_identifiers(models)[k]]
            0 <= k < unload_identifiers(models).len() ==> exists|i: int|
                0 <= i < models.len() && opt_text(#[trigger] models[i].identifier) == Some(
                    unload_identifiers(models)[k],
                ),
        unload_identifiers(models).len() == count_identified(models),
    decreases models.len(),
{
    if models.len() > 0 {
        let rest = models.drop_last();
        lemma_unload_all_targets_every_identified_model(rest);
        let r = unload_identifiers(rest);
        let u = unload_identifiers(models);
        let n = models.len() - 1;
        assert forall|i: int|
            #![trigger models[i]]
            0 <= i < models.len() && models[i].identifier is Some implies u.contains(
                models[i].identifier->0@,
            ) by {
            if i < n {
                assert(rest[i] == models[i]);
                let k = choose|k: int| 0 <= k < r.len() && r[k] == rest[i].identifier->0@;
                assert(u[k] == r[k]);
            } else {
                assert(u[u.len() - 1] == models[i].identifier->0@);
            }
        }
        assert forall|k: int| #![trigger u[k]] 0 <= k < u.len() implies exists|i: int|
            0 <= i < models.len() && opt_text(#[trigger] models[i].identifier) == Some(u[k]) by {
            if k < r.len() {
                assert(u[k] == r[k]);
                let i = choose|i: int| 0 <= i < rest.len() && opt_text(#[trigger] rest[i].identifier) == Some(r[k]);
                assert(rest[i] == models[i]);
            } else {
                assert(opt_text(models[n].identifier) == Some(u[k]));
            }
        }
    }
}

/// The targets of unloading everything follow the loaded models in order:
/// none for no models, and one more loaded model adds its identifier at the
/// end when it has one and nothing otherwise.
pub proof fn lemma_unload_targets_follow_model_order(models: Seq<Model>, m: Model)
    ensures
        unload_identifiers(Seq::<Model>::empty()) == Seq::<Seq<char>>::empty(),
        unload_identifiers(models.push(m)) == match m.identifier {
            Some(i) => unload_identifiers(models).push(i@),
            None => unload_identifiers(models),
        },
{
    assert(models.push(m).drop_last() =~= models);
}

/// The models of the lists that could be had, LLMs first.
pub open spec fn merged_models(llms: Result<Vec<Model>>, embeddings: Result<Vec<Model>>) -> Seq<Model> {
    (match llms {
        Ok(v) => v@,
        Err(_) => Seq::empty(),
    }) + (match embeddings {
        Ok(v) => v@,
        Err(_) => Seq::empty(),
    })
}

/// All loaded models: the loaded LLMs followed by the loaded embedding
/// models; a list that could not be had contributes nothing.
pub fn merge_loaded_models(llms: Result<Vec<Model>>, embeddings: Result<Vec<Model>>) -> (v: Vec<Model>)
    ensures
        v@ == merged_models(llms, embeddings),
{
    let ghost expected = merged_models(llms, embeddings);
    let mut all: Vec<Model> = match llms {
        Ok(v) => v,
        Err(_) => Vec::new(),
    };
    match embeddings {
        Ok(mut more) => all.append(&mut more),
        Err(_) => {},
    }
    assert(all@ =~= expected);
    all
}

/// All loaded models are every loaded LLM followed by every loaded embedding
/// model, each list in its order; a list that could not be had is left out.
pub proof fn lemma_all_loaded_models_in_order(
    llms: Vec<Model>,
    embeddings: Vec<Model>,
    e1: LMStudioError,
    e2: LMStudioError,
)
    ensures
        merged_models(Ok(llms), Ok(embeddings)).len() == llms@.len() + embeddings@.len(),
        forall|i: int|
            0 <= i < llms@.len() ==> #[trigger] merged_models(Ok(llms), Ok(embeddings))[i] == llms@[i],
        forall|j: int|
            0 <= j < embeddings@.len() ==> merged_models(Ok(llms), Ok(embeddings))[llms@.len() + j]
                == #[trigger] embeddings@[j],
        merged_models(Err(e1), Ok(embeddings)) == embeddings@,
        merged_models(Ok(llms), Err(e2)) == llms@,
        merged_models(Err(e1), Err(e2)).len() == 0,
{
    assert(Seq::<Model>::empty() + embeddings@ =~= embeddings@);
    assert(llms@ + Seq::<Model>::empty() =~= llms@);
}

/// A number drawn from `low..=high` by `rand::thread_rng().gen_range`.
/// Claimed: it lies in the range. Which number comes out is chance and not
/// stated.
#[verifier::external_body]
fn random_between(low: i32, high: i32) -> (r: i32)
    requires
        low <= high,
    ensures
        low <= r <= high,
{
    rand::thread_rng().gen_range(low..=high)
}

/// A random id for a model-loading channel, from 1 to 100000.
pub fn next_channel_id() -> (id: i32)
    ensures
        1 <= id <= 100000,
{
    random_between(1, 100000)
}

/// A random id for a chat channel, from 1 to 99999.
pub fn next_chat_channel_id() -> (id: i32)
    ensures
        1 <= id < 100000,
{
    random_between(1, 99999)
}

/// The message that opens a channel to load a model: the model is asked for
/// by key and identifier, with an empty stack of load configuration layers.
pub open spec fn load_model_channel_view(channel_id: i32, model_identifier: Seq<char>) -> JsonV {
    JsonV::Object(
        seq![
            ("type"@, JsonV::Str("channelCreate"@)),
            ("channelId"@, JsonV::Int(channel_id as int)),
            ("endpoint"@, JsonV::Str("loadModel"@)),
            (
                "creationParameter"@,
                JsonV::Object(
                    seq![
                        ("modelKey"@, JsonV::Str(model_identifier)),
                        ("identifier"@, JsonV::Str(model_identifier)),
                        (
                            "loadConfigStack"@,
                            JsonV::Object(seq![("layers"@, JsonV::Array(Seq::empty()))]),
                        ),
                    ],
                ),
            ),
        ],
    )
}

/// The message that opens a model-loading channel.
pub fn load_model_channel_message(channel_id: i32, model_identifier: &str) -> (j: Json)
    ensures
        j@ == load_model_channel_view(channel_id, model_identifier@),
{
    let stack = Json::object().with("layers", Json::array());
    let param = Json::object().with("modelKey", Json::string(model_identifier)).with(
        "identifier",
        Json::string(model_identifier),
    ).with("loadConfigStack", stack);
    let j = Json::object().with("type", Json::string("channelCreate")).with(
        "channelId",
        Json::integer(channel_id as i64),
    ).with("endpoint", Json::string("loadModel")).with("creationParameter", param);
    proof {
        let expected = load_model_channel_view(channel_id, model_identifier@);
        assert(stack@->Object_0 =~= seq![("layers"@, JsonV::Array(Seq::empty()))]);
        assert(param@->Object_0 =~= expected->Object_0[3].1->Object_0);
        assert(j@->Object_0 =~= expected->Object_0);
    }
    j
}

/// The message that opens a chat channel: the model is named by instance
/// reference, the history holds the prompt as one user message with one text
/// part, and one "instance" configuration layer sets the temperature, at most
/// 4096 tokens, streaming, and no fields.
pub open spec fn predict_channel_view(
    channel_id: i32,
    instance_reference: Seq<char>,
    prompt: Seq<char>,
    temperature: JsonV,
) -> JsonV {
    JsonV::Object(
        seq![
            ("type"@, JsonV::Str("channelCreate"@)),
            ("channelId"@, JsonV::Int(channel_id as int)),
            ("endpoint"@, JsonV::Str("predict"@)),
            (
                "creationParameter"@,
                JsonV::Object(
                    seq![
                        (
                            "modelSpecifier"@,
                            JsonV::Object(
                                seq![
                                    ("type"@, JsonV::Str("instanceReference"@)),
                                    ("instanceReference"@, JsonV::Str(instance_reference)),
                                ],
                            ),
                        ),
                        (
                            "history"@,
                            JsonV::Object(
                                seq![
                                    (
                                        "messages"@,
                                        JsonV::Array(
                                            seq![
                                                JsonV::Object(
                                                    seq![
                                                        ("role"@, JsonV::Str("user"@)),
                                                        (
                                                            "content"@,
                                                            JsonV::Array(
                                                                seq![
                                                                    JsonV::Object(
                                                                        seq![
                                                                            ("type"@, JsonV::Str("text"@)),
                                                                            ("text"@, JsonV::Str(prompt)),
                                                                        ],
                                                                    ),
                                                                ],
                                                            ),
                                                        ),
                                                    ],
                                                ),
                                            ],
                                        ),
                                    ),
                                ],
                            ),
                        ),
                        (
                            "predictionConfigStack"@,
                            JsonV::Object(
                                seq![
                                    (
                                        "layers"@,
                                        JsonV::Array(
                                            seq![
                                                JsonV::Object(
                                                    seq![
                                                        ("layerName"@, JsonV::Str("instance"@)),
                                                        (
                                                            "config"@,
                                                            JsonV::Object(
                                                                seq![
                                                                    ("temperature"@, temperature),
                                                                    ("maxTokens"@, JsonV::Int(4096)),
                                                                    ("stream"@, JsonV::Bool(true)),
                                                                    ("fields"@, JsonV::Array(Seq::empty())),
                                                                ],
                                                            ),
                                                        ),
                                                    ],
                                                ),
                                            ],
                                        ),
                                    ),
                                ],
                            ),
                        ),
                    ],
                ),
            ),
        ],
    )
}

/// The message that opens a chat channel for `prompt` at `temperature` (a
/// JSON number).
pub fn predict_channel_message(
    channel_id: i32,
    instance_reference: &str,
    prompt: &str,
    temperature: Json,
) -> (j: Json)
    ensures
        j@ == predict_channel_view(channel_id, instance_reference@, prompt@, temperature@),
{
    let ghost t = temperature@;
    let specifier = Json::object().with("type", Json::string("instanceReference")).with(
        "instanceReference",
        Json::string(instance_reference),
    );
    let part = Json::object().with("type", Json::string("text")).with("text", Json::string(prompt));
    let ghost part_v = part@;
    let content = Json::array().with_item(part);
    let ghost content_v = content@;
    let message = Json::object().with("role", Json::string("user")).with("content", content);
    let ghost message_v = message@;
    let messages = Json::array().with_item(message);
    let ghost messages_v = messages@;
    let history = Json::object().with("messages", messages);
    let config = Json::object().with("temperature", temperature).with(
        "maxTokens",
        Json::integer(4096),
    ).with("stream", Json::Bool(true)).with("fields", Json::array());
    let ghost config_v = config@;
    let layer = Json::object().with("layerName", Json::string("instance")).with("config", config);
    let ghost layer_v = layer@;
    let layers = Json::array().with_item(layer);
    let ghost layers_v = layers@;
    let stack = Json::object().with("layers", layers);
    let ghost specifier_v = specifier@;
    let ghost history_v = history@;
    let ghost stack_v = stack@;
    let param = Json::object().with("modelSpecifier", specifier).with("history", history).with(
        "predictionConfigStack",
        stack,
    );
    let ghost param_v = param@;
    let j = Json::object().with("type", Json::string("channelCreate")).with(
        "channelId",
        Json::integer(channel_id as i64),
    ).with("endpoint", Json::string("predict")).with("creationParameter", param);
    proof {
        let e = predict_channel_view(channel_id, instance_reference@, prompt@, t);
        let ep = e->Object_0[3].1;
        assert(specifier_v->Object_0 =~= ep->Object_0[0].1->Object_0);
        let eh = ep->Object_0[1].1;
        let em = eh->Object_0[0].1->Array_0[0];
        assert(part_v->Object_0 =~= em->Object_0[1].1->Array_0[0]->Object_0);
        assert(content_v->Array_0 =~= em->Object_0[1].1->Array_0);
        assert(message_v->Object_0 =~= em->Object_0);
        assert(messages_v->Array_0 =~= eh->Object_0[0].1->Array_0);
        assert(history_v->Object_0 =~= eh->Object_0);
        let es = ep->Object_0[2].1;
        let el = es->Object_0[0].1->Array_0[0];
        assert(config_v->Object_0 =~= el->Object_0[1].1->Object_0);
        assert(layer_v->Object_0 =~= el->Object_0);
        assert(layers_v->Array_0 =~= es->Object_0[0].1->Array_0);
        assert(stack_v->Object_0 =~= es->Object_0);
        assert(param_v->Object_0 =~= ep->Object_0);
        assert(j@->Object_0 =~= e->Object_0);
    }
    j
}

/// The parameters of an unload call: the model's identifier.
pub open spec fn unload_params_view(model_identifier: Seq<char>) -> JsonV {
    JsonV::Object(seq![("identifier"@, JsonV::Str(model_identifier))])
}

/// The parameters of the "unloadModel" call for a model.
pub fn unload_model_params(model_identifier: &str) -> (j: Json)
    ensures
        j@ == unload_params_view(model_identifier@),
{
    let j = Json::object().with("identifier", Json::string(model_identifier));
    assert(j@->Object_0 =~= unload_params_view(model_identifier@)->Object_0);
    j
}

/// What a message of a chat channel means to the chat.
#[derive(Debug)]
pub enum StreamEvent {
    /// A piece of the answer.
    Token(String),
    /// The answer is complete, or the channel was closed.
    Finished,
    /// The channel reported an error; the chat ends.
    ChannelError,
    /// Nothing for the chat: progress, unknown or malformed messages, empty pieces.
    Ignored,
}

/// The meaning of a chat-channel message: for "channelSend" whose "message"
/// is an object, a "fragment" with non-empty string "content" in an object
/// "fragment" is a piece of the answer and "success" ends the chat;
/// "channelClose" ends the chat, "channelError" ends it with an error;
/// everything else is ignored.
pub open spec fn stream_event_view(message: JsonV) -> (Option<Seq<char>>, bool, bool) {
    // (token, finished, channel error)
    match string_member(message, "type"@) {
        Some(t) => if t == "channelSend"@ {
            let inner = member(message, "message"@);
            if is_object(inner) {
                match string_member(inner->0, "type"@) {
                    Some(c) => if c == "fragment"@ {
                        let fragment = member(inner->0, "fragment"@);
                        if is_object(fragment) {
                            match string_member(fragment->0, "content"@) {
                                Some(text) => if text.len() > 0 {
                                    (Some(text), false, false)
                                } else {
                                    (None, false, false)
                                },
                                None => (None, false, false),
                            }
                        } else {
                            (None, false, false)
                        }
                    } else if c == "success"@ {
                        (None, true, false)
                    } else {
                        (None, false, false)
                    },
                    None => (None, false, false),
                }
            } else {
                (None, false, false)
            }
        } else if t == "channelClose"@ {
            (None, true, false)
        } else if t == "channelError"@ {
            (None, false, true)
        } else {
            (None, false, false)
        },
        None => (None, false, false),
    }
}

/// A fragment of the answer is handed on exactly as it came: for a
/// "channelSend" message whose "message" object has type "fragment" and a
/// "fragment" object whose "content" is a non-empty string `c`, the token is
/// `c`, character for character, and the chat goes on.
pub proof fn lemma_fragment_content_is_the_token(message: JsonV, inner: JsonV, fragment: JsonV, c: Seq<char>)
    requires
        member(message, "type"@) == Some(JsonV::Str("channelSend"@)),
        member(message, "message"@) == Some(inner),
        inner is Object,
        member(inner, "type"@) == Some(JsonV::Str("fragment"@)),
        member(inner, "fragment"@) == Some(fragment),
        fragment is Object,
        member(fragment, "content"@) == Some(JsonV::Str(c)),
        c.len() > 0,
    ensures
        stream_event_view(message) == (Some(c), false, false),
{
}

/// A chat ends on a "channelSend" whose message has type "success", and on
/// "channelClose"; it ends with an error on "channelError".
pub proof fn lemma_chat_endings(message: JsonV, inner: JsonV)
    ensures
        member(message, "type"@) == Some(JsonV::Str("channelSend"@)) && member(message, "message"@)
            == Some(inner) && inner is Object && member(inner, "type"@) == Some(
            JsonV::Str("success"@),
        ) ==> stream_event_view(message) == (None::<Seq<char>>, true, false),
        member(message, "type"@) == Some(JsonV::Str("channelClose"@)) ==> stream_event_view(message)
            == (None::<Seq<char>>, true, false),
        member(message, "type"@) == Some(JsonV::Str("channelError"@)) ==> stream_event_view(message)
            == (None::<Seq<char>>, false, true),
{
    reveal_strlit("channelSend");
    reveal_strlit("channelClose");
    reveal_strlit("channelError");
    reveal_strlit("fragment");
    reveal_strlit("success");
    assert("channelSend"@ != "channelClose"@) by {
        assert("channelSend"@[7] != "channelClose"@[7]);
    }
    assert("channelSend"@ != "channelError"@) by {
        assert("channelSend"@[7] != "channelError"@[7]);
    }
    assert("channelClose"@ != "channelError"@) by {
        assert("channelClose"@[7] != "channelError"@[7]);
    }
    assert("fragment"@ != "success"@) by {
        assert("fragment"@.len() != "success"@.len());
    }
}

/// The member `key` of `j` as a string.
pub fn string_member_exec<'a>(j: &'a Json, key: &str) -> (r: Option<&'a str>)
    ensures
        match r {
            Some(s) => string_member(j@, key@) == Some(s@),
            None => string_member(j@, key@) is None,
        },
{
    match j.get(key) {
        Some(v) => v.as_str(),
        None => None,
    }
}

/// Reads a message of a chat channel (see [`stream_event_view`]).
pub fn stream_event(message: &Json) -> (e: StreamEvent)
    ensures
        match e {
            StreamEvent::Token(t) => stream_event_view(message@) == (Some(t@), false, false),
            StreamEvent::Finished => stream_event_view(message@) == (None::<Seq<char>>, true, false),
            StreamEvent::ChannelError => stream_event_view(message@) == (None::<Seq<char>>, false, true),
            StreamEvent::Ignored => stream_event_view(message@) == (None::<Seq<char>>, false, false),
        },
{
    let t = match string_member_exec(message, "type") {
        Some(t) => t,
        None => {
            return StreamEvent::Ignored;
        },
    };
    if str_eq(t, "channelSend") {
        let inner = match message.get("message") {
            Some(inner) => inner,
            None => {
                return StreamEvent::Ignored;
            },
        };
        if !inner.is_object() {
            return StreamEvent::Ignored;
        }
        let c = match string_member_exec(inner, "type") {
            Some(c) => c,
            None => {
                return StreamEvent::Ignored;
            },
        };
        if str_eq(c, "fragment") {
            let fragment = match inner.get("fragment") {
                Some(f) => f,
                None => {
                    return StreamEvent::Ignored;
                },
            };
            if !fragment.is_object() {
                return StreamEvent::Ignored;
            }
            match string_member_exec(fragment, "content") {
                Some(text) => {
                    if text.is_empty() {
                        StreamEvent::Ignored
                    } else {
                        StreamEvent::Token(text.to_owned())
                    }
                },
                None => StreamEvent::Ignored,
            }
        } else if str_eq(c, "success") {
            StreamEvent::Finished
        } else {
            StreamEvent::Ignored
        }
    } else if str_eq(t, "channelClose") {
        StreamEvent::Finished
    } else if str_eq(t, "channelError") {
        StreamEvent::ChannelError
    } else {
        StreamEvent::Ignored
    }
}

/// The CLI's word for unloading every model: "all", in any mix of cases.
pub open spec fn is_all_word(s: Seq<char>) -> bool {
    &&& s.len() == 3
    &&& (s[0] == 'a' || s[0] == 'A')
    &&& (s[1] == 'l' || s[1] == 'L')
    &&& (s[2] == 'l' || s[2] == 'L')
}

/// Whether an unload target names every model ("all", case-insensitively).
pub fn is_unload_all(target: &str) -> (b: bool)
    ensures
        b == is_all_word(target@),
{
    let c = chars_of(target);
    c.len() == 3 && (c[0] == 'a' || c[0] == 'A') && (c[1] == 'l' || c[1] == 'L') && (c[2] == 'l'
        || c[2] == 'L')
}

/// The model a prompt goes to when none is named: the key of the first
/// loaded model; an error when no model is loaded.
pub fn default_prompt_model(loaded: &[Model]) -> (r: Result<String>)
    ensures
        loaded@.len() > 0 ==> (r matches Ok(k) && k@ == loaded@[0].model_key@),
        loaded@.len() == 0 ==> (r matches Err(LMStudioError::Other(m)) && m@
            == "No models loaded. Please load a model first or specify a model with --model"@),
{
    if loaded.len() == 0 {
        return Err(
            LMStudioError::other(
                "No models loaded. Please load a model first or specify a model with --model",
            ),
        );
    }
    Ok(loaded[0].model_key.clone())
}

/// How a whole number of seconds is written in a timeout message: "<n>s",
/// or "0ns" for zero.
pub open spec fn seconds_text(secs: nat) -> Seq<char> {
    if secs == 0 {
        "0ns"@
    } else {
        digits(secs) + "s"@
    }
}

/// The message of a load that timed out: "Model loading timeout after
/// <timeout>: <model>".
pub open spec fn loading_timeout_text(timeout_secs: nat, model_identifier: Seq<char>) -> Seq<char> {
    "Model loading timeout after "@ + seconds_text(timeout_secs) + ": "@ + model_identifier
}

/// The error of a load that did not finish within `timeout_secs` seconds.
pub fn loading_timeout_error(timeout_secs: u64, model_identifier: &str) -> (e: LMStudioError)
    ensures
        e matches LMStudioError::LoadingTimeout(m) && m@ == loading_timeout_text(
            timeout_secs as nat,
            model_identifier@,
        ),
{
    let mut m = "Model loading timeout after ".to_owned();
    if timeout_secs == 0 {
        m.append("0ns");
    } else {
        push_digits(&mut m, timeout_secs as u128);
        m.append("s");
    }
    m.append(": ");
    m.append(model_identifier);
    proof {
        reveal_strlit("0ns");
        reveal_strlit("s");
    }
    assert(m@ =~= loading_timeout_text(timeout_secs as nat, model_identifier@));
    LMStudioError::LoadingTimeout(m)
}

/// How a load begins, given whether the model exists among the downloaded
/// models and whether it is already loaded.
#[derive(Debug)]
pub enum LoadStart {
    /// The model does not exist: the load fails with this error.
    Fail(LMStudioError),
    /// The model is loaded already: report full progress once, open no channel.
    AlreadyLoaded,
    /// Open a loading channel and ask for the load.
    OpenChannel,
}

/// The first step of a load: fail when the existence check failed, stop
/// early when the model is loaded already, else open a loading channel.
pub fn load_start(model_exists: Result<()>, already_loaded: bool) -> (s: LoadStart)
    ensures
        match model_exists {
            Err(e) => s matches LoadStart::Fail(e2) && e2 == e,
            Ok(()) => if already_loaded {
                s is AlreadyLoaded
            } else {
                s is OpenChannel
            },
        },
{
    match model_exists {
        Err(e) => LoadStart::Fail(e),
        Ok(()) => if already_loaded {
            LoadStart::AlreadyLoaded
        } else {
            LoadStart::OpenChannel
        },
    }
}

/// What a load does with a progress update.
#[derive(Debug, Clone, Copy, PartialEq, Eq, Structural)]
pub enum ProgressStep {
    /// A cancellation was asked for: cancel the load and fail, without
    /// reporting this update.
    CancelAndFail,
    /// Report the update and keep waiting.
    Report,
    /// Report the update; the load is complete.
    ReportAndFinish,
}

/// The step for a progress update: a requested cancellation comes first;
/// otherwise the update is reported, and the load ends when it is complete.
pub fn on_load_progress(cancel_requested: bool, complete: bool) -> (s: ProgressStep)
    ensures
        cancel_requested ==> s == ProgressStep::CancelAndFail,
        !cancel_requested && complete ==> s == ProgressStep::ReportAndFinish,
        !cancel_requested && !complete ==> s == ProgressStep::Report,
{
    if cancel_requested {
        ProgressStep::CancelAndFail
    } else if complete {
        ProgressStep::ReportAndFinish
    } else {
        ProgressStep::Report
    }
}

/// The result of a load: what the wait for progress ended with, or, when it
/// did not end within `timeout_secs` seconds, the timeout error.
pub fn load_outcome(finished: Option<Result<()>>, timeout_secs: u64, model_identifier: &str) -> (r: Result<()>)
    ensures
        match finished {
            Some(x) => r == x,
            None => r matches Err(LMStudioError::LoadingTimeout(m)) && m@ == loading_timeout_text(
                timeout_secs as nat,
                model_identifier@,
            ),
        },
{
    match finished {
        Some(x) => x,
        None => Err(loading_timeout_error(timeout_secs, model_identifier)),
    }
}

} // verus!
