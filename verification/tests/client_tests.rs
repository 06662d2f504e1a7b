use lmstudio_rust::client::{
    downloaded_model_info, load_outcome, load_start, loaded_model_info, on_load_progress, LoadStart,
    ProgressStep,
    check_model_exists, default_prompt_model, find_downloaded_model, find_loaded_model,
    is_model_already_loaded, is_unload_all, load_model_channel_message, loading_timeout_error,
    merge_loaded_models, model_matches_downloaded, model_matches_loaded,
    model_matches_prompt_target, next_channel_id, next_chat_channel_id, predict_channel_message,
    resolve_instance_reference, select_api_host, stream_event, unload_model_params,
    unload_targets, StreamEvent,
};
use lmstudio_rust::json::Json;
use lmstudio_rust::{LMStudioError, Model};

fn same(a: &Json, b: &Json) -> bool {
    format!("{:?}", a) == format!("{:?}", b)
}

fn obj(entries: Vec<(&str, Json)>) -> Json {
    let mut j = Json::object();
    for (k, v) in entries {
        j = j.with(k, v);
    }
    j
}

fn arr(items: Vec<Json>) -> Json {
    let mut j = Json::array();
    for v in items {
        j = j.with_item(v);
    }
    j
}

fn model(key: &str, identifier: Option<&str>, path: &str, instance: Option<&str>) -> Model {
    Model {
        model_key: key.to_string(),
        path: path.to_string(),
        model_type: "llm".to_string(),
        format: None,
        size: None,
        max_context_length: None,
        display_name: None,
        architecture: None,
        vision: None,
        trained_for_tool_use: None,
        identifier: identifier.map(|s| s.to_string()),
        instance_reference: instance.map(|s| s.to_string()),
        context_length: None,
        legacy_model_type: None,
        family: None,
        model_name: None,
        is_loaded: false,
    }
}

#[test]
fn api_host_selection() {
    let default = "http://localhost:1234".to_string();
    assert_eq!(select_api_host(Some("http://h:1"), None, default.clone()), "http://h:1");
    assert_eq!(
        select_api_host(Some("http://h:1"), Some(Ok("http://d:2".to_string())), default.clone()),
        "http://h:1"
    );
    assert_eq!(select_api_host(None, Some(Ok("http://d:2".to_string())), default.clone()), "http://d:2");
    assert_eq!(
        select_api_host(None, Some(Err(LMStudioError::other("none"))), default.clone()),
        "http://localhost:1234"
    );
    assert_eq!(select_api_host(None, None, default.clone()), "http://localhost:1234");
}

#[test]
fn matching_rules() {
    let m = model("qwen/qwen3-8b", Some("qwen3"), "/models/qwen/qwen3-8b-q4.gguf", None);
    assert!(model_matches_downloaded(&m, "qwen/qwen3-8b"));
    assert!(model_matches_downloaded(&m, "qwen3"));
    assert!(model_matches_downloaded(&m, "q4.gguf"));
    assert!(!model_matches_downloaded(&m, "llama"));
    assert!(model_matches_loaded(&m, "qwen3"));
    assert!(!model_matches_loaded(&m, "q4.gguf"));
    // with an identifier, a prompt target is found by identifier or key
    assert!(model_matches_prompt_target(&m, "qwen3"));
    assert!(model_matches_prompt_target(&m, "qwen/qwen3-8b"));
    let bare = model("k", None, "/p", None);
    assert!(model_matches_prompt_target(&bare, "k"));
    assert!(!model_matches_prompt_target(&bare, "/p"));
}

#[test]
fn model_existence() {
    let downloaded = vec![model("a", None, "/x/a.gguf", None), model("b", Some("bee"), "/x/b.gguf", None)];
    assert!(check_model_exists(&downloaded, "bee").is_ok());
    assert!(check_model_exists(&downloaded, "a.gguf").is_ok());
    match check_model_exists(&downloaded, "c") {
        Err(LMStudioError::ModelNotFound(m)) => assert_eq!(m, "c"),
        other => panic!("unexpected {:?}", other),
    }
    match check_model_exists(&[], "a") {
        Err(LMStudioError::ModelNotFound(m)) => assert_eq!(m, "a"),
        other => panic!("unexpected {:?}", other),
    }
}

#[test]
fn already_loaded() {
    let loaded = Ok(vec![model("a", Some("a:2"), "/a", None)]);
    assert!(is_model_already_loaded(&loaded, "a"));
    assert!(is_model_already_loaded(&loaded, "a:2"));
    assert!(!is_model_already_loaded(&loaded, "/a"));
    assert!(!is_model_already_loaded(&Err(LMStudioError::other("down")), "a"));
}

#[test]
fn finding_models() {
    let loaded = vec![model("a", None, "/a", None), model("b", Some("x"), "/b", None), model("x", None, "/c", None)];
    assert_eq!(find_loaded_model(&loaded, "x"), Some(1));
    assert_eq!(find_loaded_model(&loaded, "a"), Some(0));
    assert_eq!(find_loaded_model(&loaded, "z"), None);
    assert_eq!(find_downloaded_model(&loaded, "x"), Some(2));
    assert_eq!(find_downloaded_model(&loaded, "/a"), None);
}

#[test]
fn instance_reference_resolution() {
    let loaded = vec![
        model("a", Some("a-1"), "/a", Some("ref-a")),
        model("b", None, "/b", None),
        model("c", Some("c-1"), "/c", Some("ref-c")),
    ];
    assert_eq!(resolve_instance_reference(&loaded, "a-1").unwrap(), "ref-a");
    assert_eq!(resolve_instance_reference(&loaded, "c").unwrap(), "ref-c");
    match resolve_instance_reference(&loaded, "b") {
        Err(LMStudioError::InvalidResponse(m)) => assert_eq!(m, "Model missing instance reference"),
        other => panic!("unexpected {:?}", other),
    }
    match resolve_instance_reference(&loaded, "zzz") {
        Err(LMStudioError::ModelNotFound(m)) => assert_eq!(m, "zzz"),
        other => panic!("unexpected {:?}", other),
    }
}

#[test]
fn unloading_everything_targets_models_with_identifiers() {
    let loaded = vec![model("a", Some("a-1"), "/a", None), model("b", None, "/b", None), model("c", Some("c-1"), "/c", None)];
    assert_eq!(unload_targets(&loaded), vec!["a-1".to_string(), "c-1".to_string()]);
    assert!(unload_targets(&[]).is_empty());
}

#[test]
fn all_loaded_models_are_llms_then_embeddings() {
    let llms = Ok(vec![model("l1", None, "/1", None), model("l2", None, "/2", None)]);
    let embeddings = Ok(vec![model("e1", None, "/3", None)]);
    let keys: Vec<String> = merge_loaded_models(llms, embeddings).into_iter().map(|m| m.model_key).collect();
    assert_eq!(keys, vec!["l1", "l2", "e1"]);
    let keys: Vec<String> = merge_loaded_models(Err(LMStudioError::other("x")), Ok(vec![model("e1", None, "/3", None)]))
        .into_iter()
        .map(|m| m.model_key)
        .collect();
    assert_eq!(keys, vec!["e1"]);
    assert!(merge_loaded_models(Ok(vec![]), Err(LMStudioError::other("y"))).is_empty());
}

#[test]
fn channel_ids_stay_in_range() {
    let mut seen = std::collections::HashSet::new();
    for _ in 0..1000 {
        let id = next_channel_id();
        assert!((1..=100000).contains(&id));
        let chat = next_chat_channel_id();
        assert!((1..100000).contains(&chat));
        seen.insert(id);
        seen.insert(chat);
    }
    // the ids are drawn at random, not fixed
    assert!(seen.len() > 100);
}

#[test]
fn load_model_channel_message_shape() {
    let j = load_model_channel_message(17, "qwen/qwen3-8b");
    let expected = obj(vec![
        ("type", Json::string("channelCreate")),
        ("channelId", Json::integer(17)),
        ("endpoint", Json::string("loadModel")),
        (
            "creationParameter",
            obj(vec![
                ("modelKey", Json::string("qwen/qwen3-8b")),
                ("identifier", Json::string("qwen/qwen3-8b")),
                ("loadConfigStack", obj(vec![("layers", Json::array())])),
            ]),
        ),
    ]);
    assert!(same(&j, &expected));
}

#[test]
fn predict_channel_message_shape() {
    let j = predict_channel_message(5, "inst-1", "Tell me a joke", Json::Decimal("0.7".to_string()));
    let expected = obj(vec![
        ("type", Json::string("channelCreate")),
        ("channelId", Json::integer(5)),
        ("endpoint", Json::string("predict")),
        (
            "creationParameter",
            obj(vec![
                (
                    "modelSpecifier",
                    obj(vec![
                        ("type", Json::string("instanceReference")),
                        ("instanceReference", Json::string("inst-1")),
                    ]),
                ),
                (
                    "history",
                    obj(vec![(
                        "messages",
                        arr(vec![obj(vec![
                            ("role", Json::string("user")),
                            (
                                "content",
                                arr(vec![obj(vec![
                                    ("type", Json::string("text")),
                                    ("text", Json::string("Tell me a joke")),
                                ])]),
                            ),
                        ])]),
                    )]),
                ),
                (
                    "predictionConfigStack",
                    obj(vec![(
                        "layers",
                        arr(vec![obj(vec![
                            ("layerName", Json::string("instance")),
                            (
                                "config",
                                obj(vec![
                                    ("temperature", Json::Decimal("0.7".to_string())),
                                    ("maxTokens", Json::integer(4096)),
                                    ("stream", Json::Bool(true)),
                                    ("fields", Json::array()),
                                ]),
                            ),
                        ])]),
                    )]),
                ),
            ]),
        ),
    ]);
    assert!(same(&j, &expected));
}

#[test]
fn unload_params_name_the_model() {
    assert!(same(&unload_model_params("m-1"), &obj(vec![("identifier", Json::string("m-1"))])));
}

fn channel_send(inner: Json) -> Json {
    obj(vec![("type", Json::string("channelSend")), ("message", inner)])
}

#[test]
fn stream_events() {
    let fragment = channel_send(obj(vec![
        ("type", Json::string("fragment")),
        ("fragment", obj(vec![("content", Json::string("Hel"))])),
    ]));
    match stream_event(&fragment) {
        StreamEvent::Token(t) => assert_eq!(t, "Hel"),
        other => panic!("unexpected {:?}", other),
    }
    let empty = channel_send(obj(vec![
        ("type", Json::string("fragment")),
        ("fragment", obj(vec![("content", Json::string(""))])),
    ]));
    assert!(matches!(stream_event(&empty), StreamEvent::Ignored));
    assert!(matches!(
        stream_event(&channel_send(obj(vec![("type", Json::string("success"))]))),
        StreamEvent::Finished
    ));
    assert!(matches!(
        stream_event(&channel_send(obj(vec![("type", Json::string("promptProcessingProgress"))]))),
        StreamEvent::Ignored
    ));
    assert!(matches!(stream_event(&obj(vec![("type", Json::string("channelClose"))])), StreamEvent::Finished));
    assert!(matches!(stream_event(&obj(vec![("type", Json::string("channelError"))])), StreamEvent::ChannelError));
    assert!(matches!(stream_event(&obj(vec![("type", Json::string("other"))])), StreamEvent::Ignored));
    assert!(matches!(stream_event(&Json::Null), StreamEvent::Ignored));
    // a fragment that is not an object
    let bad = channel_send(obj(vec![("type", Json::string("fragment")), ("fragment", Json::string("x"))]));
    assert!(matches!(stream_event(&bad), StreamEvent::Ignored));
}

#[test]
fn unload_all_keyword() {
    for yes in ["all", "ALL", "All", "aLl"] {
        assert!(is_unload_all(yes), "{}", yes);
    }
    for no in ["al", "alll", " all", "qwen", ""] {
        assert!(!is_unload_all(no), "{}", no);
    }
}

#[test]
fn default_prompt_model_is_the_first_loaded() {
    let loaded = vec![model("first", Some("f"), "/1", None), model("second", None, "/2", None)];
    assert_eq!(default_prompt_model(&loaded).unwrap(), "first");
    match default_prompt_model(&[]) {
        Err(LMStudioError::Other(m)) => {
            assert_eq!(m, "No models loaded. Please load a model first or specify a model with --model")
        }
        other => panic!("unexpected {:?}", other),
    }
}

#[test]
fn loading_timeout_messages() {
    match loading_timeout_error(300, "qwen") {
        LMStudioError::LoadingTimeout(m) => {
            assert_eq!(m, format!("Model loading timeout after {:?}: {}", std::time::Duration::from_secs(300), "qwen"));
            assert_eq!(m, "Model loading timeout after 300s: qwen");
        }
        other => panic!("unexpected {:?}", other),
    }
    match loading_timeout_error(0, "m") {
        LMStudioError::LoadingTimeout(m) => {
            assert_eq!(m, format!("Model loading timeout after {:?}: {}", std::time::Duration::from_secs(0), "m"))
        }
        other => panic!("unexpected {:?}", other),
    }
}

#[test]
fn prompt_targets_are_loaded_matches_and_loaded_matches_are_downloaded_matches() {
    let models = [
        model("k", Some("i"), "/dir/k.gguf", None),
        model("k", None, "/dir/k.gguf", None),
        model("other", Some("k"), "/x", None),
    ];
    for m in &models {
        for id in ["k", "i", "other", "/dir", "x", ""] {
            if model_matches_prompt_target(m, id) {
                assert!(model_matches_loaded(m, id));
            }
            if model_matches_loaded(m, id) {
                assert!(model_matches_downloaded(m, id));
            }
        }
    }
}

#[test]
fn model_information_prefers_loaded_matches() {
    let loaded = vec![model("a", Some("a-1"), "/a", Some("r")), model("b", None, "/b", None)];
    let m = loaded_model_info(&loaded, "a-1").unwrap();
    assert_eq!((m.model_key.as_str(), m.instance_reference.as_deref()), ("a", Some("r")));
    assert!(loaded_model_info(&loaded, "/a").is_none());
    let downloaded = vec![model("x", Some("c"), "/x", None), model("c", None, "/c", None)];
    assert_eq!(downloaded_model_info(&downloaded, "c").unwrap().path, "/c");
    match downloaded_model_info(&downloaded, "zz") {
        Err(LMStudioError::ModelNotFound(m)) => assert_eq!(m, "zz"),
        other => panic!("unexpected {:?}", other),
    }
}

#[test]
fn load_steps() {
    match load_start(Err(LMStudioError::model_not_found("m")), true) {
        LoadStart::Fail(LMStudioError::ModelNotFound(m)) => assert_eq!(m, "m"),
        other => panic!("unexpected {:?}", other),
    }
    assert!(matches!(load_start(Ok(()), true), LoadStart::AlreadyLoaded));
    assert!(matches!(load_start(Ok(()), false), LoadStart::OpenChannel));

    assert_eq!(on_load_progress(true, true), ProgressStep::CancelAndFail);
    assert_eq!(on_load_progress(true, false), ProgressStep::CancelAndFail);
    assert_eq!(on_load_progress(false, true), ProgressStep::ReportAndFinish);
    assert_eq!(on_load_progress(false, false), ProgressStep::Report);
}

#[test]
fn load_outcomes() {
    assert!(load_outcome(Some(Ok(())), 300, "m").is_ok());
    match load_outcome(Some(Err(LMStudioError::model_loading_cancelled("m"))), 300, "m") {
        Err(LMStudioError::Other(msg)) => assert_eq!(msg, "Model loading cancelled: m"),
        other => panic!("unexpected {:?}", other),
    }
    match load_outcome(None, 300, "m") {
        Err(LMStudioError::LoadingTimeout(msg)) => assert_eq!(msg, "Model loading timeout after 300s: m"),
        other => panic!("unexpected {:?}", other),
    }
}
