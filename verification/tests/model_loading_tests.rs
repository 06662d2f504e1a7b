use lmstudio_rust::json::Json;
use lmstudio_rust::model_loading::{
    cancel_plan, cancel_unload_message, channel_abort_message, CancelPlan, channel_close_message, loading_event,
    progress_ended_error, LoadingEvent, LoadingParams,
};
use lmstudio_rust::LMStudioError;

fn same(a: &Json, b: &Json) -> bool {
    format!("{:?}", a) == format!("{:?}", b)
}

fn obj(entries: Vec<(&str, Json)>) -> Json {
    let mut j = Json::object();
    for (k, v) in entries {
        j = j.with(k, v);
    }
    j
}

#[test]
fn test_loading_params() {
    let params = LoadingParams::new("test-model")
        .with_gpu_offload(32)
        .with_context_length(4096);

    let json = params.to_json();
    assert_eq!(json.get("modelIdentifier").and_then(|v| v.as_str()), Some("test-model"));
    assert_eq!(json.get("gpuOffload").and_then(|v| v.as_i64()), Some(32));
    assert_eq!(json.get("contextLength").and_then(|v| v.as_i64()), Some(4096));
}

#[test]
fn test_loading_params_minimal() {
    let params = LoadingParams::new("test-model");
    let json = params.to_json();

    assert_eq!(json.get("modelIdentifier").and_then(|v| v.as_str()), Some("test-model"));
    assert!(json.get("gpuOffload").is_none());
    assert!(json.get("contextLength").is_none());
}

#[test]
fn loading_params_with_config_in_order() {
    let config = obj(vec![("flashAttention", Json::Bool(true))]);
    let params = LoadingParams::new("m").with_context_length(8).with_config(config).with_gpu_offload(-1);
    let expected = obj(vec![
        ("modelIdentifier", Json::string("m")),
        ("config", obj(vec![("flashAttention", Json::Bool(true))])),
        ("gpuOffload", Json::integer(-1)),
        ("contextLength", Json::integer(8)),
    ]);
    assert!(same(&params.to_json(), &expected));
}

fn channel_send(inner: Json) -> Json {
    obj(vec![("type", Json::string("channelSend")), ("message", inner)])
}

#[test]
fn loading_events_read_from_channel_messages() {
    let info = obj(vec![("modelKey", Json::string("k"))]);
    match loading_event(&channel_send(obj(vec![("type", Json::string("resolved")), ("info", info)]))) {
        LoadingEvent::Resolved(j) => assert_eq!(j.get("modelKey").and_then(|v| v.as_str()), Some("k")),
        other => panic!("unexpected {:?}", other),
    }
    match loading_event(&channel_send(obj(vec![
        ("type", Json::string("progress")),
        ("progress", Json::Decimal("0.25".to_string())),
    ]))) {
        LoadingEvent::Progress(p) => assert!(same(&p, &Json::Decimal("0.25".to_string()))),
        other => panic!("unexpected {:?}", other),
    }
    match loading_event(&channel_send(obj(vec![
        ("type", Json::string("progress")),
        ("progress", Json::integer(1)),
    ]))) {
        LoadingEvent::Progress(p) => assert_eq!(p.as_i64(), Some(1)),
        other => panic!("unexpected {:?}", other),
    }
    assert!(matches!(
        loading_event(&channel_send(obj(vec![("type", Json::string("success"))]))),
        LoadingEvent::Succeeded
    ));
    assert!(matches!(
        loading_event(&channel_send(obj(vec![("type", Json::string("error"))]))),
        LoadingEvent::Failed
    ));
    assert!(matches!(
        loading_event(&obj(vec![("type", Json::string("channelClose"))])),
        LoadingEvent::ChannelClosed
    ));
    assert!(matches!(
        loading_event(&obj(vec![("type", Json::string("channelError"))])),
        LoadingEvent::ChannelError
    ));
}

#[test]
fn loading_events_ignore_what_they_cannot_read() {
    // a progress that is not a number
    assert!(matches!(
        loading_event(&channel_send(obj(vec![
            ("type", Json::string("progress")),
            ("progress", Json::string("half")),
        ]))),
        LoadingEvent::Ignored
    ));
    // resolved without info
    assert!(matches!(
        loading_event(&channel_send(obj(vec![("type", Json::string("resolved"))]))),
        LoadingEvent::Ignored
    ));
    // an inner message that is not an object
    assert!(matches!(loading_event(&channel_send(Json::string("success"))), LoadingEvent::Ignored));
    // unknown types, missing type, non-objects
    assert!(matches!(loading_event(&obj(vec![("type", Json::string("rpcResult"))])), LoadingEvent::Ignored));
    assert!(matches!(loading_event(&obj(vec![])), LoadingEvent::Ignored));
    assert!(matches!(loading_event(&Json::Null), LoadingEvent::Ignored));
}

#[test]
fn cancellation_messages() {
    let unload = cancel_unload_message(7, "qwen");
    let expected = obj(vec![
        ("type", Json::string("rpcCall")),
        ("callId", Json::integer(10007)),
        ("endpoint", Json::string("unloadModel")),
        ("parameter", obj(vec![("identifier", Json::string("qwen"))])),
    ]);
    assert!(same(&unload, &expected));

    let abort = channel_abort_message(7);
    let expected = obj(vec![
        ("type", Json::string("channelAbort")),
        ("channelId", Json::integer(7)),
        ("reason", Json::string("user_cancelled")),
    ]);
    assert!(same(&abort, &expected));

    let close = channel_close_message(7);
    let expected = obj(vec![("type", Json::string("channelClose")), ("channelId", Json::integer(7))]);
    assert!(same(&close, &expected));
}

#[test]
fn progress_ended_errors() {
    match progress_ended_error(true) {
        LMStudioError::Other(m) => assert_eq!(m, "Model loading was cancelled"),
        other => panic!("unexpected {:?}", other),
    }
    match progress_ended_error(false) {
        LMStudioError::Other(m) => assert_eq!(m, "Progress channel closed unexpectedly"),
        other => panic!("unexpected {:?}", other),
    }
}

#[test]
fn cancellation_plans() {
    assert_eq!(cancel_plan(true), CancelPlan::Full);
    assert_eq!(cancel_plan(false), CancelPlan::CleanupOnly);
}
