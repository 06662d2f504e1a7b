use lmstudio_rust::json::Json;
use lmstudio_rust::types::{ModelTableRow, RpcCallMessage};
use lmstudio_rust::{ChatMessage, LMStudioError, Model};

fn same(a: &Json, b: &Json) -> bool {
    format!("{:?}", a) == format!("{:?}", b)
}

fn obj(entries: Vec<(&str, Json)>) -> Json {
    let mut j = Json::object();
    for (k, v) in entries {
        j = j.with(k, v);
    }
    j
}

fn bare_model() -> Model {
    Model {
        model_key: "key".to_string(),
        path: "/p".to_string(),
        model_type: "embedding".to_string(),
        format: None,
        size: None,
        max_context_length: None,
        display_name: None,
        architecture: None,
        vision: None,
        trained_for_tool_use: None,
        identifier: None,
        instance_reference: None,
        context_length: None,
        legacy_model_type: None,
        family: None,
        model_name: None,
        is_loaded: false,
    }
}

#[test]
fn chat_message_roles() {
    let u = ChatMessage::user("hi");
    assert_eq!((u.role.as_str(), u.content.as_str()), ("user", "hi"));
    let a = ChatMessage::assistant("hello");
    assert_eq!((a.role.as_str(), a.content.as_str()), ("assistant", "hello"));
    let s = ChatMessage::system("be brief");
    assert_eq!((s.role.as_str(), s.content.as_str()), ("system", "be brief"));
}

#[test]
fn model_without_optional_fields() {
    let m = bare_model();
    assert_eq!(m.display_name_or_key(), "key");
    assert_eq!(m.formatted_size(), "N/A");
    assert_eq!(m.formatted_max_context(), "N/A");
    let row = ModelTableRow::from(&m);
    assert_eq!(row.name, "key");
    assert_eq!(row.model_type, "embedding");
    assert_eq!(row.size, "N/A");
    assert_eq!(row.context, "N/A");
    assert_eq!(row.status, "Downloaded");
}

#[test]
fn formatted_max_context_ranges() {
    let mut m = bare_model();
    for (len, text) in [
        (0, "0"),
        (999, "999"),
        (1_000, "1K"),
        (4_096, "4K"),
        (131_072, "131K"),
        (999_999, "999K"),
        (1_000_000, "1.0M"),
        (1_048_576, "1.0M"),
        (1_250_000, "1.2M"),
        (1_350_000, "1.4M"),
        (-5, "-5"),
    ] {
        m.max_context_length = Some(len);
        assert_eq!(m.formatted_max_context(), text, "length {}", len);
    }
}

#[test]
fn formatted_sizes() {
    let mut m = bare_model();
    for (size, text) in [
        (1, "1 B"),
        (1023, "1023 B"),
        (-7, "-7 B"),
        (1_073_741_824, "1.0 GB"),
        (5_368_709_120, "5.0 GB"),
        (1_099_511_627_776, "1.0 TB"),
        (1_125_899_906_842_624, "1024.0 TB"),
    ] {
        m.size = Some(size);
        assert_eq!(m.formatted_size(), text, "size {}", size);
    }
}

#[test]
fn rpc_call_json() {
    let call = RpcCallMessage::new(3, "unloadModel", Some(obj(vec![("identifier", Json::string("m"))])));
    assert_eq!(call.message_type, "rpcCall");
    let expected = obj(vec![
        ("callId", Json::integer(3)),
        ("endpoint", Json::string("unloadModel")),
        ("type", Json::string("rpcCall")),
        ("params", obj(vec![("identifier", Json::string("m"))])),
    ]);
    assert!(same(&call.to_json(), &expected));
    let bare = RpcCallMessage::new(4, "listLoaded", None).to_json();
    let expected = obj(vec![
        ("callId", Json::integer(4)),
        ("endpoint", Json::string("listLoaded")),
        ("type", Json::string("rpcCall")),
    ]);
    assert!(same(&bare, &expected));
}

#[test]
fn error_constructors() {
    assert!(matches!(LMStudioError::connection("c"), LMStudioError::Connection(m) if m == "c"));
    assert!(matches!(LMStudioError::model_not_found("m"), LMStudioError::ModelNotFound(m) if m == "m"));
    assert!(matches!(LMStudioError::remote_call_failed("r"), LMStudioError::RemoteCallFailed(m) if m == "r"));
    assert!(matches!(LMStudioError::service_unavailable("s"), LMStudioError::ServiceUnavailable(m) if m == "s"));
    assert!(matches!(LMStudioError::invalid_response("i"), LMStudioError::InvalidResponse(m) if m == "i"));
    assert!(matches!(LMStudioError::other("o"), LMStudioError::Other(m) if m == "o"));
    assert!(matches!(
        LMStudioError::model_loading_cancelled("qwen"),
        LMStudioError::Other(m) if m == "Model loading cancelled: qwen"
    ));
}

#[test]
fn json_lookups() {
    let j = obj(vec![
        ("a", Json::integer(1)),
        ("b", Json::string("two")),
        ("a", Json::integer(3)),
        ("n", Json::Null),
    ]);
    assert!(j.is_object());
    assert_eq!(j.get("a").and_then(|v| v.as_i64()), Some(1));
    assert_eq!(j.get("b").and_then(|v| v.as_str()), Some("two"));
    assert_eq!(j.get("b").and_then(|v| v.as_i64()), None);
    assert!(j.get("n").map(|v| v.is_null()).unwrap_or(false));
    assert!(j.get("zz").is_none());
    assert!(Json::string("x").get("a").is_none());
    assert!(!Json::array().is_object());
    let copy = j.duplicate();
    assert!(same(&copy, &j));
    let cloned = j.clone();
    assert!(same(&cloned, &j));
}
