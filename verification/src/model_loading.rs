//! Model loading: the parameters of a load, how the messages of a loading
//! channel read, and the messages that cancel a load.
use vstd::prelude::*;
use crate::client::string_member_exec;
use crate::error::LMStudioError;
use crate::json::{Json, JsonV, is_object, lemma_lookup_append, lemma_lookup_single, lookup, member, string_member};
use crate::text::str_eq;
use crate::types::opt_json;

verus! {

/// Parameters for loading a model.
#[derive(Debug, Clone)]
pub struct LoadingParams {
    pub model_identifier: String,
    pub config: Option<Json>,
    pub gpu_offload: Option<i32>,
    pub context_length: Option<i32>,
}

/// One entry when the value is there, none otherwise.
pub open spec fn optional_entry(key: Seq<char>, value: Option<JsonV>) -> Seq<(Seq<char>, JsonV)> {
    match value {
        Some(v) => seq![(key, v)],
        None => Seq::empty(),
    }
}

/// An optional integer as an optional JSON value.
pub open spec fn opt_int(value: Option<i32>) -> Option<JsonV> {
    match value {
        Some(i) => Some(JsonV::Int(i as int)),
        None => None,
    }
}

/// The JSON of loading parameters: "modelIdentifier", then "config",
/// "gpuOffload" and "contextLength" for those that are set.
pub open spec fn loading_params_view(
    model_identifier: Seq<char>,
    config: Option<JsonV>,
    gpu_offload: Option<i32>,
    context_length: Option<i32>,
) -> JsonV {
    JsonV::Object(
        seq![("modelIdentifier"@, JsonV::Str(model_identifier))] + optional_entry("config"@, config)
            + optional_entry("gpuOffload"@, opt_int(gpu_offload)) + optional_entry(
            "contextLength"@,
            opt_int(context_length),
        ),
    )
}

/// The JSON of loading parameters names the model, and holds "config",
/// "gpuOffload" and "contextLength" exactly when they are set, with the
/// values they were set to.
pub proof fn lemma_loading_params_members(
    model_identifier: Seq<char>,
    config: Option<JsonV>,
    gpu_offload: Option<i32>,
    context_length: Option<i32>,
)
    ensures
        member(loading_params_view(model_identifier, config, gpu_offload, context_length), "modelIdentifier"@)
            == Some(JsonV::Str(model_identifier)),
        member(loading_params_view(model_identifier, config, gpu_offload, context_length), "config"@)
            == config,
        member(loading_params_view(model_identifier, config, gpu_offload, context_length), "gpuOffload"@)
            == opt_int(gpu_offload),
        member(loading_params_view(model_identifier, config, gpu_offload, context_length), "contextLength"@)
            == opt_int(context_length),
{
    reveal_strlit("modelIdentifier");
    reveal_strlit("config");
    reveal_strlit("gpuOffload");
    reveal_strlit("contextLength");
    let a: Seq<(Seq<char>, JsonV)> = seq![("modelIdentifier"@, JsonV::Str(model_identifier))];
    let b = optional_entry("config"@, config);
    let c = optional_entry("gpuOffload"@, opt_int(gpu_offload));
    let d = optional_entry("contextLength"@, opt_int(context_length));
    assert(loading_params_view(model_identifier, config, gpu_offload, context_length)->Object_0 == a + b + c + d);
    assert forall|key: Seq<char>| #[trigger] lookup(a + b + c + d, key) == match lookup(a, key) {
        Some(v) => Some(v),
        None => match lookup(b, key) {
            Some(v) => Some(v),
            None => match lookup(c, key) {
                Some(v) => Some(v),
                None => lookup(d, key),
            },
        },
    } by {
        lemma_lookup_append(a + b + c, d, key);
        lemma_lookup_append(a + b, c, key);
        lemma_lookup_append(a, b, key);
    }
    assert("modelIdentifier"@.len() == 15 && "config"@.len() == 6);
    assert("gpuOffload"@.len() == 10 && "contextLength"@.len() == 13);
    let keys = seq!["modelIdentifier"@, "config"@, "gpuOffload"@, "contextLength"@];
    assert forall|n: int| 0 <= n < 4 implies {
        &&& lookup(a, #[trigger] keys[n]) == if n == 0 { Some(JsonV::Str(model_identifier)) } else { None }
        &&& lookup(b, keys[n]) == if n == 1 { config } else { None }
        &&& lookup(c, keys[n]) == if n == 2 { opt_int(gpu_offload) } else { None }
        &&& lookup(d, keys[n]) == if n == 3 { opt_int(context_length) } else { None }
    } by {
        lemma_lookup_single("modelIdentifier"@, JsonV::Str(model_identifier), keys[n]);
        if let Some(v) = config {
            lemma_lookup_single("config"@, v, keys[n]);
        }
        if let Some(v) = opt_int(gpu_offload) {
            lemma_lookup_single("gpuOffload"@, v, keys[n]);
        }
        if let Some(v) = opt_int(context_length) {
            lemma_lookup_single("contextLength"@, v, keys[n]);
        }
    }
    assert(keys[0] == "modelIdentifier"@);
    assert(keys[1] == "config"@);
    assert(keys[2] == "gpuOffload"@);
    assert(keys[3] == "contextLength"@);
}

impl LoadingParams {
    /// Parameters that name the model and set nothing else.
    pub fn new(model_identifier: &str) -> (p: LoadingParams)
        ensures
            p.model_identifier@ == model_identifier@,
            p.config is None,
            p.gpu_offload is None,
            p.context_length is None,
    {
        LoadingParams {
            model_identifier: model_identifier.to_owned(),
            config: None,
            gpu_offload: None,
            context_length: None,
        }
    }

    /// The parameters with the number of GPU offload layers set.
    pub fn with_gpu_offload(self, layers: i32) -> (p: LoadingParams)
        ensures
            p.model_identifier == self.model_identifier,
            opt_json(p.config) == opt_json(self.config),
            p.gpu_offload == Some(layers),
            p.context_length == self.context_length,
    {
        let mut p = self;
        p.gpu_offload = Some(layers);
        p
    }

    /// The parameters with the context length set.
    pub fn with_context_length(self, length: i32) -> (p: LoadingParams)
        ensures
            p.model_identifier == self.model_identifier,
            opt_json(p.config) == opt_json(self.config),
            p.gpu_offload == self.gpu_offload,
            p.context_length == Some(length),
    {
        let mut p = self;
        p.context_length = Some(length);
        p
    }

    /// The parameters with a custom configuration set.
    pub fn with_config(self, config: Json) -> (p: LoadingParams)
        ensures
            p.model_identifier == self.model_identifier,
            opt_json(p.config) == Some(config@),
            p.gpu_offload == self.gpu_offload,
            p.context_length == self.context_length,
    {
        let mut p = self;
        p.config = Some(config);
        p
    }

    /// The parameters as JSON (see [`loading_params_view`]).
    pub fn to_json(&self) -> (j: Json)
        ensures
            j@ == loading_params_view(
                self.model_identifier@,
                opt_json(self.config),
                self.gpu_offload,
                self.context_length,
            ),
    {
        let mut j = Json::object().with("modelIdentifier", Json::string(self.model_identifier.as_str()));
        let ghost e0 = j@->Object_0;
        match &self.config {
            Some(c) => {
                j = j.with("config", c.duplicate());
            },
            None => {},
        }
        let ghost e1 = j@->Object_0;
        assert(e1 =~= e0 + optional_entry("config"@, opt_json(self.config)));
        match self.gpu_offload {
            Some(g) => {
                j = j.with("gpuOffload", Json::integer(g as i64));
            },
            None => {},
        }
        let ghost e2 = j@->Object_0;
        assert(e2 =~= e1 + optional_entry("gpuOffload"@, opt_int(self.gpu_offload)));
        match self.context_length {
            Some(c) => {
                j = j.with("contextLength", Json::integer(c as i64));
            },
            None => {},
        }
        assert(j@->Object_0 =~= e2 + optional_entry("contextLength"@, opt_int(self.context_length)));
        assert(j@->Object_0 =~= loading_params_view(
            self.model_identifier@,
            opt_json(self.config),
            self.gpu_offload,
            self.context_length,
        )->Object_0);
        j
    }
}

/// What a message of a model-loading channel means to the load.
#[derive(Debug)]
pub enum LoadingEvent {
    /// The model was resolved; its description (progress 0).
    Resolved(Json),
    /// Progress, as a fraction (a JSON number).
    Progress(Json),
    /// Loading finished (progress 1).
    Succeeded,
    /// Loading failed (progress 1, an error).
    Failed,
    /// The channel was closed (progress 1).
    ChannelClosed,
    /// The channel reported an error (progress 1, an error).
    ChannelError,
    /// Nothing for the load.
    Ignored,
}

/// The model of a loading event.
pub enum LoadingEventV {
    Resolved(JsonV),
    Progress(JsonV),
    Succeeded,
    Failed,
    ChannelClosed,
    ChannelError,
    Ignored,
}

impl View for LoadingEvent {
    type V = LoadingEventV;

    open spec fn view(&self) -> LoadingEventV {
        match self {
            LoadingEvent::Resolved(j) => LoadingEventV::Resolved(j@),
            LoadingEvent::Progress(j) => LoadingEventV::Progress(j@),
            LoadingEvent::Succeeded => LoadingEventV::Succeeded,
            LoadingEvent::Failed => LoadingEventV::Failed,
            LoadingEvent::ChannelClosed => LoadingEventV::ChannelClosed,
            LoadingEvent::ChannelError => LoadingEventV::ChannelError,
            LoadingEvent::Ignored => LoadingEventV::Ignored,
        }
    }
}

/// A JSON number.
pub open spec fn is_number(j: Option<JsonV>) -> bool {
    j matches Some(JsonV::Int(_)) || j matches Some(JsonV::Decimal(_))
}

/// The meaning of a loading-channel message. For "channelSend" whose
/// "message" is an object, by that object's "type": "resolved" with an
/// "info" member gives the model description, "progress" with a numeric
/// "progress" member gives the fraction, "success" and "error" end the load.
/// "channelClose" and "channelError" end it too. Everything else is ignored.
pub open spec fn loading_event_view(message: JsonV) -> LoadingEventV {
    match string_member(message, "type"@) {
        Some(t) => if t == "channelSend"@ {
            let inner = member(message, "message"@);
            if is_object(inner) {
                match string_member(inner->0, "type"@) {
                    Some(c) => if c == "resolved"@ {
                        match member(inner->0, "info"@) {
                            Some(info) => LoadingEventV::Resolved(info),
                            None => LoadingEventV::Ignored,
                        }
                    } else if c == "progress"@ {
                        let p = member(inner->0, "progress"@);
                        if is_number(p) {
                            LoadingEventV::Progress(p->0)
                        } else {
                            LoadingEventV::Ignored
                        }
                    } else if c == "success"@ {
                        LoadingEventV::Succeeded
                    } else if c == "error"@ {
                        LoadingEventV::Failed
                    } else {
                        LoadingEventV::Ignored
                    },
                    None => LoadingEventV::Ignored,
                }
            } else {
                LoadingEventV::Ignored
            }
        } else if t == "channelClose"@ {
            LoadingEventV::ChannelClosed
        } else if t == "channelError"@ {
            LoadingEventV::ChannelError
        } else {
            LoadingEventV::Ignored
        },
        None => LoadingEventV::Ignored,
    }
}

/// Reads a message of a model-loading channel (see [`loading_event_view`]).
pub fn loading_event(message: &Json) -> (e: LoadingEvent)
    ensures
        e@ == loading_event_view(message@),
{
    let t = match string_member_exec(message, "type") {
        Some(t) => t,
        None => {
            return LoadingEvent::Ignored;
        },
    };
    if str_eq(t, "channelSend") {
        let inner = match message.get("message") {
            Some(inner) => inner,
            None => {
                return LoadingEvent::Ignored;
            },
        };
        if !inner.is_object() {
            return LoadingEvent::Ignored;
        }
        let c = match string_member_exec(inner, "type") {
            Some(c) => c,
            None => {
                return LoadingEvent::Ignored;
            },
        };
        if str_eq(c, "resolved") {
            match inner.get("info") {
                Some(info) => LoadingEvent::Resolved(info.duplicate()),
                None => LoadingEvent::Ignored,
            }
        } else if str_eq(c, "progress") {
            match inner.get("progress") {
                Some(p) => match p {
                    Json::Int(_) => LoadingEvent::Progress(p.duplicate()),
                    Json::Decimal(_) => LoadingEvent::Progress(p.duplicate()),
                    _ => LoadingEvent::Ignored,
                },
                None => LoadingEvent::Ignored,
            }
        } else if str_eq(c, "success") {
            LoadingEvent::Succeeded
        } else if str_eq(c, "error") {
            LoadingEvent::Failed
        } else {
            LoadingEvent::Ignored
        }
    } else if str_eq(t, "channelClose") {
        LoadingEvent::ChannelClosed
    } else if str_eq(t, "channelError") {
        LoadingEvent::ChannelError
    } else {
        LoadingEvent::Ignored
    }
}

/// The unload call that force-stops a load on channel `channel_id`: call id
/// `channel_id + 10000`, endpoint "unloadModel", the model's identifier as
/// "parameter".
pub open spec fn cancel_unload_view(channel_id: i32, model_key: Seq<char>) -> JsonV {
    JsonV::Object(
        seq![
            ("type"@, JsonV::Str("rpcCall"@)),
            ("callId"@, JsonV::Int(channel_id + 10000)),
            ("endpoint"@, JsonV::Str("unloadModel"@)),
            ("parameter"@, JsonV::Object(seq![("identifier"@, JsonV::Str(model_key))])),
        ],
    )
}

/// The message that aborts channel `channel_id` as cancelled by the user.
pub open spec fn channel_abort_view(channel_id: i32) -> JsonV {
    JsonV::Object(
        seq![
            ("type"@, JsonV::Str("channelAbort"@)),
            ("channelId"@, JsonV::Int(channel_id as int)),
            ("reason"@, JsonV::Str("user_cancelled"@)),
        ],
    )
}

/// The message that closes channel `channel_id`.
pub open spec fn channel_close_view(channel_id: i32) -> JsonV {
    JsonV::Object(
        seq![("type"@, JsonV::Str("channelClose"@)), ("channelId"@, JsonV::Int(channel_id as int))],
    )
}

/// The unload call sent first when a load is cancelled.
pub fn cancel_unload_message(channel_id: i32, model_key: &str) -> (j: Json)
    requires
        channel_id <= i32::MAX - 10000,
    ensures
        j@ == cancel_unload_view(channel_id, model_key@),
{
    let parameter = Json::object().with("identifier", Json::string(model_key));
    let ghost pv = parameter@;
    let j = Json::object().with("type", Json::string("rpcCall")).with(
        "callId",
        Json::integer(channel_id as i64 + 10000),
    ).with("endpoint", Json::string("unloadModel")).with("parameter", parameter);
    proof {
        let e = cancel_unload_view(channel_id, model_key@);
        assert(pv->Object_0 =~= e->Object_0[3].1->Object_0);
        assert(j@->Object_0 =~= e->Object_0);
    }
    j
}

/// The abort message sent second when a load is cancelled.
pub fn channel_abort_message(channel_id: i32) -> (j: Json)
    ensures
        j@ == channel_abort_view(channel_id),
{
    let j = Json::object().with("type", Json::string("channelAbort")).with(
        "channelId",
        Json::integer(channel_id as i64),
    ).with("reason", Json::string("user_cancelled"));
    assert(j@->Object_0 =~= channel_abort_view(channel_id)->Object_0);
    j
}

/// The close message sent last when a load is cancelled.
pub fn channel_close_message(channel_id: i32) -> (j: Json)
    ensures
        j@ == channel_close_view(channel_id),
{
    let j = Json::object().with("type", Json::string("channelClose")).with(
        "channelId",
        Json::integer(channel_id as i64),
    );
    assert(j@->Object_0 =~= channel_close_view(channel_id)->Object_0);
    j
}

/// What a cancellation does after trying to send its unload call.
#[derive(Debug, Clone, Copy, PartialEq, Eq, Structural)]
pub enum CancelPlan {
    /// Send the abort and close messages, drop the channel's handler, and
    /// signal the cancellation to whoever waits on the load.
    Full,
    /// Only drop the channel's handler: nothing more is sent and no
    /// cancellation is signalled.
    CleanupOnly,
}

/// The rest of a cancellation: the full sequence when the unload call went
/// out, and only the cleanup when it could not be sent.
pub fn cancel_plan(unload_sent: bool) -> (p: CancelPlan)
    ensures
        unload_sent ==> p == CancelPlan::Full,
        !unload_sent ==> p == CancelPlan::CleanupOnly,
{
    if unload_sent {
        CancelPlan::Full
    } else {
        CancelPlan::CleanupOnly
    }
}

/// The error when the progress updates of a load stop before completion:
/// "Model loading was cancelled" after a cancellation, else "Progress
/// channel closed unexpectedly".
pub fn progress_ended_error(cancelled: bool) -> (e: LMStudioError)
    ensures
        cancelled ==> (e matches LMStudioError::Other(m) && m@ == "Model loading was cancelled"@),
        !cancelled ==> (e matches LMStudioError::Other(m) && m@
            == "Progress channel closed unexpectedly"@),
{
    if cancelled {
        LMStudioError::other("Model loading was cancelled")
    } else {
        LMStudioError::other("Progress channel closed unexpectedly")
    }
}

} // verus!
