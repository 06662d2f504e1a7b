//! Models and chat messages, and the human-readable renderings of model sizes
//! and context lengths.
use vstd::prelude::*;
use crate::text::{digits, int_text, i64_to_text, push_digits};
use crate::json::{Json, JsonV};
use crate::rounding::{binary64_ratio, binary64_ratio_exec, one_decimal, push_one_decimal, two_pow, two_pow_exec};

verus! {

/// A model as LM Studio describes it, whether downloaded or loaded.
#[derive(Debug, Clone)]
pub struct Model {
    pub model_key: String,
    pub path: String,
    pub model_type: String,
    pub format: Option<String>,
    pub size: Option<i64>,
    pub max_context_length: Option<i32>,
    pub display_name: Option<String>,
    pub architecture: Option<String>,
    pub vision: Option<bool>,
    pub trained_for_tool_use: Option<bool>,
    /// Set for loaded models.
    pub identifier: Option<String>,
    /// Set for loaded models.
    pub instance_reference: Option<String>,
    /// Set for loaded models.
    pub context_length: Option<i32>,
    pub legacy_model_type: Option<String>,
    pub family: Option<String>,
    pub model_name: Option<String>,
    /// Whether the model is known to be loaded (not part of the wire format).
    pub is_loaded: bool,
}

/// The number of further factors of 1024 in `n`: how often `n` can be divided
/// by 1024 before it drops below 1024.
pub open spec fn size_exp(n: nat) -> nat
    decreases n,
{
    if n < 1024 {
        0
    } else {
        1 + size_exp(n / 1024)
    }
}

/// The unit name for a size `1024^(exp+1)`, capped at terabytes.
pub open spec fn size_unit(exp: nat) -> Seq<char> {
    if exp == 0 {
        "KB"@
    } else if exp == 1 {
        "MB"@
    } else if exp == 2 {
        "GB"@
    } else {
        "TB"@
    }
}

/// The text of a size in bytes: "N/A" for zero, "<n> B" below 1024, and
/// otherwise the size divided by the largest power of 1024 that fits (at most
/// 1024^4) with one decimal and its unit. The size goes through binary64
/// before the division, as the floating-point computation does.
pub open spec fn format_size_text(size: int) -> Seq<char> {
    if size == 0 {
        "N/A"@
    } else if size < 1024 {
        int_text(size) + " B"@
    } else {
        let exp = size_exp((size / 1024) as nat);
        let r = binary64_ratio(size as nat, 1);
        let shift: nat = if exp < 4 {
            10 * (exp + 1)
        } else {
            40
        };
        one_decimal(r.0, r.1 * two_pow(shift)) + " "@ + size_unit(exp)
    }
}

/// The size in its unit to the nearest tenth (ties to even), computed
/// exactly: what the size text means.
pub open spec fn exact_size_text(size: nat) -> Seq<char> {
    let exp = size_exp(size / 1024);
    let shift: nat = if exp < 4 {
        10 * (exp + 1)
    } else {
        40
    };
    one_decimal(size, two_pow(shift)) + " "@ + size_unit(exp)
}

/// Below 2^53 bytes, the detour through binary64 changes nothing: the size
/// text is the size divided by its unit (1024^k, at most 1024^4), rounded to
/// the nearest tenth with ties to even.
pub proof fn lemma_format_size_is_exact_below_2_pow_53(size: int)
    requires
        1024 <= size < 0x20_0000_0000_0000,
    ensures
        format_size_text(size) == exact_size_text(size as nat),
{
    let a = size as nat;
    crate::rounding::lemma_binary64_of_small_integer(a);
    let r = binary64_ratio(a, 1);
    let exp = size_exp(a / 1024);
    let shift: nat = if exp < 4 {
        10 * (exp + 1)
    } else {
        40
    };
    let d = two_pow(shift);
    crate::rounding::lemma_two_pow_pos(shift);
    let s = r.1;
    assert(10 * r.0 == (10 * a) * s) by (nonlinear_arith)
        requires
            r.0 == a * s,
    ;
    assert(s * d == d * s) by (nonlinear_arith);
    crate::rounding::lemma_rne_scale(10 * a, d, s);
    assert(crate::rounding::rne(10 * r.0, r.1 * d) == crate::rounding::rne(10 * a, d));
}

/// The text of a maximum context length: "N/A" when unknown, millions with one
/// decimal (through binary64) from 1,000,000 on, whole thousands with "K" from
/// 1,000 on, and the plain number below.
pub open spec fn max_context_text(length: Option<i32>) -> Seq<char> {
    match length {
        None => "N/A"@,
        Some(l) => if l >= 1_000_000 {
            let r = binary64_ratio(l as nat, 1_000_000);
            one_decimal(r.0, r.1) + "M"@
        } else if l >= 1_000 {
            digits((l / 1_000) as nat) + "K"@
        } else {
            int_text(l as int)
        },
    }
}

/// Formats a file size in a human-readable form, such as "1.5 KB".
pub fn format_size(size: i64) -> (s: String)
    ensures
        s@ == format_size_text(size as int),
{
    if size == 0 {
        return "N/A".to_owned();
    }
    if size < 1024 {
        let mut s = i64_to_text(size);
        s.append(" B");
        return s;
    }
    let mut exp: u64 = 0;
    let mut n: u64 = (size / 1024) as u64;
    let ghost n0: nat = n as nat;
    while n >= 1024
        invariant
            size_exp(n0) == exp + size_exp(n as nat),
            exp + n <= n0,
            n0 == (size / 1024) as nat,
            n0 < 0x40_0000_0000_0000,
        decreases n,
    {
        exp = exp + 1;
        n = n / 1024;
    }
    let r = binary64_ratio_exec(size as u64, 1);
    let shift: u32 = if exp < 4 {
        10 * (exp as u32 + 1)
    } else {
        40
    };
    let div = two_pow_exec(shift);
    proof {
        crate::rounding::lemma_two_pow_mono(shift as nat, 40);
        crate::rounding::lemma_two_pow_table();
        crate::rounding::lemma_two_pow_pos(shift as nat);
        assert((r.1 as int) * (div as int) <= 0x10_0000_0000_0000 * 0x100_0000_0000)
            by (nonlinear_arith)
            requires
                r.1 <= 0x10_0000_0000_0000,
                div <= 0x100_0000_0000,
        ;
        assert((r.1 as int) * (div as int) >= 1) by (nonlinear_arith)
            requires
                r.1 >= 1,
                div >= 1,
        ;
    }
    let mut s = String::new();
    push_one_decimal(&mut s, r.0, r.1 * div);
    s.append(" ");
    let unit: &str = if exp == 0 {
        "KB"
    } else if exp == 1 {
        "MB"
    } else if exp == 2 {
        "GB"
    } else {
        "TB"
    };
    s.append(unit);
    assert(s@ =~= format_size_text(size as int));
    s
}

/// A copy of an optional string.
fn copy_text(o: &Option<String>) -> (r: Option<String>)
    ensures
        r == *o,
{
    match o {
        Some(t) => Some(t.clone()),
        None => None,
    }
}

impl Model {
    /// The display name when there is one, else the model key.
    pub fn display_name_or_key(&self) -> (name: &str)
        ensures
            name@ == match self.display_name {
                Some(n) => n@,
                None => self.model_key@,
            },
    {
        match &self.display_name {
            Some(n) => n.as_str(),
            None => self.model_key.as_str(),
        }
    }

    /// A copy of the model, equal to it in every field.
    pub fn duplicate(&self) -> (m: Model)
        ensures
            m == *self,
    {
        Model {
            model_key: self.model_key.clone(),
            path: self.path.clone(),
            model_type: self.model_type.clone(),
            format: copy_text(&self.format),
            size: self.size,
            max_context_length: self.max_context_length,
            display_name: copy_text(&self.display_name),
            architecture: copy_text(&self.architecture),
            vision: self.vision,
            trained_for_tool_use: self.trained_for_tool_use,
            identifier: copy_text(&self.identifier),
            instance_reference: copy_text(&self.instance_reference),
            context_length: self.context_length,
            legacy_model_type: copy_text(&self.legacy_model_type),
            family: copy_text(&self.family),
            model_name: copy_text(&self.model_name),
            is_loaded: self.is_loaded,
        }
    }

    /// The size in a human-readable form ("N/A" when unknown).
    pub fn formatted_size(&self) -> (s: String)
        ensures
            s@ == match self.size {
                Some(size) => format_size_text(size as int),
                None => "N/A"@,
            },
    {
        match self.size {
            Some(size) => format_size(size),
            None => "N/A".to_owned(),
        }
    }

    /// The maximum context length in a human-readable form.
    pub fn formatted_max_context(&self) -> (s: String)
        ensures
            s@ == max_context_text(self.max_context_length),
    {
        match self.max_context_length {
            Some(length) => {
                if length >= 1_000_000 {
                    let r = binary64_ratio_exec(length as u64, 1_000_000);
                    let mut s = String::new();
                    push_one_decimal(&mut s, r.0, r.1);
                    s.append("M");
                    assert(s@ =~= max_context_text(self.max_context_length));
                    s
                } else if length >= 1_000 {
                    let mut s = String::new();
                    push_digits(&mut s, (length / 1_000) as u128);
                    s.append("K");
                    assert(s@ =~= max_context_text(self.max_context_length));
                    s
                } else {
                    i64_to_text(length as i64)
                }
            },
            None => "N/A".to_owned(),
        }
    }
}

/// A message of a chat conversation.
#[derive(Debug, Clone)]
pub struct ChatMessage {
    pub role: String,
    pub content: String,
}

impl ChatMessage {
    /// A message written by the user.
    pub fn user(content: &str) -> (m: ChatMessage)
        ensures
            m.role@ == "user"@,
            m.content@ == content@,
    {
        ChatMessage { role: "user".to_owned(), content: content.to_owned() }
    }

    /// A message written by the assistant.
    pub fn assistant(content: &str) -> (m: ChatMessage)
        ensures
            m.role@ == "assistant"@,
            m.content@ == content@,
    {
        ChatMessage { role: "assistant".to_owned(), content: content.to_owned() }
    }

    /// A system message.
    pub fn system(content: &str) -> (m: ChatMessage)
        ensures
            m.role@ == "system"@,
            m.content@ == content@,
    {
        ChatMessage { role: "system".to_owned(), content: content.to_owned() }
    }
}

/// One row of the model table: the texts shown for a model.
#[derive(Debug, Clone)]
pub struct ModelTableRow {
    pub name: String,
    pub model_type: String,
    pub size: String,
    pub context: String,
    pub status: String,
}

impl ModelTableRow {
    /// The row that shows `model`.
    pub fn from(model: &Model) -> (row: ModelTableRow)
        ensures
            row.name@ == match model.display_name {
                Some(n) => n@,
                None => model.model_key@,
            },
            row.model_type@ == model.model_type@,
            row.size@ == match model.size {
                Some(size) => format_size_text(size as int),
                None => "N/A"@,
            },
            row.context@ == max_context_text(model.max_context_length),
            row.status@ == if model.is_loaded {
                "Loaded"@
            } else {
                "Downloaded"@
            },
    {
        let status: &str = if model.is_loaded {
            "Loaded"
        } else {
            "Downloaded"
        };
        ModelTableRow {
            name: model.display_name_or_key().to_owned(),
            model_type: model.model_type.clone(),
            size: model.formatted_size(),
            context: model.formatted_max_context(),
            status: status.to_owned(),
        }
    }
}

/// The model of an optional string.
pub open spec fn opt_text(o: Option<String>) -> Option<Seq<char>> {
    match o {
        Some(s) => Some(s@),
        None => None,
    }
}

/// The model of an optional JSON value.
pub open spec fn opt_json(o: Option<Json>) -> Option<JsonV> {
    match o {
        Some(j) => Some(j@),
        None => None,
    }
}

/// A remote procedure call as it goes over the wire.
#[derive(Debug)]
pub struct RpcCallMessage {
    pub call_id: i32,
    pub endpoint: String,
    pub message_type: String,
    pub params: Option<Json>,
}

/// The JSON of a call: "callId", "endpoint", "type", and "params" when there
/// are parameters.
pub open spec fn rpc_call_view(
    call_id: i32,
    endpoint: Seq<char>,
    message_type: Seq<char>,
    params: Option<JsonV>,
) -> JsonV {
    let base = seq![
        ("callId"@, JsonV::Int(call_id as int)),
        ("endpoint"@, JsonV::Str(endpoint)),
        ("type"@, JsonV::Str(message_type)),
    ];
    JsonV::Object(
        match params {
            Some(p) => base.push(("params"@, p)),
            None => base,
        },
    )
}

impl RpcCallMessage {
    /// A call of type "rpcCall".
    pub fn new(call_id: i32, endpoint: &str, params: Option<Json>) -> (m: RpcCallMessage)
        ensures
            m.call_id == call_id,
            m.endpoint@ == endpoint@,
            m.message_type@ == "rpcCall"@,
            opt_json(m.params) == opt_json(params),
    {
        RpcCallMessage {
            call_id,
            endpoint: endpoint.to_owned(),
            message_type: "rpcCall".to_owned(),
            params,
        }
    }

    /// The call as JSON.
    pub fn to_json(self) -> (j: Json)
        ensures
            j@ == rpc_call_view(self.call_id, self.endpoint@, self.message_type@, opt_json(self.params)),
    {
        let j = Json::object().with("callId", Json::integer(self.call_id as i64)).with(
            "endpoint",
            Json::string(self.endpoint.as_str()),
        ).with("type", Json::string(self.message_type.as_str()));
        match self.params {
            Some(p) => {
                let r = j.with("params", p);
                assert(r@->Object_0 =~= rpc_call_view(
                    self.call_id,
                    self.endpoint@,
                    self.message_type@,
                    opt_json(self.params),
                )->Object_0);
                r
            },
            None => {
                assert(j@->Object_0 =~= rpc_call_view(
                    self.call_id,
                    self.endpoint@,
                    self.message_type@,
                    opt_json(self.params),
                )->Object_0);
                j
            },
        }
    }
}

/// A reply to a remote procedure call.
#[derive(Debug)]
pub struct RpcResponseMessage {
    pub message_type: String,
    pub call_id: i32,
    pub result: Option<Json>,
    pub error: Option<Json>,
}

/// Any message that arrives on a connection, with the members the client reads.
#[derive(Debug)]
pub struct WebSocketMessage {
    pub message_type: Option<String>,
    pub call_id: Option<i32>,
    pub endpoint: Option<String>,
    pub result: Option<Json>,
    pub error: Option<Json>,
    pub success: Option<bool>,
}

/// The model of an incoming message.
pub struct WebSocketMessageV {
    pub message_type: Option<Seq<char>>,
    pub call_id: Option<i32>,
    pub endpoint: Option<Seq<char>>,
    pub result: Option<JsonV>,
    pub error: Option<JsonV>,
    pub success: Option<bool>,
}

impl View for WebSocketMessage {
    type V = WebSocketMessageV;

    open spec fn view(&self) -> WebSocketMessageV {
        WebSocketMessageV {
            message_type: opt_text(self.message_type),
            call_id: self.call_id,
            endpoint: opt_text(self.endpoint),
            result: opt_json(self.result),
            error: opt_json(self.error),
            success: self.success,
        }
    }
}

/// Parameters of a remote procedure call.
#[derive(Debug)]
pub struct RpcParams {
    pub data: Json,
}

} // verus!
