//! The request-handling decisions of the MCP server: which handler a method
//! goes to, when a reply is sent, what `initialize` advertises, and how tool,
//! prompt and resource results become protocol bodies. The server's
//! transports perform the I/O and awaits around these decisions.
use vstd::prelude::*;
use crate::mcp::protocol::{
    Capabilities, ContentItem, GetPromptResult, InitializeResult, JsonRpcResponse, McpResource,
    PromptCapabilities, PromptMessage, PromptMessageContent, ResourceCapabilities, ResourcesListResult,
    RpcErrorCode, ServerInfo, ToolCallResult, ToolCapabilities, CONTENT_TYPE_TEXT, INVALID_REQUEST,
    JSONRPC_VERSION, INVALID_PARAMS, PARSE_ERROR, METHOD_COMPLETION_COMPLETE, METHOD_INITIALIZE, METHOD_INITIALIZED,
    METHOD_LOGGING_SET_LEVEL, METHOD_NOTIFICATIONS_CANCELLED, METHOD_NOTIFICATIONS_INITIALIZED,
    METHOD_NOTIFICATIONS_MESSAGE, METHOD_NOTIFICATIONS_PROGRESS, METHOD_NOT_FOUND, METHOD_PING,
    METHOD_PROMPTS_GET, METHOD_PROMPTS_LIST, METHOD_RESOURCES_LIST, METHOD_RESOURCES_READ,
    METHOD_RESOURCES_TEMPLATES_LIST, METHOD_TOOLS_CALL, METHOD_TOOLS_LIST, EmptyResult, CompletionCompleteResult,
    CompletionResultData, PromptsListResult, ResourceTemplatesListResult, ReadResourceResult,
};
use crate::text::{push_str, str_eq, string_from_chars, chars_of};
use crate::types::output::{ToolError, ToolOutput};
use crate::types::prompt::{PromptOutput, PromptOutputMessage, role_name};
use crate::types::resource::{ResourceDefinition, ResourceOutput};
use crate::types::prompt::PromptDefinition;

verus! {

/// MCP protocol version supported by the server.
pub const PROTOCOL_VERSION: &'static str = "2024-11-05";

/// The handler a JSON-RPC method is routed to.
#[derive(Debug, Clone, Copy, PartialEq, Eq, Structural)]
pub enum MethodRoute {
    /// `initialize`: capability negotiation.
    Initialize,
    /// `ping`, `logging/setLevel` and the `initialized` notification (both
    /// forms): acknowledged with an empty result.
    Acknowledge,
    /// `notifications/cancelled`: acknowledged silently with an empty result.
    Cancelled,
    /// `tools/list`.
    ToolsList,
    /// `tools/call`.
    ToolsCall,
    /// `resources/list`.
    ResourcesList,
    /// `resources/templates/list`.
    ResourceTemplatesList,
    /// `resources/read`.
    ResourcesRead,
    /// `prompts/list`.
    PromptsList,
    /// `prompts/get`.
    PromptsGet,
    /// `completion/complete`: an empty completion.
    CompletionComplete,
    /// `notifications/progress` and `notifications/message`: acknowledged
    /// with an empty result.
    Notification,
    /// Any other method: a method-not-found error.
    Unknown,
}

/// The route of a method name.
pub open spec fn route_of(m: Seq<char>) -> MethodRoute {
    if m == METHOD_INITIALIZE@ {
        MethodRoute::Initialize
    } else if m == METHOD_PING@ || m == METHOD_LOGGING_SET_LEVEL@ || m == METHOD_NOTIFICATIONS_INITIALIZED@
        || m == METHOD_INITIALIZED@ {
        MethodRoute::Acknowledge
    } else if m == METHOD_NOTIFICATIONS_CANCELLED@ {
        MethodRoute::Cancelled
    } else if m == METHOD_TOOLS_LIST@ {
        MethodRoute::ToolsList
    } else if m == METHOD_TOOLS_CALL@ {
        MethodRoute::ToolsCall
    } else if m == METHOD_RESOURCES_LIST@ {
        MethodRoute::ResourcesList
    } else if m == METHOD_RESOURCES_TEMPLATES_LIST@ {
        MethodRoute::ResourceTemplatesList
    } else if m == METHOD_RESOURCES_READ@ {
        MethodRoute::ResourcesRead
    } else if m == METHOD_PROMPTS_LIST@ {
        MethodRoute::PromptsList
    } else if m == METHOD_PROMPTS_GET@ {
        MethodRoute::PromptsGet
    } else if m == METHOD_COMPLETION_COMPLETE@ {
        MethodRoute::CompletionComplete
    } else if m == METHOD_NOTIFICATIONS_PROGRESS@ || m == METHOD_NOTIFICATIONS_MESSAGE@ {
        MethodRoute::Notification
    } else {
        MethodRoute::Unknown
    }
}

/// The handler for a validated request's `method`.
pub fn route_method(method: &str) -> (r: MethodRoute)
    ensures
        r == route_of(method@),
{
    if str_eq(method, METHOD_INITIALIZE) {
        MethodRoute::Initialize
    } else if str_eq(method, METHOD_PING) || str_eq(method, METHOD_LOGGING_SET_LEVEL) || str_eq(
        method,
        METHOD_NOTIFICATIONS_INITIALIZED,
    ) || str_eq(method, METHOD_INITIALIZED) {
        MethodRoute::Acknowledge
    } else if str_eq(method, METHOD_NOTIFICATIONS_CANCELLED) {
        MethodRoute::Cancelled
    } else if str_eq(method, METHOD_TOOLS_LIST) {
        MethodRoute::ToolsList
    } else if str_eq(method, METHOD_TOOLS_CALL) {
        MethodRoute::ToolsCall
    } else if str_eq(method, METHOD_RESOURCES_LIST) {
        MethodRoute::ResourcesList
    } else if str_eq(method, METHOD_RESOURCES_TEMPLATES_LIST) {
        MethodRoute::ResourceTemplatesList
    } else if str_eq(method, METHOD_RESOURCES_READ) {
        MethodRoute::ResourcesRead
    } else if str_eq(method, METHOD_PROMPTS_LIST) {
        MethodRoute::PromptsList
    } else if str_eq(method, METHOD_PROMPTS_GET) {
        MethodRoute::PromptsGet
    } else if str_eq(method, METHOD_COMPLETION_COMPLETE) {
        MethodRoute::CompletionComplete
    } else if str_eq(method, METHOD_NOTIFICATIONS_PROGRESS) || str_eq(method, METHOD_NOTIFICATIONS_MESSAGE) {
        MethodRoute::Notification
    } else {
        MethodRoute::Unknown
    }
}

/// The error response for a method no handler knows.
pub fn unknown_method_response(id: Option<serde_json::Value>, method: &str) -> (r: JsonRpcResponse)
    ensures
        r.jsonrpc@ == JSONRPC_VERSION@,
        r.id == id,
        r.result is None,
        r.error matches Some(e) && e.code == RpcErrorCode::MethodNotFound && e.message@ == "unknown method: "@ + method@
            && e.data is None,
{
    let mut v: Vec<char> = Vec::new();
    push_str(&mut v, "unknown method: ");
    push_str(&mut v, method);
    let msg = string_from_chars(v);
    JsonRpcResponse::error(id, METHOD_NOT_FOUND, msg.as_str())
}

fn prefixed_error(id: Option<serde_json::Value>, code: RpcErrorCode, prefix: &str, detail: &str) -> (r: JsonRpcResponse)
    ensures
        r.jsonrpc@ == JSONRPC_VERSION@,
        r.id == id,
        r.result is None,
        r.error matches Some(e) && e.code == code && e.message@ == prefix@ + detail@ && e.data is None,
{
    let mut v: Vec<char> = Vec::new();
    push_str(&mut v, prefix);
    push_str(&mut v, detail);
    let msg = string_from_chars(v);
    JsonRpcResponse::error(id, code, msg.as_str())
}

/// Whether `r` is an error reply with the given id, code and message.
pub open spec fn is_error_reply(r: JsonRpcResponse, id: Option<serde_json::Value>, code: RpcErrorCode, msg: Seq<char>) -> bool {
    &&& r.jsonrpc@ == JSONRPC_VERSION@
    &&& r.id == id
    &&& r.result is None
    &&& r.error matches Some(e) && e.code == code && e.message@ == msg && e.data is None
}

/// The reply to a message that is not JSON; `detail` is the parser's report.
pub fn parse_error_response(detail: &str) -> (r: JsonRpcResponse)
    ensures
        is_error_reply(r, None, RpcErrorCode::ParseError, "invalid JSON: "@ + detail@),
{
    prefixed_error(None, PARSE_ERROR, "invalid JSON: ", detail)
}

/// The reply to a single message that is JSON but not an object.
pub fn not_an_object_response() -> (r: JsonRpcResponse)
    ensures
        is_error_reply(r, None, RpcErrorCode::InvalidRequest, "expected JSON-RPC request object"@),
{
    JsonRpcResponse::error(None, INVALID_REQUEST, "expected JSON-RPC request object")
}

/// The reply to a batch that is JSON but not an array.
pub fn batch_not_array_response() -> (r: JsonRpcResponse)
    ensures
        is_error_reply(r, None, RpcErrorCode::InvalidRequest, "expected JSON array for batch request"@),
{
    JsonRpcResponse::error(None, INVALID_REQUEST, "expected JSON array for batch request")
}

/// The reply to a batch member that is not a well-formed request.
pub fn invalid_batch_member_response(id: Option<serde_json::Value>, detail: &str) -> (r: JsonRpcResponse)
    ensures
        is_error_reply(r, id, RpcErrorCode::InvalidRequest, "invalid request object in batch: "@ + detail@),
{
    prefixed_error(id, INVALID_REQUEST, "invalid request object in batch: ", detail)
}

/// Whether a route reads parameters: `tools/call`, `prompts/get` and
/// `resources/read`.
pub open spec fn takes_params(route: MethodRoute) -> bool {
    route is ToolsCall || route is PromptsGet || route is ResourcesRead
}

/// The message for a request of `route` without parameters (`None`), or
/// with parameters its handler cannot read (`Some(detail)`).
pub open spec fn params_error_message(route: MethodRoute, detail: Option<Seq<char>>) -> Seq<char> {
    match detail {
        None => if route is ToolsCall {
            "tools/call requires params with 'name' and 'arguments'"@
        } else if route is PromptsGet {
            "missing params for prompts/get"@
        } else {
            "missing params for resources/read"@
        },
        Some(d) => if route is ToolsCall {
            "invalid tools/call params: "@ + d
        } else {
            "invalid params: "@ + d
        },
    }
}

/// The invalid-params reply to a request of `route` without parameters
/// (`detail` is `None`) or with parameters that do not read (`detail` is
/// the reader's report).
pub fn params_error_response(id: Option<serde_json::Value>, route: MethodRoute, detail: Option<&str>) -> (r:
    JsonRpcResponse)
    requires
        takes_params(route),
    ensures
        is_error_reply(
            r,
            id,
            RpcErrorCode::InvalidParams,
            params_error_message(
                route,
                match detail {
                    Some(d) => Some(d@),
                    None => None,
                },
            ),
        ),
{
    match detail {
        None => match route {
            MethodRoute::ToolsCall => JsonRpcResponse::error(
                id,
                INVALID_PARAMS,
                "tools/call requires params with 'name' and 'arguments'",
            ),
            MethodRoute::PromptsGet => JsonRpcResponse::error(id, INVALID_PARAMS, "missing params for prompts/get"),
            _ => JsonRpcResponse::error(id, INVALID_PARAMS, "missing params for resources/read"),
        },
        Some(d) => match route {
            MethodRoute::ToolsCall => prefixed_error(id, INVALID_PARAMS, "invalid tools/call params: ", d),
            _ => prefixed_error(id, INVALID_PARAMS, "invalid params: ", d),
        },
    }
}

/// The reply to a prompt or resource handler that failed: an invalid-params
/// error carrying the handler's message.
pub fn handler_failure_response(id: Option<serde_json::Value>, err: &ToolError) -> (r: JsonRpcResponse)
    ensures
        is_error_reply(r, id, RpcErrorCode::InvalidParams, err.msg()),
{
    let msg = err.to_string();
    JsonRpcResponse::error(id, INVALID_PARAMS, msg.as_str())
}

/// The error message for a request whose `jsonrpc` field is not `"2.0"`.
pub open spec fn version_message(v: Seq<char>) -> Seq<char> {
    "invalid jsonrpc version: expected \"2.0\", got \""@ + v + "\""@
}

/// The invalid-request error for a wrong protocol version, or `None` when
/// `version` is exactly `"2.0"` (JSON-RPC 2.0 §4).
pub fn check_version(id: Option<serde_json::Value>, version: &str) -> (r: Option<JsonRpcResponse>)
    ensures
        version@ == JSONRPC_VERSION@ <==> r is None,
        r matches Some(resp) ==> resp.id == id && resp.result is None && (resp.error matches Some(e)
            && e.code == RpcErrorCode::InvalidRequest && e.message@ == version_message(version@)),
{
    if str_eq(version, JSONRPC_VERSION) {
        None
    } else {
        let mut v: Vec<char> = Vec::new();
        push_str(&mut v, "invalid jsonrpc version: expected \"2.0\", got \"");
        push_str(&mut v, version);
        push_str(&mut v, "\"");
        let msg = string_from_chars(v);
        Some(JsonRpcResponse::error(id, INVALID_REQUEST, msg.as_str()))
    }
}

/// Whether `c` is Unicode `White_Space` (std's `char::is_whitespace`).
pub open spec fn is_ws(c: char) -> bool {
    let u = c as u32;
    (0x09 <= u <= 0x0D) || u == 0x20 || u == 0x85 || u == 0xA0 || u == 0x1680 || (0x2000 <= u <= 0x200A)
        || u == 0x2028 || u == 0x2029 || u == 0x202F || u == 0x205F || u == 0x3000
}

pub fn is_ws_char(c: char) -> (r: bool)
    ensures
        r == is_ws(c),
{
    let u = c as u32;
    (0x09 <= u && u <= 0x0D) || u == 0x20 || u == 0x85 || u == 0xA0 || u == 0x1680 || (0x2000 <= u && u
        <= 0x200A) || u == 0x2028 || u == 0x2029 || u == 0x202F || u == 0x205F || u == 0x3000
}

/// The first non-whitespace character of `s`, if any.
pub open spec fn first_non_ws(s: Seq<char>) -> Option<char>
    decreases s.len(),
{
    if s.len() == 0 {
        None
    } else if is_ws(s[0]) {
        first_non_ws(s.skip(1))
    } else {
        Some(s[0])
    }
}

/// How an incoming line is handled.
#[derive(Debug, Clone, Copy, PartialEq, Eq, Structural)]
pub enum MessageShape {
    /// Blank: nothing is sent back.
    Blank,
    /// A JSON array: a batch.
    Batch,
    /// Anything else: a single request (or notification).
    Single,
}

/// The shape of a line: blank when it is all whitespace, a batch when its
/// first non-whitespace character is `[`, else a single message.
pub open spec fn shape_of(s: Seq<char>) -> MessageShape {
    match first_non_ws(s) {
        None => MessageShape::Blank,
        Some(c) => if c == '[' {
            MessageShape::Batch
        } else {
            MessageShape::Single
        },
    }
}

/// How an incoming line is handled.
pub fn message_shape(line: &str) -> (r: MessageShape)
    ensures
        r == shape_of(line@),
{
    let cs = chars_of(line);
    let mut i: usize = 0;
    assert(cs@.skip(0) =~= cs@);
    while i < cs.len() && is_ws_char(cs[i])
        invariant
            i <= cs.len(),
            first_non_ws(cs@.skip(i as int)) == first_non_ws(cs@),
        decreases cs.len() - i,
    {
        assert(cs@.skip(i as int).skip(1) =~= cs@.skip(i + 1));
        i = i + 1;
    }
    if i == cs.len() {
        assert(cs@.skip(i as int).len() == 0);
        MessageShape::Blank
    } else if cs[i] == '[' {
        assert(cs@.skip(i as int)[0] == cs@[i as int]);
        MessageShape::Batch
    } else {
        assert(cs@.skip(i as int)[0] == cs@[i as int]);
        MessageShape::Single
    }
}

/// The error a single-request entry point answers a batch with.
pub fn batch_via_single_response() -> (r: JsonRpcResponse)
    ensures
        r.id is None,
        r.result is None,
        r.error matches Some(e) && e.code == RpcErrorCode::InvalidRequest,
{
    JsonRpcResponse::error(None, INVALID_REQUEST, "batch requests must be processed via handle_message or run/run_async")
}

/// Whether a response is sent: everything but the successful response to a
/// notification (no id, no error; JSON-RPC 2.0 §4.1).
pub open spec fn is_sent(r: JsonRpcResponse) -> bool {
    !(r.id is None && r.error is None)
}

/// A dispatched JSON-RPC result, ready to be inspected or rendered.
#[derive(Debug, Clone, PartialEq)]
pub enum RpcOutcome {
    /// A single JSON-RPC response object.
    Single(JsonRpcResponse),
    /// A JSON-RPC batch response array (always non-empty).
    Batch(Vec<JsonRpcResponse>),
}

impl RpcOutcome {
    /// Whether this is a batch of responses.
    pub fn is_batch(&self) -> (r: bool)
        ensures
            r == self is Batch,
    {
        match self {
            RpcOutcome::Batch(_) => true,
            RpcOutcome::Single(_) => false,
        }
    }

    /// The responses as a flat list: one for a single response, the batch's
    /// responses unchanged.
    pub fn into_responses(self) -> (r: Vec<JsonRpcResponse>)
        ensures
            match self {
                RpcOutcome::Single(resp) => r@ == seq![resp],
                RpcOutcome::Batch(rs) => r@ == rs@,
            },
    {
        match self {
            RpcOutcome::Single(response) => {
                let mut v = Vec::new();
                v.push(response);
                v
            },
            RpcOutcome::Batch(responses) => responses,
        }
    }
}

/// What a single message is answered with: its response, unless it is the
/// success response to a notification.
pub fn single_outcome(response: JsonRpcResponse) -> (r: Option<RpcOutcome>)
    ensures
        is_sent(response) <==> r is Some,
        r matches Some(o) ==> o == RpcOutcome::Single(response),
{
    if response.id.is_none() && response.error.is_none() {
        None
    } else {
        Some(RpcOutcome::Single(response))
    }
}

/// Whether a dispatched batch member is answered: a member whose response
/// carries no id (a notification) is not.
pub open spec fn batch_member_sent(r: JsonRpcResponse) -> bool {
    r.id is Some
}

/// The responses of a batch kept in order: the error responses for
/// malformed members (always) and the dispatched responses that carry an id.
pub open spec fn kept(members: Seq<(JsonRpcResponse, bool)>) -> Seq<JsonRpcResponse>
    decreases members.len(),
{
    if members.len() == 0 {
        Seq::empty()
    } else {
        let rest = kept(members.drop_last());
        let (resp, dispatched) = members.last();
        if !dispatched || batch_member_sent(resp) {
            rest.push(resp)
        } else {
            rest
        }
    }
}

/// What a batch is answered with, from each member's response and whether
/// it came from dispatching the member (rather than from rejecting it):
/// the kept responses as a batch, or nothing when none is kept.
pub fn batch_outcome(members: Vec<(JsonRpcResponse, bool)>) -> (r: Option<RpcOutcome>)
    ensures
        kept(members@).len() == 0 <==> r is None,
        r matches Some(o) ==> o matches RpcOutcome::Batch(rs) && rs@ == kept(members@),
{
    let ghost all = members@;
    let mut rest = members;
    let mut responses: Vec<JsonRpcResponse> = Vec::new();
    let ghost mut k: int = 0;
    while rest.len() > 0
        invariant
            0 <= k <= all.len(),
            rest@ == all.subrange(k, all.len() as int),
            responses@ == kept(all.take(k)),
        decreases rest.len(),
    {
        let (resp, dispatched) = rest.remove(0);
        proof {
            assert(all.take(k + 1).drop_last() =~= all.take(k));
            assert(all.take(k + 1).last() == all[k]);
        }
        if !dispatched || resp.id.is_some() {
            responses.push(resp);
        }
        proof {
            k = k + 1;
        }
    }
    assert(all.take(k) =~= all);
    if responses.len() == 0 {
        None
    } else {
        Some(RpcOutcome::Batch(responses))
    }
}

/// The error for an empty batch array.
pub fn empty_batch_response() -> (r: JsonRpcResponse)
    ensures
        r.id is None,
        r.error matches Some(e) && e.code == RpcErrorCode::InvalidRequest,
{
    JsonRpcResponse::error(None, INVALID_REQUEST, "batch request array cannot be empty")
}

/// The capabilities `initialize` advertises: tools always, prompts and
/// resources when any are registered.
pub fn capabilities_for(has_prompts: bool, has_resources: bool) -> (r: Capabilities)
    ensures
        r.tools is Some,
        r.prompts is Some <==> has_prompts,
        r.resources is Some <==> has_resources,
{
    Capabilities {
        tools: Some(ToolCapabilities {}),
        resources: if has_resources {
            Some(ResourceCapabilities {})
        } else {
            None
        },
        prompts: if has_prompts {
            Some(PromptCapabilities {})
        } else {
            None
        },
    }
}

/// The `initialize` result body for a server.
pub fn initialize_result(
    name: &str,
    version: &str,
    instructions: Option<&str>,
    has_prompts: bool,
    has_resources: bool,
) -> (r: InitializeResult)
    ensures
        r.protocol_version@ == PROTOCOL_VERSION@,
        r.server_info.name@ == name@,
        r.server_info.version@ == version@,
        match instructions {
            Some(i) => r.instructions matches Some(t) && t@ == i@,
            None => r.instructions is None,
        },
        r.capabilities.tools is Some,
        r.capabilities.prompts is Some <==> has_prompts,
        r.capabilities.resources is Some <==> has_resources,
{
    InitializeResult {
        protocol_version: PROTOCOL_VERSION,
        server_info: ServerInfo { name: String::from_str(name), version: String::from_str(version) },
        instructions: match instructions {
            Some(i) => Some(String::from_str(i)),
            None => None,
        },
        capabilities: capabilities_for(has_prompts, has_resources),
    }
}

/// `s` without leading and trailing whitespace.
pub open spec fn trimmed(s: Seq<char>) -> Seq<char>
    decreases s.len(),
{
    if s.len() > 0 && is_ws(s[0]) {
        trimmed(s.skip(1))
    } else if s.len() > 0 && is_ws(s.last()) {
        trimmed(s.drop_last())
    } else {
        s
    }
}

/// The caller identity a connection adopts at `initialize`: the client's
/// announced `clientInfo.name`, trimmed, when per-connection identity is
/// enabled and the trimmed name is not empty.
pub fn adopted_caller(per_connection_identity: bool, client_name: Option<&str>) -> (r: Option<String>)
    ensures
        match r {
            Some(n) => per_connection_identity && (client_name matches Some(c) && n@ == trimmed(c@) && n@.len() > 0),
            None => !per_connection_identity || client_name is None || (client_name matches Some(c) && trimmed(c@).len() == 0),
        },
{
    if !per_connection_identity {
        return None;
    }
    match client_name {
        None => None,
        Some(c) => {
            let cs = chars_of(c);
            let mut lo: usize = 0;
            let mut hi: usize = cs.len();
            assert(cs@.subrange(0, cs@.len() as int) =~= cs@);
            while lo < hi && is_ws_char(cs[lo])
                invariant
                    lo <= hi == cs.len(),
                    trimmed(cs@.subrange(lo as int, hi as int)) == trimmed(cs@),
                decreases hi - lo,
            {
                assert(cs@.subrange(lo as int, hi as int).skip(1) =~= cs@.subrange(lo + 1, hi as int));
                lo = lo + 1;
            }
            while lo < hi && is_ws_char(cs[hi - 1])
                invariant
                    lo <= hi <= cs.len(),
                    lo < hi ==> !is_ws(cs@[lo as int]),
                    trimmed(cs@.subrange(lo as int, hi as int)) == trimmed(cs@),
                decreases hi - lo,
            {
                let ghost sub = cs@.subrange(lo as int, hi as int);
                assert(sub.drop_last() =~= cs@.subrange(lo as int, hi - 1));
                assert(sub[0] == cs@[lo as int]);
                hi = hi - 1;
            }
            let ghost sub = cs@.subrange(lo as int, hi as int);
            assert(sub.len() > 0 ==> sub[0] == cs@[lo as int] && sub.last() == cs@[hi - 1]);
            if lo == hi {
                assert(sub.len() == 0);
                None
            } else {
                Some(string_from_chars(crate::text::chars_slice(&cs, lo, hi)))
            }
        },
    }
}

/// The `tools/call` result of a tool's outcome: its text content, or the
/// error's message flagged as an error (never a JSON-RPC-level error).
pub fn tool_call_result(outcome: Result<ToolOutput, ToolError>) -> (r: ToolCallResult)
    ensures
        r.content@.len() == 1,
        r.content@[0].content_type@ == CONTENT_TYPE_TEXT@,
        match outcome {
            Ok(o) => !r.is_error && r.content@[0].text@ == o.text(),
            Err(e) => r.is_error && r.content@[0].text@ == e.msg(),
        },
{
    let mut content = Vec::new();
    match outcome {
        Ok(output) => {
            let text = output.into_content();
            content.push(ContentItem::text(text.as_str()));
            ToolCallResult { content, is_error: false }
        },
        Err(e) => {
            let text = e.to_string();
            content.push(ContentItem::text(text.as_str()));
            ToolCallResult { content, is_error: true }
        },
    }
}

/// The `prompts/get` result of a rendered prompt: each message with its
/// role's wire name and its text, no description.
pub fn prompt_result(output: PromptOutput) -> (r: GetPromptResult)
    ensures
        r.description is None,
        r.messages@.len() == output.messages@.len(),
        forall|i: int| 0 <= i < r.messages@.len() ==> {
            &&& #[trigger] r.messages@[i].role@ == role_name(output.messages@[i].role)
            &&& r.messages@[i].content matches PromptMessageContent::Text { text } && text@ == output.messages@[i].content@
        },
{
    let ghost src = output.messages@;
    let mut rest = output.messages;
    let mut messages: Vec<PromptMessage> = Vec::new();
    while rest.len() > 0
        invariant
            messages@.len() + rest@.len() == src.len(),
            rest@ == src.subrange(messages@.len() as int, src.len() as int),
            forall|i: int| 0 <= i < messages@.len() ==> {
                &&& #[trigger] messages@[i].role@ == role_name(src[i].role)
                &&& messages@[i].content matches PromptMessageContent::Text { text } && text@ == src[i].content@
            },
        decreases rest.len(),
    {
        let ghost idx = messages@.len() as int;
        let m: PromptOutputMessage = rest.remove(0);
        assert(m == src[idx]);
        let role = m.role.to_string();
        let content = PromptMessageContent::Text { text: m.content };
        messages.push(PromptMessage { role, content });
        assert(messages@[idx].role@ == role_name(src[idx].role));
    }
    GetPromptResult { description: None, messages }
}

/// The `resources/list` entries of resource definitions: each definition's
/// URI template as the resource URI, with its name, description and MIME type.
pub fn resources_list(definitions: Vec<ResourceDefinition>) -> (r: ResourcesListResult)
    ensures
        r.resources@.len() == definitions@.len(),
        forall|i: int| 0 <= i < r.resources@.len() ==> {
            &&& #[trigger] r.resources@[i].uri == definitions@[i].uri_template
            &&& r.resources@[i].name == definitions@[i].name
            &&& r.resources@[i].description == definitions@[i].description
            &&& r.resources@[i].mime_type == definitions@[i].mime_type
        },
{
    let ghost src = definitions@;
    let mut rest = definitions;
    let mut resources: Vec<McpResource> = Vec::new();
    while rest.len() > 0
        invariant
            resources@.len() + rest@.len() == src.len(),
            rest@ == src.subrange(resources@.len() as int, src.len() as int),
            forall|i: int| 0 <= i < resources@.len() ==> {
                &&& #[trigger] resources@[i].uri == src[i].uri_template
                &&& resources@[i].name == src[i].name
                &&& resources@[i].description == src[i].description
                &&& resources@[i].mime_type == src[i].mime_type
            },
        decreases rest.len(),
    {
        let d = rest.remove(0);
        resources.push(McpResource { uri: d.uri_template, name: d.name, description: d.description, mime_type: d.mime_type });
    }
    ResourcesListResult { resources }
}

/// The body of a reply that needs nothing from the handlers.
#[derive(Debug)]
pub enum PlainReply {
    /// The empty object: acknowledgements, notifications, cancellation.
    Empty(EmptyResult),
    /// The `completion/complete` result, which offers no completions.
    Completion(CompletionCompleteResult),
}

/// The body the server answers a route with when no handler takes part:
/// the empty object for acknowledgements, notifications and cancellation,
/// no completions for `completion/complete`; `None` for every other route.
pub fn plain_reply(route: MethodRoute) -> (r: Option<PlainReply>)
    ensures
        match route {
            MethodRoute::Acknowledge | MethodRoute::Cancelled | MethodRoute::Notification => r matches Some(
                PlainReply::Empty(_),
            ),
            MethodRoute::CompletionComplete => r matches Some(PlainReply::Completion(c)) && c.completion.values@.len()
                == 0 && c.completion.total == 0 && !c.completion.has_more,
            _ => r is None,
        },
{
    match route {
        MethodRoute::Acknowledge | MethodRoute::Cancelled | MethodRoute::Notification => Some(
            PlainReply::Empty(EmptyResult {  }),
        ),
        MethodRoute::CompletionComplete => Some(
            PlainReply::Completion(
                CompletionCompleteResult {
                    completion: CompletionResultData { values: Vec::new(), total: 0, has_more: false },
                },
            ),
        ),
        _ => None,
    }
}

/// The `prompts/list` body: the registered prompt definitions, in order.
pub fn prompts_list(definitions: Vec<PromptDefinition>) -> (r: PromptsListResult)
    ensures
        r.prompts@ == definitions@,
{
    PromptsListResult { prompts: definitions }
}

/// The `resources/templates/list` body: the registered resource
/// definitions, in order.
pub fn resource_templates_list(definitions: Vec<ResourceDefinition>) -> (r: ResourceTemplatesListResult)
    ensures
        r.resource_templates@ == definitions@,
{
    ResourceTemplatesListResult { resource_templates: definitions }
}

/// The `resources/read` body: the content blocks the resource returned.
pub fn read_resource_result(output: ResourceOutput) -> (r: ReadResourceResult)
    ensures
        r.contents@ == output.contents@,
{
    ReadResourceResult { contents: output.contents }
}

/// Every method the protocol names reaches its own handler; none is unknown.
pub proof fn law_method_table()
    ensures
        route_of(METHOD_INITIALIZE@) == MethodRoute::Initialize,
        route_of(METHOD_PING@) == MethodRoute::Acknowledge,
        route_of(METHOD_LOGGING_SET_LEVEL@) == MethodRoute::Acknowledge,
        route_of(METHOD_NOTIFICATIONS_INITIALIZED@) == MethodRoute::Acknowledge,
        route_of(METHOD_INITIALIZED@) == MethodRoute::Acknowledge,
        route_of(METHOD_NOTIFICATIONS_CANCELLED@) == MethodRoute::Cancelled,
        route_of(METHOD_TOOLS_LIST@) == MethodRoute::ToolsList,
        route_of(METHOD_TOOLS_CALL@) == MethodRoute::ToolsCall,
        route_of(METHOD_RESOURCES_LIST@) == MethodRoute::ResourcesList,
        route_of(METHOD_RESOURCES_TEMPLATES_LIST@) == MethodRoute::ResourceTemplatesList,
        route_of(METHOD_RESOURCES_READ@) == MethodRoute::ResourcesRead,
        route_of(METHOD_PROMPTS_LIST@) == MethodRoute::PromptsList,
        route_of(METHOD_PROMPTS_GET@) == MethodRoute::PromptsGet,
        route_of(METHOD_COMPLETION_COMPLETE@) == MethodRoute::CompletionComplete,
        route_of(METHOD_NOTIFICATIONS_PROGRESS@) == MethodRoute::Notification,
        route_of(METHOD_NOTIFICATIONS_MESSAGE@) == MethodRoute::Notification,
{
    reveal_strlit("initialize");
    reveal_strlit("ping");
    reveal_strlit("logging/setLevel");
    reveal_strlit("notifications/initialized");
    reveal_strlit("initialized");
    reveal_strlit("notifications/cancelled");
    reveal_strlit("tools/list");
    reveal_strlit("tools/call");
    reveal_strlit("resources/list");
    reveal_strlit("resources/templates/list");
    reveal_strlit("resources/read");
    reveal_strlit("prompts/list");
    reveal_strlit("prompts/get");
    reveal_strlit("completion/complete");
    reveal_strlit("notifications/progress");
    reveal_strlit("notifications/message");
    assert(METHOD_INITIALIZE@.len() == 10 && METHOD_INITIALIZE@[0] == 'i' && METHOD_INITIALIZE@[9] == 'e');
    assert(METHOD_PING@.len() == 4 && METHOD_PING@[0] == 'p' && METHOD_PING@[3] == 'g');
    assert(METHOD_LOGGING_SET_LEVEL@.len() == 16 && METHOD_LOGGING_SET_LEVEL@[0] == 'l' && METHOD_LOGGING_SET_LEVEL@[15] == 'l');
    assert(METHOD_NOTIFICATIONS_INITIALIZED@.len() == 25 && METHOD_NOTIFICATIONS_INITIALIZED@[0] == 'n' && METHOD_NOTIFICATIONS_INITIALIZED@[24] == 'd');
    assert(METHOD_INITIALIZED@.len() == 11 && METHOD_INITIALIZED@[0] == 'i' && METHOD_INITIALIZED@[10] == 'd');
    assert(METHOD_NOTIFICATIONS_CANCELLED@.len() == 23 && METHOD_NOTIFICATIONS_CANCELLED@[0] == 'n' && METHOD_NOTIFICATIONS_CANCELLED@[22] == 'd');
    assert(METHOD_TOOLS_LIST@.len() == 10 && METHOD_TOOLS_LIST@[0] == 't' && METHOD_TOOLS_LIST@[9] == 't');
    assert(METHOD_TOOLS_CALL@.len() == 10 && METHOD_TOOLS_CALL@[0] == 't' && METHOD_TOOLS_CALL@[9] == 'l');
    assert(METHOD_RESOURCES_LIST@.len() == 14 && METHOD_RESOURCES_LIST@[0] == 'r' && METHOD_RESOURCES_LIST@[13] == 't');
    assert(METHOD_RESOURCES_TEMPLATES_LIST@.len() == 24 && METHOD_RESOURCES_TEMPLATES_LIST@[0] == 'r' && METHOD_RESOURCES_TEMPLATES_LIST@[23] == 't');
    assert(METHOD_RESOURCES_READ@.len() == 14 && METHOD_RESOURCES_READ@[0] == 'r' && METHOD_RESOURCES_READ@[13] == 'd');
    assert(METHOD_PROMPTS_LIST@.len() == 12 && METHOD_PROMPTS_LIST@[0] == 'p' && METHOD_PROMPTS_LIST@[11] == 't');
    assert(METHOD_PROMPTS_GET@.len() == 11 && METHOD_PROMPTS_GET@[0] == 'p' && METHOD_PROMPTS_GET@[10] == 't');
    assert(METHOD_COMPLETION_COMPLETE@.len() == 19 && METHOD_COMPLETION_COMPLETE@[0] == 'c' && METHOD_COMPLETION_COMPLETE@[18] == 'e');
    assert(METHOD_NOTIFICATIONS_PROGRESS@.len() == 22 && METHOD_NOTIFICATIONS_PROGRESS@[0] == 'n' && METHOD_NOTIFICATIONS_PROGRESS@[21] == 's');
    assert(METHOD_NOTIFICATIONS_MESSAGE@.len() == 21 && METHOD_NOTIFICATIONS_MESSAGE@[0] == 'n' && METHOD_NOTIFICATIONS_MESSAGE@[20] == 'e');
}

/// A message is answered exactly when it is not the success of a
/// notification: a response with an id, or any error, is always sent.
pub proof fn law_reply_rule(r: JsonRpcResponse)
    ensures
        r.id is Some ==> is_sent(r),
        r.error is Some ==> is_sent(r),
        r.id is None && r.error is None ==> !is_sent(r),
{
}

} // verus!
