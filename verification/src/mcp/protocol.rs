//! JSON-RPC 2.0 protocol vocabulary for MCP communication: error codes,
//! request ids, method names and the plain result bodies.
use vstd::prelude::*;
use crate::json::{JsonKind, json_kind, json_kind_of};
use crate::types::prompt::PromptDefinition;
use crate::types::resource::{ResourceDefinition, ResourceOutputContent};

verus! {

/// The only valid JSON-RPC protocol version.
pub const JSONRPC_VERSION: &'static str = "2.0";

/// Wire code of [`RpcErrorCode::ParseError`].
pub const CODE_PARSE_ERROR: i64 = -32700;
/// Wire code of [`RpcErrorCode::InvalidRequest`].
pub const CODE_INVALID_REQUEST: i64 = -32600;
/// Wire code of [`RpcErrorCode::MethodNotFound`].
pub const CODE_METHOD_NOT_FOUND: i64 = -32601;
/// Wire code of [`RpcErrorCode::InvalidParams`].
pub const CODE_INVALID_PARAMS: i64 = -32602;
/// Wire code of [`RpcErrorCode::InternalError`].
pub const CODE_INTERNAL_ERROR: i64 = -32603;
/// Wire code of [`RpcErrorCode::RequestCancelled`].
pub const CODE_REQUEST_CANCELLED: i64 = -32800;

/// Strongly-typed JSON-RPC 2.0 / MCP error code; on the wire an integer.
#[derive(Debug, Clone, Copy, PartialEq, Eq, Structural, Hash)]
pub enum RpcErrorCode {
    /// Malformed JSON (`-32700`).
    ParseError,
    /// Valid JSON but not a valid JSON-RPC request (`-32600`).
    InvalidRequest,
    /// The requested method does not exist (`-32601`).
    MethodNotFound,
    /// Invalid method parameters (`-32602`).
    InvalidParams,
    /// Internal server error (`-32603`).
    InternalError,
    /// Request cancelled by client notification (`-32800`).
    RequestCancelled,
    /// Custom or application-specific error code.
    Custom(i64),
}

/// The wire integer of an error code.
pub open spec fn code_of(c: RpcErrorCode) -> i64 {
    match c {
        RpcErrorCode::ParseError => CODE_PARSE_ERROR,
        RpcErrorCode::InvalidRequest => CODE_INVALID_REQUEST,
        RpcErrorCode::MethodNotFound => CODE_METHOD_NOT_FOUND,
        RpcErrorCode::InvalidParams => CODE_INVALID_PARAMS,
        RpcErrorCode::InternalError => CODE_INTERNAL_ERROR,
        RpcErrorCode::RequestCancelled => CODE_REQUEST_CANCELLED,
        RpcErrorCode::Custom(code) => code,
    }
}

/// The error code a wire integer denotes: a standard code by name, any
/// other integer as `Custom`.
pub open spec fn code_from(n: i64) -> RpcErrorCode {
    if n == CODE_PARSE_ERROR {
        RpcErrorCode::ParseError
    } else if n == CODE_INVALID_REQUEST {
        RpcErrorCode::InvalidRequest
    } else if n == CODE_METHOD_NOT_FOUND {
        RpcErrorCode::MethodNotFound
    } else if n == CODE_INVALID_PARAMS {
        RpcErrorCode::InvalidParams
    } else if n == CODE_INTERNAL_ERROR {
        RpcErrorCode::InternalError
    } else if n == CODE_REQUEST_CANCELLED {
        RpcErrorCode::RequestCancelled
    } else {
        RpcErrorCode::Custom(n)
    }
}

/// Whether `n` is one of the standard codes.
pub open spec fn is_standard_code(n: i64) -> bool {
    n == CODE_PARSE_ERROR || n == CODE_INVALID_REQUEST || n == CODE_METHOD_NOT_FOUND || n
        == CODE_INVALID_PARAMS || n == CODE_INTERNAL_ERROR || n == CODE_REQUEST_CANCELLED
}

impl RpcErrorCode {
    /// The underlying `i64` JSON-RPC wire code.
    pub fn as_i64(self) -> (r: i64)
        ensures
            r == code_of(self),
    {
        match self {
            RpcErrorCode::ParseError => CODE_PARSE_ERROR,
            RpcErrorCode::InvalidRequest => CODE_INVALID_REQUEST,
            RpcErrorCode::MethodNotFound => CODE_METHOD_NOT_FOUND,
            RpcErrorCode::InvalidParams => CODE_INVALID_PARAMS,
            RpcErrorCode::InternalError => CODE_INTERNAL_ERROR,
            RpcErrorCode::RequestCancelled => CODE_REQUEST_CANCELLED,
            RpcErrorCode::Custom(code) => code,
        }
    }

    /// The error code of a wire integer.
    pub fn from_i64(code: i64) -> (r: Self)
        ensures
            r == code_from(code),
    {
        if code == CODE_PARSE_ERROR {
            RpcErrorCode::ParseError
        } else if code == CODE_INVALID_REQUEST {
            RpcErrorCode::InvalidRequest
        } else if code == CODE_METHOD_NOT_FOUND {
            RpcErrorCode::MethodNotFound
        } else if code == CODE_INVALID_PARAMS {
            RpcErrorCode::InvalidParams
        } else if code == CODE_INTERNAL_ERROR {
            RpcErrorCode::InternalError
        } else if code == CODE_REQUEST_CANCELLED {
            RpcErrorCode::RequestCancelled
        } else {
            RpcErrorCode::Custom(code)
        }
    }
}

/// Every wire integer reads back as itself: `from_i64` then `as_i64` is the identity.
pub proof fn law_code_round_trip_from_wire(n: i64)
    ensures
        code_of(code_from(n)) == n,
{
}

/// An error code that is not a `Custom` spelling of a standard code survives
/// the wire: `as_i64` then `from_i64` gives it back.
pub proof fn law_code_round_trip_to_wire(c: RpcErrorCode)
    requires
        !(c matches RpcErrorCode::Custom(n) && is_standard_code(n)),
    ensures
        code_from(code_of(c)) == c,
{
}

impl From<RpcErrorCode> for i64 {
    /// The wire code (see [`RpcErrorCode::as_i64`]).
    fn from(code: RpcErrorCode) -> (r: i64)
        ensures
            r == code_of(code),
    {
        code.as_i64()
    }
}

impl vstd::std_specs::convert::FromSpecImpl<RpcErrorCode> for i64 {
    open spec fn obeys_from_spec() -> bool {
        true
    }

    open spec fn from_spec(v: RpcErrorCode) -> i64 {
        code_of(v)
    }
}

impl From<i64> for RpcErrorCode {
    /// The error code of a wire integer (see [`RpcErrorCode::from_i64`]).
    fn from(code: i64) -> (r: RpcErrorCode)
        ensures
            r == code_from(code),
    {
        RpcErrorCode::from_i64(code)
    }
}

impl vstd::std_specs::convert::FromSpecImpl<i64> for RpcErrorCode {
    open spec fn obeys_from_spec() -> bool {
        true
    }

    open spec fn from_spec(v: i64) -> RpcErrorCode {
        code_from(v)
    }
}

/// Malformed JSON (`-32700`).
pub const PARSE_ERROR: RpcErrorCode = RpcErrorCode::ParseError;

/// Valid JSON but not a valid JSON-RPC request (`-32600`).
pub const INVALID_REQUEST: RpcErrorCode = RpcErrorCode::InvalidRequest;

/// The requested method does not exist (`-32601`).
pub const METHOD_NOT_FOUND: RpcErrorCode = RpcErrorCode::MethodNotFound;

/// Invalid method parameters (`-32602`).
pub const INVALID_PARAMS: RpcErrorCode = RpcErrorCode::InvalidParams;

/// Internal server error (`-32603`).
pub const INTERNAL_ERROR: RpcErrorCode = RpcErrorCode::InternalError;

/// Request cancelled by client notification (`notifications/cancelled`).
pub const REQUEST_CANCELLED: RpcErrorCode = RpcErrorCode::RequestCancelled;

/// Strongly-typed JSON-RPC 2.0 request identifier.
#[derive(Debug, Clone, PartialEq, Eq, Hash)]
pub enum RequestId {
    /// Numeric request ID (e.g. `1`, `42`).
    Number(i64),
    /// String request ID (e.g. `"req-1"`).
    String(String),
}

/// Error returned when converting a non-identifier JSON value into a [`RequestId`].
#[derive(Debug, Clone, PartialEq, Eq)]
pub struct InvalidRequestIdError {
    /// Description of the invalid JSON type encountered.
    pub actual_type: &'static str,
}

/// Whether `id` is the identifier a JSON value of kind `k` denotes.
pub open spec fn id_of_kind(k: JsonKind, id: RequestId) -> bool {
    match k {
        JsonKind::Number(Some(n)) => id == RequestId::Number(n),
        JsonKind::String(s) => id matches RequestId::String(t) && t@ == s@,
        _ => false,
    }
}

/// Whether a JSON value of kind `k` is a valid identifier (an `i64` or a string).
pub open spec fn is_id_kind(k: JsonKind) -> bool {
    k matches JsonKind::Number(Some(_)) || k is String
}

/// The type a JSON value of kind `k` is reported as when it is no identifier.
pub open spec fn invalid_id_type(k: JsonKind) -> Seq<char> {
    match k {
        JsonKind::Number(_) => "non-i64 number"@,
        JsonKind::Null => "null"@,
        JsonKind::Bool(_) => "boolean"@,
        JsonKind::Array => "array"@,
        _ => "object"@,
    }
}

impl InvalidRequestIdError {
    /// The error's message.
    pub fn to_string(&self) -> (r: String)
        ensures
            r@ == "invalid JSON-RPC request id: expected integer or string, got "@ + self.actual_type@,
    {
        let mut v: Vec<char> = Vec::new();
        crate::text::push_str(&mut v, "invalid JSON-RPC request id: expected integer or string, got ");
        crate::text::push_str(&mut v, self.actual_type);
        crate::text::string_from_chars(v)
    }
}

impl RequestId {
    /// The identifier a JSON value of kind `kind` denotes, or why it is none.
    pub fn try_from_kind(kind: JsonKind) -> (r: Result<RequestId, InvalidRequestIdError>)
        ensures
            match r {
                Ok(id) => is_id_kind(kind) && id_of_kind(kind, id),
                Err(e) => !is_id_kind(kind) && e.actual_type@ == invalid_id_type(kind),
            },
    {
        match kind {
            JsonKind::Number(Some(n)) => Ok(RequestId::Number(n)),
            JsonKind::Number(None) => Err(InvalidRequestIdError { actual_type: "non-i64 number" }),
            JsonKind::String(s) => Ok(RequestId::String(s)),
            JsonKind::Null => Err(InvalidRequestIdError { actual_type: "null" }),
            JsonKind::Bool(_) => Err(InvalidRequestIdError { actual_type: "boolean" }),
            JsonKind::Array => Err(InvalidRequestIdError { actual_type: "array" }),
            JsonKind::Object => Err(InvalidRequestIdError { actual_type: "object" }),
        }
    }

    /// The identifier a JSON value of kind `kind` denotes, if any.
    pub fn from_kind(kind: JsonKind) -> (r: Option<RequestId>)
        ensures
            match r {
                Some(id) => is_id_kind(kind) && id_of_kind(kind, id),
                None => !is_id_kind(kind),
            },
    {
        match Self::try_from_kind(kind) {
            Ok(id) => Some(id),
            Err(_) => None,
        }
    }

    /// The identifier `val` denotes, if it is a valid JSON-RPC 2.0
    /// identifier (an `i64` number or a string).
    pub fn from_json_value(val: &serde_json::Value) -> (r: Option<RequestId>)
        ensures
            is_id_kind(json_kind_of(*val)) == r is Some,
            r matches Some(id) ==> id_of_kind(json_kind_of(*val), id),
    {
        let kind = json_kind(val);
        Self::from_kind(kind)
    }

    /// The identifier `val` denotes, or the reason it is none.
    pub fn try_from_json_value(val: &serde_json::Value) -> (r: Result<RequestId, InvalidRequestIdError>)
        ensures
            is_id_kind(json_kind_of(*val)) == r is Ok,
            match r {
                Ok(id) => id_of_kind(json_kind_of(*val), id),
                Err(e) => e.actual_type@ == invalid_id_type(json_kind_of(*val)),
            },
    {
        let kind = json_kind(val);
        Self::try_from_kind(kind)
    }
}

/// `initialize` — capability negotiation handshake.
pub const METHOD_INITIALIZE: &'static str = "initialize";

/// `ping` — liveness check; server replies with an empty result.
pub const METHOD_PING: &'static str = "ping";

/// `logging/setLevel` — client sets the server log level.
pub const METHOD_LOGGING_SET_LEVEL: &'static str = "logging/setLevel";

/// `notifications/initialized` — client signals it finished initializing.
pub const METHOD_NOTIFICATIONS_INITIALIZED: &'static str = "notifications/initialized";

/// `initialized` — bare alias some clients send instead of the namespaced form.
pub const METHOD_INITIALIZED: &'static str = "initialized";

/// `notifications/cancelled` — client cancels an in-flight request.
pub const METHOD_NOTIFICATIONS_CANCELLED: &'static str = "notifications/cancelled";

/// `tools/list` — enumerate available tools and their schemas.
pub const METHOD_TOOLS_LIST: &'static str = "tools/list";

/// `tools/call` — invoke a named tool with arguments.
pub const METHOD_TOOLS_CALL: &'static str = "tools/call";

/// `resources/list` — enumerate concrete resources.
pub const METHOD_RESOURCES_LIST: &'static str = "resources/list";

/// `resources/templates/list` — enumerate resource URI templates.
pub const METHOD_RESOURCES_TEMPLATES_LIST: &'static str = "resources/templates/list";

/// `resources/read` — read a resource by URI.
pub const METHOD_RESOURCES_READ: &'static str = "resources/read";

/// `prompts/list` — enumerate registered prompts.
pub const METHOD_PROMPTS_LIST: &'static str = "prompts/list";

/// `prompts/get` — render a prompt with arguments.
pub const METHOD_PROMPTS_GET: &'static str = "prompts/get";

/// `completion/complete` — argument-completion request.
pub const METHOD_COMPLETION_COMPLETE: &'static str = "completion/complete";

/// `notifications/progress` — progress update notification.
pub const METHOD_NOTIFICATIONS_PROGRESS: &'static str = "notifications/progress";

/// `notifications/message` — log-message notification.
pub const METHOD_NOTIFICATIONS_MESSAGE: &'static str = "notifications/message";

/// A JSON-RPC 2.0 error object.
#[derive(Debug, Clone, PartialEq)]
pub struct JsonRpcError {
    /// Numeric error code.
    pub code: RpcErrorCode,
    /// Human-readable description.
    pub message: String,
    /// Optional additional data about the error.
    pub data: Option<serde_json::Value>,
}

/// A JSON-RPC 2.0 response.
#[derive(Debug, Clone, PartialEq)]
pub struct JsonRpcResponse {
    /// Protocol version — always `"2.0"`.
    pub jsonrpc: &'static str,
    /// Echoed request identifier.
    pub id: Option<serde_json::Value>,
    /// Present on success.
    pub result: Option<serde_json::Value>,
    /// Present on error.
    pub error: Option<JsonRpcError>,
}

impl JsonRpcResponse {
    /// A success response carrying the already serialized `result`.
    pub fn success_value(id: Option<serde_json::Value>, result: serde_json::Value) -> (r: Self)
        ensures
            r.jsonrpc@ == JSONRPC_VERSION@,
            r.id == id,
            r.result == Some(result),
            r.error is None,
    {
        JsonRpcResponse { jsonrpc: JSONRPC_VERSION, id, result: Some(result), error: None }
    }

    /// An error response.
    pub fn error(id: Option<serde_json::Value>, code: RpcErrorCode, message: &str) -> (r: Self)
        ensures
            r.jsonrpc@ == JSONRPC_VERSION@,
            r.id == id,
            r.result is None,
            r.error matches Some(e) && e.code == code && e.message@ == message@ && e.data is None,
    {
        JsonRpcResponse {
            jsonrpc: JSONRPC_VERSION,
            id,
            result: None,
            error: Some(JsonRpcError { code, message: String::from_str(message), data: None }),
        }
    }

    /// An error response with additional structured data.
    pub fn error_with_data(
        id: Option<serde_json::Value>,
        code: RpcErrorCode,
        message: &str,
        data: serde_json::Value,
    ) -> (r: Self)
        ensures
            r.jsonrpc@ == JSONRPC_VERSION@,
            r.id == id,
            r.result is None,
            r.error matches Some(e) && e.code == code && e.message@ == message@ && e.data == Some(data),
    {
        JsonRpcResponse {
            jsonrpc: JSONRPC_VERSION,
            id,
            result: None,
            error: Some(JsonRpcError { code, message: String::from_str(message), data: Some(data) }),
        }
    }
}

/// Parameters for `notifications/cancelled`.
#[derive(Debug, Clone, PartialEq, Eq)]
pub struct CancelledNotificationParams {
    /// The strongly-typed ID of the request to cancel.
    pub request_id: RequestId,
    /// Optional human-readable reason for cancellation.
    pub reason: Option<String>,
}

/// Result body for `initialize`.
#[derive(Debug)]
pub struct InitializeResult {
    /// MCP protocol version (e.g. `"2024-11-05"`).
    pub protocol_version: &'static str,
    /// Server name and version.
    pub server_info: ServerInfo,
    /// Optional instructions describing how to use the server.
    pub instructions: Option<String>,
    /// Advertised capabilities.
    pub capabilities: Capabilities,
}

/// Server identification returned in `initialize`.
#[derive(Debug)]
pub struct ServerInfo {
    /// Human-readable server name.
    pub name: String,
    /// Server version string.
    pub version: String,
}

/// Server capabilities advertised during `initialize`; the presence of each
/// part signals that its list and call methods are available.
#[derive(Debug)]
pub struct Capabilities {
    /// Tool support.
    pub tools: Option<ToolCapabilities>,
    /// Resource support.
    pub resources: Option<ResourceCapabilities>,
    /// Prompt support.
    pub prompts: Option<PromptCapabilities>,
}

/// Tool-specific capabilities (currently empty per MCP spec).
#[derive(Debug, Clone, Copy)]
pub struct ToolCapabilities {}

/// Resource-specific capabilities (currently empty per MCP spec).
#[derive(Debug, Clone, Copy)]
pub struct ResourceCapabilities {}

/// Prompt-specific capabilities (currently empty per MCP spec).
#[derive(Debug, Clone, Copy)]
pub struct PromptCapabilities {}

/// Result body for a successful `tools/call`.
#[derive(Debug)]
pub struct ToolCallResult {
    /// Response content blocks.
    pub content: Vec<ContentItem>,
    /// `true` when the tool returned an error (MCP-level, not JSON-RPC).
    pub is_error: bool,
}

impl ToolCallResult {
    /// The text of the first content block, if any.
    pub fn text(&self) -> (r: Option<&str>)
        ensures
            match r {
                Some(t) => self.content@.len() > 0 && t@ == self.content@[0].text@,
                None => self.content@.len() == 0,
            },
    {
        if self.content.len() == 0 {
            None
        } else {
            Some(self.content[0].text.as_str())
        }
    }
}

/// The `type` value of a text [`ContentItem`].
pub const CONTENT_TYPE_TEXT: &'static str = "text";

/// A single content block in a `tools/call` response.
#[derive(Debug)]
pub struct ContentItem {
    /// Content type — currently always [`CONTENT_TYPE_TEXT`].
    pub content_type: &'static str,
    /// The text content.
    pub text: String,
}

impl ContentItem {
    /// A text content block, tagged with [`CONTENT_TYPE_TEXT`].
    pub fn text(text: &str) -> (r: Self)
        ensures
            r.content_type@ == CONTENT_TYPE_TEXT@,
            r.text@ == text@,
    {
        ContentItem { content_type: CONTENT_TYPE_TEXT, text: String::from_str(text) }
    }
}

/// Result body for `prompts/list`.
#[derive(Clone, Debug)]
pub struct PromptsListResult {
    /// Available prompts.
    pub prompts: Vec<PromptDefinition>,
}

/// Result body for `prompts/get`.
#[derive(Debug)]
pub struct GetPromptResult {
    /// Optional description of the rendered prompt.
    pub description: Option<String>,
    /// Rendered messages.
    pub messages: Vec<PromptMessage>,
}

/// A rendered message inside `GetPromptResult`.
#[derive(Clone, Debug, PartialEq, Eq)]
pub struct PromptMessage {
    /// Role (`"user"`, `"assistant"` or `"system"`).
    pub role: String,
    /// Content block.
    pub content: PromptMessageContent,
}

/// Content inside a `PromptMessage`.
#[derive(Clone, Debug, PartialEq, Eq)]
pub enum PromptMessageContent {
    /// Text content.
    Text {
        /// Text string.
        text: String,
    },
    /// Embedded resource content.
    Resource {
        /// Resource payload.
        resource: ResourceOutputContent,
    },
}

/// Wire format for a concrete resource in `resources/list`.
#[derive(Clone, Debug, PartialEq, Eq)]
pub struct McpResource {
    /// Resource URI.
    pub uri: String,
    /// Human-readable name.
    pub name: String,
    /// Optional description.
    pub description: String,
    /// Optional MIME type.
    pub mime_type: Option<String>,
}

/// Result body for `resources/list`.
#[derive(Clone, Debug)]
pub struct ResourcesListResult {
    /// Available resources.
    pub resources: Vec<McpResource>,
}

/// Parameters for `resources/read`.
#[derive(Debug)]
pub struct ReadResourceParams {
    /// URI of the resource to read.
    pub uri: String,
}

/// Result body for `resources/read`.
#[derive(Debug)]
pub struct ReadResourceResult {
    /// Resource content blocks.
    pub contents: Vec<ResourceOutputContent>,
}

/// An empty JSON object used for responses like ping or logging/setLevel.
#[derive(Debug, Clone, Copy, Default, PartialEq, Eq)]
pub struct EmptyResult {}

/// Result body for `resources/templates/list`.
#[derive(Clone, Debug)]
pub struct ResourceTemplatesListResult {
    /// Available resource templates.
    pub resource_templates: Vec<ResourceDefinition>,
}

/// Result body for `completion/complete`.
#[derive(Clone, Debug, Default)]
pub struct CompletionCompleteResult {
    /// Completion values and pagination.
    pub completion: CompletionResultData,
}

/// Data inside `CompletionCompleteResult`.
#[derive(Clone, Debug, Default)]
pub struct CompletionResultData {
    /// Recommended completion values.
    pub values: Vec<String>,
    /// Total number of available completions.
    pub total: usize,
    /// Whether more completions are available.
    pub has_more: bool,
}

} // verus!
