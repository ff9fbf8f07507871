use llm_tool::json::JsonKind;
use llm_tool::mcp::protocol::{
    ContentItem, JsonRpcResponse, RequestId, RpcErrorCode, ToolCallResult, CONTENT_TYPE_TEXT,
    INTERNAL_ERROR, JSONRPC_VERSION, METHOD_COMPLETION_COMPLETE, METHOD_INITIALIZE,
    METHOD_INITIALIZED, METHOD_LOGGING_SET_LEVEL, METHOD_NOTIFICATIONS_CANCELLED,
    METHOD_NOTIFICATIONS_INITIALIZED, METHOD_NOTIFICATIONS_MESSAGE, METHOD_NOTIFICATIONS_PROGRESS,
    METHOD_NOT_FOUND, METHOD_PING, METHOD_PROMPTS_GET, METHOD_PROMPTS_LIST, METHOD_RESOURCES_LIST,
    METHOD_RESOURCES_READ, METHOD_RESOURCES_TEMPLATES_LIST, METHOD_TOOLS_CALL, METHOD_TOOLS_LIST,
    PARSE_ERROR,
};

#[test]
fn jsonrpc_version_constant() {
    assert_eq!(JSONRPC_VERSION, "2.0");
}

#[test]
fn method_consts_match_wire_strings() {
    assert_eq!(METHOD_INITIALIZE, "initialize");
    assert_eq!(METHOD_PING, "ping");
    assert_eq!(METHOD_LOGGING_SET_LEVEL, "logging/setLevel");
    assert_eq!(METHOD_NOTIFICATIONS_INITIALIZED, "notifications/initialized");
    assert_eq!(METHOD_INITIALIZED, "initialized");
    assert_eq!(METHOD_NOTIFICATIONS_CANCELLED, "notifications/cancelled");
    assert_eq!(METHOD_TOOLS_LIST, "tools/list");
    assert_eq!(METHOD_TOOLS_CALL, "tools/call");
    assert_eq!(METHOD_RESOURCES_LIST, "resources/list");
    assert_eq!(METHOD_RESOURCES_TEMPLATES_LIST, "resources/templates/list");
    assert_eq!(METHOD_RESOURCES_READ, "resources/read");
    assert_eq!(METHOD_PROMPTS_LIST, "prompts/list");
    assert_eq!(METHOD_PROMPTS_GET, "prompts/get");
    assert_eq!(METHOD_COMPLETION_COMPLETE, "completion/complete");
    assert_eq!(METHOD_NOTIFICATIONS_PROGRESS, "notifications/progress");
    assert_eq!(METHOD_NOTIFICATIONS_MESSAGE, "notifications/message");
}

#[test]
fn content_item_text_constructor_sets_type() {
    let item = ContentItem::text("hello");
    assert_eq!(item.content_type, CONTENT_TYPE_TEXT);
    assert_eq!(item.content_type, "text");
    assert_eq!(item.text, "hello");
}

#[test]
fn tool_call_result_text_returns_first_block() {
    let result = ToolCallResult {
        content: vec![ContentItem::text("first"), ContentItem::text("second")],
        is_error: false,
    };
    assert_eq!(result.text(), Some("first"));

    let empty = ToolCallResult { content: vec![], is_error: true };
    assert_eq!(empty.text(), None);
}

#[test]
fn rpc_error_codes_have_wire_values() {
    assert_eq!(RpcErrorCode::ParseError.as_i64(), -32700);
    assert_eq!(RpcErrorCode::InvalidRequest.as_i64(), -32600);
    assert_eq!(RpcErrorCode::MethodNotFound.as_i64(), -32601);
    assert_eq!(RpcErrorCode::InvalidParams.as_i64(), -32602);
    assert_eq!(RpcErrorCode::InternalError.as_i64(), -32603);
    assert_eq!(RpcErrorCode::RequestCancelled.as_i64(), -32800);
    assert_eq!(RpcErrorCode::Custom(42).as_i64(), 42);
}

#[test]
fn rpc_error_code_wire_round_trip() {
    for n in [-32700i64, -32600, -32601, -32602, -32603, -32800, 0, 7, -1, i64::MIN, i64::MAX] {
        assert_eq!(RpcErrorCode::from_i64(n).as_i64(), n);
    }
    assert_eq!(RpcErrorCode::from_i64(-32601), RpcErrorCode::MethodNotFound);
    assert_eq!(RpcErrorCode::from_i64(-1), RpcErrorCode::Custom(-1));
    let wire: i64 = RpcErrorCode::RequestCancelled.into();
    assert_eq!(wire, -32800);
    let back: RpcErrorCode = (-32602i64).into();
    assert_eq!(back, RpcErrorCode::InvalidParams);
}

#[test]
fn request_id_from_kinds() {
    assert_eq!(RequestId::from_kind(JsonKind::Number(Some(7))), Some(RequestId::Number(7)));
    assert_eq!(
        RequestId::from_kind(JsonKind::String("req-1".to_string())),
        Some(RequestId::String("req-1".to_string()))
    );
    assert_eq!(RequestId::from_kind(JsonKind::Null), None);
    let e = RequestId::try_from_kind(JsonKind::Number(None)).unwrap_err();
    assert_eq!(e.actual_type, "non-i64 number");
    assert_eq!(RequestId::try_from_kind(JsonKind::Bool(true)).unwrap_err().actual_type, "boolean");
    assert_eq!(RequestId::try_from_kind(JsonKind::Array).unwrap_err().actual_type, "array");
    assert_eq!(RequestId::try_from_kind(JsonKind::Object).unwrap_err().actual_type, "object");
    assert_eq!(
        e.to_string(),
        "invalid JSON-RPC request id: expected integer or string, got non-i64 number"
    );
}

#[test]
fn request_id_from_json_values() {
    assert_eq!(RequestId::from_json_value(&j(r#"5"#)), Some(RequestId::Number(5)));
    assert_eq!(
        RequestId::from_json_value(&j(r#""abc""#)),
        Some(RequestId::String("abc".to_string()))
    );
    assert_eq!(RequestId::from_json_value(&j(r#"1.5"#)), None);
    assert_eq!(
        RequestId::try_from_json_value(&j(r#"null"#)).unwrap_err().actual_type,
        "null"
    );
}

#[test]
fn error_responses_carry_code_and_message() {
    let resp = JsonRpcResponse::error(Some(j(r#"1"#)), PARSE_ERROR, "bad json");
    assert_eq!(resp.jsonrpc, "2.0");
    assert!(resp.result.is_none());
    let err = resp.error.unwrap();
    assert_eq!(err.code, RpcErrorCode::ParseError);
    assert_eq!(err.message, "bad json");
    assert!(err.data.is_none());

    let resp = JsonRpcResponse::error_with_data(
        None,
        INTERNAL_ERROR,
        "boom",
        j(r#"{"detail": "stack trace"}"#),
    );
    assert_eq!(resp.error.unwrap().data, Some(j(r#"{"detail": "stack trace"}"#)));
    let none_id = JsonRpcResponse::error(None, METHOD_NOT_FOUND, "no such method");
    assert!(none_id.id.is_none());
}

fn j(text: &str) -> serde_json::Value {
    serde_json::from_str(text).unwrap()
}

#[test]
fn rpc_error_code_enum_and_request_id_strong_types() {
    let code = RpcErrorCode::RequestCancelled;
    assert_eq!(code.as_i64(), -32800);
    assert_eq!(RpcErrorCode::from_i64(-32800), RpcErrorCode::RequestCancelled);
    assert_eq!(RpcErrorCode::from_i64(-32099), RpcErrorCode::Custom(-32099));
    // On the wire an error code is its integer.
    assert_eq!(serde_json::to_string(&i64::from(code)).unwrap(), "-32800");
    let deserialized = RpcErrorCode::from(serde_json::from_str::<i64>("-32800").unwrap());
    assert_eq!(deserialized, RpcErrorCode::RequestCancelled);

    let num_id = RequestId::from_json_value(&serde_json::from_str("42").unwrap()).unwrap();
    assert_eq!(num_id, RequestId::Number(42));
    let str_id = RequestId::from_json_value(&serde_json::from_str(r#""req-abc""#).unwrap()).unwrap();
    assert_eq!(str_id, RequestId::String("req-abc".to_string()));
    assert!(RequestId::from_json_value(&serde_json::Value::Null).is_none());
}
