use llm_tool::mcp::dispatch::{
    adopted_caller, batch_not_array_response, batch_outcome, capabilities_for, check_version,
    handler_failure_response, initialize_result, invalid_batch_member_response,
    message_shape, not_an_object_response, params_error_response, parse_error_response, prompt_result,
    resources_list, route_method, single_outcome, tool_call_result, unknown_method_response, MessageShape,
    MethodRoute, PROTOCOL_VERSION, plain_reply, prompts_list, read_resource_result, resource_templates_list,
    PlainReply,
};
use llm_tool::mcp::protocol::{JsonRpcResponse, PromptMessageContent, RpcErrorCode, INTERNAL_ERROR};
use llm_tool::types::output::{ToolError, ToolOutput};
use llm_tool::types::prompt::{PromptOutput, PromptOutputMessage};
use llm_tool::types::resource::ResourceDefinition;

#[test]
fn methods_route_to_their_handlers() {
    assert_eq!(route_method("initialize"), MethodRoute::Initialize);
    assert_eq!(route_method("ping"), MethodRoute::Acknowledge);
    assert_eq!(route_method("logging/setLevel"), MethodRoute::Acknowledge);
    assert_eq!(route_method("notifications/initialized"), MethodRoute::Acknowledge);
    assert_eq!(route_method("initialized"), MethodRoute::Acknowledge);
    assert_eq!(route_method("notifications/cancelled"), MethodRoute::Cancelled);
    assert_eq!(route_method("tools/list"), MethodRoute::ToolsList);
    assert_eq!(route_method("tools/call"), MethodRoute::ToolsCall);
    assert_eq!(route_method("resources/list"), MethodRoute::ResourcesList);
    assert_eq!(route_method("resources/templates/list"), MethodRoute::ResourceTemplatesList);
    assert_eq!(route_method("resources/read"), MethodRoute::ResourcesRead);
    assert_eq!(route_method("prompts/list"), MethodRoute::PromptsList);
    assert_eq!(route_method("prompts/get"), MethodRoute::PromptsGet);
    assert_eq!(route_method("completion/complete"), MethodRoute::CompletionComplete);
    assert_eq!(route_method("notifications/progress"), MethodRoute::Notification);
    assert_eq!(route_method("notifications/message"), MethodRoute::Notification);
    assert_eq!(route_method("tools/delete"), MethodRoute::Unknown);
}

#[test]
fn unknown_method_is_method_not_found() {
    let r = unknown_method_response(Some(j("3")), "tools/delete");
    let e = r.error.unwrap();
    assert_eq!(e.code, RpcErrorCode::MethodNotFound);
    assert_eq!(e.code.as_i64(), -32601);
    assert_eq!(e.message, "unknown method: tools/delete");
    assert_eq!(r.id, Some(j("3")));
}

#[test]
fn version_must_be_two_point_zero() {
    assert!(check_version(Some(j("1")), "2.0").is_none());
    let r = check_version(Some(j("1")), "1.0").unwrap();
    let e = r.error.unwrap();
    assert_eq!(e.code, RpcErrorCode::InvalidRequest);
    assert_eq!(e.message, "invalid jsonrpc version: expected \"2.0\", got \"1.0\"");
}

#[test]
fn message_shapes() {
    assert_eq!(message_shape(""), MessageShape::Blank);
    assert_eq!(message_shape(" \t\r\n"), MessageShape::Blank);
    assert_eq!(message_shape("  [{\"jsonrpc\":\"2.0\"}]"), MessageShape::Batch);
    assert_eq!(message_shape("{\"jsonrpc\":\"2.0\"}"), MessageShape::Single);
    assert_eq!(message_shape("\u{3000}[1]"), MessageShape::Batch);
}

#[test]
fn notifications_get_no_reply() {
    let ok_no_id = JsonRpcResponse::success_value(None, j("{}"));
    assert!(single_outcome(ok_no_id).is_none());
    let err_no_id = JsonRpcResponse::error(None, INTERNAL_ERROR, "boom");
    assert!(single_outcome(err_no_id).is_some());
    let ok_with_id = JsonRpcResponse::success_value(Some(j("7")), j("{}"));
    let out = single_outcome(ok_with_id).unwrap();
    assert!(!out.is_batch());
    assert_eq!(out.into_responses().len(), 1);
}

#[test]
fn batch_keeps_rejections_and_requests_with_ids() {
    let members = vec![
        (JsonRpcResponse::success_value(Some(j("1")), j("{}")), true),
        (JsonRpcResponse::success_value(None, j("{}")), true),
        (JsonRpcResponse::error(None, INTERNAL_ERROR, "bad member"), false),
    ];
    let out = batch_outcome(members).unwrap();
    assert!(out.is_batch());
    let rs = out.into_responses();
    assert_eq!(rs.len(), 2);
    assert_eq!(rs[0].id, Some(j("1")));
    assert!(rs[1].error.is_some());
    let only_notes = vec![(JsonRpcResponse::success_value(None, j("{}")), true)];
    assert!(batch_outcome(only_notes).is_none());
}

#[test]
fn initialize_advertises_registered_capabilities() {
    let caps = capabilities_for(false, true);
    assert!(caps.tools.is_some());
    assert!(caps.prompts.is_none());
    assert!(caps.resources.is_some());
    let r = initialize_result("srv", "0.1.0", Some("use tools"), true, false);
    assert_eq!(r.protocol_version, "2024-11-05");
    assert_eq!(PROTOCOL_VERSION, "2024-11-05");
    assert_eq!(r.server_info.name, "srv");
    assert_eq!(r.server_info.version, "0.1.0");
    assert_eq!(r.instructions.as_deref(), Some("use tools"));
    assert!(r.capabilities.prompts.is_some());
    assert!(r.capabilities.resources.is_none());
}

#[test]
fn caller_identity_is_trimmed_and_optional() {
    assert_eq!(adopted_caller(true, Some("  alice \n")), Some("alice".to_string()));
    assert_eq!(adopted_caller(true, Some("   ")), None);
    assert_eq!(adopted_caller(false, Some("bob")), None);
    assert_eq!(adopted_caller(true, None), None);
}

#[test]
fn tool_results_map_to_call_results() {
    let ok = tool_call_result(Ok(ToolOutput::from_str("5")));
    assert!(!ok.is_error);
    assert_eq!(ok.text(), Some("5"));
    let err = tool_call_result(Err(ToolError::new("no such tool")));
    assert!(err.is_error);
    assert_eq!(err.text(), Some("no such tool"));
    assert_eq!(err.content[0].content_type, "text");
}

#[test]
fn prompt_messages_carry_role_names() {
    let out = PromptOutput { messages: vec![PromptOutputMessage::system("be brief"), PromptOutputMessage::user("hi")] };
    let r = prompt_result(out);
    assert!(r.description.is_none());
    assert_eq!(r.messages.len(), 2);
    assert_eq!(r.messages[0].role, "system");
    assert_eq!(r.messages[1].role, "user");
    assert_eq!(r.messages[1].content, PromptMessageContent::Text { text: "hi".to_string() });
}

#[test]
fn resource_definitions_list_as_resources() {
    let defs = vec![ResourceDefinition {
        uri_template: "config://app".to_string(),
        name: "config".to_string(),
        description: "App config".to_string(),
        mime_type: Some("text/plain".to_string()),
    }];
    let list = resources_list(defs);
    assert_eq!(list.resources.len(), 1);
    assert_eq!(list.resources[0].uri, "config://app");
    assert_eq!(list.resources[0].name, "config");
    assert_eq!(list.resources[0].mime_type.as_deref(), Some("text/plain"));
}

fn j(text: &str) -> serde_json::Value {
    serde_json::from_str(text).unwrap()
}

#[test]
fn request_faults_get_their_replies() {
    let r = parse_error_response("EOF while parsing");
    assert!(r.id.is_none());
    let e = r.error.unwrap();
    assert_eq!(e.code, RpcErrorCode::ParseError);
    assert_eq!(e.message, "invalid JSON: EOF while parsing");

    let e = not_an_object_response().error.unwrap();
    assert_eq!((e.code, e.message.as_str()), (RpcErrorCode::InvalidRequest, "expected JSON-RPC request object"));

    let e = batch_not_array_response().error.unwrap();
    assert_eq!(e.message, "expected JSON array for batch request");

    let r = invalid_batch_member_response(None, "invalid type");
    assert_eq!(r.error.unwrap().message, "invalid request object in batch: invalid type");
}

#[test]
fn params_faults_are_invalid_params() {
    let msg = |r: JsonRpcResponse| {
        let e = r.error.unwrap();
        assert_eq!(e.code, RpcErrorCode::InvalidParams);
        e.message
    };
    assert_eq!(
        msg(params_error_response(Some(j("1")), MethodRoute::ToolsCall, None)),
        "tools/call requires params with 'name' and 'arguments'"
    );
    assert_eq!(msg(params_error_response(None, MethodRoute::PromptsGet, None)), "missing params for prompts/get");
    assert_eq!(msg(params_error_response(None, MethodRoute::ResourcesRead, None)), "missing params for resources/read");
    assert_eq!(
        msg(params_error_response(None, MethodRoute::ToolsCall, Some("missing field `name`"))),
        "invalid tools/call params: missing field `name`"
    );
    assert_eq!(msg(params_error_response(None, MethodRoute::PromptsGet, Some("bad"))), "invalid params: bad");
    let err = ToolError::new("no prompt named `x`");
    assert_eq!(msg(handler_failure_response(Some(j("2")), &err)), "no prompt named `x`");
}

#[test]
fn plain_replies_need_no_handler() {
    assert!(matches!(plain_reply(route_method("ping")), Some(PlainReply::Empty(_))));
    assert!(matches!(plain_reply(route_method("notifications/cancelled")), Some(PlainReply::Empty(_))));
    match plain_reply(route_method("completion/complete")) {
        Some(PlainReply::Completion(c)) => {
            assert!(c.completion.values.is_empty());
            assert_eq!(c.completion.total, 0);
            assert!(!c.completion.has_more);
        }
        other => panic!("expected completion, got {other:?}"),
    }
    assert!(plain_reply(route_method("tools/list")).is_none());
    assert!(plain_reply(route_method("foo/bar")).is_none());
}

#[test]
fn list_and_read_bodies_keep_their_items() {
    let def = ResourceDefinition {
        uri_template: "file:///{path}".to_string(),
        name: "file".to_string(),
        description: String::new(),
        mime_type: None,
    };
    let templates = resource_templates_list(vec![def.clone()]);
    assert_eq!(templates.resource_templates, vec![def]);
    assert!(prompts_list(Vec::new()).prompts.is_empty());
    let read = read_resource_result(llm_tool::types::resource::ResourceOutput::text("file:///a", None, "hi"));
    assert_eq!(read.contents.len(), 1);
}
