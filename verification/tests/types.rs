use llm_tool::types::output::{ToolError, ToolOutput, Wrap};
use llm_tool::types::prompt::{prompt_arguments, PromptOutput, PromptOutputMessage, PromptRole};
use llm_tool::types::resource::{ResourceOutput, ResourceOutputContent};
use llm_tool::json::{JsonFields, JsonKind};
use llm_tool::types::RegistryItem;

#[test]
fn registry_item_display() {
    assert_eq!(RegistryItem::Tool.to_string(), "tool");
    assert_eq!(RegistryItem::Prompt.to_string(), "prompt");
    assert_eq!(RegistryItem::Resource.to_string(), "resource");
}

#[test]
fn prompt_role_display_and_as_str() {
    assert_eq!(PromptRole::User.as_str(), "user");
    assert_eq!(PromptRole::Assistant.as_str(), "assistant");
    assert_eq!(PromptRole::System.as_str(), "system");
    assert_eq!(PromptRole::User.to_string(), "user");
}

#[test]
fn prompt_output_constructors() {
    let p: PromptOutput = "hi".into();
    assert_eq!(p.messages.len(), 1);
    assert_eq!(p.messages[0].role, PromptRole::User);
    assert_eq!(p.messages[0].role.as_str(), "user");
    assert_eq!(p.messages[0].content, "hi");

    let p2: PromptOutput = String::from("yo").into();
    assert_eq!(p2.messages[0].content, "yo");

    let a = PromptOutput::assistant("resp");
    assert_eq!(a.messages[0].role, PromptRole::Assistant);
    assert_eq!(a.messages[0].content, "resp");

    let s = PromptOutput::system("instructions");
    assert_eq!(s.messages[0].role, PromptRole::System);
    assert_eq!(s.messages[0].content, "instructions");
}

#[test]
fn prompt_output_message_constructors() {
    let m = PromptOutputMessage::system("be brief");
    assert_eq!(m.role, PromptRole::System);
    assert_eq!(m.content, "be brief");
    assert_eq!(PromptOutputMessage::assistant("ok").role, PromptRole::Assistant);
    assert_eq!(PromptOutputMessage::user("q").role, PromptRole::User);
}

#[test]
fn resource_output_text_variant() {
    let t = ResourceOutput::text("u://a", Some("text/plain"), "body");
    match &t.contents[0] {
        ResourceOutputContent::Text { uri, mime_type, text } => {
            assert_eq!(uri, "u://a");
            assert_eq!(mime_type.as_deref(), Some("text/plain"));
            assert_eq!(text, "body");
        }
        ResourceOutputContent::Blob { .. } => panic!("expected a text content block"),
    }
}

#[test]
fn resource_output_blob_variant() {
    let b = ResourceOutput::blob("u://b", None, "ZGF0YQ==");
    match &b.contents[0] {
        ResourceOutputContent::Blob { uri, mime_type, blob } => {
            assert_eq!(uri, "u://b");
            assert!(mime_type.is_none());
            assert_eq!(blob, "ZGF0YQ==");
        }
        ResourceOutputContent::Text { .. } => panic!("expected a blob content block"),
    }
}

#[test]
fn tool_output_from_str_has_empty_metadata() {
    let out = ToolOutput::from_str("world");
    assert_eq!(out.content(), "world");
    assert!(out.metadata().is_empty());
}

#[test]
fn tool_output_with_meta_replaces_value() {
    let out = ToolOutput::new("done".to_string())
        .with_meta("exit_code".to_string(), j(r#"0"#))
        .with_meta("exit_code".to_string(), j(r#"2"#));
    assert_eq!(out.metadata().get("exit_code"), Some(&j(r#"2"#)));
    assert!(out.metadata().contains_key("exit_code"));
    assert!(!out.metadata().contains_key("other"));
    assert_eq!(out.into_content(), "done");
}

#[test]
fn tool_output_from_metadata_rejects_non_object() {
    let err = ToolOutput::from_json_value(j(r#""just a string""#)).unwrap_err();
    assert!(err.message.contains("JSON object"), "Expected object error, got: {}", err.to_string());
    assert_eq!(err.message, "metadata must serialize to a JSON object, got string");
    let arr = ToolOutput::from_json_value(j(r#"[1, 2]"#)).unwrap_err();
    assert_eq!(arr.message, "metadata must serialize to a JSON object, got array");
    assert!(arr.metadata().is_empty());
}

#[test]
fn tool_output_with_metadata_merges_with_existing() {
    let out = ToolOutput::from_str("data")
        .with_meta("version".to_string(), j("1"))
        .with_metadata_value(JsonFields::from_json(j(r#"{"source": "cache"}"#)))
        .unwrap();
    assert_eq!(out.metadata().get("version"), Some(&j("1")));
    assert_eq!(out.metadata().get("source"), Some(&j(r#""cache""#)));
    assert_eq!(out.metadata().entries().len(), 2);
    let over = ToolOutput::from_str("x")
        .with_meta("a".to_string(), j(r#"1"#))
        .with_metadata_value(JsonFields::from_json(j(r#"{"b": 2, "a": 3}"#)))
        .unwrap();
    assert_eq!(over.metadata().get("a"), Some(&j(r#"3"#)));
    assert_eq!(over.metadata().get("b"), Some(&j(r#"2"#)));
    let err = ToolOutput::from_str("x").with_metadata_value(JsonFields::from_json(j(r#"5"#))).unwrap_err();
    assert_eq!(err.to_string(), "metadata must serialize to a JSON object, got number");
}

#[test]
fn tool_error_without_metadata_is_empty() {
    let err = ToolError::new("something went wrong");
    assert_eq!(err.to_string(), "something went wrong");
    assert!(err.metadata().is_empty());
}

#[test]
fn tool_error_with_metadata_value() {
    let err = ToolError::new("HTTP request failed")
        .with_metadata_value(JsonFields::from_json(j(r#"{"status_code": 503}"#)))
        .unwrap();
    assert_eq!(err.metadata().get("status_code"), Some(&j(r#"503"#)));
    let bad = ToolError::new("timeout").with_metadata_value(JsonFields::from_json(j(r#"true"#))).unwrap_err();
    assert_eq!(bad.message, "timeout (metadata must serialize to a JSON object, got bool)");
    let with = ToolError::new("timeout").with_meta("retry_after_secs".to_string(), j(r#"30"#));
    assert_eq!(with.metadata().get("retry_after_secs"), Some(&j(r#"30"#)));
}

#[test]
fn wrap_conversions() {
    let out = Wrap("plain".to_string()).__convert().unwrap();
    assert_eq!(out.content(), "plain");
    let p = Wrap("hello").__convert_prompt().unwrap();
    assert_eq!(p.messages[0].content, "hello");
    let r = Wrap("text".to_string()).__convert_resource("u://x", Some("text/plain")).unwrap();
    match &r.contents[0] {
        ResourceOutputContent::Text { uri, text, .. } => {
            assert_eq!(uri, "u://x");
            assert_eq!(text, "text");
        }
        ResourceOutputContent::Blob { .. } => panic!("expected text"),
    }
    let kept = Wrap(ResourceOutput::blob("u://b", None, "AA==")).__convert_resource("ignored", None).unwrap();
    assert!(matches!(kept.contents[0], ResourceOutputContent::Blob { .. }));
}

#[test]
fn tool_output_from_string_has_empty_metadata() {
    let output: ToolOutput = "owned".to_string().into();
    assert_eq!(output.content(), "owned");
    assert!(output.metadata().is_empty());
}

#[test]
fn tool_error_with_metadata() {
    let err = ToolError::new("HTTP request failed")
        .with_meta("status_code".to_string(), j("503"))
        .with_meta("url".to_string(), j(r#""https://example.com""#));
    assert_eq!(err.message, "HTTP request failed");
    assert_eq!(err.metadata().get("status_code"), Some(&j("503")));
    assert_eq!(err.metadata().get("url"), Some(&j(r#""https://example.com""#)));
    assert_eq!(err.metadata().entries().len(), 2);
}

#[test]
fn tool_error_display_ignores_metadata() {
    let err = ToolError::new("visible").with_meta("hidden".to_string(), j("true"));
    assert_eq!(err.to_string(), "visible");
}

#[test]
fn tool_output_with_metadata_struct() {
    let out = ToolOutput::from_str("done").with_metadata_value(JsonFields::from_json(j(r#"{"status": "ok", "count": 42}"#))).unwrap();
    assert_eq!(out.metadata().get("status"), Some(&j(r#""ok""#)));
    assert_eq!(out.metadata().get("count"), Some(&j("42")));
    assert_eq!(out.metadata().entries().len(), 2);
}

#[test]
fn tool_output_with_metadata_rejects_non_object() {
    let err = ToolOutput::from_str("x").with_metadata_value(JsonFields::from_json(j("42"))).unwrap_err();
    assert!(err.message.contains("JSON object"), "Expected object error, got: {}", err.to_string());
}

#[test]
fn tool_error_with_metadata_struct() {
    let err = ToolError::new("HTTP request failed")
        .with_metadata_value(JsonFields::from_json(j(r#"{"status_code": 503, "url": "https://example.com"}"#)))
        .unwrap();
    assert_eq!(err.message, "HTTP request failed");
    assert_eq!(err.metadata().get("status_code"), Some(&j("503")));
    assert_eq!(err.metadata().get("url"), Some(&j(r#""https://example.com""#)));
    assert_eq!(err.metadata().entries().len(), 2);
}

#[test]
fn tool_output_from_metadata_populates_both() {
    let out = ToolOutput::from_json_value(j(r#"{"location": "Seattle", "temp_f": 72}"#)).unwrap();
    assert!(out.content().contains("Seattle"));
    assert!(out.content().contains("72"));
    assert_eq!(out.metadata().get("location"), Some(&j(r#""Seattle""#)));
    assert_eq!(out.metadata().get("temp_f"), Some(&j("72")));
    assert_eq!(out.metadata().entries().len(), 2);
}

#[test]
fn metadata_fields_override_existing_keys() {
    let out = ToolOutput::from_str("data")
        .with_meta("version".to_string(), j("1"))
        .with_meta("source".to_string(), j(r#""disk""#))
        .with_metadata_value(JsonFields::Object(vec![
            ("source".to_string(), j(r#""cache""#)),
            ("ttl".to_string(), j("5")),
            ("ttl".to_string(), j("9")),
        ]))
        .unwrap();
    assert_eq!(out.content(), "data");
    assert_eq!(out.metadata().get("version"), Some(&j("1")));
    assert_eq!(out.metadata().get("source"), Some(&j(r#""cache""#)));
    assert_eq!(out.metadata().get("ttl"), Some(&j("9")));
    assert_eq!(out.metadata().entries().len(), 3);
    let err = ToolOutput::from_str("x").with_metadata_value(JsonFields::Other(JsonKind::Array)).unwrap_err();
    assert_eq!(err.message, "metadata must serialize to a JSON object, got array");
    let e = ToolError::new("boom").with_metadata_value(JsonFields::Other(JsonKind::Null)).unwrap_err();
    assert_eq!(e.message, "boom (metadata must serialize to a JSON object, got null)");
}

#[test]
fn from_metadata_value_takes_text_and_fields() {
    let out = ToolOutput::from_metadata_value(
        r#"{"a":1}"#.to_string(),
        JsonFields::Object(vec![("a".to_string(), j("1"))]),
    )
    .unwrap();
    assert_eq!(out.content(), r#"{"a":1}"#);
    assert_eq!(out.metadata().get("a"), Some(&j("1")));
    let err = ToolOutput::from_metadata_value("7".to_string(), JsonFields::Other(JsonKind::Number(Some(7)))).unwrap_err();
    assert_eq!(err.message, "metadata must serialize to a JSON object, got number");
    assert_eq!(JsonFields::from_json(j(r#"{"k": true}"#)), JsonFields::Object(vec![("k".to_string(), j("true"))]));
    assert_eq!(JsonFields::from_json(j(r#""s""#)), JsonFields::Other(JsonKind::String("s".to_string())));
}

fn j(text: &str) -> serde_json::Value {
    serde_json::from_str(text).unwrap()
}

#[test]
fn prompt_arguments_follow_schema_properties() {
    let args = prompt_arguments(&[("lang", "Programming language."), ("style", "")], &["lang"]);
    assert_eq!(args.len(), 2);
    assert_eq!(args[0].name, "lang");
    assert_eq!(args[0].description, "Programming language.");
    assert!(args[0].required);
    assert_eq!(args[1].name, "style");
    assert!(!args[1].required);
    assert!(prompt_arguments(&[], &["x"]).is_empty());
}

#[test]
fn not_found_sets_message_and_predicate() {
    let err = ToolError::not_found(RegistryItem::Tool, "add_nummbers");
    assert!(err.to_string().contains("add_nummbers"));
    assert!(err.to_string().contains("tool"));
    assert!(err.is_not_found());
    assert_eq!(
        err.metadata().get(ToolError::ERROR_KIND_KEY),
        Some(&serde_json::Value::String(ToolError::KIND_NOT_REGISTERED.to_string()))
    );
}

#[test]
fn is_not_found_false_for_plain_error() {
    assert!(!ToolError::new("handler blew up").is_not_found());
}

#[test]
fn not_found_message_names_kind_and_name() {
    assert_eq!(ToolError::not_found(RegistryItem::Tool, "nonexistent").to_string(), "Unknown tool: nonexistent");
    assert_eq!(ToolError::not_found(RegistryItem::Resource, "file:///x").to_string(), "Unknown resource: file:///x");
    let other_kind = ToolError::new("x").with_meta("error_kind".to_string(), j(r#""NotFound""#));
    assert!(!other_kind.is_not_found());
}

#[test]
fn destructive_in_parallel_batch_message() {
    let err = ToolError::destructive_in_parallel_batch("rm_rf");
    assert_eq!(err.to_string(), "destructive tool `rm_rf` needs explicit confirmation to run in a parallel batch");
    assert!(err.metadata().is_empty());
}

#[test]
fn from_json_value_takes_json_text_and_fields() {
    let out = ToolOutput::from_json_value(j(r#"{"a": 1, "b": "x"}"#)).unwrap();
    assert_eq!(out.content(), r#"{"a":1,"b":"x"}"#);
    assert_eq!(out.metadata().get("a"), Some(&j("1")));
    assert_eq!(out.metadata().get("b"), Some(&j(r#""x""#)));
    let none = ToolOutput::from_json_value(j("null")).unwrap_err();
    assert_eq!(none.message, "metadata must serialize to a JSON object, got null");
}
