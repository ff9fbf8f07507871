use llm_tool::signature::{check_signature, doc_string, reject_generic_signature, schema_params, MacroKind, ParamSummary};

fn param(name: &str, is_context: bool, has_doc: bool) -> ParamSummary<'_> {
    ParamSummary { name, is_context, has_doc }
}

#[test]
fn tool_signature_rules() {
    let ok = [param("location", false, true), param("ctx", true, false)];
    assert_eq!(check_signature(MacroKind::Tool, false, &ok), Ok(()));
    let two_ctx = [param("a", true, false), param("b", true, false), param("x", false, false)];
    assert_eq!(
        check_signature(MacroKind::Tool, false, &two_ctx).unwrap_err(),
        "#[llm_tool] functions can accept at most one ToolContext parameter"
    );
    let undocumented = [param("a", false, true), param("b", false, false), param("c", false, false)];
    assert_eq!(
        check_signature(MacroKind::Tool, false, &undocumented).unwrap_err(),
        "#[llm_tool] parameter `b` must have a doc comment (used as the parameter description in the JSON schema)"
    );
}

#[test]
fn prompt_and_resource_signature_rules() {
    let documented = [param("lang", false, true)];
    assert_eq!(check_signature(MacroKind::Prompt, false, &documented), Ok(()));
    assert_eq!(
        check_signature(MacroKind::Prompt, true, &documented).unwrap_err(),
        "#[llm_prompt] does not support `response`/`response_file`; response templates apply to #[llm_tool] only"
    );
    assert_eq!(
        check_signature(MacroKind::Prompt, false, &[param("ctx", true, true)]).unwrap_err(),
        "#[llm_prompt] functions do not accept a ToolContext parameter"
    );
    assert_eq!(
        check_signature(MacroKind::Prompt, false, &[param("lang", false, false)]).unwrap_err(),
        "#[llm_prompt] parameter `lang` must have a doc comment (used as the parameter description in the JSON schema)"
    );
    assert_eq!(check_signature(MacroKind::Resource, false, &[param("app", false, false)]), Ok(()));
    assert_eq!(
        check_signature(MacroKind::Resource, false, &[param("ctx", true, true)]).unwrap_err(),
        "#[llm_resource] functions do not accept a ToolContext parameter"
    );
}

#[test]
fn extract_doc_string_joins_and_trims_lines() {
    // `/// First line.` and `/// Second line.` give these doc literals.
    assert_eq!(doc_string(&[" First line.", " Second line."]), "First line.\nSecond line.");
    assert_eq!(doc_string(&[]), "");
}

#[test]
fn doc_string_normalizes_line_endings() {
    assert_eq!(doc_string(&["  Fetches\r\n  weather.  ", "", "  More. "]), "Fetches\n  weather.\n\nMore.");
    assert_eq!(doc_string(&["", "  ", " x"]), "x");
}

#[test]
fn reject_generic_signature_flags_generics_lifetimes_and_where() {
    // `fn foo<T>(x: T) -> T` and `fn foo<'a>(x: &'a str) -> &'a str` have parameters.
    assert!(reject_generic_signature("llm_tool", false, true).is_err());
    // `fn foo(x: u32) -> u32 where u32: Clone` has a where clause.
    assert!(reject_generic_signature("llm_tool", true, false).is_err());
    // `fn foo(x: u32) -> u32` is concrete.
    assert!(reject_generic_signature("llm_tool", false, false).is_ok());
    assert_eq!(
        reject_generic_signature("llm_prompt", false, true).unwrap_err(),
        "#[llm_prompt] does not support generic parameters or lifetimes; use concrete types"
    );
    assert_eq!(
        reject_generic_signature("llm_tool", true, true).unwrap_err(),
        "#[llm_tool] does not support `where` clauses; use concrete types"
    );
}

#[test]
fn context_parameter_is_not_a_schema_field() {
    let params = [
        ParamSummary { name: "query", is_context: false, has_doc: true },
        ParamSummary { name: "ctx", is_context: true, has_doc: false },
        ParamSummary { name: "limit", is_context: false, has_doc: true },
    ];
    let fields: Vec<&str> = schema_params(&params).iter().map(|p| p.name).collect();
    assert_eq!(fields, vec!["query", "limit"]);
}
