use llm_tool::attrs::ToolAttrFlags;
use llm_tool::description::{
    expected_params, param_owner, DeclaredParam,
    check_template_params, description_source, inline_description_plan, missing_inputs_error,
    opens_with_frontmatter, response_source, DescriptionPlan, DescriptionSource, ParamsMismatch, ResponseSource,
};

#[test]
fn description_plan_follows_frontmatter_and_inputs() {
    assert_eq!(inline_description_plan("Plain description.", true, true, true), DescriptionPlan::Verbatim);
    let tmpl = "  \n---\nparams:\n  - x = str\n---\nHello {{ x }}";
    assert!(opens_with_frontmatter(tmpl));
    assert!(!opens_with_frontmatter("-- not frontmatter"));
    assert_eq!(inline_description_plan("---\n---\nbody", false, false, false), DescriptionPlan::StaticBody);
    assert_eq!(inline_description_plan(tmpl, true, true, true), DescriptionPlan::RenderWithParams);
    assert_eq!(inline_description_plan(tmpl, true, false, true), DescriptionPlan::RenderWithContext);
    assert_eq!(inline_description_plan(tmpl, true, false, false), DescriptionPlan::MissingInputs);
}

#[test]
fn missing_inputs_lists_declared_parameters() {
    assert_eq!(
        missing_inputs_error(&["x", "y"]),
        "inline template declares parameters (x, y) but neither `params(...)` nor `context = ...` was provided"
    );
    assert_eq!(
        missing_inputs_error(&[]),
        "inline template declares parameters () but neither `params(...)` nor `context = ...` was provided"
    );
}

#[test]
fn template_params_are_checked_both_ways() {
    assert_eq!(check_template_params(&["a", "b"], &["b", "a"]), Ok(()));
    let missing = check_template_params(&["a", "b", "c"], &["b"]).unwrap_err();
    assert_eq!(missing, ParamsMismatch::Missing(vec!["a".to_string(), "c".to_string()]));
    assert_eq!(
        missing.message("d.tmpl.md", &["a", "b", "c"]),
        "template 'd.tmpl.md' declares parameters not provided in `params(...)`: a, c"
    );
    let extra = check_template_params(&["a"], &["a", "z", "q"]).unwrap_err();
    assert_eq!(extra, ParamsMismatch::Undeclared("z".to_string()));
    assert_eq!(
        extra.message("<inline>", &["a"]),
        "param `z` is not declared in template '<inline>'. Declared params: a"
    );
}

#[test]
fn description_source_prefers_attribute_over_doc() {
    let none = ToolAttrFlags::default();
    assert_eq!(description_source(&none, "Fetches weather."), Ok(DescriptionSource::DocComment));
    assert_eq!(
        description_source(&none, ""),
        Err("#[llm_tool] functions must have a doc comment (used as the tool description), or use #[llm_tool(prompt = \"...\")]".to_string())
    );
    let inline = ToolAttrFlags { description_inline: true, ..none };
    assert_eq!(description_source(&inline, ""), Ok(DescriptionSource::Inline));
    let dynamic = ToolAttrFlags { inline_params: true, ..inline };
    assert_eq!(
        description_source(&dynamic, "doc"),
        Err("the `md-tmpl` feature must be enabled to use dynamic inline prompts".to_string())
    );
    assert_eq!(
        description_source(&ToolAttrFlags { md_tmpl: true, ..dynamic }, "doc"),
        Ok(DescriptionSource::Inline)
    );
    let file = ToolAttrFlags { description_file: true, ..none };
    assert!(description_source(&file, "doc").unwrap_err().starts_with("the `md-tmpl` feature must be enabled"));
    assert_eq!(
        description_source(&ToolAttrFlags { md_tmpl: true, ..file }, "doc"),
        Ok(DescriptionSource::TemplateFile)
    );
}

#[test]
fn response_source_prefers_file() {
    let none = ToolAttrFlags::default();
    assert_eq!(response_source(&none), Ok(None));
    let both = ToolAttrFlags { response_file: true, response_inline: true, md_tmpl: true, ..none };
    assert_eq!(response_source(&both), Ok(Some(ResponseSource::TemplateFile)));
    let inline = ToolAttrFlags { response_inline: true, md_tmpl: true, ..none };
    assert_eq!(response_source(&inline), Ok(Some(ResponseSource::Inline)));
    assert_eq!(
        response_source(&ToolAttrFlags { md_tmpl: false, ..inline }),
        Err("the `md-tmpl` feature must be enabled to use `response`".to_string())
    );
    assert_eq!(
        response_source(&ToolAttrFlags { response_file: true, ..none }),
        Err("the `md-tmpl` feature must be enabled to use `response_file`".to_string())
    );
}

#[test]
fn struct_declarations_expect_their_fields() {
    let decls = vec![
        DeclaredParam { name: "lang", fields: None },
        DeclaredParam { name: "user", fields: Some(vec!["first", "last"]) },
        DeclaredParam { name: "tone", fields: None },
    ];
    let expected = expected_params(&decls);
    assert_eq!(expected, vec!["lang", "first", "last", "tone"]);
    assert_eq!(check_template_params(&expected, &["tone", "last", "first", "lang"]), Ok(()));
    assert_eq!(
        check_template_params(&expected, &["lang", "user"]),
        Err(ParamsMismatch::Missing(vec!["first".to_string(), "last".to_string(), "tone".to_string()]))
    );
    assert_eq!(param_owner(&decls, "first"), Some("user"));
    assert_eq!(param_owner(&decls, "lang"), None);
    assert_eq!(param_owner(&decls, "user"), None);
}
