use llm_tool::attrs::{
    validate_tool_attr, AttrItem, ResourceAttrFlags, ResourceAttrKey, ToolAttrFlags, ToolAttrKey,
};
use llm_tool::template_syntax::normalize_and_validate_syntax;

#[test]
fn tool_attr_keys_round_trip() {
    for k in [
        ToolAttrKey::Description,
        ToolAttrKey::DescriptionFile,
        ToolAttrKey::ResponseFile,
        ToolAttrKey::Response,
        ToolAttrKey::Params,
        ToolAttrKey::Env,
        ToolAttrKey::Context,
    ] {
        assert_eq!(ToolAttrKey::from_name(k.as_str()), Ok(k));
    }
    assert_eq!(ToolAttrKey::Description.as_str(), "description");
    assert_eq!(
        ToolAttrKey::from_name("descr"),
        Err("expected `description`, `description_file`, `response`, `response_file`, `params`, `env`, or `context`".to_string())
    );
}

#[test]
fn resource_attr_aliases() {
    assert_eq!(ResourceAttrKey::Uri.aliases(), vec!["uri", "uri_template"]);
    assert_eq!(ResourceAttrKey::MimeType.aliases(), vec!["mime_type", "mime"]);
    assert_eq!(ResourceAttrKey::Name.aliases(), vec!["name"]);
    assert_eq!(ResourceAttrKey::from_name("uri_template"), Ok(ResourceAttrKey::Uri));
    assert_eq!(ResourceAttrKey::from_name("mime"), Ok(ResourceAttrKey::MimeType));
    assert_eq!(ResourceAttrKey::from_name("context"), Ok(ResourceAttrKey::Context));
    assert_eq!(
        ResourceAttrKey::from_name("path"),
        Err("unknown attribute key `path`, expected one of: `uri`, `name`, `description`, `description_file`, `mime_type`, `params`, `env`, `context`".to_string())
    );
}

#[test]
fn tool_attr_rules() {
    let base = ToolAttrFlags { md_tmpl: true, ..ToolAttrFlags::default() };
    assert!(validate_tool_attr(&base).is_ok());
    let both = ToolAttrFlags { description_inline: true, description_file: true, ..base };
    assert_eq!(
        validate_tool_attr(&both),
        Err("`description` and `description_file` are mutually exclusive".to_string())
    );
    let resp = ToolAttrFlags { response_inline: true, response_file: true, ..base };
    assert_eq!(validate_tool_attr(&resp), Err("`response` and `response_file` are mutually exclusive".to_string()));
    let params_no_desc = ToolAttrFlags { inline_params: true, ..base };
    assert_eq!(
        validate_tool_attr(&params_no_desc),
        Err("`params(...)` requires `description_file = \"...\"` or `description = \"...\"`".to_string())
    );
    let both_inputs = ToolAttrFlags { inline_params: true, context_fn: true, description_inline: true, ..base };
    assert!(validate_tool_attr(&both_inputs).unwrap_err().starts_with("`params(...)` and `context = ...` are mutually exclusive"));
    let env_ok = ToolAttrFlags { env: true, description_file: true, ..base };
    assert!(validate_tool_attr(&env_ok).is_ok());
    let no_tmpl = ToolAttrFlags { description_file: true, md_tmpl: false, ..base };
    assert_eq!(
        validate_tool_attr(&no_tmpl),
        Err("`description_file` requires the `md-tmpl` feature of `llm-tool`".to_string())
    );
    let ctx_no_desc = ToolAttrFlags { context_fn: true, ..base };
    assert!(validate_tool_attr(&ctx_no_desc).unwrap_err().starts_with("`context = ...` requires"));
}

#[test]
fn test_rejects_angle_bracket_syntax() {
    let fm = "---\ntypes:\n  - Foo = struct<a = str>\n---\nbody";
    let res = normalize_and_validate_syntax(fm, "test.tmpl.md");
    assert!(res.is_err());
    let err = res.unwrap_err();
    assert!(err.contains("uses illegal <...> or [...] fallback syntax"), "got: {err}");

    let fm_list = "---\nparams:\n  - items = list<str>\n---\nbody";
    let res_list = normalize_and_validate_syntax(fm_list, "test.tmpl.md");
    assert!(res_list.is_err());
}

#[test]
fn test_rejects_bracket_syntax() {
    let fm = "---\ntypes:\n  - Foo = struct[a = str]\n---\nbody";
    let res = normalize_and_validate_syntax(fm, "test.tmpl.md");
    assert!(res.is_err());
    let err = res.unwrap_err();
    assert!(err.contains("uses illegal <...> or [...] fallback syntax"), "got: {err}");
}

#[test]
fn test_accepts_paren_syntax() {
    let fm = "---\ntypes:\n  - Foo = struct(a = str)\n\nparams:\n  - items = list(Foo)\n---\nbody";
    let res = normalize_and_validate_syntax(fm, "test.tmpl.md");
    assert!(res.is_ok(), "failed: {:?}", res.err());
    let norm = res.unwrap();
    assert!(norm.contains("struct(a = str)"), "got: {norm}");
    assert!(norm.contains("list(Foo)"), "got: {norm}");
}

#[test]
fn legacy_syntax_outside_frontmatter_is_ignored() {
    let body_only = "no frontmatter list<str>";
    assert_eq!(normalize_and_validate_syntax(body_only, "a.md"), Ok(body_only.to_string()));
    let unclosed = "---\nlist<str>";
    assert_eq!(normalize_and_validate_syntax(unclosed, "a.md"), Ok(unclosed.to_string()));
    let in_body = "  ---\nparams: []\n---\noption<x>";
    assert_eq!(normalize_and_validate_syntax(in_body, "a.md"), Ok(in_body.to_string()));
    let err = normalize_and_validate_syntax("---\nx = tmpl [y]\n---\n", "t/x.tmpl.md").unwrap_err();
    assert_eq!(
        err,
        "template 't/x.tmpl.md' uses illegal <...> or [...] fallback syntax; only full (...) parentheses are permitted"
    );
}

fn item(key: &str) -> AttrItem<'_> {
    AttrItem { key, entries: 0 }
}

fn list(key: &str, entries: usize) -> AttrItem<'_> {
    AttrItem { key, entries }
}

#[test]
fn tool_attr_read_from_items() {
    let f = ToolAttrFlags::read(&[item("description"), list("params", 2)], true).unwrap();
    assert!(f.description_inline && f.inline_params && !f.description_file);
    assert_eq!(
        ToolAttrFlags::read(&[item("description"), item("description")], true).unwrap_err(),
        "duplicate `description` attribute"
    );
    assert_eq!(
        ToolAttrFlags::read(&[item("context"), item("response"), item("context")], true).unwrap_err(),
        "duplicate `context` attribute"
    );
    assert_eq!(
        ToolAttrFlags::read(&[item("descr")], true).unwrap_err(),
        "expected `description`, `description_file`, `response`, `response_file`, `params`, `env`, or `context`"
    );
    assert_eq!(
        ToolAttrFlags::read(&[list("params", 1)], true).unwrap_err(),
        "`params(...)` requires `description_file = \"...\"` or `description = \"...\"`"
    );
    // With template support an empty list gives nothing; without it any list counts.
    let empty = ToolAttrFlags::read(&[list("params", 0), list("params", 0)], true).unwrap();
    assert!(!empty.inline_params);
    assert_eq!(
        ToolAttrFlags::read(&[list("env", 0)], false).unwrap_err(),
        "`env(...)` requires `description_file = \"...\"` or `description = \"...\"`"
    );
    assert_eq!(
        ToolAttrFlags::read(&[item("response")], false).unwrap_err(),
        "`response` requires the `md-tmpl` feature of `llm-tool`"
    );
    let mut flags = ToolAttrFlags::default();
    assert!(flags.give(ToolAttrKey::Response, 0).is_ok());
    assert_eq!(flags.give(ToolAttrKey::Response, 0), Err("duplicate `response` attribute".to_string()));
    assert!(flags.response_inline);
}

#[test]
fn resource_attr_read_from_items() {
    let f = ResourceAttrFlags::read(&[item("uri_template"), item("mime"), item("name")], false).unwrap();
    assert!(f.uri && f.mime_type && f.name);
    assert_eq!(
        ResourceAttrFlags::read(&[item("uri"), item("uri_template")], false).unwrap_err(),
        "duplicate `uri` attribute"
    );
    assert_eq!(
        ResourceAttrFlags::read(&[item("mime"), item("mime_type")], false).unwrap_err(),
        "duplicate `mime_type` attribute"
    );
    assert_eq!(
        ResourceAttrFlags::read(&[item("name")], false).unwrap_err(),
        "`uri` is required in #[llm_resource(uri = \"...\")]"
    );
    assert_eq!(
        ResourceAttrFlags::read(&[item("uri"), item("path")], false).unwrap_err(),
        "unknown attribute key `path`, expected one of: `uri`, `name`, `description`, `description_file`, `mime_type`, `params`, `env`, `context`"
    );
    assert_eq!(
        ResourceAttrFlags::read(&[item("uri"), item("description"), item("description")], true).unwrap_err(),
        "duplicate `description` attribute"
    );
    assert_eq!(
        ResourceAttrFlags::read(&[item("uri"), item("context")], true).unwrap_err(),
        "`context = ...` requires `description_file = \"...\"` or `description = \"...\"`"
    );
    let mut flags = ResourceAttrFlags::read(&[item("uri")], true).unwrap();
    assert!(flags.give(ResourceAttrKey::Description, 0).is_ok());
    assert!(flags.tool.description_inline);
}
