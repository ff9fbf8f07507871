use llm_tool::template_includes::{
    check_include_depth, include_step, IncludeStack, IncludeStep, DEFAULT_MAX_COMPILE_INCLUDE_DEPTH,
};

#[test]
fn include_depth_is_bounded() {
    assert_eq!(DEFAULT_MAX_COMPILE_INCLUDE_DEPTH, 64);
    assert!(check_include_depth(0, 64).is_ok());
    assert!(check_include_depth(64, 64).is_ok());
    assert_eq!(
        check_include_depth(65, 64),
        Err("compile-time include depth (65) exceeds maximum (64). Set PROMPT_TEMPLATES_MAX_INCLUDE_DEPTH to increase the limit".to_string())
    );
    assert_eq!(
        check_include_depth(1, 0).unwrap_err(),
        "compile-time include depth (1) exceeds maximum (0). Set PROMPT_TEMPLATES_MAX_INCLUDE_DEPTH to increase the limit"
    );
}

#[test]
fn include_steps_follow_precedence() {
    assert_eq!(include_step(true, true, true), IncludeStep::Deferred);
    assert_eq!(include_step(false, true, true), IncludeStep::Inline);
    assert_eq!(include_step(false, false, true), IncludeStep::DeclarationsOnly);
    assert_eq!(include_step(false, false, false), IncludeStep::Resolve);
}

#[test]
fn include_stack_ends_cycles_and_unwinds() {
    let mut stack = IncludeStack::new();
    assert_eq!(stack.step("a.md", false, false), IncludeStep::Resolve);
    assert!(stack.contains("a.md"));
    assert_eq!(stack.step("b.md", false, false), IncludeStep::Resolve);
    assert_eq!(stack.step("a.md", false, false), IncludeStep::DeclarationsOnly);
    assert_eq!(stack.step("a.md", true, false), IncludeStep::Deferred);
    assert_eq!(stack.step("a.md", false, true), IncludeStep::Inline);
    stack.finish("b.md");
    assert!(!stack.contains("b.md"));
    assert!(stack.contains("a.md"));
    stack.finish("a.md");
    assert_eq!(stack.step("a.md", false, false), IncludeStep::Resolve);
}
