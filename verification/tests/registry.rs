use llm_tool::registry::{
    allows_destructive, first_matching_template, is_parallel, rejects_in_parallel,
    AllowDestructiveBatch, BatchExecutionMode, BatchToolCallOutcome, NamedRegistry, SequentialBatch,
    parallel_outcomes, BatchToolCallStr, ToolEffect,
};
use llm_tool::types::output::{ToolError, ToolOutput};

#[test]
fn registering_a_name_again_replaces_it() {
    let mut r: NamedRegistry<u32> = NamedRegistry::new();
    assert!(r.is_empty());
    r.register("add", 1);
    r.register("sub", 2);
    r.register("add", 3);
    assert_eq!(r.len(), 2);
    assert_eq!(r.get("add"), Some(&3));
    assert_eq!(r.entries()[1].0, "add");
    assert!(r.contains("sub"));
    assert!(r.remove("sub"));
    assert!(!r.remove("sub"));
    assert!(!r.contains("sub"));
    assert_eq!(r.get("sub"), None);
    r.clear();
    assert_eq!(r.len(), 0);
}

#[test]
fn batch_mode_rules() {
    assert_eq!(BatchExecutionMode::default(), BatchExecutionMode::Parallel);
    assert!(is_parallel(BatchExecutionMode::ParallelAllowDestructive));
    assert!(!is_parallel(BatchExecutionMode::SequentialStopOnError));
    assert!(allows_destructive(BatchExecutionMode::ParallelAllowDestructive, None));
    assert!(!allows_destructive(BatchExecutionMode::Parallel, None));
    assert!(allows_destructive(BatchExecutionMode::Parallel, Some(AllowDestructiveBatch(true))));
    assert!(!allows_destructive(BatchExecutionMode::Parallel, Some(AllowDestructiveBatch(false))));
    assert!(rejects_in_parallel(false, true));
    assert!(!rejects_in_parallel(true, true));
    assert!(!rejects_in_parallel(false, false));
}

#[test]
fn sequential_batch_stops_at_first_error() {
    let mut b = SequentialBatch::new();
    let ok = BatchToolCallOutcome { id: "1".to_string(), name: "a".to_string(), result: Ok(ToolOutput::from_str("x")) };
    assert!(b.record(ok));
    assert!(!b.is_stopped());
    let bad = BatchToolCallOutcome { id: "2".to_string(), name: "b".to_string(), result: Err(ToolError::new("boom")) };
    assert!(!b.record(bad));
    assert!(b.is_stopped());
    let outs = b.into_outcomes();
    assert_eq!(outs.len(), 2);
    assert!(outs[1].result.is_err());
}

#[test]
fn first_matching_template_picks_earliest() {
    let templates = vec!["file:///logs/{date}.log", "file:///{path}", "config://app"];
    assert_eq!(first_matching_template(&templates, "file:///logs/today.log"), Some(0));
    assert_eq!(first_matching_template(&templates, "file:///etc/hosts"), Some(1));
    assert_eq!(first_matching_template(&templates, "config://app"), Some(2));
    assert_eq!(first_matching_template(&templates, "db://x"), None);
}

#[test]
fn parallel_outcomes_keep_call_order() {
    let calls = [
        BatchToolCallStr { id: "c1", name: "add", arguments_json: "{}" },
        BatchToolCallStr { id: "c2", name: "drop", arguments_json: "{}" },
    ];
    let results = vec![Ok(ToolOutput::from_str("3")), Err(ToolError::new("refused"))];
    let outcomes = parallel_outcomes(&calls, results);
    assert_eq!(outcomes.len(), 2);
    assert_eq!((outcomes[0].id.as_str(), outcomes[0].name.as_str()), ("c1", "add"));
    assert_eq!(outcomes[0].result.as_ref().unwrap().content(), "3");
    assert_eq!((outcomes[1].id.as_str(), outcomes[1].name.as_str()), ("c2", "drop"));
    assert_eq!(outcomes[1].result.as_ref().unwrap_err().message, "refused");
}

#[test]
fn tool_effects_by_name() {
    assert_eq!(ToolEffect::from_name("read_only"), Some(ToolEffect::ReadOnly));
    assert_eq!(ToolEffect::from_name("mutating"), Some(ToolEffect::Mutating));
    assert_eq!(ToolEffect::from_name("destructive"), Some(ToolEffect::Destructive));
    assert_eq!(ToolEffect::from_name("Destructive"), None);
    assert!(ToolEffect::Destructive.is_destructive());
    assert!(!ToolEffect::Mutating.is_destructive());
}
