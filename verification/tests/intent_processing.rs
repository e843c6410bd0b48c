use faster::processor::IntentProcessor;
use faster::schema::Intent;

#[test]
fn test_orchestrate_intent() {
    let processor = IntentProcessor::new(80);
    let cmd = processor.process("run the tests");
    assert_eq!(cmd.intent, Intent::Orchestrate);
    assert!(cmd.confidence >= 80);
}

#[test]
fn test_research_intent() {
    let processor = IntentProcessor::new(80);
    let cmd = processor.process("find all the auth files");
    assert_eq!(cmd.intent, Intent::Research);
}

#[test]
fn test_code_intent() {
    let processor = IntentProcessor::new(80);
    let cmd = processor.process("create a new class for users");
    assert_eq!(cmd.intent, Intent::Code);
    assert!(cmd.entities.contains(&"users".to_string()));
}

#[test]
fn test_clean_directive() {
    let processor = IntentProcessor::new(80);
    let cmd = processor.process("um like can you just run the tests please");
    assert_eq!(cmd.directive, "run the tests");
}

#[test]
fn test_empty_transcript() {
    let processor = IntentProcessor::new(80);
    let cmd = processor.process("");
    assert_eq!(cmd.intent, Intent::Code);
    assert_eq!(cmd.confidence, 60);
    assert!(cmd.entities.is_empty());
    assert_eq!(cmd.directive, "");
    assert!(cmd.context.is_empty());
    assert!(!cmd.created_at.is_empty());
}

#[test]
fn test_clean_is_noop_on_clean_directive() {
    let processor = IntentProcessor::new(80);
    let first = processor.process("um like can you just run the tests please");
    assert_eq!(first.directive, "run the tests");
    let second = processor.process(&first.directive);
    assert_eq!(second.directive, "run the tests");
}

#[test]
fn test_filler_removal_is_literal_substring() {
    let processor = IntentProcessor::new(80);
    // "just" occurs inside the word and is stripped without regard to
    // word boundaries, leaving the remaining characters joined together.
    let cmd = processor.process("jujustst");
    assert_eq!(cmd.directive, "just");
}

#[test]
fn test_file_entities() {
    let processor = IntentProcessor::new(80);
    let cmd = processor.process("fix the parser.rs file");
    assert_eq!(cmd.intent, Intent::Test);
    assert_eq!(cmd.confidence, 85);
    assert_eq!(cmd.entities, vec!["parser.rs".to_string()]);
}

#[test]
fn test_test_kind_entities() {
    let processor = IntentProcessor::new(80);
    let cmd = processor.process("debug the unit and integration suites");
    assert_eq!(cmd.intent, Intent::Test);
    assert_eq!(cmd.entities, vec!["unit".to_string(), "integration".to_string()]);
}

#[test]
fn test_function_entity() {
    let processor = IntentProcessor::new(80);
    let cmd = processor.process("write a function parse");
    assert_eq!(cmd.intent, Intent::Code);
    assert_eq!(cmd.confidence, 85);
    assert_eq!(cmd.entities, vec!["parse".to_string()]);
}

#[test]
fn test_urgency_and_narrow_scope_context() {
    let processor = IntentProcessor::new(80);
    let cmd = processor.process("fix this now");
    assert_eq!(cmd.context.len(), 2);
    assert_eq!(cmd.context[0].0, "urgency");
    assert_eq!(cmd.context[0].1, "high");
    assert_eq!(cmd.context[1].0, "scope");
    assert_eq!(cmd.context[1].1, "narrow");
}

#[test]
fn test_broad_scope_takes_priority() {
    let processor = IntentProcessor::new(80);
    let cmd = processor.process("check every single file");
    let scope = cmd.context.iter().find(|p| p.0 == "scope").unwrap();
    assert_eq!(scope.1, "broad");
    assert!(cmd.context.iter().find(|p| p.0 == "urgency").is_none());
}

#[test]
fn test_whitespace_only_transcript() {
    let processor = IntentProcessor::new(80);
    let cmd = processor.process("  \t  ");
    assert_eq!(cmd.intent, Intent::Code);
    assert_eq!(cmd.confidence, 60);
    assert_eq!(cmd.directive, "");
    assert!(cmd.entities.is_empty());
}

#[test]
fn test_entities_keep_order_and_duplicates() {
    let processor = IntentProcessor::new(80);
    let cmd = processor.process("add a class alpha and a class alpha");
    assert_eq!(cmd.entities, vec!["alpha".to_string(), "alpha".to_string()]);
}

#[test]
fn test_original_casing_kept_in_directive() {
    let processor = IntentProcessor::new(80);
    let cmd = processor.process("Run The Tests");
    assert_eq!(cmd.intent, Intent::Orchestrate);
    assert_eq!(cmd.directive, "Run The Tests");
}
