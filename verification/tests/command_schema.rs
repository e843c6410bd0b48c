use faster::audio::{MacOSSTT, MacOSTTS};
use faster::executor::ClaudeExecutor;
use faster::schema::{AmbiguityResolution, Command, Intent};

#[test]
fn test_command_creation() {
    let cmd = Command::new(
        Intent::Test,
        "Run test suite for authentication module",
        vec!["authentication".to_string(), "tests".to_string()],
        95,
    );

    assert_eq!(cmd.intent, Intent::Test);
    assert_eq!(cmd.directive, "Run test suite for authentication module");
    assert_eq!(cmd.entities.len(), 2);
    assert_eq!(cmd.confidence, 95);
}

#[test]
fn test_command_with_context() {
    let cmd = Command::new(Intent::Code, "Implement payment module", vec!["payment".to_string()], 90)
        .with_context("current_goal", "build payment system")
        .with_context("current_module", "payment");

    assert_eq!(cmd.context.len(), 2);
    let goal = cmd.context.iter().find(|p| p.0 == "current_goal").unwrap();
    assert_eq!(goal.1, "build payment system");
}

#[test]
fn test_confidence_threshold() {
    let cmd = Command::new(Intent::Test, "Run tests", vec![], 85);

    assert!(cmd.is_confident(80));
    assert!(!cmd.is_confident(90));
}

#[test]
fn test_claude_prompt_generation() {
    let cmd = Command::new(Intent::Test, "Run test suite", vec![], 95).with_context(
        "module", "auth",
    );

    let prompt = cmd.to_claude_prompt();
    assert!(prompt.contains("Run test suite"));
    assert!(prompt.contains("Context:"));
    assert!(prompt.contains("module: auth"));
}

#[test]
fn test_intent_display() {
    assert_eq!(Intent::Orchestrate.as_str(), "ORCHESTRATE");
    assert_eq!(Intent::Code.as_str(), "CODE");
}

#[test]
fn test_prompt_exact_text() {
    let cmd = Command::new(Intent::Test, "Run test suite", vec![], 95).with_context(
        "module", "auth",
    );
    assert_eq!(cmd.to_claude_prompt(), "Run test suite\n\nContext:\n- module: auth");
}

#[test]
fn test_prompt_without_context_is_directive() {
    let cmd = Command::new(Intent::Code, "Implement parser", vec![], 90);
    assert_eq!(cmd.to_claude_prompt(), "Implement parser");
}

#[test]
fn test_with_context_overwrites_existing_key() {
    let cmd = Command::new(Intent::Code, "Implement parser", vec![], 90)
        .with_context("module", "lexer")
        .with_context("module", "parser");
    assert_eq!(cmd.context.len(), 1);
    assert_eq!(cmd.context[0].0, "module");
    assert_eq!(cmd.context[0].1, "parser");
}

#[test]
fn test_with_contexts_adds_pairs_in_order() {
    let extra = vec![
        ("current_goal".to_string(), "ship it".to_string()),
        ("current_module".to_string(), "queue".to_string()),
    ];
    let cmd = Command::new(Intent::Code, "Implement parser", vec![], 90).with_contexts(extra);
    assert_eq!(cmd.context.len(), 2);
    assert_eq!(cmd.context[0].0, "current_goal");
    assert_eq!(cmd.context[1].0, "current_module");
}

#[test]
fn test_intent_all_in_priority_order() {
    let all = Intent::all();
    assert_eq!(all, vec![Intent::Orchestrate, Intent::Research, Intent::Code, Intent::Test]);
}

#[test]
fn test_intent_description() {
    assert_eq!(Intent::Code.description(), "Generate, edit, refactor code");
    assert_eq!(Intent::Research.description(), "Search code, gather context, read documentation");
}

#[test]
fn test_ambiguity_resolution_new() {
    let r = AmbiguityResolution::new("the tests", "unit tests", "recent work on testing", 70);
    assert_eq!(r.from_phrase, "the tests");
    assert_eq!(r.to_entity, "unit tests");
    assert_eq!(r.context, "recent work on testing");
    assert_eq!(r.confidence, 70);
}

#[test]
fn test_executor_creation() {
    let executor = ClaudeExecutor::new("agent");
    assert_eq!(executor.cli_path, "agent");
    assert_eq!(executor.model, None);
}

#[test]
fn test_executor_with_model() {
    let executor = ClaudeExecutor::new("agent").with_model("opus");

    assert_eq!(executor.model, Some("opus".to_string()));
}

#[test]
fn test_stt_new() {
    let stt = MacOSSTT::new("en-US");
    assert_eq!(stt.language, "en-US");
}

#[test]
fn test_tts_new() {
    let tts = MacOSTTS::new("Samantha", 200);
    assert_eq!(tts.voice, "Samantha");
    assert_eq!(tts.rate, 200);
}
