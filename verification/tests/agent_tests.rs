use reedcms::cli::agent_commands::{add, generate, list, remove, replace_str, show, translate, update};
use reedcms::reedstream::ReedError;
use reedcms::string_map::StringMap;

fn flags(pairs: &[(&str, &str)]) -> StringMap {
    let mut m = StringMap::new();
    for (k, v) in pairs {
        m.insert(k.to_string(), v.to_string());
    }
    m
}

fn args(a: &[&str]) -> Vec<String> {
    a.iter().map(|s| s.to_string()).collect()
}

#[test]
fn test_agent_add_masks_key_and_defaults() {
    let f = flags(&[("provider", "anthropic"), ("api-key", "sk-abcdefghijkl"), ("model", "m1")]);
    let resp = add(&args(&["writer"]), &f).unwrap();
    assert_eq!(resp.source, "cli::agent_add");
    assert!(resp.data.starts_with(
        "✨ Adding AI agent...\n\nAgent ID: writer\nProvider: anthropic\nModel: m1\nTemperature: 0.7\nMax tokens: 4096\n\n"
    ));
    assert!(resp.data.ends_with("- API Key: sk-abcde*** (encrypted)\n- Storage: .reed/agents.matrix.csv\n"));
}

#[test]
fn test_agent_add_short_key_and_missing_flags() {
    let f = flags(&[("provider", "openai"), ("api-key", "abc"), ("model", "m")]);
    assert!(add(&args(&["a"]), &f).unwrap().data.contains("- API Key: abc*** (encrypted)\n"));
    match add(&args(&["a"]), &flags(&[("provider", "openai")])) {
        Err(ReedError::ValidationError { field, constraint, .. }) => {
            assert_eq!(field, "api-key");
            assert_eq!(constraint, "--api-key flag required");
        }
        other => panic!("unexpected: {:?}", other),
    }
    match add(&args(&[]), &f) {
        Err(ReedError::InvalidCommand { command, .. }) => assert_eq!(command, "agent:add"),
        other => panic!("unexpected: {:?}", other),
    }
}

#[test]
fn test_agent_list_formats() {
    assert!(list(&args(&[]), &flags(&[])).unwrap().data.starts_with("📋 Registered AI Agents\n\n"));
    assert_eq!(list(&args(&[]), &flags(&[("format", "json")])).unwrap().data, "[]");
    assert_eq!(
        list(&args(&[]), &flags(&[("format", "csv")])).unwrap().data,
        "agent_id,provider,model,temperature,status\n"
    );
    assert_eq!(list(&args(&[]), &flags(&[("format", "xml")])).unwrap().data, "");
}

#[test]
fn test_agent_show_test_update_remove() {
    assert!(show(&args(&["a1"]), &flags(&[])).unwrap().data.starts_with("🤖 Agent Details: a1\n\n"));
    assert!(show(&args(&[]), &flags(&[])).is_err());
    assert!(reedcms::cli::agent_commands::test(&args(&["a1"]), &flags(&[])).unwrap().data.contains("Test prompt: \"Hello\"\n"));
    assert_eq!(
        update(&args(&["a1"]), &flags(&[("temperature", "0.2")])).unwrap().data,
        "🔧 Updating agent: a1\n\n✓ Temperature: 0.2\n\n⚠ Agent updates not yet available (requires REED-20-01)\n"
    );
    assert_eq!(
        remove(&args(&["a1"]), &flags(&[])).unwrap().data,
        "🗑️  Removing agent: a1\n\n⚠ Use --force to confirm removal\n"
    );
}

#[test]
fn test_agent_generate_requires_prompt_then_agent() {
    match generate(&args(&["page.title@de"]), &flags(&[("agent", "a")])) {
        Err(ReedError::ValidationError { field, .. }) => assert_eq!(field, "prompt"),
        other => panic!("unexpected: {:?}", other),
    }
    let resp = generate(&args(&["page.title@de"]), &flags(&[("prompt", "Write"), ("agent", "a")])).unwrap();
    assert!(resp.data.contains("Output key: page.title@de\nAgent: a\nPrompt: Write\n\n"));
}

#[test]
fn test_replace_str_non_overlapping() {
    assert_eq!(replace_str("page.title@de", "@de", "@en"), "page.title@en");
    assert_eq!(replace_str("aaaa", "aa", "b"), "bb");
    assert_eq!(replace_str("abc", "x", "y"), "abc");
}

#[test]
fn test_agent_translate_lines() {
    let resp = translate(&args(&["page.title@de"]), &flags(&[("to", "en,fr"), ("agent", "t")])).unwrap();
    assert!(resp.data.starts_with("🌐 AI Translation\n\nSource key: page.title@de\nTarget languages: en, fr\nAgent: t\n\n"));
    assert!(resp.data.ends_with("Would translate to:\n- en: page.title@en\n- fr: page.title@fr\n"));
}
