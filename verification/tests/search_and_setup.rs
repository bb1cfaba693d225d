use axon::atoms::{
    create_default_registry, create_enabled_registry, parameter_schema, Atom, BuiltinAtom, Glob, Grep,
    ImageOCR, OcrOutcome,
};
use axon::cli::{Cli, Command};
use axon::config::{env_reference, AtomsConfig, Config, CoreConfig, LlmConfig as ConfigLlm, SystemConfig};
use axon::llm::LlmError;
use axon::memory::{jsonl_lines, jsonl_text, Memory, Message, ToolCall};
use axon::search::{glob_matches, grep_lines};
use axon::text::lines_of;
use std::path::PathBuf;

fn config_with(active: Vec<&str>, api_key: &str) -> Config {
    Config {
        core: CoreConfig { name: "Axon".to_string(), version: "0.1.0".to_string() },
        llm: ConfigLlm {
            model: "m".to_string(),
            api_key: api_key.to_string(),
            base_url: "http://localhost:1234/v1".to_string(),
            timeout_secs: 60,
        },
        system: SystemConfig { persona: "You are Axon.".to_string() },
        atoms: AtomsConfig { active: active.into_iter().map(|s| s.to_string()).collect() },
    }
}

#[test]
fn default_registry_holds_every_builtin_including_grep_and_glob() {
    let registry = create_default_registry();
    let names: Vec<&str> = registry.list().into_iter().map(|(n, _)| n).collect();
    assert_eq!(names, vec!["shell_exec", "file_read", "file_write", "image_ocr", "grep", "glob"]);
    for name in ["shell_exec", "file_read", "file_write", "grep", "glob"] {
        assert_eq!(registry.get(name).unwrap().name(), name);
    }
    assert_eq!(Grep.name(), "grep");
    assert_eq!(Glob.name(), "glob");
    assert!(matches!(registry.get("grep"), Some(BuiltinAtom::Grep(_))));
}

#[test]
fn enabled_registry_follows_active_atoms() {
    let registry = create_enabled_registry(&config_with(vec!["glob", "shell_exec", "nope"], "k"));
    let names: Vec<&str> = registry.list().into_iter().map(|(n, _)| n).collect();
    assert_eq!(names, vec!["shell_exec", "glob"]);
    let all = create_enabled_registry(&config_with(vec![], "k"));
    assert_eq!(all.list().len(), 6);
}

#[test]
fn grep_and_glob_schemas() {
    let g = parameter_schema("grep");
    assert_eq!(g.required, vec!["pattern", "path"]);
    let g = parameter_schema("glob");
    assert_eq!(g.required, vec!["pattern"]);
    assert_eq!(g.properties[0].description, "The glob pattern, e.g. src/**/*.rs");
}

#[test]
fn glob_patterns_match_paths() {
    assert!(glob_matches("*.rs", "main.rs"));
    assert!(!glob_matches("*.rs", "src/main.rs"));
    assert!(glob_matches("src/*.rs", "src/main.rs"));
    assert!(glob_matches("**/*.rs", "src/atoms/mod.rs"));
    assert!(glob_matches("**", "a/b/c"));
    assert!(glob_matches("a?c", "abc"));
    assert!(!glob_matches("a?c", "a/c"));
    assert!(!glob_matches("*.rs", "main.rsx"));
    assert!(glob_matches("", ""));
    assert!(!glob_matches("", "x"));
    assert!(glob_matches("README.md", "README.md"));
}

#[test]
fn grep_reports_numbered_lines() {
    let text = "fn main() {\r\n    println!(\"hello\");\n}\nhello again";
    let hits = grep_lines(text, "hello");
    assert_eq!(hits, vec![(2, "    println!(\"hello\");".to_string()), (4, "hello again".to_string())]);
    assert!(grep_lines(text, "absent").is_empty());
    assert_eq!(grep_lines("a\n\nb", "").len(), 3);
    assert_eq!(lines_of("a\r\nb\n"), vec!["a", "b"]);
}

#[test]
fn api_key_references_are_expanded() {
    assert_eq!(env_reference("${OPENAI_API_KEY}").as_deref(), Some("OPENAI_API_KEY"));
    assert!(env_reference("sk-plain").is_none());
    assert!(env_reference("${}").is_none());
    let mut c = config_with(vec![], "${OPENAI_API_KEY}");
    c.expand_api_key(Some("sk-live".to_string()));
    assert_eq!(c.llm.api_key, "sk-live");
    let mut c = config_with(vec![], "${MISSING}");
    c.expand_api_key(None);
    assert_eq!(c.llm.api_key, "");
    let mut c = config_with(vec![], "sk-plain");
    c.expand_api_key(Some("ignored".to_string()));
    assert_eq!(c.llm.api_key, "sk-plain");
}

#[test]
fn persona_becomes_first_system_prompt() {
    let mut memory = Memory::new(PathBuf::from("/tmp/axon-persona.jsonl"));
    memory.add_message(Message::user("hi"));
    memory.set_persona("You are Axon.");
    assert_eq!(memory.get_messages()[0].role, "system");
    assert_eq!(memory.get_messages()[0].content, "You are Axon.");
    assert_eq!(memory.len(), 2);
    memory.set_persona("other");
    assert_eq!(memory.len(), 2);
    assert_eq!(memory.get_messages()[0].content, "You are Axon.");
}

#[test]
fn cli_session_choices() {
    let cli = Cli {
        config: PathBuf::from("config.yaml"),
        memory: PathBuf::from("memory.jsonl"),
        model: None,
        api_key: None,
        no_memory: true,
        verbose: false,
        quiet: false,
        command: Some(Command::Run { system: Some("Be terse.".to_string()) }),
    };
    assert!(!cli.persists_memory());
    assert_eq!(cli.persona("configured"), "Be terse.");
    let cli2 = Cli { command: None, no_memory: false, ..cli };
    assert!(cli2.persists_memory());
    assert_eq!(cli2.persona("configured"), "configured");
}

#[test]
fn saved_history_reads_back() {
    let records = vec!["{\"a\":1}".to_string(), "{\"b\":2}".to_string()];
    let text = jsonl_text(&records);
    assert_eq!(text, "{\"a\":1}\n{\"b\":2}\n");
    assert_eq!(jsonl_lines(&text), records);
    assert_eq!(jsonl_text(&vec![]), "");
}

#[test]
fn ocr_outcomes() {
    match ImageOCR::ocr_outcome("a.png", Ok("text".to_string())) {
        OcrOutcome::Recognized { path, text } => {
            assert_eq!(path, "a.png");
            assert_eq!(text, "text");
        }
        _ => panic!("expected text"),
    }
    match ImageOCR::ocr_outcome("a.png", Err(LlmError::RateLimited)) {
        OcrOutcome::Failed { path, error } => {
            assert_eq!(path, "a.png");
            assert_eq!(error, "速率限制");
        }
        _ => panic!("expected a failure"),
    }
}

#[test]
fn tool_arguments_parse_back() {
    let mut map = serde_json::Map::new();
    map.insert("path".to_string(), serde_json::Value::String("a.txt".to_string()));
    let v = serde_json::Value::Object(map);
    let call = ToolCall::new("file_read", v.clone());
    assert_eq!(call.arguments().unwrap(), v);
}
