use axon::atoms::{create_default_registry, Atom, AtomRegistry, ShellExec};
use axon::config::{AtomsConfig, Config, CoreConfig, LlmConfig as ConfigLlm, SystemConfig};
use axon::llm::LlmConfig;
use axon::memory::Message;
use axon::skills::{Skill, SkillLoader, SkillManifest, SkillRegistry};

#[test]
fn test_registry() {
    let mut registry = AtomRegistry::new();
    registry.register(Box::new(ShellExec));

    let atom = registry.get("shell_exec").unwrap();
    assert_eq!(atom.name(), "shell_exec");
}

#[test]
fn test_list_atoms() {
    let registry = create_default_registry();
    let atoms = registry.list();

    assert!(atoms.iter().any(|(n, _)| *n == "shell_exec"));
    assert!(atoms.iter().any(|(n, _)| *n == "file_read"));
    assert!(atoms.iter().any(|(n, _)| *n == "file_write"));
}

#[test]
fn test_atom_enabled() {
    let config = Config {
        core: CoreConfig {
            name: "Axon".to_string(),
            version: "2.0.0".to_string(),
        },
        llm: ConfigLlm {
            model: "gpt-4".to_string(),
            api_key: "test".to_string(),
            base_url: "https://api.openai.com/v1".to_string(),
            timeout_secs: 60,
        },
        system: SystemConfig {
            persona: "You are Axon.".to_string(),
        },
        atoms: AtomsConfig {
            active: vec!["shell_exec".to_string()],
        },
    };

    assert!(config.get_atom_enabled("shell_exec"));
    assert!(!config.get_atom_enabled("file_read"));
}

#[test]
fn test_llm_config() {
    let config = LlmConfig {
        model: "gpt-4".to_string(),
        api_key: "test".to_string(),
        base_url: "https://api.openai.com/v1".to_string(),
        timeout_secs: 60,
    };

    assert_eq!(config.model, "gpt-4");
}

#[test]
fn test_requires_api_key() {
    let config_with_key = LlmConfig {
        model: "gpt-4".to_string(),
        api_key: "sk-123".to_string(),
        base_url: "https://api.openai.com/v1".to_string(),
        timeout_secs: 60,
    };
    assert!(config_with_key.requires_api_key());

    let config_no_key = LlmConfig {
        model: "local-model".to_string(),
        api_key: "".to_string(),
        base_url: "http://localhost:1234/v1".to_string(),
        timeout_secs: 60,
    };
    assert!(!config_no_key.requires_api_key());
}

#[test]
fn test_message_creation() {
    let msg = Message::user("test");
    assert_eq!(msg.role, "user");
    assert_eq!(msg.content, "test");
}

#[test]
fn test_skill_registry() {
    let mut registry = SkillRegistry::new();

    let skill = Skill {
        manifest: SkillManifest {
            name: "test".to_string(),
            description: "Test skill".to_string(),
            version: "1.0.0".to_string(),
            author: "".to_string(),
            allowed_tools: vec![],
        },
        instructions: "# Test".to_string(),
    };

    registry.add(skill);

    assert_eq!(registry.len(), 1);
    assert!(registry.get("test").is_some());
}

#[test]
fn test_parse_frontmatter() {
    let content = "---
name: test-skill
description: A test skill
allowed_tools:
  - read
  - write
---

# Test Skill
";

    let manifest = SkillLoader::frontmatter_block(content)
        .and_then(|yaml| serde_yaml::from_str::<serde_yaml::Value>(&yaml).ok());
    assert!(manifest.is_some());
    assert_eq!(manifest.unwrap()["name"].as_str(), Some("test-skill"));
}
