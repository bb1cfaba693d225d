use axon::atoms::{
    parameter_schema, required_arg, Atom, AtomError, AtomRegistry, FileRead, FileWrite, ImageOCR,
    ShellExec, ToolDefinition,
};
use axon::cli::{client_settings, read_input, ReplInput};
use axon::config::{default_timeout, AtomsConfig, Config, ConfigError, CoreConfig, LlmConfig as ConfigLlm, SystemConfig};
use axon::executor::{plan_tool_call, ExecutionResult, ExecutorError, LoopStep, ToolLoop, ToolPlan};
use axon::llm::{LlmClient, LlmConfig, LlmError};
use axon::memory::{Memory, Message, ToolCall};
use axon::skills::{SkillError, SkillLoader, SkillManifest, SkillSource};
use std::path::PathBuf;

fn sample_config() -> Config {
    Config {
        core: CoreConfig { name: "Axon".to_string(), version: "2.0.0".to_string() },
        llm: ConfigLlm {
            model: "gpt-4".to_string(),
            api_key: "k".to_string(),
            base_url: "https://api.openai.com/v1".to_string(),
            timeout_secs: 60,
        },
        system: SystemConfig { persona: "You are Axon.".to_string() },
        atoms: AtomsConfig { active: vec![] },
    }
}

#[test]
fn validate_names_first_missing_field() {
    assert!(sample_config().validate().is_ok());
    let mut c = sample_config();
    c.llm.model = String::new();
    c.system.persona = String::new();
    match c.validate() {
        Err(ConfigError::MissingField(f)) => assert_eq!(f, "llm.model"),
        _ => panic!("expected a missing field"),
    }
    let mut c = sample_config();
    c.core.name = String::new();
    assert!(matches!(c.validate(), Err(ConfigError::MissingField(f)) if f == "core.name"));
    let mut c = sample_config();
    c.llm.base_url = String::new();
    assert!(matches!(c.validate(), Err(ConfigError::MissingField(f)) if f == "llm.base_url"));
    let mut c = sample_config();
    c.system.persona = String::new();
    assert!(matches!(c.validate(), Err(ConfigError::MissingField(f)) if f == "system.persona"));
}

#[test]
fn from_parsed_reports_parse_and_validation_errors() {
    assert!(matches!(Config::from_parsed(Err("bad yaml".to_string())), Err(ConfigError::ParseError(m)) if m == "bad yaml"));
    let ok = Config::from_parsed(Ok(sample_config())).unwrap();
    assert_eq!(ok.core.name, "Axon");
    let mut c = sample_config();
    c.core.name = String::new();
    assert!(matches!(Config::from_parsed(Ok(c)), Err(ConfigError::MissingField(_))));
    assert_eq!(ConfigError::MissingField("llm.model".to_string()).message(), "缺少必需配置: llm.model");
}

#[test]
fn empty_active_list_enables_every_atom() {
    let c = sample_config();
    assert!(c.get_atom_enabled("anything"));
    let d = AtomsConfig::default();
    assert_eq!(d.active, vec!["shell_exec", "file_read", "file_write"]);
    assert_eq!(default_timeout(), 60);
}

#[test]
fn dummy_key_is_not_required() {
    let c = LlmConfig {
        model: "m".to_string(),
        api_key: "sk-dummy".to_string(),
        base_url: "http://localhost:1234/v1".to_string(),
        timeout_secs: 5,
    };
    assert!(!c.requires_api_key());
}

#[test]
fn client_builds_request_pieces() {
    let c = LlmConfig {
        model: "local-model".to_string(),
        api_key: "secret".to_string(),
        base_url: "http://localhost:1234/v1".to_string(),
        timeout_secs: 5,
    };
    let client = LlmClient::new(c).unwrap();
    assert_eq!(client.settings().model, "local-model");
    assert_eq!(client.chat_url(), "http://localhost:1234/v1/chat/completions");
    assert_eq!(client.authorization(), "Bearer secret");
    let msgs = vec![Message::user("ping")];
    let req = client.chat_request(&msgs, None);
    assert_eq!(req.model, "local-model");
    assert_eq!(req.messages.len(), 1);
    assert!(req.tools.is_none());
    assert!(!req.stream);
    let tools = vec![ToolDefinition::for_atom("file_read", "Reads the content of a file.")];
    let req = client.chat_request(&msgs, Some(&tools));
    assert_eq!(req.tools.unwrap()[0].function.name, "file_read");
}

#[test]
fn status_and_choices_are_judged() {
    assert!(matches!(LlmClient::status_error(429, "429 Too Many Requests", ""), Some(LlmError::RateLimited)));
    assert!(LlmClient::status_error(200, "200 OK", "").is_none());
    match LlmClient::status_error(500, "500 Internal Server Error", "boom") {
        Some(LlmError::RequestFailed(m)) => assert_eq!(m, "500 Internal Server Error: boom"),
        _ => panic!("expected a failed request"),
    }
    assert!(matches!(LlmClient::first_choice(vec![]), Err(LlmError::ParseError(m)) if m == "No choices in response"));
    let m = LlmClient::first_choice(vec![Message::assistant("a"), Message::assistant("b")]).unwrap();
    assert_eq!(m.content, "a");
    assert_eq!(LlmError::RateLimited.message(), "速率限制");
    assert_eq!(LlmError::RequestFailed("x".to_string()).message(), "API请求失败: x");
}

#[test]
fn schemas_follow_atom_names() {
    let s = parameter_schema("file_write");
    assert_eq!(s.schema_type, "object");
    let names: Vec<&str> = s.properties.iter().map(|p| p.name.as_str()).collect();
    assert_eq!(names, vec!["path", "content"]);
    assert_eq!(s.required, vec!["path", "content"]);
    let s = parameter_schema("shell_exec");
    assert_eq!(s.properties[0].description, "The shell command to execute");
    assert_eq!(s.required, vec!["command"]);
    let s = parameter_schema("image_ocr");
    assert_eq!(s.required, vec!["path"]);
    assert_eq!(s.properties.len(), 2);
    let s = parameter_schema("unknown");
    assert!(s.properties.is_empty() && s.required.is_empty());
    let t = ToolDefinition::for_atom("file_read", "Reads the content of a file.");
    assert_eq!(t.tool_type, "function");
    assert_eq!(t.function.parameters.properties[0].name, "path");
}

#[test]
fn registry_replaces_same_name_and_lists_in_order() {
    let mut registry: AtomRegistry<Box<ShellExec>> = AtomRegistry::new();
    registry.register(Box::new(ShellExec));
    registry.register(Box::new(ShellExec));
    assert_eq!(registry.list(), vec![("shell_exec", "Executes a shell command and returns the output.")]);
    assert!(registry.get("file_read").is_none());
    let defs = registry.to_tool_definitions();
    assert_eq!(defs.len(), 1);
    assert_eq!(defs[0].function.parameters.required, vec!["command"]);
}

#[test]
fn atom_names_and_arguments() {
    assert_eq!(FileRead.name(), "file_read");
    assert_eq!(FileWrite.name(), "file_write");
    assert_eq!(ImageOCR.name(), "image_ocr");
    assert_eq!(ShellExec.description(), "Executes a shell command and returns the output.");
    assert_eq!(required_arg(Some("ls"), "command").unwrap(), "ls");
    match required_arg(None, "command") {
        Err(AtomError::InvalidArgs(m)) => assert_eq!(m, "Missing 'command' parameter"),
        _ => panic!("expected invalid args"),
    }
    assert!(ShellExec::is_blank_command("  \t\n"));
    assert!(!ShellExec::is_blank_command(" ls "));
    assert_eq!(ImageOCR::prompt_or_default(None), "请提取这张图片中的文字");
    assert_eq!(ImageOCR::prompt_or_default(Some("read")), "read");
    assert_eq!(AtomError::NotEnabled.message(), "原子未启用");
    let e = AtomError::from_llm(LlmError::MissingApiKey);
    assert!(matches!(e, AtomError::LlmError(m) if m == "API密钥未配置"));
}

#[test]
fn image_is_reencoded_as_base64_jpeg() {
    let img = image::RgbImage::from_pixel(2, 2, image::Rgb([200, 10, 10]));
    let mut png = std::io::Cursor::new(Vec::new());
    image::DynamicImage::ImageRgb8(img).write_to(&mut png, image::ImageFormat::Png).unwrap();
    let b64 = ImageOCR.image_to_base64("red.png", png.get_ref()).unwrap();
    assert!(b64.starts_with("/9j/"));
    assert_eq!(b64.len() % 4, 0);
    match ImageOCR.image_to_base64("red.png", b"not an image") {
        Err(AtomError::ExecutionFailed(m)) => {
            let e = image::load_from_memory_with_format(b"not an image", image::ImageFormat::Png).unwrap_err();
            assert_eq!(m, format!("Failed to open image: {}", e));
        },
        _ => panic!("expected a decode failure"),
    }
    match ImageOCR.image_to_base64("noext", png.get_ref()) {
        Err(AtomError::ExecutionFailed(m)) => {
            assert_eq!(m, "Failed to open image: The image format could not be determined")
        },
        _ => panic!("expected an undetermined format"),
    }
    match ImageOCR.image_to_base64("red.", png.get_ref()) {
        Err(AtomError::ExecutionFailed(m)) => {
            assert_eq!(m, "Failed to open image: The image format could not be determined")
        },
        _ => panic!("expected an undetermined format"),
    }
    match ImageOCR.image_to_base64("red.bmpx", png.get_ref()) {
        Err(AtomError::ExecutionFailed(m)) => {
            let e = image::ImageFormat::from_path("red.bmpx").unwrap_err();
            assert_eq!(m, format!("Failed to open image: {}", e));
            assert!(m.contains("bmpx"));
        },
        _ => panic!("expected an unknown extension"),
    }
}

#[test]
fn unknown_tools_and_bad_arguments_are_rejected() {
    let mut registry: AtomRegistry<Box<ShellExec>> = AtomRegistry::new();
    registry.register(Box::new(ShellExec));
    let call = ToolCall::new("nope", serde_json::Value::Null);
    match plan_tool_call(&registry, &call) {
        ToolPlan::Reject(m) => assert_eq!(m, "Unknown tool: nope"),
        _ => panic!("expected a rejection"),
    }
    let mut call = ToolCall::new("shell_exec", serde_json::Value::Null);
    call.function.arguments = "{oops".to_string();
    match plan_tool_call(&registry, &call) {
        ToolPlan::Reject(m) => {
            let e = serde_json::from_str::<serde_json::Value>("{oops").unwrap_err();
            assert_eq!(m, format!("Invalid arguments: {}", e));
            assert_eq!(m, "Invalid arguments: key must be a string at line 1 column 2");
        },
        _ => panic!("expected a rejection"),
    }
    let call = ToolCall::new("shell_exec", serde_json::Value::Null);
    match plan_tool_call(&registry, &call) {
        ToolPlan::Run { atom, .. } => assert_eq!(atom.name(), "shell_exec"),
        _ => panic!("expected a run"),
    }
    let r = ExecutionResult::rejected("Unknown tool: nope".to_string());
    assert!(!r.success && r.duration_ms == 0);
    assert_eq!(r.output, serde_json::Value::Null);
    assert_eq!(r.error.as_deref(), Some("Unknown tool: nope"));
    let r = ExecutionResult::finished(Err(AtomError::NotEnabled), 7);
    assert_eq!(r.error.as_deref(), Some("原子未启用"));
    assert_eq!(r.output, serde_json::Value::Null);
    assert!(!r.success);
    assert_eq!(r.duration_ms, 7);
    let r = ExecutionResult::conclude(Ok(serde_json::Value::Bool(true)), 3).unwrap();
    assert!(r.success && r.duration_ms == 3);
    assert!(matches!(ExecutionResult::conclude(Err(AtomError::InvalidArgs("x".to_string())), 0), Err(ExecutorError::ToolError(m)) if m == "参数错误: x"));
}

#[test]
fn turn_records_messages_and_bounds_tool_rounds() {
    let mut memory = Memory::new(PathBuf::from("/tmp/axon-test-turn.jsonl"));
    let (mut turn, first) = ToolLoop::begin(&mut memory, "list files");
    assert_eq!(first.role, "user");
    assert_eq!(turn.iteration(), 0);
    assert!(turn.offers_tools());
    let call = ToolCall::new("shell_exec", serde_json::Value::Null);
    let mut rounds = 0;
    loop {
        let reply = Message::assistant_with_tools(vec![call.clone()]);
        match turn.on_reply(&mut memory, reply) {
            LoopStep::ExecuteTools(calls) => {
                rounds += 1;
                assert!(!turn.offers_tools());
                let m = ToolLoop::on_tool_output(&mut memory, &calls, 0, "{\"stdout\":\"x\"}");
                assert_eq!(m.tool_call_id.as_deref(), Some(call.id.as_str()));
                let extra = ToolLoop::on_tool_output(&mut memory, &calls, 5, "late");
                assert_eq!(extra.tool_call_id.as_deref(), Some(""));
            }
            LoopStep::Fail(ExecutorError::ToolError(m)) => {
                assert_eq!(m, "Exceeded maximum tool call iterations (10)");
                break;
            }
            _ => panic!("unexpected step"),
        }
    }
    assert_eq!(rounds, 10);
    let mut memory = Memory::new(PathBuf::from("/tmp/axon-test-turn.jsonl"));
    let (mut turn, _) = ToolLoop::begin(&mut memory, "hello");
    match turn.on_reply(&mut memory, Message::assistant("hi there")) {
        LoopStep::Finish(t) => assert_eq!(t, "hi there"),
        _ => panic!("expected the answer"),
    }
    assert_eq!(memory.len(), 2);
    assert_eq!(ExecutorError::Timeout.message(), "执行超时");
}

#[test]
fn interactive_lines_are_read() {
    assert!(matches!(read_input("   \n"), ReplInput::Skip));
    assert!(matches!(read_input(" exit "), ReplInput::Exit));
    assert!(matches!(read_input("quit\n"), ReplInput::Exit));
    assert!(matches!(read_input("  list files \n"), ReplInput::Submit(s) if s == "list files"));
}

#[test]
fn command_line_overrides_apply() {
    let c = sample_config();
    let s = client_settings(&c.llm, Some("other".to_string()), None);
    assert_eq!(s.model, "other");
    assert_eq!(s.api_key, "k");
    assert_eq!(s.base_url, "https://api.openai.com/v1");
    assert_eq!(s.timeout_secs, 60);
}

#[test]
fn skill_files_and_front_matter() {
    let content = "---\nname: test-skill\ndescription: A test skill\n---\n\n# Test Skill\n";
    assert_eq!(
        SkillLoader::frontmatter_block(content).as_deref(),
        Some("\nname: test-skill\ndescription: A test skill\n")
    );
    assert!(SkillLoader::frontmatter_block("# no front matter").is_none());
    assert!(SkillLoader::frontmatter_block("---never closed").is_none());
    assert_eq!(SkillLoader::frontmatter_block("------").as_deref(), Some(""));
    assert_eq!(SkillLoader::entry_source(true, None), Some(SkillSource::Directory));
    assert_eq!(SkillLoader::entry_source(false, Some("md")), Some(SkillSource::MarkdownFile));
    assert_eq!(SkillLoader::entry_source(false, Some("txt")), None);
    let manifest = SkillManifest {
        name: "s".to_string(),
        description: "d".to_string(),
        version: String::new(),
        author: String::new(),
        allowed_tools: vec![],
    };
    match SkillLoader::skill_from_dir(None, None) {
        Err(SkillError::FileNotFound(m)) => assert_eq!(m, "Missing skill.json"),
        _ => panic!("expected a missing manifest"),
    }
    let sk = SkillLoader::skill_from_dir(Some(Ok(manifest)), None).unwrap();
    assert_eq!(sk.instructions, "");
    assert!(matches!(SkillLoader::skill_from_file("x".to_string(), None), Err(SkillError::ParseError(m)) if m == "Invalid skill format"));
    assert_eq!(SkillError::LoadError("io".to_string()).message(), "技能加载失败: io");
    let loader = SkillLoader::new(PathBuf::from("skills"));
    assert_eq!(loader.skills_dir(), &PathBuf::from("skills"));
}
