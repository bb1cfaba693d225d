use axon::memory::{jsonl_lines, record_line, Memory, MemoryError, Message, ToolCall};
use std::path::PathBuf;

fn roles(ms: &[Message]) -> Vec<String> {
    ms.iter().map(|m| format!("{}:{}", m.role, m.content)).collect()
}

#[test]
fn context_is_whole_history_when_short() {
    let mut memory = Memory::new(PathBuf::from("/tmp/axon-test-memory.jsonl"));
    memory.add_message(Message::system("be brief"));
    memory.add_message(Message::user("hi"));
    let ctx = memory.get_context(2);
    assert_eq!(roles(&ctx), vec!["system:be brief", "user:hi"]);
}

#[test]
fn context_keeps_system_prompts_and_latest_dialogue() {
    let mut memory = Memory::new(PathBuf::from("/tmp/axon-test-memory.jsonl"));
    memory.add_message(Message::user("one"));
    memory.add_message(Message::system("persona"));
    memory.add_message(Message::assistant("two"));
    memory.add_message(Message::user("three"));
    memory.add_message(Message::system("rules"));
    memory.add_message(Message::assistant("four"));
    let ctx = memory.get_context(2);
    assert_eq!(
        roles(&ctx),
        vec!["system:persona", "system:rules", "user:three", "assistant:four"]
    );
    let none = memory.get_context(0);
    assert_eq!(roles(&none), vec!["system:persona", "system:rules"]);
}

#[test]
fn add_message_grows_history() {
    let mut memory = Memory::new(PathBuf::from("/tmp/axon-test-memory.jsonl"));
    assert!(memory.is_empty());
    memory.add_message(Message::user("a"));
    assert_eq!(memory.len(), 1);
    assert!(!memory.is_empty());
    assert_eq!(memory.get_messages()[0].content, "a");
}

#[test]
fn jsonl_lines_splits_and_skips_blank_lines() {
    let text = "{\"a\":1}\r\n\n   \n{\"b\":2}\n{\"c\":3}";
    assert_eq!(jsonl_lines(text), vec!["{\"a\":1}", "{\"b\":2}", "{\"c\":3}"]);
    assert_eq!(jsonl_lines(""), Vec::<String>::new());
    assert_eq!(jsonl_lines("\n\n"), Vec::<String>::new());
    assert_eq!(jsonl_lines("x\r"), vec!["x\r"]);
}

#[test]
fn appended_records_read_back() {
    let mut file = String::new();
    file.push_str(&record_line("{\"role\":\"user\",\"content\":\"Hi\"}"));
    file.push_str(&record_line("{\"role\":\"assistant\",\"content\":\"Hello\"}"));
    assert_eq!(
        jsonl_lines(&file),
        vec![
            "{\"role\":\"user\",\"content\":\"Hi\"}",
            "{\"role\":\"assistant\",\"content\":\"Hello\"}"
        ]
    );
}

#[test]
fn load_parsed_keeps_messages_before_first_failure() {
    let mut memory = Memory::new(PathBuf::from("/tmp/axon-test-memory.jsonl"));
    memory.add_message(Message::user("old"));
    let bad = serde_json::from_str::<serde_json::Value>("{").unwrap_err();
    let parsed = vec![Ok(Message::user("Hi")), Err(bad), Ok(Message::assistant("late"))];
    let r = memory.load_parsed(parsed);
    assert!(matches!(r, Err(MemoryError::ParseError(_))));
    assert_eq!(roles(memory.get_messages()), vec!["user:Hi"]);

    let r = memory.load_parsed(vec![Ok(Message::user("Hi")), Ok(Message::assistant("Hello"))]);
    assert!(r.is_ok());
    assert_eq!(memory.len(), 2);
    assert_eq!(memory.get_messages()[0].content, "Hi");
}

#[test]
fn import_parsed_replaces_or_keeps() {
    let mut memory = Memory::new(PathBuf::from("/tmp/axon-test-memory.jsonl"));
    memory.add_message(Message::user("kept"));
    let bad = serde_json::from_str::<serde_json::Value>("[").unwrap_err();
    assert!(memory.import_parsed(Err(bad)).is_err());
    assert_eq!(roles(memory.get_messages()), vec!["user:kept"]);
    assert!(memory.import_parsed(Ok(vec![Message::system("s")])).is_ok());
    assert_eq!(roles(memory.get_messages()), vec!["system:s"]);
}

#[test]
fn message_constructors() {
    let t = Message::tool("call-1", "out");
    assert_eq!(t.role, "tool");
    assert_eq!(t.tool_call_id.as_deref(), Some("call-1"));
    let a = Message::assistant_with_tools(vec![]);
    assert_eq!(a.role, "assistant");
    assert_eq!(a.content, "");
    assert!(a.tool_calls.is_some());
    assert_eq!(Message::system("p").role, "system");
    assert_eq!(Message::assistant("r").role, "assistant");
    let c = Message::tool("x", "y").clone();
    assert_eq!(c.tool_call_id.as_deref(), Some("x"));
}

#[test]
fn tool_call_ids_and_arguments() {
    let args = serde_json::Value::from(vec![("path", "a.txt")].into_iter().map(|(k, v)| (k.to_string(), serde_json::Value::from(v))).collect::<serde_json::Map<_, _>>());
    let call = ToolCall::new("file_read", args);
    assert_eq!(call.name(), "file_read");
    assert_eq!(call.call_type, "function");
    assert_eq!(call.function.arguments, "{\"path\":\"a.txt\"}");
    assert_eq!(call.id.len(), 36);
    assert_eq!(&call.id[14..15], "4");
    for (i, ch) in call.id.chars().enumerate() {
        if i == 8 || i == 13 || i == 18 || i == 23 {
            assert_eq!(ch, '-');
        } else {
            assert!(ch.is_ascii_hexdigit() && !ch.is_ascii_uppercase());
        }
    }
    let other = ToolCall::new("file_read", serde_json::Value::Null);
    assert_ne!(other.id, call.id);
    assert!(call.arguments().is_ok());
    let mut broken = call.clone();
    broken.function.arguments = "{not json".to_string();
    assert!(broken.arguments().is_err());
}

#[test]
fn memory_error_messages() {
    assert_eq!(MemoryError::InvalidFormat.message(), "记忆文件格式错误");
    let e = serde_json::from_str::<serde_json::Value>("{").unwrap_err();
    assert!(MemoryError::ParseError(e).message().starts_with("JSON解析失败: "));
}
