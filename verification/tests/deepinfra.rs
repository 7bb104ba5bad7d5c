use shaobot::deepinfra::{answer_of, ChatAnswer, ChatChoice, ChatRequest, DeepInfraChat, DeepInfraChatContent, DeepInfraChatInner, DeepInfraContext};

fn says(c: &DeepInfraChatContent, role: &str, name: Option<&str>, content: &str) -> bool {
    c.role == role && c.name.as_deref() == name && c.content == content
}

fn context() -> DeepInfraContext {
    DeepInfraContext::new("Qwen/Qwen2-72B-Instruct".to_string(), false, 0.5f32.to_bits(), 100000)
}

#[test]
fn content_new_has_no_name() {
    let c = DeepInfraChatContent::new("user", "你好");
    assert!(says(&c, "user", None, "你好"));
}

#[test]
fn content_new_named_keeps_name() {
    let c = DeepInfraChatContent::new_named("user", "NAME: a(QQ_ID: 1)", "hi");
    assert!(says(&c, "user", Some("NAME: a(QQ_ID: 1)"), "hi"));
}

#[test]
fn content_duplicate_says_the_same() {
    let c = DeepInfraChatContent::new_named("assistant", "n", "x");
    let d = c.duplicate();
    assert!(says(&d, "assistant", Some("n"), "x"));
}

#[test]
fn new_context_is_empty() {
    let c = context();
    assert!(c.history().is_empty());
}

#[test]
fn chat_request_puts_prompt_first() {
    let mut c = context();
    let req: ChatRequest = c.chat("be nice".to_string(), None, "hello");
    assert_eq!(req.model, "Qwen/Qwen2-72B-Instruct");
    assert!(!req.stream);
    assert_eq!(f32::from_bits(req.temperature_bits), 0.5);
    assert_eq!(req.max_tokens, 100000);
    assert_eq!(req.messages.len(), 2);
    assert!(says(&req.messages[0], "system", None, "be nice"));
    assert!(says(&req.messages[1], "user", None, "hello"));
    assert_eq!(c.history().len(), 1);
    assert!(says(&c.history()[0], "user", None, "hello"));
}

#[test]
fn chat_with_name_names_the_user() {
    let mut c = context();
    let req = c.chat("p".to_string(), Some("NAME: bob(QQ_ID: 7)".to_string()), "q");
    assert!(says(&req.messages[1], "user", Some("NAME: bob(QQ_ID: 7)"), "q"));
}

#[test]
fn second_request_carries_whole_history() {
    let mut c = context();
    c.chat("p".to_string(), None, "one");
    let r: Result<String, String> = c.finish_chat(Ok("first answer".to_string()));
    assert_eq!(r, Ok("first answer".to_string()));
    let req = c.chat("p2".to_string(), None, "two");
    assert_eq!(req.messages.len(), 4);
    assert!(says(&req.messages[0], "system", None, "p2"));
    assert!(says(&req.messages[1], "user", None, "one"));
    assert!(says(&req.messages[2], "assistant", None, "first answer"));
    assert!(says(&req.messages[3], "user", None, "two"));
}

#[test]
fn failed_chat_keeps_question_only() {
    let mut c = context();
    c.chat("p".to_string(), None, "one");
    let r: Result<String, String> = c.finish_chat(Err("timeout".to_string()));
    assert_eq!(r, Err("timeout".to_string()));
    assert_eq!(c.history().len(), 1);
    assert!(says(&c.history()[0], "user", None, "one"));
}

#[test]
fn recall_removes_answered_exchange() {
    let mut c = context();
    c.chat("p".to_string(), None, "one");
    let _: Result<String, ()> = c.finish_chat(Ok("a1".to_string()));
    c.chat("p".to_string(), None, "two");
    let _: Result<String, ()> = c.finish_chat(Ok("a2".to_string()));
    c.recall();
    assert_eq!(c.history().len(), 2);
    assert!(says(&c.history()[0], "user", None, "one"));
    assert!(says(&c.history()[1], "assistant", None, "a1"));
}

#[test]
fn recall_removes_unanswered_question_only() {
    let mut c = context();
    c.chat("p".to_string(), None, "one");
    let _: Result<String, ()> = c.finish_chat(Ok("a1".to_string()));
    c.chat("p".to_string(), None, "two");
    c.recall();
    assert_eq!(c.history().len(), 2);
    assert!(says(&c.history()[1], "assistant", None, "a1"));
}

#[test]
fn recall_on_empty_history_does_nothing() {
    let mut c = context();
    c.recall();
    assert!(c.history().is_empty());
}

#[test]
fn recall_of_lone_answer_empties_history() {
    let mut c = context();
    let _: Result<String, ()> = c.finish_chat(Ok("a".to_string()));
    c.recall();
    assert!(c.history().is_empty());
}

#[test]
fn clear_forgets_everything() {
    let mut c = context();
    c.chat("p".to_string(), None, "one");
    let _: Result<String, ()> = c.finish_chat(Ok("a1".to_string()));
    c.clear();
    assert!(c.history().is_empty());
    let req = c.chat("p".to_string(), None, "two");
    assert_eq!(req.messages.len(), 2);
    assert!(says(&req.messages[1], "user", None, "two"));
}

#[test]
fn get_starts_fresh_conversation_with_settings() {
    let mut chats: DeepInfraChatInner = DeepInfraChat::init("m", 1.5f32.to_bits(), 42);
    let c = chats.get(100);
    assert!(c.history().is_empty());
    let req = c.chat("p".to_string(), None, "x");
    assert_eq!(req.model, "m");
    assert!(!req.stream);
    assert_eq!(f32::from_bits(req.temperature_bits), 1.5);
    assert_eq!(req.max_tokens, 42);
}

#[test]
fn get_keeps_conversation_per_group() {
    let mut chats = DeepInfraChatInner::new("m", 0.5f32.to_bits(), 10);
    chats.get(1).chat("p".to_string(), None, "in group one");
    assert!(chats.get(2).history().is_empty());
    assert_eq!(chats.get(1).history().len(), 1);
    assert!(says(&chats.get(1).history()[0], "user", None, "in group one"));
}

#[test]
fn answer_text_is_first_choice() {
    let a = ChatAnswer {
        choices: Some(vec![
            ChatChoice { content: Some("first".to_string()) },
            ChatChoice { content: Some("second".to_string()) },
        ]),
    };
    assert_eq!(answer_of(&a), "first");
    let b = ChatAnswer { choices: Some(vec![ChatChoice { content: Some(String::new()) }]) };
    assert_eq!(answer_of(&b), "");
}
