use anylm::budget::trim;
use anylm::completions::Completions;
use anylm::content::Content;
use anylm::error::Error;
use anylm::message::Message;
use anylm::role::Role;

fn msg(role: Role, label: &str, cost: usize) -> Message {
    Message { role, content: vec![Content::text(label)], tokens_count: cost }
}

fn labels(messages: &[Message]) -> Vec<String> {
    messages
        .iter()
        .map(|m| match &m.content[0] {
            Content::Text { text } => text.clone(),
            _ => String::new(),
        })
        .collect()
}

fn run(messages: Vec<Message>, budget: usize) -> (Vec<String>, usize) {
    let mut messages = messages;
    let mut total: usize = messages.iter().map(|m| m.tokens_count).sum();
    trim(&mut messages, &mut total, budget);
    assert_eq!(total, messages.iter().map(|m| m.tokens_count).sum::<usize>());
    (labels(&messages), total)
}

#[test]
fn conversation_within_budget_is_left_alone() {
    let messages = vec![msg(Role::User, "a", 5), msg(Role::Assistant, "b", 5), msg(Role::User, "c", 5)];
    assert_eq!(run(messages, 15), (vec!["a".to_string(), "b".to_string(), "c".to_string()], 15));
}

#[test]
fn oldest_messages_are_evicted_first() {
    let messages = vec![
        msg(Role::User, "a", 5),
        msg(Role::Assistant, "b", 5),
        msg(Role::User, "c", 5),
        msg(Role::Assistant, "d", 5),
        msg(Role::User, "e", 5),
    ];
    assert_eq!(run(messages, 12), (vec!["d".to_string(), "e".to_string()], 10));
}

#[test]
fn system_messages_are_never_evicted() {
    let messages = vec![
        msg(Role::System, "s1", 10),
        msg(Role::User, "a", 5),
        msg(Role::System, "s2", 10),
        msg(Role::Assistant, "b", 5),
        msg(Role::User, "c", 5),
    ];
    assert_eq!(
        run(messages, 26),
        (vec!["s1".to_string(), "s2".to_string(), "c".to_string()], 25)
    );
}

#[test]
fn last_message_stays_even_over_budget() {
    let messages = vec![msg(Role::User, "a", 5), msg(Role::User, "b", 50)];
    assert_eq!(run(messages, 10), (vec!["b".to_string()], 50));
    let messages = vec![msg(Role::System, "s", 30), msg(Role::User, "a", 5), msg(Role::User, "b", 50)];
    assert_eq!(run(messages, 0), (vec!["s".to_string(), "b".to_string()], 80));
}

#[test]
fn last_system_message_stays_too() {
    let messages = vec![msg(Role::User, "a", 5), msg(Role::System, "s", 50)];
    assert_eq!(run(messages, 10), (vec!["s".to_string()], 50));
}

#[test]
fn eviction_stops_as_soon_as_the_budget_is_met() {
    let messages = vec![
        msg(Role::User, "a", 1),
        msg(Role::User, "b", 1),
        msg(Role::User, "c", 1),
        msg(Role::User, "d", 1),
    ];
    assert_eq!(run(messages, 3), (vec!["b".to_string(), "c".to_string(), "d".to_string()], 3));
}

#[test]
fn empty_conversation_is_left_empty() {
    assert_eq!(run(vec![], 0), (vec![], 0));
}

fn request(max_tokens: i32, messages: Vec<Message>) -> Completions {
    let mut c = Completions::openai("k", "m").max_tokens(max_tokens);
    c.tokens_count = messages.iter().map(|m| m.tokens_count).sum();
    c.messages = messages;
    c
}

#[test]
fn request_ending_on_assistant_turn_is_refused() {
    let mut c = request(100, vec![msg(Role::User, "a", 5), msg(Role::Assistant, "b", 5)]);
    assert_eq!(c.prepare().err(), Some(Error::IncorrectContext));
    assert_eq!(labels(&c.messages), vec!["a".to_string(), "b".to_string()]);
}

#[test]
fn request_trimmed_down_to_an_assistant_turn_is_refused() {
    let mut c = request(10, vec![msg(Role::User, "a", 50), msg(Role::Assistant, "b", 5)]);
    assert_eq!(c.prepare().err(), Some(Error::IncorrectContext));
    assert_eq!(labels(&c.messages), vec!["b".to_string()]);
    assert_eq!(c.tokens_count, 5);
}

#[test]
fn request_without_budget_is_neither_trimmed_nor_checked() {
    let mut c = request(-1, vec![msg(Role::User, "a", 50), msg(Role::Assistant, "b", 5)]);
    assert!(c.prepare().is_ok());
    assert_eq!(labels(&c.messages), vec!["a".to_string(), "b".to_string()]);
    let mut c = request(0, vec![msg(Role::Assistant, "b", 5)]);
    assert!(c.prepare().is_ok());
}

#[test]
fn request_is_trimmed_before_it_is_composed() {
    let mut c = request(
        10,
        vec![
            msg(Role::System, "s", 2),
            msg(Role::User, "old", 20),
            msg(Role::Assistant, "reply", 3),
            msg(Role::User, "new", 4),
        ],
    );
    let sent = c.prepare().unwrap();
    assert_eq!(labels(&c.messages), vec!["s".to_string(), "reply".to_string(), "new".to_string()]);
    assert_eq!(c.tokens_count, 9);
    let messages = sent.body.get("messages").and_then(|m| m.as_array()).unwrap();
    assert_eq!(messages.len(), 3);
}

#[test]
fn request_without_messages_is_sent() {
    let mut c = request(10, vec![]);
    assert!(c.prepare().is_ok());
}
