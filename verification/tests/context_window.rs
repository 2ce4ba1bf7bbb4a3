use agent_core::History;
use agent_core::ShortTermMemory;
use agent_core::types::Message;

fn user(text: &str) -> Message {
    Message::User {
        content: text.to_string(),
    }
}

#[test]
fn test_basic_short_term_memory() {
    let mut memory = History::new();

    memory.add_message(Message::User {
        content: "Hello".to_string(),
    });
    memory.add_message(Message::Assistant {
        content: "Hi".to_string(),
        tool_calls: None,
    });

    let context = memory.get_context_messages(Some(5));
    assert_eq!(context.len(), 2);
}

#[test]
fn full_view_returns_messages_in_insertion_order() {
    // After N additions the unbudgeted view is exactly those N messages,
    // oldest first.
    let mut history = History::new();
    let added = vec![user("one"), user("two"), user("three"), user("four")];
    for m in &added {
        history.add_message(m.clone());
    }
    let view = history.get_context_messages(None);
    assert_eq!(view, added);
    assert_eq!(history.len(), 4);
}

#[test]
fn budgeted_view_is_newest_suffix_within_budget() {
    // Word counts: 3, 5, 2 words; costs 3*13/10 = 3, 5*13/10 = 6,
    // 2*13/10 = 2. A budget of 8 keeps the last two messages; the
    // history itself keeps all three.
    let mut history = History::new();
    history.add_message(user("a b c"));
    history.add_message(user("one two three four five"));
    history.add_message(user("x y"));

    let view = history.get_context_messages(Some(8));
    assert_eq!(
        view,
        vec![user("one two three four five"), user("x y")],
    );
    assert_eq!(history.len(), 3);
    assert_eq!(history.get_context_messages(None).len(), 3);
}

#[test]
fn oversized_newest_message_gives_empty_view() {
    // Even the newest message exceeds the budget: the view is empty, and
    // nothing is dropped from the history.
    let mut history = History::new();
    history.add_message(user("this message alone has far too many words to fit"));
    let view = history.get_context_messages(Some(2));
    assert_eq!(view.len(), 0);
    assert_eq!(history.len(), 1);
}

fn remember<M: ShortTermMemory>(memory: &mut M, text: &str) -> Vec<Message> {
    memory.add_message(user(text));
    memory.get_context_messages(None)
}

#[test]
fn history_serves_as_short_term_memory() {
    let mut memory = History::new();
    let view = remember(&mut memory, "through the trait");
    assert_eq!(view, vec![user("through the trait")]);
}

#[test]
fn budget_zero_keeps_empty_messages() {
    // A message without words costs nothing and still fits a budget of
    // zero.
    let mut history = History::new();
    history.add_message(user(""));
    let view = history.get_context_messages(Some(0));
    assert_eq!(view.len(), 1);
}
