use anylm::assembler::{Assembler, Entry, Fragment};
use anylm::chunk::Chunk;

fn fragment(index: u64, name: Option<&str>, arguments: Option<&str>) -> Fragment {
    Fragment {
        index,
        name: name.map(|s| s.to_string()),
        arguments: arguments.map(|s| s.to_string()),
    }
}

fn tool(name: &str, arguments: &str) -> Chunk {
    Chunk::Tool(name.to_string(), arguments.to_string())
}

#[test]
fn call_leaves_once_with_its_last_fragment() {
    let mut tools = Assembler::new();
    tools.merge(fragment(0, Some("f"), None));
    assert_eq!(tools.drain(), vec![]);
    tools.merge(fragment(0, None, Some("{\"x\":")));
    assert_eq!(tools.drain(), vec![]);
    assert_eq!(tools.len(), 1);
    tools.merge(fragment(0, None, Some("1}")));
    assert_eq!(tools.drain(), vec![tool("f", "{\"x\":1}")]);
    assert_eq!(tools.len(), 0);
    assert_eq!(tools.drain(), vec![]);
}

#[test]
fn entry_with_empty_arguments_waits() {
    let mut tools = Assembler::new();
    tools.merge(fragment(3, Some("now"), None));
    assert_eq!(tools.drain(), vec![]);
    tools.merge(fragment(3, None, Some("")));
    assert_eq!(tools.drain(), vec![]);
    assert_eq!(tools.len(), 1);
    tools.merge(fragment(3, None, Some("{}")));
    assert_eq!(tools.drain(), vec![tool("now", "{}")]);
}

#[test]
fn name_is_replaced_and_arguments_are_appended() {
    let mut tools = Assembler::new();
    tools.merge(fragment(1, Some("a"), Some("[1,")));
    tools.merge(fragment(1, Some("b"), Some("2]")));
    assert_eq!(tools.drain(), vec![tool("b", "[1,2]")]);
}

#[test]
fn calls_are_kept_apart_by_index() {
    let mut tools = Assembler::new();
    tools.merge(fragment(0, Some("first"), Some("{\"a\":")));
    tools.merge(fragment(1, Some("second"), Some("{\"b\":2}")));
    assert_eq!(tools.len(), 2);
    assert_eq!(tools.drain(), vec![tool("second", "{\"b\":2}")]);
    assert_eq!(tools.len(), 1);
    tools.merge(fragment(0, None, Some("1}")));
    assert_eq!(tools.drain(), vec![tool("first", "{\"a\":1}")]);
}

#[test]
fn complete_calls_leave_in_order_of_first_appearance() {
    let mut tools = Assembler::new();
    tools.merge(fragment(5, Some("five"), Some("1")));
    tools.merge(fragment(2, Some("two"), Some("2")));
    tools.merge(fragment(9, Some("nine"), Some("{")));
    assert_eq!(tools.drain(), vec![tool("five", "1"), tool("two", "2")]);
    assert_eq!(tools.len(), 1);
}

#[test]
fn index_is_free_again_after_the_call_left() {
    let mut tools = Assembler::new();
    tools.merge(fragment(0, Some("f"), Some("{}")));
    assert_eq!(tools.drain(), vec![tool("f", "{}")]);
    tools.merge(fragment(0, None, Some("[]")));
    assert_eq!(tools.drain(), vec![tool("", "[]")]);
}

#[test]
fn settle_splits_by_the_flags() {
    let entries = vec![
        Entry { index: 0, name: "a".to_string(), arguments: "x".to_string() },
        Entry { index: 1, name: "b".to_string(), arguments: "y".to_string() },
        Entry { index: 2, name: "c".to_string(), arguments: "z".to_string() },
    ];
    let (stay, leave) = Assembler::settle(&entries, &vec![true, false, true]);
    assert_eq!(stay, vec![entries[1].clone()]);
    assert_eq!(leave, vec![tool("a", "x"), tool("c", "z")]);
    let (stay, leave) = Assembler::settle(&entries, &vec![false, false, false]);
    assert_eq!(stay, entries);
    assert_eq!(leave, vec![]);
}
