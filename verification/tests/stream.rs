use anylm::assembler::{Assembler, Fragment};
use anylm::chunk::Chunk;
use anylm::decode::Decoded;
use anylm::error::Error;
use anylm::frames::DonePolicy;
use anylm::kind::ApiKind;
use anylm::stream::{apply_event, process, StreamDecoder};

fn text(t: &str) -> Result<Chunk, Error> {
    Ok(Chunk::Text(t.to_string()))
}

fn tool(name: &str, arguments: &str) -> Result<Chunk, Error> {
    Ok(Chunk::Tool(name.to_string(), arguments.to_string()))
}

fn openai() -> StreamDecoder {
    StreamDecoder::new(ApiKind::OpenAI, DonePolicy::EndStream)
}

fn anthropic() -> StreamDecoder {
    StreamDecoder::new(ApiKind::Anthropic, DonePolicy::EndStream)
}

fn delta(content: &str) -> String {
    format!("data: {{\"choices\":[{{\"delta\":{{\"content\":\"{}\"}}}}]}}\n\n", content)
}

#[test]
fn text_chunks_come_in_order() {
    let mut decoder = openai();
    let input = format!("{}{}{}data: [DONE]\n\n", delta("Hel"), delta("lo"), delta("!"));
    let items = decoder.feed(input.as_bytes());
    assert_eq!(items, vec![text("Hel"), text("lo"), text("!")]);
    assert!(decoder.is_finished());
    assert_eq!(decoder.feed(delta("late").as_bytes()), vec![]);
}

#[test]
fn malformed_payload_between_two_good_ones_is_dropped() {
    let mut decoder = openai();
    let input = format!("{}data: {{\"choices\":[{{\"delta\"\n\n{}", delta("a"), delta("b"));
    assert_eq!(decoder.feed(input.as_bytes()), vec![text("a"), text("b")]);
    let mut decoder = openai();
    let input = format!("{}data: {{\"unknown\":true}}\n\n{}", delta("a"), delta("b"));
    assert_eq!(decoder.feed(input.as_bytes()), vec![text("a"), text("b")]);
    assert!(!decoder.is_finished());
}

#[test]
fn text_round_trip_over_any_fragmentation() {
    let pieces = ["The ", "quick", " brown", "", " fox", "\\n", "."];
    let mut input = String::new();
    for piece in pieces {
        input.push_str(&delta(piece));
    }
    let bytes = input.as_bytes();
    for step in [1usize, 2, 3, 7, 64, bytes.len()] {
        let mut decoder = openai();
        let mut reply = String::new();
        for fragment in bytes.chunks(step) {
            for item in decoder.feed(fragment) {
                match item {
                    Ok(Chunk::Text(t)) => reply.push_str(&t),
                    other => panic!("no text: {:?}", other),
                }
            }
        }
        assert_eq!(reply, "The quick brown fox\n.");
    }
}

#[test]
fn empty_text_gives_no_chunk() {
    let mut decoder = openai();
    assert_eq!(decoder.feed(delta("").as_bytes()), vec![]);
    assert_eq!(decoder.feed(b"data: {\"choices\":[]}\n\n"), vec![]);
}

#[test]
fn openai_tool_call_is_assembled_across_events() {
    let mut decoder = openai();
    let mut items = Vec::new();
    let events = [
        r#"{"choices":[{"delta":{"tool_calls":[{"index":0,"id":"c","type":"function","function":{"name":"f","arguments":""}}]}}]}"#,
        r#"{"choices":[{"delta":{"tool_calls":[{"index":0,"function":{"arguments":"{\"x\":"}}]}}]}"#,
        r#"{"choices":[{"delta":{"content":"done","tool_calls":[{"index":0,"function":{"arguments":"1}"}}]}}]}"#,
    ];
    for (n, event) in events.iter().enumerate() {
        let got = decoder.feed(format!("data: {}\n\n", event).as_bytes());
        if n < 2 {
            assert_eq!(got, vec![]);
            assert_eq!(decoder.pending(), 1);
        }
        items.extend(got);
    }
    assert_eq!(items, vec![tool("f", "{\"x\":1}"), text("done")]);
    assert_eq!(decoder.pending(), 0);
}

#[test]
fn anthropic_text_and_tool_use() {
    let mut decoder = anthropic();
    let events = [
        r#"{"type":"message_start","message":{"id":"m"}}"#,
        r#"{"type":"content_block_start","index":0,"content_block":{"type":"text","text":""}}"#,
        r#"{"type":"ping"}"#,
        r#"{"type":"content_block_delta","index":0,"delta":{"type":"text_delta","text":"Let me "}}"#,
        r#"{"type":"content_block_delta","index":0,"delta":{"type":"text_delta","text":"look."}}"#,
        r#"{"type":"content_block_stop","index":0}"#,
        r#"{"type":"content_block_start","index":1,"content_block":{"type":"tool_use","id":"t","name":"weather","input":{}}}"#,
        r#"{"type":"content_block_delta","index":1,"delta":{"type":"input_json_delta","partial_json":""}}"#,
        r#"{"type":"content_block_delta","index":1,"delta":{"type":"input_json_delta","partial_json":"{\"location\":"}}"#,
        r#"{"type":"content_block_delta","index":1,"delta":{"type":"input_json_delta","partial_json":"\"London\"}"}}"#,
        r#"{"type":"content_block_stop","index":1}"#,
        r#"{"type":"message_delta","delta":{"stop_reason":"tool_use"}}"#,
        r#"{"type":"message_stop"}"#,
    ];
    let mut items = Vec::new();
    for event in events {
        items.extend(decoder.feed(format!("event: x\ndata: {}\n\n", event).as_bytes()));
    }
    assert_eq!(
        items,
        vec![text("Let me "), text("look."), tool("weather", "{\"location\":\"London\"}")]
    );
    assert!(!decoder.is_finished());
}

#[test]
fn error_envelope_gives_an_error_item_and_reading_goes_on() {
    let mut decoder = openai();
    assert_eq!(
        decoder.feed(b"data: {\"error\":\"boom\"}\n\n"),
        vec![Err(Error::ResponseError("boom".to_string()))]
    );
    assert_eq!(decoder.feed(delta("a").as_bytes()), vec![text("a")]);
    assert!(!decoder.is_finished());

    let mut decoder = anthropic();
    assert_eq!(
        decoder.feed(
            b"event: error\ndata: {\"type\":\"error\",\"error\":{\"type\":\"overloaded_error\",\"message\":\"busy\"}}\n\n"
        ),
        vec![Err(Error::ResponseError("busy".to_string()))]
    );
    assert_eq!(decoder.feed(b"data: {\"error\":\"other family\"}\n\n"), vec![]);
}

#[test]
fn error_envelope_and_chunks_in_one_fragment_keep_their_order() {
    let mut decoder = openai();
    let input = format!("{}data: {{\"error\":\"boom\"}}\n\n{}", delta("a"), delta("b"));
    assert_eq!(
        decoder.feed(input.as_bytes()),
        vec![text("a"), Err(Error::ResponseError("boom".to_string())), text("b")]
    );
}

#[test]
fn error_envelope_does_not_suppress_what_the_payload_carries() {
    let mut decoder = openai();
    assert_eq!(
        decoder.feed(b"data: {\"error\":\"boom\",\"choices\":[{\"delta\":{\"content\":\"a\"}}]}\n\n"),
        vec![Err(Error::ResponseError("boom".to_string())), text("a")]
    );
}

#[test]
fn text_without_a_complete_event_gives_nothing() {
    let mut decoder = openai();
    assert_eq!(decoder.feed(b"{\"error\":\"boom\"}"), vec![]);
    assert_eq!(decoder.feed(b"data: {\"error\":\"boom\"}\n"), vec![]);
    let mut decoder = openai();
    assert_eq!(decoder.feed(b"data: {\"error\":\"bo"), vec![]);
    assert_eq!(
        decoder.feed(b"om\"}\n\n"),
        vec![Err(Error::ResponseError("boom".to_string()))]
    );
}

#[test]
fn bytes_that_are_no_utf8_are_replaced() {
    let mut decoder = openai();
    let mut bytes = b"data: {\"choices\":[{\"delta\":{\"content\":\"a".to_vec();
    bytes.push(0xFF);
    bytes.extend_from_slice(b"b\"}}]}\n\n");
    assert_eq!(decoder.feed(&bytes), vec![text("a\u{FFFD}b")]);
    let mut decoder = openai();
    assert_eq!(decoder.feed_text(&delta("h\u{e9}")), vec![text("h\u{e9}")]);
    let mut decoder = openai();
    assert_eq!(decoder.feed(delta("h\u{e9}").as_bytes()), vec![text("h\u{e9}")]);
}

#[test]
fn skip_policy_reads_on_after_the_marker() {
    let mut decoder = StreamDecoder::new(ApiKind::OpenAI, DonePolicy::SkipEvent);
    let input = format!("{}data: [DONE]\n\n{}", delta("a"), delta("b"));
    assert_eq!(decoder.feed(input.as_bytes()), vec![text("a"), text("b")]);
    assert!(!decoder.is_finished());
}

#[test]
fn payload_acts_on_the_assembler() {
    let mut tools = Assembler::new();
    let none = process(false, &mut tools, "not json");
    assert_eq!(none, vec![]);
    assert_eq!(
        process(false, &mut tools, "{\"error\":\"boom\"}"),
        vec![Err(Error::ResponseError("boom".to_string()))]
    );
    assert_eq!(process(true, &mut tools, "{\"error\":\"boom\"}"), vec![]);
    let got = process(
        false,
        &mut tools,
        r#"{"choices":[{"delta":{"content":"x","tool_calls":[{"index":4,"function":{"name":"g","arguments":"[]"}}]}}]}"#,
    );
    assert_eq!(got, vec![tool("g", "[]"), text("x")]);
    assert_eq!(tools.len(), 0);
}

#[test]
fn decoded_event_acts_on_the_assembler() {
    let mut tools = Assembler::new();
    let event = Decoded {
        text: "t".to_string(),
        fragments: vec![
            Fragment { index: 0, name: Some("a".to_string()), arguments: Some("{".to_string()) },
            Fragment { index: 1, name: Some("b".to_string()), arguments: Some("1".to_string()) },
            Fragment { index: 0, name: None, arguments: Some("}".to_string()) },
        ],
    };
    assert_eq!(
        apply_event(&mut tools, event),
        vec![
            Chunk::Tool("a".to_string(), "{}".to_string()),
            Chunk::Tool("b".to_string(), "1".to_string()),
            Chunk::Text("t".to_string()),
        ]
    );
    let only_mention = Decoded {
        text: String::new(),
        fragments: vec![Fragment { index: 7, name: None, arguments: None }],
    };
    assert_eq!(apply_event(&mut tools, only_mention), vec![]);
    assert_eq!(tools.len(), 1);
}
