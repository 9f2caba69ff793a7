use anylm::frames::{find_delimiter, find_payload, DonePolicy, Frame, FrameSplitter};

fn payload(text: &str) -> Frame {
    Frame::Payload(text.to_string())
}

fn run(policy: DonePolicy, pieces: &[&str]) -> (Vec<Frame>, bool) {
    let mut splitter = FrameSplitter::new(policy);
    let mut frames = Vec::new();
    for piece in pieces {
        frames.extend(splitter.push(piece));
    }
    (frames, splitter.is_ended())
}

const STREAM: &str = "data: {\"a\":1}\n\ndata: [DONE]\n\n";

#[test]
fn whole_stream_in_one_fragment() {
    let (frames, ended) = run(DonePolicy::EndStream, &[STREAM]);
    assert_eq!(frames, vec![payload("{\"a\":1}"), Frame::Done]);
    assert!(ended);
}

#[test]
fn stream_split_in_two_at_every_place() {
    for at in 0..=STREAM.len() {
        let (head, tail) = STREAM.split_at(at);
        let (frames, ended) = run(DonePolicy::EndStream, &[head, tail]);
        assert_eq!(frames, vec![payload("{\"a\":1}"), Frame::Done], "split at {}", at);
        assert!(ended);
    }
}

#[test]
fn stream_split_in_three_at_every_place() {
    for first in 0..=STREAM.len() {
        for second in first..=STREAM.len() {
            let pieces = [&STREAM[..first], &STREAM[first..second], &STREAM[second..]];
            let (frames, ended) = run(DonePolicy::EndStream, &pieces);
            assert_eq!(frames, vec![payload("{\"a\":1}"), Frame::Done]);
            assert!(ended);
        }
    }
}

#[test]
fn stream_one_character_at_a_time() {
    let pieces: Vec<String> = STREAM.chars().map(|c| c.to_string()).collect();
    let refs: Vec<&str> = pieces.iter().map(|s| s.as_str()).collect();
    let (frames, ended) = run(DonePolicy::EndStream, &refs);
    assert_eq!(frames, vec![payload("{\"a\":1}"), Frame::Done]);
    assert!(ended);
}

#[test]
fn frame_comes_only_with_its_delimiter() {
    let mut splitter = FrameSplitter::new(DonePolicy::EndStream);
    assert_eq!(splitter.push("data: {\"a\":1}"), vec![]);
    assert_eq!(splitter.push("\n"), vec![]);
    assert_eq!(splitter.push("\n"), vec![payload("{\"a\":1}")]);
    assert!(!splitter.is_ended());
}

#[test]
fn nothing_is_read_after_the_end() {
    let (frames, ended) = run(
        DonePolicy::EndStream,
        &["data: [DONE]\n\ndata: late\n\n", "data: later\n\n"],
    );
    assert_eq!(frames, vec![Frame::Done]);
    assert!(ended);
}

#[test]
fn skip_policy_drops_the_marker_and_reads_on() {
    let (frames, ended) = run(
        DonePolicy::SkipEvent,
        &["data: one\n\ndata: [DONE]\n\ndata: two\n\n", "data: three\n\n"],
    );
    assert_eq!(frames, vec![payload("one"), payload("two"), payload("three")]);
    assert!(!ended);
}

#[test]
fn events_without_data_line_are_dropped() {
    let (frames, _) = run(
        DonePolicy::EndStream,
        &["event: ping\n\n: comment\n\ndata:nospace\n\n\n\ndata: x\n\n"],
    );
    assert_eq!(frames, vec![payload("x")]);
}

#[test]
fn first_data_line_of_an_event_counts() {
    let (frames, _) = run(
        DonePolicy::EndStream,
        &["event: message\nid: 7\ndata: first\ndata: second\n\n"],
    );
    assert_eq!(frames, vec![payload("first")]);
}

#[test]
fn carriage_return_before_line_feed_is_dropped() {
    let (frames, _) = run(DonePolicy::EndStream, &["event: x\r\ndata: {\"a\":1}\r\n\n"]);
    assert_eq!(frames, vec![payload("{\"a\":1}")]);
    let (frames, ended) = run(DonePolicy::EndStream, &["data: [DONE]\r\n\n"]);
    assert_eq!(frames, vec![Frame::Done]);
    assert!(ended);
}

#[test]
fn empty_payload_is_a_payload() {
    let (frames, _) = run(DonePolicy::EndStream, &["data: \n\n"]);
    assert_eq!(frames, vec![payload("")]);
}

#[test]
fn payload_keeps_text_beyond_ascii() {
    let (frames, _) = run(DonePolicy::EndStream, &["data: \"h\u{e9}llo \u{1F600}\"\n\n"]);
    assert_eq!(frames, vec![payload("\"h\u{e9}llo \u{1F600}\"")]);
}

#[test]
fn delimiter_search() {
    let text: Vec<char> = "ab\n\ncd\n\n".chars().collect();
    assert_eq!(find_delimiter(&text, 0), Some(2));
    assert_eq!(find_delimiter(&text, 2), Some(2));
    assert_eq!(find_delimiter(&text, 3), Some(6));
    assert_eq!(find_delimiter(&text, 7), None);
    assert_eq!(find_delimiter(&text, 8), None);
    let triple: Vec<char> = "\n\n\n".chars().collect();
    assert_eq!(find_delimiter(&triple, 0), Some(0));
    assert_eq!(find_delimiter(&triple, 1), Some(1));
}

#[test]
fn payload_search() {
    let text: Vec<char> = "x\ndata: abc\n\n".chars().collect();
    assert_eq!(find_payload(&text, 0, text.len()), Some((8, 11)));
    assert_eq!(find_payload(&text, 0, 1), None);
    assert_eq!(find_payload(&text, 2, 8), Some((8, 8)));
    assert_eq!(find_payload(&text, 3, text.len()), None);
}
