//! The frame splitter: turns the text of an event stream, received in
//! fragments of any size, into the payloads of its events.
//!
//! Events are separated by a blank line. Within an event only the first line
//! that begins with `data: ` counts; what follows the prefix is the payload.
//! The payload `[DONE]` marks the end of the stream.

use vstd::prelude::*;
use crate::text::{
    chars_of, find_char, index_of, lemma_index_of, range_equals, range_starts_with, starts_with,
    string_of,
};

verus! {

/// What to do when an event carries the payload `[DONE]`.
#[derive(Clone, Copy, Debug, PartialEq, Eq, Structural)]
pub enum DonePolicy {
    /// The stream ends there: the marker is reported and nothing that
    /// follows it is read.
    EndStream,
    /// The event is dropped and reading goes on.
    SkipEvent,
}

/// What one event yields.
#[derive(Debug, Clone, PartialEq, Eq)]
pub enum Frame {
    /// The payload of an event.
    Payload(String),
    /// The end-of-stream marker.
    Done,
}

/// The mathematical value of a frame.
pub ghost enum FrameView {
    Payload(Seq<char>),
    Done,
}

impl View for Frame {
    type V = FrameView;

    open spec fn view(&self) -> FrameView {
        match self {
            Frame::Payload(payload) => FrameView::Payload(payload@),
            Frame::Done => FrameView::Done,
        }
    }
}

/// The values of a sequence of frames.
pub open spec fn frame_views(frames: Seq<Frame>) -> Seq<FrameView> {
    Seq::new(frames.len(), |i: int| frames[i]@)
}

/// A blank line starts at index `i`: two line feeds in a row.
pub open spec fn delimiter_at(text: Seq<char>, i: int) -> bool {
    0 <= i && i + 1 < text.len() && text[i] == '\n' && text[i + 1] == '\n'
}

/// The index of the first blank line of `text`.
pub open spec fn first_delimiter(text: Seq<char>) -> Option<int>
    decreases text.len(),
{
    if text.len() < 2 {
        None
    } else if text[0] == '\n' && text[1] == '\n' {
        Some(0)
    } else {
        match first_delimiter(text.drop_first()) {
            Some(i) => Some(i + 1),
            None => None,
        }
    }
}

/// `first_delimiter` is the least index at which a blank line starts.
pub proof fn lemma_first_delimiter(text: Seq<char>)
    ensures
        match first_delimiter(text) {
            Some(i) => delimiter_at(text, i) && forall|j: int| 0 <= j < i ==> !delimiter_at(
                text,
                j,
            ),
            None => forall|j: int| !delimiter_at(text, j),
        },
    decreases text.len(),
{
    if text.len() < 2 {
    } else if text[0] == '\n' && text[1] == '\n' {
    } else {
        let rest = text.drop_first();
        lemma_first_delimiter(rest);
        assert forall|j: int| delimiter_at(text, j) implies j >= 1 && delimiter_at(rest, j - 1) by {
        }
        match first_delimiter(rest) {
            Some(i) => {
                assert(delimiter_at(text, i + 1));
                assert forall|j: int| 0 <= j < i + 1 implies !delimiter_at(text, j) by {
                    if delimiter_at(text, j) {
                        assert(delimiter_at(rest, j - 1));
                    }
                }
            },
            None => {
                assert forall|j: int| !delimiter_at(text, j) by {
                    if delimiter_at(text, j) {
                        assert(delimiter_at(rest, j - 1));
                    }
                }
            },
        }
    }
}

/// The least index at which a blank line starts is `first_delimiter`.
pub proof fn lemma_first_delimiter_is(text: Seq<char>, i: int)
    requires
        delimiter_at(text, i),
        forall|j: int| 0 <= j < i ==> !delimiter_at(text, j),
    ensures
        first_delimiter(text) == Some(i),
{
    lemma_first_delimiter(text);
    match first_delimiter(text) {
        Some(k) => {
            if k < i {
                assert(!delimiter_at(text, k));
            } else if i < k {
                assert(!delimiter_at(text, i));
            }
        },
        None => {
            assert(!delimiter_at(text, i));
        },
    }
}

/// Searches `text[from..]` for the first blank line.
pub fn find_delimiter(text: &[char], from: usize) -> (r: Option<usize>)
    requires
        from <= text@.len(),
    ensures
        match r {
            Some(i) => from <= i && i + 2 <= text@.len() && first_delimiter(
                text@.skip(from as int),
            ) == Some(i - from),
            None => first_delimiter(text@.skip(from as int)) is None,
        },
{
    let ghost tail = text@.skip(from as int);
    let mut i: usize = from;
    while i < text.len() && text.len() - i >= 2
        invariant
            from <= i <= text@.len(),
            tail == text@.skip(from as int),
            forall|j: int| 0 <= j < i - from ==> !delimiter_at(tail, j),
        decreases text@.len() - i,
    {
        if text[i] == '\n' && text[i + 1] == '\n' {
            proof {
                assert(delimiter_at(tail, i - from));
                lemma_first_delimiter_is(tail, i - from);
            }
            return Some(i);
        }
        i += 1;
    }
    proof {
        lemma_first_delimiter(tail);
        if let Some(k) = first_delimiter(tail) {
            assert(delimiter_at(tail, k));
            assert(k < i - from);
        }
    }
    None
}

/// The length of the first line of `text`: the index of its first line feed,
/// or the length of the text where it has none.
pub open spec fn line_end(text: Seq<char>) -> int {
    index_of(text, '\n')
}

/// The first line of `text`, without its line feed and without one carriage
/// return before that line feed. A last line that no line feed ends is taken
/// as it stands.
pub open spec fn first_line(text: Seq<char>) -> Seq<char> {
    let end = line_end(text);
    let line = text.take(end);
    if end < text.len() && line.len() > 0 && line.last() == '\r' {
        line.drop_last()
    } else {
        line
    }
}

/// What follows the first line of `text`.
pub open spec fn after_first_line(text: Seq<char>) -> Seq<char> {
    let end = line_end(text);
    if end < text.len() {
        text.skip(end + 1)
    } else {
        Seq::empty()
    }
}

/// The prefix of a line that carries a payload.
pub open spec fn data_prefix() -> Seq<char> {
    "data: "@
}

/// The payload that ends a stream.
pub open spec fn done_payload() -> Seq<char> {
    "[DONE]"@
}

/// The payload of an event: what follows the prefix on the first line that
/// begins with `data: `; `None` for an event without such a line.
pub open spec fn data_payload(event: Seq<char>) -> Option<Seq<char>>
    decreases event.len(),
{
    if event.len() == 0 {
        None
    } else {
        let line = first_line(event);
        if starts_with(line, data_prefix()) {
            Some(line.skip(data_prefix().len() as int))
        } else {
            proof {
                lemma_index_of(event, '\n');
            }
            data_payload(after_first_line(event))
        }
    }
}

/// Searches the event `text[start..end]` for its payload and returns the
/// range that the payload occupies in `text`.
pub fn find_payload(text: &[char], start: usize, end: usize) -> (r: Option<(usize, usize)>)
    requires
        start <= end <= text@.len(),
    ensures
        match r {
            Some((from, to)) => start <= from <= to <= end && data_payload(
                text@.subrange(start as int, end as int),
            ) == Some(text@.subrange(from as int, to as int)),
            None => data_payload(text@.subrange(start as int, end as int)) is None,
        },
{
    let ghost event = text@.subrange(start as int, end as int);
    let prefix_len = "data: ".unicode_len();
    let mut cur: usize = start;
    proof {
        assert(event.skip(0) =~= event);
    }
    while cur < end
        invariant
            start <= cur <= end <= text@.len(),
            event == text@.subrange(start as int, end as int),
            prefix_len == data_prefix().len(),
            data_payload(event) == data_payload(event.skip(cur - start)),
        decreases end - cur,
    {
        let ghost tail = event.skip(cur - start);
        assert(tail =~= text@.subrange(cur as int, end as int));
        let stop = find_char(text, cur, end, '\n');
        proof {
            lemma_index_of(tail, '\n');
        }
        let mut line_stop: usize = stop;
        if stop < end && stop > cur && text[stop - 1] == '\r' {
            line_stop = stop - 1;
        }
        assert(first_line(tail) =~= text@.subrange(cur as int, line_stop as int));
        if range_starts_with(text, cur, line_stop, "data: ") {
            assert(first_line(tail).skip(prefix_len as int) =~= text@.subrange(
                cur + prefix_len,
                line_stop as int,
            ));
            return Some((cur + prefix_len, line_stop));
        }
        if stop < end {
            assert(after_first_line(tail) =~= event.skip(stop + 1 - start));
            cur = stop + 1;
        } else {
            assert(after_first_line(tail) =~= event.skip(end - start));
            cur = end;
        }
    }
    assert(event.skip(end - start).len() == 0);
    None
}

/// What an event yields under a policy: its payload, the end-of-stream
/// marker, or nothing.
pub open spec fn event_frame(policy: DonePolicy, event: Seq<char>) -> Option<FrameView> {
    match data_payload(event) {
        None => None,
        Some(payload) => if payload == done_payload() {
            match policy {
                DonePolicy::EndStream => Some(FrameView::Done),
                DonePolicy::SkipEvent => None,
            }
        } else {
            Some(FrameView::Payload(payload))
        },
    }
}

/// The outcome of reading a text: the frames of its complete events, the
/// text that is left over, and whether the stream has ended.
pub ghost struct Scan {
    pub frames: Seq<FrameView>,
    pub rest: Seq<char>,
    pub ended: bool,
}

impl Scan {
    /// The same outcome, reached after `frames` had been yielded already.
    pub open spec fn after(self, frames: Seq<FrameView>) -> Scan {
        Scan { frames: frames + self.frames, rest: self.rest, ended: self.ended }
    }
}

/// Reads `text` event by event. An event reaches up to and including the
/// first blank line; a text without one is left over as it stands.
pub open spec fn scan(policy: DonePolicy, text: Seq<char>) -> Scan
    decreases text.len(),
{
    match first_delimiter(text) {
        None => Scan { frames: Seq::empty(), rest: text, ended: false },
        Some(at) => {
            proof {
                lemma_first_delimiter(text);
            }
            let event = text.take(at + 2);
            let tail = text.skip(at + 2);
            match event_frame(policy, event) {
                None => scan(policy, tail),
                Some(FrameView::Done) => Scan {
                    frames: seq![FrameView::Done],
                    rest: Seq::empty(),
                    ended: true,
                },
                Some(frame) => scan(policy, tail).after(seq![frame]),
            }
        },
    }
}

/// Reading `head + tail` in one piece gives what reading `head` and then, if
/// the stream has not ended, the left-over text with `tail` gives.
pub proof fn lemma_scan_append(policy: DonePolicy, head: Seq<char>, tail: Seq<char>)
    ensures
        scan(policy, head + tail) == if scan(policy, head).ended {
            scan(policy, head)
        } else {
            scan(policy, scan(policy, head).rest + tail).after(scan(policy, head).frames)
        },
    decreases head.len(),
{
    let whole = head + tail;
    match first_delimiter(head) {
        None => {
            let s = scan(policy, whole);
            assert(s.after(Seq::empty()).frames =~= s.frames);
        },
        Some(at) => {
            lemma_first_delimiter(head);
            assert(delimiter_at(whole, at));
            assert forall|j: int| 0 <= j < at implies !delimiter_at(whole, j) by {
                if delimiter_at(whole, j) {
                    assert(delimiter_at(head, j));
                }
            }
            lemma_first_delimiter_is(whole, at);
            let event = head.take(at + 2);
            let rest = head.skip(at + 2);
            assert(whole.take(at + 2) =~= event);
            assert(whole.skip(at + 2) =~= rest + tail);
            lemma_scan_append(policy, rest, tail);
            match event_frame(policy, event) {
                None => {},
                Some(FrameView::Done) => {},
                Some(frame) => {
                    let sr = scan(policy, rest);
                    if !sr.ended {
                        let st = scan(policy, sr.rest + tail);
                        assert(seq![frame] + (sr.frames + st.frames) =~= (seq![frame] + sr.frames)
                            + st.frames);
                    }
                },
            }
        },
    }
}

/// The state of a frame splitter.
pub ghost struct SplitterView {
    pub policy: DonePolicy,
    /// The text received so far that no event has consumed.
    pub buffer: Seq<char>,
    /// The end-of-stream marker has been read.
    pub ended: bool,
}

impl SplitterView {
    /// The state after `text` has been received, and the frames that it
    /// completes. Once the stream has ended nothing is read any more.
    pub open spec fn push(self, text: Seq<char>) -> (SplitterView, Seq<FrameView>) {
        if self.ended {
            (self, Seq::empty())
        } else {
            let s = scan(self.policy, self.buffer + text);
            (SplitterView { policy: self.policy, buffer: s.rest, ended: s.ended }, s.frames)
        }
    }
}

/// The frames that a splitter yields do not depend on how the text was cut
/// into fragments: receiving `first` and then `second` yields the frames,
/// and leads to the state, of receiving `first + second` at once.
pub proof fn lemma_fragmentation(state: SplitterView, first: Seq<char>, second: Seq<char>)
    ensures
        state.push(first + second) == (
            state.push(first).0.push(second).0,
            state.push(first).1 + state.push(first).0.push(second).1,
        ),
{
    if state.ended {
        assert(Seq::<FrameView>::empty() + Seq::<FrameView>::empty() =~= Seq::<FrameView>::empty());
    } else {
        assert(state.buffer + (first + second) =~= (state.buffer + first) + second);
        lemma_scan_append(state.policy, state.buffer + first, second);
        let s1 = scan(state.policy, state.buffer + first);
        if s1.ended {
            assert(s1.frames + Seq::<FrameView>::empty() =~= s1.frames);
        }
    }
}

/// Splits the text of an event stream into frames.
pub struct FrameSplitter {
    policy: DonePolicy,
    buffer: Vec<char>,
    ended: bool,
}

impl View for FrameSplitter {
    type V = SplitterView;

    closed spec fn view(&self) -> SplitterView {
        SplitterView { policy: self.policy, buffer: self.buffer@, ended: self.ended }
    }
}

impl FrameSplitter {
    /// A splitter that has received nothing.
    pub fn new(policy: DonePolicy) -> (r: Self)
        ensures
            r@ == (SplitterView { policy, buffer: Seq::empty(), ended: false }),
    {
        FrameSplitter { policy, buffer: Vec::new(), ended: false }
    }

    /// Whether the end-of-stream marker has been read.
    pub fn is_ended(&self) -> (r: bool)
        ensures
            r == self@.ended,
    {
        self.ended
    }

    /// Receives the next fragment of text and returns the frames of the
    /// events that it completes, in the order of the stream.
    pub fn push(&mut self, text: &str) -> (frames: Vec<Frame>)
        ensures
            (final(self)@, frame_views(frames@)) == old(self)@.push(text@),
    {
        let mut frames: Vec<Frame> = Vec::new();
        if self.ended {
            assert(frame_views(frames@) =~= Seq::empty());
            return frames;
        }
        let mut incoming = chars_of(text);
        self.buffer.append(&mut incoming);
        let ghost whole = self.buffer@;
        let policy = self.policy;
        let mut start: usize = 0;
        proof {
            assert(whole.skip(0) =~= whole);
            assert(scan(policy, whole).after(frame_views(frames@)).frames =~= scan(
                policy,
                whole,
            ).frames);
        }
        let len = self.buffer.len();
        loop
            invariant_except_break
                start <= whole.len(),
                self.buffer@ == whole,
                !self.ended,
                scan(policy, whole) == scan(policy, whole.skip(start as int)).after(
                    frame_views(frames@),
                ),
            invariant
                len == whole.len(),
                self.policy == policy,
            ensures
                self@ == (SplitterView {
                    policy,
                    buffer: scan(policy, whole).rest,
                    ended: scan(policy, whole).ended,
                }),
                frame_views(frames@) == scan(policy, whole).frames,
            decreases whole.len() - start,
        {
            let ghost tail = whole.skip(start as int);
            let ghost before = frame_views(frames@);
            match find_delimiter(self.buffer.as_slice(), start) {
                None => {
                    let rest = self.buffer.split_off(start);
                    self.buffer = rest;
                    assert(self.buffer@ =~= tail);
                    assert(before + Seq::<FrameView>::empty() =~= before);
                    break ;
                },
                Some(at) => {
                    let next = at + 2;
                    proof {
                        lemma_first_delimiter(tail);
                        assert(tail.take(at - start + 2) =~= whole.subrange(
                            start as int,
                            next as int,
                        ));
                        assert(tail.skip(at - start + 2) =~= whole.skip(next as int));
                    }
                    match find_payload(self.buffer.as_slice(), start, next) {
                        None => {},
                        Some((from, to)) => {
                            if range_equals(self.buffer.as_slice(), from, to, "[DONE]") {
                                if policy == DonePolicy::EndStream {
                                    frames.push(Frame::Done);
                                    self.buffer = Vec::new();
                                    self.ended = true;
                                    assert(frame_views(frames@) =~= before + seq![FrameView::Done]);
                                    break ;
                                }
                            } else {
                                let payload = string_of(self.buffer.as_slice(), from, to);
                                frames.push(Frame::Payload(payload));
                                proof {
                                    let frame = FrameView::Payload(payload@);
                                    assert(frame_views(frames@) =~= before + seq![frame]);
                                    let more = scan(policy, whole.skip(next as int));
                                    assert(before + (seq![frame] + more.frames) =~= (before
                                        + seq![frame]) + more.frames);
                                }
                            }
                        },
                    }
                    start = next;
                },
            }
        }
        frames
    }
}

} // verus!
