//! The stream decoder: the state that the reader of a reply carries from
//! one received fragment to the next, and what each fragment adds to the
//! normalised stream.
//!
//! The caller owns the transport. It hands every fragment that arrives to
//! the decoder and passes the items that come back on, in their order.

use vstd::prelude::*;
use crate::assembler::{
    calls_where, completed, completeness, fragment_views, kept, lemma_kept_incomplete, merge_all,
    Assembler, EntryView,
};
use crate::chunk::{chunk_views, Chunk, ChunkView};
use crate::decode::{decode, error_message, read_error, Decoded, DecodedView};
use crate::error::{Error, ErrorView};
use crate::frames::{
    frame_views, lemma_fragmentation, DonePolicy, Frame, FrameSplitter, FrameView, SplitterView,
};
use crate::json::{json_parse, Json};
use crate::kind::ApiKind;

verus! {

/// One item of the normalised stream.
pub type ItemView = Result<ChunkView, ErrorView>;

/// The value of an item.
pub open spec fn item_view(item: Result<Chunk, Error>) -> ItemView {
    match item {
        Ok(chunk) => Ok(chunk@),
        Err(error) => Err(error@),
    }
}

/// The values of a sequence of items.
pub open spec fn item_views(items: Seq<Result<Chunk, Error>>) -> Seq<ItemView> {
    Seq::new(items.len(), |i: int| item_view(items[i]))
}

/// Chunks as items of the stream.
pub open spec fn delivered(chunks: Seq<ChunkView>) -> Seq<ItemView> {
    Seq::new(chunks.len(), |i: int| Ok(chunks[i]))
}

/// The text chunk of an event: none where the event carries no text.
pub open spec fn text_chunk(text: Seq<char>) -> Seq<ChunkView> {
    if text.len() > 0 {
        seq![ChunkView::Text(text)]
    } else {
        Seq::empty()
    }
}

/// What a decoded event does: its fragments are merged in order, every call
/// that is complete then leaves as a chunk, and the text follows.
pub open spec fn apply(tools: Seq<EntryView>, event: DecodedView) -> (
    Seq<EntryView>,
    Seq<ChunkView>,
) {
    let merged = merge_all(tools, event.fragments);
    (kept(merged), completed(merged) + text_chunk(event.text))
}

/// What the document of an event carries; `None` where the payload is no
/// JSON document or has not the shape of the wire family.
pub open spec fn payload_event(anthropic: bool, payload: Seq<char>) -> Option<DecodedView> {
    match json_parse(payload) {
        Some(doc) => decode(anthropic, doc),
        None => None,
    }
}

/// The message of a payload that is an error envelope of the wire family.
pub open spec fn payload_error(anthropic: bool, payload: Seq<char>) -> Option<Seq<char>> {
    match json_parse(payload) {
        Some(doc) => error_message(anthropic, doc),
        None => None,
    }
}

/// The error item of a payload: one where the payload is an error envelope,
/// none otherwise.
pub open spec fn envelope(anthropic: bool, payload: Seq<char>) -> Seq<ItemView> {
    match payload_error(anthropic, payload) {
        Some(message) => seq![Err(ErrorView::ResponseError(message))],
        None => Seq::empty(),
    }
}

/// What one payload does to the calls that are being assembled, and the
/// chunks that it yields. A payload that cannot be decoded changes nothing
/// and yields no chunk.
pub open spec fn payload_effect(anthropic: bool, tools: Seq<EntryView>, payload: Seq<char>) -> (
    Seq<EntryView>,
    Seq<ChunkView>,
) {
    match payload_event(anthropic, payload) {
        Some(event) => apply(tools, event),
        None => (tools, Seq::empty()),
    }
}

/// What one payload does, and the items that it adds to the stream: the
/// error item, where the payload is an error envelope, and then its chunks.
/// The two are read independently of each other.
pub open spec fn process_payload(anthropic: bool, tools: Seq<EntryView>, payload: Seq<char>) -> (
    Seq<EntryView>,
    Seq<ItemView>,
) {
    let effect = payload_effect(anthropic, tools, payload);
    (effect.0, envelope(anthropic, payload) + delivered(effect.1))
}

/// What a sequence of payloads does, taken in order.
pub open spec fn process_payloads(
    anthropic: bool,
    tools: Seq<EntryView>,
    payloads: Seq<Seq<char>>,
) -> (Seq<EntryView>, Seq<ItemView>)
    decreases payloads.len(),
{
    if payloads.len() == 0 {
        (tools, Seq::empty())
    } else {
        let before = process_payloads(anthropic, tools, payloads.drop_last());
        let last = process_payload(anthropic, before.0, payloads.last());
        (last.0, before.1 + last.1)
    }
}

/// The payloads among frames, in order.
pub open spec fn payloads_of(frames: Seq<FrameView>) -> Seq<Seq<char>>
    decreases frames.len(),
{
    if frames.len() == 0 {
        Seq::empty()
    } else {
        let before = payloads_of(frames.drop_last());
        match frames.last() {
            FrameView::Payload(payload) => before.push(payload),
            FrameView::Done => before,
        }
    }
}

/// The state of a stream decoder.
pub ghost struct DecoderView {
    /// The reply comes in the event family, not the delta family.
    pub anthropic: bool,
    pub splitter: SplitterView,
    pub tools: Seq<EntryView>,
}

impl DecoderView {
    /// The state after a fragment of text, and the items that the fragment
    /// adds to the stream: those of the payloads of the events that it
    /// completes, in order. Once the stream has ended a fragment changes and
    /// yields nothing.
    pub open spec fn feed(self, text: Seq<char>) -> (DecoderView, Seq<ItemView>) {
        if self.splitter.ended {
            (self, Seq::empty())
        } else {
            let (splitter, frames) = self.splitter.push(text);
            let (tools, items) = process_payloads(self.anthropic, self.tools, payloads_of(frames));
            (DecoderView { anthropic: self.anthropic, splitter, tools }, items)
        }
    }
}

/// Moves chunks to the end of a stream.
fn deliver(chunks: Vec<Chunk>, items: &mut Vec<Result<Chunk, Error>>)
    ensures
        item_views(final(items)@) == item_views(old(items)@) + delivered(chunk_views(chunks@)),
{
    let ghost start = item_views(items@);
    let ghost all = chunks@;
    assert(item_views(items@) =~= start + delivered(chunk_views(all.take(0))));
    for chunk in it: chunks
        invariant
            it.seq() == all,
            item_views(items@) == start + delivered(chunk_views(all.take(it.index() as int))),
    {
        let ghost before = item_views(items@);
        let ghost sent = chunk_views(all.take(it.index() as int));
        items.push(Ok(chunk));
        proof {
            assert(all.take(it.index() + 1) =~= all.take(it.index() as int).push(chunk));
            assert(item_views(items@) =~= before.push(Ok(chunk@)));
            assert(chunk_views(all.take(it.index() + 1)) =~= sent.push(chunk@));
            assert(delivered(sent.push(chunk@)) =~= delivered(sent).push(Ok(chunk@)));
            assert(before.push(Ok(chunk@)) =~= start + delivered(sent).push(Ok(chunk@)));
        }
    }
    assert(all.take(all.len() as int) =~= all);
}

/// Moves items to the end of a stream.
fn pass_on(more: Vec<Result<Chunk, Error>>, items: &mut Vec<Result<Chunk, Error>>)
    ensures
        item_views(final(items)@) == item_views(old(items)@) + item_views(more@),
{
    let ghost start = item_views(items@);
    let mut rest = more;
    items.append(&mut rest);
    assert(item_views(items@) =~= start + item_views(more@));
}

/// Lets a decoded event act on the tool calls that are being assembled and
/// returns the chunks that it yields.
pub fn apply_event(tools: &mut Assembler, event: Decoded) -> (chunks: Vec<Chunk>)
    ensures
        (final(tools)@, chunk_views(chunks@)) == apply(old(tools)@, event@),
        old(tools).wf() ==> final(tools).wf(),
{
    let ghost start = tools@;
    let ghost carried = event@;
    let Decoded { text, fragments } = event;
    let ghost pieces = fragment_views(fragments@);
    assert(pieces.take(0) =~= Seq::empty());
    for fragment in it: fragments
        invariant
            it.seq() == fragments@,
            pieces == fragment_views(fragments@),
            tools@ == merge_all(start, pieces.take(it.index() as int)),
            start == old(tools)@,
            old(tools).wf() ==> tools.wf(),
    {
        proof {
            assert(pieces.take(it.index() + 1).drop_last() =~= pieces.take(it.index() as int));
            assert(pieces.take(it.index() + 1).last() == fragment@);
        }
        tools.merge(fragment);
    }
    assert(pieces.take(pieces.len() as int) =~= pieces);
    let mut chunks = tools.drain();
    let ghost calls = chunk_views(chunks@);
    if text.as_str().unicode_len() > 0 {
        chunks.push(Chunk::Text(text));
        assert(chunk_views(chunks@) =~= calls + text_chunk(carried.text));
    } else {
        assert(chunk_views(chunks@) =~= calls + text_chunk(carried.text));
    }
    chunks
}

/// Reads one payload: gives its error item, where it is an error envelope,
/// lets what it carries act on the tool calls that are being assembled, and
/// gives the chunks that it yields.
pub fn process(anthropic: bool, tools: &mut Assembler, payload: &str) -> (items: Vec<
    Result<Chunk, Error>,
>)
    ensures
        (final(tools)@, item_views(items@)) == process_payload(anthropic, old(tools)@, payload@),
        old(tools).wf() ==> final(tools).wf(),
{
    let mut items: Vec<Result<Chunk, Error>> = Vec::new();
    assert(item_views(items@) =~= Seq::empty());
    match Json::parse(payload) {
        Some(doc) => {
            match read_error(anthropic, &doc) {
                Some(message) => {
                    items.push(Err(Error::ResponseError(message)));
                },
                None => {},
            }
            assert(item_views(items@) =~= envelope(anthropic, payload@));
            match Decoded::read(anthropic, &doc) {
                Some(event) => {
                    let chunks = apply_event(tools, event);
                    deliver(chunks, &mut items);
                },
                None => {
                    assert(item_views(items@) + delivered(Seq::<ChunkView>::empty())
                        =~= item_views(items@));
                },
            }
        },
        None => {
            assert(item_views(items@) + delivered(Seq::<ChunkView>::empty()) =~= item_views(
                items@,
            ));
        },
    }
    items
}

/// Decodes the reply to one request, fragment by fragment.
pub struct StreamDecoder {
    anthropic: bool,
    splitter: FrameSplitter,
    tools: Assembler,
}

impl View for StreamDecoder {
    type V = DecoderView;

    closed spec fn view(&self) -> DecoderView {
        DecoderView { anthropic: self.anthropic, splitter: self.splitter@, tools: self.tools@ }
    }
}

impl StreamDecoder {
    /// A decoder for the reply of a provider, before anything was received.
    pub fn new(kind: ApiKind, policy: DonePolicy) -> (r: Self)
        ensures
            r@ == (DecoderView {
                anthropic: kind.anthropic_family(),
                splitter: SplitterView { policy, buffer: Seq::empty(), ended: false },
                tools: Seq::empty(),
            }),
    {
        StreamDecoder {
            anthropic: kind.is_anthropic_standart(),
            splitter: FrameSplitter::new(policy),
            tools: Assembler::new(),
        }
    }

    /// Whether the end-of-stream marker has been read.
    pub fn is_finished(&self) -> (r: bool)
        ensures
            r == self@.splitter.ended,
    {
        self.splitter.is_ended()
    }

    /// The number of tool calls that wait for the rest of their arguments.
    pub fn pending(&self) -> (r: usize)
        ensures
            r == self@.tools.len(),
    {
        self.tools.len()
    }

    /// Receives the next fragment of the reply, as text, and returns the
    /// items that it adds to the stream.
    pub fn feed_text(&mut self, text: &str) -> (items: Vec<Result<Chunk, Error>>)
        ensures
            (final(self)@, item_views(items@)) == old(self)@.feed(text@),
    {
        let mut items: Vec<Result<Chunk, Error>> = Vec::new();
        assert(item_views(items@) =~= Seq::empty());
        if self.splitter.is_ended() {
            return items;
        }
        let anthropic = self.anthropic;
        let frames = self.splitter.push(text);
        let ghost start = old(self)@.tools;
        let ghost all = frame_views(frames@);
        let mut i: usize = 0;
        proof {
            assert(all.take(0) =~= Seq::empty());
        }
        while i < frames.len()
            invariant
                i <= frames@.len(),
                all == frame_views(frames@),
                self.anthropic == anthropic,
                self.splitter@ == old(self)@.splitter.push(text@).0,
                (self.tools@, item_views(items@)) == process_payloads(
                    anthropic,
                    start,
                    payloads_of(all.take(i as int)),
                ),
            decreases frames@.len() - i,
        {
            proof {
                assert(all.take(i + 1).drop_last() =~= all.take(i as int));
                assert(all.take(i + 1).last() == frames@[i as int]@);
            }
            match &frames[i] {
                Frame::Payload(payload) => {
                    let ghost earlier = payloads_of(all.take(i as int));
                    let more = process(anthropic, &mut self.tools, payload.as_str());
                    proof {
                        let now = payloads_of(all.take(i + 1));
                        assert(now == earlier.push(payload@));
                        assert(now.drop_last() =~= earlier);
                    }
                    pass_on(more, &mut items);
                },
                Frame::Done => {},
            }
            i += 1;
        }
        assert(all.take(i as int) =~= all);
        items
    }
}

/// The text of a UTF-8 byte string in which every ill-formed part is
/// replaced by U+FFFD, as std's `String::from_utf8_lossy` gives it.
pub uninterp spec fn utf8_lossy(bytes: Seq<u8>) -> Seq<char>;

/// `String::from_utf8_lossy` of std, as an owned string.
#[verifier::external_body]
fn decode_lossy(bytes: &[u8]) -> (r: String)
    ensures
        r@ == utf8_lossy(bytes@),
{
    String::from_utf8_lossy(bytes).into_owned()
}

impl StreamDecoder {
    /// Receives the next fragment of the reply, as the transport hands it
    /// over, and returns the items that it adds to the stream. The bytes of
    /// each fragment are read as UTF-8 on their own.
    pub fn feed(&mut self, bytes: &[u8]) -> (items: Vec<Result<Chunk, Error>>)
        ensures
            (final(self)@, item_views(items@)) == old(self)@.feed(utf8_lossy(bytes@)),
    {
        let text = decode_lossy(bytes);
        self.feed_text(text.as_str())
    }
}

/// Payloads taken in two runs do what they do taken in one.
pub proof fn lemma_process_concat(
    anthropic: bool,
    tools: Seq<EntryView>,
    first: Seq<Seq<char>>,
    second: Seq<Seq<char>>,
)
    ensures
        process_payloads(anthropic, tools, first + second) == ({
            let head = process_payloads(anthropic, tools, first);
            let tail = process_payloads(anthropic, head.0, second);
            (tail.0, head.1 + tail.1)
        }),
    decreases second.len(),
{
    let head = process_payloads(anthropic, tools, first);
    if second.len() == 0 {
        assert(first + second =~= first);
        assert(head.1 + Seq::<ItemView>::empty() =~= head.1);
    } else {
        let all = first + second;
        assert(all.drop_last() =~= first + second.drop_last());
        assert(all.last() == second.last());
        lemma_process_concat(anthropic, tools, first, second.drop_last());
        let mid = process_payloads(anthropic, head.0, second.drop_last());
        let last = process_payload(anthropic, mid.0, second.last());
        assert((head.1 + mid.1) + last.1 =~= head.1 + (mid.1 + last.1));
    }
}

/// The payloads among frames in a row are those of the first run followed
/// by those of the second.
pub proof fn lemma_payloads_concat(first: Seq<FrameView>, second: Seq<FrameView>)
    ensures
        payloads_of(first + second) == payloads_of(first) + payloads_of(second),
    decreases second.len(),
{
    if second.len() == 0 {
        assert(first + second =~= first);
        assert(payloads_of(first) + Seq::<Seq<char>>::empty() =~= payloads_of(first));
    } else {
        let all = first + second;
        assert(all.drop_last() =~= first + second.drop_last());
        assert(all.last() == second.last());
        lemma_payloads_concat(first, second.drop_last());
        match second.last() {
            FrameView::Payload(payload) => {
                assert((payloads_of(first) + payloads_of(second.drop_last())).push(payload)
                    =~= payloads_of(first) + payloads_of(second.drop_last()).push(payload));
            },
            FrameView::Done => {},
        }
    }
}

/// What a decoder yields does not depend on how the text of the reply was
/// cut into fragments: receiving `first` and then `second` yields the items,
/// and leads to the state, of receiving `first + second` at once.
pub proof fn lemma_feed_fragmentation(state: DecoderView, first: Seq<char>, second: Seq<char>)
    ensures
        state.feed(first + second) == (
            state.feed(first).0.feed(second).0,
            state.feed(first).1 + state.feed(first).0.feed(second).1,
        ),
{
    if state.splitter.ended {
        assert(Seq::<ItemView>::empty() + Seq::<ItemView>::empty() =~= Seq::<ItemView>::empty());
    } else {
        lemma_fragmentation(state.splitter, first, second);
        let one = state.splitter.push(first);
        let head = process_payloads(state.anthropic, state.tools, payloads_of(one.1));
        if one.0.ended {
            assert(one.1 + Seq::<FrameView>::empty() =~= one.1);
            assert(head.1 + Seq::<ItemView>::empty() =~= head.1);
        } else {
            let two = one.0.push(second);
            lemma_payloads_concat(one.1, two.1);
            lemma_process_concat(state.anthropic, state.tools, payloads_of(one.1), payloads_of(two.1));
        }
    }
}

/// The chunks among items, in order.
pub open spec fn chunks_of(items: Seq<ItemView>) -> Seq<ChunkView>
    decreases items.len(),
{
    if items.len() == 0 {
        Seq::empty()
    } else {
        let before = chunks_of(items.drop_last());
        match items.last() {
            Ok(chunk) => before.push(chunk),
            Err(_) => before,
        }
    }
}

/// The chunks among items in a row are those of the first run followed by
/// those of the second.
pub proof fn lemma_chunks_concat(first: Seq<ItemView>, second: Seq<ItemView>)
    ensures
        chunks_of(first + second) == chunks_of(first) + chunks_of(second),
    decreases second.len(),
{
    if second.len() == 0 {
        assert(first + second =~= first);
        assert(chunks_of(first) + Seq::<ChunkView>::empty() =~= chunks_of(first));
    } else {
        let all = first + second;
        assert(all.drop_last() =~= first + second.drop_last());
        assert(all.last() == second.last());
        lemma_chunks_concat(first, second.drop_last());
        match second.last() {
            Ok(chunk) => {
                assert((chunks_of(first) + chunks_of(second.drop_last())).push(chunk)
                    =~= chunks_of(first) + chunks_of(second.drop_last()).push(chunk));
            },
            Err(_) => {},
        }
    }
}

/// An error envelope holds no chunk.
pub proof fn lemma_envelope_holds_no_chunk(anthropic: bool, payload: Seq<char>)
    ensures
        chunks_of(envelope(anthropic, payload)) == Seq::<ChunkView>::empty(),
{
    let items = envelope(anthropic, payload);
    match payload_error(anthropic, payload) {
        Some(message) => {
            assert(items.len() == 1);
            assert(items.last() == Err::<ChunkView, ErrorView>(ErrorView::ResponseError(message)));
            assert(items.drop_last() =~= Seq::<ItemView>::empty());
            assert(chunks_of(items.drop_last()) =~= Seq::<ChunkView>::empty());
        },
        None => {},
    }
}

/// An error envelope carries no text.
pub proof fn lemma_envelope_carries_no_text(anthropic: bool, payload: Seq<char>)
    ensures
        reply_text(envelope(anthropic, payload)) == Seq::<char>::empty(),
{
    let items = envelope(anthropic, payload);
    match payload_error(anthropic, payload) {
        Some(message) => {
            assert(items.len() == 1);
            assert(items.last() == Err::<ChunkView, ErrorView>(ErrorView::ResponseError(message)));
            assert(items.drop_last() =~= Seq::<ItemView>::empty());
            assert(reply_text(items.drop_last()) =~= Seq::<char>::empty());
            assert(reply_text(items) =~= Seq::<char>::empty());
        },
        None => {},
    }
}

/// The chunks of a sequence of payloads are the chunks that the payloads
/// yield one after the other.
pub open spec fn chunks_yielded(
    anthropic: bool,
    tools: Seq<EntryView>,
    payloads: Seq<Seq<char>>,
) -> Seq<ChunkView> {
    chunks_of(process_payloads(anthropic, tools, payloads).1)
}

/// A payload that cannot be decoded, wherever it stands among others, does
/// not disturb them: the state is what it would be without it, and the
/// chunks of the others come out as they would without it, in the same
/// order. Unless it is an error envelope, it adds nothing to the stream at
/// all.
pub proof fn lemma_malformed_payload_dropped(
    anthropic: bool,
    tools: Seq<EntryView>,
    before: Seq<Seq<char>>,
    malformed: Seq<char>,
    after: Seq<Seq<char>>,
)
    requires
        payload_event(anthropic, malformed) is None,
    ensures
        process_payloads(anthropic, tools, before + seq![malformed] + after).0 == process_payloads(
            anthropic,
            tools,
            before + after,
        ).0,
        chunks_yielded(anthropic, tools, before + seq![malformed] + after) == chunks_yielded(
            anthropic,
            tools,
            before + after,
        ),
        payload_error(anthropic, malformed) is None ==> process_payloads(
            anthropic,
            tools,
            before + seq![malformed] + after,
        ) == process_payloads(anthropic, tools, before + after),
{
    let head = process_payloads(anthropic, tools, before);
    let one = seq![malformed];
    let error = envelope(anthropic, malformed);
    assert(one.drop_last() =~= Seq::<Seq<char>>::empty());
    assert(one.last() == malformed);
    assert(process_payloads(anthropic, head.0, one) == (head.0, error)) by {
        let none = process_payloads(anthropic, head.0, one.drop_last());
        assert(none == (head.0, Seq::<ItemView>::empty()));
        assert(payload_effect(anthropic, head.0, malformed) == (head.0, Seq::<ChunkView>::empty()));
        assert(delivered(Seq::<ChunkView>::empty()) =~= Seq::<ItemView>::empty());
        assert(error + Seq::<ItemView>::empty() =~= error);
        assert(process_payload(anthropic, head.0, malformed) == (head.0, error));
        assert(Seq::<ItemView>::empty() + error =~= error);
    }
    lemma_process_concat(anthropic, tools, before, one);
    lemma_process_concat(anthropic, tools, before + one, after);
    lemma_process_concat(anthropic, tools, before, after);
    let tail = process_payloads(anthropic, head.0, after);
    lemma_envelope_holds_no_chunk(anthropic, malformed);
    lemma_chunks_concat(head.1, error);
    lemma_chunks_concat(head.1 + error, tail.1);
    lemma_chunks_concat(head.1, tail.1);
    assert(chunks_of(head.1) + Seq::<ChunkView>::empty() =~= chunks_of(head.1));
    if payload_error(anthropic, malformed) is None {
        assert(head.1 + error =~= head.1);
    }
}

/// The text that items carry, in their order.
pub open spec fn reply_text(items: Seq<ItemView>) -> Seq<char>
    decreases items.len(),
{
    if items.len() == 0 {
        Seq::empty()
    } else {
        reply_text(items.drop_last()) + match items.last() {
            Ok(ChunkView::Text(text)) => text,
            _ => Seq::empty(),
        }
    }
}

/// The text that the provider sent in payloads, in their order: the text of
/// every payload that can be decoded.
pub open spec fn sent_text(anthropic: bool, payloads: Seq<Seq<char>>) -> Seq<char>
    decreases payloads.len(),
{
    if payloads.len() == 0 {
        Seq::empty()
    } else {
        sent_text(anthropic, payloads.drop_last()) + match payload_event(
            anthropic,
            payloads.last(),
        ) {
            Some(event) => event.text,
            None => Seq::empty(),
        }
    }
}

/// The text of items in a row is the text of the first run followed by
/// that of the second.
pub proof fn lemma_reply_text_concat(first: Seq<ItemView>, second: Seq<ItemView>)
    ensures
        reply_text(first + second) == reply_text(first) + reply_text(second),
    decreases second.len(),
{
    if second.len() == 0 {
        assert(first + second =~= first);
        assert(reply_text(first) + Seq::<char>::empty() =~= reply_text(first));
    } else {
        let all = first + second;
        assert(all.drop_last() =~= first + second.drop_last());
        assert(all.last() == second.last());
        lemma_reply_text_concat(first, second.drop_last());
        let tail = match second.last() {
            Ok(ChunkView::Text(text)) => text,
            _ => Seq::empty(),
        };
        assert((reply_text(first) + reply_text(second.drop_last())) + tail =~= reply_text(first)
            + (reply_text(second.drop_last()) + tail));
    }
}

/// Tool calls carry no text.
pub proof fn lemma_calls_carry_no_text(entries: Seq<EntryView>, done: Seq<bool>)
    ensures
        reply_text(delivered(calls_where(entries, done))) == Seq::<char>::empty(),
    decreases entries.len(),
{
    if entries.len() > 0 {
        lemma_calls_carry_no_text(entries.drop_last(), done.drop_last());
        let before = calls_where(entries.drop_last(), done.drop_last());
        if done.last() {
            let all = before.push(entries.last().chunk());
            assert(delivered(all).drop_last() =~= delivered(before));
            assert(reply_text(delivered(before)) + Seq::<char>::empty() =~= reply_text(
                delivered(before),
            ));
        }
    } else {
        assert(delivered(calls_where(entries, done)) =~= Seq::empty());
    }
}

/// The text chunks of a stream, put together in the order of delivery, are
/// the text that the provider sent, character for character.
pub proof fn lemma_text_round_trip(
    anthropic: bool,
    tools: Seq<EntryView>,
    payloads: Seq<Seq<char>>,
)
    ensures
        reply_text(process_payloads(anthropic, tools, payloads).1) == sent_text(
            anthropic,
            payloads,
        ),
    decreases payloads.len(),
{
    if payloads.len() > 0 {
        lemma_text_round_trip(anthropic, tools, payloads.drop_last());
        let before = process_payloads(anthropic, tools, payloads.drop_last());
        let last = process_payload(anthropic, before.0, payloads.last());
        let error = envelope(anthropic, payloads.last());
        let effect = payload_effect(anthropic, before.0, payloads.last());
        lemma_reply_text_concat(before.1, last.1);
        lemma_reply_text_concat(error, delivered(effect.1));
        lemma_envelope_carries_no_text(anthropic, payloads.last());
        match payload_event(anthropic, payloads.last()) {
            Some(event) => {
                let merged = merge_all(before.0, event.fragments);
                lemma_calls_carry_no_text(merged, completeness(merged));
                assert(delivered(completed(merged) + text_chunk(event.text)) =~= delivered(
                    completed(merged),
                ) + delivered(text_chunk(event.text)));
                lemma_reply_text_concat(
                    delivered(completed(merged)),
                    delivered(text_chunk(event.text)),
                );
                if event.text.len() > 0 {
                    let one = delivered(seq![ChunkView::Text(event.text)]);
                    assert(one.drop_last() =~= Seq::<ItemView>::empty());
                    assert(one.last() == Ok::<ChunkView, ErrorView>(ChunkView::Text(event.text)));
                    assert(reply_text(one.drop_last()) =~= Seq::<char>::empty());
                    assert(reply_text(one) == reply_text(one.drop_last()) + event.text);
                    assert(reply_text(one) =~= event.text);
                } else {
                    assert(event.text =~= Seq::<char>::empty());
                    assert(delivered(text_chunk(event.text)) =~= Seq::<ItemView>::empty());
                }
                assert(Seq::<char>::empty() + event.text =~= event.text);
            },
            None => {
                assert(delivered(effect.1) =~= Seq::<ItemView>::empty());
            },
        }
        assert(Seq::<char>::empty() + reply_text(delivered(effect.1)) =~= reply_text(
            delivered(effect.1),
        ));
    }
}

/// After an event no call that waits is complete: a call leaves with the
/// event that completes its arguments.
pub proof fn lemma_waiting_calls_incomplete(tools: Seq<EntryView>, event: DecodedView)
    ensures
        forall|k: int|
            0 <= k < apply(tools, event).0.len() ==> !(#[trigger] apply(tools, event).0[k]).complete(),
{
    lemma_kept_incomplete(merge_all(tools, event.fragments));
}

} // verus!
