//! The decoders of the two wire families. Each reads the document of one
//! event and gives the text and the tool-call fragments that the event
//! carries; a document of another shape is not decoded at all.

use vstd::prelude::*;
use crate::assembler::{fragment_views, Fragment, FragmentView};
use crate::json::{views, Json, JsonView};

verus! {

/// A member that a document may leave out.
#[derive(Debug, Clone, PartialEq, Eq)]
pub enum Field<T> {
    /// The member is there and has another type than the shape asks for.
    Invalid,
    /// The member is missing or `null`.
    Absent,
    /// The member is there.
    Present(T),
}

impl<T> Field<T> {
    /// The value of a member that is there.
    pub open spec fn option(self) -> Option<T> {
        match self {
            Field::Present(value) => Some(value),
            _ => None,
        }
    }
}

/// A text member that may be left out.
pub open spec fn optional_text(doc: JsonView, key: Seq<char>) -> Field<Seq<char>> {
    match doc.member(key) {
        None | Some(JsonView::Null) => Field::Absent,
        Some(JsonView::Text(text)) => Field::Present(text),
        Some(_) => Field::Invalid,
    }
}

/// A member that holds a non-negative integer and may be left out.
pub open spec fn optional_index(doc: JsonView, key: Seq<char>) -> Field<u64> {
    match doc.member(key) {
        None | Some(JsonView::Null) => Field::Absent,
        Some(JsonView::Number(crate::json::Number::PosInt(n))) => Field::Present(n),
        Some(_) => Field::Invalid,
    }
}

/// A text member that must be there.
pub open spec fn required_text(doc: JsonView, key: Seq<char>) -> Option<Seq<char>> {
    match doc.member(key) {
        Some(JsonView::Text(text)) => Some(text),
        _ => None,
    }
}

/// What one event carries: a piece of the reply's text, empty where it has
/// none, and fragments of tool calls.
#[derive(Debug, Clone, PartialEq, Eq)]
pub struct Decoded {
    pub text: String,
    pub fragments: Vec<Fragment>,
}

/// The mathematical value of what an event carries.
pub ghost struct DecodedView {
    pub text: Seq<char>,
    pub fragments: Seq<FragmentView>,
}

impl View for Decoded {
    type V = DecodedView;

    open spec fn view(&self) -> DecodedView {
        DecodedView { text: self.text@, fragments: fragment_views(self.fragments@) }
    }
}

impl DecodedView {
    /// An event that carries nothing.
    pub open spec fn empty() -> DecodedView {
        DecodedView { text: Seq::empty(), fragments: Seq::empty() }
    }

    /// What this event and then `next` carry together.
    pub open spec fn followed_by(self, next: DecodedView) -> DecodedView {
        DecodedView { text: self.text + next.text, fragments: self.fragments + next.fragments }
    }
}

/// The text of a member, the empty text where it is not there.
pub open spec fn text_or_empty(field: Field<Seq<char>>) -> Seq<char> {
    match field {
        Field::Present(text) => text,
        _ => Seq::empty(),
    }
}

// ---------------------------------------------------------------------------
// The delta family:
// {"choices":[{"delta":{"content"?: string,
//   "tool_calls"?: [{"index"?: int, "function"?: {"name"?: string, "arguments"?: string}}]}}]}
// ---------------------------------------------------------------------------
/// One item of `tool_calls`. It gives a fragment where it has both an index
/// and a function; the function's name and arguments may each be left out.
pub open spec fn tool_call(call: JsonView) -> Field<FragmentView> {
    if !(call is Object) {
        Field::Invalid
    } else {
        match (optional_index(call, "index"@), call.member("function"@)) {
            (Field::Invalid, _) => Field::Invalid,
            (_, None) | (_, Some(JsonView::Null)) => Field::Absent,
            (index, Some(function)) => if !(function is Object) {
                Field::Invalid
            } else {
                match (optional_text(function, "name"@), optional_text(function, "arguments"@)) {
                    (Field::Invalid, _) | (_, Field::Invalid) => Field::Invalid,
                    (name, arguments) => match index {
                        Field::Present(index) => Field::Present(
                            FragmentView {
                                index,
                                name: name.option(),
                                arguments: arguments.option(),
                            },
                        ),
                        _ => Field::Absent,
                    },
                }
            },
        }
    }
}

/// Every item of `tool_calls` has the shape of one.
pub open spec fn tool_calls_valid(calls: Seq<JsonView>) -> bool {
    forall|i: int| 0 <= i < calls.len() ==> !(#[trigger] tool_call(calls[i]) is Invalid)
}

/// The fragments that the items of `tool_calls` give, in order.
pub open spec fn tool_call_fragments(calls: Seq<JsonView>) -> Seq<FragmentView>
    decreases calls.len(),
{
    if calls.len() == 0 {
        Seq::empty()
    } else {
        let before = tool_call_fragments(calls.drop_last());
        match tool_call(calls.last()) {
            Field::Present(fragment) => before.push(fragment),
            _ => before,
        }
    }
}

/// The fragments of a delta; `None` where `tool_calls` has another shape.
pub open spec fn delta_fragments(delta: JsonView) -> Option<Seq<FragmentView>> {
    match delta.member("tool_calls"@) {
        None | Some(JsonView::Null) => Some(Seq::empty()),
        Some(JsonView::Array(calls)) => if tool_calls_valid(calls) {
            Some(tool_call_fragments(calls))
        } else {
            None
        },
        Some(_) => None,
    }
}

/// What one choice carries; `None` where it has another shape.
pub open spec fn choice(choice: JsonView) -> Option<DecodedView> {
    match choice.member("delta"@) {
        Some(delta) => if !(delta is Object) {
            None
        } else {
            match (optional_text(delta, "content"@), delta_fragments(delta)) {
                (Field::Invalid, _) | (_, None) => None,
                (content, Some(fragments)) => Some(
                    DecodedView { text: text_or_empty(content), fragments },
                ),
            }
        },
        None => None,
    }
}

/// Every choice has the shape of one.
pub open spec fn choices_valid(choices: Seq<JsonView>) -> bool {
    forall|i: int| 0 <= i < choices.len() ==> (#[trigger] choice(choices[i])) is Some
}

/// What the choices carry together, in order.
pub open spec fn choices_content(choices: Seq<JsonView>) -> DecodedView
    decreases choices.len(),
{
    if choices.len() == 0 {
        DecodedView::empty()
    } else {
        let before = choices_content(choices.drop_last());
        match choice(choices.last()) {
            Some(last) => before.followed_by(last),
            None => before,
        }
    }
}

/// What an event of the delta family carries; `None` where the document has
/// another shape.
pub open spec fn decode_delta(doc: JsonView) -> Option<DecodedView> {
    match doc.member("choices"@) {
        Some(JsonView::Array(choices)) => if choices_valid(choices) {
            Some(choices_content(choices))
        } else {
            None
        },
        _ => None,
    }
}

// ---------------------------------------------------------------------------
// The event family:
// {"type": string, "index"?: int,
//  "delta"?: {"type": string, "text"?: string, "partial_json"?: string},
//  "content_block"?: {"type": string, "name": string}}
// ---------------------------------------------------------------------------
/// The delta of a typed event.
pub ghost struct EventDelta {
    pub kind: Seq<char>,
    pub text: Field<Seq<char>>,
    pub partial_json: Field<Seq<char>>,
}

/// The content block of a typed event.
pub ghost struct ContentBlock {
    pub kind: Seq<char>,
    pub name: Seq<char>,
}

/// The member `delta` of a typed event.
pub open spec fn event_delta(doc: JsonView) -> Field<EventDelta> {
    match doc.member("delta"@) {
        None | Some(JsonView::Null) => Field::Absent,
        Some(delta) => match (
            required_text(delta, "type"@),
            optional_text(delta, "text"@),
            optional_text(delta, "partial_json"@),
        ) {
            (None, _, _) | (_, Field::Invalid, _) | (_, _, Field::Invalid) => Field::Invalid,
            (Some(kind), text, partial_json) => Field::Present(
                EventDelta { kind, text, partial_json },
            ),
        },
    }
}

/// The member `content_block` of a typed event.
pub open spec fn content_block(doc: JsonView) -> Field<ContentBlock> {
    match doc.member("content_block"@) {
        None | Some(JsonView::Null) => Field::Absent,
        Some(block) => match (required_text(block, "type"@), required_text(block, "name"@)) {
            (Some(kind), Some(name)) => Field::Present(ContentBlock { kind, name }),
            _ => Field::Invalid,
        },
    }
}

/// A fragment that names the call at `index` and carries nothing.
pub open spec fn mention(index: u64) -> FragmentView {
    FragmentView { index, name: None, arguments: None }
}

/// What a `content_block_delta` event carries. It speaks of the call at its
/// index, the call 0 where it has none; a text delta carries text, a JSON
/// delta a piece of that call's arguments.
pub open spec fn block_delta(index: Field<u64>, delta: Field<EventDelta>) -> DecodedView {
    let at = match index {
        Field::Present(index) => index,
        _ => 0,
    };
    match delta {
        Field::Present(delta) => if delta.kind == "text_delta"@ {
            DecodedView { text: text_or_empty(delta.text), fragments: seq![mention(at)] }
        } else if delta.kind == "input_json_delta"@ {
            DecodedView {
                text: Seq::empty(),
                fragments: seq![
                    FragmentView { index: at, name: None, arguments: delta.partial_json.option() },
                ],
            }
        } else {
            DecodedView { text: Seq::empty(), fragments: seq![mention(at)] }
        },
        _ => DecodedView { text: Seq::empty(), fragments: seq![mention(at)] },
    }
}

/// What a `content_block_start` event carries: the name of the tool, where
/// the block is a tool use with an index and a name that is not empty.
pub open spec fn block_start(index: Field<u64>, block: Field<ContentBlock>) -> DecodedView {
    match (index, block) {
        (Field::Present(index), Field::Present(block)) => if block.kind == "tool_use"@
            && block.name.len() > 0 {
            DecodedView {
                text: Seq::empty(),
                fragments: seq![FragmentView { index, name: Some(block.name), arguments: None }],
            }
        } else {
            DecodedView::empty()
        },
        _ => DecodedView::empty(),
    }
}

/// What an event of the event family carries; `None` where the document has
/// another shape. Events of other kinds than the two above carry nothing.
pub open spec fn decode_event(doc: JsonView) -> Option<DecodedView> {
    match (
        required_text(doc, "type"@),
        optional_index(doc, "index"@),
        event_delta(doc),
        content_block(doc),
    ) {
        (None, _, _, _) | (_, Field::Invalid, _, _) | (_, _, Field::Invalid, _) | (
            _,
            _,
            _,
            Field::Invalid,
        ) => None,
        (Some(kind), index, delta, block) => Some(
            if kind == "content_block_delta"@ {
                block_delta(index, delta)
            } else if kind == "content_block_start"@ {
                block_start(index, block)
            } else {
                DecodedView::empty()
            },
        ),
    }
}

/// What an event carries in the given wire family.
pub open spec fn decode(anthropic: bool, doc: JsonView) -> Option<DecodedView> {
    if anthropic {
        decode_event(doc)
    } else {
        decode_delta(doc)
    }
}

// ---------------------------------------------------------------------------
// Error envelopes: {"error": string} and {"error": {"message": string}}
// ---------------------------------------------------------------------------
/// The message of an error envelope; `None` for a document that is none.
pub open spec fn error_message(anthropic: bool, doc: JsonView) -> Option<Seq<char>> {
    if anthropic {
        match doc.member("error"@) {
            Some(error) => required_text(error, "message"@),
            None => None,
        }
    } else {
        required_text(doc, "error"@)
    }
}

// ---------------------------------------------------------------------------
// Reading
// ---------------------------------------------------------------------------
/// Whether a member that was read stands for `field`.
pub open spec fn reads_text(read: Field<&String>, field: Field<Seq<char>>) -> bool {
    match read {
        Field::Invalid => field is Invalid,
        Field::Absent => field is Absent,
        Field::Present(text) => field == Field::Present(text@),
    }
}

/// Whether a fragment that was read stands for `field`.
pub open spec fn reads_fragment(read: Field<Fragment>, field: Field<FragmentView>) -> bool {
    match read {
        Field::Invalid => field is Invalid,
        Field::Absent => field is Absent,
        Field::Present(fragment) => field == Field::Present(fragment@),
    }
}

/// Whether what was read of an event stands for `decoded`.
pub open spec fn reads_decoded(read: Option<Decoded>, decoded: Option<DecodedView>) -> bool {
    match read {
        Some(d) => decoded == Some(d@),
        None => decoded is None,
    }
}

/// Reads a text member that may be left out.
pub fn text_member<'a>(doc: &'a Json, key: &str) -> (r: Field<&'a String>)
    ensures
        reads_text(r, optional_text(doc@, key@)),
{
    match doc.get(key) {
        None => Field::Absent,
        Some(value) => {
            if value.is_null() {
                Field::Absent
            } else {
                match value.as_text() {
                    Some(text) => Field::Present(text),
                    None => Field::Invalid,
                }
            }
        },
    }
}

/// Reads a member that holds a non-negative integer and may be left out.
pub fn index_member(doc: &Json, key: &str) -> (r: Field<u64>)
    ensures
        r == optional_index(doc@, key@),
{
    match doc.get(key) {
        None => Field::Absent,
        Some(value) => {
            if value.is_null() {
                Field::Absent
            } else {
                match value.as_u64() {
                    Some(n) => Field::Present(n),
                    None => Field::Invalid,
                }
            }
        },
    }
}

/// Reads a text member that must be there.
pub fn text_of<'a>(doc: &'a Json, key: &str) -> (r: Option<&'a String>)
    ensures
        match r {
            Some(text) => required_text(doc@, key@) == Some(text@),
            None => required_text(doc@, key@) is None,
        },
{
    match doc.get(key) {
        None => None,
        Some(value) => value.as_text(),
    }
}

/// A copy of the text of a member, where it is there.
fn owned(field: Field<&String>) -> (r: Option<String>)
    ensures
        match r {
            Some(text) => field matches Field::Present(t) && t@ == text@,
            None => !(field is Present),
        },
{
    match field {
        Field::Present(text) => Some(text.clone()),
        _ => None,
    }
}

/// Reads one item of `tool_calls`.
pub fn read_tool_call(call: &Json) -> (r: Field<Fragment>)
    ensures
        reads_fragment(r, tool_call(call@)),
{
    if !call.is_object() {
        return Field::Invalid;
    }
    let index = index_member(call, "index");
    if let Field::Invalid = index {
        return Field::Invalid;
    }
    match call.get("function") {
        None => Field::Absent,
        Some(function) => {
            if function.is_null() {
                return Field::Absent;
            }
            if !function.is_object() {
                return Field::Invalid;
            }
            let name = text_member(function, "name");
            if let Field::Invalid = name {
                return Field::Invalid;
            }
            let arguments = text_member(function, "arguments");
            if let Field::Invalid = arguments {
                return Field::Invalid;
            }
            match index {
                Field::Present(index) => Field::Present(
                    Fragment { index, name: owned(name), arguments: owned(arguments) },
                ),
                _ => Field::Absent,
            }
        },
    }
}

/// Reads the fragments of a delta.
pub fn read_delta_fragments(delta: &Json) -> (r: Option<Vec<Fragment>>)
    ensures
        match r {
            Some(fragments) => delta_fragments(delta@) == Some(fragment_views(fragments@)),
            None => delta_fragments(delta@) is None,
        },
{
    let mut fragments: Vec<Fragment> = Vec::new();
    match delta.get("tool_calls") {
        None => {
            assert(fragment_views(fragments@) =~= Seq::empty());
            Some(fragments)
        },
        Some(value) => {
            if value.is_null() {
                assert(fragment_views(fragments@) =~= Seq::empty());
                return Some(fragments);
            }
            match value.as_array() {
                None => None,
                Some(calls) => {
                    let ghost all = views(calls@);
                    let mut i: usize = 0;
                    assert(fragment_views(fragments@) =~= tool_call_fragments(all.take(0)));
                    while i < calls.len()
                        invariant
                            i <= calls@.len(),
                            all == views(calls@),
                            delta@.member("tool_calls"@) == Some(JsonView::Array(all)),
                            forall|j: int| 0 <= j < i ==> !(#[trigger] tool_call(all[j]) is Invalid),
                            fragment_views(fragments@) == tool_call_fragments(all.take(i as int)),
                        decreases calls@.len() - i,
                    {
                        let ghost before = fragment_views(fragments@);
                        proof {
                            assert(all.take(i + 1).drop_last() =~= all.take(i as int));
                            assert(all.take(i + 1).last() == calls@[i as int]@);
                            assert(all[i as int] == calls@[i as int]@);
                        }
                        match read_tool_call(&calls[i]) {
                            Field::Invalid => {
                                assert(tool_call(all[i as int]) is Invalid);
                                return None;
                            },
                            Field::Absent => {},
                            Field::Present(fragment) => {
                                fragments.push(fragment);
                                assert(fragment_views(fragments@) =~= before.push(fragment@));
                            },
                        }
                        i += 1;
                    }
                    assert(all.take(i as int) =~= all);
                    Some(fragments)
                },
            }
        },
    }
}

/// Reads one choice.
pub fn read_choice(choice_doc: &Json) -> (r: Option<Decoded>)
    ensures
        reads_decoded(r, choice(choice_doc@)),
{
    match choice_doc.get("delta") {
        None => None,
        Some(delta) => {
            if !delta.is_object() {
                return None;
            }
            let content = text_member(delta, "content");
            if let Field::Invalid = content {
                return None;
            }
            match read_delta_fragments(delta) {
                None => None,
                Some(fragments) => {
                    let text = match content {
                        Field::Present(text) => text.clone(),
                        _ => String::new(),
                    };
                    Some(Decoded { text, fragments })
                },
            }
        },
    }
}

impl Decoded {
    /// Reads an event of the delta family.
    pub fn from_delta(doc: &Json) -> (r: Option<Decoded>)
        ensures
            reads_decoded(r, decode_delta(doc@)),
    {
        match doc.get("choices") {
            None => None,
            Some(value) => match value.as_array() {
                None => None,
                Some(choices) => {
                    let ghost all = views(choices@);
                    let mut text = String::new();
                    let mut fragments: Vec<Fragment> = Vec::new();
                    let mut i: usize = 0;
                    assert(fragment_views(fragments@) =~= Seq::empty());
                    assert(all.take(0) =~= Seq::empty());
                    while i < choices.len()
                        invariant
                            i <= choices@.len(),
                            all == views(choices@),
                            doc@.member("choices"@) == Some(JsonView::Array(all)),
                            forall|j: int| 0 <= j < i ==> (#[trigger] choice(all[j])) is Some,
                            (DecodedView { text: text@, fragments: fragment_views(fragments@) })
                                == choices_content(all.take(i as int)),
                        decreases choices@.len() - i,
                    {
                        let ghost before = DecodedView {
                            text: text@,
                            fragments: fragment_views(fragments@),
                        };
                        proof {
                            assert(all.take(i + 1).drop_last() =~= all.take(i as int));
                            assert(all.take(i + 1).last() == choices@[i as int]@);
                            assert(all[i as int] == choices@[i as int]@);
                        }
                        match read_choice(&choices[i]) {
                            None => {
                                assert(choice(all[i as int]) is None);
                                return None;
                            },
                            Some(one) => {
                                let ghost carried = one@;
                                let Decoded { text: piece, fragments: mut more } = one;
                                text.append(piece.as_str());
                                fragments.append(&mut more);
                                assert(fragment_views(fragments@) =~= before.fragments
                                    + carried.fragments);
                            },
                        }
                        i += 1;
                    }
                    assert(all.take(i as int) =~= all);
                    Some(Decoded { text, fragments })
                },
            },
        }
    }

    /// Reads an event of the event family.
    pub fn from_event(doc: &Json) -> (r: Option<Decoded>)
        ensures
            reads_decoded(r, decode_event(doc@)),
    {
        let kind = match text_of(doc, "type") {
            None => {
                return None;
            },
            Some(kind) => kind,
        };
        let index = index_member(doc, "index");
        if let Field::Invalid = index {
            return None;
        }
        // the member `delta`
        let mut delta_kind: Option<&String> = None;
        let mut delta_text: Field<&String> = Field::Absent;
        let mut delta_json: Field<&String> = Field::Absent;
        match doc.get("delta") {
            None => {},
            Some(delta) => {
                if !delta.is_null() {
                    match text_of(delta, "type") {
                        None => {
                            return None;
                        },
                        Some(k) => {
                            delta_kind = Some(k);
                        },
                    }
                    delta_text = text_member(delta, "text");
                    if let Field::Invalid = delta_text {
                        return None;
                    }
                    delta_json = text_member(delta, "partial_json");
                    if let Field::Invalid = delta_json {
                        return None;
                    }
                }
            },
        }
        // the member `content_block`
        let mut block: Option<(&String, &String)> = None;
        match doc.get("content_block") {
            None => {},
            Some(b) => {
                if !b.is_null() {
                    match (text_of(b, "type"), text_of(b, "name")) {
                        (Some(k), Some(n)) => {
                            block = Some((k, n));
                        },
                        _ => {
                            return None;
                        },
                    }
                }
            },
        }
        let mut text = String::new();
        let mut fragments: Vec<Fragment> = Vec::new();
        if kind.as_str().eq("content_block_delta") {
            let at = match index {
                Field::Present(index) => index,
                _ => 0,
            };
            let mut arguments: Option<String> = None;
            match delta_kind {
                Some(k) => {
                    if k.as_str().eq("text_delta") {
                        if let Field::Present(piece) = delta_text {
                            text = piece.clone();
                        }
                    } else if k.as_str().eq("input_json_delta") {
                        arguments = owned(delta_json);
                    }
                },
                None => {},
            }
            fragments.push(Fragment { index: at, name: None, arguments });
            assert(fragment_views(fragments@) =~= seq![fragments@[0]@]);
        } else if kind.as_str().eq("content_block_start") {
            match (index, block) {
                (Field::Present(index), Some((k, name))) => {
                    if k.as_str().eq("tool_use") && name.as_str().unicode_len() > 0 {
                        fragments.push(
                            Fragment { index, name: Some(name.clone()), arguments: None },
                        );
                        assert(fragment_views(fragments@) =~= seq![fragments@[0]@]);
                    } else {
                        assert(fragment_views(fragments@) =~= Seq::empty());
                    }
                },
                _ => {
                    assert(fragment_views(fragments@) =~= Seq::empty());
                },
            }
        } else {
            assert(fragment_views(fragments@) =~= Seq::empty());
        }
        Some(Decoded { text, fragments })
    }

    /// Reads an event in the given wire family.
    pub fn read(anthropic: bool, doc: &Json) -> (r: Option<Decoded>)
        ensures
            reads_decoded(r, decode(anthropic, doc@)),
    {
        if anthropic {
            Decoded::from_event(doc)
        } else {
            Decoded::from_delta(doc)
        }
    }
}

/// Reads the message of an error envelope.
pub fn read_error(anthropic: bool, doc: &Json) -> (r: Option<String>)
    ensures
        match r {
            Some(message) => error_message(anthropic, doc@) == Some(message@),
            None => error_message(anthropic, doc@) is None,
        },
{
    let found = if anthropic {
        match doc.get("error") {
            Some(error) => text_of(error, "message"),
            None => None,
        }
    } else {
        text_of(doc, "error")
    };
    match found {
        Some(message) => Some(message.clone()),
        None => None,
    }
}

} // verus!
