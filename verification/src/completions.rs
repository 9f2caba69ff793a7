//! The chat-completions request: its state, the builders that fill it, and
//! what is sent for it.

use vstd::prelude::*;
use crate::budget::{evict, exhausted, system_messages, total_cost, trim};
use crate::content::{
    content_cost, content_of, content_views, option_view, read_content, take_member, take_members,
    Content,
    ContentErrorView, ContentFields, ContentView,
};
use crate::error::{Error, ErrorView};
use crate::json::{integer_number, member_views, views, Json, JsonView, Number};
use crate::kind::ApiKind;
use crate::message::Message;
use crate::role::Role;
use crate::schema::{optional_member, put_optional, schema_doc, Schema};
use crate::tool::{tool_doc, Tool};

verus! {

/// The temperature of a new request: 0.7 in single precision, as the bits
/// of the double that it widens to.
pub const DEFAULT_TEMPERATURE: u64 = 0x3FE6_6666_6000_0000;

/// The version that a request of the event family names where none is set.
pub const DEFAULT_VERSION: &'static str = "2023-06-01";

/// The server of a local model.
pub const LOCAL_SERVER: &'static str = "http://127.0.0.1:1234";

/// The LM API chat completions request
#[derive(Debug, Clone, PartialEq, Eq)]
pub struct Completions {
    /// The API standart
    pub api_kind: ApiKind,
    /// The API version
    pub api_version: Option<String>,
    /// The API authorization key
    pub api_key: String,
    /// The custom server host
    pub server: Option<String>,
    /// The AI model name
    pub model: String,
    /// The request messages
    pub messages: Vec<Message>,
    /// The maximum tokens count; none where it is not positive
    pub max_tokens: i32,
    /// The AI generation temperature
    pub temperature: Number,
    /// The response schema
    pub schema: Option<Schema>,
    /// The tool calls
    pub tools: Vec<Tool>,
    /// The summary tokens count
    pub tokens_count: usize,
}

/// What is sent for a request.
#[derive(Debug, PartialEq, Eq)]
pub struct Request {
    pub url: String,
    /// The headers, each a name and a value.
    pub headers: Vec<(String, String)>,
    pub body: Json,
}

/// The values of a list of pairs of texts.
pub open spec fn pair_views(pairs: Seq<(String, String)>) -> Seq<(Seq<char>, Seq<char>)> {
    Seq::new(pairs.len(), |i: int| (pairs[i].0@, pairs[i].1@))
}

/// The document of one part of a message.
pub open spec fn content_doc(content: ContentView) -> JsonView {
    match content {
        ContentView::Text { text } => JsonView::Object(
            seq![("type"@, JsonView::Text("text"@)), ("text"@, JsonView::Text(text))],
        ),
        ContentView::Image { url, detail } => JsonView::Object(
            seq![
                ("type"@, JsonView::Text("image_url"@)),
                ("image_url"@, JsonView::Object(seq![("url"@, JsonView::Text(url))])),
            ] + optional_member(
                "detail"@,
                match detail {
                    Some(level) => Some(JsonView::Text(level)),
                    None => None,
                },
            ),
        ),
    }
}

/// A part is read back from its document as it was.
pub proof fn lemma_content_round_trip(content: ContentView)
    ensures
        read_content(content_doc(content)) == Ok::<ContentView, ContentErrorView>(content),
{
    reveal_strlit("type");
    reveal_strlit("text");
    reveal_strlit("image_url");
    reveal_strlit("detail");
    reveal_strlit("url");
    let none = ContentFields { kind: None, text: None, url: None, detail: None };
    let members = content_doc(content)->Object_0;
    assert("type"@[1] != "text"@[1]);
    assert("type"@.len() == 4 && "text"@.len() == 4 && "image_url"@.len() == 9);
    assert("detail"@.len() == 6 && "url"@.len() == 3);
    match content {
        ContentView::Text { text } => {
            let first = members.drop_last();
            assert(first.drop_last() =~= Seq::empty());
            assert(take_members(first.drop_last()) == Ok::<ContentFields, ContentErrorView>(none));
            assert(first.last() == ("type"@, JsonView::Text("text"@)));
            let one = ContentFields { kind: Some("text"@), ..none };
            assert(take_member(none, "type"@, JsonView::Text("text"@)) == Ok::<
                ContentFields,
                ContentErrorView,
            >(one));
            assert(take_members(first) == Ok::<ContentFields, ContentErrorView>(one));
            assert(members.last() == ("text"@, JsonView::Text(text)));
            assert("text"@ != "type"@);
            let two = ContentFields { text: Some(text), ..one };
            assert(take_member(one, "text"@, JsonView::Text(text)) == Ok::<
                ContentFields,
                ContentErrorView,
            >(two));
            assert(members.drop_last() =~= first);
            assert(take_members(members) == Ok::<ContentFields, ContentErrorView>(two));
            assert(content_of(two) == Ok::<ContentView, ContentErrorView>(content));
            assert(content_doc(content) == JsonView::Object(members));
            assert(read_content(JsonView::Object(members)) == content_of(two));
        },
        ContentView::Image { url, detail } => {
            let image = JsonView::Object(seq![("url"@, JsonView::Text(url))]);
            assert(image.member("url"@) == Some(JsonView::Text(url))) by {
                reveal_with_fuel(crate::json::lookup, 2);
            }
            let one = ContentFields { kind: Some("image_url"@), ..none };
            let two = ContentFields { url: Some(url), ..one };
            let head = seq![("type"@, JsonView::Text("image_url"@)), ("image_url"@, image)];
            let first = head.drop_last();
            assert(first.drop_last() =~= Seq::empty());
            assert(take_members(first.drop_last()) == Ok::<ContentFields, ContentErrorView>(none));
            assert(first.last() == ("type"@, JsonView::Text("image_url"@)));
            assert(take_members(first) == Ok::<ContentFields, ContentErrorView>(one));
            assert(head.last() == ("image_url"@, image));
            assert(take_members(head) == Ok::<ContentFields, ContentErrorView>(two));
            match detail {
                Some(level) => {
                    assert(members.drop_last() =~= head);
                    assert(members.last() == ("detail"@, JsonView::Text(level)));
                    let three = ContentFields { detail: Some(level), ..two };
                    assert("detail"@ != "type"@);
                    assert("detail"@ != "text"@);
                    assert("detail"@ != "image_url"@);
                    assert(take_member(two, "detail"@, JsonView::Text(level)) == Ok::<
                        ContentFields,
                        ContentErrorView,
                    >(three));
                    assert(take_members(members) == Ok::<ContentFields, ContentErrorView>(three));
                    assert("image_url"@ != "text"@);
                    assert(content_of(three) == Ok::<ContentView, ContentErrorView>(content));
                    assert(content_doc(content) == JsonView::Object(members));
                },
                None => {
                    assert(members =~= head);
                    assert("image_url"@ != "text"@);
                    assert(content_of(two) == Ok::<ContentView, ContentErrorView>(content));
                    assert(content_doc(content) == JsonView::Object(members));
                },
            }
        },
    }
}

/// The documents of the parts of a message.
pub open spec fn content_docs(content: Seq<Content>) -> Seq<JsonView> {
    Seq::new(content.len(), |i: int| content_doc(content[i]@))
}

/// The document of a message: its role and its parts. The cached token cost
/// is not part of it.
pub open spec fn message_doc(message: Message) -> JsonView {
    JsonView::Object(
        seq![
            ("role"@, JsonView::Text(message.role.name())),
            ("content"@, JsonView::Array(content_docs(message.content@))),
        ],
    )
}

/// The documents of messages.
pub open spec fn message_docs(messages: Seq<Message>) -> Seq<JsonView> {
    Seq::new(messages.len(), |i: int| message_doc(messages[i]))
}

/// The definitions of tools in a wire family.
pub open spec fn tool_docs(anthropic: bool, tools: Seq<Tool>) -> Seq<JsonView> {
    Seq::new(tools.len(), |i: int| tool_doc(anthropic, tools[i]))
}

/// The member that asks for a structured reply: `response_format` with a
/// strict JSON schema in the delta family, `output_config` with a format in
/// the event family.
pub open spec fn schema_member(anthropic: bool, schema: Schema) -> (Seq<char>, JsonView) {
    if anthropic {
        (
            "output_config"@,
            JsonView::Object(
                seq![
                    (
                        "format"@,
                        JsonView::Object(
                            seq![
                                ("type"@, JsonView::Text("json_schema"@)),
                                ("schema"@, schema_doc(schema)),
                            ],
                        ),
                    ),
                ],
            ),
        )
    } else {
        (
            "response_format"@,
            JsonView::Object(
                seq![
                    ("type"@, JsonView::Text("json_schema"@)),
                    (
                        "json_schema"@,
                        JsonView::Object(
                            seq![("schema"@, schema_doc(schema)), ("strict"@, JsonView::Bool(true))],
                        ),
                    ),
                ],
            ),
        )
    }
}

/// The headers of a request: the two that say what is sent and what is
/// awaited, then the key. The delta family takes the key as a bearer token;
/// the event family takes it in a header of its own and names a version.
pub open spec fn header_list(request: Completions) -> Seq<(Seq<char>, Seq<char>)> {
    seq![
        ("content-type"@, "application/json"@),
        ("accept"@, "text/event-stream"@),
    ] + if request.api_kind.anthropic_family() {
        seq![
            ("x-api-key"@, request.api_key@),
            (
                "anthropic-version"@,
                match request.api_version {
                    Some(version) => version@,
                    None => DEFAULT_VERSION@,
                },
            ),
        ]
    } else {
        seq![("authorization"@, "Bearer "@ + request.api_key@)]
    }
}

/// The address of a request: the completions path of the provider, on the
/// custom server where one is set and on the provider's host otherwise.
pub open spec fn request_url(request: Completions) -> Seq<char> {
    match request.server {
        Some(server) => server@ + "/"@ + request.api_kind.completions_path(),
        None => request.api_kind.host_text() + "/"@ + request.api_kind.completions_path(),
    }
}

/// The body of a request with the given messages. It always asks for a
/// stream; the schema and the tools are written only where they are set.
pub open spec fn request_doc(request: Completions, messages: Seq<Message>) -> JsonView {
    let anthropic = request.api_kind.anthropic_family();
    JsonView::Object(
        seq![
            ("model"@, JsonView::Text(request.model@)),
            ("messages"@, JsonView::Array(message_docs(messages))),
            ("max_tokens"@, JsonView::Number(integer_number(request.max_tokens as i64))),
            ("temperature"@, JsonView::Number(request.temperature)),
            ("stream"@, JsonView::Bool(true)),
        ] + (if request.schema is Some {
            seq![schema_member(anthropic, request.schema->0)]
        } else {
            Seq::empty()
        }) + (if request.tools@.len() > 0 {
            seq![("tools"@, JsonView::Array(tool_docs(anthropic, request.tools@)))]
        } else {
            Seq::empty()
        }),
    )
}

/// The document of one part of a message.
pub fn content_json(content: &Content) -> (r: Json)
    ensures
        r@ == content_doc(content@),
{
    let mut members: Vec<(String, Json)> = Vec::new();
    assert(member_views(members@) =~= Seq::empty());
    match content {
        Content::Text { text } => {
            Json::put(&mut members, "type", Json::text("text"));
            Json::put(&mut members, "text", Json::text(text.as_str()));
            assert(member_views(members@) =~= seq![
                ("type"@, JsonView::Text("text"@)),
                ("text"@, JsonView::Text(text@)),
            ]);
        },
        Content::Image { image, detail } => {
            let mut inner: Vec<(String, Json)> = Vec::new();
            assert(member_views(inner@) =~= Seq::empty());
            Json::put(&mut inner, "url", Json::text(image.url.as_str()));
            assert(member_views(inner@) =~= seq![("url"@, JsonView::Text(image.url@))]);
            Json::put(&mut members, "type", Json::text("image_url"));
            Json::put(&mut members, "image_url", Json::object(inner));
            assert(member_views(members@) =~= seq![
                ("type"@, JsonView::Text("image_url"@)),
                ("image_url"@, JsonView::Object(seq![("url"@, JsonView::Text(image.url@))])),
            ]);
            let level = match detail {
                Some(level) => Some(Json::text(level.as_str())),
                None => None,
            };
            put_optional(&mut members, "detail", level);
        },
    }
    Json::object(members)
}

/// The document of a message.
pub fn message_json(message: &Message) -> (r: Json)
    ensures
        r@ == message_doc(*message),
{
    let mut parts: Vec<Json> = Vec::new();
    let mut i: usize = 0;
    while i < message.content.len()
        invariant
            i <= message.content@.len(),
            views(parts@).len() == i,
            forall|j: int| 0 <= j < i ==> views(parts@)[j] == content_doc(message.content@[j]@),
        decreases message.content@.len() - i,
    {
        let ghost before = views(parts@);
        Json::add(&mut parts, content_json(&message.content[i]));
        assert(forall|j: int| 0 <= j < i ==> views(parts@)[j] == before[j]);
        i += 1;
    }
    assert(views(parts@) =~= content_docs(message.content@));
    let mut members: Vec<(String, Json)> = Vec::new();
    assert(member_views(members@) =~= Seq::empty());
    Json::put(&mut members, "role", Json::text(message.role.as_str()));
    Json::put(&mut members, "content", Json::array(parts));
    assert(member_views(members@) =~= seq![
        ("role"@, JsonView::Text(message.role.name())),
        ("content"@, JsonView::Array(content_docs(message.content@))),
    ]);
    Json::object(members)
}

impl Completions {
    /// The running token total is the cost of the messages.
    pub open spec fn wf(&self) -> bool {
        self.tokens_count == total_cost(self.messages@)
    }

    /// The token budget: the maximum tokens count where it is positive.
    pub open spec fn budget(&self) -> Option<nat> {
        if self.max_tokens > 0 {
            Some(self.max_tokens as nat)
        } else {
            None
        }
    }

    /// The messages that are sent: the conversation trimmed to the budget,
    /// where there is one.
    pub open spec fn sent_messages(&self) -> Seq<Message> {
        match self.budget() {
            Some(budget) => evict(self.messages@, budget),
            None => self.messages@,
        }
    }

    /// The request cannot be sent: there is a budget, and the trimmed
    /// conversation ends on an assistant message.
    pub open spec fn ends_on_assistant(&self) -> bool {
        self.budget() is Some && self.sent_messages().len() > 0 && self.sent_messages().last().role
            == Role::Assistant
    }

    /// Returns the address of the request.
    pub fn url(&self) -> (r: String)
        ensures
            r@ == request_url(*self),
    {
        match &self.server {
            Some(server) => self.api_kind.custom_completions_url(server.as_str()),
            None => self.api_kind.completions_url(),
        }
    }

    /// Returns the headers of the request.
    pub fn headers(&self) -> (r: Vec<(String, String)>)
        ensures
            pair_views(r@) == header_list(*self),
    {
        let mut headers: Vec<(String, String)> = Vec::new();
        headers.push((String::from_str("content-type"), String::from_str("application/json")));
        headers.push((String::from_str("accept"), String::from_str("text/event-stream")));
        if self.api_kind.is_anthropic_standart() {
            let version = match &self.api_version {
                Some(version) => version.clone(),
                None => String::from_str(DEFAULT_VERSION),
            };
            headers.push((String::from_str("x-api-key"), self.api_key.clone()));
            headers.push((String::from_str("anthropic-version"), version));
        } else {
            headers.push(
                (
                    String::from_str("authorization"),
                    String::from_str("Bearer ").concat(self.api_key.as_str()),
                ),
            );
        }
        assert(pair_views(headers@) =~= header_list(*self));
        headers
    }

    /// Returns the body of the request with the messages as they stand.
    pub fn body(&self) -> (r: Json)
        ensures
            r@ == request_doc(*self, self.messages@),
    {
        let anthropic = self.api_kind.is_anthropic_standart();
        let mut messages: Vec<Json> = Vec::new();
        let mut i: usize = 0;
        while i < self.messages.len()
            invariant
                i <= self.messages@.len(),
                views(messages@).len() == i,
                forall|j: int| 0 <= j < i ==> views(messages@)[j] == message_doc(self.messages@[j]),
            decreases self.messages@.len() - i,
        {
            let ghost before = views(messages@);
            Json::add(&mut messages, message_json(&self.messages[i]));
            assert(forall|j: int| 0 <= j < i ==> views(messages@)[j] == before[j]);
            i += 1;
        }
        assert(views(messages@) =~= message_docs(self.messages@));
        let mut members: Vec<(String, Json)> = Vec::new();
        assert(member_views(members@) =~= Seq::empty());
        Json::put(&mut members, "model", Json::text(self.model.as_str()));
        Json::put(&mut members, "messages", Json::array(messages));
        Json::put(&mut members, "max_tokens", Json::integer(self.max_tokens as i64));
        Json::put(&mut members, "temperature", Json::Number(self.temperature));
        Json::put(&mut members, "stream", Json::Bool(true));
        let ghost fixed = seq![
            ("model"@, JsonView::Text(self.model@)),
            ("messages"@, JsonView::Array(message_docs(self.messages@))),
            ("max_tokens"@, JsonView::Number(integer_number(self.max_tokens as i64))),
            ("temperature"@, JsonView::Number(self.temperature)),
            ("stream"@, JsonView::Bool(true)),
        ];
        assert(member_views(members@) =~= fixed);
        match &self.schema {
            Some(schema) => {
                let doc = schema.to_json();
                let mut inner: Vec<(String, Json)> = Vec::new();
                assert(member_views(inner@) =~= Seq::empty());
                let mut outer: Vec<(String, Json)> = Vec::new();
                assert(member_views(outer@) =~= Seq::empty());
                if anthropic {
                    Json::put(&mut inner, "type", Json::text("json_schema"));
                    Json::put(&mut inner, "schema", doc);
                    assert(member_views(inner@) =~= seq![
                        ("type"@, JsonView::Text("json_schema"@)),
                        ("schema"@, schema_doc(*schema)),
                    ]);
                    Json::put(&mut outer, "format", Json::object(inner));
                    assert(member_views(outer@) =~= seq![
                        (
                            "format"@,
                            JsonView::Object(
                                seq![
                                    ("type"@, JsonView::Text("json_schema"@)),
                                    ("schema"@, schema_doc(*schema)),
                                ],
                            ),
                        ),
                    ]);
                    Json::put(&mut members, "output_config", Json::object(outer));
                } else {
                    Json::put(&mut inner, "schema", doc);
                    Json::put(&mut inner, "strict", Json::Bool(true));
                    assert(member_views(inner@) =~= seq![
                        ("schema"@, schema_doc(*schema)),
                        ("strict"@, JsonView::Bool(true)),
                    ]);
                    Json::put(&mut outer, "type", Json::text("json_schema"));
                    Json::put(&mut outer, "json_schema", Json::object(inner));
                    assert(member_views(outer@) =~= seq![
                        ("type"@, JsonView::Text("json_schema"@)),
                        (
                            "json_schema"@,
                            JsonView::Object(
                                seq![
                                    ("schema"@, schema_doc(*schema)),
                                    ("strict"@, JsonView::Bool(true)),
                                ],
                            ),
                        ),
                    ]);
                    Json::put(&mut members, "response_format", Json::object(outer));
                }
                assert(member_views(members@) =~= fixed + seq![schema_member(anthropic, *schema)]);
            },
            None => {
                assert(member_views(members@) =~= fixed + Seq::empty());
            },
        }
        let ghost with_schema = member_views(members@);
        if self.tools.len() > 0 {
            let mut tools: Vec<Json> = Vec::new();
            let mut k: usize = 0;
            while k < self.tools.len()
                invariant
                    k <= self.tools@.len(),
                    views(tools@).len() == k,
                    forall|j: int|
                        0 <= j < k ==> views(tools@)[j] == tool_doc(anthropic, self.tools@[j]),
                decreases self.tools@.len() - k,
            {
                let ghost before = views(tools@);
                Json::add(&mut tools, self.tools[k].to_json(anthropic));
                assert(forall|j: int| 0 <= j < k ==> views(tools@)[j] == before[j]);
                k += 1;
            }
            assert(views(tools@) =~= tool_docs(anthropic, self.tools@));
            Json::put(&mut members, "tools", Json::array(tools));
            assert(member_views(members@) =~= with_schema + seq![
                ("tools"@, JsonView::Array(tool_docs(anthropic, self.tools@))),
            ]);
        } else {
            assert(member_views(members@) =~= with_schema + Seq::empty());
        }
        Json::object(members)
    }

    /// Makes ready what is sent for the request: trims the conversation to
    /// the token budget, checks that it ends on a request of the user, and
    /// composes address, headers and body.
    ///
    /// Without a budget the conversation is neither trimmed nor checked.
    /// Nothing but the messages and their running total changes.
    pub fn prepare(&mut self) -> (r: Result<Request, Error>)
        requires
            old(self).wf(),
        ensures
            final(self).wf(),
            final(self).messages@ == old(self).sent_messages(),
            system_messages(final(self).messages@) == system_messages(old(self).messages@),
            old(self).budget() matches Some(budget) ==> final(self).tokens_count <= budget
                || exhausted(final(self).messages@),
            *final(self) == (Completions {
                messages: final(self).messages,
                tokens_count: final(self).tokens_count,
                ..*old(self)
            }),
            r is Err <==> old(self).ends_on_assistant(),
            match r {
                Ok(request) => {
                    &&& request.url@ == request_url(*old(self))
                    &&& pair_views(request.headers@) == header_list(*old(self))
                    &&& request.body@ == request_doc(*old(self), old(self).sent_messages())
                },
                Err(error) => error@ == ErrorView::IncorrectContext,
            },
    {
        let url = self.url();
        if self.max_tokens > 0 {
            trim(&mut self.messages, &mut self.tokens_count, self.max_tokens as usize);
            let n = self.messages.len();
            if n > 0 && self.messages[n - 1].role.is_assistant() {
                return Err(Error::IncorrectContext);
            }
        }
        let body = self.body();
        let headers = self.headers();
        Ok(Request { url, headers, body })
    }
}

impl Completions {
    /// The state of a new request to a provider.
    pub open spec fn is_new(&self, kind: ApiKind, key: Seq<char>, model: Seq<char>) -> bool {
        &&& self.api_kind == kind
        &&& self.api_key@ == key
        &&& self.model@ == model
        &&& option_view(self.server) == if kind == ApiKind::LmStudio {
            Some(LOCAL_SERVER@)
        } else {
            None
        }
        &&& option_view(self.api_version) == if kind.anthropic_family() {
            Some(DEFAULT_VERSION@)
        } else {
            None
        }
        &&& self.max_tokens == if kind.anthropic_family() {
            8096i32
        } else {
            -1i32
        }
        &&& self.temperature == Number::Float(DEFAULT_TEMPERATURE)
        &&& self.messages@.len() == 0
        &&& self.tools@.len() == 0
        &&& self.schema is None
        &&& self.tokens_count == 0
    }

    /// Creates a new LM chat completions request. A local provider gets the
    /// local server, a provider of the event family a version and a budget
    /// of 8096 tokens; the others have no budget.
    pub fn new(kind: ApiKind, key: &str, model: &str) -> (r: Self)
        ensures
            r.is_new(kind, key@, model@),
            r.wf(),
    {
        let anthropic = kind.is_anthropic_standart();
        Completions {
            server: if kind == ApiKind::LmStudio {
                Some(String::from_str(LOCAL_SERVER))
            } else {
                None
            },
            api_version: if anthropic {
                Some(String::from_str(DEFAULT_VERSION))
            } else {
                None
            },
            api_key: String::from_str(key),
            model: String::from_str(model),
            messages: Vec::new(),
            max_tokens: if anthropic {
                8096
            } else {
                -1
            },
            temperature: Number::Float(DEFAULT_TEMPERATURE),
            tokens_count: 0,
            schema: None,
            tools: Vec::new(),
            api_kind: kind,
        }
    }

    /// Creates a new OpenAI (ChatGPT) request
    pub fn openai(key: &str, model: &str) -> (r: Self)
        ensures
            r.is_new(ApiKind::OpenAI, key@, model@),
            r.wf(),
    {
        Completions::new(ApiKind::OpenAI, key, model)
    }

    /// Creates a new request to the Anthropic API
    pub fn anthropic(key: &str, model: &str) -> (r: Self)
        ensures
            r.is_new(ApiKind::Anthropic, key@, model@),
            r.wf(),
    {
        Completions::new(ApiKind::Anthropic, key, model)
    }

    /// Creates a new LM Studio request
    pub fn lmstudio(key: &str, model: &str) -> (r: Self)
        ensures
            r.is_new(ApiKind::LmStudio, key@, model@),
            r.wf(),
    {
        Completions::new(ApiKind::LmStudio, key, model)
    }

    /// Creates a new ChatGPT request
    pub fn chatgpt(key: &str, model: &str) -> (r: Self)
        ensures
            r.is_new(ApiKind::ChatGpt, key@, model@),
            r.wf(),
    {
        Completions::new(ApiKind::ChatGpt, key, model)
    }

    /// Creates a new Cerebras AI request
    pub fn cerebras(key: &str, model: &str) -> (r: Self)
        ensures
            r.is_new(ApiKind::Cerebras, key@, model@),
            r.wf(),
    {
        Completions::new(ApiKind::Cerebras, key, model)
    }

    /// Creates a new request to the models of Anthropic
    pub fn claude(key: &str, model: &str) -> (r: Self)
        ensures
            r.is_new(ApiKind::Claude, key@, model@),
            r.wf(),
    {
        Completions::new(ApiKind::Claude, key, model)
    }

    /// Creates a new OpenRouter AI request
    pub fn openrouter(key: &str, model: &str) -> (r: Self)
        ensures
            r.is_new(ApiKind::OpenRouter, key@, model@),
            r.wf(),
    {
        Completions::new(ApiKind::OpenRouter, key, model)
    }

    /// Creates a new Perplexity AI request
    pub fn perplexity(key: &str, model: &str) -> (r: Self)
        ensures
            r.is_new(ApiKind::Perplexity, key@, model@),
            r.wf(),
    {
        Completions::new(ApiKind::Perplexity, key, model)
    }

    /// Sets the API version
    pub fn version(self, version: &str) -> (r: Self)
        ensures
            r == (Completions { api_version: r.api_version, ..self }),
            option_view(r.api_version) == Some(version@),
    {
        let mut r = self;
        r.api_version = Some(String::from_str(version));
        r
    }

    /// Sets the API version
    pub fn set_version(&mut self, version: &str)
        ensures
            *final(self) == (Completions { api_version: final(self).api_version, ..*old(self) }),
            option_view(final(self).api_version) == Some(version@),
    {
        self.api_version = Some(String::from_str(version));
    }

    /// Sets the LM API authorization key
    pub fn key(self, key: &str) -> (r: Self)
        ensures
            r == (Completions { api_key: r.api_key, ..self }),
            r.api_key@ == key@,
    {
        let mut r = self;
        r.api_key = String::from_str(key);
        r
    }

    /// Sets the LM API authorization key
    pub fn set_key(&mut self, key: &str)
        ensures
            *final(self) == (Completions { api_key: final(self).api_key, ..*old(self) }),
            final(self).api_key@ == key@,
    {
        self.api_key = String::from_str(key);
    }

    /// Sets the custom LM API server URL host
    pub fn server(self, url: &str) -> (r: Self)
        ensures
            r == (Completions { server: r.server, ..self }),
            option_view(r.server) == Some(url@),
    {
        let mut r = self;
        r.server = Some(String::from_str(url));
        r
    }

    /// Sets the custom LM API server URL host
    pub fn set_server(&mut self, url: &str)
        ensures
            *final(self) == (Completions { server: final(self).server, ..*old(self) }),
            option_view(final(self).server) == Some(url@),
    {
        self.server = Some(String::from_str(url));
    }

    /// Sets the LM model name
    pub fn model(self, model: &str) -> (r: Self)
        ensures
            r == (Completions { model: r.model, ..self }),
            r.model@ == model@,
    {
        let mut r = self;
        r.model = String::from_str(model);
        r
    }

    /// Sets the LM model name
    pub fn set_model(&mut self, model: &str)
        ensures
            *final(self) == (Completions { model: final(self).model, ..*old(self) }),
            final(self).model@ == model@,
    {
        self.model = String::from_str(model);
    }

    /// Sets the AI generation temperature
    pub fn temperature(self, temperature: Number) -> (r: Self)
        ensures
            r == (Completions { temperature, ..self }),
    {
        let mut r = self;
        r.temperature = temperature;
        r
    }

    /// Sets the AI generation temperature
    pub fn set_temperature(&mut self, temperature: Number)
        ensures
            *final(self) == (Completions { temperature, ..*old(self) }),
    {
        self.temperature = temperature;
    }

    /// Sets the max context tokens count
    pub fn max_tokens(self, count: i32) -> (r: Self)
        ensures
            r == (Completions { max_tokens: count, ..self }),
    {
        let mut r = self;
        r.max_tokens = count;
        r
    }

    /// Sets the max context tokens count
    pub fn set_max_tokens(&mut self, count: i32)
        ensures
            *final(self) == (Completions { max_tokens: count, ..*old(self) }),
    {
        self.max_tokens = count;
    }

    /// Sets the structured response schema
    pub fn schema(self, schema: Schema) -> (r: Self)
        ensures
            r == (Completions { schema: Some(schema), ..self }),
    {
        let mut r = self;
        r.schema = Some(schema);
        r
    }

    /// Sets the structured response schema
    pub fn set_schema(&mut self, schema: Schema)
        ensures
            *final(self) == (Completions { schema: Some(schema), ..*old(self) }),
    {
        self.schema = Some(schema);
    }

    /// Adds the tool calls
    pub fn tools(self, tools: Vec<Tool>) -> (r: Self)
        ensures
            r == (Completions { tools: r.tools, ..self }),
            r.tools@ == self.tools@ + tools@,
    {
        let mut r = self;
        let mut more = tools;
        r.tools.append(&mut more);
        r
    }

    /// Adds the tool calls
    pub fn set_tools(&mut self, tools: Vec<Tool>)
        ensures
            *final(self) == (Completions { tools: final(self).tools, ..*old(self) }),
            final(self).tools@ == old(self).tools@ + tools@,
    {
        let mut more = tools;
        self.tools.append(&mut more);
    }

    /// Adds the tool call
    pub fn tool(self, tool: Tool) -> (r: Self)
        ensures
            r == (Completions { tools: r.tools, ..self }),
            r.tools@ == self.tools@.push(tool),
    {
        let mut r = self;
        r.tools.push(tool);
        r
    }

    /// Adds the tool call
    pub fn set_tool(&mut self, tool: Tool)
        ensures
            *final(self) == (Completions { tools: final(self).tools, ..*old(self) }),
            final(self).tools@ == old(self).tools@.push(tool),
    {
        self.tools.push(tool);
    }

    /// The message can be added: its content can be counted, and the running
    /// total with its cost fits the machine.
    pub open spec fn accepts(&self, content: Seq<Content>) -> bool {
        Message::counts(content_views(content)) && self.tokens_count + content_cost(
            content_views(content),
        ) <= usize::MAX
    }

    /// The state after a message of this role and content was added.
    pub open spec fn with_message(self, after: Completions, role: Role, content: Vec<Content>) -> bool {
        &&& after == (Completions {
            messages: after.messages,
            tokens_count: after.tokens_count,
            ..self
        })
        &&& after.messages@.len() == self.messages@.len() + 1
        &&& after.messages@.drop_last() == self.messages@
        &&& after.messages@.last().role == role
        &&& after.messages@.last().content == content
        &&& after.messages@.last().wf()
        &&& after.tokens_count == self.tokens_count + content_cost(content_views(content@))
        &&& self.wf() ==> after.wf()
    }

    /// Adds a message to request
    pub fn message(self, role: Role, content: Vec<Content>) -> (r: Self)
        requires
            self.accepts(content@),
        ensures
            self.with_message(r, role, content),
    {
        let mut r = self;
        r.add_message(role, content);
        r
    }

    /// Adds a system message to request
    pub fn system_message(self, content: Vec<Content>) -> (r: Self)
        requires
            self.accepts(content@),
        ensures
            self.with_message(r, Role::System, content),
    {
        self.message(Role::System, content)
    }

    /// Adds a user message to request
    pub fn user_message(self, content: Vec<Content>) -> (r: Self)
        requires
            self.accepts(content@),
        ensures
            self.with_message(r, Role::User, content),
    {
        self.message(Role::User, content)
    }

    /// Adds a assistant message to request
    pub fn assistant_message(self, content: Vec<Content>) -> (r: Self)
        requires
            self.accepts(content@),
        ensures
            self.with_message(r, Role::Assistant, content),
    {
        self.message(Role::Assistant, content)
    }

    /// Adds a message to request
    pub fn add_message(&mut self, role: Role, content: Vec<Content>)
        requires
            old(self).accepts(content@),
        ensures
            old(self).with_message(*final(self), role, content),
    {
        let msg = Message::new(role, content);
        self.tokens_count = self.tokens_count + msg.tokens_count;
        self.messages.push(msg);
        assert(self.messages@.drop_last() =~= old(self).messages@);
    }

    /// Adds a system message to request
    pub fn add_system_message(&mut self, content: Vec<Content>)
        requires
            old(self).accepts(content@),
        ensures
            old(self).with_message(*final(self), Role::System, content),
    {
        self.add_message(Role::System, content)
    }

    /// Adds a user message to request
    pub fn add_user_message(&mut self, content: Vec<Content>)
        requires
            old(self).accepts(content@),
        ensures
            old(self).with_message(*final(self), Role::User, content),
    {
        self.add_message(Role::User, content)
    }

    /// Adds a assistant message to request
    pub fn add_assistant_message(&mut self, content: Vec<Content>)
        requires
            old(self).accepts(content@),
        ensures
            old(self).with_message(*final(self), Role::Assistant, content),
    {
        self.add_message(Role::Assistant, content)
    }

    /// Whether the message can be added.
    pub fn can_add(&self, content: &Vec<Content>) -> (r: bool)
        ensures
            r == self.accepts(content@),
    {
        match Message::checked_count_tokens(content.as_slice()) {
            Some(cost) => self.tokens_count.checked_add(cost).is_some(),
            None => false,
        }
    }

    /// Adds a message to request, where it can be added; otherwise the
    /// request is handed back as it was.
    pub fn try_message(self, role: Role, content: Vec<Content>) -> (r: Result<Self, Self>)
        ensures
            match r {
                Ok(after) => self.accepts(content@) && self.with_message(after, role, content),
                Err(same) => !self.accepts(content@) && same == self,
            },
    {
        if self.can_add(&content) {
            Ok(
                match role {
                    Role::System => self.system_message(content),
                    Role::User => self.user_message(content),
                    Role::Assistant => self.assistant_message(content),
                },
            )
        } else {
            Err(self)
        }
    }

    /// Adds a message to request, where it can be added, and says whether
    /// it was; otherwise the request stays as it was.
    pub fn try_add_message(&mut self, role: Role, content: Vec<Content>) -> (r: bool)
        ensures
            r == old(self).accepts(content@),
            r ==> old(self).with_message(*final(self), role, content),
            !r ==> *final(self) == *old(self),
    {
        if self.can_add(&content) {
            match role {
                Role::System => self.add_system_message(content),
                Role::User => self.add_user_message(content),
                Role::Assistant => self.add_assistant_message(content),
            }
            true
        } else {
            false
        }
    }
}

} // verus!
