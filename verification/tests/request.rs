use anylm::completions::{content_json, message_json, Completions, DEFAULT_TEMPERATURE};
use anylm::content::{Content, ContentError, ContentField, Image};
use anylm::embeddings::{Embeddings, Usage};
use anylm::error::Error;
use anylm::json::{Json, Number};
use anylm::kind::ApiKind;
use anylm::message::Message;
use anylm::role::Role;
use anylm::schema::{Schema, SchemaKind};
use anylm::tool::Tool;

fn t(text: &str) -> Json {
    Json::Text(text.to_string())
}

fn obj(members: Vec<(&str, Json)>) -> Json {
    Json::Object(members.into_iter().map(|(k, v)| (k.to_string(), v)).collect())
}

fn pairs(list: Vec<(&str, &str)>) -> Vec<(String, String)> {
    list.into_iter().map(|(a, b)| (a.to_string(), b.to_string())).collect()
}

#[test]
fn new_request_of_the_delta_family() {
    let c = Completions::new(ApiKind::OpenAI, "key", "gpt");
    assert_eq!(c.api_kind, ApiKind::OpenAI);
    assert_eq!(c.api_key, "key");
    assert_eq!(c.model, "gpt");
    assert_eq!(c.server, None);
    assert_eq!(c.api_version, None);
    assert_eq!(c.max_tokens, -1);
    assert_eq!(c.temperature, Number::Float(DEFAULT_TEMPERATURE));
    assert_eq!(c.temperature, Number::Float((0.7f32 as f64).to_bits()));
    assert_eq!(c.tokens_count, 0);
    assert!(c.messages.is_empty());
    assert!(c.tools.is_empty());
    assert_eq!(c.schema, None);
}

#[test]
fn new_request_of_the_event_family() {
    let c = Completions::new(ApiKind::Claude, "key", "model");
    assert_eq!(c.api_version, Some("2023-06-01".to_string()));
    assert_eq!(c.max_tokens, 8096);
    assert_eq!(c.server, None);
}

#[test]
fn new_local_request_has_the_local_server() {
    let c = Completions::lmstudio("", "m");
    assert_eq!(c.server, Some("http://127.0.0.1:1234".to_string()));
    assert_eq!(c.url(), "http://127.0.0.1:1234/v1/chat/completions");
}

#[test]
fn provider_constructors() {
    assert_eq!(Completions::openai("k", "m").api_kind, ApiKind::OpenAI);
    assert_eq!(Completions::anthropic("k", "m").api_kind, ApiKind::Anthropic);
    assert_eq!(Completions::lmstudio("k", "m").api_kind, ApiKind::LmStudio);
    assert_eq!(Completions::chatgpt("k", "m").api_kind, ApiKind::ChatGpt);
    assert_eq!(Completions::cerebras("k", "m").api_kind, ApiKind::Cerebras);
    assert_eq!(Completions::claude("k", "m").api_kind, ApiKind::Claude);
    assert_eq!(Completions::openrouter("k", "m").api_kind, ApiKind::OpenRouter);
    assert_eq!(Completions::perplexity("k", "m").api_kind, ApiKind::Perplexity);
}

#[test]
fn builders_set_one_field() {
    let c = Completions::openai("k", "m")
        .key("k2")
        .model("m2")
        .server("http://h")
        .version("v9")
        .max_tokens(77)
        .temperature(Number::PosInt(1));
    assert_eq!(c.api_key, "k2");
    assert_eq!(c.model, "m2");
    assert_eq!(c.server, Some("http://h".to_string()));
    assert_eq!(c.api_version, Some("v9".to_string()));
    assert_eq!(c.max_tokens, 77);
    assert_eq!(c.temperature, Number::PosInt(1));
    let mut d = Completions::openai("k", "m");
    d.set_key("k2");
    d.set_model("m2");
    d.set_server("http://h");
    d.set_version("v9");
    d.set_max_tokens(77);
    d.set_temperature(Number::PosInt(1));
    assert_eq!(c, d);
}

#[test]
fn messages_add_to_the_running_total() {
    let c = Completions::openai("k", "m")
        .system_message(vec![Content::text("hello world")])
        .user_message(vec![
            Content::text("hello world"),
            Content::Image { image: Image { url: "u".to_string() }, detail: None },
        ])
        .assistant_message(vec![]);
    assert_eq!(c.messages.len(), 3);
    assert_eq!(c.messages[0].role, Role::System);
    assert_eq!(c.messages[0].tokens_count, 2);
    assert_eq!(c.messages[1].role, Role::User);
    assert_eq!(c.messages[1].tokens_count, 87);
    assert_eq!(c.messages[2].role, Role::Assistant);
    assert_eq!(c.messages[2].tokens_count, 0);
    assert_eq!(c.tokens_count, 89);
    let mut d = Completions::openai("k", "m");
    d.add_system_message(vec![Content::text("hello world")]);
    d.add_message(
        Role::User,
        vec![
            Content::text("hello world"),
            Content::Image { image: Image { url: "u".to_string() }, detail: None },
        ],
    );
    d.add_assistant_message(vec![]);
    assert_eq!(c, d);
    d.add_user_message(vec![Content::text("hello world")]);
    assert_eq!(d.tokens_count, 91);
    assert_eq!(Completions::openai("k", "m").message(Role::User, vec![Content::text("hello world")]).tokens_count, 2);
}

#[test]
fn checked_adding_of_messages() {
    let mut c = Completions::openai("k", "m");
    assert!(c.can_add(&vec![Content::text("hello world")]));
    assert!(c.try_add_message(Role::User, vec![Content::text("hello world")]));
    assert_eq!(c.tokens_count, 2);
    c.tokens_count = usize::MAX - 1;
    let before = Completions { ..Completions::openai("k", "m") };
    assert!(!c.can_add(&vec![Content::text("hello world")]));
    assert!(!c.try_add_message(Role::User, vec![Content::text("hello world")]));
    assert_eq!(c.messages.len(), 1);
    assert_eq!(c.tokens_count, usize::MAX - 1);
    let r = before.try_message(Role::Assistant, vec![Content::text("hello world")]).unwrap();
    assert_eq!(r.messages[0].role, Role::Assistant);
    let mut full = Completions::openai("k", "m");
    full.tokens_count = usize::MAX;
    let back = full.try_message(Role::User, vec![Content::text("hello world")]).unwrap_err();
    assert_eq!(back.tokens_count, usize::MAX);
    assert!(back.messages.is_empty());
}

#[test]
fn message_costs() {
    let image = |detail: Option<&str>| Content::Image {
        image: Image { url: "u".to_string() },
        detail: detail.map(|d| d.to_string()),
    };
    assert_eq!(Content::image_tokens(&None), 85);
    assert_eq!(Content::image_tokens(&Some("low".to_string())), 85);
    assert_eq!(Content::image_tokens(&Some("auto".to_string())), 110);
    assert_eq!(Content::image_tokens(&Some("high".to_string())), 170);
    assert_eq!(Content::image_tokens(&Some("HIGH".to_string())), 85);
    assert_eq!(Message::count_tokens(&[]), 0);
    assert_eq!(
        Message::count_tokens(&[image(Some("high")), image(Some("auto")), image(None), Content::text("hello world")]),
        367
    );
    assert_eq!(Message::checked_count_tokens(&[image(Some("high")), Content::text("hello world")]), Some(172));
    let m = Message::new(Role::User, vec![Content::text("hello world")]);
    assert_eq!(m.role, Role::User);
    assert_eq!(m.tokens_count, 2);
    assert_eq!(m.content, vec![Content::text("hello world")]);
    assert_eq!(Message::system(vec![]).role, Role::System);
    assert_eq!(Message::user(vec![]).role, Role::User);
    assert_eq!(Message::assistant(vec![image(None)]).tokens_count, 85);
    assert_eq!(Message::try_new(Role::System, vec![image(None)]), Some(Message::system(vec![image(None)])));
}

#[test]
fn content_constructors() {
    assert_eq!(Content::text("hi"), Content::Text { text: "hi".to_string() });
    assert_eq!(
        Content::image_url("data:image/png;base64,aGVsbG8=", Some("high".to_string())),
        Ok(Content::Image {
            image: Image { url: "data:image/png;base64,aGVsbG8=".to_string() },
            detail: Some("high".to_string()),
        })
    );
    assert_eq!(Content::image_url("data:image/png;base64,???", None), Err(Error::InvalidBase64Url));
    assert_eq!(Content::image_url("aGVsbG8=", None), Err(Error::InvalidBase64Url));
}

#[test]
fn content_and_message_documents() {
    assert_eq!(content_json(&Content::text("hi")), obj(vec![("type", t("text")), ("text", t("hi"))]));
    let image = Content::Image { image: Image { url: "data:x".to_string() }, detail: None };
    assert_eq!(
        content_json(&image),
        obj(vec![("type", t("image_url")), ("image_url", obj(vec![("url", t("data:x"))]))])
    );
    let image = Content::Image {
        image: Image { url: "data:x".to_string() },
        detail: Some("low".to_string()),
    };
    assert_eq!(
        content_json(&image),
        obj(vec![
            ("type", t("image_url")),
            ("image_url", obj(vec![("url", t("data:x"))])),
            ("detail", t("low")),
        ])
    );
    let m = Message { role: Role::Assistant, content: vec![Content::text("a")], tokens_count: 99 };
    assert_eq!(
        message_json(&m),
        obj(vec![
            ("role", t("assistant")),
            ("content", Json::Array(vec![obj(vec![("type", t("text")), ("text", t("a"))])])),
        ])
    );
}

fn weather() -> Tool {
    Tool::new(
        "weather",
        "Search weather by location",
        Schema::object("Location data").required_property("location", Schema::string("The location")),
    )
}

fn location_schema_doc() -> Json {
    obj(vec![
        ("type", t("object")),
        ("description", t("Location data")),
        (
            "properties",
            obj(vec![("location", obj(vec![("type", t("string")), ("description", t("The location"))]))]),
        ),
        ("required", Json::Array(vec![t("location")])),
        ("additionalProperties", Json::Bool(false)),
    ])
}

#[test]
fn plain_body_always_asks_for_a_stream() {
    let mut c = Completions::openai("k", "gpt");
    c.messages.push(Message { role: Role::User, content: vec![Content::text("hi")], tokens_count: 1 });
    c.tokens_count = 1;
    let expected = obj(vec![
        ("model", t("gpt")),
        (
            "messages",
            Json::Array(vec![obj(vec![
                ("role", t("user")),
                ("content", Json::Array(vec![obj(vec![("type", t("text")), ("text", t("hi"))])])),
            ])]),
        ),
        ("max_tokens", Json::Number(Number::NegInt(-1))),
        ("temperature", Json::Number(Number::Float(0x3FE6_6666_6000_0000))),
        ("stream", Json::Bool(true)),
    ]);
    assert_eq!(c.body(), expected);
    assert_eq!(c.body().get("tokens_count"), None);
    let sent = c.prepare().unwrap();
    assert_eq!(sent.body, expected);
    assert_eq!(sent.url, "https://api.openai.com/v1/chat/completions");
}

#[test]
fn delta_family_body_with_schema_and_tools() {
    let c = Completions::openai("k", "gpt").schema(Schema::integer("")).tool(weather());
    let body = c.body();
    assert_eq!(
        body.get("response_format"),
        Some(&obj(vec![
            ("type", t("json_schema")),
            (
                "json_schema",
                obj(vec![("schema", obj(vec![("type", t("integer"))])), ("strict", Json::Bool(true))]),
            ),
        ]))
    );
    assert_eq!(body.get("output_config"), None);
    assert_eq!(body.get("schema"), None);
    assert_eq!(
        body.get("tools"),
        Some(&Json::Array(vec![obj(vec![
            ("type", t("function")),
            (
                "function",
                obj(vec![
                    ("name", t("weather")),
                    ("description", t("Search weather by location")),
                    ("parameters", location_schema_doc()),
                ]),
            ),
        ])]))
    );
}

#[test]
fn event_family_body_with_schema_and_tools() {
    let c = Completions::anthropic("k", "model").schema(Schema::integer("")).tools(vec![weather()]);
    let body = c.body();
    assert_eq!(
        body.get("output_config"),
        Some(&obj(vec![(
            "format",
            obj(vec![("type", t("json_schema")), ("schema", obj(vec![("type", t("integer"))]))]),
        )]))
    );
    assert_eq!(body.get("response_format"), None);
    assert_eq!(
        body.get("tools"),
        Some(&Json::Array(vec![obj(vec![
            ("name", t("weather")),
            ("description", t("Search weather by location")),
            ("input_schema", location_schema_doc()),
        ])]))
    );
    assert_eq!(body.get("max_tokens"), Some(&Json::Number(Number::PosInt(8096))));
    assert_eq!(body.get("stream"), Some(&Json::Bool(true)));
}

#[test]
fn body_without_tools_has_no_tools_member() {
    let c = Completions::openai("k", "gpt");
    assert_eq!(c.body().get("tools"), None);
    assert_eq!(c.body().get("response_format"), None);
}

#[test]
fn headers_of_the_delta_family() {
    let c = Completions::openai("SECRET", "gpt");
    assert_eq!(
        c.headers(),
        pairs(vec![
            ("content-type", "application/json"),
            ("accept", "text/event-stream"),
            ("authorization", "Bearer SECRET"),
        ])
    );
}

#[test]
fn headers_of_the_event_family() {
    let c = Completions::claude("SECRET", "m");
    assert_eq!(
        c.headers(),
        pairs(vec![
            ("content-type", "application/json"),
            ("accept", "text/event-stream"),
            ("x-api-key", "SECRET"),
            ("anthropic-version", "2023-06-01"),
        ])
    );
    let mut c = Completions::anthropic("SECRET", "m").version("2024-01-01");
    assert_eq!(c.headers()[3], ("anthropic-version".to_string(), "2024-01-01".to_string()));
    c.api_version = None;
    assert_eq!(c.headers()[3], ("anthropic-version".to_string(), "2023-06-01".to_string()));
}

#[test]
fn prepare_keeps_schema_and_version() {
    let mut c = Completions::anthropic("k", "m").schema(Schema::null("")).server("http://h");
    let sent = c.prepare().unwrap();
    assert_eq!(sent.url, "http://h/v1/messages");
    assert!(sent.body.get("output_config").is_some());
    assert_eq!(sent.headers[3].1, "2023-06-01");
    assert_eq!(c, Completions::anthropic("k", "m").schema(Schema::null("")).server("http://h"));
    assert_eq!(c.prepare().unwrap(), sent);
    let mut c = Completions::openai("k", "m").version("v").schema(Schema::null("")).tool(weather());
    let sent = c.prepare().unwrap();
    assert!(sent.body.get("response_format").is_some());
    assert_eq!(c.schema, Some(Schema::null("")));
    assert_eq!(c.api_version, Some("v".to_string()));
    assert_eq!(c.tools, vec![weather()]);
    assert_eq!(c.prepare().unwrap(), sent);
}

#[test]
fn tools_are_added_in_order() {
    let a = Tool::new("a", "", Schema::null(""));
    let b = Tool::new("b", "", Schema::null(""));
    let c3 = Tool::new("c", "", Schema::null(""));
    assert_eq!(a.description, None);
    let c = Completions::openai("k", "m")
        .tool(Tool::new("a", "", Schema::null("")))
        .tools(vec![Tool::new("b", "", Schema::null("")), Tool::new("c", "", Schema::null(""))]);
    assert_eq!(c.tools, vec![a, b, c3]);
    let mut d = Completions::openai("k", "m");
    d.set_tool(Tool::new("a", "", Schema::null("")));
    d.set_tools(vec![Tool::new("b", "", Schema::null("")), Tool::new("c", "", Schema::null(""))]);
    assert_eq!(c, d);
    let mut e = Completions::openai("k", "m");
    e.set_schema(Schema::boolean("x"));
    assert_eq!(e.schema, Some(Schema::boolean("x")));
}

#[test]
fn tool_documents() {
    let tool = Tool::new("f", "", Schema::null(""));
    assert_eq!(
        tool.to_json(true),
        obj(vec![("name", t("f")), ("input_schema", obj(vec![("type", t("null"))]))])
    );
    assert_eq!(
        tool.to_json(false),
        obj(vec![
            ("type", t("function")),
            ("function", obj(vec![("name", t("f")), ("parameters", obj(vec![("type", t("null"))]))])),
        ])
    );
}

#[test]
fn schema_constructors() {
    let s = Schema::object("d");
    assert_eq!(s.kind, SchemaKind::Object);
    assert_eq!(s.description, Some("d".to_string()));
    assert_eq!(s.additional_properties, Some(false));
    assert_eq!(Schema::object("").description, None);
    assert_eq!(Schema::array("").kind, SchemaKind::Array);
    assert_eq!(Schema::array("").additional_properties, None);
    assert_eq!(Schema::string("").kind, SchemaKind::String);
    assert_eq!(Schema::number("").kind, SchemaKind::Number);
    assert_eq!(Schema::integer("").kind, SchemaKind::Integer);
    assert_eq!(Schema::boolean("").kind, SchemaKind::Boolean);
    assert_eq!(Schema::null("").kind, SchemaKind::Null);
    assert_eq!(SchemaKind::default(), SchemaKind::Object);
    assert_eq!(SchemaKind::Boolean.as_str(), "boolean");
}

#[test]
fn schema_document_leaves_out_what_is_not_set() {
    assert_eq!(Schema::string("").to_json(), obj(vec![("type", t("string"))]));
    let s = Schema::number("n")
        .minimum(Number::NegInt(-2))
        .maximum(Number::Float(0x3FF8_0000_0000_0000));
    assert_eq!(
        s.to_json(),
        obj(vec![
            ("type", t("number")),
            ("description", t("n")),
            ("minimum", Json::Number(Number::NegInt(-2))),
            ("maximum", Json::Number(Number::Float(0x3FF8_0000_0000_0000))),
        ])
    );
    let s = Schema::string("").description("later").variants(vec!["a".to_string(), "b".to_string()]);
    assert_eq!(
        s.to_json(),
        obj(vec![
            ("type", t("string")),
            ("description", t("later")),
            ("enum", Json::Array(vec![t("a"), t("b")])),
        ])
    );
    let s = Schema::array("").items_schema(Schema::array("").items_schema(Schema::integer("")));
    assert_eq!(
        s.to_json(),
        obj(vec![
            ("type", t("array")),
            ("items", obj(vec![("type", t("array")), ("items", obj(vec![("type", t("integer"))]))])),
        ])
    );
}

#[test]
fn schema_properties() {
    let s = Schema::object("")
        .required_property("a", Schema::string(""))
        .optional_property("b", Schema::integer(""))
        .required_property("a", Schema::boolean(""))
        .property("c", Schema::null(""), true)
        .property("c", Schema::null(""), false);
    assert_eq!(
        s.properties,
        vec![
            ("a".to_string(), Schema::boolean("")),
            ("b".to_string(), Schema::integer("")),
            ("c".to_string(), Schema::null("")),
        ]
    );
    assert_eq!(s.required, vec!["a".to_string(), "c".to_string()]);
    let mut m = Schema::object("");
    m.set_required_property("a", Schema::string(""));
    m.set_optional_property("b", Schema::integer(""));
    m.set_property("a", Schema::boolean(""), true);
    m.set_properties(vec![("c".to_string(), Schema::null("")), ("b".to_string(), Schema::integer(""))]);
    m.set_require("c");
    assert_eq!(s, m);
    let p = Schema::object("").properties(vec![
        ("x".to_string(), Schema::null("")),
        ("x".to_string(), Schema::string("")),
    ]);
    assert_eq!(p.properties, vec![("x".to_string(), Schema::string(""))]);
    assert!(p.required.is_empty());
    let r = Schema::object("").require("a").requires_all(vec!["b".to_string(), "a".to_string()]);
    assert_eq!(r.required, vec!["a".to_string(), "b".to_string(), "a".to_string()]);
    let mut q = Schema::object("");
    q.set_requires(vec!["z".to_string()]);
    q.set_description("d");
    q.set_variants(vec!["v".to_string()]);
    q.set_minimum(Number::PosInt(1));
    q.set_maximum(Number::PosInt(2));
    q.set_items_schema(Schema::null(""));
    assert_eq!(q.required, vec!["z".to_string()]);
    assert_eq!(q.description, Some("d".to_string()));
    assert_eq!(q.variants, vec!["v".to_string()]);
    assert_eq!(q.minimum, Some(Number::PosInt(1)));
    assert_eq!(q.maximum, Some(Number::PosInt(2)));
    assert_eq!(q.items_schema, Some(Box::new(Schema::null(""))));
}

#[test]
fn embeddings_request() {
    let e = Embeddings::voyage("KEY", "voyage-3").input("one").input("two");
    assert_eq!(e.api_kind, ApiKind::Voyage);
    assert_eq!(e.input, vec!["one".to_string(), "two".to_string()]);
    assert_eq!(e.url(), "https://api.voyageai.com/v1/embeddings");
    assert_eq!(e.headers(), pairs(vec![("content-type", "application/json"), ("authorization", "KEY")]));
    assert_eq!(
        e.body(),
        obj(vec![("model", t("voyage-3")), ("input", Json::Array(vec![t("one"), t("two")]))])
    );
    let sent = e.prepare();
    assert_eq!(sent.url, e.url());
    assert_eq!(sent.headers, e.headers());
    assert_eq!(sent.body, e.body());
    let mut l = Embeddings::lmstudio("", "m");
    assert_eq!(l.url(), "http://127.0.0.1:1234/v1/embeddings");
    l.set_server("http://h");
    l.set_key("k");
    l.set_model("m2");
    l.add_input("x");
    assert_eq!(l, Embeddings::lmstudio("", "m").server("http://h").key("k").model("m2").input("x"));
    assert_eq!(Embeddings::anthropic("k", "m").api_kind, ApiKind::Voyage);
    assert_eq!(Embeddings::claude("k", "m").api_kind, ApiKind::Voyage);
    assert_eq!(Embeddings::openai("k", "m").api_kind, ApiKind::OpenAI);
    assert_eq!(Embeddings::chatgpt("k", "m").api_kind, ApiKind::ChatGpt);
    assert_eq!(Embeddings::cerebras("k", "m").api_kind, ApiKind::Cerebras);
    assert_eq!(Embeddings::openrouter("k", "m").api_kind, ApiKind::OpenRouter);
    assert_eq!(Embeddings::perplexity("k", "m").api_kind, ApiKind::Perplexity);
    assert_eq!(Embeddings::new(ApiKind::Claude, "k", "m").api_version, Some("2023-06-01".to_string()));
    assert_eq!(Usage { total_tokens: 3 }.total_tokens, 3);
}

#[test]
fn content_is_read_back_from_its_document() {
    let parts = vec![
        Content::text("hi"),
        Content::Image { image: Image { url: "data:x".to_string() }, detail: None },
        Content::Image { image: Image { url: "data:x".to_string() }, detail: Some("auto".to_string()) },
    ];
    for part in parts {
        assert_eq!(Content::from_json(&content_json(&part)), Ok(part));
    }
    let read = |text: &str| Content::from_json(&Json::parse(text).unwrap());
    assert_eq!(read(r#"{"text":"a","extra":1,"type":"text"}"#), Ok(Content::text("a")));
    assert_eq!(read(r#"[1]"#), Err(ContentError::NotAnObject));
    assert_eq!(read(r#"{"text":"a"}"#), Err(ContentError::MissingField(ContentField::Type)));
    assert_eq!(read(r#"{"type":"text"}"#), Err(ContentError::MissingField(ContentField::Text)));
    assert_eq!(read(r#"{"type":"image_url"}"#), Err(ContentError::MissingField(ContentField::ImageUrl)));
    assert_eq!(read(r#"{"type":"video"}"#), Err(ContentError::UnknownType("video".to_string())));
    assert_eq!(read(r#"{"type":5}"#), Err(ContentError::InvalidField(ContentField::Type)));
    assert_eq!(read(r#"{"type":"text","text":null}"#), Err(ContentError::InvalidField(ContentField::Text)));
    assert_eq!(
        read(r#"{"type":"image_url","image_url":{"uri":"x"}}"#),
        Err(ContentError::InvalidField(ContentField::ImageUrl))
    );
    assert_eq!(
        read(r#"{"type":"image_url","image_url":{"url":"x"},"detail":null}"#),
        Err(ContentError::InvalidField(ContentField::Detail))
    );
    let twice = Json::Object(vec![
        ("type".to_string(), Json::Text("text".to_string())),
        ("text".to_string(), Json::Text("a".to_string())),
        ("text".to_string(), Json::Text("b".to_string())),
        ("type".to_string(), Json::Number(Number::PosInt(1))),
    ]);
    assert_eq!(Content::from_json(&twice), Err(ContentError::DuplicateField(ContentField::Text)));
}

#[test]
fn text_converts_into_a_text_part() {
    assert_eq!(Content::from("hi"), Content::text("hi"));
    assert_eq!(Content::from("hi".to_string()), Content::Text { text: "hi".to_string() });
    let parts: Vec<Content> = vec!["a".into(), "b".to_string().into()];
    assert_eq!(parts, vec![Content::text("a"), Content::text("b")]);
}

#[test]
fn schema_and_tool_defaults() {
    let s = Schema::default();
    assert_eq!(s.kind, SchemaKind::Object);
    assert_eq!(s.description, None);
    assert_eq!(s.additional_properties, None);
    assert!(s.variants.is_empty() && s.properties.is_empty() && s.required.is_empty());
    assert_eq!(s.minimum, None);
    assert_eq!(s.maximum, None);
    assert_eq!(s.items_schema, None);
    assert_eq!(s.to_json(), obj(vec![("type", t("object"))]));
    let d = Tool::default();
    assert_eq!(d.name, "");
    assert_eq!(d.description, None);
    assert_eq!(d.parameters, Schema::default());
}

#[test]
fn copies_are_equal() {
    let s = Schema::object("d")
        .required_property("a", Schema::array("").items_schema(Schema::string("x")))
        .optional_property("b", Schema::number("").minimum(Number::PosInt(1)))
        .variants(vec!["v".to_string()]);
    assert_eq!(s.clone(), s);
    assert_eq!(s.clone().to_json(), s.to_json());
    let tool = weather();
    assert_eq!(tool.clone(), tool);
    let c = Completions::anthropic("k", "m")
        .schema(s)
        .tool(tool)
        .user_message(vec![Content::text("hello world")]);
    assert_eq!(c.clone(), c);
    assert_eq!(c.clone().body(), c.body());
}
