//! The embeddings request: its state, the builders that fill it, and what is
//! sent for it.

use vstd::prelude::*;
use crate::completions::{pair_views, Request, DEFAULT_VERSION, LOCAL_SERVER};
use crate::content::option_view;
use crate::json::{member_views, Json, JsonView};
use crate::kind::ApiKind;
use crate::schema::{text_array, texts_json};

verus! {

/// The embeddings usage info
#[derive(Clone, Copy, Debug, PartialEq, Eq, Structural)]
pub struct Usage {
    pub total_tokens: usize,
}

/// The LM API embeddings request
#[derive(Debug, Clone, PartialEq, Eq)]
pub struct Embeddings {
    /// The API version
    pub api_version: Option<String>,
    /// The API standart
    pub api_kind: ApiKind,
    /// The API authorization key
    pub api_key: String,
    /// The custom server host
    pub server: Option<String>,
    /// The AI model name
    pub model: String,
    /// The input texts
    pub input: Vec<String>,
}

/// The address of an embeddings request: the embeddings path, on the custom
/// server where one is set and on the provider's host otherwise.
pub open spec fn embeddings_url(request: Embeddings) -> Seq<char> {
    match request.server {
        Some(server) => server@ + "/"@ + request.api_kind.embeddings_path(),
        None => request.api_kind.host_text() + "/"@ + request.api_kind.embeddings_path(),
    }
}

/// The headers of an embeddings request; the key goes as it stands.
pub open spec fn embeddings_headers(request: Embeddings) -> Seq<(Seq<char>, Seq<char>)> {
    seq![("content-type"@, "application/json"@), ("authorization"@, request.api_key@)]
}

/// The body of an embeddings request: the model and the input texts.
pub open spec fn embeddings_doc(request: Embeddings) -> JsonView {
    JsonView::Object(
        seq![("model"@, JsonView::Text(request.model@)), ("input"@, text_array(request.input@))],
    )
}

impl Embeddings {
    /// The state of a new request to a provider.
    pub open spec fn is_new(&self, kind: ApiKind, key: Seq<char>, model: Seq<char>) -> bool {
        &&& self.api_kind == kind
        &&& self.api_key@ == key
        &&& self.model@ == model
        &&& option_view(self.server) == if kind == ApiKind::LmStudio {
            Some(LOCAL_SERVER@)
        } else {
            None
        }
        &&& option_view(self.api_version) == if kind.anthropic_family() {
            Some(DEFAULT_VERSION@)
        } else {
            None
        }
        &&& self.input@.len() == 0
    }

    /// Creates a new LM embeddings request
    pub fn new(kind: ApiKind, key: &str, model: &str) -> (r: Self)
        ensures
            r.is_new(kind, key@, model@),
    {
        Embeddings {
            server: if kind == ApiKind::LmStudio {
                Some(String::from_str(LOCAL_SERVER))
            } else {
                None
            },
            api_version: if kind.is_anthropic_standart() {
                Some(String::from_str(DEFAULT_VERSION))
            } else {
                None
            },
            api_kind: kind,
            api_key: String::from_str(key),
            model: String::from_str(model),
            input: Vec::new(),
        }
    }

    /// Creates a new OpenAI (ChatGPT) embeddings request
    pub fn openai(key: &str, model: &str) -> (r: Self)
        ensures
            r.is_new(ApiKind::OpenAI, key@, model@),
    {
        Embeddings::new(ApiKind::OpenAI, key, model)
    }

    /// Creates a new Anthropic (Voyage) embeddings request
    pub fn anthropic(key: &str, model: &str) -> (r: Self)
        ensures
            r.is_new(ApiKind::Voyage, key@, model@),
    {
        Embeddings::new(ApiKind::Voyage, key, model)
    }

    /// Creates a new LM Studio embeddings request
    pub fn lmstudio(key: &str, model: &str) -> (r: Self)
        ensures
            r.is_new(ApiKind::LmStudio, key@, model@),
    {
        Embeddings::new(ApiKind::LmStudio, key, model)
    }

    /// Creates a new ChatGPT embeddings request
    pub fn chatgpt(key: &str, model: &str) -> (r: Self)
        ensures
            r.is_new(ApiKind::ChatGpt, key@, model@),
    {
        Embeddings::new(ApiKind::ChatGpt, key, model)
    }

    /// Creates a new Cerebras embeddings request
    pub fn cerebras(key: &str, model: &str) -> (r: Self)
        ensures
            r.is_new(ApiKind::Cerebras, key@, model@),
    {
        Embeddings::new(ApiKind::Cerebras, key, model)
    }

    /// Creates a new embeddings request to Voyage, for the models of Anthropic
    pub fn claude(key: &str, model: &str) -> (r: Self)
        ensures
            r.is_new(ApiKind::Voyage, key@, model@),
    {
        Embeddings::new(ApiKind::Voyage, key, model)
    }

    /// Creates a new OpenRouter embeddings request
    pub fn openrouter(key: &str, model: &str) -> (r: Self)
        ensures
            r.is_new(ApiKind::OpenRouter, key@, model@),
    {
        Embeddings::new(ApiKind::OpenRouter, key, model)
    }

    /// Creates a new Perplexity AI embeddings request
    pub fn perplexity(key: &str, model: &str) -> (r: Self)
        ensures
            r.is_new(ApiKind::Perplexity, key@, model@),
    {
        Embeddings::new(ApiKind::Perplexity, key, model)
    }

    /// Creates a new Voyage embeddings request
    pub fn voyage(key: &str, model: &str) -> (r: Self)
        ensures
            r.is_new(ApiKind::Voyage, key@, model@),
    {
        Embeddings::new(ApiKind::Voyage, key, model)
    }

    /// Sets the LM API authorization key
    pub fn key(self, key: &str) -> (r: Self)
        ensures
            r == (Embeddings { api_key: r.api_key, ..self }),
            r.api_key@ == key@,
    {
        let mut r = self;
        r.api_key = String::from_str(key);
        r
    }

    /// Sets the LM API authorization key
    pub fn set_key(&mut self, key: &str)
        ensures
            *final(self) == (Embeddings { api_key: final(self).api_key, ..*old(self) }),
            final(self).api_key@ == key@,
    {
        self.api_key = String::from_str(key);
    }

    /// Sets the custom LM API server URL host
    pub fn server(self, url: &str) -> (r: Self)
        ensures
            r == (Embeddings { server: r.server, ..self }),
            option_view(r.server) == Some(url@),
    {
        let mut r = self;
        r.server = Some(String::from_str(url));
        r
    }

    /// Sets the custom LM API server URL host
    pub fn set_server(&mut self, url: &str)
        ensures
            *final(self) == (Embeddings { server: final(self).server, ..*old(self) }),
            option_view(final(self).server) == Some(url@),
    {
        self.server = Some(String::from_str(url));
    }

    /// Sets the LM model name
    pub fn model(self, model: &str) -> (r: Self)
        ensures
            r == (Embeddings { model: r.model, ..self }),
            r.model@ == model@,
    {
        let mut r = self;
        r.model = String::from_str(model);
        r
    }

    /// Sets the LM model name
    pub fn set_model(&mut self, model: &str)
        ensures
            *final(self) == (Embeddings { model: final(self).model, ..*old(self) }),
            final(self).model@ == model@,
    {
        self.model = String::from_str(model);
    }

    /// Adds embedding input
    pub fn input(self, input: &str) -> (r: Self)
        ensures
            r == (Embeddings { input: r.input, ..self }),
            r.input@.len() == self.input@.len() + 1,
            r.input@.drop_last() == self.input@,
            r.input@.last()@ == input@,
    {
        let mut r = self;
        r.add_input(input);
        r
    }

    /// Adds embedding input
    pub fn add_input(&mut self, input: &str)
        ensures
            *final(self) == (Embeddings { input: final(self).input, ..*old(self) }),
            final(self).input@.len() == old(self).input@.len() + 1,
            final(self).input@.drop_last() == old(self).input@,
            final(self).input@.last()@ == input@,
    {
        self.input.push(String::from_str(input));
        assert(self.input@.drop_last() =~= old(self).input@);
    }

    /// Returns the address of the request.
    pub fn url(&self) -> (r: String)
        ensures
            r@ == embeddings_url(*self),
    {
        match &self.server {
            Some(server) => self.api_kind.custom_embeddings_url(server.as_str()),
            None => self.api_kind.embeddings_url(),
        }
    }

    /// Returns the headers of the request.
    pub fn headers(&self) -> (r: Vec<(String, String)>)
        ensures
            pair_views(r@) == embeddings_headers(*self),
    {
        let mut headers: Vec<(String, String)> = Vec::new();
        headers.push((String::from_str("content-type"), String::from_str("application/json")));
        headers.push((String::from_str("authorization"), self.api_key.clone()));
        assert(pair_views(headers@) =~= embeddings_headers(*self));
        headers
    }

    /// Returns the body of the request.
    pub fn body(&self) -> (r: Json)
        ensures
            r@ == embeddings_doc(*self),
    {
        let mut members: Vec<(String, Json)> = Vec::new();
        assert(member_views(members@) =~= Seq::empty());
        Json::put(&mut members, "model", Json::text(self.model.as_str()));
        Json::put(&mut members, "input", texts_json(&self.input));
        assert(member_views(members@) =~= seq![
            ("model"@, JsonView::Text(self.model@)),
            ("input"@, text_array(self.input@)),
        ]);
        Json::object(members)
    }

    /// Makes ready what is sent for the request.
    pub fn prepare(&self) -> (r: Request)
        ensures
            r.url@ == embeddings_url(*self),
            pair_views(r.headers@) == embeddings_headers(*self),
            r.body@ == embeddings_doc(*self),
    {
        Request { url: self.url(), headers: self.headers(), body: self.body() }
    }
}

} // verus!
