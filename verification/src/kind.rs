//! Providers, and what is fixed by the choice of one: the host, the paths and
//! the wire family of the streamed reply.

use vstd::prelude::*;

verus! {

pub const LMSTUDIO_HOST: &'static str = "http://localhost:1234";

pub const OPENAI_HOST: &'static str = "https://api.openai.com";

pub const CEREBRAS_HOST: &'static str = "https://api.cerebras.ai";

pub const OPENROUTER_HOST: &'static str = "https://openrouter.ai/api";

pub const PERPLEXITY_HOST: &'static str = "https://api.perplexity.ai";

pub const ANTHROPIC_HOST: &'static str = "https://api.anthropic.com";

pub const VOYAGE_HOST: &'static str = "https://api.voyageai.com";

/// The provider that a request is addressed to.
#[derive(Clone, Copy, Debug, PartialEq, Eq, Hash, Structural)]
pub enum ApiKind {
    /// OpenAI API (/v1/chat/completions, /v1/embeddings)
    OpenAI,
    /// Anthropic API (/v1/messages)
    Anthropic,
    /// Local models (OpenAI compatible)
    LmStudio,
    /// OpenAI models (OpenAI compatible)
    ChatGpt,
    /// Cerebras models (OpenAI compatible)
    Cerebras,
    /// OpenRouter models (OpenAI compatible)
    OpenRouter,
    /// Perplexity models (OpenAI compatible)
    Perplexity,
    /// Anthropic models (Anthropic compatible)
    Claude,
    /// Embeddings models (in place of Anthropic embeddings)
    Voyage,
}

impl ApiKind {
    /// The provider streams typed events (the Anthropic family) rather than
    /// per-token deltas (the OpenAI family).
    pub open spec fn anthropic_family(self) -> bool {
        self == ApiKind::Anthropic || self == ApiKind::Claude
    }

    /// The default host of the provider.
    pub open spec fn host_text(self) -> Seq<char> {
        match self {
            ApiKind::OpenAI | ApiKind::ChatGpt => OPENAI_HOST@,
            ApiKind::Anthropic | ApiKind::Claude => ANTHROPIC_HOST@,
            ApiKind::LmStudio => LMSTUDIO_HOST@,
            ApiKind::Cerebras => CEREBRAS_HOST@,
            ApiKind::OpenRouter => OPENROUTER_HOST@,
            ApiKind::Perplexity => PERPLEXITY_HOST@,
            ApiKind::Voyage => VOYAGE_HOST@,
        }
    }

    /// The path of the completions endpoint.
    pub open spec fn completions_path(self) -> Seq<char> {
        if self.anthropic_family() {
            "v1/messages"@
        } else {
            "v1/chat/completions"@
        }
    }

    /// The path of the embeddings endpoint.
    pub open spec fn embeddings_path(self) -> Seq<char> {
        "v1/embeddings"@
    }

    /// Returns true if the provider speaks the OpenAI wire family.
    pub fn is_openai_standart(&self) -> (r: bool)
        ensures
            r == !self.anthropic_family(),
    {
        *self != ApiKind::Anthropic && *self != ApiKind::Claude
    }

    /// Returns true if the provider speaks the Anthropic wire family.
    pub fn is_anthropic_standart(&self) -> (r: bool)
        ensures
            r == self.anthropic_family(),
    {
        *self == ApiKind::Anthropic || *self == ApiKind::Claude
    }

    /// Returns the default host.
    pub fn host(&self) -> (r: &'static str)
        ensures
            r@ == self.host_text(),
    {
        match *self {
            ApiKind::OpenAI | ApiKind::ChatGpt => OPENAI_HOST,
            ApiKind::Anthropic | ApiKind::Claude => ANTHROPIC_HOST,
            ApiKind::LmStudio => LMSTUDIO_HOST,
            ApiKind::Cerebras => CEREBRAS_HOST,
            ApiKind::OpenRouter => OPENROUTER_HOST,
            ApiKind::Perplexity => PERPLEXITY_HOST,
            ApiKind::Voyage => VOYAGE_HOST,
        }
    }

    /// Returns the completions path.
    pub fn completions(&self) -> (r: &'static str)
        ensures
            r@ == self.completions_path(),
    {
        if self.is_anthropic_standart() {
            "v1/messages"
        } else {
            "v1/chat/completions"
        }
    }

    /// Returns the embeddings path.
    pub fn embeddings(&self) -> (r: &'static str)
        ensures
            r@ == self.embeddings_path(),
    {
        "v1/embeddings"
    }

    /// Returns the completions URL on the default host.
    pub fn completions_url(&self) -> (r: String)
        ensures
            r@ == self.host_text() + "/"@ + self.completions_path(),
    {
        String::from_str(self.host()).concat("/").concat(self.completions())
    }

    /// Returns the embeddings URL on the default host.
    pub fn embeddings_url(&self) -> (r: String)
        ensures
            r@ == self.host_text() + "/"@ + self.embeddings_path(),
    {
        String::from_str(self.host()).concat("/").concat(self.embeddings())
    }

    /// Returns the completions URL on a custom server: the server replaces
    /// the host, the path stays that of the provider.
    pub fn custom_completions_url(&self, server: &str) -> (r: String)
        ensures
            r@ == server@ + "/"@ + self.completions_path(),
    {
        String::from_str(server).concat("/").concat(self.completions())
    }

    /// Returns the embeddings URL on a custom server.
    pub fn custom_embeddings_url(&self, server: &str) -> (r: String)
        ensures
            r@ == server@ + "/"@ + self.embeddings_path(),
    {
        String::from_str(server).concat("/").concat(self.embeddings())
    }
}

impl Default for ApiKind {
    fn default() -> (r: Self)
        ensures
            r == ApiKind::OpenAI,
    {
        ApiKind::OpenAI
    }
}

} // verus!
