//! Streaming normalisation for chat-completion APIs of language-model providers.
//!
//! The library trims a conversation to a token budget, composes the request
//! document of either wire family, splits a received byte stream into
//! server-sent events, decodes each event and reassembles fragmented tool
//! calls. Every function carries a contract that Verus proves.

pub mod assembler;
pub mod budget;
pub mod chunk;
pub mod completions;
pub mod content;
pub mod decode;
pub mod embeddings;
pub mod error;
pub mod frames;
pub mod image;
pub mod json;
pub mod kind;
pub mod message;
pub mod role;
pub mod schema;
pub mod stream;
pub mod text;
pub mod tool;
pub mod utils;

pub use chunk::Chunk;
pub use completions::Completions;
pub use content::{Content, Image};
pub use embeddings::{Embeddings, Usage};
pub use error::Error;
pub use frames::{DonePolicy, Frame, FrameSplitter};
pub use json::{Json, Number};
pub use kind::ApiKind;
pub use message::Message;
pub use role::Role;
pub use schema::{Schema, SchemaKind};
pub use stream::StreamDecoder;
pub use tool::Tool;
pub use utils::{count_tokens, tokenize};
