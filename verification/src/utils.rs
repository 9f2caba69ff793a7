//! Token counting.

use vstd::prelude::*;

verus! {

/// The tokens of a text in the `cl100k_base` encoding, with the special
/// tokens read as such; `None` for a text that the encoder gives up on.
pub uninterp spec fn cl100k_tokens(text: Seq<char>) -> Option<Seq<u32>>;

/// `CoreBPE::encode` of `tiktoken_rs`, on the `cl100k_base` encoder and with
/// every special token of that encoder allowed. The encoder fails on a text
/// on which its pattern runs out of steps.
#[verifier::external_body]
pub(crate) fn encode_cl100k(text: &str) -> (r: Option<Vec<u32>>)
    ensures
        r matches Some(ids) ==> cl100k_tokens(text@) == Some(ids@),
        r is None ==> cl100k_tokens(text@) is None,
{
    let encoder = tiktoken_rs::cl100k_base_singleton();
    encoder.encode(text, &encoder.special_tokens()).ok().map(|(ids, _)| ids)
}

/// The number of tokens of a text; `None` for a text that cannot be
/// tokenised.
pub open spec fn token_count(text: Seq<char>) -> Option<nat> {
    match cl100k_tokens(text) {
        Some(ids) => Some(ids.len()),
        None => None,
    }
}

/// Tokenises a text; `None` for a text that cannot be tokenised.
pub fn try_tokenize(text: &str) -> (r: Option<Vec<u32>>)
    ensures
        r matches Some(ids) ==> cl100k_tokens(text@) == Some(ids@),
        r is None ==> cl100k_tokens(text@) is None,
{
    match encode_cl100k(text) {
        Some(_) => Some(tokenize(text)),
        None => None,
    }
}

/// Counts the tokens of a text; `None` for a text that cannot be tokenised.
pub fn try_count_tokens(text: &str) -> (r: Option<usize>)
    ensures
        r matches Some(n) ==> token_count(text@) == Some(n as nat),
        r is None ==> token_count(text@) is None,
{
    match encode_cl100k(text) {
        Some(_) => Some(count_tokens(text)),
        None => None,
    }
}

/// Tokenises a text.
pub fn tokenize(text: &str) -> (r: Vec<u32>)
    requires
        cl100k_tokens(text@) is Some,
    ensures
        cl100k_tokens(text@) == Some(r@),
{
    match encode_cl100k(text) {
        Some(ids) => ids,
        None => Vec::new(),
    }
}

/// Returns the number of tokens of a text.
pub fn count_tokens(text: &str) -> (r: usize)
    requires
        cl100k_tokens(text@) is Some,
    ensures
        token_count(text@) == Some(r as nat),
{
    tokenize(text).len()
}

} // verus!
