//! Conversation messages. A message caches its token cost, which is counted
//! once, when the message is made.

use vstd::prelude::*;
use crate::content::{
    content_cost, content_views, countable, lemma_content_cost_prefix, Content, ContentView,
};
use crate::role::Role;
use crate::utils::{count_tokens, encode_cl100k};

verus! {

/// The request message
#[derive(Debug, Clone, PartialEq, Eq)]
pub struct Message {
    pub role: Role,
    pub content: Vec<Content>,
    /// The cached token cost of the content.
    pub tokens_count: usize,
}

impl Message {
    /// The cached cost is the cost of the content.
    pub open spec fn wf(&self) -> bool {
        countable(content_views(self.content@)) && self.tokens_count == content_cost(
            content_views(self.content@),
        )
    }

    /// The content can be counted and its cost fits the machine.
    pub open spec fn counts(content: Seq<ContentView>) -> bool {
        countable(content) && content_cost(content) <= usize::MAX
    }

    /// Returns the token cost of a content; `None` where a text cannot be
    /// tokenised or the cost does not fit the machine.
    pub fn checked_count_tokens(content: &[Content]) -> (r: Option<usize>)
        ensures
            r matches Some(n) ==> Message::counts(content_views(content@)) && n == content_cost(
                content_views(content@),
            ),
            r is None ==> !Message::counts(content_views(content@)),
    {
        let ghost all = content_views(content@);
        let mut sum: usize = 0;
        let mut i: usize = 0;
        assert(all.take(0) =~= Seq::<ContentView>::empty());
        while i < content.len()
            invariant
                i <= content@.len(),
                all == content_views(content@),
                forall|j: int| 0 <= j < i ==> (#[trigger] all[j]).cost() is Some,
                sum == content_cost(all.take(i as int)),
            decreases content@.len() - i,
        {
            proof {
                assert(all.take(i + 1).drop_last() =~= all.take(i as int));
                assert(all.take(i + 1).last() == content@[i as int]@);
                assert(all[i as int] == content@[i as int]@);
                lemma_content_cost_prefix(all, i + 1);
            }
            let cost = match &content[i] {
                Content::Text { text } => match encode_cl100k(text.as_str()) {
                    Some(ids) => ids.len(),
                    None => {
                        assert(all[i as int].cost() is None);
                        return None;
                    },
                },
                Content::Image { image: _, detail } => Content::image_tokens(detail),
            };
            match sum.checked_add(cost) {
                Some(next) => {
                    sum = next;
                },
                None => {
                    return None;
                },
            }
            i += 1;
        }
        assert(all.take(i as int) =~= all);
        Some(sum)
    }

    /// Returns the token cost of a content.
    pub fn count_tokens(content: &[Content]) -> (r: usize)
        requires
            Message::counts(content_views(content@)),
        ensures
            r == content_cost(content_views(content@)),
    {
        let ghost all = content_views(content@);
        let mut sum: usize = 0;
        let mut i: usize = 0;
        assert(all.take(0) =~= Seq::<ContentView>::empty());
        while i < content.len()
            invariant
                i <= content@.len(),
                all == content_views(content@),
                Message::counts(all),
                sum == content_cost(all.take(i as int)),
            decreases content@.len() - i,
        {
            proof {
                assert(all.take(i + 1).drop_last() =~= all.take(i as int));
                assert(all.take(i + 1).last() == content@[i as int]@);
                assert(all[i as int] == content@[i as int]@);
                assert(all[i as int].cost() is Some);
                lemma_content_cost_prefix(all, i + 1);
            }
            let cost = match &content[i] {
                Content::Text { text } => count_tokens(text.as_str()),
                Content::Image { image: _, detail } => Content::image_tokens(detail),
            };
            sum = sum + cost;
            i += 1;
        }
        assert(all.take(i as int) =~= all);
        sum
    }

    /// Creates a new message and counts its tokens.
    pub fn new(role: Role, content: Vec<Content>) -> (r: Self)
        requires
            Message::counts(content_views(content@)),
        ensures
            r.role == role,
            r.content == content,
            r.wf(),
    {
        let tokens_count = Message::count_tokens(content.as_slice());
        Message { role, content, tokens_count }
    }

    /// The system prompt message
    pub fn system(content: Vec<Content>) -> (r: Self)
        requires
            Message::counts(content_views(content@)),
        ensures
            r.role == Role::System,
            r.content == content,
            r.wf(),
    {
        Message::new(Role::System, content)
    }

    /// The user prompt message
    pub fn user(content: Vec<Content>) -> (r: Self)
        requires
            Message::counts(content_views(content@)),
        ensures
            r.role == Role::User,
            r.content == content,
            r.wf(),
    {
        Message::new(Role::User, content)
    }

    /// The assistant prompt message
    pub fn assistant(content: Vec<Content>) -> (r: Self)
        requires
            Message::counts(content_views(content@)),
        ensures
            r.role == Role::Assistant,
            r.content == content,
            r.wf(),
    {
        Message::new(Role::Assistant, content)
    }

    /// Creates a new message and counts its tokens; `None`, where a text of
    /// the content cannot be tokenised or the cost does not fit the machine.
    pub fn try_new(role: Role, content: Vec<Content>) -> (r: Option<Self>)
        ensures
            match r {
                Some(message) => Message::counts(content_views(content@)) && message.role == role
                    && message.content == content && message.wf(),
                None => !Message::counts(content_views(content@)),
            },
    {
        match Message::checked_count_tokens(content.as_slice()) {
            Some(_) => Some(
                match role {
                    Role::System => Message::system(content),
                    Role::User => Message::user(content),
                    Role::Assistant => Message::assistant(content),
                },
            ),
            None => None,
        }
    }
}

} // verus!
