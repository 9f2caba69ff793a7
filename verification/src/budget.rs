//! The token budgeter: trims a conversation to a token budget by evicting
//! its oldest messages. System messages and the last message always stay.

use vstd::prelude::*;
use crate::message::Message;
use crate::role::Role;

verus! {

/// The cached token cost of messages together.
pub open spec fn total_cost(messages: Seq<Message>) -> nat
    decreases messages.len(),
{
    if messages.len() == 0 {
        0
    } else {
        total_cost(messages.drop_last()) + messages.last().tokens_count as nat
    }
}

/// The system messages among messages, in order.
pub open spec fn system_messages(messages: Seq<Message>) -> Seq<Message>
    decreases messages.len(),
{
    if messages.len() == 0 {
        Seq::empty()
    } else {
        let before = system_messages(messages.drop_last());
        if messages.last().role == Role::System {
            before.push(messages.last())
        } else {
            before
        }
    }
}

/// The place of the first message that is no system message, or the number
/// of messages where all are.
pub open spec fn first_evictable(messages: Seq<Message>) -> int
    decreases messages.len(),
{
    if messages.len() == 0 || messages[0].role != Role::System {
        0
    } else {
        1 + first_evictable(messages.drop_first())
    }
}

/// `first_evictable` is the least place of a message that is no system
/// message.
pub proof fn lemma_first_evictable(messages: Seq<Message>)
    ensures
        0 <= first_evictable(messages) <= messages.len(),
        forall|j: int| 0 <= j < first_evictable(messages) ==> messages[j].role == Role::System,
        first_evictable(messages) < messages.len() ==> messages[first_evictable(messages)].role
            != Role::System,
    decreases messages.len(),
{
    if messages.len() == 0 || messages[0].role != Role::System {
    } else {
        let rest = messages.drop_first();
        lemma_first_evictable(rest);
        assert forall|j: int| 0 <= j < first_evictable(messages) implies messages[j].role
            == Role::System by {
            if j > 0 {
                assert(messages[j] == rest[j - 1]);
            }
        }
    }
}

/// The least place of a message that is no system message is
/// `first_evictable`.
pub proof fn lemma_first_evictable_is(messages: Seq<Message>, at: int)
    requires
        0 <= at <= messages.len(),
        forall|j: int| 0 <= j < at ==> messages[j].role == Role::System,
        at < messages.len() ==> messages[at].role != Role::System,
    ensures
        first_evictable(messages) == at,
{
    lemma_first_evictable(messages);
    let e = first_evictable(messages);
    if e < at {
        assert(messages[e].role == Role::System);
    } else if at < e {
        assert(messages[at].role == Role::System);
    }
}

/// Nothing more can be evicted: every message but the last is a system
/// message.
pub open spec fn exhausted(messages: Seq<Message>) -> bool {
    forall|i: int| 0 <= i < messages.len() - 1 ==> (#[trigger] messages[i]).role == Role::System
}

/// The conversation trimmed to a budget: as long as the cost is over the
/// budget, the oldest message that is neither a system message nor the last
/// message is evicted.
pub open spec fn evict(messages: Seq<Message>, budget: nat) -> Seq<Message>
    decreases messages.len(),
{
    if total_cost(messages) <= budget || messages.len() == 0 {
        messages
    } else {
        let at = first_evictable(messages.drop_last());
        if at < messages.len() - 1 {
            proof {
                lemma_first_evictable(messages.drop_last());
            }
            evict(messages.remove(at), budget)
        } else {
            messages
        }
    }
}

/// The cost without a message is the cost less the cost of that message.
pub proof fn lemma_total_cost_remove(messages: Seq<Message>, at: int)
    requires
        0 <= at < messages.len(),
    ensures
        total_cost(messages) == total_cost(messages.remove(at)) + messages[at].tokens_count,
    decreases messages.len(),
{
    if at == messages.len() - 1 {
        assert(messages.remove(at) =~= messages.drop_last());
    } else {
        lemma_total_cost_remove(messages.drop_last(), at);
        assert(messages.remove(at).drop_last() =~= messages.drop_last().remove(at));
        assert(messages.remove(at).last() == messages.last());
    }
}

/// Taking out a message that is no system message keeps the system
/// messages.
pub proof fn lemma_system_messages_remove(messages: Seq<Message>, at: int)
    requires
        0 <= at < messages.len(),
        messages[at].role != Role::System,
    ensures
        system_messages(messages.remove(at)) == system_messages(messages),
    decreases messages.len(),
{
    if at == messages.len() - 1 {
        assert(messages.remove(at) =~= messages.drop_last());
    } else {
        lemma_system_messages_remove(messages.drop_last(), at);
        assert(messages.remove(at).drop_last() =~= messages.drop_last().remove(at));
        assert(messages.remove(at).last() == messages.last());
    }
}

/// After trimming the cost is within the budget, or nothing more could be
/// evicted.
pub proof fn lemma_evict_fits(messages: Seq<Message>, budget: nat)
    ensures
        total_cost(evict(messages, budget)) <= budget || exhausted(evict(messages, budget)),
    decreases messages.len(),
{
    if total_cost(messages) <= budget || messages.len() == 0 {
    } else {
        let head = messages.drop_last();
        let at = first_evictable(head);
        lemma_first_evictable(head);
        if at < messages.len() - 1 {
            lemma_evict_fits(messages.remove(at), budget);
        } else {
            assert forall|i: int| 0 <= i < messages.len() - 1 implies (#[trigger] messages[i]).role
                == Role::System by {
                assert(messages[i] == head[i]);
            }
        }
    }
}

/// Trimming never removes a system message: the system messages are the
/// same before and after, in the same order.
pub proof fn lemma_evict_keeps_system(messages: Seq<Message>, budget: nat)
    ensures
        system_messages(evict(messages, budget)) == system_messages(messages),
    decreases messages.len(),
{
    if total_cost(messages) <= budget || messages.len() == 0 {
    } else {
        let head = messages.drop_last();
        let at = first_evictable(head);
        lemma_first_evictable(head);
        if at < messages.len() - 1 {
            assert(messages[at] == head[at]);
            lemma_system_messages_remove(messages, at);
            lemma_evict_keeps_system(messages.remove(at), budget);
        }
    }
}

/// Trimming never removes the last message, and never adds a message.
pub proof fn lemma_evict_keeps_last(messages: Seq<Message>, budget: nat)
    ensures
        evict(messages, budget).len() <= messages.len(),
        messages.len() > 0 ==> evict(messages, budget).len() > 0 && evict(
            messages,
            budget,
        ).last() == messages.last(),
    decreases messages.len(),
{
    if total_cost(messages) <= budget || messages.len() == 0 {
    } else {
        let head = messages.drop_last();
        let at = first_evictable(head);
        lemma_first_evictable(head);
        if at < messages.len() - 1 {
            lemma_evict_keeps_last(messages.remove(at), budget);
            assert(messages.remove(at).last() == messages.last());
        }
    }
}

/// A conversation within its budget is left as it is.
pub proof fn lemma_evict_within_budget(messages: Seq<Message>, budget: nat)
    requires
        total_cost(messages) <= budget,
    ensures
        evict(messages, budget) == messages,
{
}

/// Trims a conversation to a budget. `total` is the running cost of the
/// conversation and is kept in step with it.
pub fn trim(messages: &mut Vec<Message>, total: &mut usize, budget: usize)
    requires
        *old(total) == total_cost(old(messages)@),
    ensures
        final(messages)@ == evict(old(messages)@, budget as nat),
        *final(total) == total_cost(final(messages)@),
        *final(total) <= budget || exhausted(final(messages)@),
        system_messages(final(messages)@) == system_messages(old(messages)@),
        old(messages)@.len() > 0 ==> final(messages)@.len() > 0 && final(messages)@.last() == old(
            messages,
        )@.last(),
{
    proof {
        lemma_evict_fits(messages@, budget as nat);
        lemma_evict_keeps_system(messages@, budget as nat);
        lemma_evict_keeps_last(messages@, budget as nat);
    }
    if messages.len() == 0 {
        return ;
    }
    let mut idx: usize = 0;
    while *total > budget && idx < messages.len() - 1
        invariant
            messages@.len() > 0,
            idx <= messages@.len() - 1,
            *total == total_cost(messages@),
            forall|j: int| 0 <= j < idx ==> (#[trigger] messages@[j]).role == Role::System,
            evict(messages@, budget as nat) == evict(old(messages)@, budget as nat),
        decreases messages@.len() - idx,
    {
        if messages[idx].role.is_system() {
            idx += 1;
        } else {
            proof {
                let head = messages@.drop_last();
                assert forall|j: int| 0 <= j < idx implies head[j].role == Role::System by {
                    assert(head[j] == messages@[j]);
                }
                assert(head[idx as int] == messages@[idx as int]);
                lemma_first_evictable_is(head, idx as int);
                lemma_total_cost_remove(messages@, idx as int);
            }
            let ghost before = messages@;
            let evicted = messages.remove(idx);
            *total = *total - evicted.tokens_count;
            proof {
                assert forall|j: int| 0 <= j < idx implies (#[trigger] messages@[j]).role
                    == Role::System by {
                    assert(messages@[j] == before[j]);
                }
            }
        }
    }
    proof {
        if *total > budget {
            let head = messages@.drop_last();
            assert forall|j: int| 0 <= j < head.len() implies head[j].role == Role::System by {
                assert(head[j] == messages@[j]);
            }
            lemma_first_evictable_is(head, head.len() as int);
        }
    }
}

} // verus!
