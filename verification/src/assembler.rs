//! The tool-call assembler: collects the fragments of tool calls, keyed by
//! the index that the provider gave them, until the arguments of a call are
//! a complete JSON document.

use vstd::prelude::*;
use crate::chunk::{chunk_views, Chunk, ChunkView};
use crate::json::{json_parse, Json};

verus! {

/// One fragment of a tool call.
#[derive(Debug, Clone, PartialEq, Eq)]
pub struct Fragment {
    /// The index of the call that the fragment belongs to.
    pub index: u64,
    /// The name of the tool, where the fragment carries it.
    pub name: Option<String>,
    /// The next piece of the arguments, where the fragment carries one.
    pub arguments: Option<String>,
}

/// The mathematical value of a fragment.
pub ghost struct FragmentView {
    pub index: u64,
    pub name: Option<Seq<char>>,
    pub arguments: Option<Seq<char>>,
}

impl View for Fragment {
    type V = FragmentView;

    open spec fn view(&self) -> FragmentView {
        FragmentView {
            index: self.index,
            name: match self.name {
                Some(name) => Some(name@),
                None => None,
            },
            arguments: match self.arguments {
                Some(arguments) => Some(arguments@),
                None => None,
            },
        }
    }
}

/// The values of a sequence of fragments.
pub open spec fn fragment_views(fragments: Seq<Fragment>) -> Seq<FragmentView> {
    Seq::new(fragments.len(), |i: int| fragments[i]@)
}

/// A tool call that is being assembled.
#[derive(Debug, Clone, PartialEq, Eq)]
pub struct Entry {
    pub index: u64,
    pub name: String,
    pub arguments: String,
}

/// The mathematical value of an entry.
pub ghost struct EntryView {
    pub index: u64,
    pub name: Seq<char>,
    pub arguments: Seq<char>,
}

impl View for Entry {
    type V = EntryView;

    open spec fn view(&self) -> EntryView {
        EntryView { index: self.index, name: self.name@, arguments: self.arguments@ }
    }
}

/// The values of a sequence of entries.
pub open spec fn entry_views(entries: Seq<Entry>) -> Seq<EntryView> {
    Seq::new(entries.len(), |i: int| entries[i]@)
}

impl EntryView {
    /// The entry of a call of which nothing is known yet.
    pub open spec fn blank(index: u64) -> EntryView {
        EntryView { index, name: Seq::empty(), arguments: Seq::empty() }
    }

    /// The entry after a fragment: a name replaces the name, arguments are
    /// appended to the arguments.
    pub open spec fn absorb(self, fragment: FragmentView) -> EntryView {
        EntryView {
            index: self.index,
            name: match fragment.name {
                Some(name) => name,
                None => self.name,
            },
            arguments: match fragment.arguments {
                Some(arguments) => self.arguments + arguments,
                None => self.arguments,
            },
        }
    }

    /// The arguments are a complete JSON document.
    pub open spec fn complete(self) -> bool {
        json_parse(self.arguments) is Some
    }

    /// The chunk that a complete entry is surfaced as.
    pub open spec fn chunk(self) -> ChunkView {
        ChunkView::Tool(self.name, self.arguments)
    }
}

/// No two entries have the same index.
pub open spec fn distinct(entries: Seq<EntryView>) -> bool {
    forall|i: int, j: int|
        0 <= i < j < entries.len() ==> #[trigger] entries[i].index != #[trigger] entries[j].index
}

/// The place of the first entry with this index, or the number of entries
/// where none has it.
pub open spec fn slot(entries: Seq<EntryView>, index: u64) -> int
    decreases entries.len(),
{
    if entries.len() == 0 || entries[0].index == index {
        0
    } else {
        1 + slot(entries.drop_first(), index)
    }
}

/// `slot` is the least place at which the index stands.
pub proof fn lemma_slot(entries: Seq<EntryView>, index: u64)
    ensures
        0 <= slot(entries, index) <= entries.len(),
        forall|j: int| 0 <= j < slot(entries, index) ==> entries[j].index != index,
        slot(entries, index) < entries.len() ==> entries[slot(entries, index)].index == index,
    decreases entries.len(),
{
    if entries.len() == 0 || entries[0].index == index {
    } else {
        let rest = entries.drop_first();
        lemma_slot(rest, index);
        assert forall|j: int| 0 <= j < slot(entries, index) implies entries[j].index != index by {
            if j > 0 {
                assert(entries[j] == rest[j - 1]);
            }
        }
    }
}

/// The least place at which the index stands is `slot`.
pub proof fn lemma_slot_is(entries: Seq<EntryView>, index: u64, at: int)
    requires
        0 <= at <= entries.len(),
        forall|j: int| 0 <= j < at ==> entries[j].index != index,
        at < entries.len() ==> entries[at].index == index,
    ensures
        slot(entries, index) == at,
{
    lemma_slot(entries, index);
    let s = slot(entries, index);
    if s < at {
        assert(entries[s].index != index);
    } else if at < s {
        assert(entries[at].index != index);
    }
}

/// The entries after a fragment. The entry of the fragment's index absorbs
/// it; where there is none yet, a blank one is added at the end first.
pub open spec fn merge(entries: Seq<EntryView>, fragment: FragmentView) -> Seq<EntryView> {
    let at = slot(entries, fragment.index);
    if at < entries.len() {
        entries.update(at, entries[at].absorb(fragment))
    } else {
        entries.push(EntryView::blank(fragment.index).absorb(fragment))
    }
}

/// Where no two entries had the same index, none have after a fragment.
pub proof fn lemma_merge_distinct(entries: Seq<EntryView>, fragment: FragmentView)
    requires
        distinct(entries),
    ensures
        distinct(merge(entries, fragment)),
{
    lemma_slot(entries, fragment.index);
    let after = merge(entries, fragment);
    let at = slot(entries, fragment.index);
    assert forall|i: int, j: int| 0 <= i < j < after.len() implies after[i].index
        != after[j].index by {
        if at < entries.len() {
            assert(entries[i].index != entries[j].index);
        } else if j < entries.len() {
            assert(entries[i].index != entries[j].index);
        }
    }
}

/// The entries after a sequence of fragments, taken in order.
pub open spec fn merge_all(entries: Seq<EntryView>, fragments: Seq<FragmentView>) -> Seq<
    EntryView,
>
    decreases fragments.len(),
{
    if fragments.len() == 0 {
        entries
    } else {
        merge(merge_all(entries, fragments.drop_last()), fragments.last())
    }
}

/// The entries that stay when those flagged in `done` leave, in order.
pub open spec fn kept_where(entries: Seq<EntryView>, done: Seq<bool>) -> Seq<EntryView>
    decreases entries.len(),
{
    if entries.len() == 0 {
        Seq::empty()
    } else {
        let before = kept_where(entries.drop_last(), done.drop_last());
        if done.last() {
            before
        } else {
            before.push(entries.last())
        }
    }
}

/// The chunks of the entries flagged in `done`, in order.
pub open spec fn calls_where(entries: Seq<EntryView>, done: Seq<bool>) -> Seq<ChunkView>
    decreases entries.len(),
{
    if entries.len() == 0 {
        Seq::empty()
    } else {
        let before = calls_where(entries.drop_last(), done.drop_last());
        if done.last() {
            before.push(entries.last().chunk())
        } else {
            before
        }
    }
}

/// For each entry, whether it is complete.
pub open spec fn completeness(entries: Seq<EntryView>) -> Seq<bool> {
    Seq::new(entries.len(), |i: int| entries[i].complete())
}

/// The entries that a drain leaves: those that are not complete.
pub open spec fn kept(entries: Seq<EntryView>) -> Seq<EntryView> {
    kept_where(entries, completeness(entries))
}

/// The chunks that a drain surfaces: one for each complete entry.
pub open spec fn completed(entries: Seq<EntryView>) -> Seq<ChunkView> {
    calls_where(entries, completeness(entries))
}

/// Every entry that stays was there before, flagged as not done, and the
/// entries that stay keep their order.
pub proof fn lemma_kept_where(entries: Seq<EntryView>, done: Seq<bool>)
    requires
        done.len() == entries.len(),
    ensures
        kept_where(entries, done).len() <= entries.len(),
        forall|k: int|
            0 <= k < kept_where(entries, done).len() ==> exists|i: int|
                k <= i < entries.len() && !done[i] && entries[i] == #[trigger] kept_where(
                    entries,
                    done,
                )[k],
        distinct(entries) ==> distinct(kept_where(entries, done)),
    decreases entries.len(),
{
    if entries.len() > 0 {
        let head = entries.drop_last();
        let flags = done.drop_last();
        lemma_kept_where(head, flags);
        let before = kept_where(head, flags);
        let all = kept_where(entries, done);
        assert forall|k: int| 0 <= k < all.len() implies exists|i: int|
            k <= i < entries.len() && !done[i] && entries[i] == #[trigger] all[k] by {
            if k < before.len() {
                let i = choose|i: int|
                    k <= i < head.len() && !flags[i] && head[i] == before[k];
                assert(k <= i < entries.len() && !done[i] && entries[i] == all[k]);
            } else {
                let i = entries.len() - 1;
                assert(k <= i < entries.len() && !done[i] && entries[i] == all[k]);
            }
        }
        if distinct(entries) {
            assert(distinct(head)) by {
                assert forall|i: int, j: int| 0 <= i < j < head.len() implies head[i].index
                    != head[j].index by {
                    assert(entries[i].index != entries[j].index);
                }
            }
            assert forall|a: int, b: int| 0 <= a < b < all.len() implies all[a].index
                != all[b].index by {
                if b < before.len() {
                    assert(before[a].index != before[b].index);
                } else {
                    let i = choose|i: int|
                        a <= i < head.len() && !flags[i] && head[i] == before[a];
                    assert(entries[i].index != entries[entries.len() - 1].index);
                }
            }
        }
    }
}

/// No entry that a drain leaves is complete.
pub proof fn lemma_kept_incomplete(entries: Seq<EntryView>)
    ensures
        forall|k: int| 0 <= k < kept(entries).len() ==> !(#[trigger] kept(entries)[k]).complete(),
{
    lemma_kept_where(entries, completeness(entries));
    assert forall|k: int| 0 <= k < kept(entries).len() implies !(#[trigger] kept(
        entries,
    )[k]).complete() by {
        let done = completeness(entries);
        let i = choose|i: int|
            k <= i < entries.len() && !done[i] && entries[i] == kept_where(entries, done)[k];
        assert(!entries[i].complete());
    }
}

/// Collects the fragments of tool calls and surfaces each call once, when
/// its arguments are complete.
pub struct Assembler {
    entries: Vec<Entry>,
}

impl View for Assembler {
    type V = Seq<EntryView>;

    closed spec fn view(&self) -> Seq<EntryView> {
        entry_views(self.entries@)
    }
}

impl Assembler {
    /// No two entries have the same index. It holds of a new assembler and
    /// every operation keeps it.
    pub open spec fn wf(&self) -> bool {
        distinct(self@)
    }

    /// An assembler without entries.
    pub fn new() -> (r: Self)
        ensures
            r@ == Seq::<EntryView>::empty(),
            r.wf(),
    {
        let r = Assembler { entries: Vec::new() };
        assert(r@ =~= Seq::<EntryView>::empty());
        r
    }

    /// The number of calls that are being assembled.
    pub fn len(&self) -> (r: usize)
        ensures
            r == self@.len(),
    {
        self.entries.len()
    }

    /// Takes a fragment in.
    pub fn merge(&mut self, fragment: Fragment)
        ensures
            final(self)@ == merge(old(self)@, fragment@),
            old(self).wf() ==> final(self).wf(),
    {
        let ghost before = self@;
        let ghost piece = fragment@;
        let index = fragment.index;
        let mut at: usize = 0;
        while at < self.entries.len() && self.entries[at].index != index
            invariant
                at <= self.entries@.len(),
                self@ == before,
                forall|j: int| 0 <= j < at ==> before[j].index != index,
            decreases self.entries@.len() - at,
        {
            at += 1;
        }
        let found = at < self.entries.len();
        let mut entry = if found {
            self.entries.remove(at)
        } else {
            Entry { index, name: String::new(), arguments: String::new() }
        };
        let ghost start = entry@;
        if let Some(name) = fragment.name {
            entry.name = name;
        }
        if let Some(arguments) = fragment.arguments {
            entry.arguments.append(arguments.as_str());
        }
        assert(entry@ == start.absorb(piece));
        self.entries.insert(at, entry);
        proof {
            lemma_slot_is(before, index, at as int);
            assert(self@ =~= merge(before, piece));
            if distinct(before) {
                lemma_merge_distinct(before, piece);
            }
        }
    }

    /// Splits entries by the flags in `done`: the flagged ones leave as
    /// chunks, the others stay, both in their order.
    pub fn settle(entries: &Vec<Entry>, done: &Vec<bool>) -> (r: (Vec<Entry>, Vec<Chunk>))
        requires
            done@.len() == entries@.len(),
        ensures
            entry_views(r.0@) == kept_where(entry_views(entries@), done@),
            chunk_views(r.1@) == calls_where(entry_views(entries@), done@),
    {
        let ghost all = entry_views(entries@);
        let mut stay: Vec<Entry> = Vec::new();
        let mut leave: Vec<Chunk> = Vec::new();
        let mut i: usize = 0;
        assert(entry_views(stay@) =~= kept_where(all.take(0), done@.take(0)));
        assert(chunk_views(leave@) =~= calls_where(all.take(0), done@.take(0)));
        while i < entries.len()
            invariant
                i <= entries@.len(),
                done@.len() == entries@.len(),
                all == entry_views(entries@),
                entry_views(stay@) == kept_where(all.take(i as int), done@.take(i as int)),
                chunk_views(leave@) == calls_where(all.take(i as int), done@.take(i as int)),
            decreases entries@.len() - i,
        {
            let ghost stayed = entry_views(stay@);
            let ghost left = chunk_views(leave@);
            proof {
                assert(all.take(i + 1).drop_last() =~= all.take(i as int));
                assert(done@.take(i + 1).drop_last() =~= done@.take(i as int));
                assert(all.take(i + 1).last() == entries@[i as int]@);
                assert(done@.take(i + 1).last() == done@[i as int]);
            }
            let entry = &entries[i];
            if done[i] {
                leave.push(Chunk::Tool(entry.name.clone(), entry.arguments.clone()));
                assert(chunk_views(leave@) =~= left.push(entry@.chunk()));
            } else {
                stay.push(
                    Entry {
                        index: entry.index,
                        name: entry.name.clone(),
                        arguments: entry.arguments.clone(),
                    },
                );
                assert(entry_views(stay@) =~= stayed.push(entry@));
            }
            i += 1;
        }
        assert(all.take(i as int) =~= all);
        assert(done@.take(i as int) =~= done@);
        (stay, leave)
    }

    /// Surfaces every entry whose arguments are a complete JSON document as
    /// a chunk, in the order in which the calls first appeared, and keeps the
    /// others. The empty text is no JSON document: a call of which only the
    /// name has come waits until arguments come, `{}` at the least.
    pub fn drain(&mut self) -> (chunks: Vec<Chunk>)
        ensures
            final(self)@ == kept(old(self)@),
            old(self).wf() ==> final(self).wf(),
            chunk_views(chunks@) == completed(old(self)@),
            forall|k: int|
                0 <= k < chunks@.len() ==> (#[trigger] chunks@[k]@ matches ChunkView::Tool(
                    _,
                    arguments,
                ) && json_parse(arguments) is Some && arguments.len() > 0),
    {
        let ghost before = self@;
        let mut done: Vec<bool> = Vec::new();
        let mut i: usize = 0;
        while i < self.entries.len()
            invariant
                i <= self.entries@.len(),
                self@ == before,
                done@.len() == i,
                forall|j: int| 0 <= j < i ==> done@[j] == before[j].complete(),
                forall|j: int| 0 <= j < i && done@[j] ==> before[j].arguments.len() > 0,
            decreases self.entries@.len() - i,
        {
            let complete = Json::is_document(self.entries[i].arguments.as_str());
            done.push(complete);
            i += 1;
        }
        assert(done@ =~= completeness(before));
        let (stay, leave) = Assembler::settle(&self.entries, &done);
        proof {
            lemma_kept_where(before, done@);
            lemma_calls_where(before, done@);
            let calls = calls_where(before, done@);
            assert forall|k: int| 0 <= k < leave@.len() implies (#[trigger] leave@[k]@ matches ChunkView::Tool(
                _,
                arguments,
            ) && json_parse(arguments) is Some && arguments.len() > 0) by {
                assert(leave@[k]@ == chunk_views(leave@)[k]);
                let i = choose|i: int|
                    0 <= i < before.len() && done@[i] && before[i].chunk() == calls[k];
                assert(before[i].complete());
            }
        }
        self.entries = stay;
        leave
    }
}

/// Every chunk that leaves is the chunk of an entry flagged as done.
pub proof fn lemma_calls_where(entries: Seq<EntryView>, done: Seq<bool>)
    requires
        done.len() == entries.len(),
    ensures
        forall|k: int|
            0 <= k < calls_where(entries, done).len() ==> exists|i: int|
                0 <= i < entries.len() && done[i] && entries[i].chunk() == #[trigger] calls_where(
                    entries,
                    done,
                )[k],
    decreases entries.len(),
{
    if entries.len() > 0 {
        let head = entries.drop_last();
        let flags = done.drop_last();
        lemma_calls_where(head, flags);
        let before = calls_where(head, flags);
        let all = calls_where(entries, done);
        assert forall|k: int| 0 <= k < all.len() implies exists|i: int|
            0 <= i < entries.len() && done[i] && entries[i].chunk() == #[trigger] all[k] by {
            if k < before.len() {
                let i = choose|i: int|
                    0 <= i < head.len() && flags[i] && head[i].chunk() == before[k];
                assert(0 <= i < entries.len() && done[i] && entries[i].chunk() == all[k]);
            } else {
                let i = entries.len() - 1;
                assert(0 <= i < entries.len() && done[i] && entries[i].chunk() == all[k]);
            }
        }
    }
}

} // verus!
