//! The messages that the client shows, in the order of their ids.

use std::collections::BTreeMap;

use vstd::prelude::*;
use vstd::std_specs::btree::*;
use vstd::std_specs::cmp::OrdSpec;
use vstd::std_specs::iter::IteratorSpec;
use vstd::string::*;

verus! {

broadcast use vstd::std_specs::btree::group_btree_axioms;

/// The most messages that the client keeps.
pub const MAX_HISTORY: usize = 500;

/// Where a message comes from.
#[derive(Clone, Debug)]
pub enum MessageType {
    Chat,
    /// From the client or the server itself, with the text to show.
    System(String),
}

/// Where a message comes from, over plain sequences.
pub enum MessageTypeView {
    Chat,
    System(Seq<char>),
}

/// A message to show.
#[derive(Clone, Debug)]
pub struct MessageEntry {
    pub id: u64,
    pub sender: String,
    pub content: String,
    pub timestamp: i64,
    pub is_own: bool,
    pub msg_type: MessageType,
}

/// A message to show, over plain sequences.
pub struct EntryView {
    pub id: u64,
    pub sender: Seq<char>,
    pub content: Seq<char>,
    pub timestamp: i64,
    pub is_own: bool,
    pub msg_type: MessageTypeView,
}

impl View for MessageType {
    type V = MessageTypeView;

    open spec fn view(&self) -> MessageTypeView {
        match self {
            MessageType::Chat => MessageTypeView::Chat,
            MessageType::System(text) => MessageTypeView::System(text@),
        }
    }
}

impl View for MessageEntry {
    type V = EntryView;

    open spec fn view(&self) -> EntryView {
        EntryView {
            id: self.id,
            sender: self.sender@,
            content: self.content@,
            timestamp: self.timestamp,
            is_own: self.is_own,
            msg_type: self.msg_type@,
        }
    }
}

/// A message of the client or the server itself.
pub open spec fn system_entry(text: Seq<char>) -> EntryView {
    EntryView {
        id: 0,
        sender: "System"@,
        content: Seq::empty(),
        timestamp: 0,
        is_own: false,
        msg_type: MessageTypeView::System(text),
    }
}

/// A message of the client or the server itself.
pub fn system_message(content: String) -> (e: MessageEntry)
    ensures
        e@ == system_entry(content@),
{
    let e = MessageEntry {
        id: 0,
        sender: "System".to_owned(),
        content: String::new(),
        timestamp: 0,
        is_own: false,
        msg_type: MessageType::System(content),
    };
    proof {
        assert(e@.content =~= Seq::empty());
    }
    e
}

/// The ids of a log above a given one.
pub open spec fn ids_above(log: Map<u64, EntryView>, id: u64) -> Set<u64> {
    log.dom().filter(|other: u64| other > id)
}

/// The newest messages of a log, up to a number of them: those with fewer
/// messages above them.
pub open spec fn newest(log: Map<u64, EntryView>, count: nat) -> Map<u64, EntryView> {
    log.restrict(Set::new(|id: u64| ids_above(log, id).len() < count))
}

/// Whether ids are those of a log, in order.
pub open spec fn are_ids_of(ids: Seq<u64>, log: Map<u64, EntryView>) -> bool {
    &&& forall|i: int, j: int| 0 <= i < j < ids.len() ==> ids[i] < ids[j]
    &&& ids.to_set() == log.dom()
}

/// The ids of a log, in order.
pub open spec fn ids_of(log: Map<u64, EntryView>) -> Seq<u64> {
    choose|ids: Seq<u64>| are_ids_of(ids, log)
}

/// The messages of a log, in the order of their ids.
pub open spec fn in_id_order(log: Map<u64, EntryView>) -> Seq<EntryView> {
    ids_of(log).map_values(|id: u64| log[id])
}

/// A log has its ids in one order only.
pub proof fn lemma_ids_are_unique(one: Seq<u64>, two: Seq<u64>, log: Map<u64, EntryView>)
    requires
        are_ids_of(one, log),
        are_ids_of(two, log),
    ensures
        one == two,
    decreases one.len(),
{
    if one.len() == 0 {
        if two.len() > 0 {
            assert(two.to_set().contains(two[0]));
            assert(one.to_set().contains(two[0]));
        }
        assert(one =~= two);
    } else {
        assert(one.to_set().contains(one.last()));
        assert(two.to_set().contains(one.last()));
        assert(two.to_set().contains(two.last()));
        assert(one.to_set().contains(two.last()));
        let i = choose|i: int| 0 <= i < one.len() && one[i] == two.last();
        let j = choose|j: int| 0 <= j < two.len() && two[j] == one.last();
        assert(one.last() == two.last()) by {
            assert(one[i] <= one.last());
            assert(two[j] <= two.last());
        }
        let rest = log.remove(one.last());
        lemma_ids_without_last(one, log);
        lemma_ids_without_last(two, log);
        lemma_ids_are_unique(one.drop_last(), two.drop_last(), rest);
        assert(one =~= one.drop_last().push(one.last()));
        assert(two =~= two.drop_last().push(two.last()));
    }
}

/// The ids without the last are those of the log without it.
proof fn lemma_ids_without_last(ids: Seq<u64>, log: Map<u64, EntryView>)
    requires
        are_ids_of(ids, log),
        ids.len() > 0,
    ensures
        are_ids_of(ids.drop_last(), log.remove(ids.last())),
{
    let short = ids.drop_last();
    assert forall|k: u64| short.to_set().contains(k) <==> log.remove(ids.last()).dom().contains(
        k,
    ) by {
        if short.to_set().contains(k) {
            let i = choose|i: int| 0 <= i < short.len() && short[i] == k;
            assert(ids[i] == k);
            assert(ids.to_set().contains(k));
            assert(ids[i] < ids[ids.len() - 1]);
        }
        if log.remove(ids.last()).dom().contains(k) {
            assert(ids.to_set().contains(k));
            let i = choose|i: int| 0 <= i < ids.len() && ids[i] == k;
            assert(short[i] == k);
        }
    }
    assert(short.to_set() =~= log.remove(ids.last()).dom());
}

/// The number of ids above one of them.
proof fn lemma_count_above(ids: Seq<u64>, log: Map<u64, EntryView>, i: int)
    requires
        are_ids_of(ids, log),
        0 <= i < ids.len(),
    ensures
        ids_above(log, ids[i]).len() == ids.len() - i - 1,
{
    let tail = ids.skip(i + 1);
    assert(tail.no_duplicates());
    tail.unique_seq_to_set();
    assert forall|k: u64| tail.to_set().contains(k) <==> ids_above(log, ids[i]).contains(k) by {
        if tail.to_set().contains(k) {
            let j = choose|j: int| 0 <= j < tail.len() && tail[j] == k;
            assert(ids[j + i + 1] == k);
            assert(ids.to_set().contains(k));
        }
        if ids_above(log, ids[i]).contains(k) {
            assert(ids.to_set().contains(k));
            let j = choose|j: int| 0 <= j < ids.len() && ids[j] == k;
            assert(j > i);
            assert(tail[j - i - 1] == k);
        }
    }
    assert(tail.to_set() =~= ids_above(log, ids[i]));
}

/// The log of the messages to show, by their ids.
pub struct MessageLog {
    map: BTreeMap<u64, MessageEntry>,
}

impl View for MessageLog {
    type V = Map<u64, EntryView>;

    closed spec fn view(&self) -> Map<u64, EntryView> {
        self.map@.map_values(|e: MessageEntry| e@)
    }
}

impl MessageLog {
    pub fn new() -> (log: Self)
        ensures
            log@ == Map::<u64, EntryView>::empty(),
    {
        let log = MessageLog { map: BTreeMap::new() };
        proof {
            assert(log@ =~= Map::<u64, EntryView>::empty());
        }
        log
    }

    /// The number of messages.
    pub fn len(&self) -> (n: usize)
        ensures
            n == self@.len(),
            self@.dom().finite(),
    {
        proof {
            assert(self@.dom() =~= self.map@.dom());
        }
        self.map.len()
    }

    /// Add a message. One with the same id is replaced.
    pub fn insert(&mut self, id: u64, entry: MessageEntry)
        ensures
            final(self)@ == old(self)@.insert(id, entry@),
    {
        let _ = self.map.insert(id, entry);
        proof {
            assert(self@ =~= old(self)@.insert(id, entry@));
        }
    }

    /// Drop all messages.
    pub fn clear(&mut self)
        ensures
            final(self)@ == Map::<u64, EntryView>::empty(),
    {
        self.map.clear();
        proof {
            assert(self@ =~= Map::<u64, EntryView>::empty());
        }
    }

    /// The ids of the log, in order.
    fn ids(&self) -> (ids: Vec<u64>)
        ensures
            are_ids_of(ids@, self@),
    {
        let mut ids: Vec<u64> = Vec::new();
        let iter = self.map.iter();
        let ghost items = iter.remaining();
        let ghost all = items.map_values(|kv: (&u64, &MessageEntry)| *kv.0);
        for e in it: iter
            invariant
                it.seq() == items,
                all == items.map_values(|kv: (&u64, &MessageEntry)| *kv.0),
                ids@ == all.take(it.index()),
        {
            ids.push(*e.0);
        }
        proof {
            assert(ids@ =~= all);
            assert(increasing_seq(all));
            assert forall|i: int, j: int| 0 <= i < j < ids.len() implies ids@[i] < ids@[j] by {
                assert(all[i].cmp_spec(&all[j]) is Less);
            }
            assert forall|k: u64| ids@.to_set().contains(k) <==> self@.dom().contains(k) by {
                if ids@.to_set().contains(k) {
                    let i = choose|i: int| 0 <= i < all.len() && all[i] == k;
                    assert(self.map@.contains_key(*items[i].0));
                }
                if self@.dom().contains(k) {
                    assert(self.map@.contains_key(k));
                    assert(items.contains((&k, &self.map@[k])));
                    let i = choose|i: int| 0 <= i < items.len() && items[i] == (&k, &self.map@[k]);
                    assert(all[i] == k);
                }
            }
            assert(ids@.to_set() =~= self@.dom());
        }
        ids
    }

    /// Keep the newest messages only, up to a number of them.
    pub fn keep_newest(&mut self, count: usize)
        ensures
            final(self)@ == newest(old(self)@, count as nat),
    {
        let ids = self.ids();
        let ghost before = self@;
        let ghost all = ids@;
        proof {
            assert forall|k: u64| #[trigger] before.contains_key(k) implies exists|i: int|
                0 <= i < all.len() && all[i] == k by {
                assert(all.to_set().contains(k));
            }
        }
        let surplus: usize = if ids.len() > count {
            ids.len() - count
        } else {
            0
        };
        let mut i: usize = 0;
        while i < surplus
            invariant
                all == ids@,
                are_ids_of(all, before),
                i <= surplus <= ids.len(),
                forall|k: u64| #[trigger]
                    self@.contains_key(k) <==> before.contains_key(k) && !all.take(
                        i as int,
                    ).contains(k),
                forall|k: u64| #[trigger] self@.contains_key(k) ==> self@[k] == before[k],
            decreases surplus - i,
        {
            let ghost prior = self@;
            let id = ids[i];
            let _ = self.map.remove(&id);
            proof {
                assert(self@ =~= prior.remove(id));
                let now = all.take(i + 1);
                assert(now =~= all.take(i as int).push(id));
                assert forall|k: u64| now.contains(k) <==> all.take(i as int).contains(k) || k
                    == id by {
                    if all.take(i as int).contains(k) {
                        let j = choose|j: int| 0 <= j < i && all.take(i as int)[j] == k;
                        assert(now[j] == k);
                    }
                    assert(now[i as int] == id);
                }
            }
            i = i + 1;
        }
        proof {
            let kept = newest(before, count as nat);
            assert forall|k: u64| #[trigger] self@.contains_key(k) == kept.contains_key(k) by {
                if before.contains_key(k) {
                    let j = choose|j: int| 0 <= j < all.len() && all[j] == k;
                    lemma_count_above(all, before, j);
                    if j < surplus {
                        assert(all.take(surplus as int)[j] == k);
                    }
                    if all.take(surplus as int).contains(k) {
                        let x = choose|x: int| 0 <= x < surplus && all.take(surplus as int)[x] == k;
                        assert(all[x] == all[j]);
                    }
                }
            }
            assert forall|k: u64| #[trigger] self@.contains_key(k) implies self@[k] == kept[k] by {
                assert(kept.contains_key(k));
            }
            assert(self@.dom() =~= kept.dom()) by {
                assert forall|k: u64| #[trigger] self@.dom().contains(k) == kept.dom().contains(
                    k,
                ) by {
                    assert(self@.contains_key(k) == kept.contains_key(k));
                }
            }
            assert(self@ =~= kept);
        }
    }

    /// The messages in the order of their ids.
    pub fn ordered(&self) -> (entries: Vec<&MessageEntry>)
        ensures
            entries@.map_values(|e: &MessageEntry| e@) == in_id_order(self@),
    {
        let ids = self.ids();
        let ghost all = ids@;
        proof {
            lemma_ids_are_unique(all, ids_of(self@), self@);
        }
        let mut entries: Vec<&MessageEntry> = Vec::new();
        let mut i: usize = 0;
        while i < ids.len()
            invariant
                all == ids@,
                are_ids_of(all, self@),
                i <= ids.len(),
                entries@.len() == i,
                forall|j: int| 0 <= j < i ==> (#[trigger] entries@[j])@ == self@[all[j]],
            decreases ids.len() - i,
        {
            proof {
                assert(all.to_set().contains(all[i as int]));
                assert(self@.contains_key(all[i as int]));
            }
            match self.map.get(&ids[i]) {
                Some(e) => {
                    entries.push(e);
                },
                None => {},
            }
            i = i + 1;
        }
        proof {
            assert(entries@.map_values(|e: &MessageEntry| e@) =~= in_id_order(self@));
        }
        entries
    }
}

} // verus!
