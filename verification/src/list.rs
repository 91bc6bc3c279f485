//! Lists of texts in which nothing occurs twice.

use vstd::prelude::*;
use vstd::string::*;

use crate::protocol::message::texts;
use crate::text::same_text;

verus! {

/// A list followed by those items of another that it does not hold yet, each once.
pub open spec fn add_missing(list: Seq<Seq<char>>, more: Seq<Seq<char>>) -> Seq<Seq<char>>
    decreases more.len(),
{
    if more.len() == 0 {
        list
    } else {
        let before = add_missing(list, more.drop_last());
        if before.contains(more.last()) {
            before
        } else {
            before.push(more.last())
        }
    }
}

/// The index of a text in a list.
pub fn index_in_list(list: &Vec<String>, item: &str) -> (found: Option<usize>)
    ensures
        match found {
            Some(i) => i < list.len() && texts(list@)[i as int] == item@ && texts(
                list@,
            ).index_of_first(item@) == Some(i as int),
            None => !texts(list@).contains(item@),
        },
{
    let ghost all = texts(list@);
    let mut i: usize = 0;
    while i < list.len()
        invariant
            all == texts(list@),
            i <= list.len(),
            forall|j: int| 0 <= j < i ==> #[trigger] all[j] != item@,
        decreases list.len() - i,
    {
        if same_text(list[i].as_str(), item) {
            proof {
                assert(all[i as int] == item@);
                all.index_of_first_ensures(item@);
            }
            return Some(i);
        }
        i = i + 1;
    }
    None
}

/// Whether a list holds a text.
pub fn list_contains(list: &Vec<String>, item: &str) -> (b: bool)
    ensures
        b == texts(list@).contains(item@),
{
    let found = index_in_list(list, item);
    proof {
        if found is Some {
            assert(texts(list@)[found->0 as int] == item@);
        }
    }
    found.is_some()
}

/// Append to a list those items of another that it does not hold yet.
pub fn push_missing(list: &mut Vec<String>, more: &Vec<String>)
    ensures
        texts(final(list)@) == add_missing(texts(old(list)@), texts(more@)),
{
    let ghost start = texts(list@);
    let ghost all = texts(more@);
    let mut i: usize = 0;
    proof {
        assert(all.take(0) =~= Seq::empty());
    }
    while i < more.len()
        invariant
            all == texts(more@),
            i <= more.len(),
            texts(list@) == add_missing(start, all.take(i as int)),
        decreases more.len() - i,
    {
        proof {
            assert(all.take(i + 1).drop_last() =~= all.take(i as int));
            assert(all.take(i + 1).last() == more@[i as int]@);
        }
        let ghost before = texts(list@);
        if !list_contains(list, more[i].as_str()) {
            let item = more[i].clone();
            list.push(item);
            proof {
                assert(texts(list@) =~= before.push(more@[i as int]@));
            }
        }
        i = i + 1;
    }
    proof {
        assert(all.take(i as int) =~= all);
    }
}

/// Adding what is missing keeps the list at the front and lets nothing occur twice.
pub proof fn lemma_add_missing(list: Seq<Seq<char>>, more: Seq<Seq<char>>)
    requires
        list.no_duplicates(),
    ensures
        add_missing(list, more).no_duplicates(),
        add_missing(list, more).len() >= list.len(),
        add_missing(list, more).take(list.len() as int) == list,
        forall|t: Seq<char>| #[trigger]
            add_missing(list, more).contains(t) <==> list.contains(t) || more.contains(t),
    decreases more.len(),
{
    if more.len() == 0 {
        assert(list.take(list.len() as int) =~= list);
    } else {
        let before = add_missing(list, more.drop_last());
        let after = add_missing(list, more);
        lemma_add_missing(list, more.drop_last());
        assert(after.take(list.len() as int) =~= before.take(list.len() as int));
        assert forall|t: Seq<char>| #[trigger] after.contains(t) <==> list.contains(t)
            || more.contains(t) by {
            if more.contains(t) {
                let i = choose|i: int| 0 <= i < more.len() && more[i] == t;
                if i < more.len() - 1 {
                    assert(more.drop_last()[i] == t);
                    assert(before.contains(t));
                }
            }
            if more.drop_last().contains(t) {
                let i = choose|i: int| 0 <= i < more.len() - 1 && more.drop_last()[i] == t;
                assert(more[i] == t);
            }
            if before.contains(t) {
                let i = choose|i: int| 0 <= i < before.len() && before[i] == t;
                assert(after[i] == t);
            }
            if after.contains(t) {
                let i = choose|i: int| 0 <= i < after.len() && after[i] == t;
                if i < before.len() {
                    assert(before[i] == t);
                }
            }
            if t == more.last() && !before.contains(t) {
                assert(after[before.len() as int] == t);
            }
            assert(more[more.len() - 1] == more.last());
        }
    }
}

} // verus!
