//! What holds of the store over every input and every run of operations.

use vstd::prelude::*;
use crate::capacity::{MAX_ITEMS, MAX_URL_LEN};
use crate::store::{ItemView, StoreError, append_result, initialize_result, link_len, records_valid};

verus! {

/// The records after trying to append each of `items`, in order, to a store
/// holding `s`; a refused append leaves the records as they were.
pub open spec fn replay(s: Seq<ItemView>, items: Seq<ItemView>) -> Seq<ItemView>
    decreases items.len(),
{
    if items.len() == 0 {
        s
    } else {
        let before = replay(s, items.drop_last());
        match append_result(before, items.last()) {
            Ok(t) => t,
            Err(_) => before,
        }
    }
}

/// Those of `items` whose append succeeded, in the order they were tried.
pub open spec fn accepted(s: Seq<ItemView>, items: Seq<ItemView>) -> Seq<ItemView>
    decreases items.len(),
{
    if items.len() == 0 {
        Seq::empty()
    } else {
        let earlier = accepted(s, items.drop_last());
        if append_result(replay(s, items.drop_last()), items.last()) is Ok {
            earlier.push(items.last())
        } else {
            earlier
        }
    }
}

/// Appending a valid record to a store that is not full succeeds, adds
/// exactly one record, and puts it last.
pub proof fn lemma_append_adds_one(s: Seq<ItemView>, item: ItemView)
    requires
        records_valid(s),
        link_len(item.link) <= MAX_URL_LEN,
        s.len() < MAX_ITEMS,
    ensures
        append_result(s, item) matches Ok(t) && t.len() == s.len() + 1 && t[s.len() as int] == item
            && records_valid(t),
{
    let t = s.push(item);
    assert forall|i: int| 0 <= i < t.len() implies link_len(#[trigger] t[i].link) <= MAX_URL_LEN by {
        if i < s.len() {
            assert(t[i] == s[i]);
        }
    }
}

/// After any run of appends, the store holds what it held before followed by
/// the records that were accepted, in the order they were appended.
pub proof fn lemma_order_preserved(s: Seq<ItemView>, items: Seq<ItemView>)
    ensures
        replay(s, items) == s + accepted(s, items),
    decreases items.len(),
{
    if items.len() > 0 {
        lemma_order_preserved(s, items.drop_last());
        let before = replay(s, items.drop_last());
        if append_result(before, items.last()) is Ok {
            assert(before.push(items.last()) =~= s + accepted(s, items.drop_last()).push(
                items.last(),
            ));
        }
    }
}

/// Starting from an empty store, record `i` is the `i`-th record that was
/// appended successfully.
pub proof fn lemma_records_in_call_order(items: Seq<ItemView>)
    ensures
        replay(Seq::empty(), items) == accepted(Seq::empty(), items),
{
    lemma_order_preserved(Seq::empty(), items);
    assert(Seq::<ItemView>::empty() + accepted(Seq::empty(), items) =~= accepted(
        Seq::empty(),
        items,
    ));
}

/// Any run of appends keeps the records valid: no more than `MAX_ITEMS` of
/// them, and no link longer than `MAX_URL_LEN` bytes.
pub proof fn lemma_replay_valid(s: Seq<ItemView>, items: Seq<ItemView>)
    requires
        records_valid(s),
    ensures
        records_valid(replay(s, items)),
    decreases items.len(),
{
    if items.len() > 0 {
        lemma_replay_valid(s, items.drop_last());
        let before = replay(s, items.drop_last());
        if append_result(before, items.last()) is Ok {
            lemma_append_adds_one(before, items.last());
        }
    }
}

/// Once `MAX_ITEMS` appends to an empty store have succeeded, the next
/// append of a link within the length limit fails as full, and the store
/// keeps its `MAX_ITEMS` records.
pub proof fn lemma_capacity_hard_stop(items: Seq<ItemView>, item: ItemView)
    requires
        accepted(Seq::empty(), items).len() == MAX_ITEMS,
        link_len(item.link) <= MAX_URL_LEN,
    ensures
        replay(Seq::empty(), items).len() == MAX_ITEMS,
        append_result(replay(Seq::empty(), items), item) == Err::<Seq<ItemView>, StoreError>(
            StoreError::StoreFull,
        ),
{
    lemma_records_in_call_order(items);
}

/// A link longer than `MAX_URL_LEN` bytes (one byte over, say) is refused as
/// too long, whatever the store holds.
pub proof fn lemma_long_link_rejected(s: Seq<ItemView>, item: ItemView)
    requires
        link_len(item.link) > MAX_URL_LEN,
    ensures
        append_result(s, item) == Err::<Seq<ItemView>, StoreError>(StoreError::LinkTooLong),
{
}

/// Initialising a location twice: whatever the first call did, the second
/// finds a store there and is refused.
pub proof fn lemma_double_initialize(loc: Option<Seq<ItemView>>)
    ensures
        ({
            let after = match initialize_result(loc) {
                Ok(s) => Some(s),
                Err(_) => loc,
            };
            initialize_result(after) == Err::<Seq<ItemView>, StoreError>(
                StoreError::AlreadyInitialized,
            )
        }),
{
}

} // verus!
