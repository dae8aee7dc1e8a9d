//! The store: its records, its invariant, and the two operations on it.

use vstd::prelude::*;
use vstd::utf8::encode_utf8;
use crate::capacity::{BASE_ACCOUNT_SPACE, ID_BYTES, LINK_LEN_PREFIX_BYTES, MAX_ITEMS, MAX_URL_LEN};
use crate::layout::{lemma_serialized_size_fits, link_byte_len};

verus! {

/// Why an operation on a store failed. A failed operation changes nothing.
#[derive(Debug, Clone, Copy, PartialEq, Eq, Structural)]
pub enum StoreError {
    /// `start_stuff_off` found a store already there.
    AlreadyInitialized,
    /// `add_gif` found no store there.
    NotInitialized,
    /// The link takes more than `MAX_URL_LEN` bytes.
    LinkTooLong,
    /// The store already holds `MAX_ITEMS` records.
    StoreFull,
    /// The store in its persisted form would not fit its region. The limits
    /// checked before it make this unreachable.
    RegionOverflow,
}

/// One record: a link and the identifier of whoever submitted it.
#[derive(Debug, Clone, PartialEq, Eq)]
pub struct ItemStruct {
    pub gif_link: String,
    pub user_address: [u8; 32],
}

/// What a record holds, as mathematical values.
pub struct ItemView {
    pub link: Seq<char>,
    pub submitter: Seq<u8>,
}

/// The number of bytes a link takes in UTF-8.
pub open spec fn link_len(link: Seq<char>) -> nat {
    encode_utf8(link).len()
}

impl View for ItemStruct {
    type V = ItemView;

    open spec fn view(&self) -> ItemView {
        ItemView { link: self.gif_link@, submitter: self.user_address@ }
    }
}

/// The store: a count and the records in the order they were appended.
#[derive(Debug, Clone, PartialEq, Eq)]
pub struct BaseAccount {
    pub total_gifs: u64,
    pub gif_list: Vec<ItemStruct>,
}

impl View for BaseAccount {
    type V = Seq<ItemView>;

    open spec fn view(&self) -> Seq<ItemView> {
        self.gif_list@.map_values(|i: ItemStruct| i@)
    }
}

/// The records of a store that its invariant admits: no more than
/// `MAX_ITEMS`, and no link longer than `MAX_URL_LEN` bytes.
pub open spec fn records_valid(s: Seq<ItemView>) -> bool {
    &&& s.len() <= MAX_ITEMS
    &&& forall|i: int| 0 <= i < s.len() ==> link_len(#[trigger] s[i].link) <= MAX_URL_LEN
}

impl BaseAccount {
    /// The invariant of a store: its count is the number of its records, and
    /// the records are valid.
    pub open spec fn wf(&self) -> bool {
        &&& self.total_gifs == self.gif_list.len()
        &&& records_valid(self@)
    }

    /// The records, in the order they were appended. Reading changes nothing,
    /// so two reads give the same records.
    pub fn records(&self) -> (r: &[ItemStruct])
        ensures
            r@ == self.gif_list@,
            r@.map_values(|i: ItemStruct| i@) == self@,
    {
        self.gif_list.as_slice()
    }

    /// Whether this store keeps its invariant; for callers that Verus does
    /// not check, before they hand the store to an operation.
    pub fn is_valid(&self) -> (r: bool)
        ensures
            r == self.wf(),
    {
        if self.gif_list.len() > MAX_ITEMS || self.total_gifs != self.gif_list.len() as u64 {
            return false;
        }
        let mut i: usize = 0;
        while i < self.gif_list.len()
            invariant
                i <= self.gif_list.len(),
                forall|j: int| 0 <= j < i ==> link_len(#[trigger] self@[j].link) <= MAX_URL_LEN,
            decreases self.gif_list.len() - i,
        {
            assert(self@[i as int] == self.gif_list@[i as int]@);
            if link_byte_len(&self.gif_list[i].gif_link) > MAX_URL_LEN {
                assert(link_len(self@[i as int].link) > MAX_URL_LEN);
                return false;
            }
            i = i + 1;
        }
        true
    }

    /// The number of records, as kept in the store.
    pub fn count(&self) -> (r: u64)
        requires
            self.wf(),
        ensures
            r == self@.len(),
    {
        self.total_gifs
    }

    /// Appends a record of `gif_link` and `user_address` at the end, unless
    /// the link is too long or the store is full. Every check is made before
    /// anything changes.
    pub fn append(&mut self, gif_link: String, user_address: [u8; 32]) -> (r: Result<(), StoreError>)
        requires
            old(self).wf(),
        ensures
            final(self).wf(),
            match append_result(old(self)@, (ItemView { link: gif_link@, submitter: user_address@ })) {
                Ok(s) => r is Ok && final(self)@ == s,
                Err(e) => r == Err::<(), StoreError>(e) && *final(self) == *old(self),
            },
    {
        let ghost item = ItemView { link: gif_link@, submitter: user_address@ };
        let n = link_byte_len(&gif_link);
        if n > MAX_URL_LEN {
            return Err(StoreError::LinkTooLong);
        }
        if self.total_gifs >= MAX_ITEMS as u64 {
            return Err(StoreError::StoreFull);
        }
        let ghost grown = self@.push(item);
        proof {
            assert(grown.drop_last() =~= self@);
            assert(records_valid(grown)) by {
                assert forall|i: int| 0 <= i < grown.len() implies link_len(
                    #[trigger] grown[i].link,
                ) <= MAX_URL_LEN by {
                    if i < self@.len() {
                        assert(grown[i] == self@[i]);
                    }
                }
            }
            lemma_serialized_size_fits(self@);
            lemma_serialized_size_fits(grown);
        }
        // The limits above keep the grown store inside its region; this
        // check guards the region should the limits and the planner disagree.
        let size = self.encoded_len() + LINK_LEN_PREFIX_BYTES + n + ID_BYTES;
        if size > BASE_ACCOUNT_SPACE {
            return Err(StoreError::RegionOverflow);
        }
        self.gif_list.push(ItemStruct { gif_link, user_address });
        self.total_gifs = self.gif_list.len() as u64;
        assert(self@ =~= grown);
        Ok(())
    }
}

/// What appending `item` to a store holding `s` gives: the new records, or
/// the reason it is refused.
pub open spec fn append_result(s: Seq<ItemView>, item: ItemView) -> Result<
    Seq<ItemView>,
    StoreError,
> {
    if link_len(item.link) > MAX_URL_LEN {
        Err(StoreError::LinkTooLong)
    } else if s.len() >= MAX_ITEMS {
        Err(StoreError::StoreFull)
    } else {
        Ok(s.push(item))
    }
}

/// What initialising a location that holds `loc` gives: the records of the
/// new store, or the reason it is refused.
pub open spec fn initialize_result(loc: Option<Seq<ItemView>>) -> Result<Seq<ItemView>, StoreError> {
    match loc {
        None => Ok(Seq::empty()),
        Some(_) => Err(StoreError::AlreadyInitialized),
    }
}

/// The records of a store at a location, if one is there.
pub open spec fn location_view(loc: Option<BaseAccount>) -> Option<Seq<ItemView>> {
    match loc {
        None => None,
        Some(a) => Some(a@),
    }
}

/// A location whose store, if it holds one, keeps its invariant.
pub open spec fn location_wf(loc: Option<BaseAccount>) -> bool {
    loc matches Some(a) ==> a.wf()
}

/// What `start_stuff_off` is handed: the location of the store, empty if no
/// store exists there yet, and the identifier of the caller who pays for it.
pub struct StartStuffOff {
    pub base_account: Option<BaseAccount>,
    pub user: [u8; 32],
}

/// What `add_gif` is handed: the location of the store, and the identifier
/// of the authenticated caller, who becomes the submitter of the record.
pub struct AddGif {
    pub base_account: Option<BaseAccount>,
    pub user: [u8; 32],
}

/// Creates an empty store at the location, unless one is already there.
pub fn start_stuff_off(ctx: &mut StartStuffOff) -> (r: Result<(), StoreError>)
    requires
        location_wf(old(ctx).base_account),
    ensures
        final(ctx).user == old(ctx).user,
        location_wf(final(ctx).base_account),
        match initialize_result(location_view(old(ctx).base_account)) {
            Ok(s) => r is Ok && location_view(final(ctx).base_account) == Some(s),
            Err(e) => r == Err::<(), StoreError>(e) && *final(ctx) == *old(ctx),
        },
{
    if ctx.base_account.is_some() {
        return Err(StoreError::AlreadyInitialized);
    }
    let acct = BaseAccount { total_gifs: 0, gif_list: Vec::new() };
    assert(acct@ =~= Seq::<ItemView>::empty());
    ctx.base_account = Some(acct);
    Ok(())
}

/// Appends a record of `gif_link`, submitted by the caller, to the store at
/// the location. Fails if no store is there, and otherwise as
/// `BaseAccount::append` does.
pub fn add_gif(ctx: &mut AddGif, gif_link: String) -> (r: Result<(), StoreError>)
    requires
        location_wf(old(ctx).base_account),
    ensures
        final(ctx).user == old(ctx).user,
        location_wf(final(ctx).base_account),
        match location_view(old(ctx).base_account) {
            None => r == Err::<(), StoreError>(StoreError::NotInitialized) && *final(ctx) == *old(ctx),
            Some(s) => match append_result(s, (ItemView { link: gif_link@, submitter: old(ctx).user@ })) {
                Ok(t) => r is Ok && location_view(final(ctx).base_account) == Some(t),
                Err(e) => r == Err::<(), StoreError>(e) && *final(ctx) == *old(ctx),
            },
        },
{
    let user = ctx.user;
    match &mut ctx.base_account {
        None => Err(StoreError::NotInitialized),
        Some(acct) => acct.append(gif_link, user),
    }
}

} // verus!
