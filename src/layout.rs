//! The persisted form of a store: after the platform's header, the count as
//! a `u64`, the number of records as a `u32`, then each record as the byte
//! length of its link (`u32`), the link's UTF-8 bytes and the 32 bytes of the
//! submitter. All integers are little-endian.

use vstd::prelude::*;
use vstd::utf8::encode_utf8;
use crate::capacity::{
    BASE_ACCOUNT_SPACE, COUNT_BYTES, HEADER_BYTES, ID_BYTES, LINK_LEN_PREFIX_BYTES,
    LIST_LEN_PREFIX_BYTES, MAX_ITEMS, MAX_URL_LEN, fixed_bytes, record_budget, region_size,
    lemma_base_account_space,
};
use crate::store::{BaseAccount, ItemView, link_len, records_valid};

verus! {

/// Bytes that one record takes in the persisted form.
pub open spec fn record_size(item: ItemView) -> nat {
    LINK_LEN_PREFIX_BYTES as nat + link_len(item.link) + ID_BYTES as nat
}

/// Bytes that the records `s` take in the persisted form.
pub open spec fn records_size(s: Seq<ItemView>) -> nat
    decreases s.len(),
{
    if s.len() == 0 {
        0
    } else {
        records_size(s.drop_last()) + record_size(s.last())
    }
}

/// Bytes that a store holding `s` takes in its region, header included.
pub open spec fn serialized_size(s: Seq<ItemView>) -> nat {
    fixed_bytes() + records_size(s)
}

/// Valid records take no more than their budget.
pub proof fn lemma_records_size_bound(s: Seq<ItemView>)
    requires
        forall|i: int| 0 <= i < s.len() ==> link_len(#[trigger] s[i].link) <= MAX_URL_LEN,
    ensures
        records_size(s) <= s.len() * record_budget(MAX_URL_LEN as nat),
    decreases s.len(),
{
    if s.len() > 0 {
        let t = s.drop_last();
        assert forall|i: int| 0 <= i < t.len() implies link_len(#[trigger] t[i].link)
            <= MAX_URL_LEN by {
            assert(t[i] == s[i]);
        }
        lemma_records_size_bound(t);
        assert(link_len(s[s.len() - 1].link) <= MAX_URL_LEN);
        assert(s.len() * record_budget(MAX_URL_LEN as nat) == t.len() * record_budget(
            MAX_URL_LEN as nat,
        ) + record_budget(MAX_URL_LEN as nat)) by (nonlinear_arith)
            requires
                s.len() == t.len() + 1,
        ;
    }
}

/// A store that keeps its invariant fits the region allocated for it.
pub proof fn lemma_serialized_size_fits(s: Seq<ItemView>)
    requires
        records_valid(s),
    ensures
        serialized_size(s) <= region_size(MAX_URL_LEN as nat, MAX_ITEMS as nat),
        serialized_size(s) <= BASE_ACCOUNT_SPACE,
{
    lemma_records_size_bound(s);
    lemma_base_account_space();
    assert(s.len() * record_budget(MAX_URL_LEN as nat) <= MAX_ITEMS * record_budget(
        MAX_URL_LEN as nat,
    )) by (nonlinear_arith)
        requires
            s.len() <= MAX_ITEMS,
    ;
}

/// `n` as `w` little-endian bytes, with what does not fit dropped.
pub open spec fn le_bytes(n: nat, w: nat) -> Seq<u8>
    decreases w,
{
    if w == 0 {
        Seq::empty()
    } else {
        seq![(n % 256) as u8] + le_bytes(n / 256, (w - 1) as nat)
    }
}

/// One record in the persisted form.
pub open spec fn record_encoding(item: ItemView) -> Seq<u8> {
    le_bytes(link_len(item.link), LINK_LEN_PREFIX_BYTES as nat) + encode_utf8(item.link)
        + item.submitter
}

/// The records `s` in the persisted form, one after the other.
pub open spec fn records_encoding(s: Seq<ItemView>) -> Seq<u8>
    decreases s.len(),
{
    if s.len() == 0 {
        Seq::empty()
    } else {
        records_encoding(s.drop_last()) + record_encoding(s.last())
    }
}

/// A store holding `s` in the persisted form, after the platform's header.
pub open spec fn encoding(s: Seq<ItemView>) -> Seq<u8> {
    le_bytes(s.len(), COUNT_BYTES as nat) + le_bytes(s.len(), LIST_LEN_PREFIX_BYTES as nat)
        + records_encoding(s)
}

/// Every submitter of `s` takes `ID_BYTES` bytes.
pub open spec fn submitters_sized(s: Seq<ItemView>) -> bool {
    forall|i: int| 0 <= i < s.len() ==> (#[trigger] s[i]).submitter.len() == ID_BYTES
}

/// `le_bytes` gives exactly `w` bytes.
pub proof fn lemma_le_bytes_len(n: nat, w: nat)
    ensures
        le_bytes(n, w).len() == w,
    decreases w,
{
    if w > 0 {
        lemma_le_bytes_len(n / 256, (w - 1) as nat);
    }
}

/// The persisted form takes, with the header, the size that the region is
/// planned by.
pub proof fn lemma_encoding_len(s: Seq<ItemView>)
    requires
        submitters_sized(s),
    ensures
        encoding(s).len() + HEADER_BYTES == serialized_size(s),
        records_encoding(s).len() == records_size(s),
    decreases s.len(),
{
    lemma_le_bytes_len(s.len(), COUNT_BYTES as nat);
    lemma_le_bytes_len(s.len(), LIST_LEN_PREFIX_BYTES as nat);
    if s.len() > 0 {
        let t = s.drop_last();
        assert forall|i: int| 0 <= i < t.len() implies (#[trigger] t[i]).submitter.len()
            == ID_BYTES by {
            assert(t[i] == s[i]);
        }
        lemma_encoding_len(t);
        assert(s.last() == s[s.len() - 1]);
        lemma_le_bytes_len(link_len(s.last().link), LINK_LEN_PREFIX_BYTES as nat);
    }
}

/// Appends `n` to `out` as `w` little-endian bytes.
fn push_le(out: &mut Vec<u8>, n: u64, w: usize)
    ensures
        final(out)@ == old(out)@ + le_bytes(n as nat, w as nat),
    decreases w,
{
    if w > 0 {
        let ghost before = out@;
        out.push((n % 256) as u8);
        push_le(out, n / 256, w - 1);
        assert(final(out)@ =~= before + le_bytes(n as nat, w as nat));
    } else {
        assert(out@ =~= old(out)@ + le_bytes(n as nat, w as nat));
    }
}

/// Appends the bytes of `bytes` to `out`.
fn push_bytes(out: &mut Vec<u8>, bytes: &[u8])
    ensures
        final(out)@ == old(out)@ + bytes@,
{
    let ghost before = out@;
    let mut i: usize = 0;
    while i < bytes.len()
        invariant
            i <= bytes@.len(),
            out@ == before + bytes@.take(i as int),
        decreases bytes@.len() - i,
    {
        out.push(bytes[i]);
        i = i + 1;
        assert(out@ =~= before + bytes@.take(i as int));
    }
    assert(bytes@.take(i as int) =~= bytes@);
}

/// The number of bytes a link takes in UTF-8.
pub fn link_byte_len(link: &String) -> (r: usize)
    ensures
        r == link_len(link@),
{
    let bytes = link.as_str().as_bytes();
    bytes.len()
}

impl BaseAccount {
    /// The number of bytes this store takes in its region, header included.
    pub fn encoded_len(&self) -> (r: usize)
        requires
            self.wf(),
        ensures
            r == serialized_size(self@),
    {
        let ghost s = self@;
        let mut total: usize = HEADER_BYTES + COUNT_BYTES + LIST_LEN_PREFIX_BYTES;
        let mut i: usize = 0;
        while i < self.gif_list.len()
            invariant
                self.wf(),
                s == self@,
                i <= self.gif_list.len(),
                total == fixed_bytes() + records_size(s.take(i as int)),
            decreases self.gif_list.len() - i,
        {
            proof {
                assert(s.take(i as int + 1).drop_last() =~= s.take(i as int));
                assert(s[i as int] == self.gif_list@[i as int]@);
                assert(link_len(s[i as int].link) <= MAX_URL_LEN);
                lemma_records_size_bound(s.take(i as int + 1));
                assert((i + 1) * record_budget(MAX_URL_LEN as nat) <= MAX_ITEMS * record_budget(
                    MAX_URL_LEN as nat,
                )) by (nonlinear_arith)
                    requires
                        i + 1 <= MAX_ITEMS,
                ;
                lemma_base_account_space();
            }
            let n = link_byte_len(&self.gif_list[i].gif_link);
            total = total + LINK_LEN_PREFIX_BYTES + n + ID_BYTES;
            i = i + 1;
        }
        assert(s.take(i as int) =~= s);
        total
    }

    /// This store in its persisted form, after the platform's header. With
    /// the header it fills no more than the region allocated for it.
    pub fn encode(&self) -> (r: Vec<u8>)
        requires
            self.wf(),
        ensures
            r@ == encoding(self@),
            r@.len() + HEADER_BYTES == serialized_size(self@),
            r@.len() + HEADER_BYTES <= BASE_ACCOUNT_SPACE,
    {
        let ghost s = self@;
        let mut out: Vec<u8> = Vec::new();
        push_le(&mut out, self.total_gifs, COUNT_BYTES);
        push_le(&mut out, self.total_gifs, LIST_LEN_PREFIX_BYTES);
        let ghost head = out@;
        assert(head =~= le_bytes(s.len(), COUNT_BYTES as nat) + le_bytes(
            s.len(),
            LIST_LEN_PREFIX_BYTES as nat,
        ));
        let mut i: usize = 0;
        while i < self.gif_list.len()
            invariant
                self.wf(),
                s == self@,
                i <= self.gif_list.len(),
                out@ == head + records_encoding(s.take(i as int)),
            decreases self.gif_list.len() - i,
        {
            let item = &self.gif_list[i];
            assert(s[i as int] == item@);
            assert(link_len(item@.link) <= MAX_URL_LEN);
            let n = link_byte_len(&item.gif_link);
            let ghost before = out@;
            push_le(&mut out, n as u64, LINK_LEN_PREFIX_BYTES);
            push_bytes(&mut out, item.gif_link.as_str().as_bytes());
            push_bytes(&mut out, item.user_address.as_slice());
            proof {
                assert(s.take(i as int + 1).drop_last() =~= s.take(i as int));
                assert(out@ =~= before + record_encoding(item@));
            }
            i = i + 1;
        }
        proof {
            assert(s.take(i as int) =~= s);
            assert(submitters_sized(s)) by {
                assert forall|j: int| 0 <= j < s.len() implies (#[trigger] s[j]).submitter.len()
                    == ID_BYTES by {
                    assert(s[j] == self.gif_list@[j]@);
                }
            }
            lemma_encoding_len(s);
            lemma_serialized_size_fits(s);
            assert(out@ =~= encoding(s));
        }
        out
    }
}

} // verus!
