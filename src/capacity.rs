//! The byte budget of the region that holds a store.

use vstd::prelude::*;

verus! {

/// The largest number of bytes a link may take.
pub const MAX_URL_LEN: usize = 200;

/// The largest number of records a store may hold.
pub const MAX_ITEMS: usize = 40;

/// Bytes the hosting platform puts in front of the store (its discriminator).
pub const HEADER_BYTES: usize = 8;

/// Bytes of the record count.
pub const COUNT_BYTES: usize = 8;

/// Bytes of the length prefix of the record list.
pub const LIST_LEN_PREFIX_BYTES: usize = 4;

/// Bytes of the length prefix of one link.
pub const LINK_LEN_PREFIX_BYTES: usize = 4;

/// Bytes of one submitter identifier.
pub const ID_BYTES: usize = 32;

/// The largest region the hosting platform will create.
pub const REGION_CEILING: usize = 10240;

/// The size of the region that holds a store with the default limits.
#[verifier::nonlinear]
pub const BASE_ACCOUNT_SPACE: usize = HEADER_BYTES + COUNT_BYTES + LIST_LEN_PREFIX_BYTES
    + MAX_ITEMS * (LINK_LEN_PREFIX_BYTES + MAX_URL_LEN + ID_BYTES);

/// Bytes of the fixed part of a store: header, count and list prefix.
pub open spec fn fixed_bytes() -> nat {
    (HEADER_BYTES + COUNT_BYTES + LIST_LEN_PREFIX_BYTES) as nat
}

/// Bytes that one record with a link of `max_url_len` bytes takes.
pub open spec fn record_budget(max_url_len: nat) -> nat {
    LINK_LEN_PREFIX_BYTES as nat + max_url_len + ID_BYTES as nat
}

/// The region size for a store of at most `max_items` records whose links
/// have at most `max_url_len` bytes.
pub open spec fn region_size(max_url_len: nat, max_items: nat) -> nat {
    fixed_bytes() + max_items * record_budget(max_url_len)
}

/// Computes the region size for the given limits, or `None` where it does
/// not fit in a `u64`.
pub fn region_size_for(max_url_len: u64, max_items: u64) -> (r: Option<u64>)
    ensures
        r is Some <==> region_size(max_url_len as nat, max_items as nat) <= u64::MAX,
        r matches Some(n) ==> n as nat == region_size(max_url_len as nat, max_items as nat),
{
    let per_record = match max_url_len.checked_add((LINK_LEN_PREFIX_BYTES + ID_BYTES) as u64) {
        Some(n) => n,
        None => {
            proof {
                assert(max_items * record_budget(max_url_len as nat) >= 0) by (nonlinear_arith);
                if max_items > 0 {
                    assert(max_items * record_budget(max_url_len as nat) >= record_budget(
                        max_url_len as nat,
                    )) by (nonlinear_arith)
                        requires
                            max_items > 0,
                    ;
                }
            }
            if max_items == 0 {
                return Some((HEADER_BYTES + COUNT_BYTES + LIST_LEN_PREFIX_BYTES) as u64);
            }
            return None;
        },
    };
    let body = match per_record.checked_mul(max_items) {
        Some(n) => n,
        None => {
            assert(per_record * max_items == max_items * record_budget(max_url_len as nat))
                by (nonlinear_arith)
                requires
                    per_record == record_budget(max_url_len as nat),
            ;
            return None;
        },
    };
    assert(body == max_items * record_budget(max_url_len as nat)) by (nonlinear_arith)
        requires
            per_record == record_budget(max_url_len as nat),
            body == per_record * max_items,
    ;
    body.checked_add((HEADER_BYTES + COUNT_BYTES + LIST_LEN_PREFIX_BYTES) as u64)
}

/// The region allocated for a store is the one the planner computes for the
/// default limits, and the hosting platform can create it.
pub proof fn lemma_base_account_space()
    ensures
        BASE_ACCOUNT_SPACE as nat == region_size(MAX_URL_LEN as nat, MAX_ITEMS as nat),
        BASE_ACCOUNT_SPACE <= REGION_CEILING,
        BASE_ACCOUNT_SPACE == 9460,
{
}

} // verus!
