//! Fixed-capacity collections.
//!
//! The reading log and the page index live in `heapless` vectors, which never hold more items
//! than their capacity and refuse an item once they are full.
use vstd::prelude::*;

verus! {

/// `heapless::Vec`: a vector that never holds more than `N` items.
#[verifier::external_type_specification]
#[verifier::external_body]
#[verifier::reject_recursive_types(T)]
pub struct ExBoundedVec<T, const N: usize>(heapless::Vec<T, N>);

/// How many offsets a reading log holds at most.
pub const LOG_VEC_MAX: usize = 100;

/// How many pages the index of a book holds at most.
pub const PAGES_VEC_MAX: usize = 1000;

/// A reading log: the last position, then the bookmarks.
pub type LogVec = heapless::Vec<u32, 100>;

/// The byte offsets at which the pages of a book begin.
pub type PageVec = heapless::Vec<u32, 1000>;

/// The offsets in a reading log, in order.
pub uninterp spec fn log_offsets(v: heapless::Vec<u32, 100>) -> Seq<u32>;

/// The offsets in a page index, in order.
pub uninterp spec fn page_offsets(v: heapless::Vec<u32, 1000>) -> Seq<u32>;

/// `heapless::Vec::new` makes an empty log.
#[verifier::external_body]
pub(crate) fn log_new() -> (v: LogVec)
    ensures
        log_offsets(v) == Seq::<u32>::empty(),
{
    heapless::Vec::new()
}

/// `heapless::Vec::len` counts the offsets; it never exceeds the capacity.
#[verifier::external_body]
pub(crate) fn log_len(v: &LogVec) -> (n: usize)
    ensures
        n == log_offsets(*v).len(),
        n <= LOG_VEC_MAX,
{
    v.len()
}

/// `heapless::Vec::as_slice` lends the offsets in order; there are no more than the capacity.
#[verifier::external_body]
pub(crate) fn log_slice(v: &LogVec) -> (s: &[u32])
    ensures
        s@ == log_offsets(*v),
        s@.len() <= LOG_VEC_MAX,
{
    v.as_slice()
}

/// `heapless::Vec::push` appends below the capacity, and hands the item back at it.
#[verifier::external_body]
pub(crate) fn log_push(v: &mut LogVec, item: u32) -> (r: Result<(), u32>)
    ensures
        log_offsets(*old(v)).len() < LOG_VEC_MAX ==> r is Ok && log_offsets(*final(v))
            == log_offsets(*old(v)).push(item),
        log_offsets(*old(v)).len() >= LOG_VEC_MAX ==> r is Err && r->Err_0 == item && log_offsets(
            *final(v),
        ) == log_offsets(*old(v)),
{
    v.push(item)
}

/// Writing through `heapless::Vec::as_mut_slice` replaces one offset and keeps the rest.
#[verifier::external_body]
pub(crate) fn log_set(v: &mut LogVec, i: usize, item: u32)
    requires
        i < log_offsets(*old(v)).len(),
    ensures
        log_offsets(*final(v)) == log_offsets(*old(v)).update(i as int, item),
{
    v.as_mut_slice()[i] = item;
}

/// `heapless::Vec::remove` takes out one offset and closes the gap.
#[verifier::external_body]
pub(crate) fn log_remove(v: &mut LogVec, i: usize) -> (item: u32)
    requires
        i < log_offsets(*old(v)).len(),
    ensures
        item == log_offsets(*old(v))[i as int],
        log_offsets(*final(v)) == log_offsets(*old(v)).remove(i as int),
{
    v.remove(i)
}

/// `heapless::Vec::new` makes an empty index.
#[verifier::external_body]
pub(crate) fn pages_new() -> (v: PageVec)
    ensures
        page_offsets(v) == Seq::<u32>::empty(),
{
    heapless::Vec::new()
}

/// `heapless::Vec::as_slice` lends the offsets in order; there are no more than the capacity.
#[verifier::external_body]
pub(crate) fn pages_slice(v: &PageVec) -> (s: &[u32])
    ensures
        s@ == page_offsets(*v),
        s@.len() <= PAGES_VEC_MAX,
{
    v.as_slice()
}

/// `heapless::Vec::push` appends below the capacity, and hands the item back at it.
#[verifier::external_body]
pub(crate) fn pages_push(v: &mut PageVec, item: u32) -> (r: Result<(), u32>)
    ensures
        page_offsets(*old(v)).len() < PAGES_VEC_MAX ==> r is Ok && page_offsets(*final(v))
            == page_offsets(*old(v)).push(item),
        page_offsets(*old(v)).len() >= PAGES_VEC_MAX ==> r is Err && r->Err_0 == item
            && page_offsets(*final(v)) == page_offsets(*old(v)),
{
    v.push(item)
}

/// `heapless::Vec::clear` empties the index.
#[verifier::external_body]
pub(crate) fn pages_clear(v: &mut PageVec)
    ensures
        page_offsets(*final(v)) == Seq::<u32>::empty(),
{
    v.clear()
}

} // verus!
