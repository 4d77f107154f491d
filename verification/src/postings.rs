//! Postings lists, stored as compressed bitmaps over document ids.
//!
//! The bitmap representation comes from the `croaring` crate; everything the
//! rest of the crate knows about a bitmap goes through `ids`, the set of
//! document ids it holds, and the small trusted wrappers below.

use vstd::prelude::*;

verus! {

/// The set of document ids a croaring bitmap holds.
pub uninterp spec fn ids(b: croaring::Bitmap) -> Set<u32>;

#[verifier::external_type_specification]
#[verifier::external_body]
pub struct ExBitmap(croaring::Bitmap);

/// A strictly ascending sequence of ids: ordered, with no duplicates.
pub open spec fn strictly_ascending(s: Seq<u32>) -> bool {
    forall|i: int, j: int| 0 <= i < j < s.len() ==> s[i] < s[j]
}

/// Relies on croaring's `Bitmap::new`: creates an empty bitmap.
#[verifier::external_body]
pub(crate) fn bm_new() -> (r: croaring::Bitmap)
    ensures
        ids(r) == Set::<u32>::empty(),
{
    croaring::Bitmap::new()
}

/// Relies on croaring's `Bitmap::add`: puts one id into the bitmap's set.
#[verifier::external_body]
pub(crate) fn bm_insert(b: &mut croaring::Bitmap, x: u32)
    ensures
        ids(*final(b)) == ids(*old(b)).insert(x),
{
    b.add(x)
}

/// Relies on croaring's `Bitmap::and`: the intersection, as a new bitmap.
#[verifier::external_body]
pub(crate) fn bm_and(a: &croaring::Bitmap, b: &croaring::Bitmap) -> (r: croaring::Bitmap)
    ensures
        ids(r) == ids(*a).intersect(ids(*b)),
{
    a.and(b)
}

/// Relies on croaring's `Clone` for `Bitmap`: the copy holds the same ids.
#[verifier::external_body]
pub(crate) fn bm_clone(b: &croaring::Bitmap) -> (r: croaring::Bitmap)
    ensures
        ids(r) == ids(*b),
{
    b.clone()
}

/// Relies on croaring's `Bitmap::to_vec`: all stored ids, in sorted order.
#[verifier::external_body]
pub(crate) fn bm_to_vec(b: &croaring::Bitmap) -> (r: Vec<u32>)
    ensures
        strictly_ascending(r@),
        r@.to_set() == ids(*b),
{
    b.to_vec()
}

/// The ids a postings bitmap holds, as a strictly ascending vector.
pub fn ordered_ids(b: &croaring::Bitmap) -> (r: Vec<u32>)
    ensures
        strictly_ascending(r@),
        r@.to_set() == ids(*b),
{
    bm_to_vec(b)
}

} // verus!
