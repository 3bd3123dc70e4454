//! Reference counted values.

use std::sync::Arc;
use vstd::prelude::*;

verus! {

/// Another reference to the value behind `a`, by `Arc::clone`, which shares the
/// value and copies nothing.
#[verifier::external_body]
pub(crate) fn share<T>(a: &Arc<T>) -> (r: Arc<T>)
    ensures
        r == *a,
{
    Arc::clone(a)
}

/// The value behind `a`, to be changed in place, by `Arc::get_mut`: nothing is
/// returned while another reference to the value, strong or weak, exists.
#[verifier::external_body]
pub(crate) fn sole<T>(a: &mut Arc<T>) -> (r: Option<&mut T>)
    ensures
        match r {
            Some(x) => *x == **old(a) && **final(a) == *final(x),
            None => *final(a) == *old(a),
        },
{
    Arc::get_mut(a)
}

/// How many strong references to the value exist, by `Arc::strong_count`.
#[verifier::external_body]
pub(crate) fn strong_count<T>(a: &Arc<T>) -> (r: usize)
{
    Arc::strong_count(a)
}

/// How many weak references to the value exist, by `Arc::weak_count`.
#[verifier::external_body]
pub(crate) fn weak_count<T>(a: &Arc<T>) -> (r: usize)
{
    Arc::weak_count(a)
}

/// Whether both are references to one value, by `Arc::ptr_eq`; one value equals
/// itself.
#[verifier::external_body]
pub(crate) fn same_arc<T>(a: &Arc<T>, b: &Arc<T>) -> (r: bool)
    ensures
        r ==> *a == *b,
{
    Arc::ptr_eq(a, b)
}

} // verus!
