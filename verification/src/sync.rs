//! Shared values.

use std::sync::Arc;

use vstd::prelude::*;

verus! {

/// Calls `Arc::clone`: the new pointer leads to the same value.
#[verifier::external_body]
pub(crate) fn share<T>(a: &Arc<T>) -> (r: Arc<T>)
    ensures
        r == *a,
{
    Arc::clone(a)
}

} // verus!
