use vstd::prelude::*;
use std::sync::Arc;

verus! {

/// Relies on std::sync::Arc::clone: cloning a reference-counted handle
/// yields a handle to the same value (the standard library documents the
/// clone as a new pointer to the same allocation).
#[verifier::external_body]
pub fn arc_clone<T>(a: &Arc<T>) -> (res: Arc<T>)
    ensures
        res == *a,
{
    a.clone()
}

} // verus!
