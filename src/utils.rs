use vstd::prelude::*;

verus! {

/// Applies `op` to the value held by `a`, if any, and wraps its result.
pub fn inspect<T, R, Op: FnOnce(&T) -> R>(a: &Option<T>, op: Op) -> (r: Option<R>)
    requires
        a matches Some(v) ==> op.requires((&v,)),
    ensures
        a is None <==> r is None,
        a matches Some(v) ==> op.ensures((&v,), r->Some_0),
{
    if let Some(value) = a {
        Some(op(value))
    } else {
        None
    }
}

} // verus!
