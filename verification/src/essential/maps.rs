//! Применение функции к нескольким необязательным значениям.
use vstd::prelude::*;

verus! {

/// `Some(f(a, b))`, если оба значения есть; иначе `None`.
pub fn map_2<A, B, C, F: FnOnce(A, B) -> C>(a: Option<A>, b: Option<B>, f: F) -> (r: Option<C>)
    requires
        a is Some && b is Some ==> call_requires(f, (a->Some_0, b->Some_0)),
    ensures
        a is Some && b is Some ==> r is Some && call_ensures(f, (a->Some_0, b->Some_0), r->Some_0),
        !(a is Some && b is Some) ==> r is None,
{
    match (a, b) {
        (Some(x), Some(y)) => Some(f(x, y)),
        _ => None,
    }
}

/// `Some(f(a, b, c))`, если все три значения есть; иначе `None`.
pub fn map_3<A, B, C, D, F: FnOnce(A, B, C) -> D>(a: Option<A>, b: Option<B>, c: Option<C>, f: F) -> (r: Option<D>)
    requires
        a is Some && b is Some && c is Some ==> call_requires(f, (a->Some_0, b->Some_0, c->Some_0)),
    ensures
        a is Some && b is Some && c is Some ==> r is Some && call_ensures(f, (a->Some_0, b->Some_0, c->Some_0), r->Some_0),
        !(a is Some && b is Some && c is Some) ==> r is None,
{
    match (a, b, c) {
        (Some(x), Some(y), Some(z)) => Some(f(x, y, z)),
        _ => None,
    }
}

} // verus!
