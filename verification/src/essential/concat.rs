//! Склейка срезов.
use vstd::prelude::*;

verus! {

/// Склейка срезов по порядку.
pub open spec fn concat_all<T>(parts: Seq<Seq<T>>) -> Seq<T>
    decreases parts.len(),
{
    if parts.len() == 0 {
        seq![]
    } else {
        concat_all(parts.drop_last()) + parts.last()
    }
}

/// Склеивает срезы в один вектор (элементы копируются).
pub fn concat_slice<T: Copy>(parts: &[&[T]]) -> (r: Vec<T>)
    ensures
        r@ == concat_all(parts@.map_values(|p: &[T]| p@)),
{
    let ghost views = parts@.map_values(|p: &[T]| p@);
    let mut out: Vec<T> = Vec::new();
    let mut i: usize = 0;
    while i < parts.len()
        invariant
            i <= parts@.len(),
            views == parts@.map_values(|p: &[T]| p@),
            out@ == concat_all(views.take(i as int)),
        decreases parts.len() - i,
    {
        let part = parts[i];
        let ghost before = out@;
        let mut j: usize = 0;
        while j < part.len()
            invariant
                j <= part@.len(),
                out@ == before + part@.take(j as int),
            decreases part.len() - j,
        {
            out.push(part[j]);
            assert(out@ =~= before + part@.take(j + 1));
            j = j + 1;
        }
        proof {
            assert(part@.take(part@.len() as int) =~= part@);
            assert(views.take(i + 1).drop_last() =~= views.take(i as int));
        }
        i = i + 1;
    }
    assert(views.take(parts@.len() as int) =~= views);
    out
}

} // verus!
