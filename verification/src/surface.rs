//! Meshes as they come from a file: flat lists of numbers, three to a
//! triangle or a point.
use vstd::prelude::*;

verus! {

/// Groups a flat list in threes: the indices of a mesh into triangles, its
/// coordinates into points.
pub fn triples<T: Copy>(flat: &[T]) -> (grouped: Vec<[T; 3]>)
    requires
        flat@.len() % 3 == 0,
    ensures
        grouped@.len() == flat@.len() / 3,
        forall|i: int|
            0 <= i < grouped@.len() ==> (#[trigger] grouped@[i])@ == flat@.subrange(3 * i, 3 * i + 3),
{
    let total: usize = flat.len();
    let count: usize = total / 3;
    let mut grouped: Vec<[T; 3]> = Vec::with_capacity(count);
    let mut i: usize = 0;
    while i < count
        invariant
            flat@.len() % 3 == 0,
            total == flat@.len(),
            count == flat@.len() / 3,
            0 <= i <= count,
            grouped@.len() == i,
            forall|k: int|
                0 <= k < i ==> (#[trigger] grouped@[k])@ == flat@.subrange(3 * k, 3 * k + 3),
        decreases count - i,
    {
        let triple: [T; 3] = [flat[3 * i], flat[3 * i + 1], flat[3 * i + 2]];
        assert(triple@ =~= flat@.subrange(3 * i, 3 * i + 3));
        grouped.push(triple);
        i += 1;
    }
    grouped
}

} // verus!
