use vstd::prelude::*;

verus! {

/// Whether `data` is one of the accepted values in `range`.
pub fn check_if_valid(data: &usize, range: &[usize]) -> (r: bool)
    ensures
        r == range@.contains(*data),
{
    let mut out: bool = false;
    let mut i: usize = 0;
    while i < range.len()
        invariant
            i <= range@.len(),
            out == exists|j: int| 0 <= j < i && range@[j] == *data,
        decreases range@.len() - i,
    {
        if *data == range[i] {
            out = true;
        }
        i += 1;
    }
    out
}

} // verus!
